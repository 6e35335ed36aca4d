//! Character-level text utilities shared by the rest of the library.
//!
//! Strings are modelled by their `Seq<char>` view. Comparisons follow the
//! code-point order of the characters, which is the order in which `String`
//! values compare.

use vstd::prelude::*;

verus! {

// ---------------------------------------------------------------------------
// Specifications
// ---------------------------------------------------------------------------

/// The Unicode `White_Space` property, which is what `char::is_whitespace`
/// and `str::trim` test.
pub open spec fn is_white_space(c: char) -> bool {
    let u = c as u32;
    ||| 0x09 <= u <= 0x0d
    ||| u == 0x20
    ||| u == 0x85
    ||| u == 0xa0
    ||| u == 0x1680
    ||| 0x2000 <= u <= 0x200a
    ||| u == 0x2028
    ||| u == 0x2029
    ||| u == 0x202f
    ||| u == 0x205f
    ||| u == 0x3000
}

/// The first `n` characters of `s`, or all of them.
pub open spec fn prefix(s: Seq<char>, n: nat) -> Seq<char> {
    if n <= s.len() {
        s.take(n as int)
    } else {
        s
    }
}

/// `s` with its leading white space removed.
pub open spec fn trim_start(s: Seq<char>) -> Seq<char>
    decreases s.len(),
{
    if s.len() > 0 && is_white_space(s[0]) {
        trim_start(s.drop_first())
    } else {
        s
    }
}

/// `s` with its trailing white space removed.
pub open spec fn trim_end(s: Seq<char>) -> Seq<char>
    decreases s.len(),
{
    if s.len() > 0 && is_white_space(s.last()) {
        trim_end(s.drop_last())
    } else {
        s
    }
}

/// `s` with white space removed at both ends (what `str::trim` returns).
pub open spec fn trim(s: Seq<char>) -> Seq<char> {
    trim_end(trim_start(s))
}

/// Whether `s` holds nothing but white space.
pub open spec fn is_blank(s: Seq<char>) -> bool {
    trim(s).len() == 0
}

/// The code of `c` after ASCII lower-casing (only `A`..=`Z` change).
pub open spec fn lower_code(c: char) -> u32 {
    let u = c as u32;
    if 0x41 <= u <= 0x5a {
        (u + 0x20) as u32
    } else {
        u
    }
}

/// The codes of `s` after ASCII lower-casing.
pub open spec fn lower_codes(s: Seq<char>) -> Seq<u32> {
    s.map_values(|c: char| lower_code(c))
}

/// `needle` occurs in `hay` at position `i`.
pub open spec fn occurs_at<A>(hay: Seq<A>, needle: Seq<A>, i: int) -> bool {
    0 <= i && i + needle.len() <= hay.len() && hay.subrange(i, i + needle.len()) == needle
}

/// `needle` occurs somewhere in `hay` (an empty needle always does).
pub open spec fn has_substring<A>(hay: Seq<A>, needle: Seq<A>) -> bool {
    exists|i: int| occurs_at(hay, needle, i)
}

/// Lexicographic order on character sequences, by code point.
pub open spec fn str_lt(a: Seq<char>, b: Seq<char>) -> bool
    decreases a.len(),
{
    if a.len() == 0 {
        b.len() > 0
    } else if b.len() == 0 {
        false
    } else if (a[0] as u32) < (b[0] as u32) {
        true
    } else if (a[0] as u32) > (b[0] as u32) {
        false
    } else {
        str_lt(a.drop_first(), b.drop_first())
    }
}

/// The character of a decimal digit.
pub open spec fn digit_char(d: nat) -> char {
    if d == 0 { '0' }
    else if d == 1 { '1' }
    else if d == 2 { '2' }
    else if d == 3 { '3' }
    else if d == 4 { '4' }
    else if d == 5 { '5' }
    else if d == 6 { '6' }
    else if d == 7 { '7' }
    else if d == 8 { '8' }
    else if d == 9 { '9' }
    else if d == 10 { 'a' }
    else if d == 11 { 'b' }
    else if d == 12 { 'c' }
    else if d == 13 { 'd' }
    else if d == 14 { 'e' }
    else { 'f' }
}

/// The decimal representation of `n`, without leading zeros.
pub open spec fn decimal(n: nat) -> Seq<char>
    decreases n,
{
    if n < 10 {
        seq![digit_char(n)]
    } else {
        decimal(n / 10) + seq![digit_char(n % 10)]
    }
}

/// The decimal representation of a signed integer, with a leading `-` when
/// it is negative.
pub open spec fn signed_decimal(n: int) -> Seq<char> {
    if n < 0 {
        seq!['-'] + decimal((-n) as nat)
    } else {
        decimal(n as nat)
    }
}

/// The last `k` lower-case hexadecimal digits of `n`, zero-padded.
pub open spec fn hex_digits(n: nat, k: nat) -> Seq<char>
    decreases k,
{
    if k == 0 {
        Seq::empty()
    } else {
        hex_digits(n / 16, (k - 1) as nat) + seq![digit_char(n % 16)]
    }
}

/// The views of a sequence of strings.
pub open spec fn views(v: Seq<String>) -> Seq<Seq<char>> {
    v.map_values(|s: String| s@)
}

/// The elements of `list` separated by `sep` (what `join` gives).
pub open spec fn join(list: Seq<Seq<char>>, sep: Seq<char>) -> Seq<char>
    decreases list.len(),
{
    if list.len() == 0 {
        Seq::empty()
    } else if list.len() == 1 {
        list[0]
    } else {
        join(list.drop_last(), sep) + sep + list.last()
    }
}

// ---------------------------------------------------------------------------
// Lemmas
// ---------------------------------------------------------------------------

/// Removing leading white space before position `i` does not change
/// `trim_start`.
pub proof fn lemma_trim_start_skip(s: Seq<char>, i: int)
    requires
        0 <= i <= s.len(),
        forall|k: int| 0 <= k < i ==> is_white_space(#[trigger] s[k]),
    ensures
        trim_start(s) == trim_start(s.subrange(i, s.len() as int)),
    decreases i,
{
    if i > 0 {
        assert(s.drop_first() =~= s.subrange(1, s.len() as int));
        lemma_trim_start_skip(s.drop_first(), i - 1);
        assert(s.drop_first().subrange(i - 1, s.drop_first().len() as int) =~= s.subrange(
            i,
            s.len() as int,
        ));
    } else {
        assert(s.subrange(0, s.len() as int) =~= s);
    }
}

/// Removing trailing white space from position `j` on does not change
/// `trim_end`.
pub proof fn lemma_trim_end_skip(s: Seq<char>, j: int)
    requires
        0 <= j <= s.len(),
        forall|k: int| j <= k < s.len() ==> is_white_space(#[trigger] s[k]),
    ensures
        trim_end(s) == trim_end(s.subrange(0, j)),
    decreases s.len() - j,
{
    if j < s.len() {
        assert(s.drop_last() =~= s.subrange(0, s.len() - 1));
        lemma_trim_end_skip(s.drop_last(), j);
        assert(s.drop_last().subrange(0, j) =~= s.subrange(0, j));
    } else {
        assert(s.subrange(0, j) =~= s);
    }
}

/// A sequence made only of white space trims to nothing, and the trimmed
/// text of any sequence lies between its first and last non-white-space
/// characters.
pub proof fn lemma_trim_bounds(s: Seq<char>, i: int, j: int)
    requires
        0 <= i <= j <= s.len(),
        forall|k: int| 0 <= k < i ==> is_white_space(#[trigger] s[k]),
        forall|k: int| j <= k < s.len() ==> is_white_space(#[trigger] s[k]),
        i < j ==> !is_white_space(s[i]) && !is_white_space(s[j - 1]),
        i == j ==> i == s.len(),
    ensures
        trim(s) == s.subrange(i, j),
{
    lemma_trim_start_skip(s, i);
    let t = s.subrange(i, s.len() as int);
    if i < j {
        assert(t[0] == s[i]);
        assert(trim_start(t) == t);
        assert forall|k: int| j - i <= k < t.len() implies is_white_space(#[trigger] t[k]) by {
            assert(t[k] == s[k + i]);
        }
        lemma_trim_end_skip(t, j - i);
        let u = t.subrange(0, j - i);
        assert(u =~= s.subrange(i, j));
        assert(u.last() == s[j - 1]);
    } else {
        assert(t.len() == 0);
        assert(s.subrange(i, j) =~= Seq::<char>::empty());
    }
}

/// Characters with the same code are the same character.
pub proof fn lemma_char_code_injective(x: char, y: char)
    requires
        (x as u32) == (y as u32),
    ensures
        x == y,
{
    assert((x as u32) == (y as u32) ==> (x as int) == (y as int));
    assert((x as int) == (y as int) ==> x == y);
}

/// `trim_start(s)` is a suffix of `s`.
pub proof fn lemma_trim_start_suffix(s: Seq<char>)
    ensures
        exists|a: int| 0 <= a <= s.len() && trim_start(s) == s.subrange(a, s.len() as int),
    decreases s.len(),
{
    if s.len() > 0 && is_white_space(s[0]) {
        lemma_trim_start_suffix(s.drop_first());
        let a = choose|a: int|
            0 <= a <= s.drop_first().len() && trim_start(s.drop_first()) == s.drop_first().subrange(
                a,
                s.drop_first().len() as int,
            );
        assert(s.drop_first().subrange(a, s.drop_first().len() as int) =~= s.subrange(
            a + 1,
            s.len() as int,
        ));
    } else {
        assert(s.subrange(0, s.len() as int) =~= s);
    }
}

/// `trim_end(s)` is a prefix of `s`.
pub proof fn lemma_trim_end_prefix(s: Seq<char>)
    ensures
        exists|b: int| 0 <= b <= s.len() && trim_end(s) == s.subrange(0, b),
    decreases s.len(),
{
    if s.len() > 0 && is_white_space(s.last()) {
        lemma_trim_end_prefix(s.drop_last());
        let b = choose|b: int|
            0 <= b <= s.drop_last().len() && trim_end(s.drop_last()) == s.drop_last().subrange(0, b);
        assert(s.drop_last().subrange(0, b) =~= s.subrange(0, b));
    } else {
        assert(s.subrange(0, s.len() as int) =~= s);
    }
}

/// When `t` occurs in `h`, so does its trimmed text.
pub proof fn lemma_trim_is_substring(h: Seq<char>, t: Seq<char>)
    requires
        has_substring(h, t),
    ensures
        has_substring(h, trim(t)),
{
    let i = choose|i: int| occurs_at(h, t, i);
    lemma_trim_start_suffix(t);
    let a = choose|a: int| 0 <= a <= t.len() && trim_start(t) == t.subrange(a, t.len() as int);
    let u = trim_start(t);
    lemma_trim_end_prefix(u);
    let b = choose|b: int| 0 <= b <= u.len() && trim_end(u) == u.subrange(0, b);
    assert(trim(t) =~= h.subrange(i + a, i + a + b));
    assert(occurs_at(h, trim(t), i + a));
}

/// `str_lt` is irreflexive.
pub proof fn lemma_str_lt_irreflexive(a: Seq<char>)
    ensures
        !str_lt(a, a),
    decreases a.len(),
{
    if a.len() > 0 {
        lemma_str_lt_irreflexive(a.drop_first());
    }
}

/// `str_lt` is transitive.
pub proof fn lemma_str_lt_transitive(a: Seq<char>, b: Seq<char>, c: Seq<char>)
    requires
        str_lt(a, b),
        str_lt(b, c),
    ensures
        str_lt(a, c),
    decreases a.len(),
{
    if a.len() > 0 && b.len() > 0 && c.len() > 0 {
        if (a[0] as u32) == (b[0] as u32) && (b[0] as u32) == (c[0] as u32) {
            lemma_str_lt_transitive(a.drop_first(), b.drop_first(), c.drop_first());
        }
    }
}

/// Two distinct sequences are ordered one way or the other.
pub proof fn lemma_str_lt_total(a: Seq<char>, b: Seq<char>)
    requires
        a != b,
    ensures
        str_lt(a, b) || str_lt(b, a),
    decreases a.len(),
{
    if a.len() > 0 && b.len() > 0 && (a[0] as u32) == (b[0] as u32) {
        if a.drop_first() == b.drop_first() {
            assert(a =~= seq![a[0]] + a.drop_first());
            assert(b =~= seq![b[0]] + b.drop_first());
            lemma_char_code_injective(a[0], b[0]);
        }
        lemma_str_lt_total(a.drop_first(), b.drop_first());
    } else if a.len() == 0 && b.len() == 0 {
        assert(a =~= b);
    }
}

// ---------------------------------------------------------------------------
// Executable functions
// ---------------------------------------------------------------------------

/// Append one character to a string.
#[verifier::external_body]
fn push_char(s: &mut String, c: char)
    ensures
        final(s)@ == old(s)@.push(c),
{
    s.push(c);
}

/// Collect the characters of `s` in order.
pub fn chars_of(s: &str) -> (res: Vec<char>)
    ensures
        res@ == s@,
{
    let mut res: Vec<char> = Vec::new();
    for c in it: s.chars()
        invariant
            res@ == it.seq().take(it.index() as int),
            it.seq() == s@,
    {
        res.push(c);
    }
    res
}

/// The string made of `v[from..to]`.
pub fn string_of(v: &Vec<char>, from: usize, to: usize) -> (res: String)
    requires
        from <= to <= v.len(),
    ensures
        res@ == v@.subrange(from as int, to as int),
{
    let mut res = String::new();
    let mut i = from;
    while i < to
        invariant
            from <= i <= to <= v.len(),
            res@ == v@.subrange(from as int, i as int),
        decreases to - i,
    {
        push_char(&mut res, v[i]);
        assert(v@.subrange(from as int, i + 1) =~= v@.subrange(from as int, i as int).push(v@[i as int]));
        i = i + 1;
    }
    res
}

/// A copy of `s` as an owned string.
pub fn to_owned_string(s: &str) -> (res: String)
    ensures
        res@ == s@,
{
    let v = chars_of(s);
    let r = string_of(&v, 0, v.len());
    assert(v@.subrange(0, v@.len() as int) =~= v@);
    r
}

/// Whether `c` is Unicode white space.
pub fn is_ws(c: char) -> (res: bool)
    ensures
        res == is_white_space(c),
{
    let u = c as u32;
    (0x09 <= u && u <= 0x0d) || u == 0x20 || u == 0x85 || u == 0xa0 || u == 0x1680 || (0x2000
        <= u && u <= 0x200a) || u == 0x2028 || u == 0x2029 || u == 0x202f || u == 0x205f || u
        == 0x3000
}

/// The bounds `(i, j)` of the trimmed part of `v`.
pub fn trim_bounds(v: &Vec<char>) -> (res: (usize, usize))
    ensures
        res.0 <= res.1 <= v.len(),
        trim(v@) == v@.subrange(res.0 as int, res.1 as int),
{
    let n = v.len();
    let mut i: usize = 0;
    while i < n && is_ws(v[i])
        invariant
            i <= n == v.len(),
            forall|k: int| 0 <= k < i ==> is_white_space(#[trigger] v@[k]),
        decreases n - i,
    {
        i = i + 1;
    }
    let mut j: usize = n;
    while j > i && is_ws(v[j - 1])
        invariant
            i <= j <= n == v.len(),
            forall|k: int| j <= k < n ==> is_white_space(#[trigger] v@[k]),
        decreases j,
    {
        j = j - 1;
    }
    proof {
        if i == j && i < n {
            assert(!is_white_space(v@[i as int]));
            assert(false);
        }
        lemma_trim_bounds(v@, i as int, j as int);
    }
    (i, j)
}

/// `s` with leading and trailing white space removed.
pub fn trim_str(s: &str) -> (res: String)
    ensures
        res@ == trim(s@),
{
    let v = chars_of(s);
    let (i, j) = trim_bounds(&v);
    string_of(&v, i, j)
}

/// Whether `s` is empty once trimmed.
pub fn is_blank_str(s: &str) -> (res: bool)
    ensures
        res == is_blank(s@),
{
    let v = chars_of(s);
    let (i, j) = trim_bounds(&v);
    i == j
}

/// Equality of two strings by their characters.
pub fn str_eq(a: &str, b: &str) -> (res: bool)
    ensures
        res == (a@ == b@),
{
    let va = chars_of(a);
    let vb = chars_of(b);
    if va.len() != vb.len() {
        return false;
    }
    let mut i: usize = 0;
    while i < va.len()
        invariant
            va@ == a@,
            vb@ == b@,
            va.len() == vb.len(),
            i <= va.len(),
            forall|k: int| 0 <= k < i ==> va@[k] == vb@[k],
        decreases va.len() - i,
    {
        if va[i] != vb[i] {
            return false;
        }
        i = i + 1;
    }
    assert(va@ =~= vb@);
    true
}

/// The code of `c` after ASCII lower-casing.
pub fn lower_code_of(c: char) -> (res: u32)
    ensures
        res == lower_code(c),
{
    let u = c as u32;
    if 0x41 <= u && u <= 0x5a {
        u + 0x20
    } else {
        u
    }
}

/// ASCII case-insensitive equality (what `str::eq_ignore_ascii_case` tests).
pub fn eq_ignore_ascii_case(a: &str, b: &str) -> (res: bool)
    ensures
        res == (lower_codes(a@) == lower_codes(b@)),
{
    let va = chars_of(a);
    let vb = chars_of(b);
    if va.len() != vb.len() {
        assert(lower_codes(a@).len() != lower_codes(b@).len());
        return false;
    }
    let mut i: usize = 0;
    while i < va.len()
        invariant
            va@ == a@,
            vb@ == b@,
            va.len() == vb.len(),
            i <= va.len(),
            forall|k: int| 0 <= k < i ==> lower_code(va@[k]) == lower_code(vb@[k]),
        decreases va.len() - i,
    {
        if lower_code_of(va[i]) != lower_code_of(vb[i]) {
            assert(lower_codes(a@)[i as int] != lower_codes(b@)[i as int]);
            return false;
        }
        i = i + 1;
    }
    assert(lower_codes(a@) =~= lower_codes(b@));
    true
}

/// Whether the ASCII lower-cased `needle` occurs in the ASCII lower-cased
/// `hay` (what `hay.to_ascii_lowercase().contains(&needle.to_ascii_lowercase())`
/// tests).
pub fn contains_ignore_ascii_case(hay: &str, needle: &str) -> (res: bool)
    ensures
        res == has_substring(lower_codes(hay@), lower_codes(needle@)),
{
    let h = chars_of(hay);
    let n = chars_of(needle);
    let ghost lh = lower_codes(hay@);
    let ghost ln = lower_codes(needle@);
    if n.len() > h.len() {
        assert forall|i: int| !occurs_at(lh, ln, i) by {}
        return false;
    }
    let last = h.len() - n.len();
    let mut i: usize = 0;
    while i <= last
        invariant
            h@ == hay@,
            n@ == needle@,
            lh == lower_codes(hay@),
            ln == lower_codes(needle@),
            n.len() <= h.len(),
            last == h.len() - n.len(),
            i <= last + 1,
            forall|p: int| 0 <= p < i ==> !occurs_at(lh, ln, p),
        decreases last + 1 - i,
    {
        let mut k: usize = 0;
        while k < n.len() && lower_code_of(h[i + k]) == lower_code_of(n[k])
            invariant
                h@ == hay@,
                n@ == needle@,
                lh == lower_codes(hay@),
                ln == lower_codes(needle@),
                i <= last,
                last == h.len() - n.len(),
                k <= n.len(),
                forall|q: int| 0 <= q < k ==> lh[i + q] == ln[q],
            decreases n.len() - k,
        {
            k = k + 1;
        }
        if k == n.len() {
            assert(lh.subrange(i as int, i + ln.len()) =~= ln);
            assert(occurs_at(lh, ln, i as int));
            return true;
        }
        assert(lh.subrange(i as int, i + ln.len())[k as int] != ln[k as int]);
        i = i + 1;
    }
    assert forall|p: int| !occurs_at(lh, ln, p) by {}
    false
}

/// Whether `needle` occurs in `hay`, character for character (what
/// `str::contains` tests for a string pattern).
pub fn str_contains(hay: &str, needle: &str) -> (res: bool)
    ensures
        res == has_substring(hay@, needle@),
{
    let h = chars_of(hay);
    let n = chars_of(needle);
    if n.len() > h.len() {
        assert forall|i: int| !occurs_at(hay@, needle@, i) by {}
        return false;
    }
    let last = h.len() - n.len();
    let mut i: usize = 0;
    while i <= last
        invariant
            h@ == hay@,
            n@ == needle@,
            n.len() <= h.len(),
            last == h.len() - n.len(),
            i <= last + 1,
            forall|p: int| 0 <= p < i ==> !occurs_at(hay@, needle@, p),
        decreases last + 1 - i,
    {
        let mut k: usize = 0;
        while k < n.len() && h[i + k] == n[k]
            invariant
                h@ == hay@,
                n@ == needle@,
                i <= last,
                last == h.len() - n.len(),
                k <= n.len(),
                forall|q: int| 0 <= q < k ==> hay@[i + q] == needle@[q],
            decreases n.len() - k,
        {
            k = k + 1;
        }
        if k == n.len() {
            assert(hay@.subrange(i as int, i + needle@.len()) =~= needle@);
            assert(occurs_at(hay@, needle@, i as int));
            return true;
        }
        assert(hay@.subrange(i as int, i + needle@.len())[k as int] != needle@[k as int]);
        i = i + 1;
    }
    assert forall|p: int| !occurs_at(hay@, needle@, p) by {}
    false
}

/// Lexicographic `a < b` by code point (the order of `String`).
pub fn str_less(a: &str, b: &str) -> (res: bool)
    ensures
        res == str_lt(a@, b@),
{
    let va = chars_of(a);
    let vb = chars_of(b);
    let mut i: usize = 0;
    assert(a@.skip(0) =~= a@);
    assert(b@.skip(0) =~= b@);
    while i < va.len() && i < vb.len()
        invariant
            va@ == a@,
            vb@ == b@,
            i <= va.len(),
            i <= vb.len(),
            str_lt(a@, b@) == str_lt(a@.skip(i as int), b@.skip(i as int)),
        decreases va.len() - i,
    {
        let ca = va[i] as u32;
        let cb = vb[i] as u32;
        assert(a@.skip(i as int)[0] == va@[i as int]);
        assert(b@.skip(i as int)[0] == vb@[i as int]);
        if ca < cb {
            return true;
        }
        if ca > cb {
            return false;
        }
        assert(a@.skip(i as int).drop_first() =~= a@.skip(i + 1));
        assert(b@.skip(i as int).drop_first() =~= b@.skip(i + 1));
        i = i + 1;
    }
    i < vb.len()
}

/// The character of a digit below sixteen.
fn digit_of(d: u64) -> (c: char)
    requires
        d < 16,
    ensures
        c == digit_char(d as nat),
{
    if d == 0 { '0' }
    else if d == 1 { '1' }
    else if d == 2 { '2' }
    else if d == 3 { '3' }
    else if d == 4 { '4' }
    else if d == 5 { '5' }
    else if d == 6 { '6' }
    else if d == 7 { '7' }
    else if d == 8 { '8' }
    else if d == 9 { '9' }
    else if d == 10 { 'a' }
    else if d == 11 { 'b' }
    else if d == 12 { 'c' }
    else if d == 13 { 'd' }
    else if d == 14 { 'e' }
    else { 'f' }
}

/// The decimal representation of `n` (what `n.to_string()` gives).
pub fn decimal_string(n: u64) -> (res: String)
    ensures
        res@ == decimal(n as nat),
{
    // Digits, least significant first.
    let mut rev: Vec<char> = Vec::new();
    let mut m = n;
    let ghost mut acc: Seq<char> = Seq::empty();
    rev.push(digit_of(m % 10));
    proof {
        acc = seq![digit_char((m % 10) as nat)];
    }
    m = m / 10;
    // decimal(n) == decimal(m) + acc when m > 0, and == acc when m == 0.
    while m > 0
        invariant
            rev@.len() == acc.len(),
            forall|k: int| 0 <= k < acc.len() ==> #[trigger] rev@[k] == acc[acc.len() - 1 - k],
            m == 0 ==> decimal(n as nat) == acc,
            m > 0 ==> decimal(n as nat) == decimal(m as nat) + acc,
        decreases m,
    {
        let d = m % 10;
        rev.push(digit_of(d));
        proof {
            let old_acc = acc;
            acc = seq![digit_char(d as nat)] + old_acc;
            if m >= 10 {
                assert(decimal(m as nat) == decimal((m / 10) as nat) + seq![digit_char(d as nat)]);
                assert(decimal((m / 10) as nat) + seq![digit_char(d as nat)] + old_acc =~= decimal(
                    (m / 10) as nat,
                ) + acc);
            } else {
                assert(decimal(m as nat) == seq![digit_char(m as nat)]);
            }
        }
        m = m / 10;
    }
    let mut res = String::new();
    let mut i = rev.len();
    while i > 0
        invariant
            i <= rev@.len() == acc.len(),
            forall|k: int| 0 <= k < acc.len() ==> #[trigger] rev@[k] == acc[acc.len() - 1 - k],
            res@ == acc.subrange(0, (acc.len() - i) as int),
        decreases i,
    {
        i = i - 1;
        push_char(&mut res, rev[i]);
        assert(acc.subrange(0, (acc.len() - i) as int) =~= acc.subrange(
            0,
            (acc.len() - i - 1) as int,
        ).push(acc[(acc.len() - 1 - i) as int]));
    }
    assert(acc.subrange(0, acc.len() as int) =~= acc);
    res
}

/// The decimal representation of a signed integer.
pub fn signed_decimal_string(n: i64) -> (res: String)
    ensures
        res@ == signed_decimal(n as int),
{
    if n < 0 {
        let mag: u64 = if n == i64::MIN {
            9223372036854775808u64
        } else {
            (-n) as u64
        };
        let digits = decimal_string(mag);
        let mut res = String::new();
        push_char(&mut res, '-');
        res.append(digits.as_str());
        assert(res@ =~= seq!['-'] + decimal(mag as nat));
        res
    } else {
        decimal_string(n as u64)
    }
}

/// The last `k` hexadecimal digits of `n`, zero-padded (what `{:016x}`
/// prints for `k == 16`).
pub fn hex_string(n: u64, k: usize) -> (res: String)
    ensures
        res@ == hex_digits(n as nat, k as nat),
{
    let mut rev: Vec<char> = Vec::new();
    let mut m = n;
    let mut j: usize = 0;
    // hex_digits(n, k) == hex_digits(m, k - j) + acc
    let ghost mut acc: Seq<char> = Seq::empty();
    while j < k
        invariant
            j <= k,
            rev@.len() == acc.len() == j,
            forall|q: int| 0 <= q < acc.len() ==> #[trigger] rev@[q] == acc[acc.len() - 1 - q],
            hex_digits(n as nat, k as nat) == hex_digits(m as nat, (k - j) as nat) + acc,
        decreases k - j,
    {
        let d = m % 16;
        rev.push(digit_of(d));
        proof {
            let old_acc = acc;
            acc = seq![digit_char(d as nat)] + old_acc;
            assert(hex_digits(m as nat, (k - j) as nat) == hex_digits(
                (m / 16) as nat,
                (k - j - 1) as nat,
            ) + seq![digit_char(d as nat)]);
            assert(hex_digits((m / 16) as nat, (k - j - 1) as nat) + seq![digit_char(d as nat)]
                + old_acc =~= hex_digits((m / 16) as nat, (k - j - 1) as nat) + acc);
        }
        m = m / 16;
        j = j + 1;
    }
    assert(hex_digits(m as nat, 0) =~= Seq::<char>::empty());
    assert(hex_digits(n as nat, k as nat) =~= acc);
    let mut res = String::new();
    let mut i = rev.len();
    while i > 0
        invariant
            i <= rev@.len() == acc.len(),
            forall|q: int| 0 <= q < acc.len() ==> #[trigger] rev@[q] == acc[acc.len() - 1 - q],
            res@ == acc.subrange(0, (acc.len() - i) as int),
        decreases i,
    {
        i = i - 1;
        push_char(&mut res, rev[i]);
        assert(acc.subrange(0, (acc.len() - i) as int) =~= acc.subrange(
            0,
            (acc.len() - i - 1) as int,
        ).push(acc[(acc.len() - 1 - i) as int]));
    }
    assert(acc.subrange(0, acc.len() as int) =~= acc);
    res
}

/// The first `n` characters of `s` (all of them when `s` is shorter).
pub fn take_chars(s: &str, n: usize) -> (res: String)
    ensures
        res@ == prefix(s@, n as nat),
{
    let v = chars_of(s);
    let end = if n <= v.len() { n } else { v.len() };
    let r = string_of(&v, 0, end);
    assert(v@.subrange(0, v@.len() as int) =~= v@);
    r
}

/// The strings of `list` separated by `sep`.
pub fn join_strings(list: &Vec<String>, sep: &str) -> (res: String)
    ensures
        res@ == join(views(list@), sep@),
{
    let ghost vs = views(list@);
    let mut res = String::new();
    for i in 0..list.len()
        invariant
            vs == views(list@),
            res@ == join(vs.take(i as int), sep@),
    {
        assert(vs.take(i + 1).drop_last() =~= vs.take(i as int));
        assert(vs.take(i + 1).last() == list@[i as int]@);
        if i != 0 {
            res.append(sep);
        } else {
            assert(vs.take(1) =~= seq![list@[0]@]);
            assert(res@ + list@[0]@ =~= list@[0]@);
        }
        res.append(list[i].as_str());
    }
    assert(vs.take(list.len() as int) =~= vs);
    res
}

/// `a` followed by `b`.
pub fn concat2(a: &str, b: &str) -> (res: String)
    ensures
        res@ == a@ + b@,
{
    let mut res = to_owned_string(a);
    res.append(b);
    res
}

} // verus!

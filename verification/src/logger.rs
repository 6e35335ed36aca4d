//! Which log file the UI shows and which part of it.
//!
//! Setting up the subscriber and reading the directory and the file are
//! done by the application.

use vstd::prelude::*;

use crate::text::{concat2, str_eq};

verus! {

/// The name under which the daily log files are written.
pub const LOG_FILE_PREFIX: &'static str = "ip-killswitch.log";

/// The name of the log file of the day `date` (`YYYY-MM-DD`): the daily
/// appender writes `<prefix>.<date>`.
pub fn log_file_name(date: &str) -> (res: String)
    ensures
        res@ == LOG_FILE_PREFIX@ + "."@ + date@,
{
    let mut res = concat2(LOG_FILE_PREFIX, ".");
    res.append(date);
    res
}

/// A file of the log directory.
#[derive(Debug)]
pub struct LogCandidate {
    pub name: String,
    /// Modification time, in nanoseconds from the Unix epoch (negative
    /// before it).
    pub modified_nanos: i128,
}

/// `s` begins with `p`.
pub open spec fn starts_with(s: Seq<char>, p: Seq<char>) -> bool {
    p.len() <= s.len() && s.take(p.len() as int) == p
}

/// Whether `s` begins with `p`.
pub fn str_starts_with(s: &str, p: &str) -> (res: bool)
    ensures
        res == starts_with(s@, p@),
{
    let vs = crate::text::chars_of(s);
    let vp = crate::text::chars_of(p);
    if vp.len() > vs.len() {
        return false;
    }
    let head = crate::text::string_of(&vs, 0, vp.len());
    let r = str_eq(head.as_str(), p);
    assert(vs@.subrange(0, vp@.len() as int) =~= s@.take(p@.len() as int));
    r
}

/// A file counts as a log file when its name begins with the prefix.
pub open spec fn is_log_file(c: LogCandidate) -> bool {
    starts_with(c.name@, LOG_FILE_PREFIX@)
}

/// The index of the newest log file among `files`: the first log file
/// whose modification time is later than that of every log file before
/// it, and not earlier than any after it.
pub open spec fn is_newest(files: Seq<LogCandidate>, k: int) -> bool {
    &&& 0 <= k < files.len()
    &&& is_log_file(files[k])
    &&& forall|i: int|
        0 <= i < files.len() && is_log_file(#[trigger] files[i]) ==> if i < k {
            files[i].modified_nanos < files[k].modified_nanos
        } else {
            files[i].modified_nanos <= files[k].modified_nanos
        }
}

/// The newest log file, the earliest one on ties; `None` without log files.
pub fn newest_log(files: &Vec<LogCandidate>) -> (res: Option<usize>)
    ensures
        match res {
            Some(k) => is_newest(files@, k as int),
            None => forall|i: int| 0 <= i < files@.len() ==> !is_log_file(#[trigger] files@[i]),
        },
{
    let mut best: Option<usize> = None;
    for i in 0..files.len()
        invariant
            match best {
                Some(k) => k < i && is_newest(files@.take(i as int), k as int),
                None => forall|j: int| 0 <= j < i ==> !is_log_file(#[trigger] files@[j]),
            },
    {
        let ghost pre = files@.take(i as int);
        let ghost post = files@.take(i + 1);
        assert(forall|j: int| 0 <= j < i ==> post[j] == pre[j] && pre[j] == files@[j]);
        assert(post[i as int] == files@[i as int]);
        if str_starts_with(files[i].name.as_str(), LOG_FILE_PREFIX) {
            let newer = match best {
                None => true,
                Some(k) => files[i].modified_nanos > files[k].modified_nanos,
            };
            if newer {
                best = Some(i);
            }
        }
    }
    assert(files@.take(files.len() as int) =~= files@);
    best
}

/// Where the shown part of a log of `len` bytes starts: at the beginning
/// when it fits in `max_bytes`, else `max_bytes` before the end.
pub fn tail_start(len: usize, max_bytes: usize) -> (res: usize)
    ensures
        res == if len <= max_bytes { 0 } else { len - max_bytes },
{
    if len <= max_bytes {
        0
    } else {
        len - max_bytes
    }
}

/// The text that `String::from_utf8_lossy` decodes from `bytes`.
pub uninterp spec fn spec_utf8_lossy(bytes: Seq<u8>) -> Seq<char>;

/// Calls `String::from_utf8_lossy`. The contract names the text as a
/// function of the bytes and states what the documentation gives for valid
/// UTF-8: the decoded characters. How invalid sequences are replaced is not
/// stated.
#[verifier::external_body]
pub(crate) fn utf8_lossy(bytes: &[u8]) -> (res: String)
    ensures
        res@ == spec_utf8_lossy(bytes@),
        vstd::utf8::valid_utf8(bytes@) ==> res@ == vstd::utf8::decode_utf8(bytes@),
{
    String::from_utf8_lossy(bytes).to_string()
}

/// The last `max_bytes` bytes of a log (all of it when it is shorter),
/// decoded.
pub fn recent_text(bytes: &Vec<u8>, max_bytes: usize) -> (res: String)
    ensures
        res@ == spec_utf8_lossy(bytes@.subrange(tail_len_start(bytes@.len(), max_bytes as nat), bytes@.len() as int)),
{
    let start = tail_start(bytes.len(), max_bytes);
    let mut tail: Vec<u8> = Vec::new();
    let mut i = start;
    while i < bytes.len()
        invariant
            start <= i <= bytes.len(),
            tail@ == bytes@.subrange(start as int, i as int),
        decreases bytes.len() - i,
    {
        tail.push(bytes[i]);
        assert(bytes@.subrange(start as int, i + 1) =~= bytes@.subrange(start as int, i as int).push(bytes@[i as int]));
        i = i + 1;
    }
    utf8_lossy(tail.as_slice())
}

/// Where the shown part of a log of `len` bytes starts.
pub open spec fn tail_len_start(len: nat, max_bytes: nat) -> int {
    if len <= max_bytes {
        0
    } else {
        len - max_bytes
    }
}

} // verus!

//! Egress-IP detection: extracting an IP from a provider's answer, the retry
//! policy of one provider, and the verdict over all providers.
//!
//! The HTTP requests, timers and task spawning are driven by the
//! application; every decision they lead to is taken here.

use vstd::prelude::*;

use crate::config::{AppConfig, DetectStrategy, Provider};
use crate::text::{
    concat2, decimal, decimal_string, has_substring, is_blank, is_blank_str,
    lemma_str_lt_irreflexive, lemma_str_lt_total, lemma_str_lt_transitive,
    lemma_trim_is_substring, prefix, str_eq, str_less, str_lt, take_chars, trim, trim_str, views,
};

verus! {

// ---------------------------------------------------------------------------
// Regular expressions
// ---------------------------------------------------------------------------

#[verifier::external_type_specification]
#[verifier::external_body]
pub struct ExRegex(regex::Regex);

#[verifier::external_type_specification]
#[verifier::external_body]
pub struct ExRegexError(regex::Error);

/// Whether `regex::Regex::new` accepts `pattern`.
pub uninterp spec fn spec_regex_compiles(pattern: Seq<char>) -> bool;

/// The text of the leftmost-first match that `regex::Regex::find` reports
/// for `pattern` in `haystack`.
pub uninterp spec fn spec_regex_find(pattern: Seq<char>, haystack: Seq<char>) -> Option<Seq<char>>;

/// The texts of capture groups 1 and 0 that `regex::Regex::captures`
/// reports for `pattern` in `haystack` (`None` when there is no match).
pub uninterp spec fn spec_regex_captures(pattern: Seq<char>, haystack: Seq<char>) -> Option<
    (Option<Seq<char>>, Option<Seq<char>>),
>;

/// A compiled regular expression together with the pattern it was compiled
/// from. Only [`compile_regex`] builds one.
pub struct CompiledRegex {
    source: String,
    re: regex::Regex,
}

impl CompiledRegex {
    /// The pattern this expression was compiled from.
    pub closed spec fn pattern(&self) -> Seq<char> {
        self.source@
    }
}

/// Calls `regex::Regex::new`. The contract claims that it succeeds exactly
/// on the patterns named by `spec_regex_compiles`, and that the compiled
/// expression remembers its pattern; which patterns compile is not stated.
#[verifier::external_body]
pub(crate) fn compile_regex(pattern: &str) -> (res: Result<CompiledRegex, regex::Error>)
    ensures
        res is Ok <==> spec_regex_compiles(pattern@),
        res matches Ok(c) ==> c.pattern() == pattern@,
{
    match regex::Regex::new(pattern) {
        Ok(re) => Ok(CompiledRegex { source: pattern.to_string(), re }),
        Err(e) => Err(e),
    }
}

/// Calls `regex::Regex::find` and returns the matched text. The contract
/// names the result as a function of the pattern and the haystack, and
/// states the documented fact that a match is a piece of the haystack; what
/// the match is, is not stated.
#[verifier::external_body]
pub(crate) fn regex_find(re: &CompiledRegex, haystack: &str) -> (res: Option<String>)
    ensures
        res matches Some(m) ==> spec_regex_find(re.pattern(), haystack@) == Some(m@),
        res is None ==> spec_regex_find(re.pattern(), haystack@) is None,
        res matches Some(m) ==> has_substring(haystack@, m@),
{
    re.re.find(haystack).map(|m| m.as_str().to_string())
}

/// Calls `regex::Regex::captures` and returns the texts of groups 1 and 0.
/// The contract names the result as a function of the pattern and the
/// haystack, and states the documented facts that group 0 is present in
/// every match and that every group's text is a piece of the haystack.
#[verifier::external_body]
pub(crate) fn regex_captures(re: &CompiledRegex, haystack: &str) -> (res: Option<
    (Option<String>, Option<String>),
>)
    ensures
        res is None ==> spec_regex_captures(re.pattern(), haystack@) is None,
        res matches Some(c) ==> {
            &&& spec_regex_captures(re.pattern(), haystack@) matches Some(s)
            &&& s.0 == opt_view(c.0)
            &&& s.1 == opt_view(c.1)
            &&& c.1 is Some
            &&& c.0 matches Some(g) ==> has_substring(haystack@, g@)
            &&& c.1 matches Some(g) ==> has_substring(haystack@, g@)
        },
{
    re.re.captures(haystack).map(
        |c| (c.get(1).map(|m| m.as_str().to_string()), c.get(0).map(|m| m.as_str().to_string())),
    )
}

/// The view of an optional string.
pub open spec fn opt_view(o: Option<String>) -> Option<Seq<char>> {
    match o {
        Some(s) => Some(s@),
        None => None,
    }
}

/// The built-in extractor for IPv4 addresses.
pub const IPV4_PATTERN: &'static str = r"\b((?:25[0-5]|2[0-4]\d|1\d\d|[1-9]?\d)(?:\.(?:25[0-5]|2[0-4]\d|1\d\d|[1-9]?\d)){3})\b";

/// The built-in extractor for IPv6 addresses.
pub const IPV6_PATTERN: &'static str = r"\b(?:[A-Fa-f0-9]{1,4}:){2,7}[A-Fa-f0-9]{1,4}\b";

/// What a user pattern extracts from a capture: group 1 if it took part in
/// the match, else the whole match, trimmed; nothing if that is blank.
pub open spec fn spec_pick_capture(g1: Option<Seq<char>>, g0: Option<Seq<char>>) -> Option<Seq<char>> {
    let v = if g1 is Some { g1 } else { g0 };
    match v {
        Some(t) => if trim(t).len() > 0 { Some(trim(t)) } else { None },
        None => None,
    }
}

/// The IP chosen from the three extractors: the user pattern first, then
/// IPv4, then IPv6.
pub open spec fn spec_pick_ip(
    custom: Option<(Option<Seq<char>>, Option<Seq<char>>)>,
    ipv4: Option<Seq<char>>,
    ipv6: Option<Seq<char>>,
) -> Option<Seq<char>> {
    let from_custom = match custom {
        Some(c) => spec_pick_capture(c.0, c.1),
        None => None,
    };
    if from_custom is Some {
        from_custom
    } else if ipv4 is Some {
        ipv4
    } else {
        ipv6
    }
}

/// What the user pattern `pat` captures in `body`, if it is not blank and
/// compiles.
pub open spec fn spec_custom_capture(body: Seq<char>, custom: Option<Seq<char>>) -> Option<
    (Option<Seq<char>>, Option<Seq<char>>),
> {
    match custom {
        Some(pat) => if !is_blank(pat) && spec_regex_compiles(pat) {
            spec_regex_captures(pat, body)
        } else {
            None
        },
        None => None,
    }
}

/// What a built-in pattern finds in `body`, if it compiles.
pub open spec fn spec_builtin_find(pattern: Seq<char>, body: Seq<char>) -> Option<Seq<char>> {
    if spec_regex_compiles(pattern) {
        spec_regex_find(pattern, body)
    } else {
        None
    }
}

/// The IP extracted from `body`.
pub open spec fn spec_extract_ip(body: Seq<char>, custom: Option<Seq<char>>) -> Option<Seq<char>> {
    spec_pick_ip(
        spec_custom_capture(body, custom),
        spec_builtin_find(IPV4_PATTERN@, body),
        spec_builtin_find(IPV6_PATTERN@, body),
    )
}

/// Group 1 if present, else group 0; trimmed; `None` if blank.
pub fn pick_capture(g1: Option<String>, g0: Option<String>) -> (res: Option<String>)
    ensures
        opt_view(res) == spec_pick_capture(opt_view(g1), opt_view(g0)),
{
    let v = match g1 {
        Some(s) => Some(s),
        None => g0,
    };
    match v {
        Some(t) => {
            let tr = trim_str(t.as_str());
            if tr.unicode_len() > 0 {
                Some(tr)
            } else {
                None
            }
        },
        None => None,
    }
}

/// Choose the extracted IP from the results of the user pattern's capture,
/// the IPv4 search and the IPv6 search, in that order of preference.
pub fn pick_ip(
    custom: Option<(Option<String>, Option<String>)>,
    ipv4: Option<String>,
    ipv6: Option<String>,
) -> (res: Option<String>)
    ensures
        opt_view(res) == spec_pick_ip(
            match custom {
                Some(c) => Some((opt_view(c.0), opt_view(c.1))),
                None => None,
            },
            opt_view(ipv4),
            opt_view(ipv6),
        ),
{
    let from_custom = match custom {
        Some(c) => pick_capture(c.0, c.1),
        None => None,
    };
    if from_custom.is_some() {
        from_custom
    } else if ipv4.is_some() {
        ipv4
    } else {
        ipv6
    }
}

/// Search `body` with a built-in pattern.
fn builtin_find(pattern: &str, body: &str) -> (res: Option<String>)
    ensures
        opt_view(res) == spec_builtin_find(pattern@, body@),
        res matches Some(m) ==> has_substring(body@, m@),
{
    match compile_regex(pattern) {
        Ok(re) => regex_find(&re, body),
        Err(_) => None,
    }
}

/// Pull the first IP out of an arbitrary HTTP body. Tries the user-provided
/// regex first, then a strict IPv4 matcher, then IPv6. What comes out is
/// always a piece of the body.
pub fn extract_ip(body: &str, custom: Option<&str>) -> (res: Option<String>)
    ensures
        opt_view(res) == spec_extract_ip(
            body@,
            match custom {
                Some(p) => Some(p@),
                None => None,
            },
        ),
        res matches Some(ip) ==> has_substring(body@, ip@),
{
    let captured = match custom {
        Some(pat) => {
            if !is_blank_str(pat) {
                match compile_regex(pat) {
                    Ok(re) => regex_captures(&re, body),
                    Err(_) => None,
                }
            } else {
                None
            }
        },
        None => None,
    };
    let ipv4 = builtin_find(IPV4_PATTERN, body);
    let ipv6 = builtin_find(IPV6_PATTERN, body);
    let ghost cap = captured;
    let res = pick_ip(captured, ipv4, ipv6);
    proof {
        if res is Some && cap is Some && spec_pick_capture(opt_view(cap.unwrap().0), opt_view(cap.unwrap().1)) is Some {
            let c = cap.unwrap();
            let g = if c.0 is Some { c.0.unwrap() } else { c.1.unwrap() };
            assert(has_substring(body@, g@));
            lemma_trim_is_substring(body@, g@);
            assert(res.unwrap()@ == trim(g@));
        }
    }
    res
}


// ---------------------------------------------------------------------------
// One provider: retry policy
// ---------------------------------------------------------------------------

/// The outcome of probing one provider.
#[derive(Debug)]
pub struct ProviderResult {
    pub provider_id: String,
    pub provider_name: String,
    pub url: String,
    pub ok: bool,
    pub ip: Option<String>,
    pub raw_excerpt: Option<String>,
    pub status: Option<u16>,
    pub attempts: u32,
    pub elapsed_ms: u128,
    pub error: Option<String>,
}

/// A copy of an optional string.
pub fn clone_opt(o: &Option<String>) -> (res: Option<String>)
    ensures
        res == *o,
{
    match o {
        Some(s) => Some(s.clone()),
        None => None,
    }
}

impl Clone for ProviderResult {
    fn clone(&self) -> (res: Self)
        ensures
            res == *self,
    {
        ProviderResult {
            provider_id: self.provider_id.clone(),
            provider_name: self.provider_name.clone(),
            url: self.url.clone(),
            ok: self.ok,
            ip: clone_opt(&self.ip),
            raw_excerpt: clone_opt(&self.raw_excerpt),
            status: self.status,
            attempts: self.attempts,
            elapsed_ms: self.elapsed_ms,
            error: clone_opt(&self.error),
        }
    }
}

/// Whether an HTTP status is a success (2xx).
pub open spec fn is_success_status(status: u16) -> bool {
    200 <= status <= 299
}

/// The pause before the attempt after attempt number `attempt`:
/// 200 ms doubled per earlier attempt, at most sixteen-fold.
pub open spec fn backoff_ms(attempt: u32) -> u64 {
    if attempt <= 1 {
        200
    } else if attempt == 2 {
        400
    } else if attempt == 3 {
        800
    } else if attempt == 4 {
        1600
    } else {
        3200
    }
}

/// How many characters of the answer are kept in the report.
pub open spec fn excerpt_len() -> nat {
    240
}

/// `r` is the report of a successful answer `body` from provider `p`.
pub open spec fn is_answer_result(
    r: ProviderResult,
    p: Provider,
    body: Seq<char>,
    status: Option<u16>,
    attempts: u32,
    elapsed_ms: u128,
) -> bool {
    let trimmed = trim(body);
    &&& r.provider_id == p.id
    &&& r.provider_name == p.name
    &&& r.url == p.url
    &&& opt_view(r.ip) == spec_extract_ip(trimmed, opt_view(p.extract_regex))
    &&& r.ok == (r.ip is Some)
    &&& opt_view(r.raw_excerpt) == Some(prefix(trimmed, excerpt_len()))
    &&& r.status == status
    &&& r.attempts == attempts
    &&& r.elapsed_ms == elapsed_ms
    &&& r.error is None
}

/// `r` is the report of a provider `p` that gave up after `attempts`
/// attempts, the last error being `last_err`.
pub open spec fn is_given_up_result(
    r: ProviderResult,
    p: Provider,
    last_err: Option<Seq<char>>,
    status: Option<u16>,
    attempts: u32,
    elapsed_ms: u128,
) -> bool {
    &&& r.provider_id == p.id
    &&& r.provider_name == p.name
    &&& r.url == p.url
    &&& !r.ok
    &&& r.ip is None
    &&& r.raw_excerpt is None
    &&& r.status == status
    &&& r.attempts == attempts
    &&& r.elapsed_ms == elapsed_ms
    &&& opt_view(r.error) == Some(
        match last_err {
            Some(e) => e,
            None => "unknown error"@,
        },
    )
}

/// What the application observed after the last action.
pub enum FetchEvent {
    /// The request could not be sent or got no response.
    SendFailed { error: String, elapsed_ms: u128 },
    /// A response arrived with this status.
    Responded { status: u16, elapsed_ms: u128 },
    /// The body of a successful response was read.
    BodyRead { body: String, elapsed_ms: u128 },
    /// The body of a successful response could not be read.
    BodyFailed { error: String, elapsed_ms: u128 },
}

/// What the application is to do next for this provider.
pub enum FetchAction {
    /// Send the request (again).
    Send,
    /// Read the body of the response just received.
    ReadBody,
    /// Wait this long, then send the request again.
    SleepThenSend { ms: u64 },
    /// Stop: this is the provider's result.
    Finish(ProviderResult),
}

/// The progress of one provider's probe.
pub struct FetchState {
    provider: Provider,
    max_attempts: u32,
    attempt: u32,
    last_err: Option<String>,
    last_status: Option<u16>,
    outcome: Option<ProviderResult>,
}

impl FetchState {
    /// The provider being probed.
    pub closed spec fn provider(&self) -> Provider {
        self.provider
    }

    /// How many attempts the provider gets.
    pub closed spec fn max_attempts(&self) -> u32 {
        self.max_attempts
    }

    /// The number of the attempt in progress (from 1).
    pub closed spec fn attempt(&self) -> u32 {
        self.attempt
    }

    /// The error of the last failed attempt.
    pub closed spec fn last_err(&self) -> Option<Seq<char>> {
        opt_view(self.last_err)
    }

    /// The status of the last response.
    pub closed spec fn last_status(&self) -> Option<u16> {
        self.last_status
    }

    /// The result, once the probe has finished.
    pub closed spec fn outcome(&self) -> Option<ProviderResult> {
        self.outcome
    }

    /// The attempt number stays within the provider's attempts.
    #[verifier::type_invariant]
    spec fn attempt_in_range(self) -> bool {
        1 <= self.attempt <= self.max_attempts
    }

    /// Start probing `provider` with `retry` attempts (at least one).
    pub fn start(provider: Provider, retry: u32) -> (res: (FetchState, FetchAction))
        ensures
            1 <= res.0.attempt() <= res.0.max_attempts(),
            res.0.provider() == provider,
            res.0.max_attempts() == if retry == 0 { 1 } else { retry },
            res.0.attempt() == 1,
            res.0.last_err() is None,
            res.0.last_status() is None,
            res.0.outcome() is None,
            res.1 is Send,
    {
        let max_attempts = if retry == 0 { 1 } else { retry };
        (
            FetchState {
                provider,
                max_attempts,
                attempt: 1,
                last_err: None,
                last_status: None,
                outcome: None,
            },
            FetchAction::Send,
        )
    }

    /// After a failed attempt: wait and retry, or give up.
    fn after_failure(&mut self, elapsed_ms: u128) -> (res: FetchAction)
        requires
            old(self).outcome() is None,
            old(self).last_err() is Some,
        ensures
            final(self).provider() == old(self).provider(),
            final(self).max_attempts() == old(self).max_attempts(),
            final(self).last_err() == old(self).last_err(),
            final(self).last_status() == old(self).last_status(),
            Self::failure_step(*old(self), *final(self), res, elapsed_ms),
    {
        proof {
            use_type_invariant(&*self);
        }
        if self.attempt < self.max_attempts {
            let ms = Self::backoff(self.attempt);
            self.attempt = self.attempt + 1;
            FetchAction::SleepThenSend { ms }
        } else {
            let r = ProviderResult {
                provider_id: self.provider.id.clone(),
                provider_name: self.provider.name.clone(),
                url: self.provider.url.clone(),
                ok: false,
                ip: None,
                raw_excerpt: None,
                status: self.last_status,
                attempts: self.max_attempts,
                elapsed_ms,
                error: match &self.last_err {
                    Some(e) => Some(e.clone()),
                    None => Some(String::from_str("unknown error")),
                },
            };
            self.outcome = Some(r.clone());
            FetchAction::Finish(r)
        }
    }

    /// The pause after attempt number `attempt`.
    pub fn backoff(attempt: u32) -> (res: u64)
        ensures
            res == backoff_ms(attempt),
    {
        let shift: u32 = if attempt == 0 {
            0
        } else if attempt - 1 < 4 {
            attempt - 1
        } else {
            4
        };
        let factor: u64 = if shift == 0 {
            1
        } else if shift == 1 {
            2
        } else if shift == 2 {
            4
        } else if shift == 3 {
            8
        } else {
            16
        };
        200 * factor
    }

    /// What a failed attempt leads to: the next attempt after a pause, or,
    /// after the last attempt, the given-up result.
    pub open spec fn failure_step(
        pre: FetchState,
        post: FetchState,
        action: FetchAction,
        elapsed_ms: u128,
    ) -> bool {
        if pre.attempt() < pre.max_attempts() {
            &&& post.attempt() == pre.attempt() + 1
            &&& post.outcome() is None
            &&& action == FetchAction::SleepThenSend { ms: backoff_ms(pre.attempt()) }
        } else {
            &&& post.attempt() == pre.attempt()
            &&& action matches FetchAction::Finish(r)
            &&& post.outcome() == Some(r)
            &&& is_given_up_result(
                r,
                pre.provider(),
                post.last_err(),
                post.last_status(),
                pre.max_attempts(),
                elapsed_ms,
            )
        }
    }

    /// Take in what the application observed and say what it does next.
    pub fn step(&mut self, ev: FetchEvent) -> (res: FetchAction)
        ensures
            1 <= final(self).attempt() <= final(self).max_attempts(),
            final(self).provider() == old(self).provider(),
            final(self).max_attempts() == old(self).max_attempts(),
            old(self).outcome() matches Some(r) ==> {
                &&& res == FetchAction::Finish(r)
                &&& *final(self) == *old(self)
            },
            old(self).outcome() is None ==> match ev {
                FetchEvent::SendFailed { error, elapsed_ms } => {
                    &&& final(self).last_err() == Some("request: "@ + error@)
                    &&& final(self).last_status() == old(self).last_status()
                    &&& Self::failure_step(*old(self), *final(self), res, elapsed_ms)
                },
                FetchEvent::Responded { status, elapsed_ms } => {
                    &&& final(self).last_status() == Some(status)
                    &&& if is_success_status(status) {
                        &&& res is ReadBody
                        &&& final(self).attempt() == old(self).attempt()
                        &&& final(self).last_err() == old(self).last_err()
                        &&& final(self).outcome() is None
                    } else {
                        &&& final(self).last_err() == Some("HTTP "@ + decimal(status as nat))
                        &&& Self::failure_step(*old(self), *final(self), res, elapsed_ms)
                    }
                },
                FetchEvent::BodyRead { body, elapsed_ms } => {
                    &&& res matches FetchAction::Finish(r)
                    &&& final(self).outcome() == Some(r)
                    &&& final(self).attempt() == old(self).attempt()
                    &&& final(self).last_err() == old(self).last_err()
                    &&& final(self).last_status() == old(self).last_status()
                    &&& is_answer_result(
                        r,
                        old(self).provider(),
                        body@,
                        old(self).last_status(),
                        old(self).attempt(),
                        elapsed_ms,
                    )
                },
                FetchEvent::BodyFailed { error, elapsed_ms } => {
                    &&& final(self).last_err() == Some("read body: "@ + error@)
                    &&& final(self).last_status() == old(self).last_status()
                    &&& Self::failure_step(*old(self), *final(self), res, elapsed_ms)
                },
            },
    {
        proof {
            use_type_invariant(&*self);
        }
        if let Some(r) = &self.outcome {
            return FetchAction::Finish(r.clone());
        }
        match ev {
            FetchEvent::SendFailed { error, elapsed_ms } => {
                self.last_err = Some(concat2("request: ", error.as_str()));
                self.after_failure(elapsed_ms)
            },
            FetchEvent::Responded { status, elapsed_ms } => {
                self.last_status = Some(status);
                if 200 <= status && status <= 299 {
                    FetchAction::ReadBody
                } else {
                    let code = decimal_string(status as u64);
                    self.last_err = Some(concat2("HTTP ", code.as_str()));
                    self.after_failure(elapsed_ms)
                }
            },
            FetchEvent::BodyRead { body, elapsed_ms } => {
                let trimmed = trim_str(body.as_str());
                let excerpt = take_chars(trimmed.as_str(), 240);
                let custom: Option<&str> = match &self.provider.extract_regex {
                    Some(p) => Some(p.as_str()),
                    None => None,
                };
                let ip = extract_ip(trimmed.as_str(), custom);
                let ok = ip.is_some();
                let r = ProviderResult {
                    provider_id: self.provider.id.clone(),
                    provider_name: self.provider.name.clone(),
                    url: self.provider.url.clone(),
                    ok,
                    ip,
                    raw_excerpt: Some(excerpt),
                    status: self.last_status,
                    attempts: self.attempt,
                    elapsed_ms,
                    error: None,
                };
                self.outcome = Some(r.clone());
                FetchAction::Finish(r)
            },
            FetchEvent::BodyFailed { error, elapsed_ms } => {
                self.last_err = Some(concat2("read body: ", error.as_str()));
                self.after_failure(elapsed_ms)
            },
        }
    }
}

// ---------------------------------------------------------------------------
// All providers: the verdict
// ---------------------------------------------------------------------------

/// A point in time, as seconds and nanoseconds since the Unix epoch (UTC).
#[derive(Debug, Clone, Copy, PartialEq, Eq, Structural)]
pub struct UtcTime {
    pub secs: i64,
    pub nanos: u32,
}

/// The outcome of one detection round.
#[derive(Debug)]
pub struct DetectionReport {
    pub started_at: UtcTime,
    pub finished_at: UtcTime,
    pub strategy: DetectStrategy,
    pub providers: Vec<ProviderResult>,
    pub detected_ips: Vec<String>,
    pub matched: bool,
    pub matched_ip: Option<String>,
    pub allowed_ips: Vec<String>,
}

/// A provider is probed when it is enabled and has a non-blank URL.
pub open spec fn probe_worthy(p: Provider) -> bool {
    p.enabled && !is_blank(p.url@)
}

/// The providers of `v` that are probed, in order.
pub open spec fn probed(v: Seq<Provider>) -> Seq<Provider>
    decreases v.len(),
{
    if v.len() == 0 {
        v
    } else if probe_worthy(v.last()) {
        probed(v.drop_last()).push(v.last())
    } else {
        probed(v.drop_last())
    }
}

/// The entries of an allow-list, trimmed, without the blank ones.
pub open spec fn normalized(v: Seq<Seq<char>>) -> Seq<Seq<char>>
    decreases v.len(),
{
    if v.len() == 0 {
        Seq::empty()
    } else if trim(v.last()).len() > 0 {
        normalized(v.drop_last()).push(trim(v.last()))
    } else {
        normalized(v.drop_last())
    }
}

/// `s` is sorted in strictly increasing order (so holds no duplicates).
pub open spec fn strictly_sorted(s: Seq<Seq<char>>) -> bool {
    forall|i: int, j: int| 0 <= i < j < s.len() ==> str_lt(#[trigger] s[i], #[trigger] s[j])
}

/// Some result of `results` reported the IP `x`.
pub open spec fn reported(results: Seq<ProviderResult>, x: Seq<char>) -> bool {
    exists|i: int| 0 <= i < results.len() && opt_view(#[trigger] results[i].ip) == Some(x)
}

/// `detected` lists each IP reported in `results` exactly once, in order.
pub open spec fn is_detected_list(detected: Seq<Seq<char>>, results: Seq<ProviderResult>) -> bool {
    &&& strictly_sorted(detected)
    &&& forall|x: Seq<char>| detected.contains(x) <==> reported(results, x)
}

/// The first element of `d` that `allowed` contains.
pub open spec fn first_allowed(d: Seq<Seq<char>>, allowed: Seq<Seq<char>>) -> Option<Seq<char>>
    decreases d.len(),
{
    if d.len() == 0 {
        None
    } else if allowed.contains(d[0]) {
        Some(d[0])
    } else {
        first_allowed(d.drop_first(), allowed)
    }
}

/// Every provider answered with an IP.
pub open spec fn all_ok(results: Seq<ProviderResult>) -> bool {
    forall|i: int| 0 <= i < results.len() ==> (#[trigger] results[i]).ok
}

/// There is one result for each probed provider, in the providers' order.
pub open spec fn answered_all(results: Seq<ProviderResult>, providers: Seq<Provider>) -> bool {
    &&& results.len() == providers.len()
    &&& forall|i: int| 0 <= i < results.len() ==> (#[trigger] results[i]).provider_id@ == providers[i].id@
}

/// The allowed IP that the round matched, if any. Under the "all" strategy
/// every probed provider (`providers`) must have answered with an IP, and
/// all of them with the same allowed one.
pub open spec fn spec_matched_ip(
    strategy: DetectStrategy,
    allowed: Seq<Seq<char>>,
    detected: Seq<Seq<char>>,
    results: Seq<ProviderResult>,
    providers: Seq<Provider>,
) -> Option<Seq<char>> {
    if allowed.len() == 0 {
        None
    } else {
        match strategy {
            DetectStrategy::Any => first_allowed(detected, allowed),
            DetectStrategy::All => if detected.len() == 1 && allowed.contains(detected[0])
                && all_ok(results) && results.len() > 0 && answered_all(results, providers) {
                Some(detected[0])
            } else {
                None
            },
        }
    }
}

/// What a round decides for the given providers, allow-list and strategy.
pub struct DetectionPlan {
    pub providers: Vec<Provider>,
    pub allowed: Vec<String>,
    pub strategy: DetectStrategy,
    pub retry: u32,
}

/// Connection and total timeouts for the HTTP client, in milliseconds:
/// the configured timeout, capped at 15 s and 30 s.
pub fn client_timeouts(request_timeout_ms: u64) -> (res: (u64, u64))
    ensures
        res.0 == if request_timeout_ms < 15000 { request_timeout_ms } else { 15000 },
        res.1 == if request_timeout_ms < 30000 { request_timeout_ms } else { 30000 },
{
    let connect = if request_timeout_ms < 15_000 { request_timeout_ms } else { 15_000 };
    let total = if request_timeout_ms < 30_000 { request_timeout_ms } else { 30_000 };
    (connect, total)
}

/// The providers to probe: the enabled ones with a non-blank URL.
pub fn select_providers(list: &Vec<Provider>) -> (res: Vec<Provider>)
    ensures
        res@ == probed(list@),
{
    let mut res: Vec<Provider> = Vec::new();
    for i in 0..list.len()
        invariant
            res@ == probed(list@.take(i as int)),
    {
        let p = &list[i];
        assert(list@.take(i + 1).drop_last() =~= list@.take(i as int));
        assert(list@.take(i + 1).last() == list@[i as int]);
        if p.enabled && !is_blank_str(p.url.as_str()) {
            res.push(p.clone());
        }
    }
    assert(list@.take(list.len() as int) =~= list@);
    res
}

/// The allow-list entries, trimmed, without blank ones.
pub fn normalize_allowed(list: &Vec<String>) -> (res: Vec<String>)
    ensures
        views(res@) == normalized(views(list@)),
{
    let mut res: Vec<String> = Vec::new();
    for i in 0..list.len()
        invariant
            views(res@) == normalized(views(list@.take(i as int))),
    {
        let t = trim_str(list[i].as_str());
        assert(views(list@.take(i + 1)).drop_last() =~= views(list@.take(i as int)));
        assert(views(list@.take(i + 1)).last() == list@[i as int]@);
        if t.unicode_len() > 0 {
            res.push(t);
            assert(views(res@) =~= normalized(views(list@.take(i as int))).push(trim(list@[i as int]@)));
        }
    }
    assert(list@.take(list.len() as int) =~= list@);
    res
}

/// The round's inputs: the providers to probe (the override list or the
/// configured one), the normalized allow-list (the override or the
/// configured one), the strategy and the attempts per provider.
pub fn detection_plan(
    cfg: &AppConfig,
    override_providers: Option<Vec<Provider>>,
    override_allowed: Option<Vec<String>>,
) -> (res: DetectionPlan)
    ensures
        res.providers@ == probed(
            match override_providers {
                Some(v) => v@,
                None => cfg.providers@,
            },
        ),
        views(res.allowed@) == normalized(
            views(
                match override_allowed {
                    Some(v) => v@,
                    None => cfg.allowed_ips@,
                },
            ),
        ),
        res.strategy == cfg.strategy,
        res.retry == if cfg.retry == 0 { 1 } else { cfg.retry },
{
    let providers = match &override_providers {
        Some(v) => select_providers(v),
        None => select_providers(&cfg.providers),
    };
    let allowed = match &override_allowed {
        Some(v) => normalize_allowed(v),
        None => normalize_allowed(&cfg.allowed_ips),
    };
    DetectionPlan {
        providers,
        allowed,
        strategy: cfg.strategy,
        retry: if cfg.retry == 0 { 1 } else { cfg.retry },
    }
}

/// Insert `x` into a strictly sorted list, unless it is already there.
fn insert_sorted(v: &mut Vec<String>, x: String)
    requires
        strictly_sorted(views(old(v)@)),
    ensures
        strictly_sorted(views(final(v)@)),
        forall|y: Seq<char>| views(final(v)@).contains(y) <==> (views(old(v)@).contains(y) || y == x@),
{
    let ghost pre = views(v@);
    let n = v.len();
    let mut p: usize = 0;
    while p < n && str_less(v[p].as_str(), x.as_str())
        invariant
            n == v.len(),
            pre == views(v@),
            p <= n,
            forall|k: int| 0 <= k < p ==> str_lt(pre[k], x@),
        decreases n - p,
    {
        p = p + 1;
    }
    if p < n && str_eq(v[p].as_str(), x.as_str()) {
        assert(pre[p as int] == x@);
        assert(pre.contains(x@));
        return;
    }
    proof {
        // Everything from position p on is above x.
        assert forall|k: int| p <= k < n implies str_lt(x@, #[trigger] pre[k]) by {
            assert(!str_lt(pre[p as int], x@));
            assert(pre[p as int] != x@);
            lemma_str_lt_total(pre[p as int], x@);
            if k > p {
                lemma_str_lt_transitive(x@, pre[p as int], pre[k]);
            }
        }
    }
    v.insert(p, x);
    proof {
        let post = views(v@);
        assert(post =~= pre.insert(p as int, x@));
        assert forall|i: int, j: int| 0 <= i < j < post.len() implies str_lt(
            #[trigger] post[i],
            #[trigger] post[j],
        ) by {
            if j < p {
            } else if j == p {
            } else if i < p {
                assert(post[j] == pre[j - 1]);
                lemma_str_lt_transitive(pre[i], x@, pre[j - 1]);
            } else if i == p {
                assert(post[j] == pre[j - 1]);
            } else {
                assert(post[i] == pre[i - 1]);
                assert(post[j] == pre[j - 1]);
            }
        }
        assert forall|y: Seq<char>| post.contains(y) <==> (pre.contains(y) || y == x@) by {
            if post.contains(y) {
                let k = choose|k: int| 0 <= k < post.len() && post[k] == y;
                if k < p {
                    assert(pre[k] == y);
                } else if k > p {
                    assert(pre[k - 1] == y);
                }
            }
            if pre.contains(y) {
                let k = choose|k: int| 0 <= k < pre.len() && pre[k] == y;
                if k < p {
                    assert(post[k] == y);
                } else {
                    assert(post[k + 1] == y);
                }
            }
            if y == x@ {
                assert(post[p as int] == y);
            }
        }
    }
}

/// Each reported IP once, sorted (what collecting the IPs, then `sort` and
/// `dedup`, gives).
pub fn collect_detected(results: &Vec<ProviderResult>) -> (res: Vec<String>)
    ensures
        is_detected_list(views(res@), results@),
{
    let mut res: Vec<String> = Vec::new();
    for i in 0..results.len()
        invariant
            strictly_sorted(views(res@)),
            forall|x: Seq<char>|
                views(res@).contains(x) <==> reported(results@.take(i as int), x),
    {
        let ghost before = views(res@);
        match &results[i].ip {
            Some(ip) => {
                insert_sorted(&mut res, ip.clone());
            },
            None => {},
        }
        proof {
            assert forall|x: Seq<char>|
                views(res@).contains(x) <==> reported(results@.take(i + 1), x) by {
                let t = results@.take(i + 1);
                if reported(t, x) {
                    let k = choose|k: int| 0 <= k < t.len() && opt_view(#[trigger] t[k].ip) == Some(x);
                    if k < i {
                        assert(results@.take(i as int)[k] == t[k]);
                        assert(reported(results@.take(i as int), x));
                    }
                }
                if reported(results@.take(i as int), x) {
                    let k = choose|k: int|
                        0 <= k < i && opt_view(#[trigger] results@.take(i as int)[k].ip) == Some(x);
                    assert(t[k] == results@.take(i as int)[k]);
                }
                if results@[i as int].ip is Some && x == results@[i as int].ip.unwrap()@ {
                    assert(t[i as int] == results@[i as int]);
                }
            }
        }
    }
    assert(results@.take(results.len() as int) =~= results@);
    res
}

/// Whether `list` holds a string equal to `x`.
pub fn contains_str(list: &Vec<String>, x: &str) -> (res: bool)
    ensures
        res == views(list@).contains(x@),
{
    for i in 0..list.len()
        invariant
            forall|k: int| 0 <= k < i ==> list@[k]@ != x@,
    {
        if str_eq(list[i].as_str(), x) {
            assert(views(list@)[i as int] == x@);
            return true;
        }
    }
    proof {
        if views(list@).contains(x@) {
            let k = choose|k: int| 0 <= k < views(list@).len() && views(list@)[k] == x@;
            assert(list@[k]@ == x@);
        }
    }
    false
}

/// Whether `results` holds one result for each of `providers`, in order.
pub fn answers_every_provider(results: &Vec<ProviderResult>, providers: &Vec<Provider>) -> (res:
    bool)
    ensures
        res == answered_all(results@, providers@),
{
    if results.len() != providers.len() {
        return false;
    }
    let mut i: usize = 0;
    while i < results.len()
        invariant
            results.len() == providers.len(),
            i <= results.len(),
            forall|q: int| 0 <= q < i ==> (#[trigger] results@[q]).provider_id@ == providers@[q].id@,
        decreases results.len() - i,
    {
        if !str_eq(results[i].provider_id.as_str(), providers[i].id.as_str()) {
            return false;
        }
        i = i + 1;
    }
    true
}

/// The allowed IP that the round matched, if any, for the results of
/// probing `providers`.
pub fn matched_ip(
    strategy: DetectStrategy,
    allowed: &Vec<String>,
    detected: &Vec<String>,
    results: &Vec<ProviderResult>,
    providers: &Vec<Provider>,
) -> (res: Option<String>)
    ensures
        opt_view(res) == spec_matched_ip(
            strategy,
            views(allowed@),
            views(detected@),
            results@,
            providers@,
        ),
{
    if allowed.len() == 0 {
        return None;
    }
    match strategy {
        DetectStrategy::Any => {
            let ghost d = views(detected@);
            assert(d.skip(0) =~= d);
            let mut i: usize = 0;
            while i < detected.len()
                invariant
                    d == views(detected@),
                    i <= detected.len(),
                    allowed.len() > 0,
                    strategy == DetectStrategy::Any,
                    first_allowed(d, views(allowed@)) == first_allowed(d.skip(i as int), views(allowed@)),
                decreases detected.len() - i,
            {
                assert(d.skip(i as int)[0] == d[i as int]);
                if contains_str(allowed, detected[i].as_str()) {
                    assert(d[i as int] == detected@[i as int]@);
                    assert(d.skip(i as int).len() > 0);
                    assert(first_allowed(d.skip(i as int), views(allowed@)) == Some(d[i as int]));
                    return Some(detected[i].clone());
                }
                assert(d.skip(i as int).drop_first() =~= d.skip(i + 1));
                i = i + 1;
            }
            None
        },
        DetectStrategy::All => {
            let mut all = true;
            let mut k: usize = 0;
            while k < results.len()
                invariant
                    k <= results.len(),
                    all <==> forall|q: int| 0 <= q < k ==> (#[trigger] results@[q]).ok,
                decreases results.len() - k,
            {
                if !results[k].ok {
                    all = false;
                }
                k = k + 1;
            }
            if detected.len() == 1 && contains_str(allowed, detected[0].as_str()) && all
                && results.len() > 0 && answers_every_provider(results, providers) {
                Some(detected[0].clone())
            } else {
                None
            }
        },
    }
}

/// The report of a round in which no HTTP client could be built.
pub fn report_without_client(
    plan: DetectionPlan,
    started_at: UtcTime,
    finished_at: UtcTime,
) -> (res: DetectionReport)
    ensures
        res.started_at == started_at,
        res.finished_at == finished_at,
        res.strategy == plan.strategy,
        res.providers@.len() == 0,
        res.detected_ips@.len() == 0,
        !res.matched,
        res.matched_ip is None,
        res.allowed_ips == plan.allowed,
{
    DetectionReport {
        started_at,
        finished_at,
        strategy: plan.strategy,
        providers: Vec::new(),
        detected_ips: Vec::new(),
        matched: false,
        matched_ip: None,
        allowed_ips: plan.allowed,
    }
}

/// The report of a round from the results of probing the plan's providers,
/// one per provider in the plan's order; under the "all" strategy a
/// provider without its result counts as one that did not answer.
pub fn finish_detection(
    plan: DetectionPlan,
    results: Vec<ProviderResult>,
    started_at: UtcTime,
    finished_at: UtcTime,
) -> (res: DetectionReport)
    ensures
        res.started_at == started_at,
        res.finished_at == finished_at,
        res.strategy == plan.strategy,
        res.providers == results,
        is_detected_list(views(res.detected_ips@), results@),
        opt_view(res.matched_ip) == spec_matched_ip(
            plan.strategy,
            views(plan.allowed@),
            views(res.detected_ips@),
            results@,
            plan.providers@,
        ),
        res.matched == (res.matched_ip is Some),
        res.allowed_ips == plan.allowed,
{
    let detected = collect_detected(&results);
    let m = matched_ip(plan.strategy, &plan.allowed, &detected, &results, &plan.providers);
    DetectionReport {
        started_at,
        finished_at,
        strategy: plan.strategy,
        providers: results,
        detected_ips: detected,
        matched: m.is_some(),
        matched_ip: m,
        allowed_ips: plan.allowed,
    }
}

} // verus!

verus! {

// ---------------------------------------------------------------------------
// Laws of the verdict
// ---------------------------------------------------------------------------

/// `first_allowed` finds an element of `d` that `allowed` holds, and finds
/// one whenever there is one.
proof fn lemma_first_allowed(d: Seq<Seq<char>>, allowed: Seq<Seq<char>>)
    ensures
        first_allowed(d, allowed) matches Some(x) ==> d.contains(x) && allowed.contains(x),
        first_allowed(d, allowed) is None <==> !exists|x: Seq<char>| d.contains(x) && allowed.contains(x),
    decreases d.len(),
{
    if d.len() > 0 {
        lemma_first_allowed(d.drop_first(), allowed);
        if let Some(x) = first_allowed(d, allowed) {
            if !allowed.contains(d[0]) {
                let k = choose|k: int| 0 <= k < d.drop_first().len() && d.drop_first()[k] == x;
                assert(d[k + 1] == x);
            } else {
                assert(d[0] == x);
            }
        }
        if exists|x: Seq<char>| d.contains(x) && allowed.contains(x) {
            let x = choose|x: Seq<char>| d.contains(x) && allowed.contains(x);
            let k = choose|k: int| 0 <= k < d.len() && d[k] == x;
            if k > 0 {
                assert(d.drop_first()[k - 1] == x);
            }
        }
        if exists|x: Seq<char>| d.drop_first().contains(x) && allowed.contains(x) {
            let x = choose|x: Seq<char>| d.drop_first().contains(x) && allowed.contains(x);
            let k = choose|k: int| 0 <= k < d.drop_first().len() && d.drop_first()[k] == x;
            assert(d[k + 1] == x);
        }
    }
}

/// A matched IP is one of the allowed IPs and one of the detected IPs.
pub proof fn lemma_matched_ip_is_allowed_and_detected(
    strategy: DetectStrategy,
    allowed: Seq<Seq<char>>,
    detected: Seq<Seq<char>>,
    results: Seq<ProviderResult>,
    providers: Seq<Provider>,
)
    ensures
        spec_matched_ip(strategy, allowed, detected, results, providers) matches Some(x)
            ==> allowed.contains(x) && detected.contains(x),
{
    lemma_first_allowed(detected, allowed);
    if detected.len() == 1 {
        assert(detected.contains(detected[0]));
    }
}

/// Without an allow-list nothing is matched.
pub proof fn lemma_no_allow_list_no_match(
    strategy: DetectStrategy,
    detected: Seq<Seq<char>>,
    results: Seq<ProviderResult>,
    providers: Seq<Provider>,
)
    ensures
        spec_matched_ip(strategy, Seq::empty(), detected, results, providers) is None,
{
}

/// Under the "any" strategy a round matches exactly when one of the
/// detected IPs is allowed.
pub proof fn lemma_any_matches_iff_some_allowed(
    allowed: Seq<Seq<char>>,
    detected: Seq<Seq<char>>,
    results: Seq<ProviderResult>,
    providers: Seq<Provider>,
)
    ensures
        spec_matched_ip(DetectStrategy::Any, allowed, detected, results, providers) is Some <==> exists|
            x: Seq<char>,
        |
            detected.contains(x) && allowed.contains(x),
{
    lemma_first_allowed(detected, allowed);
    if allowed.len() == 0 {
        if exists|x: Seq<char>| detected.contains(x) && allowed.contains(x) {
            let x = choose|x: Seq<char>| detected.contains(x) && allowed.contains(x);
            assert(allowed.contains(x));
        }
    }
}

/// The "all" strategy is the stricter one: whatever it matches, the "any"
/// strategy matches too, with the same IP.
pub proof fn lemma_all_match_implies_any_match(
    allowed: Seq<Seq<char>>,
    detected: Seq<Seq<char>>,
    results: Seq<ProviderResult>,
    providers: Seq<Provider>,
)
    ensures
        spec_matched_ip(DetectStrategy::All, allowed, detected, results, providers) is Some
            ==> spec_matched_ip(DetectStrategy::Any, allowed, detected, results, providers)
            == spec_matched_ip(DetectStrategy::All, allowed, detected, results, providers),
{
}

/// Under the "all" strategy a round in which some probed provider has no
/// result matches nothing.
pub proof fn lemma_all_needs_every_provider(
    allowed: Seq<Seq<char>>,
    detected: Seq<Seq<char>>,
    results: Seq<ProviderResult>,
    providers: Seq<Provider>,
)
    requires
        results.len() < providers.len(),
    ensures
        spec_matched_ip(DetectStrategy::All, allowed, detected, results, providers) is None,
{
}

/// Under the "all" strategy a match means that every probed provider
/// answered, each with an IP, that there was at least one, and that every
/// reported IP is the matched one, which is allowed; and whenever all of
/// that holds, the round matches that IP.
pub proof fn lemma_all_match_means_unanimous(
    allowed: Seq<Seq<char>>,
    detected: Seq<Seq<char>>,
    results: Seq<ProviderResult>,
    providers: Seq<Provider>,
)
    requires
        is_detected_list(detected, results),
        forall|i: int| 0 <= i < results.len() ==> (#[trigger] results[i]).ok == (results[i].ip is Some),
    ensures
        spec_matched_ip(DetectStrategy::All, allowed, detected, results, providers) matches Some(x)
            ==> {
            &&& providers.len() > 0
            &&& answered_all(results, providers)
            &&& allowed.contains(x)
            &&& forall|i: int|
                0 <= i < results.len() ==> opt_view(#[trigger] results[i].ip) == Some(x)
        },
        forall|x: Seq<char>|
            providers.len() > 0 && answered_all(results, providers) && allowed.contains(x) && (
            forall|i: int| 0 <= i < results.len() ==> opt_view(#[trigger] results[i].ip) == Some(x))
                ==> spec_matched_ip(DetectStrategy::All, allowed, detected, results, providers)
                == Some(x),
{
    assert forall|x: Seq<char>|
        providers.len() > 0 && answered_all(results, providers) && allowed.contains(x) && (
        forall|i: int| 0 <= i < results.len() ==> opt_view(#[trigger] results[i].ip) == Some(x))
            implies spec_matched_ip(DetectStrategy::All, allowed, detected, results, providers)
            == Some(x) by {
        assert(opt_view(results[0].ip) == Some(x));
        assert(reported(results, x));
        assert(detected.contains(x));
        assert forall|k: int| 0 <= k < detected.len() implies detected[k] == x by {
            assert(detected.contains(detected[k]));
            assert(reported(results, detected[k]));
            let i = choose|i: int| 0 <= i < results.len() && opt_view(#[trigger] results[i].ip) == Some(detected[k]);
            assert(opt_view(results[i].ip) == Some(x));
        }
        if detected.len() >= 2 {
            assert(str_lt(detected[0], detected[1]));
            assert(detected[0] == detected[1]);
            lemma_str_lt_irreflexive(detected[0]);
        }
        assert forall|i: int| 0 <= i < results.len() implies (#[trigger] results[i]).ok by {
            assert(opt_view(results[i].ip) == Some(x));
        }
        assert(all_ok(results));
        assert(allowed.contains(detected[0]));
    }
    if let Some(x) = spec_matched_ip(DetectStrategy::All, allowed, detected, results, providers) {
        assert forall|i: int| 0 <= i < results.len() implies opt_view(#[trigger] results[i].ip) == Some(x) by {
            assert(results[i].ok);
            let y = results[i].ip.unwrap()@;
            assert(reported(results, y));
            assert(detected.contains(y));
            assert(detected[0] == x);
        }
    }
}

/// The providers a round probes are exactly those of the list that are
/// enabled and have a non-blank URL, in the list's order; nothing else
/// about a provider (such as its URL's scheme) keeps it out.
pub proof fn lemma_probed_is_enabled_with_url(v: Seq<Provider>)
    ensures
        probed(v) == v.filter(|p: Provider| p.enabled && !is_blank(p.url@)),
        forall|p: Provider|
            #![trigger probed(v).contains(p)]
            #![trigger v.contains(p)]
            probed(v).contains(p) <==> (v.contains(p) && p.enabled && !is_blank(p.url@)),
    decreases v.len(),
{
    reveal(Seq::filter);
    if v.len() > 0 {
        let rest = v.drop_last();
        let l = v.last();
        lemma_probed_is_enabled_with_url(rest);
        let pr = probed(rest);
        assert forall|p: Provider|
            probed(v).contains(p) <==> (v.contains(p) && p.enabled && !is_blank(p.url@)) by {
            if pr.contains(p) {
                let k = choose|k: int| 0 <= k < pr.len() && pr[k] == p;
                assert(probed(v).contains(p)) by {
                    if probe_worthy(l) {
                        assert(pr.push(l)[k] == p);
                    }
                }
                let j = choose|j: int| 0 <= j < rest.len() && rest[j] == p;
                assert(v[j] == p);
            }
            if probe_worthy(l) {
                assert(pr.push(l)[pr.len() as int] == l);
                assert(v[v.len() - 1] == l);
            }
            if probed(v).contains(p) && !pr.contains(p) {
                let k = choose|k: int| 0 <= k < probed(v).len() && probed(v)[k] == p;
                if probe_worthy(l) {
                    assert(k == pr.len());
                }
            }
            if v.contains(p) && p.enabled && !is_blank(p.url@) {
                let k = choose|k: int| 0 <= k < v.len() && v[k] == p;
                if k < v.len() - 1 {
                    assert(rest[k] == p);
                }
            }
        }
    }
}

/// The detected IPs of a round hold no IP twice.
pub proof fn lemma_detected_ips_distinct(detected: Seq<Seq<char>>, results: Seq<ProviderResult>)
    requires
        is_detected_list(detected, results),
    ensures
        detected.no_duplicates(),
{
    assert forall|i: int, j: int| 0 <= i < detected.len() && 0 <= j < detected.len() && i != j implies detected[i] != detected[j] by {
        if i < j {
            assert(str_lt(detected[i], detected[j]));
            if detected[i] == detected[j] {
                lemma_str_lt_irreflexive(detected[i]);
            }
        } else {
            assert(str_lt(detected[j], detected[i]));
            if detected[i] == detected[j] {
                lemma_str_lt_irreflexive(detected[i]);
            }
        }
    }
}

// ---------------------------------------------------------------------------
// Laws of the retry policy
// ---------------------------------------------------------------------------

/// The pause doubles from one attempt to the next, from 200 ms up to a cap
/// of 3.2 s.
pub proof fn lemma_backoff_doubles(attempt: u32)
    requires
        1 <= attempt < u32::MAX,
    ensures
        backoff_ms((attempt + 1) as u32) == if 2 * backoff_ms(attempt) <= 3200 {
            2 * backoff_ms(attempt)
        } else {
            3200
        },
        200 <= backoff_ms(attempt) <= 3200,
        backoff_ms(1) == 200,
{
}

} // verus!

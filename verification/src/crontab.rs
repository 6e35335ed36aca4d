//! Cron schedules: parsing an expression and how long the cron task waits
//! before its next detection.

use vstd::prelude::*;

use crate::detector::UtcTime;

verus! {

// ---------------------------------------------------------------------------
// Cron schedules
// ---------------------------------------------------------------------------

#[verifier::external_type_specification]
#[verifier::external_body]
pub struct ExCronSchedule(cron::Schedule);

#[verifier::external_type_specification]
#[verifier::external_body]
pub struct ExCronError(cron::error::Error);

/// Whether `cron::Schedule::from_str` accepts `expr`.
pub uninterp spec fn spec_cron_valid(expr: Seq<char>) -> bool;

/// The first occurrence of the cron expression `expr` after the instant
/// `after_nanos` (nanoseconds since the Unix epoch), as
/// `cron::Schedule::after(..).next()` computes it in UTC.
pub uninterp spec fn spec_cron_next_after(expr: Seq<char>, after_nanos: i64) -> Option<UtcTime>;

/// A parsed cron expression with the text it was parsed from. Only
/// [`parse_cron`] builds one.
pub struct CronSchedule {
    source: String,
    sched: cron::Schedule,
}

impl CronSchedule {
    /// The expression this schedule was parsed from.
    pub closed spec fn expression(&self) -> Seq<char> {
        self.source@
    }
}

/// Calls `cron::Schedule::from_str`. The contract claims that it succeeds
/// exactly on the expressions named by `spec_cron_valid`; which expressions
/// those are is not stated.
#[verifier::external_body]
pub(crate) fn parse_cron(expr: &str) -> (res: Result<CronSchedule, cron::error::Error>)
    ensures
        res is Ok <==> spec_cron_valid(expr@),
        res matches Ok(c) ==> c.expression() == expr@,
{
    match <cron::Schedule as std::str::FromStr>::from_str(expr) {
        Ok(sched) => Ok(CronSchedule { source: expr.to_string(), sched }),
        Err(e) => Err(e),
    }
}

/// Seconds beyond which `chrono` represents no instant (its dates span the
/// years -262143 to 262142).
pub open spec fn max_abs_secs() -> int {
    8_300_000_000_000
}

/// An instant as `chrono` can represent it: seconds within its range and a
/// sub-second part below two seconds' worth of nanoseconds (a leap second
/// may exceed one second).
pub open spec fn representable(t: UtcTime) -> bool {
    -max_abs_secs() < t.secs < max_abs_secs() && t.nanos < 2_000_000_000
}

/// Calls `cron::Schedule::after` on the UTC instant `after_nanos` and takes
/// the first item of the iterator. The contract names the result as a
/// function of the expression and the instant, and states that it is an
/// instant `chrono` can represent (as its documentation of `DateTime`'s
/// range and of `timestamp_subsec_nanos` says); which instant comes out is
/// not stated.
#[verifier::external_body]
pub(crate) fn cron_next_after(sched: &CronSchedule, after_nanos: i64) -> (res: Option<UtcTime>)
    ensures
        res == spec_cron_next_after(sched.expression(), after_nanos),
        res matches Some(t) ==> representable(t),
{
    sched.sched.after(&chrono::DateTime::from_timestamp_nanos(after_nanos)).next().map(
        |t| UtcTime { secs: t.timestamp(), nanos: t.timestamp_subsec_nanos() },
    )
}

/// Integer division rounding toward zero.
pub open spec fn div_toward_zero(a: int, b: int) -> int {
    if a >= 0 {
        a / b
    } else {
        -((-a) / b)
    }
}

/// An instant in nanoseconds since the Unix epoch.
pub open spec fn nanos_of(t: UtcTime) -> int {
    t.secs * 1_000_000_000 + t.nanos
}

/// The wait before a cron occurrence `next` seen at `now_nanos`: the whole
/// milliseconds between them, at least one second.
pub open spec fn cron_wait(next: UtcTime, now_nanos: i64) -> int {
    let ms = div_toward_zero(nanos_of(next) - now_nanos, 1_000_000);
    if ms < 1000 {
        1000
    } else {
        ms
    }
}

/// The wait before a cron occurrence `next` seen at `now_nanos`.
pub fn cron_wait_ms(next: UtcTime, now_nanos: i64) -> (res: u64)
    requires
        representable(next),
    ensures
        res == cron_wait(next, now_nanos),
{
    let diff: i128 = (next.secs as i128) * 1_000_000_000 + (next.nanos as i128) - (now_nanos as i128);
    let ms: i128 = if diff >= 0 {
        diff / 1_000_000
    } else {
        -((-diff) / 1_000_000)
    };
    if ms < 1000 {
        1000
    } else {
        assert(diff <= 8_300_000_000_000i128 * 1_000_000_000 + 2_000_000_000 + 9_223_372_036_854_775_808i128);
        ms as u64
    }
}

/// The wait before a cron occurrence is the whole milliseconds from now
/// until it, with no upper bound, and never less than one second: an
/// occurrence at least a second away is waited for exactly (to the
/// millisecond below), a nearer or past one for one second.
pub proof fn lemma_cron_wait_is_whole_millis(next: UtcTime, now_nanos: i64)
    ensures
        cron_wait(next, now_nanos) >= 1000,
        nanos_of(next) - now_nanos >= 1_000_000_000 ==> {
            &&& cron_wait(next, now_nanos) * 1_000_000 <= nanos_of(next) - now_nanos
            &&& nanos_of(next) - now_nanos < (cron_wait(next, now_nanos) + 1) * 1_000_000
        },
        nanos_of(next) - now_nanos < 1_000_000_000 ==> cron_wait(next, now_nanos) == 1000,
{
    let d = nanos_of(next) - now_nanos;
    if d >= 0 {
        assert((d / 1_000_000) * 1_000_000 <= d < (d / 1_000_000 + 1) * 1_000_000) by (nonlinear_arith)
            requires
                d >= 0,
        ;
    } else {
        assert((-d) / 1_000_000 >= 0) by (nonlinear_arith)
            requires
                d < 0,
        ;
    }
}

/// Why a cron schedule did not fire.
#[derive(Debug, Clone, Copy, PartialEq, Eq, Structural)]
pub enum CronProblem {
    /// The expression does not parse.
    InvalidExpression,
    /// The expression has no future occurrence.
    NoUpcoming,
}

/// What the cron task does next: wait `wait_ms`, then detect if `fire`.
#[derive(Debug)]
pub struct CronStep {
    pub wait_ms: u64,
    pub fire: bool,
    pub problem: Option<CronProblem>,
}

/// How long to wait after a problem before trying again.
pub open spec fn cron_retry_ms() -> u64 {
    60_000
}

/// The next step of the cron task for `expr` at the instant `now_nanos`:
/// wait for the next occurrence (at least a second) and detect; on an
/// invalid expression or one without a future occurrence, wait a minute
/// without detecting.
pub fn cron_step(expr: &str, now_nanos: i64) -> (res: CronStep)
    ensures
        !spec_cron_valid(expr@) ==> {
            &&& res.wait_ms == cron_retry_ms()
            &&& !res.fire
            &&& res.problem == Some(CronProblem::InvalidExpression)
        },
        spec_cron_valid(expr@) ==> match spec_cron_next_after(expr@, now_nanos) {
            None => {
                &&& res.wait_ms == cron_retry_ms()
                &&& !res.fire
                &&& res.problem == Some(CronProblem::NoUpcoming)
            },
            Some(next) => {
                &&& res.wait_ms == cron_wait(next, now_nanos)
                &&& res.fire
                &&& res.problem is None
            },
        },
{
    match parse_cron(expr) {
        Err(_) => CronStep { wait_ms: 60_000, fire: false, problem: Some(CronProblem::InvalidExpression) },
        Ok(sched) => match cron_next_after(&sched, now_nanos) {
            None => CronStep { wait_ms: 60_000, fire: false, problem: Some(CronProblem::NoUpcoming) },
            Some(next) => {
                CronStep { wait_ms: cron_wait_ms(next, now_nanos), fire: true, problem: None }
            },
        },
    }
}

} // verus!

//! The latest detection verdict, with its age.
//!
//! The scheduler is the only writer; everyone else reads from the cache.
//! [`VerdictCache::current`] returns the latest verdict regardless of age;
//! [`VerdictCache::current_fresh`] returns it only while it is younger than
//! a maximum age, for decision-critical paths.
//!
//! Times are readings of a monotonic clock in nanoseconds, taken by the
//! application; the application also keeps the listeners that are told of
//! every update.

use vstd::prelude::*;

use crate::config::{clone_strings, DetectionSchedule};
use crate::detector::{clone_opt, DetectionReport, ProviderResult};

verus! {

/// Two reports hold the same values.
pub open spec fn same_report(a: DetectionReport, b: DetectionReport) -> bool {
    &&& a.started_at == b.started_at
    &&& a.finished_at == b.finished_at
    &&& a.strategy == b.strategy
    &&& a.providers@ == b.providers@
    &&& a.detected_ips@ == b.detected_ips@
    &&& a.matched == b.matched
    &&& a.matched_ip == b.matched_ip
    &&& a.allowed_ips@ == b.allowed_ips@
}

/// A copy of a list of provider results.
pub fn clone_results(v: &Vec<ProviderResult>) -> (res: Vec<ProviderResult>)
    ensures
        res@ == v@,
{
    let mut res: Vec<ProviderResult> = Vec::new();
    for i in 0..v.len()
        invariant
            res@ == v@.take(i as int),
    {
        res.push(v[i].clone());
        assert(v@.take(i + 1) =~= v@.take(i as int).push(v@[i as int]));
    }
    assert(v@.take(v.len() as int) =~= v@);
    res
}

/// A copy of a report.
pub fn clone_report(r: &DetectionReport) -> (res: DetectionReport)
    ensures
        same_report(res, *r),
{
    DetectionReport {
        started_at: r.started_at,
        finished_at: r.finished_at,
        strategy: r.strategy,
        providers: clone_results(&r.providers),
        detected_ips: clone_strings(&r.detected_ips),
        matched: r.matched,
        matched_ip: clone_opt(&r.matched_ip),
        allowed_ips: clone_strings(&r.allowed_ips),
    }
}

/// How old an entry written at `at` is at `now` (zero if the clock reads
/// earlier, as `Instant::elapsed` saturates).
pub open spec fn age(now: u128, at: u128) -> u128 {
    if now >= at {
        (now - at) as u128
    } else {
        0
    }
}

/// The latest verdict and when it was written.
pub struct VerdictCache {
    last: Option<(DetectionReport, u128)>,
}

impl VerdictCache {
    /// The latest verdict and the time it was written, if any.
    pub closed spec fn last(&self) -> Option<(DetectionReport, u128)> {
        self.last
    }

    /// An empty cache.
    pub fn new() -> (res: Self)
        ensures
            res.last() is None,
    {
        VerdictCache { last: None }
    }

    /// The latest verdict regardless of age; `None` if no detection has
    /// completed.
    pub fn current(&self) -> (res: Option<DetectionReport>)
        ensures
            match self.last() {
                None => res is None,
                Some((r, _)) => res matches Some(c) && same_report(c, r),
            },
    {
        match &self.last {
            None => None,
            Some((r, _)) => Some(clone_report(r)),
        }
    }

    /// The latest verdict if it is younger than `max_age_nanos` at `now`;
    /// `None` if the cache is empty or the entry is stale.
    pub fn current_fresh(&self, now: u128, max_age_nanos: u128) -> (res: Option<DetectionReport>)
        ensures
            match fresh_view(self.last(), now, max_age_nanos) {
                None => res is None,
                Some(r) => res matches Some(c) && same_report(c, r),
            },
    {
        match &self.last {
            None => None,
            Some((r, at)) => {
                let elapsed = if now >= *at {
                    now - *at
                } else {
                    0
                };
                if elapsed < max_age_nanos {
                    Some(clone_report(r))
                } else {
                    None
                }
            },
        }
    }

    /// Replace the cached verdict with `report`, written at `now`.
    pub fn update(&mut self, report: DetectionReport, now: u128)
        ensures
            final(self).last() == Some((report, now)),
    {
        self.last = Some((report, now));
    }
}

/// What `current_fresh` returns for a cache holding `last`.
pub open spec fn fresh_view(last: Option<(DetectionReport, u128)>, now: u128, max_age: u128) -> Option<DetectionReport> {
    match last {
        Some((r, at)) => if age(now, at) < max_age { Some(r) } else { None },
        None => None,
    }
}

/// Reading the cache right after an update gives back the report that was
/// written, and it stays fresh exactly while it is younger than the maximum
/// age.
pub proof fn lemma_read_after_update(cache: VerdictCache, report: DetectionReport, at: u128, now: u128, max_age: u128)
    requires
        cache.last() == Some((report, at)),
    ensures
        fresh_view(cache.last(), now, max_age) == if age(now, at) < max_age { Some(report) } else { None },
        now <= at && max_age > 0 ==> fresh_view(cache.last(), now, max_age) == Some(report),
{
}

/// The age of an entry is the plain time elapsed since it was written (no
/// wrapping, however long ago), and zero for a clock reading before it.
pub proof fn lemma_age_is_elapsed(now: u128, at: u128)
    ensures
        now >= at ==> age(now, at) + at == now,
        now < at ==> age(now, at) == 0,
{
}

/// A cached verdict is fresh exactly while the time elapsed since it was
/// written is below the maximum age: once that much time has passed it is
/// stale, however long ago that was.
pub proof fn lemma_fresh_iff_elapsed_below_max(report: DetectionReport, at: u128, now: u128, max_age: u128)
    ensures
        now >= at && now - at >= max_age ==> fresh_view(Some((report, at)), now, max_age) is None,
        now >= at && now - at < max_age ==> fresh_view(Some((report, at)), now, max_age) == Some(report),
        now < at && max_age > 0 ==> fresh_view(Some((report, at)), now, max_age) == Some(report),
        fresh_view(None, now, max_age) is None,
{
}

/// A verdict that is fresh is also the current one.
pub proof fn lemma_fresh_is_current(last: Option<(DetectionReport, u128)>, now: u128, max_age: u128)
    ensures
        fresh_view(last, now, max_age) matches Some(r) ==> last matches Some((c, _)) && c == r,
{
}

/// The time a verdict stays fresh for a schedule, in seconds: one interval
/// for an interval schedule, five minutes for a cron schedule, and (in
/// effect) forever without a schedule.
pub fn ttl_for_schedule(schedule: &DetectionSchedule) -> (res: u64)
    ensures
        res == match *schedule {
            DetectionSchedule::Interval { seconds } => seconds,
            DetectionSchedule::Cron { .. } => 300,
            DetectionSchedule::Disabled => u64::MAX / 2,
        },
{
    match schedule {
        DetectionSchedule::Interval { seconds } => *seconds,
        DetectionSchedule::Cron { .. } => 300,
        DetectionSchedule::Disabled => u64::MAX / 2,
    }
}

} // verus!

//! Launch interception: what to do when a target process starts, given the
//! cached verdict, and what the user is told about it.
//!
//! Subscribing to process-start events is platform work done by the
//! application, which asks the library about each new process.

use vstd::prelude::*;

use crate::config::{DetectionSchedule, ProcessTarget};
use crate::detector::DetectionReport;
use crate::processes::{count_killed, killed_count, spec_matches, KillOutcome};
use crate::text::{concat2, decimal, decimal_string, join, join_strings, views};
use crate::verdict::ttl_for_schedule;

verus! {

/// What happens to a newly started target process.
#[derive(Debug, Clone, Copy, PartialEq, Eq, Structural)]
pub enum InterceptDecision {
    /// The fresh verdict says the IP is not allowed: kill it.
    Kill,
    /// The fresh verdict matched, or no allow-list is configured.
    LetRun,
    /// No verdict young enough: the process may run; the scheduler deals with it later.
    FailOpen,
}

/// Kill only on a fresh verdict that did not match a configured allow-list.
pub fn intercept_decision(fresh_verdict: Option<&DetectionReport>) -> (res: InterceptDecision)
    ensures
        res == match fresh_verdict {
            Some(v) => if !v.matched && v.allowed_ips@.len() > 0 {
                InterceptDecision::Kill
            } else {
                InterceptDecision::LetRun
            },
            None => InterceptDecision::FailOpen,
        },
{
    match fresh_verdict {
        Some(v) => {
            if !v.matched && v.allowed_ips.len() > 0 {
                InterceptDecision::Kill
            } else {
                InterceptDecision::LetRun
            }
        },
        None => InterceptDecision::FailOpen,
    }
}

/// How long a verdict stays fresh for the schedule, in nanoseconds.
pub fn verdict_ttl_nanos(schedule: &DetectionSchedule) -> (res: u128)
    ensures
        res == ttl_secs_spec(*schedule) * 1_000_000_000,
{
    let secs = ttl_for_schedule(schedule);
    (secs as u128) * 1_000_000_000
}

/// The freshness of a verdict for a schedule, in seconds.
pub open spec fn ttl_secs_spec(schedule: DetectionSchedule) -> int {
    match schedule {
        DetectionSchedule::Interval { seconds } => seconds as int,
        DetectionSchedule::Cron { .. } => 300,
        DetectionSchedule::Disabled => (u64::MAX / 2) as int,
    }
}

/// The index of the first of `targets` that matches the new process.
pub fn launch_target(
    targets: &Vec<ProcessTarget>,
    name: &str,
    exe: Option<&str>,
    case_insensitive: bool,
) -> (res: Option<usize>)
    ensures
        match res {
            Some(k) => {
                &&& k < targets@.len()
                &&& spec_matches(targets@[k as int].name@, name@, opt_str(exe), case_insensitive)
                &&& forall|j: int|
                    0 <= j < k ==> !spec_matches(
                        (#[trigger] targets@[j]).name@,
                        name@,
                        opt_str(exe),
                        case_insensitive,
                    )
            },
            None => forall|j: int|
                0 <= j < targets@.len() ==> !spec_matches(
                    (#[trigger] targets@[j]).name@,
                    name@,
                    opt_str(exe),
                    case_insensitive,
                ),
        },
{
    for i in 0..targets.len()
        invariant
            forall|j: int|
                0 <= j < i ==> !spec_matches(
                    (#[trigger] targets@[j]).name@,
                    name@,
                    opt_str(exe),
                    case_insensitive,
                ),
    {
        if crate::processes::matches(&targets[i], name, exe, case_insensitive) {
            return Some(i);
        }
    }
    None
}

/// The view of an optional `&str`.
pub open spec fn opt_str(o: Option<&str>) -> Option<Seq<char>> {
    match o {
        Some(s) => Some(s@),
        None => None,
    }
}

/// The errors of the kills that failed, in order.
pub open spec fn failure_reasons(outcomes: Seq<KillOutcome>) -> Seq<Seq<char>>
    decreases outcomes.len(),
{
    if outcomes.len() == 0 {
        Seq::empty()
    } else {
        let rest = failure_reasons(outcomes.drop_last());
        let o = outcomes.last();
        if !o.killed && o.error is Some {
            rest.push(o.error.unwrap()@)
        } else {
            rest
        }
    }
}

/// The title and body of the notification after an interception.
pub open spec fn intercept_texts(name: Seq<char>, pid: u32, outcomes: Seq<KillOutcome>) -> (
    Seq<char>,
    Seq<char>,
) {
    let who = name + " (PID "@ + decimal(pid as nat) + ")"@;
    if killed_count(outcomes) > 0 {
        ("已拦截进程启动"@, who + " 被结束 · 出口 IP 与允许列表不匹配"@)
    } else {
        ("拦截进程失败"@, who + " 命中拦截规则但 kill 失败："@ + join(failure_reasons(outcomes), "; "@))
    }
}

/// The errors of the kills that failed.
fn collect_reasons(outcomes: &Vec<KillOutcome>) -> (res: Vec<String>)
    ensures
        views(res@) == failure_reasons(outcomes@),
{
    let mut res: Vec<String> = Vec::new();
    for i in 0..outcomes.len()
        invariant
            views(res@) == failure_reasons(outcomes@.take(i as int)),
    {
        assert(outcomes@.take(i + 1).drop_last() =~= outcomes@.take(i as int));
        assert(outcomes@.take(i + 1).last() == outcomes@[i as int]);
        let o = &outcomes[i];
        if !o.killed {
            match &o.error {
                Some(e) => {
                    let ghost pre = views(res@);
                    res.push(e.clone());
                    assert(views(res@) =~= pre.push(e@));
                },
                None => {},
            }
        }
    }
    assert(outcomes@.take(outcomes.len() as int) =~= outcomes@);
    res
}

/// The title and body of the notification after intercepting process
/// `name` (`pid`), given what the kill reported.
pub fn intercept_notice(name: &str, pid: u32, outcomes: &Vec<KillOutcome>) -> (res: (String, String))
    ensures
        (res.0@, res.1@) == intercept_texts(name@, pid, outcomes@),
{
    let mut who = concat2(name, " (PID ");
    let p = decimal_string(pid as u64);
    who.append(p.as_str());
    who.append(")");
    if count_killed(outcomes) > 0 {
        let body = concat2(who.as_str(), " 被结束 · 出口 IP 与允许列表不匹配");
        (String::from_str("已拦截进程启动"), body)
    } else {
        let reasons = collect_reasons(outcomes);
        let joined = join_strings(&reasons, "; ");
        let mut body = concat2(who.as_str(), " 命中拦截规则但 kill 失败：");
        body.append(joined.as_str());
        (String::from_str("拦截进程失败"), body)
    }
}

} // verus!

//! The decisions behind the UI's commands: what a detection round reacts
//! to, what the user is told, what a kill request covers, how much of the
//! log is read and whether launch at login changes.

use vstd::prelude::*;

use crate::config::{KillMode, Provider};
use crate::detector::DetectionReport;
use crate::text::{concat2, decimal, decimal_string, join, join_strings, views};

verus! {

/// Providers and allow-list for a one-off detection from the dashboard.
#[derive(Debug)]
pub struct ManualOptions {
    pub providers: Option<Vec<Provider>>,
    pub allowed_ips: Option<Vec<String>>,
}

impl Default for ManualOptions {
    fn default() -> (res: Self)
        ensures
            res.providers is None,
            res.allowed_ips is None,
    {
        ManualOptions { providers: None, allowed_ips: None }
    }
}

/// A round reacts to a mismatch only when it used the persisted
/// configuration (no manual override), an allow-list is configured, and
/// the detected IP did not match.
pub open spec fn spec_should_react(manual: bool, report: DetectionReport) -> bool {
    !manual && report.allowed_ips@.len() > 0 && !report.matched
}

/// Whether the round that produced `report` reacts to a mismatch; `manual`
/// tells whether providers or allow-list were overridden.
pub fn should_handle_mismatch(manual: bool, report: &DetectionReport) -> (res: bool)
    ensures
        res == spec_should_react(manual, *report),
{
    !manual && report.allowed_ips.len() > 0 && !report.matched
}

/// A detection from the dashboard never kills anything, whatever it finds.
pub proof fn lemma_manual_never_reacts(report: DetectionReport)
    ensures
        !spec_should_react(true, report),
{
}

/// A round whose report matched never reacts.
pub proof fn lemma_match_never_reacts(manual: bool, report: DetectionReport)
    requires
        report.matched,
    ensures
        !spec_should_react(manual, report),
{
}

/// A scheduled round with an allow-list that did not match reacts, whatever
/// IPs it detected, none included; without an allow-list it never reacts.
pub proof fn lemma_unmatched_round_reacts(report: DetectionReport)
    ensures
        report.allowed_ips@.len() > 0 && !report.matched ==> spec_should_react(false, report),
        report.allowed_ips@.len() == 0 ==> !spec_should_react(false, report),
{
}

/// How the application responds to a mismatch.
#[derive(Debug, Clone, Copy, PartialEq, Eq, Structural)]
pub enum MismatchResponse {
    /// Kill the target processes now.
    KillNow,
    /// Ask the user in a dialog.
    PromptUser,
    /// Only the notification.
    NotifyOnly,
}

/// The response for a kill mode.
pub fn mismatch_response(mode: KillMode) -> (res: MismatchResponse)
    ensures
        res == match mode {
            KillMode::Auto => MismatchResponse::KillNow,
            KillMode::Confirm => MismatchResponse::PromptUser,
            KillMode::Manual => MismatchResponse::NotifyOnly,
        },
{
    match mode {
        KillMode::Auto => MismatchResponse::KillNow,
        KillMode::Confirm => MismatchResponse::PromptUser,
        KillMode::Manual => MismatchResponse::NotifyOnly,
    }
}

/// The body of the mismatch notification.
pub open spec fn mismatch_body(report: DetectionReport) -> Seq<char> {
    "检测到 "@ + (if report.detected_ips@.len() == 0 {
        "未知"@
    } else {
        join(views(report.detected_ips@), ", "@)
    }) + "，期望 "@ + join(views(report.allowed_ips@), ", "@)
}

/// The title and body of the mismatch notification.
pub fn mismatch_notice(report: &DetectionReport) -> (res: (String, String))
    ensures
        res.0@ == "出口IP不匹配"@,
        res.1@ == mismatch_body(*report),
{
    let detected = if report.detected_ips.len() == 0 {
        String::from_str("未知")
    } else {
        join_strings(&report.detected_ips, ", ")
    };
    let mut body = concat2("检测到 ", detected.as_str());
    body.append("，期望 ");
    let allowed = join_strings(&report.allowed_ips, ", ");
    body.append(allowed.as_str());
    (String::from_str("出口IP不匹配"), body)
}

/// The title and body of the notification after an automatic kill.
pub fn killed_notice(count: usize) -> (res: (String, String))
    ensures
        res.0@ == "已自动结束目标进程"@,
        res.1@ == "共 "@ + decimal(count as nat) + " 个进程被结束"@,
{
    let n = decimal_string(count as u64);
    let mut body = concat2("共 ", n.as_str());
    body.append(" 个进程被结束");
    (String::from_str("已自动结束目标进程"), body)
}

/// What a kill request from the UI covers.
#[derive(Debug)]
pub enum KillRequest {
    /// Exactly these processes.
    Pids(Vec<u32>),
    /// Every process that a target matches.
    Matching,
}

/// A non-empty list of process ids is killed as given; otherwise the
/// matching processes are.
pub fn kill_request(pids: Option<Vec<u32>>) -> (res: KillRequest)
    ensures
        match pids {
            Some(p) => if p@.len() > 0 {
                res matches KillRequest::Pids(q) && q@ == p@
            } else {
                res is Matching
            },
            None => res is Matching,
        },
{
    match pids {
        Some(p) => {
            if p.len() > 0 {
                KillRequest::Pids(p)
            } else {
                KillRequest::Matching
            }
        },
        None => KillRequest::Matching,
    }
}

/// The number of bytes of log to read: the requested kilobytes (256 by
/// default), kept between 8 and 4096.
pub fn log_read_cap(max_kb: Option<usize>) -> (res: usize)
    ensures
        res == 1024 * ({
            let kb = match max_kb {
                Some(k) => k as int,
                None => 256,
            };
            if kb < 8 {
                8
            } else if kb > 4096 {
                4096
            } else {
                kb
            }
        }),
{
    let kb = match max_kb {
        Some(k) => k,
        None => 256,
    };
    let clamped = if kb < 8 {
        8
    } else if kb > 4096 {
        4096
    } else {
        kb
    };
    clamped * 1024
}

/// A change of the launch-at-login setting.
#[derive(Debug, Clone, Copy, PartialEq, Eq, Structural)]
pub enum AutostartChange {
    Enable,
    Disable,
    Keep,
}

/// Bring launch at login in line with the configuration.
pub fn autostart_change(wanted: bool, currently_enabled: bool) -> (res: AutostartChange)
    ensures
        res == if wanted && !currently_enabled {
            AutostartChange::Enable
        } else if !wanted && currently_enabled {
            AutostartChange::Disable
        } else {
            AutostartChange::Keep
        },
{
    if wanted && !currently_enabled {
        AutostartChange::Enable
    } else if !wanted && currently_enabled {
        AutostartChange::Disable
    } else {
        AutostartChange::Keep
    }
}

} // verus!

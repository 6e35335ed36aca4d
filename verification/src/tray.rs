//! What the tray shows: its icon, its tooltip and the label of the
//! pause/resume entry, from the scheduler's state and the last report.

use vstd::prelude::*;

use crate::detector::{opt_view, DetectionReport};
use crate::scheduler::SchedulerState;
use crate::text::{concat2, join, join_strings, str_eq, views};

verus! {

/// The tray icon's look.
#[derive(Debug, Clone, Copy, PartialEq, Eq, Structural)]
pub enum TrayVisual {
    Idle,
    Good,
    Warn,
}

/// The icon: idle unless the scheduler runs and the last report had an
/// allow-list, then green when it matched and a warning when it did not.
pub fn tray_visual(state: SchedulerState, report: Option<&DetectionReport>) -> (res: TrayVisual)
    ensures
        res == match state {
            SchedulerState::Disabled | SchedulerState::Paused => TrayVisual::Idle,
            SchedulerState::Running => match report {
                Some(r) => if r.allowed_ips@.len() > 0 {
                    if r.matched {
                        TrayVisual::Good
                    } else {
                        TrayVisual::Warn
                    }
                } else {
                    TrayVisual::Idle
                },
                None => TrayVisual::Idle,
            },
        },
{
    match state {
        SchedulerState::Disabled | SchedulerState::Paused => TrayVisual::Idle,
        SchedulerState::Running => match report {
            Some(r) => {
                if r.allowed_ips.len() > 0 {
                    if r.matched {
                        TrayVisual::Good
                    } else {
                        TrayVisual::Warn
                    }
                } else {
                    TrayVisual::Idle
                }
            },
            None => TrayVisual::Idle,
        },
    }
}

/// What an entry of the tray menu asks for.
#[derive(Debug, Clone, Copy, PartialEq, Eq, Structural)]
pub enum MenuCommand {
    ShowWindow,
    DetectNow,
    PauseResume,
    Quit,
    Unknown,
}

/// The command of the menu entry with this id.
pub fn menu_command(id: &str) -> (res: MenuCommand)
    ensures
        res == if id@ == "show"@ {
            MenuCommand::ShowWindow
        } else if id@ == "detect"@ {
            MenuCommand::DetectNow
        } else if id@ == "pause_resume"@ {
            MenuCommand::PauseResume
        } else if id@ == "quit"@ {
            MenuCommand::Quit
        } else {
            MenuCommand::Unknown
        },
{
    if str_eq(id, "show") {
        MenuCommand::ShowWindow
    } else if str_eq(id, "detect") {
        MenuCommand::DetectNow
    } else if str_eq(id, "pause_resume") {
        MenuCommand::PauseResume
    } else if str_eq(id, "quit") {
        MenuCommand::Quit
    } else {
        MenuCommand::Unknown
    }
}

/// The label of the pause/resume entry and whether it is enabled.
pub fn pause_resume_label(state: SchedulerState) -> (res: (&'static str, bool))
    ensures
        res.0@ == match state {
            SchedulerState::Running => "暂停定时检测"@,
            SchedulerState::Paused => "恢复定时检测"@,
            SchedulerState::Disabled => "定时检测未启用"@,
        },
        res.1 == !(state is Disabled),
{
    match state {
        SchedulerState::Running => ("暂停定时检测", true),
        SchedulerState::Paused => ("恢复定时检测", true),
        SchedulerState::Disabled => ("定时检测未启用", false),
    }
}

/// The first line of the tooltip.
pub open spec fn tooltip_head(state: SchedulerState) -> Seq<char> {
    match state {
        SchedulerState::Disabled => "IP Killswitch · 未启用定时"@,
        SchedulerState::Paused => "IP Killswitch · 已暂停"@,
        SchedulerState::Running => "IP Killswitch · 运行中"@,
    }
}

/// The second line of the tooltip.
pub open spec fn tooltip_tail(report: Option<DetectionReport>) -> Seq<char> {
    match report {
        None => "尚无检测记录"@,
        Some(r) => if r.allowed_ips@.len() == 0 {
            "最近检测："@ + (if r.detected_ips@.len() > 0 {
                r.detected_ips@[0]@
            } else {
                "—"@
            }) + " (未配置目标IP)"@
        } else if r.matched {
            "匹配："@ + (match opt_view(r.matched_ip) {
                Some(ip) => ip,
                None => Seq::empty(),
            })
        } else {
            "不匹配：检测到 "@ + (if r.detected_ips@.len() == 0 {
                "—"@
            } else {
                join(views(r.detected_ips@), ", "@)
            })
        },
    }
}

/// The tray tooltip: the scheduler's state, then the last verdict.
pub fn tooltip_for(state: SchedulerState, report: Option<&DetectionReport>) -> (res: String)
    ensures
        res@ == tooltip_head(state) + "\n"@ + tooltip_tail(
            match report {
                Some(r) => Some(*r),
                None => None,
            },
        ),
{
    let head = match state {
        SchedulerState::Disabled => "IP Killswitch · 未启用定时",
        SchedulerState::Paused => "IP Killswitch · 已暂停",
        SchedulerState::Running => "IP Killswitch · 运行中",
    };
    let tail: String = match report {
        None => String::from_str("尚无检测记录"),
        Some(r) => {
            if r.allowed_ips.len() == 0 {
                let first: &str = if r.detected_ips.len() > 0 {
                    r.detected_ips[0].as_str()
                } else {
                    "—"
                };
                let mut t = concat2("最近检测：", first);
                t.append(" (未配置目标IP)");
                t
            } else if r.matched {
                match &r.matched_ip {
                    Some(ip) => concat2("匹配：", ip.as_str()),
                    None => {
                        let t = String::from_str("匹配：");
                        assert(t@ + Seq::<char>::empty() =~= t@);
                        t
                    },
                }
            } else {
                if r.detected_ips.len() == 0 {
                    concat2("不匹配：检测到 ", "—")
                } else {
                    let joined = join_strings(&r.detected_ips, ", ");
                    concat2("不匹配：检测到 ", joined.as_str())
                }
            }
        },
    };
    let mut res = concat2(head, "\n");
    res.append(tail.as_str());
    res
}

} // verus!

use ip_killswitch::config::{DetectionSchedule, ProcessTarget};
use ip_killswitch::crontab::{cron_step, cron_wait_ms, CronProblem};
use ip_killswitch::detector::UtcTime;
use ip_killswitch::process_watcher::{
    intercept_decision, intercept_notice, launch_target, verdict_ttl_nanos, InterceptDecision,
};
use ip_killswitch::processes::{
    count_killed, discover, discovered_pids, kill_outcome, RunningProcess,
};
use ip_killswitch::scheduler::{
    current_state, restart_plan, toggle_action, RestartPlan, SchedulerState, ToggleAction,
};
use ip_killswitch::verdict::ttl_for_schedule;

fn target(id: &str, name: &str, enabled: bool) -> ProcessTarget {
    ProcessTarget {
        id: id.to_string(),
        label: format!("label-{id}"),
        name: name.to_string(),
        enabled,
    }
}

fn running(pid: u32, name: &str, exe: Option<&str>) -> RunningProcess {
    RunningProcess { pid, name: name.to_string(), exe: exe.map(|s| s.to_string()) }
}

#[test]
fn matching_rules() {
    let chrome = target("c", " chrome.exe ", true);
    assert!(ip_killswitch::processes::matches(&chrome, "chrome.exe", None, false));
    assert!(ip_killswitch::processes::matches(&chrome, "CHROME.EXE", None, true));
    // Off Windows names are compared exactly, the substring test too.
    assert!(!ip_killswitch::processes::matches(&chrome, "Chrome.exe", None, false));
    assert!(ip_killswitch::processes::matches(&chrome, "Chrome.exe", None, true));
    // Substring of the process name.
    assert!(ip_killswitch::processes::matches(&chrome, "my-chrome.exe-helper", None, false));
    assert!(!ip_killswitch::processes::matches(&chrome, "firefox", None, false));
    let blank = target("b", "   ", true);
    assert!(!ip_killswitch::processes::matches(&blank, "anything", Some("/usr/bin/anything"), false));
}

#[test]
fn target_name_case_off_windows() {
    let upper = target("t", "Chrome", true);
    assert!(!ip_killswitch::processes::matches(&upper, "chrome", None, false));
    assert!(!ip_killswitch::processes::matches(&upper, "chrome", Some("/usr/bin/chrome"), false));
    assert!(ip_killswitch::processes::matches(&upper, "chrome", None, true));
    assert!(ip_killswitch::processes::matches(&upper, "Chrome", None, false));
}

#[test]
fn matching_by_executable() {
    let node = target("n", "node", true);
    assert!(ip_killswitch::processes::matches(&node, "n-worker", Some("/usr/local/bin/node"), false));
    let path = target("p", "/opt/app/bin/server", true);
    assert!(ip_killswitch::processes::matches(&path, "srv", Some("/opt/app/bin/server"), false));
    assert!(!ip_killswitch::processes::matches(&node, "python", Some("/usr/bin/python3"), false));
}

#[test]
fn matching_by_path_substring() {
    let google = target("g", "Google", true);
    assert!(ip_killswitch::processes::matches(&google, "chrome", Some("/opt/Google/chrome"), false));
    assert!(!ip_killswitch::processes::matches(&google, "chrome", Some("/opt/google/chrome"), false));
    assert!(ip_killswitch::processes::matches(&google, "chrome", Some("/opt/google/chrome"), true));
    assert!(!ip_killswitch::processes::matches(&google, "chrome", None, false));
    let bin = target("b", "bin", true);
    assert!(ip_killswitch::processes::matches(&bin, "x", Some("/usr/bin/.."), false));
}

#[test]
fn file_name_of_executable_path() {
    let tool = target("t", "tool", true);
    assert!(ip_killswitch::processes::matches(&tool, "x", Some("/usr/bin/tool"), false));
    let tool_upper = target("t", "TOOL", true);
    assert!(ip_killswitch::processes::matches(&tool_upper, "x", Some("/usr/bin/tool"), true));
    assert!(!ip_killswitch::processes::matches(&tool_upper, "x", Some("/usr/bin/tool"), false));
}

#[test]
fn discover_first_enabled_target() {
    let targets = vec![
        target("off", "node", false),
        target("t1", "node", true),
        target("t2", "no", true),
    ];
    let procs = vec![
        running(10, "bash", None),
        running(11, "node", Some("/usr/bin/node")),
        running(12, "nobody", None),
    ];
    let found = discover(&targets, &procs, false);
    assert_eq!(found.len(), 2);
    assert_eq!(found[0].pid, 11);
    assert_eq!(found[0].matched_target_id, "t1");
    assert_eq!(found[0].matched_target_label, "label-t1");
    assert_eq!(found[0].exe, Some("/usr/bin/node".to_string()));
    assert_eq!(found[1].pid, 12);
    assert_eq!(found[1].matched_target_id, "t2");
    assert_eq!(discovered_pids(&found), vec![11, 12]);
}

#[test]
fn discover_none_enabled() {
    let targets = vec![target("off", "node", false)];
    let procs = vec![running(11, "node", None)];
    assert!(discover(&targets, &procs, false).is_empty());
}

#[test]
fn kill_outcomes() {
    let ok = kill_outcome(5, Some(("node".to_string(), true)));
    assert!(ok.killed);
    assert_eq!(ok.error, None);
    let refused = kill_outcome(6, Some(("init".to_string(), false)));
    assert_eq!(refused.error, Some("kill() returned false".to_string()));
    let gone = kill_outcome(7, None);
    assert_eq!(gone.name, "");
    assert!(!gone.killed);
    assert_eq!(gone.error, Some("process not found".to_string()));
    assert_eq!(count_killed(&vec![ok, refused, gone]), 1);
}

#[test]
fn scheduler_states() {
    let interval = DetectionSchedule::Interval { seconds: 60 };
    assert_eq!(current_state(&DetectionSchedule::Disabled, false, true), SchedulerState::Disabled);
    assert_eq!(current_state(&interval, true, true), SchedulerState::Paused);
    assert_eq!(current_state(&interval, false, false), SchedulerState::Paused);
    assert_eq!(current_state(&interval, false, true), SchedulerState::Running);
}

#[test]
fn restart_plans() {
    assert!(matches!(restart_plan(true, &DetectionSchedule::Interval { seconds: 60 }), RestartPlan::StayStopped));
    assert!(matches!(restart_plan(false, &DetectionSchedule::Disabled), RestartPlan::Disabled));
    assert!(matches!(restart_plan(false, &DetectionSchedule::Interval { seconds: 5 }), RestartPlan::Interval { secs: 30 }));
    assert!(matches!(restart_plan(false, &DetectionSchedule::Interval { seconds: 300 }), RestartPlan::Interval { secs: 300 }));
    match restart_plan(false, &DetectionSchedule::Cron { expr: "0 */5 * * * *".to_string() }) {
        RestartPlan::Cron { expr } => assert_eq!(expr, "0 */5 * * * *"),
        _ => panic!("expected a cron plan"),
    }
}

#[test]
fn toggle_actions() {
    assert_eq!(toggle_action(SchedulerState::Running), ToggleAction::Pause);
    assert_eq!(toggle_action(SchedulerState::Paused), ToggleAction::Resume);
    assert_eq!(toggle_action(SchedulerState::Disabled), ToggleAction::Nothing);
}

#[test]
fn cron_parsing() {
    assert_eq!(cron_step("0 0 * * * *", 0).problem, None);
    assert_eq!(cron_step("not a cron", 0).problem, Some(CronProblem::InvalidExpression));
}

#[test]
fn cron_step_waits_for_next_minute() {
    // 2024-01-01T00:00:30Z
    let now: i64 = 1_704_067_230 * 1_000_000_000;
    let step = cron_step("0 * * * * *", now);
    assert!(step.fire);
    assert_eq!(step.problem, None);
    assert_eq!(step.wait_ms, 30_000);
}

#[test]
fn cron_step_invalid_expression() {
    let step = cron_step("garbage", 0);
    assert!(!step.fire);
    assert_eq!(step.wait_ms, 60_000);
    assert_eq!(step.problem, Some(CronProblem::InvalidExpression));
}

#[test]
fn cron_wait_is_at_least_a_second() {
    let next = UtcTime { secs: 100, nanos: 0 };
    assert_eq!(cron_wait_ms(next, 99_999_999_999), 1000);
    assert_eq!(cron_wait_ms(next, 90_000_000_000), 10_000);
    // A fraction of a millisecond is dropped, as TimeDelta::num_milliseconds does.
    assert_eq!(cron_wait_ms(next, 89_999_500_000), 10_000);
}

#[test]
fn ttl_values() {
    assert_eq!(ttl_for_schedule(&DetectionSchedule::Interval { seconds: 90 }), 90);
    assert_eq!(ttl_for_schedule(&DetectionSchedule::Cron { expr: "x".into() }), 300);
    assert_eq!(ttl_for_schedule(&DetectionSchedule::Disabled), u64::MAX / 2);
    assert_eq!(verdict_ttl_nanos(&DetectionSchedule::Interval { seconds: 2 }), 2_000_000_000);
}

#[test]
fn launch_target_first_match() {
    let targets = vec![target("a", "code", true), target("b", "node", true)];
    assert_eq!(launch_target(&targets, "node", None, false), Some(1));
    assert_eq!(launch_target(&targets, "bash", None, false), None);
}

#[test]
fn intercept_texts() {
    let killed = vec![kill_outcome(42, Some(("app.exe".to_string(), true)))];
    let (title, body) = intercept_notice("app.exe", 42, &killed);
    assert_eq!(title, "已拦截进程启动");
    assert_eq!(body, "app.exe (PID 42) 被结束 · 出口 IP 与允许列表不匹配");
    let failed = vec![kill_outcome(42, None)];
    let (title, body) = intercept_notice("app.exe", 42, &failed);
    assert_eq!(title, "拦截进程失败");
    assert_eq!(body, "app.exe (PID 42) 命中拦截规则但 kill 失败：process not found");
}

#[test]
fn intercept_without_verdict_fails_open() {
    assert_eq!(intercept_decision(None), InterceptDecision::FailOpen);
}

#[test]
fn cron_step_without_future_occurrence() {
    // 2024-01-01T00:00:00Z; the expression only fires in the year 2000.
    let now: i64 = 1_704_067_200 * 1_000_000_000;
    let step = cron_step("0 0 0 1 1 * 2000", now);
    assert!(!step.fire);
    assert_eq!(step.wait_ms, 60_000);
    assert_eq!(step.problem, Some(CronProblem::NoUpcoming));
}

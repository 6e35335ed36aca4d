use ip_killswitch::admin::{relaunch_as_admin, shell_execute_outcome};
use ip_killswitch::commands::{
    autostart_change, kill_request, killed_notice, log_read_cap, mismatch_notice,
    mismatch_response, should_handle_mismatch, AutostartChange, KillRequest, ManualOptions,
    MismatchResponse,
};
use ip_killswitch::config::KillMode;
use ip_killswitch::config::DetectStrategy;
use ip_killswitch::detector::{DetectionReport, UtcTime};
use ip_killswitch::firewall::{add_rule, remove_rule, rule_name_for, FirewallManager};
use ip_killswitch::logger::{log_file_name, newest_log, recent_text, tail_start, LogCandidate};
use ip_killswitch::process_watcher::{intercept_decision, InterceptDecision};
use ip_killswitch::scheduler::SchedulerState;
use ip_killswitch::tray::{
    menu_command, pause_resume_label, tooltip_for, tray_visual, MenuCommand, TrayVisual,
};
use ip_killswitch::verdict::VerdictCache;
use ip_killswitch::window::{close_action, start_hidden, CloseAction};

fn report(detected: &[&str], allowed: &[&str], matched: Option<&str>) -> DetectionReport {
    DetectionReport {
        started_at: UtcTime { secs: 1, nanos: 0 },
        finished_at: UtcTime { secs: 2, nanos: 0 },
        strategy: DetectStrategy::Any,
        providers: vec![],
        detected_ips: detected.iter().map(|s| s.to_string()).collect(),
        matched: matched.is_some(),
        matched_ip: matched.map(|s| s.to_string()),
        allowed_ips: allowed.iter().map(|s| s.to_string()).collect(),
    }
}

#[test]
fn tooltip_texts() {
    assert_eq!(tooltip_for(SchedulerState::Disabled, None), "IP Killswitch · 未启用定时\n尚无检测记录");
    let r = report(&["1.1.1.1"], &[], None);
    assert_eq!(
        tooltip_for(SchedulerState::Paused, Some(&r)),
        "IP Killswitch · 已暂停\n最近检测：1.1.1.1 (未配置目标IP)"
    );
    let r = report(&[], &[], None);
    assert_eq!(
        tooltip_for(SchedulerState::Paused, Some(&r)),
        "IP Killswitch · 已暂停\n最近检测：— (未配置目标IP)"
    );
    let r = report(&["1.1.1.1"], &["1.1.1.1"], Some("1.1.1.1"));
    assert_eq!(tooltip_for(SchedulerState::Running, Some(&r)), "IP Killswitch · 运行中\n匹配：1.1.1.1");
    let r = report(&["2.2.2.2", "3.3.3.3"], &["1.1.1.1"], None);
    assert_eq!(
        tooltip_for(SchedulerState::Running, Some(&r)),
        "IP Killswitch · 运行中\n不匹配：检测到 2.2.2.2, 3.3.3.3"
    );
    let r = report(&[], &["1.1.1.1"], None);
    assert_eq!(tooltip_for(SchedulerState::Running, Some(&r)), "IP Killswitch · 运行中\n不匹配：检测到 —");
}

#[test]
fn tray_icons() {
    let ok = report(&["1.1.1.1"], &["1.1.1.1"], Some("1.1.1.1"));
    let bad = report(&["2.2.2.2"], &["1.1.1.1"], None);
    let none = report(&["2.2.2.2"], &[], None);
    assert_eq!(tray_visual(SchedulerState::Paused, Some(&bad)), TrayVisual::Idle);
    assert_eq!(tray_visual(SchedulerState::Running, Some(&ok)), TrayVisual::Good);
    assert_eq!(tray_visual(SchedulerState::Running, Some(&bad)), TrayVisual::Warn);
    assert_eq!(tray_visual(SchedulerState::Running, Some(&none)), TrayVisual::Idle);
    assert_eq!(tray_visual(SchedulerState::Running, None), TrayVisual::Idle);
    assert_eq!(pause_resume_label(SchedulerState::Running), ("暂停定时检测", true));
    assert_eq!(pause_resume_label(SchedulerState::Paused), ("恢复定时检测", true));
    assert_eq!(pause_resume_label(SchedulerState::Disabled), ("定时检测未启用", false));
}

#[test]
fn mismatch_reaction() {
    let bad = report(&["2.2.2.2"], &["1.1.1.1"], None);
    assert!(should_handle_mismatch(false, &bad));
    assert!(!should_handle_mismatch(true, &bad));
    let ok = report(&["1.1.1.1"], &["1.1.1.1"], Some("1.1.1.1"));
    assert!(!should_handle_mismatch(false, &ok));
    let no_list = report(&["2.2.2.2"], &[], None);
    assert!(!should_handle_mismatch(false, &no_list));
    assert_eq!(mismatch_response(KillMode::Auto), MismatchResponse::KillNow);
    assert_eq!(mismatch_response(KillMode::Confirm), MismatchResponse::PromptUser);
    assert_eq!(mismatch_response(KillMode::Manual), MismatchResponse::NotifyOnly);
}

#[test]
fn notices() {
    let bad = report(&["2.2.2.2", "3.3.3.3"], &["1.1.1.1", "4.4.4.4"], None);
    assert_eq!(
        mismatch_notice(&bad),
        ("出口IP不匹配".to_string(), "检测到 2.2.2.2, 3.3.3.3，期望 1.1.1.1, 4.4.4.4".to_string())
    );
    let unknown = report(&[], &["1.1.1.1"], None);
    assert_eq!(mismatch_notice(&unknown).1, "检测到 未知，期望 1.1.1.1");
    assert_eq!(killed_notice(3), ("已自动结束目标进程".to_string(), "共 3 个进程被结束".to_string()));
}

#[test]
fn kill_requests_and_caps() {
    assert!(matches!(kill_request(None), KillRequest::Matching));
    assert!(matches!(kill_request(Some(vec![])), KillRequest::Matching));
    match kill_request(Some(vec![3, 4])) {
        KillRequest::Pids(p) => assert_eq!(p, vec![3, 4]),
        _ => panic!("expected pids"),
    }
    assert_eq!(log_read_cap(None), 256 * 1024);
    assert_eq!(log_read_cap(Some(1)), 8 * 1024);
    assert_eq!(log_read_cap(Some(100_000)), 4096 * 1024);
    assert_eq!(log_read_cap(Some(512)), 512 * 1024);
}

#[test]
fn autostart_changes() {
    assert_eq!(autostart_change(true, false), AutostartChange::Enable);
    assert_eq!(autostart_change(false, true), AutostartChange::Disable);
    assert_eq!(autostart_change(true, true), AutostartChange::Keep);
    assert_eq!(autostart_change(false, false), AutostartChange::Keep);
    let opts = ManualOptions::default();
    assert!(opts.providers.is_none() && opts.allowed_ips.is_none());
}

#[test]
fn intercept_on_fresh_verdict() {
    let bad = report(&["2.2.2.2"], &["1.1.1.1"], None);
    let ok = report(&["1.1.1.1"], &["1.1.1.1"], Some("1.1.1.1"));
    let no_list = report(&["2.2.2.2"], &[], None);
    assert_eq!(intercept_decision(Some(&bad)), InterceptDecision::Kill);
    assert_eq!(intercept_decision(Some(&ok)), InterceptDecision::LetRun);
    assert_eq!(intercept_decision(Some(&no_list)), InterceptDecision::LetRun);
}

#[test]
fn verdict_cache_read_after_write() {
    let mut cache = VerdictCache::new();
    assert!(cache.current().is_none());
    assert!(cache.current_fresh(10, 100).is_none());
    cache.update(report(&["1.1.1.1"], &["1.1.1.1"], Some("1.1.1.1")), 1_000);
    assert_eq!(cache.current().unwrap().detected_ips, vec!["1.1.1.1".to_string()]);
    assert!(cache.current_fresh(1_099, 100).is_some());
    // A verdict exactly as old as the maximum age is stale.
    assert!(cache.current_fresh(1_100, 100).is_none());
    assert!(cache.current_fresh(1_101, 100).is_none());
    // A clock reading before the write counts as age zero.
    assert!(cache.current_fresh(500, 1).is_some());
    assert!(cache.current_fresh(500, 0).is_none());
    cache.update(report(&["2.2.2.2"], &["1.1.1.1"], None), 2_000);
    assert!(!cache.current().unwrap().matched);
}

#[test]
fn firewall_rule_names() {
    let name = rule_name_for("/opt/app/bin/tool");
    assert!(name.starts_with("ip-killswitch:block:tool:"));
    assert_eq!(name.len(), "ip-killswitch:block:tool:".len() + 16);
    assert_eq!(name, rule_name_for("/opt/app/bin/tool"));
    assert_ne!(name, rule_name_for("/other/bin/tool"));
    assert!(rule_name_for("/x/..").starts_with("ip-killswitch:block:unknown:"));
    assert_eq!(add_rule("n", "/p"), Err("firewall: only implemented on Windows".to_string()));
    assert_eq!(remove_rule("n"), Err("firewall: only implemented on Windows".to_string()));
}

#[test]
fn firewall_plan_and_apply() {
    let mut fw = FirewallManager::new();
    let paths = vec!["/a/one".to_string(), "/b/two".to_string()];
    let plan = fw.plan_block_set(&paths);
    assert_eq!(plan.to_add.len(), 2);
    assert!(plan.to_remove.is_empty());
    for (name, _) in plan.to_add {
        fw.rule_added(name);
    }
    // Already in place: nothing to do.
    let again = fw.plan_block_set(&paths);
    assert!(again.to_add.is_empty() && again.to_remove.is_empty());
    // Shrink to one path: the other rule goes.
    let plan = fw.plan_block_set(&vec!["/a/one".to_string()]);
    assert!(plan.to_add.is_empty());
    assert_eq!(plan.to_remove, vec![rule_name_for("/b/two")]);
    for name in &plan.to_remove {
        fw.rule_removed(name);
    }
    assert_eq!(fw.active_rules(), vec![rule_name_for("/a/one")]);
    let removed = fw.cleanup();
    assert_eq!(removed, vec![rule_name_for("/a/one")]);
    assert!(fw.active_rules().is_empty());
    fw.remember_path("/a/one".to_string());
    fw.remember_path("/a/one".to_string());
    assert_eq!(fw.known_paths(), vec!["/a/one".to_string()]);
}

#[test]
fn log_files() {
    assert_eq!(log_file_name("2024-05-06"), "ip-killswitch.log.2024-05-06");
    let files = vec![
        LogCandidate { name: "other.txt".into(), modified_nanos: 99 },
        LogCandidate { name: "ip-killswitch.log.2024-05-05".into(), modified_nanos: 10 },
        LogCandidate { name: "ip-killswitch.log.2024-05-06".into(), modified_nanos: 20 },
        LogCandidate { name: "ip-killswitch.log.old".into(), modified_nanos: 20 },
    ];
    assert_eq!(newest_log(&files), Some(2));
    assert_eq!(newest_log(&vec![LogCandidate { name: "x".into(), modified_nanos: 1 }]), None);
    assert_eq!(tail_start(10, 4), 6);
    assert_eq!(tail_start(3, 4), 0);
    assert_eq!(recent_text(&b"hello world".to_vec(), 5), "world");
    assert_eq!(recent_text(&vec![0x61, 0xff, 0x62], 10), "a\u{fffd}b");
}

#[test]
fn elevation_answers() {
    assert_eq!(relaunch_as_admin(), Err("elevated relaunch is only implemented on Windows".to_string()));
    assert_eq!(shell_execute_outcome(42), Ok(true));
    assert_eq!(shell_execute_outcome(5), Ok(false));
    assert_eq!(shell_execute_outcome(2), Err("ShellExecuteW returned 2".to_string()));
    assert_eq!(shell_execute_outcome(-1), Err("ShellExecuteW returned -1".to_string()));
}

#[test]
fn window_behaviour() {
    assert_eq!(close_action(true, true, true), CloseAction::HideToTray);
    assert_eq!(close_action(true, false, true), CloseAction::AskToExit);
    assert_eq!(close_action(true, false, false), CloseAction::Proceed);
    assert_eq!(close_action(false, true, true), CloseAction::Proceed);
    assert!(start_hidden(&vec!["app".to_string(), "--minimized".to_string()]));
    assert!(!start_hidden(&vec!["app".to_string()]));
}

#[test]
fn tray_menu_commands() {
    assert_eq!(menu_command("show"), MenuCommand::ShowWindow);
    assert_eq!(menu_command("detect"), MenuCommand::DetectNow);
    assert_eq!(menu_command("pause_resume"), MenuCommand::PauseResume);
    assert_eq!(menu_command("quit"), MenuCommand::Quit);
    assert_eq!(menu_command("sep"), MenuCommand::Unknown);
}

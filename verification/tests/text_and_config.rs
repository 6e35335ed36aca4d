use ip_killswitch::config::{
    AppConfig, DetectStrategy, DetectionSchedule, KillMode, ProcessTarget, Provider,
};
use ip_killswitch::text::{
    contains_ignore_ascii_case, decimal_string, eq_ignore_ascii_case, hex_string, is_blank_str,
    join_strings, signed_decimal_string, str_less, take_chars, trim_str,
};

#[test]
fn trim_matches_std() {
    for s in ["  a b  ", "\t\n x\u{3000}", "", "   ", "\u{85}y\u{a0}", "z"] {
        assert_eq!(trim_str(s), s.trim());
    }
}

#[test]
fn blank_detection() {
    assert!(is_blank_str(" \t\n"));
    assert!(is_blank_str(""));
    assert!(!is_blank_str(" a "));
}

#[test]
fn decimal_and_hex() {
    assert_eq!(decimal_string(0), "0");
    assert_eq!(decimal_string(502), "502");
    assert_eq!(decimal_string(u64::MAX), u64::MAX.to_string());
    assert_eq!(signed_decimal_string(-2), "-2");
    assert_eq!(signed_decimal_string(i64::MIN), i64::MIN.to_string());
    assert_eq!(hex_string(0xdead_beef, 16), format!("{:016x}", 0xdead_beefu64));
    assert_eq!(hex_string(u64::MAX, 16), "ffffffffffffffff");
}

#[test]
fn case_insensitive_helpers() {
    assert!(eq_ignore_ascii_case("Chrome.EXE", "chrome.exe"));
    assert!(!eq_ignore_ascii_case("chrome", "chrom"));
    assert!(contains_ignore_ascii_case("Google Chrome Helper", "chrome"));
    assert!(!contains_ignore_ascii_case("firefox", "chrome"));
    assert!(contains_ignore_ascii_case("abc", ""));
}

#[test]
fn order_is_string_order() {
    let words = ["", "a", "ab", "b", "10.0.0.1", "9.9.9.9", "é", "z"];
    for a in words {
        for b in words {
            assert_eq!(str_less(a, b), a < b, "{a:?} < {b:?}");
        }
    }
}

#[test]
fn take_and_join() {
    assert_eq!(take_chars("héllo", 2), "hé");
    assert_eq!(take_chars("hi", 10), "hi");
    let v: Vec<String> = vec!["a".into(), "b".into(), "c".into()];
    assert_eq!(join_strings(&v, ", "), "a, b, c");
    assert_eq!(join_strings(&Vec::new(), ", "), "");
}

#[test]
fn default_config_values() {
    let cfg = AppConfig::default();
    let names: Vec<&str> = cfg.providers.iter().map(|p| p.name.as_str()).collect();
    assert_eq!(names, vec!["ipify", "icanhazip", "ifconfig.me"]);
    assert_eq!(cfg.providers[0].url, "https://api.ipify.org");
    assert_eq!(cfg.providers[1].url, "https://ipv4.icanhazip.com");
    assert_eq!(cfg.providers[2].url, "https://ifconfig.me/ip");
    for p in &cfg.providers {
        assert!(p.enabled);
        assert!(p.extract_regex.is_none());
        assert_eq!(p.id.len(), 36);
        assert_eq!(p.id.chars().nth(14), Some('4'));
    }
    assert_ne!(cfg.providers[0].id, cfg.providers[1].id);
    assert!(cfg.allowed_ips.is_empty());
    assert!(cfg.processes.is_empty());
    assert_eq!(cfg.strategy, DetectStrategy::Any);
    assert_eq!(cfg.kill_mode, KillMode::Confirm);
    assert_eq!(cfg.retry, 3);
    assert_eq!(cfg.request_timeout_ms, 8000);
    assert!(matches!(cfg.schedule, DetectionSchedule::Disabled));
    assert!(!cfg.autostart);
    assert!(cfg.minimize_to_tray);
    assert!(cfg.close_to_tray);
    assert!(cfg.confirm_exit);
    assert_eq!(cfg.log_level, "info");
}

#[test]
fn field_defaults() {
    assert!(Provider::default_enabled());
    assert!(ProcessTarget::default_enabled());
    assert_eq!(AppConfig::default_retry(), 3);
    assert_eq!(AppConfig::default_timeout_ms(), 8000);
    assert!(!AppConfig::default_autostart());
    assert!(AppConfig::default_minimize_to_tray());
    assert!(AppConfig::default_close_to_tray());
    assert!(AppConfig::default_confirm_exit());
    assert_eq!(AppConfig::default_log_level(), "info");
    assert_eq!(DetectStrategy::default(), DetectStrategy::Any);
    assert_eq!(KillMode::default(), KillMode::Confirm);
    assert!(matches!(DetectionSchedule::default(), DetectionSchedule::Disabled));
}

#[test]
fn config_file_path() {
    let dir = std::path::PathBuf::from("/tmp/app-config");
    let path = ip_killswitch::config::config_path(&dir);
    assert_eq!(path, std::path::PathBuf::from("/tmp/app-config/config.json"));
    assert_ne!(path, dir);
}

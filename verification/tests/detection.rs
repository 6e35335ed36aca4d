use ip_killswitch::config::{AppConfig, DetectStrategy, Provider};
use ip_killswitch::detector::{
    client_timeouts, detection_plan, extract_ip, finish_detection, matched_ip, pick_capture,
    pick_ip, report_without_client, select_providers, normalize_allowed, collect_detected,
    DetectionPlan, FetchAction, FetchEvent, FetchState, ProviderResult, UtcTime, IPV4_PATTERN,
    IPV6_PATTERN,
};

fn provider(id: &str, url: &str, enabled: bool, regex: Option<&str>) -> Provider {
    Provider {
        id: id.to_string(),
        name: format!("name-{id}"),
        url: url.to_string(),
        enabled,
        extract_regex: regex.map(|r| r.to_string()),
    }
}

fn result(id: &str, ip: Option<&str>) -> ProviderResult {
    ProviderResult {
        provider_id: id.to_string(),
        provider_name: id.to_string(),
        url: format!("https://{id}"),
        ok: ip.is_some(),
        ip: ip.map(|s| s.to_string()),
        raw_excerpt: None,
        status: Some(200),
        attempts: 1,
        elapsed_ms: 5,
        error: None,
    }
}

fn t(secs: i64) -> UtcTime {
    UtcTime { secs, nanos: 0 }
}

fn strings(v: &[&str]) -> Vec<String> {
    v.iter().map(|s| s.to_string()).collect()
}

#[test]
fn extract_plain_ipv4() {
    assert_eq!(extract_ip("203.0.113.7", None), Some("203.0.113.7".to_string()));
}

#[test]
fn extract_ipv4_from_html() {
    let body = "<html><body>Your IP is <b>198.51.100.23</b></body></html>";
    assert_eq!(extract_ip(body, None), Some("198.51.100.23".to_string()));
}

#[test]
fn extract_rejects_out_of_range_octets() {
    // 256 is not an octet; the strict matcher finds no address at all.
    assert_eq!(extract_ip("999.256.1.1", None), None);
}

#[test]
fn extract_ipv6_when_no_ipv4() {
    let body = "2001:db8:85a3::8a2e:370:7334";
    let got = extract_ip(body, None).unwrap();
    assert!(body.contains(&got));
    assert!(got.contains(':'));
}

#[test]
fn extract_custom_group_one() {
    let body = "{\"ip\":\"192.0.2.44\",\"other\":\"10.0.0.1\"}";
    assert_eq!(
        extract_ip(body, Some(r#""ip":"([^"]+)""#)),
        Some("192.0.2.44".to_string())
    );
}

#[test]
fn extract_custom_without_group_uses_whole_match() {
    assert_eq!(extract_ip("addr=abc end", Some(r"abc")), Some("abc".to_string()));
}

#[test]
fn extract_blank_custom_falls_back() {
    assert_eq!(extract_ip("x 10.1.2.3 y", Some("   ")), Some("10.1.2.3".to_string()));
}

#[test]
fn extract_invalid_custom_falls_back() {
    assert_eq!(extract_ip("x 10.1.2.3 y", Some("(")), Some("10.1.2.3".to_string()));
}

#[test]
fn extract_nothing() {
    assert_eq!(extract_ip("no address here", None), None);
}

#[test]
fn builtin_patterns_are_the_documented_ones() {
    assert!(IPV4_PATTERN.starts_with(r"\b((?:25[0-5]"));
    assert!(IPV6_PATTERN.contains("{2,7}"));
}

#[test]
fn pick_capture_trims_and_prefers_group_one() {
    assert_eq!(
        pick_capture(Some("  1.2.3.4 ".to_string()), Some("ip= 1.2.3.4 ".to_string())),
        Some("1.2.3.4".to_string())
    );
    assert_eq!(pick_capture(None, Some(" x ".to_string())), Some("x".to_string()));
    assert_eq!(pick_capture(Some("   ".to_string()), Some("whole".to_string())), None);
    assert_eq!(pick_capture(None, None), None);
}

#[test]
fn pick_ip_order() {
    let v4 = Some("1.1.1.1".to_string());
    let v6 = Some("::1:2:3".to_string());
    assert_eq!(pick_ip(None, v4.clone(), v6.clone()), v4);
    assert_eq!(pick_ip(None, None, v6.clone()), v6);
    assert_eq!(
        pick_ip(Some((Some("9.9.9.9".to_string()), None)), v4.clone(), v6.clone()),
        Some("9.9.9.9".to_string())
    );
    assert_eq!(pick_ip(Some((Some(" ".to_string()), Some("zz".to_string()))), v4.clone(), None), v4);
}

#[test]
fn timeouts_are_capped() {
    assert_eq!(client_timeouts(8_000), (8_000, 8_000));
    assert_eq!(client_timeouts(20_000), (15_000, 20_000));
    assert_eq!(client_timeouts(60_000), (15_000, 30_000));
}

#[test]
fn providers_filtered() {
    let list = vec![
        provider("a", "https://a", true, None),
        provider("b", "   ", true, None),
        provider("c", "https://c", false, None),
        provider("d", "https://d", true, None),
    ];
    let got: Vec<String> = select_providers(&list).into_iter().map(|p| p.id).collect();
    assert_eq!(got, strings(&["a", "d"]));
}

#[test]
fn allowed_normalized() {
    let got = normalize_allowed(&strings(&[" 1.2.3.4 ", "", "   ", "5.6.7.8"]));
    assert_eq!(got, strings(&["1.2.3.4", "5.6.7.8"]));
}

#[test]
fn plan_uses_overrides_and_config() {
    let mut cfg = AppConfig::default();
    cfg.retry = 0;
    cfg.allowed_ips = strings(&["1.1.1.1"]);
    let plan = detection_plan(&cfg, None, None);
    assert_eq!(plan.providers.len(), 3);
    assert_eq!(plan.allowed, strings(&["1.1.1.1"]));
    assert_eq!(plan.retry, 1);
    let plan2 = detection_plan(
        &cfg,
        Some(vec![provider("x", "https://x", true, None)]),
        Some(strings(&[" 2.2.2.2"])),
    );
    assert_eq!(plan2.providers.len(), 1);
    assert_eq!(plan2.allowed, strings(&["2.2.2.2"]));
    assert_eq!(plan2.strategy, DetectStrategy::Any);
}

#[test]
fn detected_sorted_and_unique() {
    let results = vec![
        result("a", Some("9.9.9.9")),
        result("b", None),
        result("c", Some("1.1.1.1")),
        result("d", Some("9.9.9.9")),
        result("e", Some("10.0.0.1")),
    ];
    assert_eq!(collect_detected(&results), strings(&["1.1.1.1", "10.0.0.1", "9.9.9.9"]));
}

fn probed_for(results: &[ProviderResult]) -> Vec<Provider> {
    results
        .iter()
        .map(|r| provider(&r.provider_id, &format!("https://{}", r.provider_id), true, None))
        .collect()
}

#[test]
fn any_strategy_first_allowed_in_sorted_order() {
    let results = vec![result("a", Some("9.9.9.9")), result("b", Some("1.1.1.1"))];
    let detected = collect_detected(&results);
    let allowed = strings(&["9.9.9.9", "1.1.1.1"]);
    assert_eq!(
        matched_ip(DetectStrategy::Any, &allowed, &detected, &results, &probed_for(&results)),
        Some("1.1.1.1".to_string())
    );
}

#[test]
fn any_strategy_no_match() {
    let results = vec![result("a", Some("9.9.9.9"))];
    let detected = collect_detected(&results);
    assert_eq!(
        matched_ip(
            DetectStrategy::Any,
            &strings(&["1.1.1.1"]),
            &detected,
            &results,
            &probed_for(&results)
        ),
        None
    );
}

#[test]
fn all_strategy_requires_agreement() {
    let agree = vec![result("a", Some("1.1.1.1")), result("b", Some("1.1.1.1"))];
    let d = collect_detected(&agree);
    let allowed = strings(&["1.1.1.1"]);
    assert_eq!(
        matched_ip(DetectStrategy::All, &allowed, &d, &agree, &probed_for(&agree)),
        Some("1.1.1.1".to_string())
    );
    let disagree = vec![result("a", Some("1.1.1.1")), result("b", Some("2.2.2.2"))];
    let d2 = collect_detected(&disagree);
    assert_eq!(
        matched_ip(DetectStrategy::All, &allowed, &d2, &disagree, &probed_for(&disagree)),
        None
    );
    let one_failed = vec![result("a", Some("1.1.1.1")), result("b", None)];
    let d3 = collect_detected(&one_failed);
    assert_eq!(
        matched_ip(DetectStrategy::All, &allowed, &d3, &one_failed, &probed_for(&one_failed)),
        None
    );
    let none: Vec<ProviderResult> = vec![];
    assert_eq!(matched_ip(DetectStrategy::All, &allowed, &Vec::new(), &none, &Vec::new()), None);
}

#[test]
fn all_strategy_requires_every_probed_provider() {
    let answered = vec![result("a", Some("1.1.1.1"))];
    let d = collect_detected(&answered);
    let allowed = strings(&["1.1.1.1"]);
    let probed = vec![
        provider("a", "https://a", true, None),
        provider("b", "https://b", true, None),
    ];
    // Provider "b" gave no result: the round does not match.
    assert_eq!(matched_ip(DetectStrategy::All, &allowed, &d, &answered, &probed), None);
    // A result that belongs to another provider does not count either.
    let other = vec![provider("z", "https://z", true, None)];
    assert_eq!(matched_ip(DetectStrategy::All, &allowed, &d, &answered, &other), None);
    // The "any" strategy does not ask for every provider.
    assert_eq!(
        matched_ip(DetectStrategy::Any, &allowed, &d, &answered, &probed),
        Some("1.1.1.1".to_string())
    );
    let plan = DetectionPlan {
        providers: probed,
        allowed: allowed.clone(),
        strategy: DetectStrategy::All,
        retry: 3,
    };
    let report = finish_detection(plan, answered, t(1), t(2));
    assert!(!report.matched);
    assert_eq!(report.matched_ip, None);
    assert_eq!(report.detected_ips, strings(&["1.1.1.1"]));
}

#[test]
fn empty_allow_list_never_matches() {
    let results = vec![result("a", Some("1.1.1.1"))];
    let d = collect_detected(&results);
    let probed = probed_for(&results);
    assert_eq!(matched_ip(DetectStrategy::Any, &Vec::new(), &d, &results, &probed), None);
    assert_eq!(matched_ip(DetectStrategy::All, &Vec::new(), &d, &results, &probed), None);
}

#[test]
fn finish_builds_report() {
    let plan = DetectionPlan {
        providers: vec![provider("a", "https://a", true, None)],
        allowed: strings(&["1.1.1.1"]),
        strategy: DetectStrategy::Any,
        retry: 3,
    };
    let report = finish_detection(plan, vec![result("a", Some("1.1.1.1"))], t(10), t(11));
    assert!(report.matched);
    assert_eq!(report.matched_ip, Some("1.1.1.1".to_string()));
    assert_eq!(report.detected_ips, strings(&["1.1.1.1"]));
    assert_eq!(report.started_at, t(10));
    assert_eq!(report.finished_at, t(11));
    assert_eq!(report.providers.len(), 1);
}

#[test]
fn finish_all_strategy_with_every_provider() {
    let plan = DetectionPlan {
        providers: vec![
            provider("a", "https://a", true, None),
            provider("b", "https://b", true, None),
        ],
        allowed: strings(&["1.1.1.1"]),
        strategy: DetectStrategy::All,
        retry: 3,
    };
    let results = vec![result("a", Some("1.1.1.1")), result("b", Some("1.1.1.1"))];
    let report = finish_detection(plan, results, t(10), t(11));
    assert!(report.matched);
    assert_eq!(report.matched_ip, Some("1.1.1.1".to_string()));
}

#[test]
fn report_without_client_is_empty() {
    let plan = DetectionPlan {
        providers: vec![provider("a", "https://a", true, None)],
        allowed: strings(&["1.1.1.1"]),
        strategy: DetectStrategy::All,
        retry: 3,
    };
    let report = report_without_client(plan, t(1), t(2));
    assert!(!report.matched);
    assert!(report.providers.is_empty());
    assert!(report.detected_ips.is_empty());
    assert_eq!(report.allowed_ips, strings(&["1.1.1.1"]));
    assert_eq!(report.strategy, DetectStrategy::All);
}

#[test]
fn fetch_success_first_try() {
    let (mut st, first) = FetchState::start(provider("p", "https://p", true, None), 3);
    assert!(matches!(first, FetchAction::Send));
    let a = st.step(FetchEvent::Responded { status: 200, elapsed_ms: 3 });
    assert!(matches!(a, FetchAction::ReadBody));
    let a = st.step(FetchEvent::BodyRead { body: "  203.0.113.9\n".to_string(), elapsed_ms: 7 });
    match a {
        FetchAction::Finish(r) => {
            assert!(r.ok);
            assert_eq!(r.ip, Some("203.0.113.9".to_string()));
            assert_eq!(r.raw_excerpt, Some("203.0.113.9".to_string()));
            assert_eq!(r.status, Some(200));
            assert_eq!(r.attempts, 1);
            assert_eq!(r.elapsed_ms, 7);
            assert_eq!(r.error, None);
            assert_eq!(r.provider_id, "p");
        }
        _ => panic!("expected a result"),
    }
}

#[test]
fn fetch_retries_with_backoff_then_gives_up() {
    let (mut st, _) = FetchState::start(provider("p", "https://p", true, None), 3);
    let a = st.step(FetchEvent::SendFailed { error: "timeout".to_string(), elapsed_ms: 1 });
    assert!(matches!(a, FetchAction::SleepThenSend { ms: 200 }));
    let a = st.step(FetchEvent::Responded { status: 503, elapsed_ms: 2 });
    assert!(matches!(a, FetchAction::SleepThenSend { ms: 400 }));
    let a = st.step(FetchEvent::Responded { status: 502, elapsed_ms: 3 });
    match a {
        FetchAction::Finish(r) => {
            assert!(!r.ok);
            assert_eq!(r.ip, None);
            assert_eq!(r.attempts, 3);
            assert_eq!(r.status, Some(502));
            assert_eq!(r.error, Some("HTTP 502".to_string()));
            assert_eq!(r.raw_excerpt, None);
        }
        _ => panic!("expected a result"),
    }
    // Once finished, the same result comes back.
    match st.step(FetchEvent::Responded { status: 200, elapsed_ms: 9 }) {
        FetchAction::Finish(r) => assert_eq!(r.attempts, 3),
        _ => panic!("expected the stored result"),
    }
}

#[test]
fn fetch_zero_retry_means_one_attempt() {
    let (mut st, _) = FetchState::start(provider("p", "https://p", true, None), 0);
    match st.step(FetchEvent::BodyFailed { error: "eof".to_string(), elapsed_ms: 4 }) {
        FetchAction::Finish(r) => {
            assert_eq!(r.attempts, 1);
            assert_eq!(r.error, Some("read body: eof".to_string()));
            assert_eq!(r.status, None);
        }
        _ => panic!("expected a result"),
    }
}

#[test]
fn fetch_request_error_text() {
    let (mut st, _) = FetchState::start(provider("p", "https://p", true, None), 1);
    match st.step(FetchEvent::SendFailed { error: "dns".to_string(), elapsed_ms: 4 }) {
        FetchAction::Finish(r) => assert_eq!(r.error, Some("request: dns".to_string())),
        _ => panic!("expected a result"),
    }
}

#[test]
fn backoff_schedule() {
    let got: Vec<u64> = (1..=7).map(FetchState::backoff).collect();
    assert_eq!(got, vec![200, 400, 800, 1600, 3200, 3200, 3200]);
}

#[test]
fn answer_without_ip_is_not_ok_and_excerpt_is_cut() {
    let (mut st, _) = FetchState::start(provider("p", "https://p", true, None), 2);
    let _ = st.step(FetchEvent::Responded { status: 204, elapsed_ms: 1 });
    let body = "x".repeat(300);
    match st.step(FetchEvent::BodyRead { body, elapsed_ms: 2 }) {
        FetchAction::Finish(r) => {
            assert!(!r.ok);
            assert_eq!(r.ip, None);
            assert_eq!(r.raw_excerpt.unwrap().chars().count(), 240);
        }
        _ => panic!("expected a result"),
    }
}

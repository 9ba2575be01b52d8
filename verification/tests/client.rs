//! Taking pangolin's answers, and the poll loop.

use pangolin_gateway_controller::config::Config;
use pangolin_gateway_controller::digest::{body_digest, digest_text};
use pangolin_gateway_controller::duration::{is_readable, parse_duration, Duration};
use pangolin_gateway_controller::health::{healthz, readyz, Readiness};
use pangolin_gateway_controller::pangolin::client::{
    accept_body, changed, judge_head, refuse, request_headers, truncate, FetchOutcome,
    HeadDecision,
};
use pangolin_gateway_controller::pangolin::types::{HttpConfig, TraefikDynamicConfig};
use pangolin_gateway_controller::reconcile::{next_backoff, FetchEvent, LoopAction, LoopState};
use pangolin_gateway_controller::strmap::StrMap;

const EMPTY_CONFIG_JSON: &[u8] = br#"{"http":{"routers":{},"services":{}}}"#;

fn empty_config() -> TraefikDynamicConfig {
    TraefikDynamicConfig {
        http: HttpConfig {
            routers: StrMap::new(),
            services: StrMap::new(),
            middlewares: StrMap::new(),
            servers_transports: StrMap::new(),
        },
        tcp: None,
        udp: None,
    }
}

#[test]
fn fetch_200_returns_changed_with_etag_and_digest() {
    let headers = request_headers(&Some("Bearer test-token".into()), &None);
    let find = |name: &str| headers.iter().find(|(n, _)| n == name).map(|(_, v)| v.as_str());
    assert_eq!(find("authorization"), Some("Bearer test-token"));
    assert_eq!(find("accept"), Some("application/json"));
    assert!(
        find("if-none-match").is_none(),
        "first call should not send If-None-Match"
    );

    assert_eq!(
        judge_head(200, Some(EMPTY_CONFIG_JSON.len() as u64), 1 << 16),
        HeadDecision::Read
    );
    let raw = EMPTY_CONFIG_JSON.to_vec();
    let digest = accept_body(&raw, 1 << 16).unwrap_or_else(|e| panic!("{}", e.message()));
    match changed(empty_config(), Some("\"abc123\"".into()), digest, raw.len()) {
        FetchOutcome::Changed(c) => {
            assert_eq!(c.etag.as_deref(), Some("\"abc123\""));
            assert_eq!(c.raw_bytes, EMPTY_CONFIG_JSON.len());
            assert_eq!(c.digest.len(), 64);
            assert!(c.digest.chars().all(|ch| ch.is_ascii_hexdigit()));
        }
        FetchOutcome::NotModified => panic!("expected Changed, got NotModified"),
    }
}

#[test]
fn fetch_with_etag_sends_if_none_match_and_handles_304() {
    let headers = request_headers(&None, &Some("\"abc123\"".into()));
    assert_eq!(
        headers,
        vec![
            ("accept".to_string(), "application/json".to_string()),
            ("if-none-match".to_string(), "\"abc123\"".to_string()),
        ]
    );
    assert_eq!(judge_head(304, None, 10), HeadDecision::NotModified);
}

#[test]
fn fetch_5xx_is_an_error_with_truncated_body() {
    assert_eq!(judge_head(503, None, 1 << 16), HeadDecision::Refuse);
    let msg = refuse("503 Service Unavailable", &"x".repeat(4096)).message();
    assert!(msg.contains("503"), "error should mention status: {msg}");
    assert_eq!(
        msg,
        format!("pangolin returned 503 Service Unavailable: {}", "x".repeat(512))
    );
}

#[test]
fn fetch_rejects_oversize_body() {
    let msg = match accept_body(&vec![b'{'; 10_000], 1024) {
        Err(e) => e.message(),
        Ok(_) => panic!("expected oversize-body error"),
    };
    assert!(
        msg.contains("CONFIG_MAX_RESPONSE_BODY_BYTES"),
        "error should mention the size limit, got: {msg}"
    );
    assert_eq!(
        msg,
        "pangolin response is 10000 bytes, exceeds CONFIG_MAX_RESPONSE_BODY_BYTES=1024"
    );
    assert_eq!(judge_head(200, Some(1025), 1024), HeadDecision::TooLarge);
    assert_eq!(judge_head(200, Some(1024), 1024), HeadDecision::Read);
    assert_eq!(judge_head(200, None, 1024), HeadDecision::Read);
    assert_eq!(judge_head(301, None, 1024), HeadDecision::Refuse);
    assert_eq!(judge_head(199, None, 1024), HeadDecision::Refuse);
}

#[test]
fn texts_are_cut_between_characters() {
    assert_eq!(truncate("abc", 3), "abc");
    assert_eq!(truncate("abcd", 3), "abc");
    assert_eq!(truncate("aüü", 2), "a");
    assert_eq!(truncate("aüü", 3), "aü");
    assert_eq!(truncate("€", 2), "");
    assert_eq!(truncate("", 0), "");
}

#[test]
fn digests_are_sha256_in_hexadecimal() {
    assert_eq!(
        body_digest(&b"abc".to_vec()),
        "ba7816bf8f01cfea414140de5dae2223b00361a396177a9cb410ff61f20015ad"
    );
    assert_eq!(digest_text(&vec![0, 1, 0xab, 0xff]), "0001abff");
}

#[test]
fn durations_are_read() {
    assert_eq!(parse_duration("15s"), Some(Duration::from_secs(15)));
    assert_eq!(
        parse_duration("1h 30m 250ms"),
        Some(Duration { secs: 5400, nanos: 250_000_000 })
    );
    assert_eq!(parse_duration("15"), None);
    assert_eq!(parse_duration(""), None);
}

#[test]
fn durations_can_be_read_unless_they_are_sums_beyond_the_largest() {
    for text in [
        "15s",
        "123456789012345s",
        "18446744073709551615 s",
        "18446744073709551615.5s",
        "1000000000000000ns 10s",
        "1000000000000000 days 1h",
        "99999999999999999999 years 5 mins 1 month",
        "584542046090y 500ms",
        "",
    ] {
        assert!(is_readable(text), "{text}");
        parse_duration(text);
    }
    assert_eq!(
        parse_duration("18446744073709551615 s"),
        Some(Duration { secs: u64::MAX, nanos: 0 })
    );
    assert_eq!(
        parse_duration("1000000000000000ns 10s"),
        Some(Duration { secs: 1_000_010, nanos: 0 })
    );
    assert_eq!(parse_duration("99999999999999999999 years 5 mins 1 month"), None);
    for text in [
        "18446744073709551615s 1s",
        "18446744073709551615s 2000ms",
        "18446744073709551614s 1000ms",
        "18446744073709551615s 999ms",
        "99999999999999999999s 1000ms",
        "10s 18446744073709551615ns",
        "10s 18446744073709551615ms",
        "1.5h 1.25m 0.5s 250ms",
    ] {
        assert!(is_readable(text), "{text}");
        parse_duration(text);
    }
    assert_eq!(
        parse_duration("18446744073709551614s 1000ms"),
        Some(Duration { secs: u64::MAX, nanos: 0 })
    );
    assert_eq!(
        parse_duration("10s 18446744073709551615ns"),
        Some(Duration { secs: 18_446_744_083, nanos: 709_551_615 })
    );
    for text in [
        "18446744073709551615s 1000ms",
        "18446744073709551615s 1000 millis",
        "18446744073709551615.5s 0.5s",
        "18446744073709551615s 1000000us",
        "18446744073709551615s 999ms 1000us",
        "584542046090y 19767615s 1000000000ns",
    ] {
        assert!(!is_readable(text), "{text}");
    }
}

#[test]
fn waits_stay_within_a_bound_below_one_second() {
    let mut cfg = config();
    cfg.max_backoff = Duration { secs: 0, nanos: 300_000_000 };
    let bound = cfg.max_backoff;
    let mut state = LoopState::new();
    assert_eq!(waits(state.on_fetch(&cfg, FetchEvent::Failed)), bound);
    assert_eq!(waits(state.on_fetch(&cfg, FetchEvent::Failed)), bound);
    let new = FetchEvent::Changed { etag: None, digest: "a".into() };
    assert!(matches!(state.on_fetch(&cfg, new), LoopAction::Reconcile { .. }));
    assert_eq!(state.on_reconciled(&cfg, None, "a".into(), false), bound);
}

#[test]
fn readiness_defaults_to_not_ready() {
    assert!(!Readiness::default().is_ready());
}

fn config() -> Config {
    let mut env: StrMap<String> = StrMap::new();
    env.insert("CONFIG_ENDPOINT".into(), "https://p/".into());
    env.insert("CONFIG_PARENT_GATEWAY".into(), "eg".into());
    env.insert("CONFIG_MAX_BACKOFF".into(), "5s".into());
    env.insert("CONFIG_POLL_INTERVAL".into(), "30s".into());
    Config::from_env(&env).unwrap_or_else(|e| panic!("{}", e.message()))
}

fn waits(action: LoopAction) -> Duration {
    match action {
        LoopAction::Wait(d) => d,
        LoopAction::Reconcile { .. } => panic!("expected a wait"),
    }
}

fn body(digest: &str, etag: Option<&str>) -> FetchEvent {
    FetchEvent::Changed {
        etag: etag.map(str::to_owned),
        digest: digest.into(),
    }
}

#[test]
fn failures_back_off_up_to_the_bound() {
    let cfg = config();
    let mut state = LoopState::new();
    let mut delays = vec![];
    for _ in 0..5 {
        delays.push(waits(state.on_fetch(&cfg, FetchEvent::Failed)).secs);
    }
    assert_eq!(delays, vec![1, 2, 4, 5, 5]);
    assert!(!state.readiness.is_ready());
    // A successful fetch resets the delay.
    assert_eq!(waits(state.on_fetch(&cfg, FetchEvent::NotModified)), cfg.poll_interval);
    assert_eq!(state.backoff, Duration::from_secs(1));
    assert!(state.readiness.is_ready());
}

#[test]
fn bodies_are_reconciled_once() {
    let cfg = config();
    let mut state = LoopState::new();
    let LoopAction::Reconcile { etag, digest } = state.on_fetch(&cfg, body("d1", Some("e1")))
    else {
        panic!("expected a reconciliation")
    };
    assert_eq!(digest, "d1");
    // A failed reconciliation is not remembered.
    assert_eq!(
        state.on_reconciled(&cfg, etag, digest, false),
        Duration::from_secs(1)
    );
    assert_eq!(state.last_digest, None);
    assert_eq!(state.last_etag, None);
    assert_eq!(state.backoff, Duration::from_secs(2));
    assert!(!state.readiness.is_ready());
    let LoopAction::Reconcile { etag, digest } = state.on_fetch(&cfg, body("d1", Some("e1")))
    else {
        panic!("expected a second try")
    };
    assert_eq!(state.on_reconciled(&cfg, etag, digest, true), cfg.poll_interval);
    assert_eq!(state.last_digest.as_deref(), Some("d1"));
    assert_eq!(state.last_etag.as_deref(), Some("e1"));
    assert!(state.readiness.is_ready());
    // The same body only waits, and an absent tag keeps the last one.
    assert_eq!(waits(state.on_fetch(&cfg, body("d1", None))), cfg.poll_interval);
    assert_eq!(state.last_etag.as_deref(), Some("e1"));
    assert!(matches!(
        state.on_fetch(&cfg, body("d2", None)),
        LoopAction::Reconcile { .. }
    ));
    // Readiness is sticky.
    state.on_fetch(&cfg, FetchEvent::Failed);
    assert!(state.readiness.is_ready());
}

#[test]
fn delays_are_doubled_exactly() {
    let d = |secs: u64, nanos: u32| Duration { secs, nanos };
    assert_eq!(next_backoff(d(1, 600_000_000), d(100, 0)), d(3, 200_000_000));
    assert_eq!(next_backoff(d(60, 0), d(100, 5)), d(100, 5));
    assert_eq!(next_backoff(d(u64::MAX, 0), d(u64::MAX, 1)), d(u64::MAX, 1));
    assert_eq!(next_backoff(d(0, 0), d(0, 0)), d(0, 0));
}

#[test]
fn healthz_is_open() {
    assert_eq!(healthz().0, 200);
    assert_eq!(healthz().1, "ok");
}

#[test]
fn readiness_follows_the_first_cycle() {
    let mut ready = Readiness::new();
    assert_eq!(readyz(&ready), (503, "waiting for first successful reconcile"));
    ready.set_ready();
    assert_eq!(readyz(&ready), (200, "ready"));
}

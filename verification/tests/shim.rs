//! The ext-authz shim.

use pangolin_gateway_controller::config::env::ErrorKind;
use pangolin_gateway_controller::duration::Duration;
use pangolin_gateway_controller::json::Json;
use pangolin_gateway_controller::shim::{
    after_exchange, after_verify, begin_check, can_read_timeout, canonical_header, collect_headers,
    collect_sessions, endpoint, exchange_outcome, first_per_name, parse_query, strip_path_prefix,
    strip_query_param, verify_outcome, without_param, CheckContext, CheckNext, CheckRequest,
    CheckStart, ExchangeBody, ExchangeData, HeaderField, Reply, ShimConfig, UserData, VerifyBody,
    VerifyData,
};
use pangolin_gateway_controller::strmap::StrMap;

#[test]
fn prefix_stripping() {
    assert_eq!(
        strip_path_prefix("/verify", "/verify/app?x=1").as_deref(),
        Some("/app?x=1")
    );
    assert_eq!(
        strip_path_prefix("/verify", "/verify").as_deref(),
        Some("/")
    );
    assert_eq!(
        strip_path_prefix("/verify", "/verify?x=1").as_deref(),
        Some("/?x=1")
    );
    assert_eq!(strip_path_prefix("/verify", "/verifyx/app"), None);
    assert_eq!(strip_path_prefix("", "/app").as_deref(), Some("/app"));
}

#[test]
fn prefix_stripping_edge_cases() {
    assert_eq!(strip_path_prefix("/", "/app").as_deref(), Some("/app"));
    assert_eq!(
        strip_path_prefix("/verify//", "/verify/app").as_deref(),
        Some("/app")
    );
    assert_eq!(strip_path_prefix("/verify", "/other"), None);
    assert_eq!(strip_path_prefix("/verify", "verify/x"), None);
}

#[test]
fn session_cookie_prefix_filter() {
    let sessions = collect_sessions(
        "p_session_token=abc; p_session_token_42=def; other=zzz",
        "p_session_token",
    );
    assert_eq!(sessions.len(), 2);
    assert_eq!(sessions.get("p_session_token").unwrap(), "abc");
    assert_eq!(sessions.get("p_session_token_42").unwrap(), "def");
}

#[test]
fn session_cookies_are_trimmed_and_the_last_counts() {
    let sessions = collect_sessions("s=1; s = 2=3 ;=4;s;x=5", "s");
    assert_eq!(sessions.len(), 1);
    assert_eq!(sessions.get("s").unwrap(), "2=3");
    assert!(collect_sessions("=4", "").is_empty());
}

#[test]
fn query_param_stripping() {
    assert_eq!(
        strip_query_param("/app?p_session_request=tok&keep=1", "p_session_request"),
        "/app?keep=1"
    );
    assert_eq!(
        strip_query_param("/app?p_session_request=tok", "p_session_request"),
        "/app"
    );
    assert_eq!(strip_query_param("/app", "p_session_request"), "/app");
}

#[test]
fn query_pairs_survive_the_stripping() {
    let stripped = strip_query_param("/a?x=%26+b&t=1&y=%C3%BC&t=2&=", "t");
    assert_eq!(stripped, "/a?x=%26+b&y=%C3%BC&=");
    let left = parse_query(stripped.split_once('?').unwrap().1);
    assert_eq!(left.get("x").unwrap(), "& b");
    assert_eq!(left.get("y").unwrap(), "ü");
    assert_eq!(left.get("").unwrap(), "");
    assert!(!left.contains_key("t"));
}

#[test]
fn the_first_value_of_a_name_counts() {
    let q = parse_query("a=1&b=%20x&a=2&&c");
    assert_eq!(q.len(), 3);
    assert_eq!(q.get("a").unwrap(), "1");
    assert_eq!(q.get("b").unwrap(), " x");
    assert_eq!(q.get("c").unwrap(), "");
    let pairs = vec![
        ("k".to_string(), "1".to_string()),
        ("k".to_string(), "2".to_string()),
        ("l".to_string(), "3".to_string()),
    ];
    assert_eq!(first_per_name(&pairs).get("k").unwrap(), "1");
    assert_eq!(
        without_param(&pairs, "k"),
        vec![("l".to_string(), "3".to_string())]
    );
}

#[test]
fn canonical_header_casing() {
    assert_eq!(canonical_header("x-forwarded-proto"), "X-Forwarded-Proto");
    assert_eq!(canonical_header("authorization"), "Authorization");
    assert_eq!(canonical_header("HOST"), "Host");
}

#[test]
fn canonical_casing_is_stable() {
    for name in ["x-REAL-ip", "--a", "été-x", ""] {
        let once = canonical_header(name);
        assert_eq!(canonical_header(&once), once);
    }
    assert_eq!(canonical_header("a--bC"), "A--Bc");
}

fn texts(pairs: &[(&str, &str)]) -> StrMap<String> {
    let mut m: StrMap<String> = StrMap::new();
    for (k, v) in pairs {
        m.insert((*k).into(), (*v).into());
    }
    m
}

#[test]
fn verify_body_serializes_with_pangolin_field_names() {
    let body = VerifyBody {
        sessions: texts(&[("p_session_token", "abc")]),
        headers: StrMap::new(),
        query: StrMap::new(),
        original_request_url: "https://app.example.com/x".into(),
        scheme: "https".into(),
        host: "app.example.com".into(),
        path: "/x".into(),
        method: "GET".into(),
        tls: true,
        request_ip: None,
    };
    let json = body.to_json();
    assert!(json.get("originalRequestURL").is_some());
    assert!(json.get("sessions").is_some());
    assert!(json.get("tls").is_some());
    // requestIp omitted when None.
    assert!(json.get("requestIp").is_none());
    assert_eq!(
        json.get("sessions").unwrap().get_str("p_session_token"),
        Some("abc")
    );
    assert_eq!(json.get_str("path"), Some("/x"));
}

#[test]
fn exchange_body_serializes_with_pangolin_field_names() {
    let json = ExchangeBody {
        request_token: "t".into(),
        host: "h".into(),
        request_ip: Some("1.2.3.4".into()),
    }
    .to_json();
    assert_eq!(json.get_str("requestToken"), Some("t"));
    assert_eq!(json.get_str("host"), Some("h"));
    assert_eq!(json.get_str("requestIp"), Some("1.2.3.4"));
    assert_eq!(json.as_object().unwrap().len(), 3);
}

fn shim_config() -> ShimConfig {
    ShimConfig {
        listen: "127.0.0.1:0".into(),
        pangolin_api_base_url: "http://pangolin.local/api/v1".into(),
        path_prefix: "/verify".into(),
        user_session_cookie_name: "p_session_token".into(),
        resource_session_request_param: "p_session_request".into(),
        timeout: Duration::from_secs(5),
        ca_file: None,
        tls_skip_verify: false,
    }
}

fn request(path: &str, headers: &[(&str, &str)]) -> CheckRequest {
    CheckRequest {
        path_and_query: Some(path.into()),
        method: "GET".into(),
        headers: headers
            .iter()
            .map(|(n, v)| HeaderField {
                name: (*n).into(),
                value: Some((*v).into()),
            })
            .collect(),
    }
}

fn verify_of(start: CheckStart) -> VerifyBody {
    match start {
        CheckStart::Verify(body) => body,
        _ => panic!("expected a verification"),
    }
}

fn header<'a>(reply: &'a Reply, name: &str) -> Option<&'a str> {
    reply
        .headers
        .iter()
        .find(|(n, _)| n == name)
        .map(|(_, v)| v.as_str())
}

fn session(valid: bool) -> VerifyData {
    VerifyData {
        valid,
        redirect_url: None,
        header_auth_challenged: None,
        user_data: None,
    }
}

#[test]
fn valid_session_allows_with_identity_headers() {
    // Envoy check request: original path behind the /verify prefix, original
    // Host, cookies forwarded via headersToExtAuth.
    let body = verify_of(begin_check(
        &shim_config(),
        request(
            "/verify/dashboard?x=1",
            &[
                ("host", "app.example.com"),
                ("x-forwarded-proto", "https"),
                ("x-forwarded-for", "203.0.113.7"),
                ("cookie", "p_session_token=sess123; unrelated=1"),
            ],
        ),
    ));
    let json = body.to_json();
    assert_eq!(
        json.get_str("originalRequestURL"),
        Some("https://app.example.com/dashboard?x=1")
    );
    assert_eq!(json.get_str("host"), Some("app.example.com"));
    assert_eq!(json.get_str("path"), Some("/dashboard"));
    assert_eq!(json.get_str("method"), Some("GET"));
    assert_eq!(json.get_str("scheme"), Some("https"));
    assert!(matches!(json.get("tls"), Some(Json::Bool(true))));
    assert_eq!(json.get_str("requestIp"), Some("203.0.113.7"));
    let sessions = json.get("sessions").unwrap();
    assert_eq!(sessions.get_str("p_session_token"), Some("sess123"));
    assert!(
        sessions.get("unrelated").is_none(),
        "non-session cookies must not be forwarded"
    );
    assert_eq!(json.get("query").unwrap().get_str("x"), Some("1"));
    assert_eq!(json.get("headers").unwrap().get_str("Host"), Some("app.example.com"));
    assert!(json.get("headers").unwrap().get("Cookie").is_none());

    let reply = after_verify(Some(VerifyData {
        user_data: Some(UserData {
            user_id: Some("u1".into()),
            username: Some("alice".into()),
            email: Some("alice@example.com".into()),
            name: None,
            role: Some("bad\nrole".into()),
        }),
        ..session(true)
    }));
    assert_eq!(reply.status, 200);
    assert_eq!(header(&reply, "remote-user"), Some("alice"));
    assert_eq!(header(&reply, "remote-user-id"), Some("u1"));
    assert_eq!(header(&reply, "remote-email"), Some("alice@example.com"));
    assert_eq!(header(&reply, "remote-name"), None);
    assert_eq!(header(&reply, "remote-role"), None);
}

#[test]
fn missing_session_redirects_to_portal() {
    let url = "https://pangolin.example.com/auth/resource/1?redirect=https%3A%2F%2Fapp.example.com%2F";
    let reply = after_verify(Some(VerifyData {
        redirect_url: Some(url.into()),
        ..session(false)
    }));
    assert_eq!(reply.status, 302);
    assert!(header(&reply, "location")
        .unwrap()
        .starts_with("https://pangolin.example.com/auth/"));
}

#[test]
fn bad_redirects_are_denied_and_empty_ones_ignored() {
    let reply = after_verify(Some(VerifyData {
        redirect_url: Some("https://x\r\nset-cookie: a".into()),
        ..session(true)
    }));
    assert_eq!((reply.status, reply.body.as_str()), (503, "bad redirect"));
    let reply = after_verify(Some(VerifyData {
        redirect_url: Some(String::new()),
        ..session(true)
    }));
    assert_eq!(reply.status, 200);
}

#[test]
fn invalid_session_is_401() {
    let reply = after_verify(Some(session(false)));
    assert_eq!(reply.status, 401);
    assert_eq!(reply.body, "unauthorized");
}

#[test]
fn header_auth_challenge_sets_www_authenticate() {
    let reply = after_verify(Some(VerifyData {
        header_auth_challenged: Some(true),
        ..session(false)
    }));
    assert_eq!(reply.status, 401);
    assert!(header(&reply, "www-authenticate").unwrap().starts_with("Basic"));
}

fn exchange_start() -> (CheckContext, ExchangeBody) {
    match begin_check(
        &shim_config(),
        request(
            "/verify/welcome?p_session_request=tok42&keep=yes",
            &[("host", "app.example.com"), ("x-forwarded-proto", "https")],
        ),
    ) {
        CheckStart::Exchange(c, b) => (c, b),
        _ => panic!("exchange called"),
    }
}

#[test]
fn session_request_token_is_exchanged_for_cookie() {
    let (context, body) = exchange_start();
    let json = body.to_json();
    assert_eq!(json.get_str("requestToken"), Some("tok42"));
    assert_eq!(json.get_str("host"), Some("app.example.com"));

    let cookie = "p_session_token=newsess; Path=/; HttpOnly; Secure";
    let next = after_exchange(
        &shim_config(),
        context,
        Some(ExchangeData {
            valid: true,
            cookie: Some(cookie.into()),
        }),
    );
    // 302 back to the original URL with the handoff param stripped, carrying
    // the new session cookie. Envoy forwards both headers to the client.
    let CheckNext::Answer(reply) = next else {
        panic!("expected an answer")
    };
    assert_eq!(reply.status, 302);
    assert_eq!(
        header(&reply, "location"),
        Some("https://app.example.com/welcome?keep=yes")
    );
    assert!(header(&reply, "set-cookie")
        .unwrap()
        .starts_with("p_session_token=newsess"));
}

#[test]
fn rejected_tokens_fall_back_to_verification() {
    for data in [
        ExchangeData { valid: false, cookie: Some("c=1".into()) },
        ExchangeData { valid: true, cookie: None },
        ExchangeData { valid: true, cookie: Some(String::new()) },
    ] {
        let (context, _) = exchange_start();
        match after_exchange(&shim_config(), context, Some(data)) {
            CheckNext::Verify(body) => assert_eq!(body.path, "/welcome"),
            CheckNext::Answer(_) => panic!("expected a verification"),
        }
    }
}

#[test]
fn bad_exchange_cookies_are_denied() {
    let (context, _) = exchange_start();
    let data = ExchangeData {
        valid: true,
        cookie: Some("a\u{0}b".into()),
    };
    let CheckNext::Answer(reply) = after_exchange(&shim_config(), context, Some(data)) else {
        panic!("expected an answer")
    };
    assert_eq!((reply.status, reply.body.as_str()), (503, "bad exchange cookie"));
}

#[test]
fn pangolin_outage_fails_closed() {
    let reply = after_verify(None);
    assert_eq!(
        reply.status,
        503,
        "unreachable pangolin must deny, not allow"
    );
    assert_eq!(reply.body, "auth backend unavailable");
    let (context, _) = exchange_start();
    let CheckNext::Answer(reply) = after_exchange(&shim_config(), context, None) else {
        panic!("expected an answer")
    };
    assert_eq!(reply.status, 503);
}

#[test]
fn requests_without_host_are_refused() {
    let CheckStart::Answer(reply) = begin_check(&shim_config(), request("/verify/", &[])) else {
        panic!("expected an answer")
    };
    assert_eq!(
        (reply.status, reply.body.as_str()),
        (400, "missing Host header")
    );
}

#[test]
fn defaults_of_a_check_request() {
    let body = verify_of(begin_check(
        &shim_config(),
        CheckRequest {
            path_and_query: None,
            method: "POST".into(),
            headers: vec![
                HeaderField { name: "host".into(), value: Some("h:8443".into()) },
                HeaderField { name: "x-forwarded-for".into(), value: Some(" , 10.0.0.1".into()) },
                HeaderField { name: "x-binary".into(), value: None },
            ],
        },
    ));
    assert_eq!(body.scheme, "https");
    assert!(body.tls);
    assert_eq!(body.path, "/");
    assert_eq!(body.original_request_url, "https://h:8443/");
    assert_eq!(body.request_ip, None);
    assert!(!body.headers.contains_key("X-Binary"));
}

#[test]
fn the_first_header_of_a_name_counts() {
    let fields = vec![
        HeaderField { name: "x-a".into(), value: Some("1".into()) },
        HeaderField { name: "x-a".into(), value: Some("2".into()) },
        HeaderField { name: "cookie".into(), value: Some("c=1".into()) },
    ];
    let headers = collect_headers(&fields);
    assert_eq!(headers.len(), 1);
    assert_eq!(headers.get("X-A").unwrap(), "1");
}

#[test]
fn unreadable_answers() {
    assert!(verify_outcome(true, None).is_none());
    assert!(!verify_outcome(false, None).unwrap().valid);
    assert!(verify_outcome(false, Some(session(true))).unwrap().valid);
    assert!(exchange_outcome(true, None).is_none());
    assert!(!exchange_outcome(false, None).unwrap().valid);
}

#[test]
fn endpoints_are_below_the_base() {
    assert_eq!(
        endpoint("http://h/api/v1//", "badger/verify-session").as_deref(),
        Some("http://h/api/v1/badger/verify-session")
    );
    assert_eq!(endpoint("nonsense", "x"), None);
}

#[test]
fn shim_settings_defaults() {
    let env = texts(&[("SHIM_PANGOLIN_API_BASE_URL", "http://p:3001/api/v1///")]);
    let cfg = ShimConfig::from_env(&env).unwrap_or_else(|e| panic!("{}", e.message()));
    assert_eq!(cfg.pangolin_api_base_url, "http://p:3001/api/v1");
    assert_eq!(cfg.listen, "0.0.0.0:9001");
    assert_eq!(cfg.path_prefix, "/verify");
    assert_eq!(cfg.user_session_cookie_name, "p_session_token");
    assert_eq!(cfg.resource_session_request_param, "p_session_request");
    assert_eq!(cfg.timeout, Duration::from_secs(10));
    assert!(!cfg.tls_skip_verify);
    assert!(cfg.ca_file.is_none());
}

fn shim_error(pairs: &[(&str, &str)]) -> (ErrorKind, String) {
    match ShimConfig::from_env(&texts(pairs)) {
        Ok(_) => panic!("expected an error"),
        Err(e) => (e.kind, e.message()),
    }
}

#[test]
fn shim_settings_errors() {
    let url = ("SHIM_PANGOLIN_API_BASE_URL", "http://p/");
    let (kind, message) = shim_error(&[]);
    assert_eq!(kind, ErrorKind::Missing);
    assert!(message.contains("SHIM_PANGOLIN_API_BASE_URL"));
    assert_eq!(
        shim_error(&[("SHIM_PANGOLIN_API_BASE_URL", "p")]),
        (
            ErrorKind::InvalidApiBaseUrl,
            "invalid SHIM_PANGOLIN_API_BASE_URL".to_string()
        )
    );
    assert_eq!(
        shim_error(&[url, ("SHIM_PATH_PREFIX", "verify")]).1,
        "SHIM_PATH_PREFIX must start with '/' (got \"verify\")"
    );
    assert_eq!(
        shim_error(&[url, ("SHIM_TLS_SKIP_VERIFY", "Yes")]).1,
        "SHIM_TLS_SKIP_VERIFY=true requires \
         I_UNDERSTAND_SHIM_TLS_SKIP_VERIFY_IS_INSECURE=true to be explicitly set"
    );
    assert_eq!(
        shim_error(&[url, ("SHIM_PANGOLIN_TIMEOUT", "soon")]).1,
        "invalid SHIM_PANGOLIN_TIMEOUT"
    );
    let acknowledged = texts(&[
        url,
        ("SHIM_TLS_SKIP_VERIFY", "1"),
        ("I_UNDERSTAND_SHIM_TLS_SKIP_VERIFY_IS_INSECURE", "TRUE"),
        ("SHIM_PANGOLIN_TIMEOUT", "1m 5s"),
    ]);
    let cfg = ShimConfig::from_env(&acknowledged).unwrap_or_else(|e| panic!("{}", e.message()));
    assert!(cfg.tls_skip_verify);
    assert_eq!(cfg.timeout, Duration::from_secs(65));
}

#[test]
fn the_timeout_matters_only_once_it_is_read() {
    let mut env: StrMap<String> = StrMap::new();
    env.insert("SHIM_PANGOLIN_TIMEOUT".into(), "18446744073709551615s 1000ms".into());
    assert!(can_read_timeout(&env));
    assert!(ShimConfig::from_env(&env).is_err());
    env.insert("SHIM_PANGOLIN_API_BASE_URL".into(), "https://p/api".into());
    assert!(!can_read_timeout(&env));
    env.insert("SHIM_TLS_SKIP_VERIFY".into(), "true".into());
    assert!(can_read_timeout(&env));
    assert!(ShimConfig::from_env(&env).is_err());
}

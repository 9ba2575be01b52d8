//! The controller's settings.

use pangolin_gateway_controller::config::env::{parse_kv_env, ConfigError, ErrorKind};
use pangolin_gateway_controller::config::scope::{ReconcileKind, ReconcileScope};
use pangolin_gateway_controller::config::{can_read_durations, check_endpoint, BackendKind, Config};
use pangolin_gateway_controller::duration::Duration;
use pangolin_gateway_controller::strmap::StrMap;
use pangolin_gateway_controller::urls::UrlParts;

fn env(pairs: &[(&str, &str)]) -> StrMap<String> {
    let mut m: StrMap<String> = StrMap::new();
    for (k, v) in pairs {
        m.insert((*k).into(), (*v).into());
    }
    m
}

fn error(pairs: &[(&str, &str)], unexpected: &str) -> ConfigError {
    match Config::from_env(&env(pairs)) {
        Ok(_) => panic!("{unexpected}"),
        Err(e) => e,
    }
}

#[test]
fn parse_kv_handles_empty_and_spaces() {
    let vars = env(&[(
        "TEST_KV_ANNOS",
        " cert-manager.io/cluster-issuer = letsencrypt-prod , foo=bar ",
    )]);
    let parsed = parse_kv_env(&vars, "TEST_KV_ANNOS").unwrap_or_else(|e| panic!("{}", e.message()));
    assert_eq!(parsed.len(), 2);
    assert_eq!(
        parsed.get("cert-manager.io/cluster-issuer"),
        Some(&"letsencrypt-prod".to_string())
    );
    assert_eq!(parsed.get("foo"), Some(&"bar".to_string()));
}

#[test]
fn parse_kv_rejects_missing_equals() {
    let vars = env(&[("TEST_KV_BAD", "this-has-no-equals")]);
    let err = match parse_kv_env(&vars, "TEST_KV_BAD") {
        Ok(_) => panic!("expected an error"),
        Err(e) => e,
    };
    assert!(err.message().contains("not `key=value`"));
    assert_eq!(
        err.message(),
        "TEST_KV_BAD: entry \"this-has-no-equals\" is not `key=value`"
    );
}

#[test]
fn parse_kv_takes_the_last_value_and_refuses_empty_keys() {
    let parsed = parse_kv_env(&env(&[("K", "a=1,,a=2=3,b=")]), "K")
        .unwrap_or_else(|e| panic!("{}", e.message()));
    assert_eq!(parsed.get("a").unwrap(), "2=3");
    assert_eq!(parsed.get("b").unwrap(), "");
    assert!(parse_kv_env(&env(&[("K", "")]), "K").unwrap_or_else(|_| panic!()).is_empty());
    match parse_kv_env(&env(&[("K", "a=1, =2")]), "K") {
        Ok(_) => panic!("expected an error"),
        Err(e) => {
            assert_eq!(e.kind, ErrorKind::EmptyAnnotationKey);
            assert_eq!(e.message(), "K: empty annotation key in entry \"=2\"");
        }
    }
}

#[test]
fn backend_kind_parses_known_spellings() {
    assert_eq!(BackendKind::parse("service").unwrap(), BackendKind::Service);
    assert_eq!(BackendKind::parse("").unwrap(), BackendKind::Service);
    assert_eq!(
        BackendKind::parse("service-endpointslice").unwrap(),
        BackendKind::Service
    );
    assert_eq!(
        BackendKind::parse("envoy-backend").unwrap(),
        BackendKind::EnvoyBackend
    );
    assert_eq!(
        BackendKind::parse("EnvoyBackend").unwrap(),
        BackendKind::EnvoyBackend
    );
    assert_eq!(
        BackendKind::parse("backend").unwrap(),
        BackendKind::EnvoyBackend
    );

    let err = BackendKind::parse("traefik").unwrap_err().message();
    assert!(err.contains("CONFIG_BACKEND_KIND"));
    assert_eq!(
        err,
        "invalid CONFIG_BACKEND_KIND \"traefik\"; expected `service` or `envoy-backend`"
    );
}

#[test]
fn from_env_smoke() {
    // Step 1: missing CONFIG_ENDPOINT → required-env error.
    let msg = error(&[], "should fail without CONFIG_ENDPOINT").message();
    assert!(
        msg.contains("CONFIG_ENDPOINT"),
        "expected error to name CONFIG_ENDPOINT, got: {msg}"
    );

    // Step 2: http endpoint requires CONFIG_ALLOW_INSECURE_HTTP.
    let msg = error(
        &[
            (
                "CONFIG_ENDPOINT",
                "http://pangolin.local/api/v1/traefik-config",
            ),
            ("CONFIG_PARENT_GATEWAY", "eg"),
        ],
        "plain http should be rejected",
    )
    .message();
    assert!(
        msg.contains("CONFIG_ALLOW_INSECURE_HTTP"),
        "expected error to mention CONFIG_ALLOW_INSECURE_HTTP, got: {msg}"
    );

    // Step 3: CONFIG_TLS_SKIP_VERIFY without the acknowledgement var is rejected.
    let msg = error(
        &[
            (
                "CONFIG_ENDPOINT",
                "https://pangolin.local/api/v1/traefik-config",
            ),
            ("CONFIG_PARENT_GATEWAY", "eg"),
            ("CONFIG_TLS_SKIP_VERIFY", "true"),
        ],
        "skip-verify without ack should fail",
    )
    .message();
    assert!(
        msg.contains("I_UNDERSTAND_CONFIG_TLS_SKIP_VERIFY_IS_INSECURE"),
        "expected error to mention the acknowledgement env, got: {msg}"
    );

    // Step 4: happy path with defaults.
    let cfg = Config::from_env(&env(&[
        (
            "CONFIG_ENDPOINT",
            "https://pangolin.local/api/v1/traefik-config",
        ),
        ("CONFIG_PARENT_GATEWAY", "eg"),
    ]))
    .expect("happy path");

    assert_eq!(
        cfg.pangolin_endpoint.as_str(),
        "https://pangolin.local/api/v1/traefik-config"
    );
    assert_eq!(cfg.parent_gateway, "eg");
    assert_eq!(cfg.namespace, "default");
    assert_eq!(cfg.listener_set_name, "pangolin");
    assert_eq!(cfg.field_manager, "pangolin-gateway-controller");
    assert_eq!(cfg.backend_kind, BackendKind::EnvoyBackend);
    assert_eq!(cfg.http_port, 80);
    assert_eq!(cfg.https_port, 443);
    assert!(cfg.enable_https_listeners);
    assert!(!cfg.enable_tcp_routes);
    assert!(!cfg.enable_udp_routes);
    assert!(!cfg.tls_skip_verify);
    assert!(!cfg.read_only);
    assert!(cfg.httproute_annotations.is_empty());
    assert!(cfg.listenerset_annotations.is_empty());

    // Step 5: full env override exercises every parser branch.
    let cfg = Config::from_env(&env(&[
        (
            "CONFIG_ENDPOINT",
            "https://pangolin.local/api/v1/traefik-config",
        ),
        ("CONFIG_PARENT_GATEWAY", "eg"),
        ("CONFIG_AUTH_HEADER", "Bearer xyz"),
        ("CONFIG_FETCH_TIMEOUT", "15s"),
        ("CONFIG_POLL_INTERVAL", "45s"),
        ("CONFIG_MAX_BACKOFF", "10m"),
        ("CONFIG_MAX_RESPONSE_BODY_BYTES", "1048576"),
        ("CONFIG_NAMESPACE", "pangolin-system"),
        ("CONFIG_PARENT_GATEWAY_NAMESPACE", "envoy-gateway-system"),
        ("CONFIG_LISTENERSET_NAME", "pangolin-set"),
        ("CONFIG_HTTP_PORT", "8080"),
        ("CONFIG_HTTPS_PORT", "8443"),
        ("CONFIG_ENABLE_HTTPS_LISTENERS", "false"),
        ("CONFIG_ENABLE_TCP_ROUTES", "true"),
        ("CONFIG_ENABLE_UDP_ROUTES", "true"),
        ("CONFIG_BACKEND_KIND", "service"),
        ("CONFIG_TLS_SECRET_TEMPLATE", "{hostname-dashed}-tls"),
        ("CONFIG_TLS_SECRET_NAMESPACE", "certs"),
        (
            "CONFIG_HTTPROUTE_ANNOTATIONS",
            "cert-manager.io/cluster-issuer=letsencrypt-prod, foo=bar",
        ),
        (
            "CONFIG_LISTENERSET_ANNOTATIONS",
            "cert-manager.io/cluster-issuer=letsencrypt-prod",
        ),
        ("CONFIG_READ_ONLY", "true"),
    ]))
    .expect("full override");

    assert_eq!(cfg.auth_header.as_deref(), Some("Bearer xyz"));
    assert_eq!(cfg.fetch_timeout, Duration::from_secs(15));
    assert_eq!(cfg.poll_interval, Duration::from_secs(45));
    assert_eq!(cfg.max_backoff, Duration::from_secs(600));
    assert_eq!(cfg.max_response_body_bytes, 1_048_576);
    assert_eq!(cfg.namespace, "pangolin-system");
    assert_eq!(
        cfg.parent_gateway_namespace.as_deref(),
        Some("envoy-gateway-system")
    );
    assert_eq!(cfg.listener_set_name, "pangolin-set");
    assert_eq!(cfg.http_port, 8080);
    assert_eq!(cfg.https_port, 8443);
    assert!(!cfg.enable_https_listeners);
    assert!(cfg.enable_tcp_routes);
    assert!(cfg.enable_udp_routes);
    assert_eq!(cfg.backend_kind, BackendKind::Service);
    assert_eq!(
        cfg.tls_secret_template.as_deref(),
        Some("{hostname-dashed}-tls")
    );
    assert_eq!(cfg.tls_secret_namespace.as_deref(), Some("certs"));
    assert_eq!(cfg.httproute_annotations.len(), 2);
    assert_eq!(
        cfg.httproute_annotations
            .get("cert-manager.io/cluster-issuer")
            .map(String::as_str),
        Some("letsencrypt-prod"),
    );
    assert_eq!(cfg.listenerset_annotations.len(), 1);
    assert!(cfg.read_only);

    // managed_selector is the contract GC relies on — verify the format.
    assert_eq!(
        cfg.managed_selector(),
        "app.kubernetes.io/managed-by=pangolin-gateway-controller,\
         pangolin.envisia.de/instance=default"
            .replace(' ', "")
    );
}

const BASE: [(&str, &str); 2] = [
    ("CONFIG_ENDPOINT", "https://pangolin.local/x"),
    ("CONFIG_PARENT_GATEWAY", "eg"),
];

fn with(more: &[(&str, &str)]) -> Config {
    let mut pairs = BASE.to_vec();
    pairs.extend_from_slice(more);
    Config::from_env(&env(&pairs)).unwrap_or_else(|e| panic!("{}", e.message()))
}

fn failing(more: &[(&str, &str)]) -> (ErrorKind, String) {
    let mut pairs = BASE.to_vec();
    pairs.extend_from_slice(more);
    let e = error(&pairs, "expected an error");
    (e.kind, e.message())
}

#[test]
fn remaining_defaults() {
    let cfg = with(&[]);
    assert_eq!(cfg.fetch_timeout, Duration::from_secs(30));
    assert_eq!(cfg.poll_interval, Duration::from_secs(30));
    assert_eq!(cfg.max_backoff, Duration::from_secs(300));
    assert_eq!(cfg.max_response_body_bytes, 16 * 1024 * 1024);
    assert_eq!(cfg.health_listen.as_deref(), Some("0.0.0.0:8081"));
    assert!(cfg.ext_authz.is_none());
    assert!(!cfg.allow_unauthenticated_routes);
    assert!(cfg.badger_ext_auth.is_none());
    assert!(cfg.pangolin_dashboard.is_none());
    assert!(cfg.gerbil_udp.is_none());
    assert!(cfg.reconcile_scope.is_all());
    assert!(with(&[("CONFIG_HEALTH_LISTEN", "off")]).health_listen.is_none());
    assert_eq!(
        with(&[("CONFIG_NAMESPACE", "")]).namespace,
        "default",
        "an empty variable counts as unset"
    );
    let http = with(&[
        ("CONFIG_ENDPOINT", "HTTP://pangolin.local:80/x"),
        ("CONFIG_ALLOW_INSECURE_HTTP", "on"),
    ]);
    assert_eq!(http.pangolin_endpoint, "http://pangolin.local/x");
}

#[test]
fn errors_come_with_the_variable_and_its_text() {
    assert_eq!(
        failing(&[("CONFIG_ENDPOINT", "nonsense")]),
        (
            ErrorKind::InvalidUrl,
            "CONFIG_ENDPOINT must be a valid URL".to_string()
        )
    );
    assert_eq!(
        failing(&[("CONFIG_READ_ONLY", "Maybe")]),
        (
            ErrorKind::InvalidBool,
            "invalid boolean for CONFIG_READ_ONLY: \"maybe\"".to_string()
        )
    );
    assert_eq!(
        failing(&[("CONFIG_MAX_BACKOFF", "5 parsecs")]),
        (
            ErrorKind::InvalidDuration,
            "invalid duration for CONFIG_MAX_BACKOFF: \"5 parsecs\"".to_string()
        )
    );
    assert_eq!(
        failing(&[("CONFIG_MAX_RESPONSE_BODY_BYTES", "18446744073709551616")]).0,
        ErrorKind::InvalidU64
    );
    assert_eq!(
        failing(&[("CONFIG_HTTP_PORT", "2147483648")]),
        (
            ErrorKind::InvalidI32,
            "invalid i32 for CONFIG_HTTP_PORT: \"2147483648\"".to_string()
        )
    );
    assert_eq!(with(&[("CONFIG_HTTP_PORT", "-2147483648")]).http_port, i32::MIN);
    assert_eq!(with(&[("CONFIG_HTTP_PORT", "+00080")]).http_port, 80);
    assert_eq!(
        error(&[("CONFIG_ENDPOINT", "https://p/")], "no gateway").message(),
        "required environment variable CONFIG_PARENT_GATEWAY is not set"
    );
    assert_eq!(
        failing(&[("CONFIG_BACKEND_KIND", "x")]).0,
        ErrorKind::InvalidBackendKind
    );
    assert_eq!(
        failing(&[("CONFIG_LISTENERSET_ANNOTATIONS", "x")]).0,
        ErrorKind::NotKeyValue
    );
}

#[test]
fn the_first_wrong_setting_is_reported() {
    let (kind, message) = failing(&[
        ("CONFIG_READ_ONLY", "x"),
        ("CONFIG_HTTP_PORT", "y"),
        ("CONFIG_FETCH_TIMEOUT", "z"),
    ]);
    assert_eq!(kind, ErrorKind::InvalidDuration);
    assert!(message.contains("CONFIG_FETCH_TIMEOUT"));
}

#[test]
fn external_authorization_settings() {
    let ea = with(&[("CONFIG_EXT_AUTHZ_SERVICE", "shim")]).ext_authz.unwrap();
    assert_eq!(ea.service, "shim");
    assert_eq!(ea.namespace, None);
    assert_eq!(ea.port, 80);
    assert_eq!(ea.path, None);
    assert_eq!(ea.headers_to_ext_auth, vec!["cookie", "authorization"]);
    assert!(ea.headers_to_backend.is_empty());
    let ea = with(&[
        ("CONFIG_EXT_AUTHZ_SERVICE", "shim"),
        ("CONFIG_EXT_AUTHZ_NAMESPACE", "auth"),
        ("CONFIG_EXT_AUTHZ_PORT", "9001"),
        ("CONFIG_EXT_AUTHZ_PATH", "/verify"),
        ("CONFIG_EXT_AUTHZ_HEADERS_TO_EXT_AUTH", "a, ,b"),
        ("CONFIG_EXT_AUTHZ_HEADERS_TO_BACKEND", "remote-user"),
    ])
    .ext_authz
    .unwrap();
    assert_eq!(ea.namespace.as_deref(), Some("auth"));
    assert_eq!(ea.port, 9001);
    assert_eq!(ea.path.as_deref(), Some("/verify"));
    assert_eq!(ea.headers_to_ext_auth, vec!["a", "b"]);
    assert_eq!(ea.headers_to_backend, vec!["remote-user"]);
    assert_eq!(
        failing(&[
            ("CONFIG_EXT_AUTHZ_SERVICE", "shim"),
            ("CONFIG_EXT_AUTHZ_HEADERS_TO_EXT_AUTH", " , ")
        ]),
        (
            ErrorKind::EmptyList,
            "CONFIG_EXT_AUTHZ_HEADERS_TO_EXT_AUTH must contain at least one value when set"
                .to_string()
        )
    );
}

#[test]
fn badger_ext_auth_settings() {
    let b = with(&[("CONFIG_BADGER_EXT_AUTH", "yes"), ("CONFIG_NAMESPACE", "ns")])
        .badger_ext_auth
        .unwrap();
    assert_eq!(b.backend_name, "pangolin-badger-ext-authz");
    assert_eq!(b.backend_namespace.as_deref(), Some("ns"));
    assert_eq!(b.backend_port, 9002);
    assert_eq!(b.path, None);
    assert_eq!(b.headers_to_ext_auth.len(), 8);
    assert_eq!(
        b.headers_to_backend,
        vec!["remote-user", "remote-email", "remote-name", "remote-role"]
    );
    assert!(!b.fail_open);
}

#[test]
fn dashboard_and_gerbil_settings() {
    let cfg = with(&[
        ("CONFIG_PANGOLIN_DASHBOARD_HOST", "p.example.com"),
        ("CONFIG_GERBIL_UDP_ROUTE", "1"),
    ]);
    let d = cfg.pangolin_dashboard.unwrap();
    assert_eq!(d.hostname, "p.example.com");
    assert_eq!(d.service_name, "pangolin");
    assert_eq!(d.service_namespace.as_deref(), Some("default"));
    assert_eq!((d.api_port, d.next_port), (3000, 3002));
    assert!(d.redirect_http_to_https);
    let g = cfg.gerbil_udp.unwrap();
    assert_eq!(g.service_name, "gerbil");
    assert_eq!(g.ports, vec![51820, 21820]);
    let on = ("CONFIG_GERBIL_UDP_ROUTE", "1");
    assert_eq!(
        with(&[on, ("CONFIG_GERBIL_UDP_PORTS", "1, 2,")]).gerbil_udp.unwrap().ports,
        vec![1, 2]
    );
    assert_eq!(
        failing(&[on, ("CONFIG_GERBIL_UDP_PORTS", "1,x,y")]),
        (
            ErrorKind::InvalidI32Entry,
            "invalid i32 in CONFIG_GERBIL_UDP_PORTS: \"x\"".to_string()
        )
    );
    assert_eq!(
        failing(&[on, ("CONFIG_GERBIL_UDP_PORTS", ",")]),
        (
            ErrorKind::EmptyPorts,
            "CONFIG_GERBIL_UDP_PORTS must contain at least one port when set".to_string()
        )
    );
}

#[test]
fn reconcile_kinds_round_trip() {
    for kind in [
        ReconcileKind::HttpRoute,
        ReconcileKind::ListenerSet,
        ReconcileKind::Service,
        ReconcileKind::EndpointSlice,
        ReconcileKind::Backend,
        ReconcileKind::SecurityPolicy,
        ReconcileKind::UDPRoute,
    ] {
        assert_eq!(ReconcileKind::parse(kind.as_str()).unwrap(), kind);
    }
    assert_eq!(
        ReconcileKind::parse(" HTTP_routes ").unwrap(),
        ReconcileKind::HttpRoute
    );
    assert_eq!(
        ReconcileKind::parse("en-voy backend").unwrap(),
        ReconcileKind::Backend
    );
    assert_eq!(
        ReconcileKind::parse("Pod").unwrap_err().message(),
        "invalid reconcile object kind \"pod\"; expected HTTPRoute, ListenerSet, Service, \
         EndpointSlice, Backend, SecurityPolicy, or UDPRoute"
    );
}

fn scope(raw: &str) -> ReconcileScope {
    ReconcileScope::parse(raw).unwrap_or_else(|e| panic!("{}", e.message()))
}

#[test]
fn scopes_select_objects() {
    assert!(ReconcileScope::all().is_all());
    assert!(scope(" , ").is_all());
    assert!(scope("").includes(ReconcileKind::Service, "anything"));
    let s = scope("svc/a, httproute:b ,host/App.Example.com., c.d, e");
    assert!(!s.is_all());
    assert!(s.includes(ReconcileKind::Service, "a"));
    assert!(!s.includes(ReconcileKind::HttpRoute, "a"));
    assert!(s.includes(ReconcileKind::HttpRoute, "b"));
    assert!(s.includes(ReconcileKind::Backend, "c.d"));
    assert!(s.includes(ReconcileKind::UDPRoute, "e"));
    assert!(!s.includes(ReconcileKind::UDPRoute, "app.example.com"));
    assert!(s.affects_kind(ReconcileKind::ListenerSet));
    assert_eq!(s.hostname_candidates(), vec!["app.example.com", "c.d"]);
    let hosts = scope("hostname/x.y");
    assert!(!hosts.affects_kind(ReconcileKind::Service));
    let expanded = hosts.with_expanded_objects(vec![(ReconcileKind::Service, "svc-x".into())]);
    assert!(expanded.includes(ReconcileKind::Service, "svc-x"));
    assert!(!expanded.includes(ReconcileKind::HttpRoute, "svc-x"));
    assert!(expanded.hostname_candidates().is_empty());
}

#[test]
fn scope_errors() {
    let kind = |raw: &str| match ReconcileScope::parse(raw) {
        Ok(_) => panic!("expected an error"),
        Err(e) => (e.kind, e.message()),
    };
    assert_eq!(
        kind("svc/ "),
        (
            ErrorKind::EmptySelector,
            "CONFIG_RECONCILE_ONLY entry \"svc/\" has an empty selector value".to_string()
        )
    );
    assert_eq!(kind("a,pod/x").0, ErrorKind::InvalidReconcileKind);
    assert_eq!(
        failing(&[("CONFIG_RECONCILE_ONLY", "pod:x")]).0,
        ErrorKind::InvalidReconcileKind
    );
}

fn url(scheme: &str) -> UrlParts {
    UrlParts {
        text: scheme.to_string() + "://p/",
        scheme: scheme.to_string(),
        host: Some("p".into()),
        port: None,
    }
}

fn refusal(pairs: &[(&str, &str)], scheme: &str) -> ErrorKind {
    match check_endpoint(&env(pairs), &url(scheme)) {
        Ok(_) => panic!("expected a refusal"),
        Err(e) => e.kind,
    }
}

#[test]
fn endpoints_are_reached_securely_unless_told_otherwise() {
    let skip = ("CONFIG_TLS_SKIP_VERIFY", "true");
    let acknowledged = ("I_UNDERSTAND_CONFIG_TLS_SKIP_VERIFY_IS_INSECURE", "yes");
    let plain = ("CONFIG_ALLOW_INSECURE_HTTP", "1");

    assert!(matches!(check_endpoint(&env(&[]), &url("https")), Ok(false)));
    assert!(refusal(&[], "http") == ErrorKind::InsecureHttp);
    assert!(matches!(check_endpoint(&env(&[plain]), &url("http")), Ok(false)));
    assert!(refusal(&[skip], "https") == ErrorKind::SkipVerifyNotAcknowledged);
    assert!(matches!(check_endpoint(&env(&[skip, acknowledged]), &url("https")), Ok(true)));
    assert!(refusal(&[skip, acknowledged], "http") == ErrorKind::InsecureHttp);
    assert!(refusal(&[("CONFIG_TLS_SKIP_VERIFY", "maybe")], "http") == ErrorKind::InvalidBool);
}

#[test]
fn durations_matter_only_once_they_are_read() {
    let overflow = ("CONFIG_MAX_BACKOFF", "18446744073709551615s 1000ms");
    let endpoint = ("CONFIG_ENDPOINT", "https://p/");
    assert!(!can_read_durations(&env(&[endpoint, overflow])));
    assert!(can_read_durations(&env(&[endpoint, ("CONFIG_MAX_BACKOFF", "18446744073709551615s 1s")])));
    for wrong in [
        vec![overflow],
        vec![endpoint, ("CONFIG_TLS_SKIP_VERIFY", "true"), overflow],
        vec![endpoint, ("CONFIG_GERBIL_UDP_ROUTE", "maybe"), overflow],
    ] {
        assert!(can_read_durations(&env(&wrong)));
        assert!(Config::from_env(&env(&wrong)).is_err());
    }
}

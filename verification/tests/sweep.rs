//! Applying and sweeping.

use pangolin_gateway_controller::apply::{
    apply_action, managed_metadata, managed_metadata_with, owner_labels, ApplyAction,
};
use pangolin_gateway_controller::config::{BackendKind, Config};
use pangolin_gateway_controller::gc::{is_not_found, sweep};
use pangolin_gateway_controller::reconcile::{
    apply_plan, desired_names, next_step, sweep_kinds, ObjectKind, RoundAction, Step,
};
use pangolin_gateway_controller::strmap::{StrMap, StrSet};
use pangolin_gateway_controller::text;
use pangolin_gateway_controller::transform::dashboard::build_dashboard_routes;
use pangolin_gateway_controller::transform::gerbil::build_udp_routes;
use pangolin_gateway_controller::transform::route::RouteIndex;
use pangolin_gateway_controller::transform::Desired;

fn config(more: &[(&str, &str)]) -> Config {
    let mut env: StrMap<String> = StrMap::new();
    env.insert("CONFIG_ENDPOINT".into(), "https://p/".into());
    env.insert("CONFIG_PARENT_GATEWAY".into(), "eg".into());
    for (k, v) in more {
        env.insert((*k).into(), (*v).into());
    }
    Config::from_env(&env).unwrap_or_else(|e| panic!("{}", e.message()))
}

fn names(list: &[&str]) -> StrSet {
    let mut s = StrSet::new();
    for n in list {
        s.insert((*n).into());
    }
    s
}

#[test]
fn only_orphans_are_deleted() {
    let existing = vec![
        Some("keep".to_string()),
        None,
        Some("drop-b".to_string()),
        Some("drop-a".to_string()),
    ];
    let cfg = config(&[]);
    let s = sweep(&cfg, &existing, &names(&["keep", "other"]));
    assert_eq!(s.delete, vec!["drop-b", "drop-a"]);
    assert!(s.leave.is_empty());
    let cfg = config(&[("CONFIG_READ_ONLY", "true")]);
    let s = sweep(&cfg, &existing, &names(&["keep"]));
    assert!(s.delete.is_empty(), "read-only mode deletes nothing");
    assert_eq!(s.leave, vec!["drop-b", "drop-a"]);
    assert!(is_not_found(Some(404)));
    assert!(!is_not_found(Some(403)));
    assert!(!is_not_found(None));
}

#[test]
fn metadata_carries_labels_and_annotations() {
    let cfg = config(&[("CONFIG_NAMESPACE", "ns")]);
    let meta = managed_metadata(&cfg, "x", owner_labels(&cfg, "x"));
    assert_eq!(meta.name.as_deref(), Some("x"));
    assert_eq!(meta.namespace.as_deref(), Some("ns"));
    let labels = meta.labels.as_ref().unwrap();
    assert_eq!(
        labels.get("app.kubernetes.io/managed-by").unwrap(),
        "pangolin-gateway-controller"
    );
    assert_eq!(labels.get("pangolin.envisia.de/instance").unwrap(), "default");
    assert_eq!(meta.annotations.as_ref().unwrap().len(), 1);
    // Caller-supplied entries win over the managed one.
    let mut extra: StrMap<String> = StrMap::new();
    extra.insert("pangolin.envisia.de/source".into(), "mine".into());
    extra.insert("a".into(), "b".into());
    let meta = managed_metadata_with(&cfg, "x", owner_labels(&cfg, "x"), &extra);
    let annotations = meta.annotations.unwrap();
    assert_eq!(annotations.len(), 2);
    assert_eq!(annotations.get("pangolin.envisia.de/source").unwrap(), "mine");
}

#[test]
fn objects_are_applied_unless_read_only() {
    let cfg = config(&[]);
    let mut meta = managed_metadata(&cfg, "x", StrMap::new());
    assert_eq!(apply_action(&cfg, &meta), ApplyAction::Apply);
    let quiet = config(&[("CONFIG_READ_ONLY", "1")]);
    assert_eq!(apply_action(&quiet, &meta), ApplyAction::Skip);
    meta.name = None;
    assert_eq!(apply_action(&quiet, &meta), ApplyAction::Nameless);
}

#[test]
fn swept_kinds_follow_the_settings() {
    let kinds = sweep_kinds(&config(&[("CONFIG_BACKEND_KIND", "service")]));
    assert_eq!(
        kinds,
        vec![
            ObjectKind::HttpRoute,
            ObjectKind::ListenerSet,
            ObjectKind::EndpointSlice,
            ObjectKind::Service,
            ObjectKind::BackendTlsPolicy,
        ]
    );
    let cfg = config(&[
        ("CONFIG_ENABLE_TCP_ROUTES", "true"),
        ("CONFIG_ENABLE_UDP_ROUTES", "true"),
    ]);
    assert_eq!(cfg.backend_kind, BackendKind::EnvoyBackend);
    assert_eq!(
        sweep_kinds(&cfg),
        vec![
            ObjectKind::HttpRoute,
            ObjectKind::ListenerSet,
            ObjectKind::EndpointSlice,
            ObjectKind::Service,
            ObjectKind::EnvoyBackend,
            ObjectKind::TcpRoute,
            ObjectKind::UdpRoute,
            ObjectKind::SecurityPolicy,
        ]
    );
}

#[test]
fn dashboard_routes_redirect_and_serve() {
    let cfg = config(&[
        ("CONFIG_PANGOLIN_DASHBOARD_HOST", "p.example.com"),
        ("CONFIG_TLS_SECRET_TEMPLATE", "{hostname}"),
    ]);
    let mut desired = Desired::new();
    let mut index = RouteIndex::new();
    build_dashboard_routes(&cfg, &mut index, &mut desired);
    let keys: Vec<&str> = desired.http_routes.keys().into_iter().map(String::as_str).collect();
    assert_eq!(
        keys,
        vec![
            "hr-pangolin-dashboard-api",
            "hr-pangolin-dashboard-redirect",
            "hr-pangolin-dashboard-web",
            "hr-pangolin-dashboard-ws",
        ]
    );
    assert!(index.hostnames.contains("p.example.com"));
    assert!(index.https_hosts.contains("p.example.com"));
    let redirect = desired.http_routes.get("hr-pangolin-dashboard-redirect").unwrap();
    let parent = &redirect.spec.parent_refs.as_ref().unwrap()[0];
    assert_eq!(parent.section_name.as_deref(), Some("http-p-example-com"));
    assert!(redirect.spec.rules.as_ref().unwrap()[0].backend_refs.is_none());
    let ws = desired.http_routes.get("hr-pangolin-dashboard-ws").unwrap();
    let rule = &ws.spec.rules.as_ref().unwrap()[0];
    let m = &rule.matches.as_ref().unwrap()[0];
    assert_eq!(m.path.as_ref().unwrap().value.as_deref(), Some("/api/v1/ws"));
    assert_eq!(m.headers.as_ref().unwrap()[0].name, "upgrade");
    assert_eq!(rule.backend_refs.as_ref().unwrap()[0].port, Some(3000));
    assert_eq!(
        ws.spec.parent_refs.as_ref().unwrap()[0].section_name.as_deref(),
        Some("https-p-example-com")
    );

    // Without HTTPS there is nothing to redirect to.
    let cfg = config(&[("CONFIG_PANGOLIN_DASHBOARD_HOST", "p.example.com")]);
    let mut desired = Desired::new();
    let mut index = RouteIndex::new();
    build_dashboard_routes(&cfg, &mut index, &mut desired);
    assert_eq!(desired.http_routes.len(), 3);
    assert!(index.https_hosts.is_empty());
    let mut untouched = Desired::new();
    build_dashboard_routes(&config(&[]), &mut index, &mut untouched);
    assert!(untouched.http_routes.is_empty());
}

#[test]
fn gerbil_ports_get_udp_routes() {
    let mut desired = Desired::new();
    build_udp_routes(&config(&[("CONFIG_GERBIL_UDP_ROUTE", "true")]), &mut desired);
    assert_eq!(desired.udp_routes.len(), 2);
    let route = desired.udp_routes.get("udpr-gerbil-udp-51820").unwrap();
    assert_eq!(
        route.spec.parent_refs.as_ref().unwrap()[0].section_name.as_deref(),
        Some("udp-gerbil-udp-51820")
    );
    let rule = &route.spec.rules[0];
    assert_eq!(rule.name.as_deref(), Some("default"));
    assert_eq!(rule.backend_refs[0].name, "gerbil");
    assert_eq!(rule.backend_refs[0].namespace.as_deref(), Some("default"));
    assert_eq!(rule.backend_refs[0].port, Some(51820));
}

#[test]
fn plans_follow_the_order_of_kinds() {
    let cfg = config(&[
        ("CONFIG_PANGOLIN_DASHBOARD_HOST", "p.example.com"),
        ("CONFIG_GERBIL_UDP_ROUTE", "true"),
    ]);
    let mut desired = Desired::new();
    let mut index = RouteIndex::new();
    build_udp_routes(&cfg, &mut desired);
    build_dashboard_routes(&cfg, &mut index, &mut desired);
    let plan = apply_plan(&desired);
    let kinds: Vec<ObjectKind> = plan.iter().map(|s| s.kind).collect();
    assert_eq!(
        kinds,
        vec![
            ObjectKind::HttpRoute,
            ObjectKind::HttpRoute,
            ObjectKind::HttpRoute,
            ObjectKind::UdpRoute,
            ObjectKind::UdpRoute,
        ]
    );
    assert_eq!(plan[0].name, "hr-pangolin-dashboard-api");
    let wanted = desired_names(&desired, ObjectKind::UdpRoute);
    assert!(wanted.contains("udpr-gerbil-udp-21820"));
    assert!(desired_names(&desired, ObjectKind::Service).is_empty());
}

#[test]
fn maps_keep_their_keys_in_order() {
    let mut m: StrMap<i32> = StrMap::new();
    for (i, k) in ["b", "a", "ü", "ab", "b", "Z"].iter().enumerate() {
        m.insert((*k).into(), i as i32);
    }
    let keys: Vec<&str> = m.keys().into_iter().map(String::as_str).collect();
    let mut sorted = vec!["b", "a", "ü", "ab", "Z"];
    sorted.sort();
    assert_eq!(keys, sorted);
    assert_eq!(m.get("b"), Some(&4));
    assert_eq!(m.get("c"), None);
    assert_eq!(m.len(), 5);
}

#[test]
fn white_space_is_that_of_unicode() {
    for n in 0..=0x10_ffffu32 {
        if let Some(c) = char::from_u32(n) {
            assert_eq!(text::is_space_char(c), c.is_whitespace(), "{n:x}");
        }
    }
    assert_eq!(text::trimmed("\u{2003} a b\u{a0}\n"), "a b");
}

#[test]
fn numbers_are_read_like_the_standard_library_reads_them() {
    for s in [
        "", "+", "-", "0", "-0", "+7", "007", "65535", "65536", "1_0", " 1", "1 ", "٣",
        "2147483647", "2147483648", "-2147483648", "-2147483649", "99999999999999999999",
    ] {
        assert_eq!(text::signed_i32(s), s.parse::<i32>().ok(), "{s:?}");
        assert_eq!(
            text::unsigned(s, 65535),
            s.parse::<u16>().ok().map(u64::from),
            "{s:?}"
        );
    }
    assert_eq!(text::decimal(u64::MAX), u64::MAX.to_string());
    assert_eq!(text::decimal_i32(i32::MIN), i32::MIN.to_string());
}

#[test]
fn rounds_apply_everything_before_they_sweep() {
    let step = |name: &str| Step { kind: ObjectKind::Service, name: name.to_string() };
    let plan = vec![step("a"), step("b")];
    let kinds = vec![ObjectKind::HttpRoute, ObjectKind::Service];

    assert_eq!(next_step(0, true, &plan, &kinds), RoundAction::Apply(0));
    assert_eq!(next_step(0, false, &plan, &kinds), RoundAction::Apply(0));
    assert_eq!(next_step(1, true, &plan, &kinds), RoundAction::Apply(1));
    assert_eq!(next_step(1, false, &plan, &kinds), RoundAction::Failed);
    assert_eq!(next_step(2, true, &plan, &kinds), RoundAction::Sweep(0));
    assert_eq!(next_step(2, false, &plan, &kinds), RoundAction::Failed);
    assert_eq!(next_step(3, false, &plan, &kinds), RoundAction::Sweep(1));
    assert_eq!(next_step(4, false, &plan, &kinds), RoundAction::Done);
    assert_eq!(next_step(0, true, &vec![], &vec![]), RoundAction::Done);
}

//! Raw TCP and UDP routers.

use pangolin_gateway_controller::json::Json;
use pangolin_gateway_controller::pangolin::types::L4Router;
use pangolin_gateway_controller::strmap::StrMap;
use pangolin_gateway_controller::transform::l4::{
    parse_entrypoint_port, rule_is_supported, L4Protocol,
};
use pangolin_gateway_controller::transform::listener::render_secret_name;

#[test]
fn entrypoint_port_parses_matching_protocol() {
    assert_eq!(parse_entrypoint_port("tcp-234", L4Protocol::Tcp), Some(234));
    assert_eq!(parse_entrypoint_port("udp-345", L4Protocol::Udp), Some(345));
}

#[test]
fn entrypoint_port_rejects_mismatches() {
    assert_eq!(parse_entrypoint_port("udp-345", L4Protocol::Tcp), None);
    assert_eq!(parse_entrypoint_port("web", L4Protocol::Tcp), None);
    assert_eq!(parse_entrypoint_port("tcp-", L4Protocol::Tcp), None);
    assert_eq!(parse_entrypoint_port("tcp-0", L4Protocol::Tcp), None);
    assert_eq!(parse_entrypoint_port("tcp-70000", L4Protocol::Tcp), None);
}

fn router(rule: Option<&str>, tls: Option<Json>) -> L4Router {
    L4Router {
        rule: rule.map(str::to_owned),
        service: String::new(),
        entry_points: vec![],
        tls,
    }
}

#[test]
fn hostsni_wildcard_is_supported_for_tcp() {
    let router = router(Some("HostSNI(`*`)"), None);
    assert!(rule_is_supported("r", &router, L4Protocol::Tcp));
}

#[test]
fn concrete_sni_is_rejected() {
    let router = router(Some("HostSNI(`db.example.com`)"), None);
    assert!(!rule_is_supported("r", &router, L4Protocol::Tcp));
}

#[test]
fn tls_options_are_rejected() {
    let mut options: StrMap<Json> = StrMap::new();
    options.insert("passthrough".into(), Json::Bool(true));
    let router = router(Some("HostSNI(`*`)"), Some(Json::Object(options)));
    assert!(!rule_is_supported("r", &router, L4Protocol::Tcp));
}

#[test]
fn udp_routers_have_no_rule() {
    assert!(rule_is_supported("r", &router(None, None), L4Protocol::Udp));
    assert!(rule_is_supported("r", &router(Some("  "), None), L4Protocol::Udp));
    assert!(!rule_is_supported(
        "r",
        &router(Some("HostSNI(`*`)"), None),
        L4Protocol::Udp
    ));
}

#[test]
fn protocol_names() {
    assert_eq!(L4Protocol::Tcp.k8s_protocol(), "TCP");
    assert_eq!(L4Protocol::Udp.k8s_protocol(), "UDP");
    assert_eq!(L4Protocol::Tcp.infix(), "tcp");
    assert_eq!(L4Protocol::Udp.infix(), "udp");
}

#[test]
fn template_substitution() {
    assert_eq!(
        render_secret_name("{hostname-dashed}-tls", "api.example.com"),
        "api-example-com-tls"
    );
    assert_eq!(
        render_secret_name("{hostname}", "api.example.com"),
        "api.example.com"
    );
}

#[test]
fn templates_are_filled_every_time() {
    assert_eq!(
        render_secret_name("{hostname}/{hostname-dashed}/{hostname}", "a.b"),
        "a.b/a-b/a.b"
    );
    assert_eq!(render_secret_name("plain", "a.b"), "plain");
}

//! Server targets and their classes.

use pangolin_gateway_controller::config::BackendKind;
use pangolin_gateway_controller::ip::IpAddr;
use pangolin_gateway_controller::pangolin::types::LoadBalancerServer;
use pangolin_gateway_controller::transform::backend::{
    classify_entries, parse_cluster_dns, parse_l4_address, parse_url_servers, target_of_url,
    Classification, HostPort,
};
use pangolin_gateway_controller::urls::UrlParts;

fn s(url: &str) -> LoadBalancerServer {
    LoadBalancerServer { url: url.into() }
}

fn classify(
    pang_name: &str,
    servers: Vec<LoadBalancerServer>,
    kind: BackendKind,
) -> Classification {
    classify_entries(pang_name, &parse_url_servers(pang_name, &servers), kind)
}

#[test]
fn classifies_ipv4_service_mode() {
    match classify("svc", vec![s("http://10.0.0.1:8080")], BackendKind::Service) {
        Classification::Ips { entries, port, .. } => {
            assert_eq!(entries.len(), 1);
            assert_eq!(port, 8080);
        }
        _ => panic!("expected Ips"),
    }
}

#[test]
fn classifies_cluster_dns_short() {
    match classify(
        "svc",
        vec![s("http://echo.foo.svc:8080")],
        BackendKind::Service,
    ) {
        Classification::ClusterDns {
            service,
            namespace,
            port,
            ..
        } => {
            assert_eq!(service, "echo");
            assert_eq!(namespace, "foo");
            assert_eq!(port, 8080);
        }
        _ => panic!("expected ClusterDns"),
    }
}

#[test]
fn classifies_cluster_dns_full() {
    match classify(
        "svc",
        vec![s("http://echo.foo.svc.cluster.local:80")],
        BackendKind::Service,
    ) {
        Classification::ClusterDns {
            service,
            namespace,
            port,
            ..
        } => {
            assert_eq!(service, "echo");
            assert_eq!(namespace, "foo");
            assert_eq!(port, 80);
        }
        _ => panic!("expected ClusterDns"),
    }
}

#[test]
fn fqdn_drops_in_service_mode() {
    assert!(matches!(
        classify(
            "svc",
            vec![s("http://api.example.com:80")],
            BackendKind::Service,
        ),
        Classification::Empty
    ));
}

#[test]
fn fqdn_kept_in_envoy_backend_mode() {
    match classify(
        "svc",
        vec![s("https://api.example.com")],
        BackendKind::EnvoyBackend,
    ) {
        Classification::Fqdn { hostname, port, .. } => {
            assert_eq!(hostname, "api.example.com");
            assert_eq!(port, 443);
        }
        _ => panic!("expected Fqdn"),
    }
}

#[test]
fn l4_address_plain_host_port() {
    let hp = parse_l4_address("svc", "10.0.0.5:8000").expect("parsed");
    assert_eq!(hp.host, "10.0.0.5");
    assert_eq!(hp.port, 8000);
}

#[test]
fn l4_address_strips_stray_scheme() {
    // Pangolin emits this shape for raw UDP resources.
    let hp = parse_l4_address("svc", "http://echo.foo.svc.cluster.local:9090").expect("parsed");
    assert_eq!(hp.host, "echo.foo.svc.cluster.local");
    assert_eq!(hp.port, 9090);
}

#[test]
fn l4_address_bracketed_ipv6() {
    let hp = parse_l4_address("svc", "[2001:db8::1]:53").expect("parsed");
    assert_eq!(hp.host, "2001:db8::1");
    assert_eq!(hp.port, 53);
}

#[test]
fn l4_address_requires_port() {
    assert!(parse_l4_address("svc", "10.0.0.5").is_none());
    assert!(parse_l4_address("svc", "host:notaport").is_none());
    assert!(parse_l4_address("svc", ":8080").is_none());
}

#[test]
fn l4_address_edge_cases() {
    assert!(parse_l4_address("svc", "[::1]53").is_none());
    assert!(parse_l4_address("svc", "[::1").is_none());
    assert!(parse_l4_address("svc", "host:65536").is_none());
    assert!(parse_l4_address("svc", "host:-1").is_none());
    let hp = parse_l4_address("svc", "  tcp://host:+65535 ").expect("parsed");
    assert_eq!(hp.host, "host");
    assert_eq!(hp.port, 65535);
    assert!(!hp.tls);
}

#[test]
fn l4_cluster_dns_classifies_directly() {
    let entries =
        vec![parse_l4_address("svc", "show.dummyservices.svc.cluster.local:8000").unwrap()];
    match classify_entries("svc", &entries, BackendKind::EnvoyBackend) {
        Classification::ClusterDns {
            service,
            namespace,
            port,
            ..
        } => {
            assert_eq!(service, "show");
            assert_eq!(namespace, "dummyservices");
            assert_eq!(port, 8000);
        }
        _ => panic!("expected ClusterDns"),
    }
}

#[test]
fn invalid_urls_are_passed_over() {
    let hosts = parse_url_servers(
        "svc",
        &vec![
            s("not a url"),
            s("mailto:someone@example.com"),
            s("foo://host"),
            s("http://[2001:db8::1]:81/x"),
            s("https://Example.COM/path"),
        ],
    );
    assert_eq!(hosts.len(), 2);
    assert_eq!(hosts[0].host, "2001:db8::1");
    assert_eq!(hosts[0].port, 81);
    assert!(!hosts[0].tls);
    assert_eq!(hosts[1].host, "example.com");
    assert_eq!(hosts[1].port, 443);
    assert!(hosts[1].tls);
}

#[test]
fn targets_need_a_host_and_a_port() {
    let url = |host: Option<&str>, port: Option<u16>| UrlParts {
        text: String::new(),
        scheme: "https".into(),
        host: host.map(str::to_owned),
        port,
    };
    assert!(target_of_url(&url(None, Some(80))).is_none());
    assert!(target_of_url(&url(Some("a"), None)).is_none());
    let t = target_of_url(&url(Some("[::1]"), Some(8443))).unwrap();
    assert_eq!((t.host.as_str(), t.port, t.tls), ("::1", 8443, true));
}

#[test]
fn ips_on_the_port_of_the_first_win_over_everything_else() {
    let entry = |host: &str, port: i32| HostPort {
        host: host.into(),
        port,
        tls: false,
    };
    let entries = vec![
        entry("api.example.com", 1),
        entry("echo.foo.svc", 2),
        entry("10.0.0.1", 3),
        entry("10.0.0.2", 4),
        entry("10.0.0.3", 3),
    ];
    match classify_entries("svc", &entries, BackendKind::EnvoyBackend) {
        Classification::Ips { entries, port, tls } => {
            assert_eq!(port, 3);
            assert!(!tls);
            let texts: Vec<String> = entries.iter().map(|ip| ip.text()).collect();
            assert_eq!(texts, vec!["10.0.0.1", "10.0.0.3"]);
        }
        _ => panic!("expected Ips"),
    }
    match classify_entries("svc", &vec![entry("a.b", 1), entry("e.f.svc", 2)], BackendKind::Service)
    {
        Classification::ClusterDns { service, .. } => assert_eq!(service, "e"),
        _ => panic!("expected ClusterDns"),
    }
}

#[test]
fn cluster_dns_is_lowercased_and_may_end_in_a_dot() {
    assert_eq!(
        parse_cluster_dns("Echo.Foo.SVC."),
        Some(("echo".to_string(), "foo".to_string()))
    );
    assert_eq!(parse_cluster_dns("echo.svc"), None);
    assert_eq!(parse_cluster_dns("a.b.c"), None);
}

fn canonical(s: &str) -> Option<String> {
    IpAddr::parse(s).map(|ip| ip.text())
}

#[test]
fn ip_addresses_are_read_and_printed() {
    assert_eq!(IpAddr::parse("192.168.0.1"), Some(IpAddr::V4([192, 168, 0, 1])));
    assert_eq!(canonical("0.0.0.0").as_deref(), Some("0.0.0.0"));
    assert_eq!(canonical("255.255.255.255").as_deref(), Some("255.255.255.255"));
    assert_eq!(canonical("::").as_deref(), Some("::"));
    assert_eq!(canonical("::1").as_deref(), Some("::1"));
    assert_eq!(canonical("1::").as_deref(), Some("1::"));
    assert_eq!(
        canonical("2001:0DB8:0:0:0:0:0:1").as_deref(),
        Some("2001:db8::1")
    );
    assert_eq!(
        canonical("1:0:0:2:0:0:0:3").as_deref(),
        Some("1:0:0:2::3")
    );
    assert_eq!(
        canonical("1:0:0:2:3:0:0:4").as_deref(),
        Some("1::2:3:0:0:4")
    );
    assert_eq!(
        canonical("1:0:2:3:4:5:6:7").as_deref(),
        Some("1:0:2:3:4:5:6:7")
    );
    assert_eq!(
        canonical("::ffff:10.0.0.1").as_deref(),
        Some("::ffff:10.0.0.1")
    );
    assert_eq!(canonical("::10.0.0.1").as_deref(), Some("::a00:1"));
    assert_eq!(
        canonical("1:2:3:4:5:6:1.2.3.4").as_deref(),
        Some("1:2:3:4:5:6:102:304")
    );
    assert_eq!(
        canonical("1:2:3:4:5:6:7::").as_deref(),
        Some("1:2:3:4:5:6:7:0")
    );
}

#[test]
fn what_is_no_ip_address() {
    for s in [
        "", "1.2.3", "1.2.3.4.5", "01.2.3.4", "1.2.3.256", "1.2.3.+4", " 1.2.3.4", "1.2.3.4 ",
        ":", ":::", "1:2:3:4:5:6:7", "1:2:3:4:5:6:7:8:9", "1::2::3", "12345::", "g::",
        "1:2:3:4:5:6:7:8::", "1.2.3.4::", "::1.2.3", "[::1]", "1:2:3:4:5:6:7:1.2.3.4", "fe80::1%1",
    ] {
        assert!(IpAddr::parse(s).is_none(), "{s:?} should be refused");
    }
}

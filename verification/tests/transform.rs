//! End-to-end tests for the transform pipeline.

use serde_json::Value;

use pangolin_gateway_controller::config::scope::ReconcileScope;
use pangolin_gateway_controller::config::{BackendKind, Config, ExtAuthzConfig};
use pangolin_gateway_controller::duration::Duration;
use pangolin_gateway_controller::json::Json;
use pangolin_gateway_controller::pangolin::types::{
    HttpConfig, L4Config, L4LoadBalancer, L4Router, L4Server, L4Service, LoadBalancer,
    LoadBalancerServer, Middleware, Router, RouterTls, Service, TraefikDynamicConfig,
};
use pangolin_gateway_controller::reconcile::{apply_plan, ObjectKind};
use pangolin_gateway_controller::strmap::StrMap;
use pangolin_gateway_controller::transform::build_desired;
use pangolin_gateway_controller::transform::l4::L4Protocol;
use pangolin_gateway_controller::transform::notices::{router_notices, Block, Reason};

// ---- configurations from JSON ---------------------------------------------------------

fn json(v: &Value) -> Json {
    match v {
        Value::Null => Json::Null,
        Value::Bool(b) => Json::Bool(*b),
        Value::Number(n) => Json::Number(n.to_string()),
        Value::String(s) => Json::Text(s.clone()),
        Value::Array(items) => Json::Array(items.iter().map(json).collect()),
        Value::Object(_) => Json::Object(members(Some(v), json)),
    }
}

fn members<T>(v: Option<&Value>, read: fn(&Value) -> T) -> StrMap<T> {
    let mut out = StrMap::new();
    if let Some(map) = v.and_then(Value::as_object) {
        for (k, v) in map {
            out.insert(k.clone(), read(v));
        }
    }
    out
}

fn text(v: Option<&Value>) -> Option<String> {
    v.and_then(Value::as_str).map(str::to_owned)
}

fn list<T>(v: Option<&Value>, read: fn(&Value) -> T) -> Vec<T> {
    v.and_then(Value::as_array)
        .map(|items| items.iter().map(read).collect())
        .unwrap_or_default()
}

fn texts(v: Option<&Value>) -> Vec<String> {
    list(v, |s| s.as_str().expect("text").to_owned())
}

fn l4(v: &Value) -> L4Config {
    L4Config {
        routers: members(v.get("routers"), |r| L4Router {
            rule: text(r.get("rule")),
            service: text(r.get("service")).unwrap_or_default(),
            entry_points: texts(r.get("entryPoints")),
            tls: r.get("tls").map(json),
        }),
        services: members(v.get("services"), |s| L4Service {
            load_balancer: s.get("loadBalancer").map(|lb| L4LoadBalancer {
                servers: list(lb.get("servers"), |s| L4Server {
                    address: text(s.get("address")).unwrap_or_default(),
                }),
            }),
            weighted: s.get("weighted").map(json),
        }),
    }
}

fn decode(raw: &str) -> TraefikDynamicConfig {
    let v: Value = serde_json::from_str(raw).expect("valid JSON");
    let http = v.get("http").cloned().unwrap_or(Value::Null);
    TraefikDynamicConfig {
        http: HttpConfig {
            routers: members(http.get("routers"), |r| Router {
                rule: text(r.get("rule")).expect("rule"),
                service: text(r.get("service")).expect("service"),
                middlewares: texts(r.get("middlewares")),
                entry_points: texts(r.get("entryPoints")),
                priority: r.get("priority").and_then(Value::as_i64),
                tls: r.get("tls").map(|_| RouterTls {
                    cert_resolver: None,
                    domains: vec![],
                }),
            }),
            services: members(http.get("services"), |s| Service {
                load_balancer: s.get("loadBalancer").map(|lb| LoadBalancer {
                    servers: list(lb.get("servers"), |s| LoadBalancerServer {
                        url: text(s.get("url")).expect("url"),
                    }),
                    sticky: lb.get("sticky").map(json),
                    servers_transport: text(lb.get("serversTransport")),
                    pass_host_header: lb.get("passHostHeader").and_then(Value::as_bool),
                }),
                weighted: s.get("weighted").map(json),
                mirroring: s.get("mirroring").map(json),
            }),
            middlewares: members(http.get("middlewares"), |m| Middleware(json(m))),
            servers_transports: members(http.get("serversTransports"), json),
        },
        tcp: v.get("tcp").map(l4),
        udp: v.get("udp").map(l4),
    }
}

fn test_config() -> Config {
    Config {
        pangolin_endpoint: "http://pangolin.local/api/v1/traefik-config".into(),
        auth_header: None,
        fetch_timeout: Duration::from_secs(10),
        poll_interval: Duration::from_secs(30),
        max_backoff: Duration::from_secs(60),
        max_response_body_bytes: 1 << 20,
        tls_skip_verify: false,
        ca_file: None,
        namespace: "gateway".into(),
        parent_gateway: "eg".into(),
        parent_gateway_namespace: Some("gateway".into()),
        listener_set_name: "pangolin".into(),
        http_port: 80,
        https_port: 443,
        enable_https_listeners: true,
        enable_tcp_routes: true,
        enable_udp_routes: true,
        backend_kind: BackendKind::Service,
        ext_authz: None,
        // The upstream configurations attach badger to every non-redirect router;
        // keep them flowing through the pipeline. Auth-gating behaviour has
        // its own dedicated tests below.
        allow_unauthenticated_routes: true,
        tls_secret_template: Some("{hostname-dashed}-tls".into()),
        tls_secret_namespace: None,
        field_manager: "pangolin-gateway-controller".into(),
        managed_label_key: "app.kubernetes.io/managed-by".into(),
        managed_label_value: "pangolin-gateway-controller".into(),
        instance_label_key: "pangolin.envisia.de/instance".into(),
        instance_label_value: "default".into(),
        managed_annotation_key: "pangolin.envisia.de/source".into(),
        managed_annotation_value: "pangolin-gateway-controller".into(),
        httproute_annotations: StrMap::new(),
        listenerset_annotations: StrMap::new(),
        badger_ext_auth: None,
        pangolin_dashboard: None,
        gerbil_udp: None,
        reconcile_scope: ReconcileScope::all(),
        read_only: false,
        log_traefik_config: false,
        health_listen: None,
    }
}

fn cert_manager_config() -> Config {
    let mut cfg = test_config();
    cfg.httproute_annotations.insert(
        "cert-manager.io/cluster-issuer".into(),
        "letsencrypt-prod".into(),
    );
    cfg.listenerset_annotations.insert(
        "cert-manager.io/cluster-issuer".into(),
        "letsencrypt-prod".into(),
    );
    cfg
}

/// A configuration with badger on every router but the redirect, an IP and a cluster-DNS
/// service, and one raw TCP and one raw UDP router.
fn extended() -> TraefikDynamicConfig {
    decode(
        r#"{
        "http": {
            "routers": {
                "1-app-router": {
                    "rule": "Host(`app.example.com`)", "service": "1-app-service",
                    "entryPoints": ["websecure"], "middlewares": ["badger"],
                    "tls": { "certResolver": "letsencrypt" }
                },
                "1-app-router-redirect": {
                    "rule": "Host(`app.example.com`)", "service": "1-app-service",
                    "entryPoints": ["web"], "middlewares": ["redirect-to-https"]
                },
                "2-ip-router": {
                    "rule": "Host(`ip.example.com`) && PathPrefix(`/api`)",
                    "service": "2-ip-service", "middlewares": ["badger"]
                }
            },
            "services": {
                "1-app-service": { "loadBalancer": { "servers": [
                    { "url": "http://app.dummyservices.svc.cluster.local:8080" } ] } },
                "2-ip-service": { "loadBalancer": { "servers": [
                    { "url": "http://10.0.0.7:8080" } ] } }
            },
            "middlewares": {
                "redirect-to-https": { "redirectScheme": { "scheme": "https" } },
                "badger": { "plugin": { "badger": { "apiBaseUrl": "http://pangolin:3001/api/v1" } } }
            }
        },
        "tcp": {
            "routers": { "3-tcp-router": {
                "entryPoints": ["tcp-234"], "service": "3-tcp-service", "rule": "HostSNI(`*`)" } },
            "services": { "3-tcp-service": { "loadBalancer": { "servers": [
                { "address": "show.dummyservices.svc.cluster.local:8000" } ] } } }
        },
        "udp": {
            "routers": { "4-udp-router": {
                "entryPoints": ["udp-345"], "service": "4-udp-service" } },
            "services": { "4-udp-service": { "loadBalancer": { "servers": [
                { "address": "http://itsnew.dummyservices.svc.cluster.local:9090" } ] } } }
        }
    }"#,
    )
}

/// A configuration with cluster-DNS services only.
fn older() -> TraefikDynamicConfig {
    decode(
        r#"{
        "http": {
            "routers": {
                "1-old-router": {
                    "rule": "Host(`old.example.com`)", "service": "1-old-service",
                    "entryPoints": ["websecure"], "middlewares": ["badger"]
                },
                "1-old-router-redirect": {
                    "rule": "Host(`old.example.com`)", "service": "1-old-service",
                    "entryPoints": ["web"], "middlewares": ["redirect-to-https"]
                }
            },
            "services": {
                "1-old-service": { "loadBalancer": { "servers": [
                    { "url": "http://old.dummyservices.svc:8080" } ] } }
            },
            "middlewares": {
                "redirect-to-https": { "redirectScheme": { "scheme": "https" } },
                "badger": { "plugin": { "badger": {} } }
            }
        }
    }"#,
    )
}

#[test]
fn extended_fixture_produces_routes_and_listeners() {
    let cfg = test_config();
    let dyn_config = extended();
    let desired = build_desired(&cfg, &dyn_config);

    assert!(!desired.http_routes.is_empty(), "produced no HTTPRoutes");
    assert_eq!(desired.listener_sets.len(), 1);
    let ls = desired.listener_sets.values().into_iter().next().unwrap();
    assert!(!ls.spec.listeners.is_empty());

    for svc in desired.services.keys() {
        let suffix = svc.strip_prefix("svc-").unwrap();
        let eps_name = format!("eps-{suffix}");
        assert!(
            desired.endpoint_slices.contains_key(&eps_name),
            "missing EndpointSlice for {svc} (expected {eps_name})"
        );
    }

    for route in desired.http_routes.values() {
        let parents = route.spec.parent_refs.as_ref().expect("parentRefs");
        assert!(
            parents.iter().any(|p| p.name == cfg.listener_set_name),
            "HTTPRoute does not reference configured listener set"
        );
    }
}

#[test]
fn older_fixture_round_trips() {
    let cfg = test_config();
    let dyn_config = older();
    let desired = build_desired(&cfg, &dyn_config);
    assert!(!desired.http_routes.is_empty());
    assert_eq!(desired.listener_sets.len(), 1);
}

#[test]
fn configured_annotations_are_stamped() {
    let cfg = cert_manager_config();
    let dyn_config = extended();
    let desired = build_desired(&cfg, &dyn_config);

    for route in desired.http_routes.values() {
        let annos = route.metadata.annotations.as_ref().expect("annotations");
        assert_eq!(
            annos.get("cert-manager.io/cluster-issuer"),
            Some(&"letsencrypt-prod".to_string()),
            "HTTPRoute is missing cert-manager annotation"
        );
        assert!(annos.contains_key(&cfg.managed_annotation_key));
    }

    let ls = desired.listener_sets.values().into_iter().next().expect("listener set");
    let annos = ls.metadata.annotations.as_ref().expect("annotations");
    assert_eq!(
        annos.get("cert-manager.io/cluster-issuer"),
        Some(&"letsencrypt-prod".to_string()),
    );

    for svc in desired.services.values() {
        let a = svc.metadata.annotations.as_ref().expect("annotations");
        assert!(!a.contains_key("cert-manager.io/cluster-issuer"));
    }
}

#[test]
fn envoy_backend_mode_does_not_synthesize_services() {
    let mut cfg = test_config();
    cfg.backend_kind = BackendKind::EnvoyBackend;
    let dyn_config = older();
    let desired = build_desired(&cfg, &dyn_config);

    assert!(
        desired.services.is_empty(),
        "envoy-backend mode must not synthesize Services"
    );
    assert!(
        desired.endpoint_slices.is_empty(),
        "envoy-backend mode must not synthesize EndpointSlices"
    );

    // The upstream fixtures only carry cluster-DNS targets, which still resolve
    // to a direct Service backendRef in both modes — but never to a synthesized
    // Service object. Redirect-only routers have no backendRefs by design
    // (Gateway API CEL: RequestRedirect + backendRefs are mutually exclusive).
    for route in desired.http_routes.values() {
        for rule in route.spec.rules.as_ref().unwrap() {
            let Some(refs) = rule.backend_refs.as_ref() else {
                continue;
            };
            for r in refs {
                assert_eq!(r.kind.as_deref(), Some("Service"));
                assert_eq!(r.group.as_deref(), Some(""));
            }
        }
    }
}

#[test]
fn envoy_backend_mode_emits_ip_backend() {
    let mut cfg = test_config();
    cfg.backend_kind = BackendKind::EnvoyBackend;

    let dyn_config = decode(
        r#"{
        "http": {
            "routers": {
                "r1": { "rule": "Host(`api.example.com`)", "service": "s1" }
            },
            "services": {
                "s1": {
                    "loadBalancer": { "servers": [{"url": "http://10.0.0.7:8080"}] }
                }
            }
        }
    }"#,
    );
    let desired = build_desired(&cfg, &dyn_config);

    assert!(desired.services.is_empty());
    assert!(desired.endpoint_slices.is_empty());
    assert_eq!(desired.envoy_backends.len(), 1);

    let be = desired.envoy_backends.values().into_iter().next().unwrap();
    let ep = &be.spec.endpoints[0];
    assert_eq!(ep.ip.as_ref().unwrap().address, "10.0.0.7");
    assert_eq!(ep.ip.as_ref().unwrap().port, 8080);
    assert!(ep.fqdn.is_none());

    let route = desired.http_routes.values().into_iter().next().unwrap();
    let backend_ref = &route.spec.rules.as_ref().unwrap()[0]
        .backend_refs
        .as_ref()
        .unwrap()[0];
    assert_eq!(backend_ref.group.as_deref(), Some("gateway.envoyproxy.io"));
    assert_eq!(backend_ref.kind.as_deref(), Some("Backend"));
}

#[test]
fn envoy_backend_mode_emits_fqdn_endpoint() {
    let mut cfg = test_config();
    cfg.backend_kind = BackendKind::EnvoyBackend;

    let dyn_config = decode(
        r#"{
        "http": {
            "routers": {
                "r1": { "rule": "Host(`pangolin.example.com`)", "service": "s1" }
            },
            "services": {
                "s1": {
                    "loadBalancer": { "servers": [{"url": "https://upstream.example.com"}] }
                }
            }
        }
    }"#,
    );
    let desired = build_desired(&cfg, &dyn_config);

    assert_eq!(desired.envoy_backends.len(), 1);
    let be = desired.envoy_backends.values().into_iter().next().unwrap();
    let ep = &be.spec.endpoints[0];
    assert!(ep.ip.is_none());
    let fqdn = ep.fqdn.as_ref().expect("fqdn");
    assert_eq!(fqdn.hostname, "upstream.example.com");
    assert_eq!(fqdn.port, 443);
}

#[test]
fn service_mode_drops_bare_fqdn() {
    let cfg = test_config(); // service mode

    let dyn_config = decode(
        r#"{
        "http": {
            "routers": {
                "r1": { "rule": "Host(`pangolin.example.com`)", "service": "s1" }
            },
            "services": {
                "s1": {
                    "loadBalancer": { "servers": [{"url": "https://upstream.example.com"}] }
                }
            }
        }
    }"#,
    );
    let desired = build_desired(&cfg, &dyn_config);

    // Router referenced a service that couldn't be resolved -> no HTTPRoute.
    assert!(desired.http_routes.is_empty());
    assert!(desired.services.is_empty());
    assert!(desired.envoy_backends.is_empty());
}

#[test]
fn extended_fixture_emits_l4_routes() {
    let cfg = test_config(); // enable_tcp_routes/enable_udp_routes are on
    let dyn_config = extended();
    let desired = build_desired(&cfg, &dyn_config);

    // Fixture carries one raw TCP router (entrypoint tcp-234) and one raw UDP
    // router (entrypoint udp-345), both targeting cluster-DNS services.
    assert_eq!(desired.tcp_routes.len(), 1, "expected one TCPRoute");
    assert_eq!(desired.udp_routes.len(), 1, "expected one UDPRoute");

    let ls = desired.listener_sets.values().into_iter().next().expect("listener set");
    let tcp_listener = ls
        .spec
        .listeners
        .iter()
        .find(|l| l.protocol == "TCP")
        .expect("TCP listener");
    assert_eq!(tcp_listener.port, 234);
    assert_eq!(tcp_listener.name, "tcp-234");
    assert!(tcp_listener.hostname.is_none());
    assert!(tcp_listener.tls.is_none());

    let udp_listener = ls
        .spec
        .listeners
        .iter()
        .find(|l| l.protocol == "UDP")
        .expect("UDP listener");
    assert_eq!(udp_listener.port, 345);
    assert_eq!(udp_listener.name, "udp-345");

    let tcp_route = desired.tcp_routes.values().into_iter().next().unwrap();
    let parents = tcp_route.spec.parent_refs.as_ref().expect("parentRefs");
    assert_eq!(parents.len(), 1);
    assert_eq!(parents[0].kind.as_deref(), Some("ListenerSet"));
    assert_eq!(parents[0].name, cfg.listener_set_name);
    assert_eq!(parents[0].section_name.as_deref(), Some("tcp-234"));
    let tcp_backend = &tcp_route.spec.rules[0].backend_refs[0];
    assert_eq!(tcp_backend.kind.as_deref(), Some("Service"));
    assert_eq!(tcp_backend.name, "show");
    assert_eq!(tcp_backend.namespace.as_deref(), Some("dummyservices"));
    assert_eq!(tcp_backend.port, Some(8000));

    // The UDP fixture address carries a stray `http://` scheme — it must still
    // classify as the cluster-DNS service behind it.
    let udp_route = desired.udp_routes.values().into_iter().next().unwrap();
    let udp_backend = &udp_route.spec.rules[0].backend_refs[0];
    assert_eq!(udp_backend.kind.as_deref(), Some("Service"));
    assert_eq!(udp_backend.name, "itsnew");
    assert_eq!(udp_backend.namespace.as_deref(), Some("dummyservices"));
    assert_eq!(udp_backend.port, Some(9090));
}

#[test]
fn l4_disabled_flags_drop_l4_blocks() {
    let mut cfg = test_config();
    cfg.enable_tcp_routes = false;
    cfg.enable_udp_routes = false;
    let dyn_config = extended();
    let desired = build_desired(&cfg, &dyn_config);

    assert!(desired.tcp_routes.is_empty());
    assert!(desired.udp_routes.is_empty());
    let ls = desired.listener_sets.values().into_iter().next().expect("listener set");
    assert!(
        ls.spec
            .listeners
            .iter()
            .all(|l| l.protocol == "HTTP" || l.protocol == "HTTPS"),
        "no L4 listeners may be emitted when the flags are off"
    );
}

#[test]
fn l4_ip_backend_in_envoy_mode_emits_backend_crd() {
    let mut cfg = test_config();
    cfg.backend_kind = BackendKind::EnvoyBackend;

    let dyn_config = decode(
        r#"{
        "tcp": {
            "routers": {
                "db-router": {
                    "entryPoints": ["tcp-5432"],
                    "service": "db-service",
                    "rule": "HostSNI(`*`)"
                }
            },
            "services": {
                "db-service": {
                    "loadBalancer": { "servers": [{ "address": "10.0.0.9:5432" }] }
                }
            }
        }
    }"#,
    );
    let desired = build_desired(&cfg, &dyn_config);

    assert!(desired.services.is_empty());
    assert!(desired.endpoint_slices.is_empty());
    assert_eq!(desired.envoy_backends.len(), 1);
    let be_name = desired.envoy_backends.keys()[0];
    let be = desired.envoy_backends.values()[0];
    assert!(
        be_name.starts_with("be-tcp-"),
        "L4 Backend names carry the protocol infix, got {be_name}"
    );
    let ip = be.spec.endpoints[0].ip.as_ref().expect("ip endpoint");
    assert_eq!(ip.address, "10.0.0.9");
    assert_eq!(ip.port, 5432);

    let route = desired.tcp_routes.values().into_iter().next().expect("TCPRoute");
    let backend_ref = &route.spec.rules[0].backend_refs[0];
    assert_eq!(backend_ref.group.as_deref(), Some("gateway.envoyproxy.io"));
    assert_eq!(backend_ref.kind.as_deref(), Some("Backend"));
    assert_eq!(backend_ref.name, *be_name);
}

#[test]
fn l4_udp_ip_backend_in_service_mode_uses_udp_protocol() {
    let cfg = test_config(); // service mode

    let dyn_config = decode(
        r#"{
        "udp": {
            "routers": {
                "dns-router": {
                    "entryPoints": ["udp-53"],
                    "service": "dns-service"
                }
            },
            "services": {
                "dns-service": {
                    "loadBalancer": { "servers": [{ "address": "10.0.0.53:53" }] }
                }
            }
        }
    }"#,
    );
    let desired = build_desired(&cfg, &dyn_config);

    assert_eq!(desired.udp_routes.len(), 1);
    assert_eq!(desired.services.len(), 1);
    let svc = desired.services.values().into_iter().next().unwrap();
    let port = &svc.spec.as_ref().unwrap().ports.as_ref().unwrap()[0];
    assert_eq!(port.protocol.as_deref(), Some("UDP"));

    let eps = desired.endpoint_slices.values().into_iter().next().unwrap();
    let eps_port = &eps.ports.as_ref().unwrap()[0];
    assert_eq!(eps_port.protocol.as_deref(), Some("UDP"));
}

#[test]
fn l4_concrete_sni_router_is_skipped() {
    let cfg = test_config();
    let dyn_config = decode(
        r#"{
        "tcp": {
            "routers": {
                "sni-router": {
                    "entryPoints": ["tcp-8883"],
                    "service": "mqtt-service",
                    "rule": "HostSNI(`mqtt.example.com`)"
                }
            },
            "services": {
                "mqtt-service": {
                    "loadBalancer": { "servers": [{ "address": "10.0.0.4:8883" }] }
                }
            }
        }
    }"#,
    );
    let desired = build_desired(&cfg, &dyn_config);

    assert!(
        desired.tcp_routes.is_empty(),
        "concrete SNI needs TLSRoute and must be skipped, not misrouted"
    );
    let ls = desired.listener_sets.values().into_iter().next().expect("listener set");
    assert!(ls.spec.listeners.iter().all(|l| l.protocol != "TCP"));
}

#[test]
fn https_ip_target_gets_backend_tls_in_envoy_mode() {
    let mut cfg = test_config();
    cfg.backend_kind = BackendKind::EnvoyBackend;

    let dyn_config = decode(
        r#"{
        "http": {
            "routers": {
                "r1": { "rule": "Host(`a.example.com`)", "service": "verified" },
                "r2": { "rule": "Host(`b.example.com`)", "service": "skipped" }
            },
            "services": {
                "verified": {
                    "loadBalancer": { "servers": [{ "url": "https://10.0.0.8:8443" }] }
                },
                "skipped": {
                    "loadBalancer": {
                        "servers": [{ "url": "https://10.0.0.9:8443" }],
                        "serversTransport": "skip-tls"
                    }
                }
            },
            "serversTransports": {
                "skip-tls": { "insecureSkipVerify": true }
            }
        }
    }"#,
    );
    let desired = build_desired(&cfg, &dyn_config);

    assert_eq!(desired.envoy_backends.len(), 2);
    let verified = desired
        .envoy_backends
        .values()
        .into_iter()
        .find(|b| b.spec.endpoints[0].ip.as_ref().unwrap().address == "10.0.0.8")
        .expect("verified backend");
    let tls = verified.spec.tls.as_ref().expect("tls settings");
    assert_eq!(tls.well_known_ca_certificates.as_deref(), Some("System"));
    assert_eq!(tls.insecure_skip_verify, None);

    let skipped = desired
        .envoy_backends
        .values()
        .into_iter()
        .find(|b| b.spec.endpoints[0].ip.as_ref().unwrap().address == "10.0.0.9")
        .expect("skip-verify backend");
    let tls = skipped.spec.tls.as_ref().expect("tls settings");
    assert_eq!(tls.insecure_skip_verify, Some(true));
    assert_eq!(tls.well_known_ca_certificates, None);
}

#[test]
fn plain_http_targets_get_no_backend_tls() {
    let mut cfg = test_config();
    cfg.backend_kind = BackendKind::EnvoyBackend;
    let dyn_config = decode(
        r#"{
        "http": {
            "routers": { "r1": { "rule": "Host(`a.example.com`)", "service": "s1" } },
            "services": {
                "s1": { "loadBalancer": { "servers": [{ "url": "http://10.0.0.8:8080" }] } }
            }
        }
    }"#,
    );
    let desired = build_desired(&cfg, &dyn_config);
    assert!(
        desired
            .envoy_backends
            .values()
            .into_iter()
            .next()
            .unwrap()
            .spec
            .tls
            .is_none()
    );
    assert!(desired.backend_tls_policies.is_empty());
}

#[test]
fn https_cluster_dns_in_envoy_mode_wraps_in_backend() {
    let mut cfg = test_config();
    cfg.backend_kind = BackendKind::EnvoyBackend;
    let dyn_config = decode(
        r#"{
        "http": {
            "routers": { "r1": { "rule": "Host(`a.example.com`)", "service": "s1" } },
            "services": {
                "s1": {
                    "loadBalancer": {
                        "servers": [{ "url": "https://echo.other-ns.svc.cluster.local:8443" }]
                    }
                }
            }
        }
    }"#,
    );
    let desired = build_desired(&cfg, &dyn_config);

    // TLS needs a Backend wrapper instead of the direct Service backendRef.
    assert_eq!(desired.envoy_backends.len(), 1);
    let be = desired.envoy_backends.values().into_iter().next().unwrap();
    let fqdn = be.spec.endpoints[0].fqdn.as_ref().expect("fqdn endpoint");
    assert_eq!(fqdn.hostname, "echo.other-ns.svc.cluster.local");
    let tls = be.spec.tls.as_ref().expect("tls settings");
    assert_eq!(tls.sni.as_deref(), Some("echo.other-ns.svc.cluster.local"));

    let route = desired.http_routes.values().into_iter().next().unwrap();
    let backend_ref = &route.spec.rules.as_ref().unwrap()[0]
        .backend_refs
        .as_ref()
        .unwrap()[0];
    assert_eq!(backend_ref.kind.as_deref(), Some("Backend"));
}

#[test]
fn https_cluster_dns_in_service_mode_emits_backend_tls_policy() {
    let cfg = test_config(); // service mode; cfg.namespace == "gateway"
    let dyn_config = decode(
        r#"{
        "http": {
            "routers": {
                "same-ns": { "rule": "Host(`a.example.com`)", "service": "same-ns-svc" },
                "cross-ns": { "rule": "Host(`b.example.com`)", "service": "cross-ns-svc" }
            },
            "services": {
                "same-ns-svc": {
                    "loadBalancer": { "servers": [{ "url": "https://echo.gateway.svc.cluster.local:8443" }] }
                },
                "cross-ns-svc": {
                    "loadBalancer": { "servers": [{ "url": "https://echo.elsewhere.svc.cluster.local:8443" }] }
                }
            }
        }
    }"#,
    );
    let desired = build_desired(&cfg, &dyn_config);

    // Policies are local objects: only the same-namespace target can get one.
    assert_eq!(desired.backend_tls_policies.len(), 1);
    let btp = desired.backend_tls_policies.values().into_iter().next().unwrap();
    assert_eq!(btp.spec.target_refs[0].kind, "Service");
    assert_eq!(btp.spec.target_refs[0].name, "echo");
    assert_eq!(
        btp.spec.validation.hostname,
        "echo.gateway.svc.cluster.local"
    );
    assert_eq!(
        btp.spec.validation.well_known_ca_certificates.as_deref(),
        Some("System")
    );
    // Both routes still emit — the cross-ns one is warned about, not dropped.
    assert_eq!(desired.http_routes.len(), 2);
}

#[test]
fn custom_host_header_becomes_url_rewrite() {
    let cfg = test_config();
    // The real-fixture shape: headers middleware with Host + another header,
    // alongside a path-rewriting middleware on the same router.
    let dyn_config = decode(
        r#"{
        "http": {
            "routers": {
                "r1": {
                    "rule": "Host(`a.example.com`)",
                    "service": "s1",
                    "middlewares": ["hostset", "prefix"]
                }
            },
            "services": {
                "s1": { "loadBalancer": { "servers": [{ "url": "http://10.0.0.8:8080" }] } }
            },
            "middlewares": {
                "hostset": {
                    "headers": {
                        "customRequestHeaders": { "Host": "internal.example.com", "X-Extra": "1" },
                        "customResponseHeaders": { "X-Resp": "2" }
                    }
                },
                "prefix": { "addPrefix": { "prefix": "/api" } }
            }
        }
    }"#,
    );
    let desired = build_desired(&cfg, &dyn_config);

    let route = desired.http_routes.values().into_iter().next().expect("route");
    let filters = route.spec.rules.as_ref().unwrap()[0]
        .filters
        .as_ref()
        .expect("filters");

    // Exactly one URLRewrite carrying BOTH the hostname (from the Host header)
    // and the path rewrite (from addPrefix) — Gateway API allows the filter
    // only once per rule.
    let rewrites: Vec<_> = filters
        .iter()
        .filter_map(|f| f.url_rewrite.as_ref())
        .collect();
    assert_eq!(
        rewrites.len(),
        1,
        "URLRewrite must be merged into one filter"
    );
    assert_eq!(
        rewrites[0].hostname.as_deref(),
        Some("internal.example.com")
    );
    assert!(
        rewrites[0].path.is_some(),
        "path rewrite must survive the merge"
    );

    // Host must NOT appear as a header modification…
    let req_mod = filters
        .iter()
        .find_map(|f| f.request_header_modifier.as_ref())
        .expect("request header modifier");
    let names: Vec<_> = req_mod
        .set
        .as_ref()
        .unwrap()
        .iter()
        .map(|s| s.name.as_str())
        .collect();
    assert!(!names.iter().any(|n| n.eq_ignore_ascii_case("host")));
    assert!(names.contains(&"X-Extra"));

    // …and the response headers must survive alongside the request headers.
    let resp_mod = filters
        .iter()
        .find_map(|f| f.response_header_modifier.as_ref())
        .expect("response header modifier");
    assert_eq!(resp_mod.set.as_ref().unwrap()[0].name, "X-Resp");
}

/// Minimal config with one badger-protected router and one redirect router —
/// the shape real pangolin emits for an HTTP resource.
fn badger_fixture() -> TraefikDynamicConfig {
    decode(
        r#"{
        "http": {
            "routers": {
                "1-app-router": {
                    "rule": "Host(`app.example.com`)",
                    "service": "app-service",
                    "entryPoints": ["websecure"],
                    "middlewares": ["badger"]
                },
                "1-app-router-redirect": {
                    "rule": "Host(`app.example.com`)",
                    "service": "app-service",
                    "entryPoints": ["web"],
                    "middlewares": ["redirect-to-https"]
                }
            },
            "services": {
                "app-service": {
                    "loadBalancer": { "servers": [{ "url": "http://10.0.0.7:8080" }] }
                }
            },
            "middlewares": {
                "redirect-to-https": { "redirectScheme": { "scheme": "https" } },
                "badger": {
                    "plugin": {
                        "badger": {
                            "apiBaseUrl": "http://pangolin.pangolin-system.svc.cluster.local:3001/api/v1",
                            "userSessionCookieName": "p_session_token"
                        }
                    }
                }
            }
        }
    }"#,
    )
}

#[test]
fn protected_router_skipped_without_ext_authz() {
    let mut cfg = test_config();
    cfg.allow_unauthenticated_routes = false; // the production default
    let desired = build_desired(&cfg, &badger_fixture());

    // The badger-protected router must be dropped; the redirect router (no
    // auth — it only bounces to HTTPS) still emits.
    assert_eq!(
        desired.http_routes.len(),
        1,
        "only the redirect route may be emitted: {:?}",
        desired.http_routes.keys()
    );
    assert!(
        desired
            .http_routes
            .keys()
            .into_iter()
            .all(|name| name.contains("redirect")),
        "the protected route leaked through"
    );
    assert!(desired.security_policies.is_empty());
}

#[test]
fn protected_router_emitted_with_override() {
    let mut cfg = test_config();
    cfg.allow_unauthenticated_routes = true;
    let desired = build_desired(&cfg, &badger_fixture());

    assert_eq!(desired.http_routes.len(), 2);
    assert!(desired.security_policies.is_empty());
}

#[test]
fn ext_authz_emits_security_policy_for_protected_route() {
    let mut cfg = test_config();
    cfg.allow_unauthenticated_routes = false;
    cfg.ext_authz = Some(ExtAuthzConfig {
        service: "badger-shim".into(),
        namespace: None,
        port: 9001,
        path: Some("/verify".into()),
        headers_to_ext_auth: vec!["cookie".into(), "authorization".into()],
        headers_to_backend: vec![],
    });
    let desired = build_desired(&cfg, &badger_fixture());

    // Both routes emit; only the protected one gets a SecurityPolicy.
    assert_eq!(desired.http_routes.len(), 2);
    assert_eq!(desired.security_policies.len(), 1);

    let sp = desired.security_policies.values().into_iter().next().unwrap();
    let target = &sp.spec.target_refs[0];
    assert_eq!(target.kind, "HTTPRoute");
    assert!(
        desired.http_routes.contains_key(&target.name),
        "policy must target an emitted route, got {}",
        target.name
    );
    assert!(
        !target.name.contains("redirect"),
        "policy must target the protected route, not the redirect"
    );

    let ext = sp.spec.ext_auth.as_ref().expect("extAuth");
    assert_eq!(ext.fail_open, Some(false), "auth outages must fail closed");
    let http = ext.http.as_ref().expect("http ext auth");
    assert_eq!(http.backend_refs[0].name, "badger-shim");
    assert_eq!(http.backend_refs[0].port, Some(9001));
    assert_eq!(http.path.as_deref(), Some("/verify"));
    assert_eq!(
        ext.headers_to_ext_auth.as_deref(),
        Some(&["cookie".to_string(), "authorization".to_string()][..])
    );
}

#[test]
fn real_fixtures_protected_routes_gated_by_default() {
    // The upstream fixtures carry badger on every non-redirect router. With
    // production defaults (no ext-authz, no override) only redirect routers
    // survive — nothing protected may leak.
    let mut cfg = test_config();
    cfg.allow_unauthenticated_routes = false;

    for (fixture, config) in [("extended", extended()), ("older", older())] {
        let desired = build_desired(&cfg, &config);
        for name in desired.http_routes.keys() {
            assert!(
                name.contains("redirect"),
                "{fixture}: protected route {name} emitted without auth"
            );
        }
    }
}

#[test]
fn redirect_router_drops_backend_refs() {
    // Gateway API CEL forbids combining a RequestRedirect filter with
    // backendRefs. Pangolin emits exactly this shape for its
    // `redirect-to-https` router, so the controller has to suppress the
    // backendRef on the resulting rule or admission rejects the HTTPRoute.
    let cfg = test_config();
    let dyn_config = decode(
        r#"{
        "http": {
            "routers": {
                "plain-router": {
                    "rule": "Host(`web.example.com`)",
                    "service": "web-service",
                    "entryPoints": ["websecure"]
                },
                "redirect-router": {
                    "rule": "Host(`web.example.com`)",
                    "service": "web-service",
                    "entryPoints": ["web"],
                    "middlewares": ["to-https"]
                }
            },
            "services": {
                "web-service": {
                    "loadBalancer": { "servers": [{ "url": "http://10.0.0.7:8080" }] }
                }
            },
            "middlewares": {
                "to-https": { "redirectScheme": { "scheme": "https" } }
            }
        }
    }"#,
    );
    let desired = build_desired(&cfg, &dyn_config);

    assert_eq!(desired.http_routes.len(), 2, "both routers should emit");

    let plain = desired
        .http_routes
        .values()
        .into_iter()
        .find(|r| r.metadata.name.as_deref().unwrap().contains("plain-router"))
        .expect("plain router");
    let redirect = desired
        .http_routes
        .values()
        .into_iter()
        .find(|r| {
            r.metadata
                .name
                .as_deref()
                .unwrap()
                .contains("redirect-router")
        })
        .expect("redirect router");

    let plain_rule = &plain.spec.rules.as_ref().unwrap()[0];
    let redirect_rule = &redirect.spec.rules.as_ref().unwrap()[0];

    // Plain router proxies to backend → backendRefs present.
    assert!(
        plain_rule
            .backend_refs
            .as_ref()
            .is_some_and(|refs| !refs.is_empty()),
        "plain HTTPRoute must keep its backendRefs"
    );
    assert!(
        plain_rule.filters.as_ref().is_none_or(Vec::is_empty),
        "plain HTTPRoute should have no filters"
    );

    // Redirect router terminates → backendRefs must be absent.
    assert!(
        redirect_rule.backend_refs.is_none(),
        "redirect HTTPRoute must NOT carry backendRefs (Gateway API CEL forbids it)"
    );
    let filters = redirect_rule
        .filters
        .as_ref()
        .expect("redirect HTTPRoute must carry filters");
    assert_eq!(filters.len(), 1);
    assert!(filters[0].request_redirect.is_some());
}

#[test]
fn applied_objects_come_in_order() {
    let mut cfg = test_config();
    cfg.ext_authz = Some(ExtAuthzConfig {
        service: "badger-shim".into(),
        namespace: None,
        port: 9001,
        path: None,
        headers_to_ext_auth: vec![],
        headers_to_backend: vec!["remote-user".into()],
    });
    let desired = build_desired(&cfg, &extended());
    let kinds: Vec<ObjectKind> = apply_plan(&desired).iter().map(|s| s.kind).collect();
    assert_eq!(
        kinds,
        vec![
            ObjectKind::Service,
            ObjectKind::EndpointSlice,
            ObjectKind::ListenerSet,
            ObjectKind::SecurityPolicy,
            ObjectKind::SecurityPolicy,
            ObjectKind::HttpRoute,
            ObjectKind::HttpRoute,
            ObjectKind::HttpRoute,
            ObjectKind::TcpRoute,
            ObjectKind::UdpRoute,
        ]
    );
    let sp = desired.security_policies.get("sp-hr-2-ip-router").expect("policy");
    let ext = sp.spec.ext_auth.as_ref().unwrap();
    assert!(ext.headers_to_ext_auth.is_none());
    assert_eq!(
        ext.http.as_ref().unwrap().headers_to_backend.as_deref(),
        Some(&["remote-user".to_string()][..])
    );
}

#[test]
fn listeners_are_sorted_by_host_and_https_follows() {
    let desired = build_desired(&test_config(), &extended());
    let ls = desired.listener_sets.get("pangolin").expect("listener set");
    let names: Vec<&str> = ls.spec.listeners.iter().map(|l| l.name.as_str()).collect();
    assert_eq!(
        names,
        vec![
            "http-app-example-com",
            "http-ip-example-com",
            "https-app-example-com",
            "tcp-234",
            "udp-345",
        ]
    );
    let tls = ls.spec.listeners[2].tls.as_ref().unwrap();
    assert_eq!(
        tls.certificate_refs.as_ref().unwrap()[0].name,
        "app-example-com-tls"
    );
    assert_eq!(ls.spec.parent_ref.name, "eg");
}

#[test]
fn a_port_belongs_to_the_first_router_that_names_it() {
    let cfg = test_config();
    let dyn_config = decode(
        r#"{
        "tcp": {
            "routers": {
                "a": { "entryPoints": ["tcp-1000", "tcp-443", "tcp-1000", "web"], "service": "s" },
                "b": { "entryPoints": ["tcp-1000", "tcp-80"], "service": "s" },
                "c": { "entryPoints": ["tcp-1001"], "service": "missing" },
                "d": { "entryPoints": ["tcp-1000", "tcp-1002"], "service": "s" }
            },
            "services": {
                "s": { "loadBalancer": { "servers": [{ "address": "10.0.0.1:1" }] } }
            }
        }
    }"#,
    );
    let desired = build_desired(&cfg, &dyn_config);
    let keys: Vec<&str> = desired.tcp_routes.keys().into_iter().map(String::as_str).collect();
    assert_eq!(keys, vec!["tcp-a", "tcp-d"]);
    let ls = desired.listener_sets.get("pangolin").unwrap();
    let ports: Vec<i32> = ls.spec.listeners.iter().map(|l| l.port).collect();
    assert_eq!(ports, vec![1000, 1002]);
}

#[test]
fn services_and_slices_come_in_pairs() {
    let desired = build_desired(&test_config(), &extended());
    let slice = desired.endpoint_slices.get("eps-2-ip-service").expect("slice");
    assert_eq!(
        slice
            .metadata
            .labels
            .as_ref()
            .unwrap()
            .get("kubernetes.io/service-name")
            .map(String::as_str),
        Some("svc-2-ip-service")
    );
    assert_eq!(slice.address_type, "IPv4");
    assert_eq!(slice.endpoints[0].addresses, vec!["10.0.0.7"]);
    let svc = desired.services.get("svc-2-ip-service").expect("service");
    let spec = svc.spec.as_ref().unwrap();
    assert_eq!(spec.cluster_ip.as_deref(), Some("None"));
    assert_eq!(spec.ports.as_ref().unwrap()[0].target_port, Some(8080));
}

#[test]
fn unsupported_middlewares_are_dropped_and_rewrites_merged() {
    let cfg = test_config();
    let dyn_config = decode(
        r#"{
        "http": {
            "routers": {
                "r": {
                    "rule": "Host(`a.example.com`)", "service": "s",
                    "middlewares": ["regex", "missing", "strip", "full", "h1", "h2", "to-http"]
                }
            },
            "services": { "s": { "loadBalancer": { "servers": [{ "url": "http://10.0.0.8" }] } } },
            "middlewares": {
                "regex": { "replacePathRegex": { "regex": "x" } },
                "strip": { "stripPrefix": { "prefixes": ["/x"] } },
                "full": { "replacePath": { "path": "/y" } },
                "h1": { "headers": { "customRequestHeaders": { "host": "one", "A": "1", "N": 2 } } },
                "h2": { "headers": { "customRequestHeaders": { "HOST": "two", "B": "2" } } },
                "to-http": { "redirectScheme": { "scheme": "http", "port": "8080" } }
            }
        }
    }"#,
    );
    let desired = build_desired(&cfg, &dyn_config);
    let route = desired.http_routes.get("hr-r").expect("route");
    let rule = &route.spec.rules.as_ref().unwrap()[0];
    let filters = rule.filters.as_ref().unwrap();
    assert_eq!(filters.len(), 3);
    let redirect = filters[0].request_redirect.as_ref().unwrap();
    assert_eq!(redirect.port, Some(8080));
    let set = filters[1].request_header_modifier.as_ref().unwrap().set.as_ref().unwrap();
    let pairs: Vec<(&str, &str)> =
        set.iter().map(|h| (h.name.as_str(), h.value.as_str())).collect();
    assert_eq!(pairs, vec![("A", "1"), ("B", "2")]);
    let rewrite = filters[2].url_rewrite.as_ref().unwrap();
    assert_eq!(rewrite.hostname.as_deref(), Some("two"), "the last hostname wins");
    let path = rewrite.path.as_ref().unwrap();
    assert_eq!(
        path.replace_prefix_match.as_deref(),
        Some(""),
        "the first path wins"
    );
    assert!(rule.backend_refs.is_none());
}

#[test]
fn a_missing_middleware_named_badger_protects() {
    let mut cfg = test_config();
    cfg.allow_unauthenticated_routes = false;
    let dyn_config = decode(
        r#"{
        "http": {
            "routers": {
                "r": { "rule": "Host(`a`)", "service": "s", "middlewares": ["badger"] },
                "q": { "rule": "Host(`b`)", "service": "s", "middlewares": ["other"] }
            },
            "services": { "s": { "loadBalancer": { "servers": [{ "url": "http://10.0.0.8" }] } } }
        }
    }"#,
    );
    let desired = build_desired(&cfg, &dyn_config);
    let keys: Vec<&str> = desired.http_routes.keys().into_iter().map(String::as_str).collect();
    assert_eq!(keys, vec!["hr-q"]);
}

#[test]
fn unusable_rules_and_unknown_services_are_skipped() {
    let dyn_config = decode(
        r#"{
        "http": {
            "routers": {
                "a": { "rule": "Host(`a`) || Host(`b`)", "service": "s" },
                "b": { "rule": "Method(`GET`)", "service": "s" },
                "c": { "rule": "Host(`c`)", "service": "nobody" },
                "d": { "rule": "Host(`d`) && PathRegexp(`^/x`)", "service": "s" }
            },
            "services": {
                "s": { "loadBalancer": { "servers": [{ "url": "http://[2001:db8:0:0::1]:8080" }] } },
                "w": { "weighted": {} },
                "e": { "loadBalancer": { "servers": [] } }
            }
        }
    }"#,
    );
    let desired = build_desired(&test_config(), &dyn_config);
    assert_eq!(desired.http_routes.len(), 1);
    let route = desired.http_routes.get("hr-d").expect("route");
    let m = &route.spec.rules.as_ref().unwrap()[0].matches.as_ref().unwrap()[0];
    assert_eq!(m.path.as_ref().unwrap().value.as_deref(), Some("^/x"));
    assert_eq!(desired.services.len(), 1);
    let slice = desired.endpoint_slices.get("eps-s").unwrap();
    assert_eq!(slice.endpoints[0].addresses, vec!["2001:db8::1"]);
}

#[test]
fn unchecked_tls_gets_no_policy_in_service_mode() {
    let cfg = test_config();
    let dyn_config = decode(
        r#"{
        "http": {
            "services": {
                "s": { "loadBalancer": {
                    "servers": [{ "url": "https://echo.gateway.svc:8443" }],
                    "serversTransport": "skip" } },
                "t": { "loadBalancer": { "servers": [{ "url": "https://10.0.0.9:8443" }] } }
            },
            "serversTransports": { "skip": { "insecureSkipVerify": true } }
        }
    }"#,
    );
    let desired = build_desired(&cfg, &dyn_config);
    assert!(desired.backend_tls_policies.is_empty());
    assert!(desired.envoy_backends.is_empty());
    assert_eq!(desired.services.len(), 1);
}

#[test]
fn raw_routes_attach_to_listeners_and_resolve() {
    let cfg = test_config();
    let dyn_config = decode(
        r#"{
        "tcp": {
            "routers": { "db": { "entryPoints": ["tcp-5432", "tcp-5433"], "service": "s" } },
            "services": { "s": { "loadBalancer": { "servers": [{ "address": "10.0.0.1:1" }] } } }
        },
        "udp": {
            "routers": { "dns": { "entryPoints": ["udp-53"], "service": "s" } },
            "services": { "s": { "loadBalancer": { "servers": [{ "address": "10.0.0.2:2" }] } } }
        }
    }"#,
    );
    let desired = build_desired(&cfg, &dyn_config);
    let listeners = &desired.listener_sets.get("pangolin").unwrap().spec.listeners;
    for (route, protocol, sections) in [
        (desired.tcp_routes.get("tcp-db").unwrap(), "TCP", vec!["tcp-5432", "tcp-5433"]),
        (desired.udp_routes.get("udp-dns").unwrap(), "UDP", vec!["udp-53"]),
    ] {
        let parents = route.spec.parent_refs.as_ref().unwrap();
        let named: Vec<&str> = parents.iter().filter_map(|p| p.section_name.as_deref()).collect();
        assert_eq!(named, sections);
        for section in sections {
            assert!(listeners.iter().any(|l| l.name == section && l.protocol == protocol));
        }
        let backend = &route.spec.rules[0].backend_refs[0];
        assert_eq!(backend.kind.as_deref(), Some("Service"));
        assert!(desired.services.get(&backend.name).is_some());
    }
}

#[test]
fn routes_serve_the_hosts_of_their_rules() {
    let dyn_config = decode(
        r#"{
        "http": {
            "routers": {
                "good": { "rule": "Host(`a.example.com`, `b.example.com`)", "service": "s" },
                "either": { "rule": "Host(`c.example.com`) || Host(`d.example.com`)", "service": "s" },
                "method": { "rule": "Host(`e.example.com`) && Method(`GET`)", "service": "s" }
            },
            "services": { "s": { "loadBalancer": { "servers": [{ "url": "http://10.0.0.1:1" }] } } }
        }
    }"#,
    );
    let desired = build_desired(&test_config(), &dyn_config);
    assert_eq!(desired.http_routes.len(), 1);
    let route = desired.http_routes.values()[0];
    assert_eq!(
        route.spec.hostnames,
        Some(vec!["a.example.com".to_string(), "b.example.com".to_string()])
    );
}

#[test]
fn routes_name_the_listener_set_as_configured() {
    for (name, written) in [("edge-pangolin", "edge-pangolin"), ("edge.pangolin", "edge-pangolin")] {
        let mut cfg = test_config();
        cfg.listener_set_name = name.into();
        let desired = build_desired(&cfg, &extended());
        assert!(desired.listener_sets.get(written).is_some());
        assert!(!desired.http_routes.is_empty());
        for route in desired.http_routes.values() {
            assert_eq!(route.spec.parent_refs.as_ref().unwrap()[0].name, name);
        }
        for route in desired.tcp_routes.values().into_iter().chain(desired.udp_routes.values()) {
            for parent in route.spec.parent_refs.as_ref().unwrap() {
                assert_eq!(parent.name, name);
            }
        }
    }
}

#[test]
fn each_raw_family_is_switched_off_by_itself() {
    let mut cfg = test_config();
    cfg.enable_tcp_routes = false;
    let desired = build_desired(&cfg, &extended());
    assert!(desired.tcp_routes.is_empty());
    assert!(!desired.udp_routes.is_empty());
    let listeners = &desired.listener_sets.get("pangolin").unwrap().spec.listeners;
    assert!(listeners.iter().all(|l| l.protocol != "TCP"));
    assert!(listeners.iter().any(|l| l.protocol == "UDP"));
}

fn reasons(cfg: &Config, dyn_config: &TraefikDynamicConfig) -> Vec<(Block, String, Reason)> {
    router_notices(cfg, dyn_config)
        .into_iter()
        .map(|n| (n.block, n.router, n.reason))
        .collect()
}

#[test]
fn skipped_routers_are_reported_with_their_reasons() {
    let dyn_config = decode(
        r#"{
        "http": {
            "routers": {
                "a-good": { "rule": "Host(`a.example.com`)", "service": "s" },
                "b-rule": { "rule": "HostRegexp(`.*`)", "service": "s" },
                "c-auth": { "rule": "Host(`c.example.com`)", "service": "s", "middlewares": ["badger"] },
                "d-lost": { "rule": "Host(`d.example.com`)", "service": "missing" },
                "e-both": { "rule": "Host(`e.example.com`)", "service": "missing", "middlewares": ["badger"] }
            },
            "services": { "s": { "loadBalancer": { "servers": [{ "url": "http://10.0.0.1:1" }] } } }
        },
        "tcp": {
            "routers": {
                "a": { "entryPoints": ["tcp-1000"], "service": "s" },
                "b": { "entryPoints": ["tcp-1000"], "service": "s" },
                "c": { "entryPoints": ["tcp-1001"], "service": "s", "rule": "HostSNI(`x`)" },
                "d": { "entryPoints": ["tcp-1002"], "service": "s", "tls": {} },
                "e": { "entryPoints": ["tcp-1003"], "service": "missing" }
            },
            "services": { "s": { "loadBalancer": { "servers": [{ "address": "10.0.0.1:1" }] } } }
        },
        "udp": { "routers": { "q": { "entryPoints": ["udp-53"], "service": "s" } } }
    }"#,
    );
    let mut cfg = test_config();
    cfg.enable_udp_routes = false;
    let (http, tcp, udp) = (Block::Http, Block::Raw(L4Protocol::Tcp), Block::Raw(L4Protocol::Udp));
    let raw = vec![
        (tcp, "b".to_string(), Reason::NoEntrypoint),
        (tcp, "c".to_string(), Reason::Rule),
        (tcp, "d".to_string(), Reason::TlsOptions),
        (tcp, "e".to_string(), Reason::UnknownService),
        (udp, "q".to_string(), Reason::Disabled),
    ];

    cfg.allow_unauthenticated_routes = false;
    cfg.ext_authz = None;
    let mut expected = vec![
        (http, "b-rule".to_string(), Reason::Rule),
        (http, "c-auth".to_string(), Reason::Protected),
        (http, "d-lost".to_string(), Reason::UnknownService),
        (http, "e-both".to_string(), Reason::Protected),
    ];
    expected.extend(raw.clone());
    assert_eq!(reasons(&cfg, &dyn_config), expected);
    assert_eq!(build_desired(&cfg, &dyn_config).http_routes.len(), 1);

    cfg.allow_unauthenticated_routes = true;
    let mut expected = vec![
        (http, "b-rule".to_string(), Reason::Rule),
        (http, "c-auth".to_string(), Reason::Unauthenticated),
        (http, "d-lost".to_string(), Reason::UnknownService),
        (http, "e-both".to_string(), Reason::Unauthenticated),
        (http, "e-both".to_string(), Reason::UnknownService),
    ];
    expected.extend(raw);
    assert_eq!(reasons(&cfg, &dyn_config), expected);
    assert_eq!(build_desired(&cfg, &dyn_config).http_routes.len(), 2);
    assert!(Reason::Rule.skips());
    assert!(!Reason::Unauthenticated.skips());
}

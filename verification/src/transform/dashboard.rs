//! Optional static Gateway API routes for Pangolin's own dashboard/API.

use vstd::prelude::*;
use vstd::string::*;

use crate::config::{Config, ConfigView, PangolinDashboardConfig, PangolinDashboardConfigView};
use crate::gateway::{
    BackendRef, BackendRefView, HeaderMatcher, HeaderMatcherType, HeaderMatcherView, HttpRouteRule,
    HttpRouteRuleView, PathMatcher, PathMatcherType, PathMatcherView, RedirectScheme, RouteMatch,
    RouteMatchView,
};
use crate::strmap::lemma_deep_insert;
use crate::text;
use crate::transform::desired::{Desired, DesiredView};
use crate::transform::middleware::{redirect_filter, redirect_to};
use crate::transform::naming::{dns_label, label, prefixed_label};
use crate::transform::route::{
    build_http_route, http_route, route_name, with_hosts, RouteIndex, RouteIndexView,
};

verus! {

/// HTTPS listeners exist.
pub open spec fn tls_enabled(cfg: ConfigView) -> bool {
    cfg.enable_https_listeners && cfg.tls_secret_template is Some
}

pub open spec fn prefix_match(path: Seq<char>) -> RouteMatchView {
    RouteMatchView {
        path: Some(
            PathMatcherView { kind: Some(PathMatcherType::PathPrefix), value: Some(path) },
        ),
        headers: None,
    }
}

pub open spec fn websocket_match(path: Seq<char>) -> RouteMatchView {
    RouteMatchView {
        headers: Some(
            seq![
                HeaderMatcherView {
                    name: "upgrade"@,
                    kind: Some(HeaderMatcherType::Exact),
                    value: "websocket"@,
                },
            ],
        ),
        ..prefix_match(path)
    }
}

/// A rule that serves matching requests from a port of the dashboard's service.
pub open spec fn serving_rule(
    dashboard: PangolinDashboardConfigView,
    m: RouteMatchView,
    port: i32,
) -> HttpRouteRuleView {
    HttpRouteRuleView {
        matches: Some(seq![m]),
        filters: None,
        backend_refs: Some(
            seq![
                BackendRefView {
                    group: Some(Seq::empty()),
                    kind: Some("Service"@),
                    name: dashboard.service_name,
                    namespace: dashboard.service_namespace,
                    port: Some(port),
                    weight: Some(1),
                },
            ],
        ),
    }
}

/// A rule that redirects every request to HTTPS.
pub open spec fn https_redirect_rule() -> HttpRouteRuleView {
    HttpRouteRuleView {
        matches: None,
        filters: Some(seq![redirect_filter(RedirectScheme::Https, None)]),
        backend_refs: None,
    }
}

/// The desired objects with one more dashboard route.
pub open spec fn with_dashboard_route(
    cfg: ConfigView,
    source: Seq<char>,
    hostname: Seq<char>,
    section: Seq<char>,
    rule: HttpRouteRuleView,
    d: DesiredView,
) -> DesiredView {
    DesiredView {
        http_routes: d.http_routes.insert(
            route_name(source),
            http_route(cfg, route_name(source), Some(section), seq![hostname], rule),
        ),
        ..d
    }
}

/// The desired objects with the dashboard's routes: a redirect to HTTPS where asked for
/// and possible, then web sockets, the API and the web pages.
pub open spec fn with_dashboard(cfg: ConfigView, d: DesiredView) -> DesiredView {
    match cfg.pangolin_dashboard {
        None => d,
        Some(dashboard) => {
            let host = dashboard.hostname;
            let plain = label("http-"@ + host);
            let section = if tls_enabled(cfg) {
                label("https-"@ + host)
            } else {
                plain
            };
            let d0 = if dashboard.redirect_http_to_https && tls_enabled(cfg) {
                with_dashboard_route(
                    cfg,
                    "pangolin-dashboard-redirect"@,
                    host,
                    plain,
                    https_redirect_rule(),
                    d,
                )
            } else {
                d
            };
            let d1 = with_dashboard_route(
                cfg,
                "pangolin-dashboard-ws"@,
                host,
                section,
                serving_rule(dashboard, websocket_match("/api/v1/ws"@), dashboard.api_port),
                d0,
            );
            let d2 = with_dashboard_route(
                cfg,
                "pangolin-dashboard-api"@,
                host,
                section,
                serving_rule(dashboard, prefix_match("/api/v1"@), dashboard.api_port),
                d1,
            );
            with_dashboard_route(
                cfg,
                "pangolin-dashboard-web"@,
                host,
                section,
                serving_rule(dashboard, prefix_match("/"@), dashboard.next_port),
                d2,
            )
        },
    }
}

/// The hosts that get listeners, with the dashboard's.
pub open spec fn with_dashboard_host(cfg: ConfigView, routes: RouteIndexView) -> RouteIndexView {
    match cfg.pangolin_dashboard {
        None => routes,
        Some(dashboard) => with_hosts(routes, seq![dashboard.hostname], tls_enabled(cfg)),
    }
}

fn path_match(path: &str) -> (r: RouteMatch)
    ensures
        r.deep_view() == prefix_match(path@),
{
    RouteMatch {
        path: Some(
            PathMatcher { kind: Some(PathMatcherType::PathPrefix), value: Some(path.to_owned()) },
        ),
        headers: None,
    }
}

fn websocket_path_match(path: &str) -> (r: RouteMatch)
    ensures
        r.deep_view() == websocket_match(path@),
{
    let h = HeaderMatcher {
        name: "upgrade".to_owned(),
        kind: Some(HeaderMatcherType::Exact),
        value: "websocket".to_owned(),
    };
    let headers = vec![h];
    proof {
        text::lemma_one(headers, h);
    }
    let mut m = path_match(path);
    m.headers = Some(headers);
    m
}

fn serve(dashboard: &PangolinDashboardConfig, m: RouteMatch, port: i32) -> (r: HttpRouteRule)
    ensures
        r.deep_view() == serving_rule(dashboard.deep_view(), m.deep_view(), port),
{
    let b = BackendRef {
        group: Some(String::new()),
        kind: Some("Service".to_owned()),
        name: dashboard.service_name.clone(),
        namespace: text::copy_opt(&dashboard.service_namespace),
        port: Some(port),
        weight: Some(1),
    };
    let backend_refs = vec![b];
    let matches = vec![m];
    proof {
        text::lemma_one(backend_refs, b);
        text::lemma_one(matches, m);
    }
    HttpRouteRule { matches: Some(matches), filters: None, backend_refs: Some(backend_refs) }
}

fn redirect_rule() -> (r: HttpRouteRule)
    ensures
        r.deep_view() == https_redirect_rule(),
{
    let f = redirect_to(RedirectScheme::Https, None);
    let filters = vec![f];
    proof {
        text::lemma_one(filters, f);
    }
    HttpRouteRule { matches: None, filters: Some(filters), backend_refs: None }
}

fn insert_route(
    cfg: &Config,
    desired: &mut Desired,
    source_name: &str,
    dashboard: &PangolinDashboardConfig,
    rule: HttpRouteRule,
    section: &str,
)
    ensures
        final(desired).deep_view() == with_dashboard_route(
            cfg.deep_view(),
            source_name@,
            dashboard.hostname@,
            section@,
            rule.deep_view(),
            old(desired).deep_view(),
        ),
{
    broadcast use lemma_deep_insert;

    let name = prefixed_label("hr", source_name);
    let hostnames = vec![dashboard.hostname.clone()];
    assert(hostnames.deep_view() =~= seq![dashboard.hostname@]);
    let route = build_http_route(cfg, name.as_str(), Some(section.to_owned()), hostnames, rule);
    desired.http_routes.insert(name, route);
}

/// Add the dashboard's routes and its host.
pub fn build_dashboard_routes(cfg: &Config, routes: &mut RouteIndex, desired: &mut Desired)
    ensures
        final(desired).deep_view() == with_dashboard(cfg.deep_view(), old(desired).deep_view()),
        final(routes).deep_view() == with_dashboard_host(cfg.deep_view(), old(routes).deep_view()),
{
    let dashboard = match &cfg.pangolin_dashboard {
        Some(d) => d,
        None => {
            return;
        },
    };
    let tls = cfg.enable_https_listeners && cfg.tls_secret_template.is_some();
    let ghost before = routes.deep_view();
    routes.hostnames.insert(dashboard.hostname.clone());
    if tls {
        routes.https_hosts.insert(dashboard.hostname.clone());
    }
    proof {
        let host = dashboard.hostname@;
        assert(seq![host].to_set() =~= set![host]) by {
            assert(seq![host][0] == host);
        }
        assert(routes.deep_view() =~= with_hosts(before, seq![host], tls));
    }
    let plain = dns_label(text::cat("http-", dashboard.hostname.as_str()).as_str());
    if dashboard.redirect_http_to_https && tls {
        insert_route(
            cfg,
            desired,
            "pangolin-dashboard-redirect",
            dashboard,
            redirect_rule(),
            plain.as_str(),
        );
    }
    let section = if tls {
        dns_label(text::cat("https-", dashboard.hostname.as_str()).as_str())
    } else {
        plain
    };
    let ws = serve(dashboard, websocket_path_match("/api/v1/ws"), dashboard.api_port);
    insert_route(cfg, desired, "pangolin-dashboard-ws", dashboard, ws, section.as_str());
    let api = serve(dashboard, path_match("/api/v1"), dashboard.api_port);
    insert_route(cfg, desired, "pangolin-dashboard-api", dashboard, api, section.as_str());
    let web = serve(dashboard, path_match("/"), dashboard.next_port);
    insert_route(cfg, desired, "pangolin-dashboard-web", dashboard, web, section.as_str());
}

} // verus!

//! What a router's route, its listeners and its policy say.

use vstd::prelude::*;

use crate::apply::{annotations_of, labels_of, metadata_with};
use crate::config::ConfigView;
use crate::gateway::{
    FilterType, HTTPRouteView, ListenerView, PathMatcherType, RedirectScheme, TlsMode,
};
use crate::pangolin::types::{L4Router, Router};
use crate::strmap::{in_order, lemma_in_order_lists};
use crate::text::{dec, int_text};
use crate::text_laws::{
    law_numbers_read_back, law_prefixes_are_stripped, law_replace_replaces, not_before,
};
use crate::transform::backend::{Index, ResolvedBackendView};
use crate::transform::dashboard::{with_dashboard, with_dashboard_host};
use crate::transform::desired::DesiredView;
use crate::transform::ext_authz::security_policy;
use crate::transform::gerbil::{with_gerbil, with_gerbil_ports};
use crate::transform::l4::{
    claimed_ports, entrypoint_port, new_ports, ports_of_router, supported, with_l4_routers,
    L4Protocol,
};
use crate::transform::laws::raw_routes;
use crate::transform::listener::{listeners_of, secret_name, with_listener_set};
use crate::transform::middleware::{rule_filters, Middlewares};
use crate::transform::naming::{is_label_char, label, law_label_keeps_labels, name_hash};
use crate::transform::route::{
    hosts_of, route_of, router_emitted, router_protected, with_router, with_routers, RouteIndexView,
};
use crate::transform::rule::{parsed, terms_at, usable, PathMatchKind, TermView};
use crate::transform::rule_laws::{holds_call, is_known_name, law_unknown_predicates_are_listed};

verus! {

// ---- metadata ---------------------------------------------------------------------------

/// Every object is named, lives in the controller namespace, carries the managed and the
/// instance label, and the managed annotation, which only a configured one of its key
/// replaces.
pub proof fn law_metadata_is_stamped(
    cfg: ConfigView,
    name: Seq<char>,
    extra: Map<Seq<char>, Seq<char>>,
    key: Seq<char>,
)
    ensures
        ({
            let m = metadata_with(cfg, name, labels_of(cfg), extra);
            let labels = m.labels->0;
            let annotations = m.annotations->0;
            &&& m.name == Some(name)
            &&& m.namespace == Some(cfg.namespace)
            &&& m.labels is Some && m.annotations is Some
            &&& labels.contains_key(key) <==> key == cfg.managed_label_key || key
                == cfg.instance_label_key
            &&& labels[cfg.instance_label_key] == cfg.instance_label_value
            &&& cfg.managed_label_key != cfg.instance_label_key ==> labels[cfg.managed_label_key]
                == cfg.managed_label_value
            &&& annotations.contains_key(key) <==> key == cfg.managed_annotation_key
                || extra.contains_key(key)
            &&& extra.contains_key(key) ==> annotations[key] == extra[key]
            &&& !extra.contains_key(cfg.managed_annotation_key)
                ==> annotations[cfg.managed_annotation_key] == cfg.managed_annotation_value
        }),
{
}

// ---- HTTP routes ------------------------------------------------------------------------

/// The route's one rule.
pub open spec fn is_single_rule(route: HTTPRouteView) -> bool {
    route.spec.rules is Some && (route.spec.rules->0).len() == 1
}

/// The route's rule matches by one path.
pub open spec fn matches_path(
    route: HTTPRouteView,
    kind: PathMatcherType,
    value: Seq<char>,
) -> bool {
    let matches = (route.spec.rules->0)[0].matches;
    &&& is_single_rule(route)
    &&& matches is Some && (matches->0).len() == 1
    &&& (matches->0)[0].headers is None
    &&& (matches->0)[0].path is Some
    &&& ((matches->0)[0].path->0).kind == Some(kind)
    &&& ((matches->0)[0].path->0).value == Some(value)
}

/// The route of a router serves the hosts of its rule from the listener set, matches its
/// path and sends what its filters leave to its backend.
pub proof fn law_routes_say_what_their_routers_say(
    cfg: ConfigView,
    name: Seq<char>,
    router: Router,
    middlewares: Middlewares,
    backend: ResolvedBackendView,
)
    ensures
        ({
            let route = route_of(cfg, name, router, middlewares, backend);
            let parents = route.spec.parent_refs->0;
            let rule = (route.spec.rules->0)[0];
            let refs = rule.backend_refs->0;
            let said = parsed(router.rule@);
            let filters = rule_filters(router.middlewares.deep_view(), middlewares);
            &&& route.metadata.name == Some(label(seq!['h', 'r', '-'] + name))
            &&& route.metadata.namespace == Some(cfg.namespace)
            &&& route.metadata.annotations == Some(annotations_of(cfg, cfg.httproute_annotations))
            &&& route.spec.parent_refs is Some && parents.len() == 1
            &&& parents[0].group == Some("gateway.networking.k8s.io"@)
            &&& parents[0].kind == Some("ListenerSet"@)
            &&& parents[0].name == cfg.listener_set_name
            &&& parents[0].namespace == Some(cfg.namespace)
            &&& parents[0].section_name is None
            &&& route.spec.hostnames == Some(said.hosts)
            &&& is_single_rule(route)
            &&& said.path is None ==> rule.matches is None
            &&& said.path is Some && (said.path->0).kind == PathMatchKind::Prefix ==> matches_path(
                route,
                PathMatcherType::PathPrefix,
                (said.path->0).value,
            )
            &&& said.path is Some && (said.path->0).kind == PathMatchKind::Exact ==> matches_path(
                route,
                PathMatcherType::Exact,
                (said.path->0).value,
            )
            &&& said.path is Some && (said.path->0).kind == PathMatchKind::Regex ==> matches_path(
                route,
                PathMatcherType::RegularExpression,
                (said.path->0).value,
            )
            &&& filters.len() == 0 ==> rule.filters is None
            &&& filters.len() > 0 ==> rule.filters == Some(filters)
            &&& (exists|i: int|
                0 <= i < filters.len() && (#[trigger] filters[i]).kind
                    == FilterType::RequestRedirect) <==> rule.backend_refs is None
            &&& rule.backend_refs is Some ==> refs.len() == 1 && refs[0].group == Some(
                backend.group,
            ) && refs[0].kind == Some(backend.kind) && refs[0].name == backend.name
                && refs[0].namespace == backend.namespace && refs[0].port == Some(backend.port)
                && refs[0].weight == Some(1i32)
        }),
{
    reveal_strlit("hr");
    assert("hr"@ + seq!['-'] + name =~= seq!['h', 'r', '-'] + name);
}

/// The last path predicate of a router's rule shows in its route: `PathPrefix` as a prefix
/// match, `Path` as an exact one and `PathRegexp` as a regular expression.
pub proof fn law_path_predicates_show_in_routes(
    cfg: ConfigView,
    name: Seq<char>,
    router: Router,
    middlewares: Middlewares,
    backend: ResolvedBackendView,
    i: int,
    path: Seq<char>,
)
    requires
        0 <= i < terms_at(router.rule@, 0).len(),
        terms_at(router.rule@, 0)[i] matches TermView::Call(_, args) && args.len() > 0 && args[0]
            == path,
        forall|j: int|
            i < j < terms_at(router.rule@, 0).len() ==> !crate::transform::rule_laws::names_path(
                #[trigger] terms_at(router.rule@, 0)[j],
            ),
        path.len() > 0,
        path[0] == '/',
    ensures
        ({
            let predicate = terms_at(router.rule@, 0)[i]->Call_0;
            let route = route_of(cfg, name, router, middlewares, backend);
            &&& predicate == "PathPrefix"@ ==> matches_path(
                route,
                PathMatcherType::PathPrefix,
                path,
            )
            &&& predicate == "Path"@ ==> matches_path(route, PathMatcherType::Exact, path)
            &&& predicate == "PathRegexp"@ ==> matches_path(
                route,
                PathMatcherType::RegularExpression,
                path,
            )
        }),
{
    let s = router.rule@;
    if crate::transform::rule_laws::is_path_name(terms_at(s, 0)[i]->Call_0) {
        crate::transform::rule_laws::law_the_last_path_counts(s, i);
        law_routes_say_what_their_routers_say(cfg, name, router, middlewares, backend);
    }
}

/// The rule of a host and a path prefix gives a route for that host whose one rule matches by
/// that prefix.
pub proof fn law_prefix_rules_match_prefixes(
    cfg: ConfigView,
    name: Seq<char>,
    router: Router,
    middlewares: Middlewares,
    backend: ResolvedBackendView,
    host: Seq<char>,
    path: Seq<char>,
)
    requires
        !host.contains('`'),
        !path.contains('`'),
        router.rule@ == "Host(`"@ + host + "`) && PathPrefix(`"@ + path + "`)"@,
    ensures
        ({
            let route = route_of(cfg, name, router, middlewares, backend);
            let rooted = if path.len() > 0 && path[0] == '/' {
                path
            } else {
                seq!['/'] + path
            };
            &&& route.spec.hostnames == Some(seq![host])
            &&& matches_path(route, PathMatcherType::PathPrefix, rooted)
        }),
{
    crate::transform::rule::law_host_and_prefix_rule(host, path);
}

/// A router whose rule calls a predicate that cannot be translated gets no route, whatever
/// its arguments, and serves no host.
pub proof fn law_unknown_predicates_get_no_route(
    cfg: ConfigView,
    routers: Seq<(Seq<char>, Router)>,
    name: Seq<char>,
    router: Router,
    middlewares: Middlewares,
    backends: Index,
    d: DesiredView,
    predicate: Seq<char>,
    args: Seq<Seq<char>>,
)
    requires
        holds_call(router.rule@, predicate, args),
        !is_known_name(predicate),
    ensures
        with_routers(cfg, routers.push((name, router)), middlewares, backends, d) == with_routers(
            cfg,
            routers,
            middlewares,
            backends,
            d,
        ),
        hosts_of(cfg, routers.push((name, router)), middlewares, backends) == hosts_of(
            cfg,
            routers,
            middlewares,
            backends,
        ),
{
    law_unknown_predicates_are_listed(router.rule@, predicate, args);
    assert(routers.push((name, router)).drop_last() =~= routers);
}

/// A router is emitted exactly when its rule is usable, its service resolves, and it is
/// unprotected, authorized or permitted to go out without authentication.
pub proof fn law_routers_are_emitted_when(
    cfg: ConfigView,
    router: Router,
    middlewares: Middlewares,
    backends: Index,
)
    ensures
        router_emitted(cfg, router, middlewares, backends) <==> {
            &&& usable(parsed(router.rule@))
            &&& backends.contains_key(router.service@)
            &&& !router_protected(router, middlewares) || cfg.ext_authz is Some
                || cfg.allow_unauthenticated_routes
        },
{
}

/// An emitted router adds its route under its name, with the backend that its service
/// resolves to, and the policy that guards it where it is protected and an authorization
/// service is configured. Nothing else changes.
pub proof fn law_emitted_routers_add_their_objects(
    cfg: ConfigView,
    name: Seq<char>,
    router: Router,
    middlewares: Middlewares,
    backends: Index,
    d: DesiredView,
)
    requires
        router_emitted(cfg, router, middlewares, backends),
    ensures
        ({
            let e = with_router(cfg, name, router, middlewares, backends, d);
            let key = label(seq!['h', 'r', '-'] + name);
            let policy = label(seq!['s', 'p', '-'] + key);
            let guarded = router_protected(router, middlewares) && cfg.ext_authz is Some;
            &&& e.http_routes == d.http_routes.insert(
                key,
                route_of(cfg, name, router, middlewares, backends[router.service@]),
            )
            &&& !guarded ==> e.security_policies == d.security_policies
            &&& guarded ==> e.security_policies == d.security_policies.insert(
                policy,
                security_policy(cfg, cfg.ext_authz->0, key),
            )
            &&& e.listener_sets == d.listener_sets && e.services == d.services
                && e.endpoint_slices == d.endpoint_slices && e.envoy_backends == d.envoy_backends
                && e.tcp_routes == d.tcp_routes && e.udp_routes == d.udp_routes
                && e.backend_tls_policies == d.backend_tls_policies
        }),
{
    reveal_strlit("hr");
    reveal_strlit("sp");
    let key = label(seq!['h', 'r', '-'] + name);
    assert("hr"@ + seq!['-'] + name =~= seq!['h', 'r', '-'] + name);
    assert("sp"@ + seq!['-'] + key =~= seq!['s', 'p', '-'] + key);
}

/// The policy of a route asks the configured service about that route, forwards the
/// configured headers, and denies where the service cannot be asked.
pub proof fn law_policies_ask_the_configured_service(
    cfg: ConfigView,
    ea: crate::config::ExtAuthzConfigView,
    route: Seq<char>,
)
    ensures
        ({
            let p = security_policy(cfg, ea, route);
            let auth = p.spec.ext_auth->0;
            let http = auth.http->0;
            &&& p.metadata.name == Some(label(seq!['s', 'p', '-'] + route))
            &&& p.spec.target_refs.len() == 1
            &&& p.spec.target_refs[0].group == "gateway.networking.k8s.io"@
            &&& p.spec.target_refs[0].kind == "HTTPRoute"@
            &&& p.spec.target_refs[0].name == route
            &&& p.spec.ext_auth is Some && auth.http is Some
            &&& auth.fail_open == Some(false)
            &&& ea.headers_to_ext_auth.len() == 0 ==> auth.headers_to_ext_auth is None
            &&& ea.headers_to_ext_auth.len() > 0 ==> auth.headers_to_ext_auth == Some(
                ea.headers_to_ext_auth,
            )
            &&& ea.headers_to_backend.len() == 0 ==> http.headers_to_backend is None
            &&& ea.headers_to_backend.len() > 0 ==> http.headers_to_backend == Some(
                ea.headers_to_backend,
            )
            &&& http.path == ea.path
            &&& http.backend_refs.len() == 1
            &&& http.backend_refs[0].name == ea.service
            &&& http.backend_refs[0].namespace == ea.namespace
            &&& http.backend_refs[0].port == Some(ea.port)
        }),
{
    reveal_strlit("sp");
    assert("sp"@ + seq!['-'] + route =~= seq!['s', 'p', '-'] + route);
}

/// The hosts of an emitted router get listeners; HTTPS ones where it has TLS or the `https`
/// entrypoint, and HTTPS listeners are enabled.
pub proof fn law_emitted_hosts_are_served(
    cfg: ConfigView,
    routers: Seq<(Seq<char>, Router)>,
    name: Seq<char>,
    router: Router,
    middlewares: Middlewares,
    backends: Index,
    host: Seq<char>,
)
    ensures
        ({
            let before = hosts_of(cfg, routers, middlewares, backends);
            let after = hosts_of(cfg, routers.push((name, router)), middlewares, backends);
            let own = router_emitted(cfg, router, middlewares, backends) && parsed(
                router.rule@,
            ).hosts.contains(host);
            let https = cfg.enable_https_listeners && (router.tls is Some || exists|i: int|
                0 <= i < router.entry_points@.len() && (#[trigger] router.entry_points@[i])@
                    == "https"@);
            &&& after.hostnames.contains(host) <==> before.hostnames.contains(host) || own
            &&& after.https_hosts.contains(host) <==> before.https_hosts.contains(host) || (own
                && https)
        }),
{
    let all = routers.push((name, router));
    assert(all.drop_last() =~= routers);
    let points = router.entry_points.deep_view();
    if points.contains("https"@) {
        let i = choose|i: int| 0 <= i < points.len() && points[i] == "https"@;
        assert(router.entry_points@[i]@ == "https"@);
    }
    if exists|i: int|
        0 <= i < router.entry_points@.len() && (#[trigger] router.entry_points@[i])@ == "https"@ {
        let i = choose|i: int|
            0 <= i < router.entry_points@.len() && (#[trigger] router.entry_points@[i])@
                == "https"@;
        assert(points[i] == "https"@);
    }
}

// ---- listeners --------------------------------------------------------------------------

/// An HTTP listener for the host.
pub open spec fn is_http_listener(cfg: ConfigView, l: ListenerView, host: Seq<char>) -> bool {
    &&& l.name == label(seq!['h', 't', 't', 'p', '-'] + host)
    &&& l.hostname == Some(host)
    &&& l.port == cfg.http_port
    &&& l.protocol == "HTTP"@
    &&& l.tls is None
}

/// An HTTPS listener for the host, which terminates TLS with the host's secret.
pub open spec fn is_https_listener(
    cfg: ConfigView,
    l: ListenerView,
    host: Seq<char>,
    template: Seq<char>,
) -> bool {
    let tls = l.tls->0;
    let refs = tls.certificate_refs->0;
    &&& l.name == label(seq!['h', 't', 't', 'p', 's', '-'] + host)
    &&& l.hostname == Some(host)
    &&& l.port == cfg.https_port
    &&& l.protocol == "HTTPS"@
    &&& l.tls is Some
    &&& tls.mode == Some(TlsMode::Terminate)
    &&& tls.certificate_refs is Some && refs.len() == 1
    &&& refs[0].group matches Some(g) && g.len() == 0
    &&& refs[0].kind == Some("Secret"@)
    &&& refs[0].name == secret_name(template, host)
    &&& refs[0].namespace == cfg.tls_secret_namespace
}

/// Every listener of the set is the HTTP listener of a host, the HTTPS listener of a host
/// with TLS where a secret template is configured and HTTPS enabled, or a raw one.
pub proof fn law_listeners_serve_hosts_or_ports(
    cfg: ConfigView,
    routes: RouteIndexView,
    raw: Seq<ListenerView>,
    i: int,
)
    requires
        routes.hostnames.finite(),
        routes.https_hosts.finite(),
        0 <= i < listeners_of(cfg, routes, raw).len(),
    ensures
        ({
            let l = listeners_of(cfg, routes, raw)[i];
            ||| l.hostname is Some && routes.hostnames.contains(l.hostname->0)
                && is_http_listener(cfg, l, l.hostname->0)
            ||| cfg.enable_https_listeners && cfg.tls_secret_template is Some && l.hostname is Some
                && routes.https_hosts.contains(l.hostname->0) && is_https_listener(
                cfg,
                l,
                l.hostname->0,
                cfg.tls_secret_template->0,
            )
            ||| raw.contains(l)
        }),
{
    lemma_schemes();
    let all = listeners_of(cfg, routes, raw);
    let a = in_order(routes.hostnames);
    let b = in_order(routes.https_hosts);
    lemma_in_order_lists(routes.hostnames);
    lemma_in_order_lists(routes.https_hosts);
    let n = a.len() as int;
    let m = all.len() - n - raw.len();
    if i < n {
        let host = a[i];
        assert(a.to_set().contains(host));
        assert("http-"@ + host =~= seq!['h', 't', 't', 'p', '-'] + host);
    } else if i < n + m {
        let host = b[i - n];
        assert(b.to_set().contains(host));
        assert("https-"@ + host =~= seq!['h', 't', 't', 'p', 's', '-'] + host);
    } else {
        assert(all[i] == raw[i - n - m]);
    }
}

proof fn lemma_schemes()
    ensures
        "http-"@ == seq!['h', 't', 't', 'p', '-'],
        "https-"@ == seq!['h', 't', 't', 'p', 's', '-'],
{
    reveal_strlit("http-");
    reveal_strlit("https-");
    assert("http-"@ =~= seq!['h', 't', 't', 'p', '-']);
    assert("https-"@ =~= seq!['h', 't', 't', 'p', 's', '-']);
}

/// Every host has its HTTP listener, every host with TLS its HTTPS listener where a secret
/// template is configured and HTTPS enabled, and every raw listener is there.
pub proof fn law_hosts_and_ports_have_listeners(
    cfg: ConfigView,
    routes: RouteIndexView,
    raw: Seq<ListenerView>,
    host: Seq<char>,
    r: int,
)
    requires
        routes.hostnames.finite(),
        routes.https_hosts.finite(),
    ensures
        routes.hostnames.contains(host) ==> exists|i: int|
            0 <= i < listeners_of(cfg, routes, raw).len() && #[trigger] is_http_listener(
                cfg,
                listeners_of(cfg, routes, raw)[i],
                host,
            ),
        routes.https_hosts.contains(host) && cfg.enable_https_listeners && cfg.tls_secret_template
            is Some ==> exists|i: int|
            0 <= i < listeners_of(cfg, routes, raw).len() && #[trigger] is_https_listener(
                cfg,
                listeners_of(cfg, routes, raw)[i],
                host,
                cfg.tls_secret_template->0,
            ),
        0 <= r < raw.len() ==> listeners_of(cfg, routes, raw).contains(raw[r]),
{
    lemma_schemes();
    let all = listeners_of(cfg, routes, raw);
    let a = in_order(routes.hostnames);
    let b = in_order(routes.https_hosts);
    lemma_in_order_lists(routes.hostnames);
    lemma_in_order_lists(routes.https_hosts);
    if routes.hostnames.contains(host) {
        assert(a.to_set().contains(host));
        let i = choose|i: int| 0 <= i < a.len() && a[i] == host;
        assert("http-"@ + host =~= seq!['h', 't', 't', 'p', '-'] + host);
        assert(is_http_listener(cfg, all[i], host));
    }
    if routes.https_hosts.contains(host) && cfg.enable_https_listeners && cfg.tls_secret_template
        is Some {
        assert(b.to_set().contains(host));
        let i = choose|i: int| 0 <= i < b.len() && b[i] == host;
        assert("https-"@ + host =~= seq!['h', 't', 't', 'p', 's', '-'] + host);
        assert(is_https_listener(cfg, all[a.len() + i], host, cfg.tls_secret_template->0));
    }
    if 0 <= r < raw.len() {
        assert(all[all.len() - raw.len() + r] == raw[r]);
    }
}

/// The listener set attaches to the configured Gateway.
pub proof fn law_the_set_attaches_to_the_gateway(
    cfg: ConfigView,
    routes: RouteIndexView,
    raw: Seq<ListenerView>,
    d: DesiredView,
)
    ensures
        ({
            let e = with_listener_set(cfg, routes, raw, d);
            let key = label(cfg.listener_set_name);
            let set = e.listener_sets[key];
            &&& e.listener_sets.contains_key(key)
            &&& set.metadata.name == Some(key)
            &&& set.metadata.annotations == Some(
                annotations_of(cfg, cfg.listenerset_annotations),
            )
            &&& set.spec.parent_ref.group == Some("gateway.networking.k8s.io"@)
            &&& set.spec.parent_ref.kind == Some("Gateway"@)
            &&& set.spec.parent_ref.name == cfg.parent_gateway
            &&& set.spec.parent_ref.namespace == cfg.parent_gateway_namespace
            &&& set.spec.listeners == listeners_of(cfg, routes, raw)
            &&& e.http_routes == d.http_routes && e.services == d.services && e.tcp_routes
                == d.tcp_routes && e.udp_routes == d.udp_routes && e.security_policies
                == d.security_policies && e.envoy_backends == d.envoy_backends
        }),
{
}

/// A secret template is filled with the host as it is, or with dashes for its dots.
pub proof fn law_secret_templates_are_filled(
    a: Seq<char>,
    b: Seq<char>,
    left: Seq<char>,
    right: Seq<char>,
)
    requires
        !a.contains('{'),
        !b.contains('{'),
        !left.contains('.') && !left.contains('{'),
        !right.contains('.') && !right.contains('{'),
    ensures
        ({
            let host = left + seq!['.'] + right;
            let dashed = left + seq!['-'] + right;
            &&& secret_name(a + "{hostname}"@ + b, host) == a + host + b
            &&& secret_name(a + "{hostname-dashed}"@ + b, host) == a + dashed + b
            &&& secret_name(a, host) == a
        }),
{
    reveal_strlit("{hostname}");
    reveal_strlit("{hostname-dashed}");
    reveal_strlit(".");
    reveal_strlit("-");
    let (p, q) = ("{hostname}"@, "{hostname-dashed}"@);
    let host = left + seq!['.'] + right;
    let dashed = left + seq!['-'] + right;
    assert("."@ =~= seq!['.']);
    assert("-"@ =~= seq!['-']);
    assert(p.len() == 10 && q.len() == 17);
    // Dots become dashes.
    lemma_absent(left + seq!['.'] + right, left.len() as int, "."@, '.');
    lemma_absent(right, right.len() as int, "."@, '.');
    law_replace_replaces(left, "."@, right, "-"@);
    law_replace_replaces(right, "."@, Seq::empty(), "-"@);
    assert(left + "-"@ + right =~= dashed);
    // The plain placeholder.
    let s = a + p + b;
    lemma_absent(s, a.len() as int, p, '{');
    lemma_absent(b, b.len() as int, p, '{');
    law_replace_replaces(a, p, b, host);
    law_replace_replaces(b, p, Seq::empty(), host);
    let filled = a + host + b;
    assert forall|j: int| 0 <= j < filled.len() implies filled[j] != '{' by {
        if j < a.len() {
            assert(a.contains(a[j]));
        } else if j < a.len() + left.len() {
            assert(left.contains(left[j - a.len()]));
        } else if a.len() + left.len() < j < a.len() + host.len() {
            assert(right.contains(right[j - a.len() - left.len() - 1]));
        } else if j >= a.len() + host.len() {
            assert(b.contains(b[j - a.len() - host.len()]));
        }
    }
    lemma_absent(filled, filled.len() as int, q, '{');
    law_replace_replaces(filled, q, Seq::empty(), dashed);
    // The dashed placeholder.
    let t = a + q + b;
    assert forall|j: int| 0 <= j < t.len() implies !crate::text::starts_with(
        #[trigger] t.skip(j),
        p,
    ) by {
        if crate::text::starts_with(t.skip(j), p) {
            assert(t.skip(j).take(10)[0] == p[0]);
            assert(t[j] == '{');
            if j < a.len() {
                assert(a.contains(a[j]));
            } else if j >= a.len() + 17 {
                assert(b.contains(b[j - a.len() - 17]));
            } else if j == a.len() {
                assert(t.skip(j).take(10)[9] == p[9]);
                assert(t[j + 9] == q[9]);
            } else {
                assert(t[j] == q[j - a.len()]);
            }
        }
    }
    law_replace_replaces(t, p, Seq::empty(), host);
    lemma_absent(t, a.len() as int, q, '{');
    lemma_absent(b, b.len() as int, q, '{');
    law_replace_replaces(a, q, b, dashed);
    law_replace_replaces(b, q, Seq::empty(), dashed);
    // No placeholder.
    lemma_absent(a, a.len() as int, p, '{');
    lemma_absent(a, a.len() as int, q, '{');
    law_replace_replaces(a, p, Seq::empty(), host);
    law_replace_replaces(a, q, Seq::empty(), dashed);
}

/// A pattern does not start where its first character is missing.
proof fn lemma_absent(s: Seq<char>, n: int, pat: Seq<char>, c: char)
    requires
        0 <= n <= s.len(),
        pat.len() > 0,
        pat[0] == c,
        !s.take(n).contains(c),
    ensures
        not_before(s, pat, n),
{
    assert forall|j: int| 0 <= j < n implies !crate::text::starts_with(#[trigger] s.skip(j), pat) by {
        if crate::text::starts_with(s.skip(j), pat) {
            assert(s.skip(j).take(pat.len() as int)[0] == pat[0]);
            assert(s.take(n)[j] == c);
        }
    }
}

// ---- raw routes -------------------------------------------------------------------------

pub open spec fn scheme_name(proto: L4Protocol) -> Seq<char> {
    match proto {
        L4Protocol::Tcp => seq!['t', 'c', 'p'],
        L4Protocol::Udp => seq!['u', 'd', 'p'],
    }
}

/// An entrypoint `tcp-<port>` names its port to TCP routers, `udp-<port>` to UDP routers,
/// and neither to the other; port 0 is none.
pub proof fn law_entrypoints_name_ports(proto: L4Protocol, port: u16)
    ensures
        port > 0 ==> entrypoint_port(scheme_name(proto) + seq!['-'] + dec(port as nat), proto)
            == Some(port as i32),
        entrypoint_port(scheme_name(proto) + seq!['-'] + dec(0), proto) is None,
        entrypoint_port(
            scheme_name(
                match proto {
                    L4Protocol::Tcp => L4Protocol::Udp,
                    L4Protocol::Udp => L4Protocol::Tcp,
                },
            ) + seq!['-'] + dec(port as nat),
            proto,
        ) is None,
{
    reveal_strlit("tcp");
    reveal_strlit("udp");
    reveal_strlit("-");
    assert("tcp"@ =~= seq!['t', 'c', 'p']);
    assert("udp"@ =~= seq!['u', 'd', 'p']);
    assert("-"@ =~= seq!['-']);
    let d = dec(port as nat);
    law_numbers_read_back(port as nat, 65535);
    law_numbers_read_back(0, 65535);
    law_prefixes_are_stripped(seq!['-'], d, d);
    law_prefixes_are_stripped(seq!['-'], dec(0), d);
    law_prefixes_are_stripped(scheme_name(proto), seq!['-'] + d, d);
    law_prefixes_are_stripped(scheme_name(proto), seq!['-'] + dec(0), d);
    assert(scheme_name(proto) + seq!['-'] + d =~= scheme_name(proto) + (seq!['-'] + d));
    assert(scheme_name(proto) + seq!['-'] + dec(0) =~= scheme_name(proto) + (seq!['-'] + dec(0)));
    let other = scheme_name(
        match proto {
            L4Protocol::Tcp => L4Protocol::Udp,
            L4Protocol::Udp => L4Protocol::Tcp,
        },
    ) + seq!['-'] + d;
    assert(other.take(3)[0] == other[0]);
    assert(scheme_name(proto)[0] != other[0]);
}

/// A TCP router may carry `HostSNI(*)` or no rule, a UDP router none, and TLS options keep
/// either out.
pub proof fn law_raw_rules_are_supported(router: L4Router)
    ensures
        router.tls is Some ==> !supported(router, L4Protocol::Tcp) && !supported(
            router,
            L4Protocol::Udp,
        ),
        router.tls is None && (router.rule is None || crate::text::trim((router.rule->0)@).len()
            == 0) ==> supported(router, L4Protocol::Tcp) && supported(router, L4Protocol::Udp),
        router.tls is None && router.rule is Some && crate::text::trim((router.rule->0)@)
            == "HostSNI(`*`)"@ ==> supported(router, L4Protocol::Tcp) && !supported(
            router,
            L4Protocol::Udp,
        ),
        router.rule is Some && crate::text::trim((router.rule->0)@).len() > 0 && crate::text::trim(
            (router.rule->0)@,
        ) != "HostSNI(`*`)"@ ==> !supported(router, L4Protocol::Tcp) && !supported(
            router,
            L4Protocol::Udp,
        ),
{
    reveal_strlit("HostSNI(`*`)");
}

/// A router claims the port of each of its entrypoints, unless an earlier claim, its own or
/// another's, has it, or the HTTP or HTTPS listeners use it for TCP.
pub proof fn law_entrypoints_claim_their_ports(
    cfg: ConfigView,
    proto: L4Protocol,
    points: Seq<Seq<char>>,
    point: Seq<char>,
    claimed: Seq<i32>,
)
    ensures
        ({
            let before = new_ports(cfg, proto, points, claimed);
            let after = new_ports(cfg, proto, points.push(point), claimed);
            let port = entrypoint_port(point, proto)->0;
            let free = entrypoint_port(point, proto) is Some && !claimed.contains(port)
                && !before.contains(port) && !(proto == L4Protocol::Tcp && (port == cfg.http_port
                || port == cfg.https_port));
            &&& free ==> after == before.push(port)
            &&& !free ==> after == before
            &&& new_ports(cfg, proto, Seq::empty(), claimed).len() == 0
        }),
{
    assert(points.push(point).drop_last() =~= points);
}

/// A raw router with ports gets a route under its name: one parent per port, the listener of
/// that port on the listener set, and the backend that its service resolves to.
pub proof fn law_raw_routes_say_what_their_routers_say(
    cfg: ConfigView,
    proto: L4Protocol,
    routers: Seq<(Seq<char>, L4Router)>,
    name: Seq<char>,
    router: L4Router,
    backends: Index,
    d: DesiredView,
    k: int,
)
    ensures
        ({
            let before = with_l4_routers(cfg, proto, routers, backends, d);
            let after = with_l4_routers(cfg, proto, routers.push((name, router)), backends, d);
            let ports = ports_of_router(
                cfg,
                proto,
                router,
                backends,
                claimed_ports(cfg, proto, routers, backends),
            );
            let key = label(scheme_name(proto) + seq!['-'] + name);
            let route = raw_routes(after, proto)[key];
            let parents = route.spec.parent_refs->0;
            let b = backends[router.service@];
            let refs = route.spec.rules[0].backend_refs;
            &&& ports.len() == 0 ==> after == before
            &&& ports.len() > 0 ==> {
                &&& raw_routes(after, proto) == raw_routes(before, proto).insert(key, route)
                &&& route.metadata.name == Some(key)
                &&& route.metadata.namespace == Some(cfg.namespace)
                &&& route.spec.parent_refs is Some && parents.len() == ports.len()
                &&& 0 <= k < ports.len() ==> parents[k].group == Some(
                    "gateway.networking.k8s.io"@,
                ) && parents[k].kind == Some("ListenerSet"@) && parents[k].name
                    == cfg.listener_set_name && parents[k].namespace == Some(cfg.namespace)
                    && parents[k].section_name == Some(
                    label(scheme_name(proto) + seq!['-'] + int_text(ports[k] as int)),
                )
                &&& route.spec.rules.len() == 1
                &&& route.spec.rules[0].name is None
                &&& refs.len() == 1
                &&& refs[0].group == Some(b.group) && refs[0].kind == Some(b.kind)
                    && refs[0].name == b.name && refs[0].namespace == b.namespace && refs[0].port
                    == Some(b.port) && refs[0].weight == Some(1i32)
            }
        }),
{
    assert(routers.push((name, router)).drop_last() =~= routers);
    reveal_strlit("tcp");
    reveal_strlit("udp");
    reveal_strlit("-");
    assert("tcp"@ =~= seq!['t', 'c', 'p']);
    assert("udp"@ =~= seq!['u', 'd', 'p']);
    assert("-"@ =~= seq!['-']);
}

/// The listener of a claimed port: its name tells protocol and port, and it serves no
/// particular host.
pub proof fn law_raw_listeners_serve_their_ports(
    proto: L4Protocol,
    ports: Seq<i32>,
    k: int,
)
    requires
        0 <= k < ports.len(),
    ensures
        ({
            let ls = crate::transform::l4::port_listeners(proto, ports);
            &&& ls.len() == ports.len()
            &&& ls[k].name == label(scheme_name(proto) + seq!['-'] + int_text(ports[k] as int))
            &&& ls[k].port == ports[k]
            &&& ls[k].hostname is None
            &&& ls[k].tls is None
            &&& ls[k].protocol == match proto {
                L4Protocol::Tcp => "TCP"@,
                L4Protocol::Udp => "UDP"@,
            }
        }),
{
    reveal_strlit("tcp");
    reveal_strlit("udp");
    reveal_strlit("-");
    assert("tcp"@ =~= seq!['t', 'c', 'p']);
    assert("udp"@ =~= seq!['u', 'd', 'p']);
    assert("-"@ =~= seq!['-']);
}

// ---- static routes ----------------------------------------------------------------------

/// The route serves one host through one section of the listener set.
pub open spec fn serves(
    cfg: ConfigView,
    route: HTTPRouteView,
    host: Seq<char>,
    section: Seq<char>,
) -> bool {
    let parents = route.spec.parent_refs->0;
    &&& route.spec.hostnames == Some(seq![host])
    &&& route.spec.parent_refs is Some && parents.len() == 1
    &&& parents[0].kind == Some("ListenerSet"@)
    &&& parents[0].name == cfg.listener_set_name
    &&& parents[0].section_name == Some(section)
    &&& is_single_rule(route)
}

/// The route sends what it matches by a path prefix to a port of a Service.
pub open spec fn sends(
    route: HTTPRouteView,
    path: Seq<char>,
    websocket: bool,
    service: Seq<char>,
    namespace: Option<Seq<char>>,
    port: i32,
) -> bool {
    let rule = (route.spec.rules->0)[0];
    let m = (rule.matches->0)[0];
    let headers = m.headers->0;
    let refs = rule.backend_refs->0;
    &&& rule.filters is None
    &&& rule.matches is Some && (rule.matches->0).len() == 1
    &&& m.path is Some && (m.path->0).kind == Some(PathMatcherType::PathPrefix)
    &&& (m.path->0).value == Some(path)
    &&& m.headers is Some <==> websocket
    &&& websocket ==> headers.len() == 1 && headers[0].name == "upgrade"@ && headers[0].value
        == "websocket"@ && headers[0].kind == Some(crate::gateway::HeaderMatcherType::Exact)
    &&& rule.backend_refs is Some && refs.len() == 1
    &&& refs[0].kind == Some("Service"@) && refs[0].name == service && refs[0].namespace
        == namespace && refs[0].port == Some(port) && refs[0].weight == Some(1i32)
    &&& refs[0].group matches Some(g) && g.len() == 0
}

/// The dashboard's pages come from its web port, its API and its web sockets from its API
/// port, each over HTTPS where that is enabled. Plain HTTP is redirected where that is asked
/// for and HTTPS enabled.
pub proof fn law_dashboard_routes(cfg: ConfigView, d: DesiredView)
    requires
        cfg.pangolin_dashboard is Some,
    ensures
        ({
            let e = with_dashboard(cfg, d).http_routes;
            let dash = cfg.pangolin_dashboard->0;
            let host = dash.hostname;
            let https = cfg.enable_https_listeners && cfg.tls_secret_template is Some;
            let plain = label(seq!['h', 't', 't', 'p', '-'] + host);
            let section = if https {
                label(seq!['h', 't', 't', 'p', 's', '-'] + host)
            } else {
                plain
            };
            let redirect = label("hr"@ + seq!['-'] + "pangolin-dashboard-redirect"@);
            let ws = label("hr"@ + seq!['-'] + "pangolin-dashboard-ws"@);
            let api = label("hr"@ + seq!['-'] + "pangolin-dashboard-api"@);
            let web = label("hr"@ + seq!['-'] + "pangolin-dashboard-web"@);
            &&& e.contains_key(ws) && serves(cfg, e[ws], host, section) && sends(
                e[ws],
                "/api/v1/ws"@,
                true,
                dash.service_name,
                dash.service_namespace,
                dash.api_port,
            )
            &&& e.contains_key(api) && serves(cfg, e[api], host, section) && sends(
                e[api],
                "/api/v1"@,
                false,
                dash.service_name,
                dash.service_namespace,
                dash.api_port,
            )
            &&& e.contains_key(web) && serves(cfg, e[web], host, section) && sends(
                e[web],
                "/"@,
                false,
                dash.service_name,
                dash.service_namespace,
                dash.next_port,
            )
            &&& !(dash.redirect_http_to_https && https) ==> (e.contains_key(redirect)
                <==> d.http_routes.contains_key(redirect))
            &&& dash.redirect_http_to_https && https ==> {
                let rule = (e[redirect].spec.rules->0)[0];
                let filters = rule.filters->0;
                &&& e.contains_key(redirect) && serves(cfg, e[redirect], host, plain)
                &&& rule.matches is None && rule.backend_refs is None
                &&& rule.filters is Some && filters.len() == 1
                &&& filters[0].kind == FilterType::RequestRedirect
                &&& filters[0].request_redirect is Some
                &&& (filters[0].request_redirect->0).scheme == Some(RedirectScheme::Https)
                &&& (filters[0].request_redirect->0).port is None
            }
        }),
{
    lemma_schemes();
    lemma_dashboard_names();
}

/// The characters from `i` on make a label, without two dashes in a row.
spec fn reads_as_label(s: Seq<char>, i: int) -> bool
    decreases s.len() - i,
{
    if 0 <= i < s.len() {
        is_label_char(s[i]) && (i == 0 || s[i] != '-' || s[i - 1] != '-') && reads_as_label(
            s,
            i + 1,
        )
    } else {
        true
    }
}

proof fn lemma_reads_as_label(s: Seq<char>, i: int)
    requires
        0 <= i,
        reads_as_label(s, i),
    ensures
        forall|j: int|
            i <= j < s.len() ==> is_label_char(#[trigger] s[j]) && (j == 0 || s[j] != '-' || s[j
                - 1] != '-'),
    decreases s.len() - i,
{
    if i < s.len() {
        lemma_reads_as_label(s, i + 1);
    }
}

proof fn lemma_is_own_label(s: Seq<char>)
    requires
        1 <= s.len() <= 63,
        reads_as_label(s, 0),
        s[0] != '-',
        s.last() != '-',
    ensures
        label(s) == s,
{
    lemma_reads_as_label(s, 0);
    law_label_keeps_labels(s, name_hash(s));
}

/// The names of the dashboard's routes are labels, and differ.
proof fn lemma_dashboard_names()
    ensures
        ({
            let p = "hr"@ + seq!['-'];
            let redirect = p + "pangolin-dashboard-redirect"@;
            let ws = p + "pangolin-dashboard-ws"@;
            let api = p + "pangolin-dashboard-api"@;
            let web = p + "pangolin-dashboard-web"@;
            &&& label(redirect) == redirect && redirect.len() == 30
            &&& label(ws) == ws && ws.len() == 24
            &&& label(api) == api && api.len() == 25
            &&& label(web) == web && web.len() == 25
            &&& api != web
        }),
{
    reveal_strlit("hr");
    reveal_strlit("pangolin-dashboard-redirect");
    reveal_strlit("pangolin-dashboard-ws");
    reveal_strlit("pangolin-dashboard-api");
    reveal_strlit("pangolin-dashboard-web");
    let p = "hr"@ + seq!['-'];
    reveal_with_fuel(reads_as_label, 32);
    lemma_is_own_label(p + "pangolin-dashboard-redirect"@);
    lemma_is_own_label(p + "pangolin-dashboard-ws"@);
    lemma_is_own_label(p + "pangolin-dashboard-api"@);
    lemma_is_own_label(p + "pangolin-dashboard-web"@);
    assert((p + "pangolin-dashboard-api"@)[22] != (p + "pangolin-dashboard-web"@)[22]);
}

/// The dashboard's host gets listeners, over HTTPS where that is enabled; without a
/// dashboard nothing changes.
pub proof fn law_dashboard_host(cfg: ConfigView, routes: RouteIndexView, d: DesiredView, h: Seq<char>)
    ensures
        cfg.pangolin_dashboard is None ==> with_dashboard(cfg, d) == d && with_dashboard_host(
            cfg,
            routes,
        ) == routes,
        cfg.pangolin_dashboard is Some ==> {
            let own = h == (cfg.pangolin_dashboard->0).hostname;
            let e = with_dashboard_host(cfg, routes);
            &&& e.hostnames.contains(h) <==> routes.hostnames.contains(h) || own
            &&& e.https_hosts.contains(h) <==> routes.https_hosts.contains(h) || (own
                && cfg.enable_https_listeners && cfg.tls_secret_template is Some)
        },
{
    if cfg.pangolin_dashboard is Some {
        let host = (cfg.pangolin_dashboard->0).hostname;
        assert(seq![host].to_set().contains(h) <==> h == host) by {
            if h == host {
                assert(seq![host][0] == h);
            }
        }
    }
}

/// Each port of Gerbil gets a UDP route to the same port of Gerbil's Service.
pub proof fn law_gerbil_routes(cfg: ConfigView, ports: Seq<i32>, port: i32, d: DesiredView)
    requires
        cfg.gerbil_udp is Some,
    ensures
        ({
            let gerbil = cfg.gerbil_udp->0;
            let e = with_gerbil_ports(cfg, gerbil, ports.push(port), d);
            let source = "gerbil-udp-"@ + int_text(port as int);
            let key = label("udpr"@ + seq!['-'] + source);
            let route = e.udp_routes[key];
            let parents = route.spec.parent_refs->0;
            let refs = route.spec.rules[0].backend_refs;
            &&& with_gerbil(cfg, d) == with_gerbil_ports(cfg, gerbil, gerbil.ports, d)
            &&& e.udp_routes == with_gerbil_ports(cfg, gerbil, ports, d).udp_routes.insert(
                key,
                route,
            )
            &&& route.metadata.name == Some(key)
            &&& route.spec.parent_refs is Some && parents.len() == 1
            &&& parents[0].kind == Some("ListenerSet"@)
            &&& parents[0].name == cfg.listener_set_name
            &&& parents[0].section_name == Some(label("udp"@ + seq!['-'] + source))
            &&& route.spec.rules.len() == 1
            &&& route.spec.rules[0].name == Some("default"@)
            &&& refs.len() == 1
            &&& refs[0].kind == Some("Service"@) && refs[0].name == gerbil.service_name
                && refs[0].namespace == gerbil.service_namespace && refs[0].port == Some(port)
        }),
{
    assert(ports.push(port).drop_last() =~= ports);
}

} // verus!

//! Build one HTTPRoute per pangolin router.

use vstd::prelude::*;
use vstd::string::*;

use crate::apply::{labels_of, managed_metadata_with, metadata_with, owner_labels};
use crate::config::{Config, ConfigView};
use crate::gateway::{
    BackendRef, BackendRefView, FilterType, HTTPRoute, HTTPRouteView, HttpRouteRule,
    HttpRouteRuleView, HttpRouteSpec, HttpRouteSpecView, ParentRef, ParentRefView, PathMatcher,
    PathMatcherType, PathMatcherView, RouteFilter, RouteFilterView, RouteMatch, RouteMatchView,
};
use crate::pangolin::types::{HttpConfig, Router, TraefikDynamicConfig};
use crate::strmap::{lemma_deep_insert, StrSet};
use crate::text;
use crate::transform::backend::{BackendIndex, Index, ResolvedBackend, ResolvedBackendView};
use crate::transform::desired::{Desired, DesiredView};
use crate::transform::ext_authz;
use crate::transform::ext_authz::{policy_name, security_policy};
use crate::transform::middleware;
use crate::transform::middleware::{is_protected, rule_filters, Middlewares};
use crate::transform::naming::{prefixed, prefixed_label};
use crate::transform::rule;
use crate::transform::rule::{parsed, usable, PathMatch, PathMatchKind, PathMatchView};

verus! {

/// Side data produced while building routes, used by the ListenerSet builder
/// to know which hostnames need listeners.
pub struct RouteIndex {
    pub hostnames: StrSet,
    /// The hosts on which at least one router requested TLS.
    pub https_hosts: StrSet,
}

#[verifier::ext_equal]
pub struct RouteIndexView {
    pub hostnames: Set<Seq<char>>,
    pub https_hosts: Set<Seq<char>>,
}

impl DeepView for RouteIndex {
    type V = RouteIndexView;

    open spec fn deep_view(&self) -> RouteIndexView {
        RouteIndexView { hostnames: self.hostnames@, https_hosts: self.https_hosts@ }
    }
}

pub open spec fn no_hosts() -> RouteIndexView {
    RouteIndexView { hostnames: Set::empty(), https_hosts: Set::empty() }
}

impl RouteIndex {
    pub fn new() -> (r: RouteIndex)
        ensures
            r.deep_view() == no_hosts(),
    {
        RouteIndex { hostnames: StrSet::new(), https_hosts: StrSet::new() }
    }
}

// ---- routes -------------------------------------------------------------------------

/// The listener set as a route's parent, by its configured name.
pub open spec fn listener_set_ref(cfg: ConfigView, section: Option<Seq<char>>) -> ParentRefView {
    ParentRefView {
        group: Some("gateway.networking.k8s.io"@),
        kind: Some("ListenerSet"@),
        name: cfg.listener_set_name,
        namespace: Some(cfg.namespace),
        section_name: section,
    }
}

pub open spec fn backend_ref(b: ResolvedBackendView) -> BackendRefView {
    BackendRefView {
        group: Some(b.group),
        kind: Some(b.kind),
        name: b.name,
        namespace: b.namespace,
        port: Some(b.port),
        weight: Some(1),
    }
}

pub open spec fn matcher_type(kind: PathMatchKind) -> PathMatcherType {
    match kind {
        PathMatchKind::Exact => PathMatcherType::Exact,
        PathMatchKind::Prefix => PathMatcherType::PathPrefix,
        PathMatchKind::Regex => PathMatcherType::RegularExpression,
    }
}

pub open spec fn matches_of(path: Option<PathMatchView>) -> Option<Seq<RouteMatchView>> {
    match path {
        Some(p) => Some(
            seq![
                RouteMatchView {
                    path: Some(
                        PathMatcherView { kind: Some(matcher_type(p.kind)), value: Some(p.value) },
                    ),
                    headers: None,
                },
            ],
        ),
        None => None,
    }
}

/// A redirect answers the request itself.
pub open spec fn terminating(filters: Seq<RouteFilterView>) -> bool {
    exists|i: int|
        0 <= i < filters.len() && (#[trigger] filters[i]).kind == FilterType::RequestRedirect
}

/// The one rule of a router's route. Gateway API forbids a redirect together with
/// backend references.
pub open spec fn rule_of(
    path: Option<PathMatchView>,
    filters: Seq<RouteFilterView>,
    backend: ResolvedBackendView,
) -> HttpRouteRuleView {
    HttpRouteRuleView {
        matches: matches_of(path),
        filters: if filters.len() == 0 {
            None
        } else {
            Some(filters)
        },
        backend_refs: if terminating(filters) {
            None
        } else {
            Some(seq![backend_ref(backend)])
        },
    }
}

pub open spec fn http_route(
    cfg: ConfigView,
    name: Seq<char>,
    section: Option<Seq<char>>,
    hostnames: Seq<Seq<char>>,
    rule: HttpRouteRuleView,
) -> HTTPRouteView {
    HTTPRouteView {
        metadata: metadata_with(cfg, name, labels_of(cfg), cfg.httproute_annotations),
        spec: HttpRouteSpecView {
            parent_refs: Some(seq![listener_set_ref(cfg, section)]),
            hostnames: Some(hostnames),
            rules: Some(seq![rule]),
        },
    }
}

pub open spec fn route_name(router_name: Seq<char>) -> Seq<char> {
    prefixed("hr"@, router_name)
}

/// The route of a router.
pub open spec fn route_of(
    cfg: ConfigView,
    name: Seq<char>,
    router: Router,
    middlewares: Middlewares,
    backend: ResolvedBackendView,
) -> HTTPRouteView {
    let rule = parsed(router.rule@);
    http_route(
        cfg,
        route_name(name),
        None,
        rule.hosts,
        rule_of(rule.path, rule_filters(router.middlewares.deep_view(), middlewares), backend),
    )
}

pub open spec fn router_protected(router: Router, middlewares: Middlewares) -> bool {
    is_protected(router.middlewares.deep_view(), middlewares)
}

/// A protected router needs an authorization service, or the explicit permission to go
/// out unauthenticated.
pub open spec fn router_allowed(cfg: ConfigView, router: Router, middlewares: Middlewares) -> bool {
    router_protected(router, middlewares) ==> cfg.ext_authz is Some
        || cfg.allow_unauthenticated_routes
}

/// A router gets a route when its rule can be translated, it is allowed, and its
/// service resolves.
pub open spec fn router_emitted(
    cfg: ConfigView,
    router: Router,
    middlewares: Middlewares,
    backends: Index,
) -> bool {
    &&& usable(parsed(router.rule@))
    &&& router_allowed(cfg, router, middlewares)
    &&& backends.contains_key(router.service@)
}

/// The router asks for HTTPS listeners.
pub open spec fn wants_https(cfg: ConfigView, router: Router) -> bool {
    cfg.enable_https_listeners && (router.tls is Some || router.entry_points.deep_view().contains(
        "https"@,
    ))
}

pub open spec fn with_hosts(
    index: RouteIndexView,
    hosts: Seq<Seq<char>>,
    https: bool,
) -> RouteIndexView {
    RouteIndexView {
        hostnames: index.hostnames.union(hosts.to_set()),
        https_hosts: if https {
            index.https_hosts.union(hosts.to_set())
        } else {
            index.https_hosts
        },
    }
}

pub open spec fn with_policy(
    cfg: ConfigView,
    name: Seq<char>,
    router: Router,
    middlewares: Middlewares,
    d: DesiredView,
) -> DesiredView {
    match cfg.ext_authz {
        Some(ea) => if router_protected(router, middlewares) {
            let route = route_name(name);
            DesiredView {
                security_policies: d.security_policies.insert(
                    policy_name(route),
                    security_policy(cfg, ea, route),
                ),
                ..d
            }
        } else {
            d
        },
        None => d,
    }
}

/// The desired objects with those of one router.
pub open spec fn with_router(
    cfg: ConfigView,
    name: Seq<char>,
    router: Router,
    middlewares: Middlewares,
    backends: Index,
    d: DesiredView,
) -> DesiredView {
    if router_emitted(cfg, router, middlewares, backends) {
        let e = with_policy(cfg, name, router, middlewares, d);
        DesiredView {
            http_routes: e.http_routes.insert(
                route_name(name),
                route_of(cfg, name, router, middlewares, backends[router.service@]),
            ),
            ..e
        }
    } else {
        d
    }
}

pub open spec fn with_routers(
    cfg: ConfigView,
    routers: Seq<(Seq<char>, Router)>,
    middlewares: Middlewares,
    backends: Index,
    d: DesiredView,
) -> DesiredView
    decreases routers.len(),
{
    if routers.len() == 0 {
        d
    } else {
        with_router(
            cfg,
            routers.last().0,
            routers.last().1,
            middlewares,
            backends,
            with_routers(cfg, routers.drop_last(), middlewares, backends, d),
        )
    }
}

/// The hosts of the emitted routers.
pub open spec fn hosts_of(
    cfg: ConfigView,
    routers: Seq<(Seq<char>, Router)>,
    middlewares: Middlewares,
    backends: Index,
) -> RouteIndexView
    decreases routers.len(),
{
    if routers.len() == 0 {
        no_hosts()
    } else {
        let rest = hosts_of(cfg, routers.drop_last(), middlewares, backends);
        let router = routers.last().1;
        if router_emitted(cfg, router, middlewares, backends) {
            with_hosts(rest, parsed(router.rule@).hosts, wants_https(cfg, router))
        } else {
            rest
        }
    }
}

// ---- laws -----------------------------------------------------------------------------

/// A route whose rule redirects has no backend references, and any other rule has one.
pub proof fn law_redirect_has_no_backend(
    cfg: ConfigView,
    name: Seq<char>,
    router: Router,
    middlewares: Middlewares,
    backend: ResolvedBackendView,
)
    ensures
        ({
            let rule = (route_of(cfg, name, router, middlewares, backend).spec.rules->0)[0];
            let redirects = rule.filters is Some && terminating(rule.filters->0);
            &&& redirects ==> rule.backend_refs is None
            &&& !redirects ==> rule.backend_refs == Some(seq![backend_ref(backend)])
        }),
{
}

/// Every route was made from a router that may be emitted.
pub proof fn law_routes_come_from_emitted_routers(
    cfg: ConfigView,
    routers: Seq<(Seq<char>, Router)>,
    middlewares: Middlewares,
    backends: Index,
    d: DesiredView,
    route: Seq<char>,
)
    requires
        with_routers(cfg, routers, middlewares, backends, d).http_routes.contains_key(route),
    ensures
        ({
            let after = with_routers(cfg, routers, middlewares, backends, d).http_routes;
            ||| d.http_routes.contains_key(route) && after[route] == d.http_routes[route]
            ||| exists|i: int|
                0 <= i < routers.len() && router_emitted(
                    cfg,
                    (#[trigger] routers[i]).1,
                    middlewares,
                    backends,
                ) && route == route_name(routers[i].0) && after[route] == route_of(
                    cfg,
                    routers[i].0,
                    routers[i].1,
                    middlewares,
                    backends[routers[i].1.service@],
                )
        }),
    decreases routers.len(),
{
    if routers.len() > 0 {
        let n = routers.len() - 1;
        let (name, router) = routers[n];
        if !(router_emitted(cfg, router, middlewares, backends) && route == route_name(name)) {
            let rest = routers.drop_last();
            law_routes_come_from_emitted_routers(cfg, rest, middlewares, backends, d, route);
            let before = with_routers(cfg, rest, middlewares, backends, d).http_routes;
            if !(d.http_routes.contains_key(route) && before[route] == d.http_routes[route]) {
                let i = choose|i: int|
                    0 <= i < rest.len() && router_emitted(
                        cfg,
                        (#[trigger] rest[i]).1,
                        middlewares,
                        backends,
                    ) && route == route_name(rest[i].0) && before[route] == route_of(
                        cfg,
                        rest[i].0,
                        rest[i].1,
                        middlewares,
                        backends[rest[i].1.service@],
                    );
                assert(routers[i] == rest[i]);
            }
        }
    }
}

/// A protected resource is never exposed: without an authorization service and without
/// the explicit override, no protected router is emitted.
pub proof fn law_protected_routers_are_gated(
    cfg: ConfigView,
    router: Router,
    middlewares: Middlewares,
    backends: Index,
)
    requires
        router_protected(router, middlewares),
        cfg.ext_authz is None,
        !cfg.allow_unauthenticated_routes,
    ensures
        !router_emitted(cfg, router, middlewares, backends),
{
}

/// Every emitted router has a route under its name.
pub proof fn law_emitted_routers_have_routes(
    cfg: ConfigView,
    routers: Seq<(Seq<char>, Router)>,
    middlewares: Middlewares,
    backends: Index,
    d: DesiredView,
    i: int,
)
    requires
        0 <= i < routers.len(),
        router_emitted(cfg, routers[i].1, middlewares, backends),
    ensures
        with_routers(cfg, routers, middlewares, backends, d).http_routes.contains_key(
            route_name(routers[i].0),
        ),
    decreases routers.len(),
{
    if i < routers.len() - 1 {
        let rest = routers.drop_last();
        assert(rest[i] == routers[i]);
        law_emitted_routers_have_routes(cfg, rest, middlewares, backends, d, i);
    }
}

/// Every protected route that is emitted with an authorization service configured has a
/// security policy under the policy name of its route.
pub proof fn law_protected_routes_have_policies(
    cfg: ConfigView,
    routers: Seq<(Seq<char>, Router)>,
    middlewares: Middlewares,
    backends: Index,
    d: DesiredView,
    i: int,
)
    requires
        0 <= i < routers.len(),
        cfg.ext_authz is Some,
        router_emitted(cfg, routers[i].1, middlewares, backends),
        router_protected(routers[i].1, middlewares),
    ensures
        with_routers(cfg, routers, middlewares, backends, d).security_policies.contains_key(
            policy_name(route_name(routers[i].0)),
        ),
    decreases routers.len(),
{
    if i < routers.len() - 1 {
        let rest = routers.drop_last();
        assert(rest[i] == routers[i]);
        law_protected_routes_have_policies(cfg, rest, middlewares, backends, d, i);
    }
}

/// The policy of an emitted route: it fails closed, and it targets that route.
pub open spec fn guards_route(d: DesiredView, policy: Seq<char>) -> bool {
    let spec = d.security_policies[policy].spec;
    &&& spec.target_refs.len() == 1
    &&& d.http_routes.contains_key(spec.target_refs[0].name)
    &&& policy == policy_name(spec.target_refs[0].name)
    &&& spec.ext_auth matches Some(ext)
    &&& ext.fail_open == Some(false)
}

/// Every security policy fails closed and targets an emitted route, after whose name it
/// is named.
pub proof fn law_policies_guard_routes(
    cfg: ConfigView,
    routers: Seq<(Seq<char>, Router)>,
    middlewares: Middlewares,
    backends: Index,
    d: DesiredView,
    policy: Seq<char>,
)
    requires
        forall|p: Seq<char>| #[trigger]
            d.security_policies.contains_key(p) ==> guards_route(d, p),
        with_routers(cfg, routers, middlewares, backends, d).security_policies.contains_key(policy),
    ensures
        guards_route(with_routers(cfg, routers, middlewares, backends, d), policy),
    decreases routers.len(),
{
    if routers.len() > 0 {
        let rest = routers.drop_last();
        let before = with_routers(cfg, rest, middlewares, backends, d);
        let (name, router) = routers.last();
        let renewed = router_emitted(cfg, router, middlewares, backends) && router_protected(
            router,
            middlewares,
        ) && cfg.ext_authz is Some && policy == policy_name(route_name(name));
        if !renewed {
            law_policies_guard_routes(cfg, rest, middlewares, backends, d, policy);
        }
    }
}

/// Every host of an emitted router is among the hosts that get listeners.
pub proof fn law_emitted_hosts_are_indexed(
    cfg: ConfigView,
    routers: Seq<(Seq<char>, Router)>,
    middlewares: Middlewares,
    backends: Index,
    i: int,
    host: Seq<char>,
)
    requires
        0 <= i < routers.len(),
        router_emitted(cfg, routers[i].1, middlewares, backends),
        parsed(routers[i].1.rule@).hosts.contains(host),
    ensures
        hosts_of(cfg, routers, middlewares, backends).hostnames.contains(host),
        wants_https(cfg, routers[i].1) ==> hosts_of(
            cfg,
            routers,
            middlewares,
            backends,
        ).https_hosts.contains(host),
    decreases routers.len(),
{
    if i < routers.len() - 1 {
        let rest = routers.drop_last();
        assert(rest[i] == routers[i]);
        law_emitted_hosts_are_indexed(cfg, rest, middlewares, backends, i, host);
    }
}

// ---- functions ----------------------------------------------------------------------------

pub fn listener_set_parent(cfg: &Config, section: Option<String>) -> (r: ParentRef)
    ensures
        r.deep_view() == listener_set_ref(cfg.deep_view(), section.deep_view()),
{
    ParentRef {
        group: Some("gateway.networking.k8s.io".to_owned()),
        kind: Some("ListenerSet".to_owned()),
        name: cfg.listener_set_name.clone(),
        namespace: Some(cfg.namespace.clone()),
        section_name: section,
    }
}

pub fn reference_to(backend: &ResolvedBackend) -> (r: BackendRef)
    ensures
        r.deep_view() == backend_ref(backend.deep_view()),
{
    BackendRef {
        group: Some(backend.group.clone()),
        kind: Some(backend.kind.clone()),
        name: backend.name.clone(),
        namespace: text::copy_opt(&backend.namespace),
        port: Some(backend.port),
        weight: Some(1),
    }
}

fn path_matches(path: &Option<PathMatch>) -> (r: Option<Vec<RouteMatch>>)
    ensures
        r.deep_view() == matches_of(path.deep_view()),
{
    match path {
        Some(p) => {
            let kind = match p.kind {
                PathMatchKind::Exact => PathMatcherType::Exact,
                PathMatchKind::Prefix => PathMatcherType::PathPrefix,
                PathMatchKind::Regex => PathMatcherType::RegularExpression,
            };
            let m = RouteMatch {
                path: Some(PathMatcher { kind: Some(kind), value: Some(p.value.clone()) }),
                headers: None,
            };
            let matches = vec![m];
            proof {
                text::lemma_one(matches, m);
            }
            Some(matches)
        },
        None => None,
    }
}

fn redirects(filters: &Vec<RouteFilter>) -> (r: bool)
    ensures
        r == terminating(filters.deep_view()),
{
    let ghost all = filters.deep_view();
    let mut i: usize = 0;
    while i < filters.len()
        invariant
            all == filters.deep_view(),
            i <= filters@.len(),
            forall|j: int| 0 <= j < i ==> (#[trigger] all[j]).kind != FilterType::RequestRedirect,
        decreases filters@.len() - i,
    {
        assert(all[i as int] == filters@[i as int].deep_view());
        if filters[i].kind == FilterType::RequestRedirect {
            assert(all[i as int].kind == FilterType::RequestRedirect);
            return true;
        }
        i += 1;
    }
    false
}

fn build_rule(path: &Option<PathMatch>, filters: Vec<RouteFilter>, backend: &ResolvedBackend) -> (r:
    HttpRouteRule)
    ensures
        r.deep_view() == rule_of(path.deep_view(), filters.deep_view(), backend.deep_view()),
{
    let matches = path_matches(path);
    let backend_refs = if redirects(&filters) {
        None
    } else {
        let b = reference_to(backend);
        let refs = vec![b];
        proof {
            text::lemma_one(refs, b);
        }
        Some(refs)
    };
    HttpRouteRule {
        matches,
        filters: if filters.len() == 0 {
            None
        } else {
            Some(filters)
        },
        backend_refs,
    }
}

/// An HTTPRoute with one rule, attached to the listener set.
pub fn build_http_route(
    cfg: &Config,
    name: &str,
    section: Option<String>,
    hostnames: Vec<String>,
    rule: HttpRouteRule,
) -> (r: HTTPRoute)
    ensures
        r.deep_view() == http_route(
            cfg.deep_view(),
            name@,
            section.deep_view(),
            hostnames.deep_view(),
            rule.deep_view(),
        ),
{
    let labels = owner_labels(cfg, name);
    let parent = listener_set_parent(cfg, section);
    let parent_refs = vec![parent];
    let rules = vec![rule];
    proof {
        text::lemma_one(parent_refs, parent);
        text::lemma_one(rules, rule);
    }
    HTTPRoute {
        metadata: managed_metadata_with(cfg, name, labels, &cfg.httproute_annotations),
        spec: HttpRouteSpec {
            parent_refs: Some(parent_refs),
            hostnames: Some(hostnames),
            rules: Some(rules),
        },
    }
}

fn asks_for_https(cfg: &Config, router: &Router) -> (r: bool)
    ensures
        r == wants_https(cfg.deep_view(), *router),
{
    if !cfg.enable_https_listeners {
        return false;
    }
    if router.tls.is_some() {
        return true;
    }
    let ghost all = router.entry_points.deep_view();
    let mut i: usize = 0;
    while i < router.entry_points.len()
        invariant
            all == router.entry_points.deep_view(),
            cfg.enable_https_listeners,
            i <= router.entry_points@.len(),
            forall|j: int| 0 <= j < i ==> all[j] != "https"@,
        decreases router.entry_points@.len() - i,
    {
        assert(all[i as int] == router.entry_points@[i as int]@);
        if text::same(router.entry_points[i].as_str(), "https") {
            return true;
        }
        i += 1;
    }
    false
}

fn add_hosts(index: &mut RouteIndex, hosts: &Vec<String>, https: bool)
    ensures
        final(index).deep_view() == with_hosts(old(index).deep_view(), hosts.deep_view(), https),
{
    let ghost all = hosts.deep_view();
    let ghost start = index.deep_view();
    let mut i: usize = 0;
    assert(with_hosts(start, all.take(0), https) =~= start);
    while i < hosts.len()
        invariant
            all == hosts.deep_view(),
            i <= hosts@.len(),
            index.deep_view() == with_hosts(start, all.take(i as int), https),
        decreases hosts@.len() - i,
    {
        let host = hosts[i].clone();
        assert(all.take(i + 1) =~= all.take(i as int).push(host@));
        assert(all.take(i + 1).to_set() =~= all.take(i as int).to_set().insert(host@)) by {
            let a = all.take(i + 1);
            let b = all.take(i as int);
            assert forall|x: Seq<char>| a.to_set().contains(x) <==> b.to_set().insert(
                host@,
            ).contains(x) by {
                if a.contains(x) {
                    let k = choose|k: int| 0 <= k < a.len() && a[k] == x;
                    if k < b.len() {
                        assert(b[k] == x);
                    }
                }
                if b.contains(x) {
                    let k = choose|k: int| 0 <= k < b.len() && b[k] == x;
                    assert(a[k] == x);
                }
                assert(a[i as int] == host@);
            }
        }
        if https {
            index.https_hosts.insert(host.clone());
        }
        index.hostnames.insert(host);
        i += 1;
        assert(index.deep_view() =~= with_hosts(start, all.take(i as int), https));
    }
    assert(all.take(i as int) =~= all);
}

/// Build the routes of pangolin's routers, and the policies of the protected ones.
pub fn build_routes(
    cfg: &Config,
    dyn_config: &TraefikDynamicConfig,
    backends: &BackendIndex,
    desired: &mut Desired,
) -> (index: RouteIndex)
    ensures
        index.deep_view() == hosts_of(
            cfg.deep_view(),
            dyn_config.http.routers.entries(),
            dyn_config.http.middlewares@,
            backends.deep_view(),
        ),
        final(desired).deep_view() == with_routers(
            cfg.deep_view(),
            dyn_config.http.routers.entries(),
            dyn_config.http.middlewares@,
            backends.deep_view(),
            old(desired).deep_view(),
        ),
{
    broadcast use lemma_deep_insert;

    let http = &dyn_config.http;
    let ghost e = http.routers.entries();
    let ghost c = cfg.deep_view();
    let ghost m = http.middlewares@;
    let ghost b = backends.deep_view();
    let ghost start = desired.deep_view();
    let mut index = RouteIndex::new();
    let n: usize = http.routers.len();
    let mut i: usize = 0;
    assert(e.take(0) =~= Seq::<(Seq<char>, Router)>::empty());
    while i < n
        invariant
            e == http.routers.entries(),
            c == cfg.deep_view(),
            m == http.middlewares@,
            b == backends.deep_view(),
            n == e.len(),
            i <= n,
            index.deep_view() == hosts_of(c, e.take(i as int), m, b),
            desired.deep_view() == with_routers(c, e.take(i as int), m, b, start),
        decreases n - i,
    {
        let name = http.routers.key_at(i);
        let router = http.routers.value_at(i);
        assert(e.take(i + 1).drop_last() =~= e.take(i as int));
        assert(e.take(i + 1).last() == (name@, *router));
        i += 1;
        build_route(cfg, name.as_str(), router, http, backends, &mut index, desired);
    }
    assert(e.take(i as int) =~= e);
    index
}

/// Build the route of one router, where it gets one.
fn build_route(
    cfg: &Config,
    name: &str,
    router: &Router,
    http: &HttpConfig,
    backends: &BackendIndex,
    index: &mut RouteIndex,
    desired: &mut Desired,
)
    ensures
        final(desired).deep_view() == with_router(
            cfg.deep_view(),
            name@,
            *router,
            http.middlewares@,
            backends.deep_view(),
            old(desired).deep_view(),
        ),
        final(index).deep_view() == if router_emitted(
            cfg.deep_view(),
            *router,
            http.middlewares@,
            backends.deep_view(),
        ) {
            with_hosts(
                old(index).deep_view(),
                parsed(router.rule@).hosts,
                wants_https(cfg.deep_view(), *router),
            )
        } else {
            old(index).deep_view()
        },
{
    broadcast use lemma_deep_insert;

    let parsed_rule = rule::parse(router.rule.as_str());
    if !parsed_rule.is_usable() {
        return;
    }
    // Pangolin marks auth-enforced resources by attaching its `badger`
    // plugin middleware. Envoy can't run that plugin, so the route must be
    // covered by an ext-authz SecurityPolicy, or explicitly allowed to go
    // out unauthenticated, or it is skipped.
    let protected = middleware::requires_badger_auth(&router.middlewares, &http.middlewares);
    if protected && cfg.ext_authz.is_none() && !cfg.allow_unauthenticated_routes {
        return;
    }
    let backend = match backends.get(router.service.as_str()) {
        Some(b) => b,
        None => {
            return;
        },
    };
    let filters = middleware::build_filters(name, &router.middlewares, &http.middlewares);
    let rule = build_rule(&parsed_rule.path, filters, backend);
    let route_label = prefixed_label("hr", name);
    let https = asks_for_https(cfg, router);
    add_hosts(index, &parsed_rule.hosts, https);
    let route = build_http_route(cfg, route_label.as_str(), None, parsed_rule.hosts, rule);
    if protected {
        if let Some(ea) = &cfg.ext_authz {
            let policy = ext_authz::build_security_policy(cfg, ea, route_label.as_str());
            let policy_label = prefixed_label("sp", route_label.as_str());
            desired.security_policies.insert(policy_label, policy);
        }
    }
    desired.http_routes.insert(route_label, route);
}

} // verus!

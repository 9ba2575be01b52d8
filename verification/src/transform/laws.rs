//! What holds of every desired set.

use vstd::prelude::*;

use crate::apply::{annotations_of, metadata};
use crate::config::{BackendKind, ConfigView};
use crate::gateway::{L4RouteView, ListenerView, ParentRefView};
use crate::json::Json;
use crate::kubernetes::ObjectMetaView;
use crate::pangolin::types::{
    L4Config, L4Router, L4Service, Router, Service as PangService, TraefikDynamicConfig,
};
use crate::strmap::{in_order, lemma_in_order_lists};
use crate::transform::backend::{
    backend_index, emitted, http_family, infixed, l4_backend_index, l4_service_class, object_name,
    resolved, service_class, skips_verify, with_backends, with_l4_backends, ClassificationView,
    Family, Index, ResolvedBackendView,
};
use crate::transform::desired::{nothing, DesiredView};
use crate::transform::l4::{
    claimed_ports, family_of, l4_route, l4_route_name, port_listener, ports_of_router,
    section_name, section_names, with_l4_routers, L4Protocol,
};
use crate::transform::listener::http_listener;
use crate::transform::middleware::Middlewares;
use crate::transform::naming::{is_label, label, law_label_is_valid, name_hash};
use crate::transform::route::{
    backend_ref, guards_route, hosts_of, law_emitted_hosts_are_indexed,
    law_emitted_routers_have_routes, law_policies_guard_routes,
    law_routes_come_from_emitted_routers, listener_set_ref, route_name, route_of, router_emitted,
    router_protected, with_routers,
};
use crate::transform::rule::parsed;
use crate::transform::{
    desired_of, family_listeners, http_backends, http_hosts, raw_listeners, routed, with_family,
    with_http,
};

verus! {

proof fn lemma_label(input: Seq<char>)
    ensures
        is_label(label(input)),
{
    law_label_is_valid(input, name_hash(input));
}

// ---- names and ownership ------------------------------------------------------------

/// The three labels that an object can carry are under different keys.
pub open spec fn distinct_labels(cfg: ConfigView) -> bool {
    &&& cfg.managed_label_key != cfg.instance_label_key
    &&& cfg.managed_label_key != "kubernetes.io/service-name"@
    &&& cfg.instance_label_key != "kubernetes.io/service-name"@
}

/// The object is named by its key, which is a DNS label, lives in the controller
/// namespace, and is matched by the selector of garbage collection.
pub open spec fn owned(cfg: ConfigView, key: Seq<char>, meta: ObjectMetaView) -> bool {
    &&& is_label(key)
    &&& meta.name == Some(key)
    &&& meta.namespace == Some(cfg.namespace)
    &&& meta.labels matches Some(labels)
    &&& distinct_labels(cfg) ==> {
        &&& labels.contains_key(cfg.managed_label_key)
        &&& labels[cfg.managed_label_key] == cfg.managed_label_value
        &&& labels.contains_key(cfg.instance_label_key)
        &&& labels[cfg.instance_label_key] == cfg.instance_label_value
    }
}

pub open spec fn all_owned(cfg: ConfigView, d: DesiredView) -> bool {
    &&& forall|k: Seq<char>| #[trigger]
        d.http_routes.contains_key(k) ==> owned(cfg, k, d.http_routes[k].metadata)
    &&& forall|k: Seq<char>| #[trigger]
        d.listener_sets.contains_key(k) ==> owned(cfg, k, d.listener_sets[k].metadata)
    &&& forall|k: Seq<char>| #[trigger]
        d.services.contains_key(k) ==> owned(cfg, k, d.services[k].metadata)
    &&& forall|k: Seq<char>| #[trigger]
        d.endpoint_slices.contains_key(k) ==> owned(cfg, k, d.endpoint_slices[k].metadata)
    &&& forall|k: Seq<char>| #[trigger]
        d.envoy_backends.contains_key(k) ==> owned(cfg, k, d.envoy_backends[k].metadata)
    &&& forall|k: Seq<char>| #[trigger]
        d.tcp_routes.contains_key(k) ==> owned(cfg, k, d.tcp_routes[k].metadata)
    &&& forall|k: Seq<char>| #[trigger]
        d.udp_routes.contains_key(k) ==> owned(cfg, k, d.udp_routes[k].metadata)
    &&& forall|k: Seq<char>| #[trigger]
        d.security_policies.contains_key(k) ==> owned(cfg, k, d.security_policies[k].metadata)
    &&& forall|k: Seq<char>| #[trigger]
        d.backend_tls_policies.contains_key(k) ==> owned(cfg, k, d.backend_tls_policies[k].metadata)
}

proof fn lemma_emitted_owned(
    cfg: ConfigView,
    name: Seq<char>,
    class: ClassificationView,
    family: Family,
    skip: bool,
    d: DesiredView,
)
    requires
        all_owned(cfg, d),
    ensures
        all_owned(cfg, emitted(cfg, name, class, family, skip, d)),
{
    lemma_object_name("be"@, family, name);
    lemma_object_name("svc"@, family, name);
    lemma_object_name("eps"@, family, name);
    lemma_object_name("btp"@, family, name);
}

proof fn lemma_object_name(base: Seq<char>, family: Family, name: Seq<char>)
    ensures
        is_label(object_name(base, family.infix, name)),
{
    let prefix = infixed(base, family.infix);
    lemma_label(prefix + seq!['-'] + name);
}

proof fn lemma_backends_owned(
    cfg: ConfigView,
    services: Seq<(Seq<char>, PangService)>,
    transports: Map<Seq<char>, Json>,
    d: DesiredView,
)
    requires
        all_owned(cfg, d),
    ensures
        all_owned(cfg, with_backends(cfg, services, transports, d)),
    decreases services.len(),
{
    if services.len() > 0 {
        let (name, svc) = services.last();
        let rest = services.drop_last();
        lemma_backends_owned(cfg, rest, transports, d);
        lemma_emitted_owned(
            cfg,
            name,
            service_class(svc, cfg.backend_kind),
            http_family(),
            skips_verify(svc, transports),
            with_backends(cfg, rest, transports, d),
        );
    }
}

proof fn lemma_l4_backends_owned(
    cfg: ConfigView,
    services: Seq<(Seq<char>, L4Service)>,
    family: Family,
    d: DesiredView,
)
    requires
        all_owned(cfg, d),
    ensures
        all_owned(cfg, with_l4_backends(cfg, services, family, d)),
    decreases services.len(),
{
    if services.len() > 0 {
        let (name, svc) = services.last();
        let rest = services.drop_last();
        lemma_l4_backends_owned(cfg, rest, family, d);
        lemma_emitted_owned(
            cfg,
            name,
            l4_service_class(svc, cfg.backend_kind),
            family,
            false,
            with_l4_backends(cfg, rest, family, d),
        );
    }
}

proof fn lemma_routers_owned(
    cfg: ConfigView,
    routers: Seq<(Seq<char>, Router)>,
    middlewares: Middlewares,
    backends: Index,
    d: DesiredView,
)
    requires
        all_owned(cfg, d),
    ensures
        all_owned(cfg, with_routers(cfg, routers, middlewares, backends, d)),
    decreases routers.len(),
{
    if routers.len() > 0 {
        let name = routers.last().0;
        lemma_routers_owned(cfg, routers.drop_last(), middlewares, backends, d);
        lemma_label("hr"@ + seq!['-'] + name);
        lemma_label("sp"@ + seq!['-'] + route_name(name));
    }
}

proof fn lemma_l4_routers_owned(
    cfg: ConfigView,
    proto: L4Protocol,
    routers: Seq<(Seq<char>, L4Router)>,
    backends: Index,
    d: DesiredView,
)
    requires
        all_owned(cfg, d),
    ensures
        all_owned(cfg, with_l4_routers(cfg, proto, routers, backends, d)),
    decreases routers.len(),
{
    if routers.len() > 0 {
        lemma_l4_routers_owned(cfg, proto, routers.drop_last(), backends, d);
        lemma_label(family_of(proto).infix + seq!['-'] + routers.last().0);
    }
}

proof fn lemma_family_owned(
    cfg: ConfigView,
    block: Option<L4Config>,
    proto: L4Protocol,
    enabled: bool,
    d: DesiredView,
)
    requires
        all_owned(cfg, d),
    ensures
        all_owned(cfg, with_family(cfg, block, proto, enabled, d)),
{
    if let Some(l4) = block {
        let services = l4.services.entries();
        let family = family_of(proto);
        lemma_l4_backends_owned(cfg, services, family, d);
        lemma_l4_routers_owned(
            cfg,
            proto,
            l4.routers.entries(),
            l4_backend_index(cfg, services, family),
            with_l4_backends(cfg, services, family, d),
        );
    }
}

/// Names are guaranteed DNS-label safe, every object is named by its key, lives in the
/// controller namespace, and is found again by the selector of garbage collection.
pub proof fn law_objects_are_owned(cfg: ConfigView, config: TraefikDynamicConfig)
    ensures
        all_owned(cfg, desired_of(cfg, config)),
{
    let services = config.http.services.entries();
    let transports = config.http.servers_transports@;
    lemma_backends_owned(cfg, services, transports, nothing());
    lemma_routers_owned(
        cfg,
        config.http.routers.entries(),
        config.http.middlewares@,
        http_backends(cfg, config),
        with_backends(cfg, services, transports, nothing()),
    );
    let d = with_http(cfg, config, nothing());
    lemma_family_owned(cfg, config.tcp, L4Protocol::Tcp, cfg.enable_tcp_routes, d);
    lemma_family_owned(
        cfg,
        config.udp,
        L4Protocol::Udp,
        cfg.enable_udp_routes,
        with_family(cfg, config.tcp, L4Protocol::Tcp, cfg.enable_tcp_routes, d),
    );
    lemma_label(cfg.listener_set_name);
}

// ---- backends -----------------------------------------------------------------------

/// The slice names its service, which is desired too.
pub open spec fn slice_has_service(d: DesiredView, slice: Seq<char>) -> bool {
    &&& d.endpoint_slices[slice].metadata.labels matches Some(labels)
    &&& labels.contains_key("kubernetes.io/service-name"@)
    &&& d.services.contains_key(labels["kubernetes.io/service-name"@])
}

/// Objects without configured annotations carry the managed one alone.
pub open spec fn untagged(cfg: ConfigView, meta: ObjectMetaView) -> bool {
    meta.annotations == Some(annotations_of(cfg, Map::empty()))
}

/// The backend objects are those of the backend kind, every slice has its service, and
/// none of them carries configured annotations.
pub open spec fn backends_consistent(cfg: ConfigView, d: DesiredView) -> bool {
    &&& forall|k: Seq<char>| #[trigger]
        d.services.contains_key(k) ==> cfg.backend_kind == BackendKind::Service && untagged(
            cfg,
            d.services[k].metadata,
        )
    &&& forall|k: Seq<char>| #[trigger]
        d.endpoint_slices.contains_key(k) ==> cfg.backend_kind == BackendKind::Service
            && slice_has_service(d, k) && untagged(cfg, d.endpoint_slices[k].metadata)
    &&& forall|k: Seq<char>| #[trigger]
        d.backend_tls_policies.contains_key(k) ==> cfg.backend_kind == BackendKind::Service
            && untagged(cfg, d.backend_tls_policies[k].metadata)
    &&& forall|k: Seq<char>| #[trigger]
        d.envoy_backends.contains_key(k) ==> cfg.backend_kind == BackendKind::EnvoyBackend
            && untagged(cfg, d.envoy_backends[k].metadata)
}

proof fn lemma_emitted_consistent(
    cfg: ConfigView,
    name: Seq<char>,
    class: ClassificationView,
    family: Family,
    skip: bool,
    d: DesiredView,
)
    requires
        backends_consistent(cfg, d),
        cfg.backend_kind == BackendKind::Service ==> !(class is Fqdn),
    ensures
        backends_consistent(cfg, emitted(cfg, name, class, family, skip, d)),
{
    let e = emitted(cfg, name, class, family, skip, d);
    assert forall|k: Seq<char>| #[trigger] e.endpoint_slices.contains_key(k) implies cfg.backend_kind
        == BackendKind::Service && slice_has_service(e, k) && untagged(
        cfg,
        e.endpoint_slices[k].metadata,
    ) by {
        if k == object_name("eps"@, family.infix, name) && class is Ips {
        } else {
            assert(d.endpoint_slices.contains_key(k));
        }
    }
}

proof fn lemma_backends_consistent(
    cfg: ConfigView,
    services: Seq<(Seq<char>, PangService)>,
    transports: Map<Seq<char>, Json>,
    d: DesiredView,
)
    requires
        backends_consistent(cfg, d),
    ensures
        backends_consistent(cfg, with_backends(cfg, services, transports, d)),
    decreases services.len(),
{
    if services.len() > 0 {
        let (name, svc) = services.last();
        let rest = services.drop_last();
        lemma_backends_consistent(cfg, rest, transports, d);
        lemma_emitted_consistent(
            cfg,
            name,
            service_class(svc, cfg.backend_kind),
            http_family(),
            skips_verify(svc, transports),
            with_backends(cfg, rest, transports, d),
        );
    }
}

proof fn lemma_l4_backends_consistent(
    cfg: ConfigView,
    services: Seq<(Seq<char>, L4Service)>,
    family: Family,
    d: DesiredView,
)
    requires
        backends_consistent(cfg, d),
    ensures
        backends_consistent(cfg, with_l4_backends(cfg, services, family, d)),
    decreases services.len(),
{
    if services.len() > 0 {
        let (name, svc) = services.last();
        let rest = services.drop_last();
        lemma_l4_backends_consistent(cfg, rest, family, d);
        lemma_emitted_consistent(
            cfg,
            name,
            l4_service_class(svc, cfg.backend_kind),
            family,
            false,
            with_l4_backends(cfg, rest, family, d),
        );
    }
}

/// Two desired sets with the same backend objects.
pub open spec fn same_backends(a: DesiredView, b: DesiredView) -> bool {
    &&& a.services == b.services
    &&& a.endpoint_slices == b.endpoint_slices
    &&& a.envoy_backends == b.envoy_backends
    &&& a.backend_tls_policies == b.backend_tls_policies
}

proof fn lemma_routers_keep_backends(
    cfg: ConfigView,
    routers: Seq<(Seq<char>, Router)>,
    middlewares: Middlewares,
    backends: Index,
    d: DesiredView,
)
    ensures
        ({
            let e = with_routers(cfg, routers, middlewares, backends, d);
            &&& same_backends(e, d)
            &&& e.listener_sets == d.listener_sets
            &&& e.tcp_routes == d.tcp_routes
            &&& e.udp_routes == d.udp_routes
        }),
    decreases routers.len(),
{
    if routers.len() > 0 {
        lemma_routers_keep_backends(cfg, routers.drop_last(), middlewares, backends, d);
    }
}

proof fn lemma_l4_routers_keep(
    cfg: ConfigView,
    proto: L4Protocol,
    routers: Seq<(Seq<char>, L4Router)>,
    backends: Index,
    d: DesiredView,
)
    ensures
        ({
            let e = with_l4_routers(cfg, proto, routers, backends, d);
            &&& same_backends(e, d)
            &&& e.http_routes == d.http_routes
            &&& e.security_policies == d.security_policies
            &&& e.listener_sets == d.listener_sets
            &&& proto == L4Protocol::Tcp ==> e.udp_routes == d.udp_routes
            &&& proto == L4Protocol::Udp ==> e.tcp_routes == d.tcp_routes
        }),
    decreases routers.len(),
{
    if routers.len() > 0 {
        lemma_l4_routers_keep(cfg, proto, routers.drop_last(), backends, d);
    }
}

/// What adding backends leaves alone, and that no backend object goes away.
pub open spec fn only_more_backends(before: DesiredView, after: DesiredView) -> bool {
    &&& after.http_routes == before.http_routes
    &&& after.security_policies == before.security_policies
    &&& after.listener_sets == before.listener_sets
    &&& after.tcp_routes == before.tcp_routes
    &&& after.udp_routes == before.udp_routes
    &&& before.services.dom().subset_of(after.services.dom())
    &&& before.envoy_backends.dom().subset_of(after.envoy_backends.dom())
    &&& before.endpoint_slices.dom().subset_of(after.endpoint_slices.dom())
}

proof fn lemma_backends_grow(
    cfg: ConfigView,
    services: Seq<(Seq<char>, PangService)>,
    transports: Map<Seq<char>, Json>,
    d: DesiredView,
)
    ensures
        only_more_backends(d, with_backends(cfg, services, transports, d)),
    decreases services.len(),
{
    if services.len() > 0 {
        lemma_backends_grow(cfg, services.drop_last(), transports, d);
    }
}

proof fn lemma_l4_backends_grow(
    cfg: ConfigView,
    services: Seq<(Seq<char>, L4Service)>,
    family: Family,
    d: DesiredView,
)
    ensures
        only_more_backends(d, with_l4_backends(cfg, services, family, d)),
    decreases services.len(),
{
    if services.len() > 0 {
        lemma_l4_backends_grow(cfg, services.drop_last(), family, d);
    }
}

/// What a protocol family leaves alone.
proof fn lemma_family_keeps(
    cfg: ConfigView,
    block: Option<L4Config>,
    proto: L4Protocol,
    enabled: bool,
    d: DesiredView,
)
    ensures
        ({
            let e = with_family(cfg, block, proto, enabled, d);
            &&& e.http_routes == d.http_routes
            &&& e.security_policies == d.security_policies
            &&& e.listener_sets == d.listener_sets
            &&& proto == L4Protocol::Tcp ==> e.udp_routes == d.udp_routes
            &&& proto == L4Protocol::Udp ==> e.tcp_routes == d.tcp_routes
            &&& !enabled ==> e == d
            &&& d.services.dom().subset_of(e.services.dom())
            &&& d.envoy_backends.dom().subset_of(e.envoy_backends.dom())
            &&& d.endpoint_slices.dom().subset_of(e.endpoint_slices.dom())
            &&& backends_consistent(cfg, d) ==> backends_consistent(cfg, e)
        }),
{
    if let Some(l4) = block {
        let services = l4.services.entries();
        let family = family_of(proto);
        let e = with_l4_backends(cfg, services, family, d);
        lemma_l4_backends_grow(cfg, services, family, d);
        if backends_consistent(cfg, d) {
            lemma_l4_backends_consistent(cfg, services, family, d);
        }
        let index = l4_backend_index(cfg, services, family);
        let routers = l4.routers.entries();
        lemma_l4_routers_keep(cfg, proto, routers, index, e);
        let f = with_l4_routers(cfg, proto, routers, index, e);
        assert(backends_consistent(cfg, e) ==> backends_consistent(cfg, f)) by {
            if backends_consistent(cfg, e) {
                lemma_consistent_transfers(cfg, e, f);
            }
        }
    }
}

proof fn lemma_consistent_transfers(cfg: ConfigView, a: DesiredView, b: DesiredView)
    requires
        backends_consistent(cfg, a),
        same_backends(a, b),
    ensures
        backends_consistent(cfg, b),
{
    assert forall|k: Seq<char>| #[trigger] b.endpoint_slices.contains_key(k) implies slice_has_service(
        b,
        k,
    ) by {
        assert(a.endpoint_slices.contains_key(k));
        assert(slice_has_service(a, k));
    }
}

/// The parts of `desired_of`, with what each step leaves alone.
proof fn lemma_steps(cfg: ConfigView, config: TraefikDynamicConfig)
    ensures
        ({
            let b = with_backends(
                cfg,
                config.http.services.entries(),
                config.http.servers_transports@,
                nothing(),
            );
            let h = with_http(cfg, config, nothing());
            let d = desired_of(cfg, config);
            &&& only_more_backends(nothing(), b)
            &&& same_backends(b, h)
            &&& d.http_routes == h.http_routes
            &&& d.security_policies == h.security_policies
            &&& backends_consistent(cfg, d)
            &&& h.services.dom().subset_of(d.services.dom())
            &&& h.envoy_backends.dom().subset_of(d.envoy_backends.dom())
            &&& h.endpoint_slices.dom().subset_of(d.endpoint_slices.dom())
            &&& !cfg.enable_tcp_routes ==> d.tcp_routes == nothing().tcp_routes
            &&& !cfg.enable_udp_routes ==> d.udp_routes == nothing().udp_routes
            &&& d.listener_sets == nothing().listener_sets.insert(
                label(cfg.listener_set_name),
                d.listener_sets[label(cfg.listener_set_name)],
            )
        }),
{
    let services = config.http.services.entries();
    let transports = config.http.servers_transports@;
    let b = with_backends(cfg, services, transports, nothing());
    lemma_backends_grow(cfg, services, transports, nothing());
    lemma_backends_consistent(cfg, services, transports, nothing());
    lemma_routers_keep_backends(
        cfg,
        config.http.routers.entries(),
        config.http.middlewares@,
        http_backends(cfg, config),
        b,
    );
    let h = with_http(cfg, config, nothing());
    lemma_consistent_transfers(cfg, b, h);
    let t = with_family(cfg, config.tcp, L4Protocol::Tcp, cfg.enable_tcp_routes, h);
    lemma_family_keeps(cfg, config.tcp, L4Protocol::Tcp, cfg.enable_tcp_routes, h);
    lemma_family_keeps(cfg, config.udp, L4Protocol::Udp, cfg.enable_udp_routes, t);
    let r = routed(cfg, config);
    lemma_consistent_transfers(cfg, r, desired_of(cfg, config));
}

/// Envoy mode synthesizes no Services, EndpointSlices or TLS policies, and service mode
/// no Envoy Backends; every EndpointSlice belongs to a desired Service; and none of
/// these objects carries configured annotations.
pub proof fn law_backends_follow_their_kind(cfg: ConfigView, config: TraefikDynamicConfig)
    ensures
        backends_consistent(cfg, desired_of(cfg, config)),
{
    lemma_steps(cfg, config);
}

/// Configured annotations are stamped onto every HTTPRoute and onto the ListenerSet,
/// next to the managed one.
pub proof fn law_annotations_are_stamped(
    cfg: ConfigView,
    config: TraefikDynamicConfig,
    route: Seq<char>,
)
    requires
        desired_of(cfg, config).http_routes.contains_key(route),
    ensures
        desired_of(cfg, config).http_routes[route].metadata.annotations == Some(
            annotations_of(cfg, cfg.httproute_annotations),
        ),
        desired_of(cfg, config).listener_sets[label(
            cfg.listener_set_name,
        )].metadata.annotations == Some(annotations_of(cfg, cfg.listenerset_annotations)),
{
    lemma_route_source(cfg, config, route);
}

/// The router behind a route.
proof fn lemma_route_source(cfg: ConfigView, config: TraefikDynamicConfig, route: Seq<char>) -> (i: int)
    requires
        desired_of(cfg, config).http_routes.contains_key(route),
    ensures
        ({
            let routers = config.http.routers.entries();
            let m = config.http.middlewares@;
            let index = http_backends(cfg, config);
            &&& 0 <= i < routers.len()
            &&& router_emitted(cfg, routers[i].1, m, index)
            &&& route == route_name(routers[i].0)
            &&& desired_of(cfg, config).http_routes[route] == route_of(
                cfg,
                routers[i].0,
                routers[i].1,
                m,
                index[routers[i].1.service@],
            )
        }),
{
    lemma_steps(cfg, config);
    let routers = config.http.routers.entries();
    let m = config.http.middlewares@;
    let index = http_backends(cfg, config);
    let b = with_backends(
        cfg,
        config.http.services.entries(),
        config.http.servers_transports@,
        nothing(),
    );
    law_routes_come_from_emitted_routers(cfg, routers, m, index, b, route);
    let after = with_routers(cfg, routers, m, index, b).http_routes;
    choose|i: int|
        0 <= i < routers.len() && router_emitted(cfg, (#[trigger] routers[i]).1, m, index) && route
            == route_name(routers[i].0) && after[route] == route_of(
            cfg,
            routers[i].0,
            routers[i].1,
            m,
            index[routers[i].1.service@],
        )
}

// ---- references -----------------------------------------------------------------------

/// A backend in the controller namespace is desired; others are existing Services.
pub open spec fn reference_resolves(b: ResolvedBackendView, d: DesiredView) -> bool {
    b.namespace is None ==> {
        ||| b.kind == "Backend"@ && d.envoy_backends.contains_key(b.name)
        ||| b.kind == "Service"@ && d.services.contains_key(b.name)
    }
}

proof fn lemma_index_resolves(
    cfg: ConfigView,
    services: Seq<(Seq<char>, PangService)>,
    transports: Map<Seq<char>, Json>,
    d: DesiredView,
    name: Seq<char>,
)
    requires
        backend_index(cfg, services).contains_key(name),
    ensures
        reference_resolves(
            backend_index(cfg, services)[name],
            with_backends(cfg, services, transports, d),
        ),
    decreases services.len(),
{
    if services.len() > 0 {
        let (n, svc) = services.last();
        let rest = services.drop_last();
        let class = service_class(svc, cfg.backend_kind);
        let found = resolved(cfg, n, class, http_family());
        if !(found is Some && n == name) {
            lemma_index_resolves(cfg, rest, transports, d, name);
        }
    }
}

/// Every backend reference of a route resolves: it names a desired object, or an
/// existing Service by its namespace.
pub proof fn law_backend_references_resolve(
    cfg: ConfigView,
    config: TraefikDynamicConfig,
    route: Seq<char>,
) -> (b: ResolvedBackendView)
    requires
        desired_of(cfg, config).http_routes.contains_key(route),
    ensures
        ({
            let d = desired_of(cfg, config);
            let rule = (d.http_routes[route].spec.rules->0)[0];
            &&& rule.backend_refs is Some ==> rule.backend_refs == Some(seq![backend_ref(b)])
            &&& reference_resolves(b, d)
        }),
{
    let i = lemma_route_source(cfg, config, route);
    lemma_steps(cfg, config);
    let router = config.http.routers.entries()[i].1;
    let services = config.http.services.entries();
    let transports = config.http.servers_transports@;
    lemma_index_resolves(cfg, services, transports, nothing(), router.service@);
    http_backends(cfg, config)[router.service@]
}

/// A pangolin service with IP targets gets, in service mode, both a Service and an
/// EndpointSlice under its names.
pub proof fn law_ip_services_come_in_pairs(
    cfg: ConfigView,
    config: TraefikDynamicConfig,
    i: int,
)
    requires
        0 <= i < config.http.services.entries().len(),
        cfg.backend_kind == BackendKind::Service,
        service_class(config.http.services.entries()[i].1, cfg.backend_kind) is Ips,
    ensures
        ({
            let name = config.http.services.entries()[i].0;
            let d = desired_of(cfg, config);
            &&& d.services.contains_key(object_name("svc"@, http_family().infix, name))
            &&& d.endpoint_slices.contains_key(object_name("eps"@, http_family().infix, name))
        }),
{
    lemma_steps(cfg, config);
    lemma_ip_pair(
        cfg,
        config.http.services.entries(),
        config.http.servers_transports@,
        nothing(),
        i,
    );
}

proof fn lemma_ip_pair(
    cfg: ConfigView,
    services: Seq<(Seq<char>, PangService)>,
    transports: Map<Seq<char>, Json>,
    d: DesiredView,
    i: int,
)
    requires
        0 <= i < services.len(),
        cfg.backend_kind == BackendKind::Service,
        service_class(services[i].1, cfg.backend_kind) is Ips,
    ensures
        ({
            let name = services[i].0;
            let e = with_backends(cfg, services, transports, d);
            &&& e.services.contains_key(object_name("svc"@, http_family().infix, name))
            &&& e.endpoint_slices.contains_key(object_name("eps"@, http_family().infix, name))
        }),
    decreases services.len(),
{
    if i < services.len() - 1 {
        let rest = services.drop_last();
        assert(rest[i] == services[i]);
        lemma_ip_pair(cfg, rest, transports, d, i);
    }
}

/// An emitted router's route is desired.
pub proof fn lemma_emitted_route_is_desired(cfg: ConfigView, config: TraefikDynamicConfig, i: int)
    requires
        0 <= i < config.http.routers.entries().len(),
        router_emitted(
            cfg,
            config.http.routers.entries()[i].1,
            config.http.middlewares@,
            http_backends(cfg, config),
        ),
    ensures
        desired_of(cfg, config).http_routes.contains_key(
            route_name(config.http.routers.entries()[i].0),
        ),
{
    lemma_steps(cfg, config);
    let b = with_backends(
        cfg,
        config.http.services.entries(),
        config.http.servers_transports@,
        nothing(),
    );
    law_emitted_routers_have_routes(
        cfg,
        config.http.routers.entries(),
        config.http.middlewares@,
        http_backends(cfg, config),
        b,
        i,
    );
}

// ---- rules ----------------------------------------------------------------------------

/// Each route stands for a router whose rule was understood whole, and serves that rule's
/// hosts: nothing with an unsupported construct is routed.
pub proof fn law_rules_are_understood(
    cfg: ConfigView,
    config: TraefikDynamicConfig,
    route: Seq<char>,
) -> (i: int)
    requires
        desired_of(cfg, config).http_routes.contains_key(route),
    ensures
        ({
            let routers = config.http.routers.entries();
            let rule = parsed(routers[i].1.rule@);
            &&& 0 <= i < routers.len()
            &&& route == route_name(routers[i].0)
            &&& !rule.has_disjunction && !rule.has_negation && !rule.host_regexp
            &&& rule.unsupported_predicates.len() == 0
            &&& rule.hosts.len() > 0
            &&& desired_of(cfg, config).http_routes[route].spec.hostnames == Some(rule.hosts)
        }),
{
    lemma_route_source(cfg, config, route)
}

// ---- authentication -------------------------------------------------------------------

/// Without an authorization service and without the explicit override, every emitted
/// route comes from an unprotected router.
pub proof fn law_no_protected_route_leaks(
    cfg: ConfigView,
    config: TraefikDynamicConfig,
    route: Seq<char>,
) -> (i: int)
    requires
        cfg.ext_authz is None,
        !cfg.allow_unauthenticated_routes,
        desired_of(cfg, config).http_routes.contains_key(route),
    ensures
        ({
            let routers = config.http.routers.entries();
            &&& 0 <= i < routers.len()
            &&& route == route_name(routers[i].0)
            &&& !router_protected(routers[i].1, config.http.middlewares@)
            &&& desired_of(cfg, config).http_routes[route] == route_of(
                cfg,
                routers[i].0,
                routers[i].1,
                config.http.middlewares@,
                http_backends(cfg, config)[routers[i].1.service@],
            )
        }),
{
    lemma_route_source(cfg, config, route)
}

/// Every security policy fails closed and targets a desired route.
pub proof fn law_policies_fail_closed(
    cfg: ConfigView,
    config: TraefikDynamicConfig,
    policy: Seq<char>,
)
    requires
        desired_of(cfg, config).security_policies.contains_key(policy),
    ensures
        guards_route(desired_of(cfg, config), policy),
{
    lemma_steps(cfg, config);
    let b = with_backends(
        cfg,
        config.http.services.entries(),
        config.http.servers_transports@,
        nothing(),
    );
    law_policies_guard_routes(
        cfg,
        config.http.routers.entries(),
        config.http.middlewares@,
        http_backends(cfg, config),
        b,
        policy,
    );
}

// ---- listeners ------------------------------------------------------------------------

/// There is exactly one listener set.
pub proof fn law_one_listener_set(cfg: ConfigView, config: TraefikDynamicConfig, name: Seq<char>)
    ensures
        desired_of(cfg, config).listener_sets.contains_key(name) <==> name == label(
            cfg.listener_set_name,
        ),
{
    lemma_steps(cfg, config);
}

pub open spec fn listeners(cfg: ConfigView, config: TraefikDynamicConfig) -> Seq<ListenerView> {
    desired_of(cfg, config).listener_sets[label(cfg.listener_set_name)].spec.listeners
}

/// The parent is a listener set that is desired, in the namespace where it is written.
pub open spec fn is_written_set(d: DesiredView, parent: ParentRefView) -> bool {
    &&& parent.kind == Some("ListenerSet"@)
    &&& d.listener_sets.contains_key(parent.name)
    &&& d.listener_sets[parent.name].metadata.name == Some(parent.name)
    &&& d.listener_sets[parent.name].metadata.namespace == parent.namespace
}

proof fn lemma_parent_is_written(
    cfg: ConfigView,
    config: TraefikDynamicConfig,
    section: Option<Seq<char>>,
)
    requires
        set_keeps_its_name(cfg),
    ensures
        is_written_set(desired_of(cfg, config), listener_set_ref(cfg, section)),
{
    lemma_steps(cfg, config);
}

/// The configured name of the listener set is a DNS label already, so that the set is
/// written under it.
pub open spec fn set_keeps_its_name(cfg: ConfigView) -> bool {
    label(cfg.listener_set_name) == cfg.listener_set_name
}

/// Every parent of an HTTP route is the listener set that is written, where the set is
/// written under its configured name.
pub proof fn law_routes_attach(
    cfg: ConfigView,
    config: TraefikDynamicConfig,
    route: Seq<char>,
    k: int,
)
    requires
        set_keeps_its_name(cfg),
        desired_of(cfg, config).http_routes.contains_key(route),
        0 <= k < (desired_of(cfg, config).http_routes[route].spec.parent_refs->0).len(),
    ensures
        ({
            let parents = desired_of(cfg, config).http_routes[route].spec.parent_refs->0;
            &&& parents[k] == listener_set_ref(cfg, None)
            &&& is_written_set(desired_of(cfg, config), parents[k])
        }),
{
    lemma_route_source(cfg, config, route);
    lemma_parent_is_written(cfg, config, None);
}

proof fn lemma_hosts_finite(
    cfg: ConfigView,
    routers: Seq<(Seq<char>, Router)>,
    middlewares: Middlewares,
    backends: Index,
)
    ensures
        hosts_of(cfg, routers, middlewares, backends).hostnames.finite(),
        hosts_of(cfg, routers, middlewares, backends).https_hosts.finite(),
    decreases routers.len(),
{
    if routers.len() > 0 {
        lemma_hosts_finite(cfg, routers.drop_last(), middlewares, backends);
        vstd::seq_lib::seq_to_set_is_finite(parsed(routers.last().1.rule@).hosts);
    }
}

/// Every hostname of every route has its HTTP listener on the listener set.
pub proof fn law_hosts_have_listeners(
    cfg: ConfigView,
    config: TraefikDynamicConfig,
    route: Seq<char>,
    host: Seq<char>,
) -> (l: int)
    requires
        desired_of(cfg, config).http_routes.contains_key(route),
        (desired_of(cfg, config).http_routes[route].spec.hostnames->0).contains(host),
    ensures
        0 <= l < listeners(cfg, config).len(),
        listeners(cfg, config)[l] == http_listener(cfg, host),
{
    let i = lemma_route_source(cfg, config, route);
    let routers = config.http.routers.entries();
    let m = config.http.middlewares@;
    let index = http_backends(cfg, config);
    law_emitted_hosts_are_indexed(cfg, routers, m, index, i, host);
    let hosts = http_hosts(cfg, config).hostnames;
    lemma_hosts_finite(cfg, routers, m, index);
    lemma_in_order_lists(hosts);
    let q = in_order(hosts);
    assert(q.to_set().contains(host));
    choose|l: int| 0 <= l < q.len() && q[l] == host
}

/// With a family of raw resources switched off, no route and no listener of its protocol
/// exists, whatever the other family does.
pub proof fn law_disabled_families_leave_nothing(
    cfg: ConfigView,
    config: TraefikDynamicConfig,
    proto: L4Protocol,
)
    requires
        match proto {
            L4Protocol::Tcp => !cfg.enable_tcp_routes,
            L4Protocol::Udp => !cfg.enable_udp_routes,
        },
    ensures
        raw_routes(desired_of(cfg, config), proto) == Map::<Seq<char>, L4RouteView>::empty(),
        forall|i: int|
            0 <= i < listeners(cfg, config).len() ==> (#[trigger] listeners(
                cfg,
                config,
            )[i]).protocol != family_of(proto).protocol,
{
    lemma_steps(cfg, config);
    reveal_strlit("HTTP");
    reveal_strlit("HTTPS");
    reveal_strlit("TCP");
    reveal_strlit("UDP");
    assert("TCP"@[0] != "UDP"@[0]);
}

// ---- raw resources ----------------------------------------------------------------------

pub open spec fn raw_routes(d: DesiredView, proto: L4Protocol) -> Map<Seq<char>, L4RouteView> {
    match proto {
        L4Protocol::Tcp => d.tcp_routes,
        L4Protocol::Udp => d.udp_routes,
    }
}

/// The routes of a family are those that its block adds.
pub proof fn lemma_family_adds_its_routes(
    cfg: ConfigView,
    config: TraefikDynamicConfig,
    proto: L4Protocol,
) -> (d: DesiredView)
    ensures
        raw_routes(desired_of(cfg, config), proto) == match proto {
            L4Protocol::Tcp => raw_routes(
                with_family(cfg, config.tcp, proto, cfg.enable_tcp_routes, d),
                proto,
            ),
            L4Protocol::Udp => raw_routes(
                with_family(cfg, config.udp, proto, cfg.enable_udp_routes, d),
                proto,
            ),
        },
{
    let h = with_http(cfg, config, nothing());
    let t = with_family(cfg, config.tcp, L4Protocol::Tcp, cfg.enable_tcp_routes, h);
    lemma_family_keeps(cfg, config.udp, L4Protocol::Udp, cfg.enable_udp_routes, t);
    match proto {
        L4Protocol::Tcp => h,
        L4Protocol::Udp => t,
    }
}

/// The ports and the service behind a raw route.
proof fn lemma_raw_router(
    cfg: ConfigView,
    proto: L4Protocol,
    routers: Seq<(Seq<char>, L4Router)>,
    backends: Index,
    d: DesiredView,
    route: Seq<char>,
) -> (r: (Seq<i32>, Seq<char>))
    requires
        !raw_routes(d, proto).contains_key(route),
        raw_routes(with_l4_routers(cfg, proto, routers, backends, d), proto).contains_key(route),
    ensures
        backends.contains_key(r.1),
        raw_routes(with_l4_routers(cfg, proto, routers, backends, d), proto)[route] == l4_route(
            cfg,
            route,
            section_names(proto, r.0),
            None,
            backends[r.1],
        ),
        forall|k: int|
            0 <= k < r.0.len() ==> claimed_ports(cfg, proto, routers, backends).contains(
                #[trigger] r.0[k],
            ),
    decreases routers.len(),
{
    let rest = routers.drop_last();
    let (name, router) = routers.last();
    let before = claimed_ports(cfg, proto, rest, backends);
    let ports = ports_of_router(cfg, proto, router, backends, before);
    let all = claimed_ports(cfg, proto, routers, backends);
    if ports.len() > 0 && route == l4_route_name(proto, name) {
        assert forall|k: int| 0 <= k < ports.len() implies all.contains(#[trigger] ports[k]) by {
            assert(all[before.len() + k] == ports[k]);
        }
        (ports, router.service@)
    } else {
        let r = lemma_raw_router(cfg, proto, rest, backends, d, route);
        assert forall|k: int| 0 <= k < r.0.len() implies all.contains(#[trigger] r.0[k]) by {
            let at = before.index_of(r.0[k]);
            assert(all[at] == before[at]);
        }
        r
    }
}

pub open spec fn raw_block(config: TraefikDynamicConfig, proto: L4Protocol) -> L4Config {
    match proto {
        L4Protocol::Tcp => config.tcp->0,
        L4Protocol::Udp => config.udp->0,
    }
}

/// What a raw service of a protocol family resolves to.
pub open spec fn raw_backends(
    cfg: ConfigView,
    config: TraefikDynamicConfig,
    proto: L4Protocol,
) -> Index {
    l4_backend_index(cfg, raw_block(config, proto).services.entries(), family_of(proto))
}

proof fn lemma_raw_source(
    cfg: ConfigView,
    config: TraefikDynamicConfig,
    proto: L4Protocol,
    route: Seq<char>,
) -> (r: (Seq<i32>, Seq<char>))
    requires
        raw_routes(desired_of(cfg, config), proto).contains_key(route),
    ensures
        ({
            let d = desired_of(cfg, config);
            let block = raw_block(config, proto);
            let index = raw_backends(cfg, config, proto);
            &&& match proto {
                L4Protocol::Tcp => cfg.enable_tcp_routes && config.tcp is Some,
                L4Protocol::Udp => cfg.enable_udp_routes && config.udp is Some,
            }
            &&& index.contains_key(r.1)
            &&& reference_resolves(index[r.1], d)
            &&& raw_routes(d, proto)[route] == l4_route(
                cfg,
                route,
                section_names(proto, r.0),
                None,
                index[r.1],
            )
            &&& forall|k: int|
                0 <= k < r.0.len() ==> claimed_ports(
                    cfg,
                    proto,
                    block.routers.entries(),
                    index,
                ).contains(#[trigger] r.0[k])
        }),
{
    let services = config.http.services.entries();
    let transports = config.http.servers_transports@;
    let b = with_backends(cfg, services, transports, nothing());
    lemma_backends_grow(cfg, services, transports, nothing());
    lemma_routers_keep_backends(
        cfg,
        config.http.routers.entries(),
        config.http.middlewares@,
        http_backends(cfg, config),
        b,
    );
    let h = with_http(cfg, config, nothing());
    let t = with_family(cfg, config.tcp, L4Protocol::Tcp, cfg.enable_tcp_routes, h);
    lemma_family_keeps(cfg, config.tcp, L4Protocol::Tcp, cfg.enable_tcp_routes, h);
    lemma_family_keeps(cfg, config.udp, L4Protocol::Udp, cfg.enable_udp_routes, t);
    let d = match proto {
        L4Protocol::Tcp => h,
        L4Protocol::Udp => t,
    };
    let block = raw_block(config, proto);
    let raw_services = block.services.entries();
    let family = family_of(proto);
    let index = raw_backends(cfg, config, proto);
    let e = with_l4_backends(cfg, raw_services, family, d);
    lemma_l4_backends_grow(cfg, raw_services, family, d);
    let r = lemma_raw_router(cfg, proto, block.routers.entries(), index, e, route);
    lemma_l4_routers_keep(cfg, proto, block.routers.entries(), index, e);
    lemma_raw_index_resolves(cfg, raw_services, family, d, r.1);
    r
}

proof fn lemma_raw_index_resolves(
    cfg: ConfigView,
    services: Seq<(Seq<char>, L4Service)>,
    family: Family,
    d: DesiredView,
    name: Seq<char>,
)
    requires
        l4_backend_index(cfg, services, family).contains_key(name),
    ensures
        reference_resolves(
            l4_backend_index(cfg, services, family)[name],
            with_l4_backends(cfg, services, family, d),
        ),
    decreases services.len(),
{
    if services.len() > 0 {
        let (n, svc) = services.last();
        let found = resolved(cfg, n, l4_service_class(svc, cfg.backend_kind), family);
        if !(found is Some && n == name) {
            lemma_raw_index_resolves(cfg, services.drop_last(), family, d, name);
        }
    }
}

/// The listener of a claimed port.
proof fn lemma_port_has_listener(
    cfg: ConfigView,
    config: TraefikDynamicConfig,
    proto: L4Protocol,
    port: i32,
) -> (l: int)
    requires
        match proto {
            L4Protocol::Tcp => cfg.enable_tcp_routes && config.tcp is Some,
            L4Protocol::Udp => cfg.enable_udp_routes && config.udp is Some,
        },
        claimed_ports(
            cfg,
            proto,
            raw_block(config, proto).routers.entries(),
            raw_backends(cfg, config, proto),
        ).contains(port),
    ensures
        0 <= l < listeners(cfg, config).len(),
        listeners(cfg, config)[l] == port_listener(proto, port),
{
    let claimed = claimed_ports(
        cfg,
        proto,
        raw_block(config, proto).routers.entries(),
        raw_backends(cfg, config, proto),
    );
    let at = claimed.index_of(port);
    let raw = raw_listeners(cfg, config);
    let tcp = family_listeners(cfg, config.tcp, L4Protocol::Tcp, cfg.enable_tcp_routes);
    let offset = match proto {
        L4Protocol::Tcp => 0,
        L4Protocol::Udp => tcp.len() as int,
    };
    assert(raw[offset + at] == port_listener(proto, port));
    let all = listeners(cfg, config);
    let l = all.len() - raw.len() + offset + at;
    assert(all[l] == raw[offset + at]);
    l
}

/// Every section that a TCP or UDP route attaches to is a listener of the route's protocol
/// on the listener set. The parent is the set that is written, where that is written under
/// its configured name.
#[verifier::rlimit(30)]
pub proof fn law_raw_routes_attach(
    cfg: ConfigView,
    config: TraefikDynamicConfig,
    proto: L4Protocol,
    route: Seq<char>,
    k: int,
) -> (l: int)
    requires
        raw_routes(desired_of(cfg, config), proto).contains_key(route),
        0 <= k < (raw_routes(desired_of(cfg, config), proto)[route].spec.parent_refs->0).len(),
    ensures
        ({
            let parents = raw_routes(desired_of(cfg, config), proto)[route].spec.parent_refs->0;
            &&& 0 <= l < listeners(cfg, config).len()
            &&& listeners(cfg, config)[l].protocol == family_of(proto).protocol
            &&& parents[k] == listener_set_ref(cfg, Some(listeners(cfg, config)[l].name))
            &&& set_keeps_its_name(cfg) ==> {
                &&& is_written_set(desired_of(cfg, config), parents[k])
                &&& desired_of(cfg, config).listener_sets[parents[k].name].spec.listeners
                    == listeners(cfg, config)
            }
        }),
{
    let (ports, service) = lemma_raw_source(cfg, config, proto, route);
    let l = lemma_port_has_listener(cfg, config, proto, ports[k]);
    if set_keeps_its_name(cfg) {
        lemma_parent_is_written(cfg, config, Some(section_name(proto, ports[k])));
    }
    l
}

/// The backend reference of every TCP or UDP route resolves.
pub proof fn law_raw_references_resolve(
    cfg: ConfigView,
    config: TraefikDynamicConfig,
    proto: L4Protocol,
    route: Seq<char>,
) -> (b: ResolvedBackendView)
    requires
        raw_routes(desired_of(cfg, config), proto).contains_key(route),
    ensures
        raw_routes(desired_of(cfg, config), proto)[route].spec.rules[0].backend_refs == seq![
            backend_ref(b),
        ],
        reference_resolves(b, desired_of(cfg, config)),
{
    let (ports, service) = lemma_raw_source(cfg, config, proto, route);
    raw_backends(cfg, config, proto)[service]
}

} // verus!

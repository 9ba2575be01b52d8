//! Transform pangolin's Traefik dynamic config into a desired set of Gateway API objects.

pub mod backend;
pub mod backend_laws;
pub mod dashboard;
pub mod desired;
pub mod ext_authz;
pub mod filter_laws;
pub mod gerbil;
pub mod l4;
pub mod laws;
pub mod listener;
pub mod middleware;
pub mod naming;
pub mod naming_laws;
pub mod notice_laws;
pub mod notices;
pub mod route;
pub mod route_laws;
pub mod rule;
pub mod rule_laws;

pub use crate::transform::desired::Desired;

use vstd::prelude::*;

use crate::config::{Config, ConfigView};
use crate::gateway::{Listener, ListenerView};
use crate::pangolin::types::{L4Config, TraefikDynamicConfig};
use crate::transform::backend::{backend_index, build_backends, with_backends, Index};
use crate::transform::desired::{nothing, DesiredView};
use crate::transform::l4::{build_l4, l4_listeners, with_l4, L4Protocol};
use crate::transform::listener::{build_listener_set, with_listener_set};
use crate::transform::route::{build_routes, hosts_of, with_routers, RouteIndexView};

verus! {

/// What pangolin's HTTP services resolve to.
pub open spec fn http_backends(cfg: ConfigView, config: TraefikDynamicConfig) -> Index {
    backend_index(cfg, config.http.services.entries())
}

/// The objects of the HTTP services and routers.
pub open spec fn with_http(
    cfg: ConfigView,
    config: TraefikDynamicConfig,
    d: DesiredView,
) -> DesiredView {
    with_routers(
        cfg,
        config.http.routers.entries(),
        config.http.middlewares@,
        http_backends(cfg, config),
        with_backends(cfg, config.http.services.entries(), config.http.servers_transports@, d),
    )
}

/// The hosts that need listeners.
pub open spec fn http_hosts(cfg: ConfigView, config: TraefikDynamicConfig) -> RouteIndexView {
    hosts_of(
        cfg,
        config.http.routers.entries(),
        config.http.middlewares@,
        http_backends(cfg, config),
    )
}

/// The desired objects with those of an enabled protocol family.
pub open spec fn with_family(
    cfg: ConfigView,
    block: Option<L4Config>,
    proto: L4Protocol,
    enabled: bool,
    d: DesiredView,
) -> DesiredView {
    match block {
        Some(l4) => if enabled {
            with_l4(cfg, l4, proto, d)
        } else {
            d
        },
        None => d,
    }
}

/// The listeners of an enabled protocol family.
pub open spec fn family_listeners(
    cfg: ConfigView,
    block: Option<L4Config>,
    proto: L4Protocol,
    enabled: bool,
) -> Seq<ListenerView> {
    match block {
        Some(l4) => if enabled {
            l4_listeners(cfg, l4, proto)
        } else {
            Seq::empty()
        },
        None => Seq::empty(),
    }
}

pub open spec fn raw_listeners(cfg: ConfigView, config: TraefikDynamicConfig) -> Seq<ListenerView> {
    family_listeners(cfg, config.tcp, L4Protocol::Tcp, cfg.enable_tcp_routes) + family_listeners(
        cfg,
        config.udp,
        L4Protocol::Udp,
        cfg.enable_udp_routes,
    )
}

/// The objects of the services and routers, before the listener set.
pub open spec fn routed(cfg: ConfigView, config: TraefikDynamicConfig) -> DesiredView {
    with_family(
        cfg,
        config.udp,
        L4Protocol::Udp,
        cfg.enable_udp_routes,
        with_family(
            cfg,
            config.tcp,
            L4Protocol::Tcp,
            cfg.enable_tcp_routes,
            with_http(cfg, config, nothing()),
        ),
    )
}

/// Everything a configuration asks for.
pub open spec fn desired_of(cfg: ConfigView, config: TraefikDynamicConfig) -> DesiredView {
    with_listener_set(
        cfg,
        http_hosts(cfg, config),
        raw_listeners(cfg, config),
        routed(cfg, config),
    )
}

fn build_l4_family(
    cfg: &Config,
    block: &Option<L4Config>,
    proto: L4Protocol,
    enabled: bool,
    desired: &mut Desired,
) -> (r: Vec<Listener>)
    ensures
        r.deep_view() == family_listeners(cfg.deep_view(), *block, proto, enabled),
        final(desired).deep_view() == with_family(
            cfg.deep_view(),
            *block,
            proto,
            enabled,
            old(desired).deep_view(),
        ),
{
    let none: Vec<Listener> = Vec::new();
    assert(none.deep_view() =~= Seq::<ListenerView>::empty());
    match block {
        Some(l4) => {
            if enabled {
                build_l4(cfg, l4, proto, desired)
            } else {
                none
            }
        },
        None => none,
    }
}

/// Everything the controller wants to exist for a configuration.
pub fn build_desired(cfg: &Config, dyn_config: &TraefikDynamicConfig) -> (r: Desired)
    ensures
        r.deep_view() == desired_of(cfg.deep_view(), *dyn_config),
{
    let mut desired = Desired::new();

    // 1. Backends: pangolin services become Service + EndpointSlice or Envoy Backend objects.
    let backend_index = build_backends(
        cfg,
        &dyn_config.http.services,
        &dyn_config.http.servers_transports,
        &mut desired,
    );

    // 2. Routes: pangolin routers become HTTPRoutes.
    let route_index = build_routes(cfg, dyn_config, &backend_index, &mut desired);

    // 3. Raw TCP/UDP resources become TCPRoutes/UDPRoutes plus extra L4 listeners.
    let mut l4_listeners = build_l4_family(
        cfg,
        &dyn_config.tcp,
        L4Protocol::Tcp,
        cfg.enable_tcp_routes,
        &mut desired,
    );
    let ghost tcp = l4_listeners.deep_view();
    let mut udp_listeners = build_l4_family(
        cfg,
        &dyn_config.udp,
        L4Protocol::Udp,
        cfg.enable_udp_routes,
        &mut desired,
    );
    let ghost udp = udp_listeners.deep_view();
    l4_listeners.append(&mut udp_listeners);
    assert(l4_listeners.deep_view() =~= tcp + udp);

    // 4. Listeners: aggregate unique hostnames (and L4 ports) into one ListenerSet.
    build_listener_set(cfg, &route_index, l4_listeners, &mut desired);

    desired
}

} // verus!

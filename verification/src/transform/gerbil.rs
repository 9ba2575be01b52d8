//! Optional Gateway API UDPRoutes for Gerbil's WireGuard-facing ports.

use vstd::prelude::*;
use vstd::string::*;

use crate::config::{Config, ConfigView, GerbilUdpConfig, GerbilUdpConfigView};
use crate::gateway::{L4Route, L4RouteView};
use crate::strmap::lemma_deep_insert;
use crate::text;
use crate::text::int_text;
use crate::transform::backend::{service_ref, ResolvedBackend};
use crate::transform::desired::{Desired, DesiredView};
use crate::transform::l4::{build_l4_route, l4_route};
use crate::transform::naming::{prefixed, prefixed_label};

verus! {

/// What names of a port's objects are made from.
pub open spec fn source_name(port: i32) -> Seq<char> {
    "gerbil-udp-"@ + int_text(port as int)
}

pub open spec fn gerbil_route_name(port: i32) -> Seq<char> {
    prefixed("udpr"@, source_name(port))
}

/// The route of one port, from the listener `udp-gerbil-udp-<port>` to the same port of
/// Gerbil's service.
pub open spec fn gerbil_route(
    cfg: ConfigView,
    gerbil: GerbilUdpConfigView,
    port: i32,
) -> L4RouteView {
    l4_route(
        cfg,
        gerbil_route_name(port),
        seq![prefixed("udp"@, source_name(port))],
        Some("default"@),
        service_ref(gerbil.service_name, gerbil.service_namespace, port),
    )
}

pub open spec fn with_gerbil_ports(
    cfg: ConfigView,
    gerbil: GerbilUdpConfigView,
    ports: Seq<i32>,
    d: DesiredView,
) -> DesiredView
    decreases ports.len(),
{
    if ports.len() == 0 {
        d
    } else {
        let rest = with_gerbil_ports(cfg, gerbil, ports.drop_last(), d);
        DesiredView {
            udp_routes: rest.udp_routes.insert(
                gerbil_route_name(ports.last()),
                gerbil_route(cfg, gerbil, ports.last()),
            ),
            ..rest
        }
    }
}

/// The desired objects with one UDP route per port of Gerbil.
pub open spec fn with_gerbil(cfg: ConfigView, d: DesiredView) -> DesiredView {
    match cfg.gerbil_udp {
        Some(gerbil) => with_gerbil_ports(cfg, gerbil, gerbil.ports, d),
        None => d,
    }
}

fn build_port_route(cfg: &Config, gerbil: &GerbilUdpConfig, port: i32) -> (r: (String, L4Route))
    ensures
        r.0@ == gerbil_route_name(port),
        r.1.deep_view() == gerbil_route(cfg.deep_view(), gerbil.deep_view(), port),
{
    let source = text::cat("gerbil-udp-", text::decimal_i32(port).as_str());
    let route_name = prefixed_label("udpr", source.as_str());
    let listener_name = prefixed_label("udp", source.as_str());
    let sections = vec![listener_name];
    assert(sections.deep_view() =~= seq![listener_name@]);
    let backend = ResolvedBackend {
        group: String::new(),
        kind: "Service".to_owned(),
        name: gerbil.service_name.clone(),
        namespace: text::copy_opt(&gerbil.service_namespace),
        port,
    };
    let route = build_l4_route(
        cfg,
        route_name.as_str(),
        &sections,
        Some("default".to_owned()),
        &backend,
    );
    (route_name, route)
}

/// Add one UDP route per port of Gerbil.
pub fn build_udp_routes(cfg: &Config, desired: &mut Desired)
    ensures
        final(desired).deep_view() == with_gerbil(cfg.deep_view(), old(desired).deep_view()),
{
    broadcast use lemma_deep_insert;

    let gerbil = match &cfg.gerbil_udp {
        Some(g) => g,
        None => {
            return;
        },
    };
    let ghost c = cfg.deep_view();
    let ghost g = gerbil.deep_view();
    let ghost all = gerbil.ports@;
    let ghost start = desired.deep_view();
    let mut i: usize = 0;
    assert(all.take(0) =~= Seq::<i32>::empty());
    assert(gerbil.ports.deep_view() =~= all);
    while i < gerbil.ports.len()
        invariant
            c == cfg.deep_view(),
            g == gerbil.deep_view(),
            all == gerbil.ports@,
            i <= all.len(),
            desired.deep_view() == with_gerbil_ports(c, g, all.take(i as int), start),
        decreases all.len() - i,
    {
        broadcast use lemma_deep_insert;

        assert(all.take(i + 1).drop_last() =~= all.take(i as int));
        let (name, route) = build_port_route(cfg, gerbil, gerbil.ports[i]);
        desired.udp_routes.insert(name, route);
        i += 1;
    }
    assert(all.take(i as int) =~= all);
}

} // verus!

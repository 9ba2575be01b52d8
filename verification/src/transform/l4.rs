//! Translate pangolin's `tcp`/`udp` blocks ("raw" resources) into Gateway API
//! TCPRoute/UDPRoute objects plus the TCP/UDP listeners they attach to.
//!
//! Pangolin encodes the public port in the entrypoint name (`tcp-234`,
//! `udp-345`) and only ever emits ``HostSNI(`*`)`` as a TCP rule. Anything more
//! specific would need TLSRoute semantics, which are not supported, so such
//! routers are skipped (never silently misrouted).

use vstd::prelude::*;
use vstd::string::*;

use crate::apply::{managed_metadata, metadata, owner_labels};
use crate::config::{Config, ConfigView};
use crate::gateway::{
    BackendRef, L4Route, L4RouteRule, L4RouteRuleView, L4RouteSpec, L4RouteSpecView, L4RouteView,
    Listener, ListenerView, ParentRef, ParentRefView,
};
use crate::pangolin::types::{L4Config, L4Router};
use crate::strmap::lemma_deep_insert;
use crate::text;
use crate::text::{int_text, parse_unsigned, strip_prefix, trim};
use crate::transform::backend;
use crate::transform::backend::{
    l4_backend_index, with_l4_backends, Family, Index, ResolvedBackend, ResolvedBackendView,
};
use crate::transform::desired::{Desired, DesiredView};
use crate::transform::naming::{dns_label, label, prefixed, prefixed_label};
use crate::transform::route::{backend_ref, listener_set_parent, listener_set_ref, reference_to};

verus! {

#[derive(Debug, Clone, Copy, PartialEq, Eq, Structural)]
pub enum L4Protocol {
    Tcp,
    Udp,
}

pub open spec fn family_of(proto: L4Protocol) -> Family {
    match proto {
        L4Protocol::Tcp => Family { infix: "tcp"@, protocol: "TCP"@ },
        L4Protocol::Udp => Family { infix: "udp"@, protocol: "UDP"@ },
    }
}

impl L4Protocol {
    /// Gateway API listener protocol / Kubernetes port protocol.
    pub fn k8s_protocol(self) -> (r: &'static str)
        ensures
            r@ == family_of(self).protocol,
    {
        match self {
            L4Protocol::Tcp => "TCP",
            L4Protocol::Udp => "UDP",
        }
    }

    /// Lowercase tag used in entrypoint names and synthesized object names.
    pub fn infix(self) -> (r: &'static str)
        ensures
            r@ == family_of(self).infix,
    {
        match self {
            L4Protocol::Tcp => "tcp",
            L4Protocol::Udp => "udp",
        }
    }
}

// ---- routers ------------------------------------------------------------------------

/// TCP routers carry ``HostSNI(`*`)`` or nothing, UDP routers nothing, and neither
/// sets TLS options.
pub open spec fn supported(router: L4Router, proto: L4Protocol) -> bool {
    router.tls is None && match router.rule {
        None => true,
        Some(rule) => trim(rule@).len() == 0 || (proto == L4Protocol::Tcp && trim(rule@)
            == "HostSNI(`*`)"@),
    }
}

/// `tcp-234` is 234, for the matching protocol only.
pub open spec fn entrypoint_port(entrypoint: Seq<char>, proto: L4Protocol) -> Option<i32> {
    match strip_prefix(entrypoint, family_of(proto).infix) {
        Some(rest) => match strip_prefix(rest, "-"@) {
            Some(number) => match parse_unsigned(number, 65535) {
                Some(port) => if port != 0 {
                    Some(port as i32)
                } else {
                    None
                },
                None => None,
            },
            None => None,
        },
        None => None,
    }
}

/// A TCP port that the HTTP or HTTPS listeners use.
pub open spec fn taken_by_http(cfg: ConfigView, proto: L4Protocol, port: i32) -> bool {
    proto == L4Protocol::Tcp && (port == cfg.http_port || port == cfg.https_port)
}

/// The ports that a router with these entrypoints claims, given those already claimed.
pub open spec fn new_ports(
    cfg: ConfigView,
    proto: L4Protocol,
    entry_points: Seq<Seq<char>>,
    claimed: Seq<i32>,
) -> Seq<i32>
    decreases entry_points.len(),
{
    if entry_points.len() == 0 {
        Seq::empty()
    } else {
        let rest = new_ports(cfg, proto, entry_points.drop_last(), claimed);
        match entrypoint_port(entry_points.last(), proto) {
            Some(port) => if taken_by_http(cfg, proto, port) || claimed.contains(port)
                || rest.contains(port) {
                rest
            } else {
                rest.push(port)
            },
            None => rest,
        }
    }
}

/// The router can be translated and its service resolves.
pub open spec fn l4_usable(router: L4Router, proto: L4Protocol, backends: Index) -> bool {
    supported(router, proto) && backends.contains_key(router.service@)
}

pub open spec fn ports_of_router(
    cfg: ConfigView,
    proto: L4Protocol,
    router: L4Router,
    backends: Index,
    claimed: Seq<i32>,
) -> Seq<i32> {
    if l4_usable(router, proto, backends) {
        new_ports(cfg, proto, router.entry_points.deep_view(), claimed)
    } else {
        Seq::empty()
    }
}

/// The ports that routers claim: the first to name a port gets it.
pub open spec fn claimed_ports(
    cfg: ConfigView,
    proto: L4Protocol,
    routers: Seq<(Seq<char>, L4Router)>,
    backends: Index,
) -> Seq<i32>
    decreases routers.len(),
{
    if routers.len() == 0 {
        Seq::empty()
    } else {
        let rest = claimed_ports(cfg, proto, routers.drop_last(), backends);
        rest + ports_of_router(cfg, proto, routers.last().1, backends, rest)
    }
}

// ---- objects --------------------------------------------------------------------------

/// The name of the listener on a port.
pub open spec fn section_name(proto: L4Protocol, port: i32) -> Seq<char> {
    label(family_of(proto).infix + "-"@ + int_text(port as int))
}

pub open spec fn section_names(proto: L4Protocol, ports: Seq<i32>) -> Seq<Seq<char>> {
    Seq::new(ports.len(), |i: int| section_name(proto, ports[i]))
}

pub open spec fn port_listener(proto: L4Protocol, port: i32) -> ListenerView {
    ListenerView {
        name: section_name(proto, port),
        hostname: None,
        port,
        protocol: family_of(proto).protocol,
        tls: None,
    }
}

pub open spec fn port_listeners(proto: L4Protocol, ports: Seq<i32>) -> Seq<ListenerView> {
    Seq::new(ports.len(), |i: int| port_listener(proto, ports[i]))
}

pub open spec fn section_refs(cfg: ConfigView, sections: Seq<Seq<char>>) -> Seq<ParentRefView> {
    Seq::new(sections.len(), |i: int| listener_set_ref(cfg, Some(sections[i])))
}

/// A route from listener sections to one backend.
pub open spec fn l4_route(
    cfg: ConfigView,
    name: Seq<char>,
    sections: Seq<Seq<char>>,
    rule: Option<Seq<char>>,
    backend: ResolvedBackendView,
) -> L4RouteView {
    L4RouteView {
        metadata: metadata(cfg, name),
        spec: L4RouteSpecView {
            parent_refs: Some(section_refs(cfg, sections)),
            rules: seq![
                L4RouteRuleView { name: rule, backend_refs: seq![backend_ref(backend)] },
            ],
        },
    }
}

pub open spec fn l4_route_name(proto: L4Protocol, router_name: Seq<char>) -> Seq<char> {
    prefixed(family_of(proto).infix, router_name)
}

pub open spec fn with_l4_route(
    proto: L4Protocol,
    name: Seq<char>,
    route: L4RouteView,
    d: DesiredView,
) -> DesiredView {
    match proto {
        L4Protocol::Tcp => DesiredView { tcp_routes: d.tcp_routes.insert(name, route), ..d },
        L4Protocol::Udp => DesiredView { udp_routes: d.udp_routes.insert(name, route), ..d },
    }
}

/// The desired objects with the route of one router; a router without a port of its own
/// gets none.
pub open spec fn with_l4_router(
    cfg: ConfigView,
    proto: L4Protocol,
    name: Seq<char>,
    router: L4Router,
    backends: Index,
    claimed: Seq<i32>,
    d: DesiredView,
) -> DesiredView {
    let ports = ports_of_router(cfg, proto, router, backends, claimed);
    if ports.len() == 0 {
        d
    } else {
        let route = l4_route_name(proto, name);
        with_l4_route(
            proto,
            route,
            l4_route(
                cfg,
                route,
                section_names(proto, ports),
                None,
                backends[router.service@],
            ),
            d,
        )
    }
}

pub open spec fn with_l4_routers(
    cfg: ConfigView,
    proto: L4Protocol,
    routers: Seq<(Seq<char>, L4Router)>,
    backends: Index,
    d: DesiredView,
) -> DesiredView
    decreases routers.len(),
{
    if routers.len() == 0 {
        d
    } else {
        let rest = routers.drop_last();
        with_l4_router(
            cfg,
            proto,
            routers.last().0,
            routers.last().1,
            backends,
            claimed_ports(cfg, proto, rest, backends),
            with_l4_routers(cfg, proto, rest, backends, d),
        )
    }
}

/// The desired objects with those of one protocol family.
pub open spec fn with_l4(
    cfg: ConfigView,
    l4: L4Config,
    proto: L4Protocol,
    d: DesiredView,
) -> DesiredView {
    let services = l4.services.entries();
    let family = family_of(proto);
    with_l4_routers(
        cfg,
        proto,
        l4.routers.entries(),
        l4_backend_index(cfg, services, family),
        with_l4_backends(cfg, services, family, d),
    )
}

/// The listeners of one protocol family.
pub open spec fn l4_listeners(cfg: ConfigView, l4: L4Config, proto: L4Protocol) -> Seq<
    ListenerView,
> {
    port_listeners(
        proto,
        claimed_ports(
            cfg,
            proto,
            l4.routers.entries(),
            l4_backend_index(cfg, l4.services.entries(), family_of(proto)),
        ),
    )
}

// ---- laws -------------------------------------------------------------------------------

proof fn lemma_new_ports(
    cfg: ConfigView,
    proto: L4Protocol,
    entry_points: Seq<Seq<char>>,
    claimed: Seq<i32>,
)
    ensures
        ({
            let ports = new_ports(cfg, proto, entry_points, claimed);
            &&& ports.no_duplicates()
            &&& forall|i: int|
                0 <= i < ports.len() ==> 1 <= #[trigger] ports[i] <= 65535 && !claimed.contains(
                    ports[i],
                ) && !taken_by_http(cfg, proto, ports[i])
        }),
    decreases entry_points.len(),
{
    if entry_points.len() > 0 {
        lemma_new_ports(cfg, proto, entry_points.drop_last(), claimed);
        let rest = new_ports(cfg, proto, entry_points.drop_last(), claimed);
        let ports = new_ports(cfg, proto, entry_points, claimed);
        assert forall|i: int, j: int| 0 <= i < ports.len() && 0 <= j < ports.len() && i
            != j implies ports[i] != ports[j] by {
            if i < rest.len() {
                assert(rest.contains(rest[i]));
            }
            if j < rest.len() {
                assert(rest.contains(rest[j]));
            }
        }
    }
}

/// Each port is claimed once, none is 0, and no TCP port is one that the HTTP or HTTPS
/// listeners use: Gateway API allows one listener per port and protocol.
pub proof fn law_ports_are_claimed_once(
    cfg: ConfigView,
    proto: L4Protocol,
    routers: Seq<(Seq<char>, L4Router)>,
    backends: Index,
)
    ensures
        ({
            let ports = claimed_ports(cfg, proto, routers, backends);
            &&& ports.no_duplicates()
            &&& forall|i: int|
                0 <= i < ports.len() ==> 1 <= #[trigger] ports[i] <= 65535 && !taken_by_http(
                    cfg,
                    proto,
                    ports[i],
                )
        }),
    decreases routers.len(),
{
    if routers.len() > 0 {
        let rest = claimed_ports(cfg, proto, routers.drop_last(), backends);
        let router = routers.last().1;
        law_ports_are_claimed_once(cfg, proto, routers.drop_last(), backends);
        lemma_new_ports(cfg, proto, router.entry_points.deep_view(), rest);
        let more = ports_of_router(cfg, proto, router, backends, rest);
        let ports = rest + more;
        assert forall|i: int, j: int| 0 <= i < ports.len() && 0 <= j < ports.len() && i
            != j implies ports[i] != ports[j] by {
            if i < rest.len() {
                assert(rest.contains(rest[i]));
            } else {
                assert(ports[i] == more[i - rest.len()]);
            }
            if j < rest.len() {
                assert(rest.contains(rest[j]));
            } else {
                assert(ports[j] == more[j - rest.len()]);
            }
        }
        assert forall|i: int| 0 <= i < ports.len() implies 1 <= #[trigger] ports[i] <= 65535
            && !taken_by_http(cfg, proto, ports[i]) by {
            if i < rest.len() {
                assert(ports[i] == rest[i]);
            } else {
                assert(ports[i] == more[i - rest.len()]);
            }
        }
    }
}

// ---- functions ----------------------------------------------------------------------------

/// TCP routers must carry ``HostSNI(`*`)`` (or nothing); a concrete SNI or TLS
/// options would need TLSRoute passthrough semantics. UDP routers never have rules.
pub fn rule_is_supported(_router_name: &str, router: &L4Router, proto: L4Protocol) -> (r: bool)
    ensures
        r == supported(*router, proto),
{
    if router.tls.is_some() {
        return false;
    }
    match &router.rule {
        None => true,
        Some(rule) => {
            let trimmed = text::trimmed(rule.as_str());
            trimmed.as_str().is_empty() || (proto == L4Protocol::Tcp && text::same(
                trimmed.as_str(),
                "HostSNI(`*`)",
            ))
        },
    }
}

/// `tcp-234` is 234 (for the matching protocol only).
pub fn parse_entrypoint_port(entrypoint: &str, proto: L4Protocol) -> (r: Option<i32>)
    ensures
        r == entrypoint_port(entrypoint@, proto),
{
    let rest = match text::without_prefix(entrypoint, proto.infix()) {
        Some(r) => r,
        None => {
            return None;
        },
    };
    let number = match text::without_prefix(rest.as_str(), "-") {
        Some(n) => n,
        None => {
            return None;
        },
    };
    match text::unsigned(number.as_str(), 65535) {
        Some(port) => {
            if port == 0 {
                None
            } else {
                Some(port as i32)
            }
        },
        None => None,
    }
}

fn holds(ports: &Vec<i32>, port: i32) -> (r: bool)
    ensures
        r == ports@.contains(port),
{
    let mut i: usize = 0;
    while i < ports.len()
        invariant
            i <= ports@.len(),
            forall|j: int| 0 <= j < i ==> ports@[j] != port,
        decreases ports@.len() - i,
    {
        if ports[i] == port {
            return true;
        }
        i += 1;
    }
    false
}

/// The ports that a router with these entrypoints claims, given those already claimed.
pub fn claim_ports(
    cfg: &Config,
    proto: L4Protocol,
    entry_points: &Vec<String>,
    claimed: &Vec<i32>,
) -> (r: Vec<i32>)
    ensures
        r@ == new_ports(cfg.deep_view(), proto, entry_points.deep_view(), claimed@),
{
    let ghost all = entry_points.deep_view();
    let ghost c = cfg.deep_view();
    let mut out: Vec<i32> = Vec::new();
    let mut i: usize = 0;
    assert(all.take(0) =~= Seq::<Seq<char>>::empty());
    while i < entry_points.len()
        invariant
            all == entry_points.deep_view(),
            c == cfg.deep_view(),
            i <= entry_points@.len(),
            out@ == new_ports(c, proto, all.take(i as int), claimed@),
        decreases entry_points@.len() - i,
    {
        assert(all.take(i + 1).drop_last() =~= all.take(i as int));
        assert(all[i as int] == entry_points@[i as int]@);
        if let Some(port) = parse_entrypoint_port(entry_points[i].as_str(), proto) {
            let http = proto == L4Protocol::Tcp && (port == cfg.http_port || port
                == cfg.https_port);
            if !http && !holds(claimed, port) && !holds(&out, port) {
                out.push(port);
            }
        }
        i += 1;
    }
    assert(all.take(i as int) =~= all);
    out
}

fn name_section(proto: L4Protocol, port: i32) -> (r: String)
    ensures
        r@ == section_name(proto, port),
{
    dns_label(text::cat3(proto.infix(), "-", text::decimal_i32(port).as_str()).as_str())
}

fn name_sections(proto: L4Protocol, ports: &Vec<i32>) -> (r: Vec<String>)
    ensures
        r.deep_view() == section_names(proto, ports@),
{
    let ghost all = section_names(proto, ports@);
    let mut out: Vec<String> = Vec::new();
    let mut i: usize = 0;
    assert(out.deep_view() =~= all.take(0));
    while i < ports.len()
        invariant
            all == section_names(proto, ports@),
            i <= ports@.len(),
            out.deep_view() == all.take(i as int),
        decreases ports@.len() - i,
    {
        let ghost before = out.deep_view();
        let s = name_section(proto, ports[i]);
        out.push(s);
        assert(out.deep_view() =~= before.push(s@));
        i += 1;
        assert(out.deep_view() =~= all.take(i as int));
    }
    assert(all.take(i as int) =~= all);
    out
}

fn listen_on(proto: L4Protocol, ports: &Vec<i32>) -> (r: Vec<Listener>)
    ensures
        r.deep_view() == port_listeners(proto, ports@),
{
    let ghost all = port_listeners(proto, ports@);
    let mut out: Vec<Listener> = Vec::new();
    let mut i: usize = 0;
    assert(out.deep_view() =~= all.take(0));
    while i < ports.len()
        invariant
            all == port_listeners(proto, ports@),
            i <= ports@.len(),
            out.deep_view() == all.take(i as int),
        decreases ports@.len() - i,
    {
        let ghost before = out.deep_view();
        let l = Listener {
            name: name_section(proto, ports[i]),
            hostname: None,
            port: ports[i],
            protocol: proto.k8s_protocol().to_owned(),
            tls: None,
        };
        assert(l.deep_view() == all[i as int]);
        out.push(l);
        assert(out.deep_view() =~= before.push(l.deep_view()));
        i += 1;
        assert(out.deep_view() =~= all.take(i as int));
    }
    assert(all.take(i as int) =~= all);
    out
}

fn section_parents(cfg: &Config, sections: &Vec<String>) -> (r: Vec<ParentRef>)
    ensures
        r.deep_view() == section_refs(cfg.deep_view(), sections.deep_view()),
{
    let ghost all = section_refs(cfg.deep_view(), sections.deep_view());
    let mut out: Vec<ParentRef> = Vec::new();
    let mut i: usize = 0;
    assert(out.deep_view() =~= all.take(0));
    while i < sections.len()
        invariant
            all == section_refs(cfg.deep_view(), sections.deep_view()),
            i <= sections@.len(),
            out.deep_view() == all.take(i as int),
        decreases sections@.len() - i,
    {
        let ghost before = out.deep_view();
        let p = listener_set_parent(cfg, Some(sections[i].clone()));
        assert(p.deep_view() == all[i as int]);
        out.push(p);
        assert(out.deep_view() =~= before.push(p.deep_view()));
        i += 1;
        assert(out.deep_view() =~= all.take(i as int));
    }
    assert(all.take(i as int) =~= all);
    out
}

/// A route from listener sections to one backend.
pub fn build_l4_route(
    cfg: &Config,
    route_name: &str,
    section_names: &Vec<String>,
    rule: Option<String>,
    backend: &ResolvedBackend,
) -> (r: L4Route)
    ensures
        r.deep_view() == l4_route(
            cfg.deep_view(),
            route_name@,
            section_names.deep_view(),
            rule.deep_view(),
            backend.deep_view(),
        ),
{
    let labels = owner_labels(cfg, route_name);
    let b = reference_to(backend);
    let backend_refs: Vec<BackendRef> = vec![b];
    proof {
        text::lemma_one(backend_refs, b);
    }
    let rule = L4RouteRule { name: rule, backend_refs };
    let rules = vec![rule];
    proof {
        text::lemma_one(rules, rule);
    }
    L4Route {
        metadata: managed_metadata(cfg, route_name, labels),
        spec: L4RouteSpec { parent_refs: Some(section_parents(cfg, section_names)), rules },
    }
}

/// Build routes and backends for one protocol family and return the listeners the
/// ListenerSet builder should append. Listener names are `tcp-<port>`/`udp-<port>`,
/// which the routes reference via `parentRef.sectionName`.
pub fn build_l4(cfg: &Config, l4: &L4Config, proto: L4Protocol, desired: &mut Desired) -> (r: Vec<
    Listener,
>)
    ensures
        r.deep_view() == l4_listeners(cfg.deep_view(), *l4, proto),
        final(desired).deep_view() == with_l4(
            cfg.deep_view(),
            *l4,
            proto,
            old(desired).deep_view(),
        ),
{
    broadcast use lemma_deep_insert;

    let backends = backend::build_l4_backends(cfg, &l4.services, proto, desired);
    let ghost e = l4.routers.entries();
    let ghost c = cfg.deep_view();
    let ghost index = backends.deep_view();
    let ghost start = desired.deep_view();
    // Gateway API allows only one listener per (port, protocol) pair, and
    // overlapping L4 routes would be ambiguous anyway.
    let mut claimed: Vec<i32> = Vec::new();
    let n: usize = l4.routers.len();
    let mut i: usize = 0;
    assert(e.take(0) =~= Seq::<(Seq<char>, L4Router)>::empty());
    while i < n
        invariant
            e == l4.routers.entries(),
            c == cfg.deep_view(),
            index == backends.deep_view(),
            n == e.len(),
            i <= n,
            claimed@ == claimed_ports(c, proto, e.take(i as int), index),
            desired.deep_view() == with_l4_routers(c, proto, e.take(i as int), index, start),
        decreases n - i,
    {
        broadcast use lemma_deep_insert;

        let name = l4.routers.key_at(i);
        let router = l4.routers.value_at(i);
        assert(e.take(i + 1).drop_last() =~= e.take(i as int));
        assert(e.take(i + 1).last() == (name@, *router));
        let ghost before = claimed@;
        let mut ports: Vec<i32> = Vec::new();
        if rule_is_supported(name.as_str(), router, proto) {
            if let Some(backend) = backends.get(router.service.as_str()) {
                ports = claim_ports(cfg, proto, &router.entry_points, &claimed);
                if ports.len() > 0 {
                    let sections = name_sections(proto, &ports);
                    let route_name = prefixed_label(proto.infix(), name.as_str());
                    let route = build_l4_route(
                        cfg,
                        route_name.as_str(),
                        &sections,
                        None,
                        backend,
                    );
                    match proto {
                        L4Protocol::Tcp => {
                            desired.tcp_routes.insert(route_name, route);
                        },
                        L4Protocol::Udp => {
                            desired.udp_routes.insert(route_name, route);
                        },
                    }
                }
            }
        }
        assert(ports@ == ports_of_router(c, proto, *router, index, before));
        claimed.append(&mut ports);
        i += 1;
    }
    assert(e.take(i as int) =~= e);
    listen_on(proto, &claimed)
}

} // verus!

//! Why routers are skipped: what an operator is to be told about a configuration.
//!
//! A router that cannot be translated is never silently misrouted. It gets no route, and
//! [`router_notices`] says why.

use vstd::prelude::*;
use vstd::string::*;

use crate::config::{Config, ConfigView};
use crate::pangolin::types::{HttpConfig, L4Config, L4Router, Router, TraefikDynamicConfig};
use crate::transform::backend::{
    build_backends, build_l4_backends, l4_backend_index, with_l4_backends, BackendIndex, Index,
};
use crate::transform::desired::{Desired, DesiredView};
use crate::transform::l4::{
    claim_ports, claimed_ports, family_of, l4_route_name, new_ports, ports_of_router,
    rule_is_supported, supported, with_l4_routers, L4Protocol,
};
use crate::transform::laws::{
    lemma_emitted_route_is_desired, lemma_family_adds_its_routes, raw_block, raw_routes,
};
use crate::transform::middleware;
use crate::transform::middleware::Middlewares;
use crate::transform::route::{route_name, router_allowed, router_emitted, router_protected};
use crate::transform::rule;
use crate::transform::rule::{parsed, usable};
use crate::transform::{desired_of, http_backends};

verus! {

/// The block of a configuration that a router stands in.
#[derive(Debug, Clone, Copy, PartialEq, Eq, Structural)]
pub enum Block {
    Http,
    Raw(L4Protocol),
}

#[derive(Debug, Clone, Copy, PartialEq, Eq, Structural)]
pub enum Reason {
    /// The rule cannot be translated to Gateway API.
    Rule,
    /// The router is protected by pangolin's authentication, and no authorization service
    /// is configured.
    Protected,
    /// The router is protected, and goes out without authentication as permitted.
    Unauthenticated,
    /// The service is unknown or does not resolve.
    UnknownService,
    /// The router sets TLS options, which would need passthrough.
    TlsOptions,
    /// No entrypoint gives the router a port of its own.
    NoEntrypoint,
    /// Routes of the protocol are switched off.
    Disabled,
}

/// A router that is worth a word.
pub struct Notice {
    pub block: Block,
    pub router: String,
    pub reason: Reason,
}

#[verifier::ext_equal]
pub struct NoticeView {
    pub block: Block,
    pub router: Seq<char>,
    pub reason: Reason,
}

impl DeepView for Notice {
    type V = NoticeView;

    open spec fn deep_view(&self) -> NoticeView {
        NoticeView { block: self.block, router: self.router@, reason: self.reason }
    }
}

/// The reason keeps the router from getting a route.
pub open spec fn skips(reason: Reason) -> bool {
    reason != Reason::Unauthenticated
}

impl Reason {
    pub fn skips(self) -> (r: bool)
        ensures
            r == skips(self),
    {
        self != Reason::Unauthenticated
    }
}

// ---- reasons --------------------------------------------------------------------------

pub open spec fn reason_if(on: bool, reason: Reason) -> Seq<Reason> {
    if on {
        seq![reason]
    } else {
        Seq::empty()
    }
}

pub open spec fn http_reasons(
    cfg: ConfigView,
    router: Router,
    middlewares: Middlewares,
    backends: Index,
) -> Seq<Reason> {
    if !usable(parsed(router.rule@)) {
        seq![Reason::Rule]
    } else if !router_allowed(cfg, router, middlewares) {
        seq![Reason::Protected]
    } else {
        reason_if(
            router_protected(router, middlewares) && cfg.ext_authz is None,
            Reason::Unauthenticated,
        ) + reason_if(!backends.contains_key(router.service@), Reason::UnknownService)
    }
}

pub open spec fn raw_reasons(
    cfg: ConfigView,
    proto: L4Protocol,
    router: L4Router,
    backends: Index,
    claimed: Seq<i32>,
) -> Seq<Reason> {
    if router.tls is Some {
        seq![Reason::TlsOptions]
    } else if !supported(router, proto) {
        seq![Reason::Rule]
    } else if !backends.contains_key(router.service@) {
        seq![Reason::UnknownService]
    } else {
        reason_if(
            new_ports(cfg, proto, router.entry_points.deep_view(), claimed).len() == 0,
            Reason::NoEntrypoint,
        )
    }
}

/// A notice for each reason.
pub open spec fn notices_for(block: Block, router: Seq<char>, reasons: Seq<Reason>) -> Seq<
    NoticeView,
> {
    Seq::new(reasons.len(), |i: int| NoticeView { block, router, reason: reasons[i] })
}

pub open spec fn http_notices(
    cfg: ConfigView,
    routers: Seq<(Seq<char>, Router)>,
    middlewares: Middlewares,
    backends: Index,
) -> Seq<NoticeView>
    decreases routers.len(),
{
    if routers.len() == 0 {
        Seq::empty()
    } else {
        let (name, router) = routers.last();
        http_notices(cfg, routers.drop_last(), middlewares, backends) + notices_for(
            Block::Http,
            name,
            http_reasons(cfg, router, middlewares, backends),
        )
    }
}

pub open spec fn raw_notices(
    cfg: ConfigView,
    proto: L4Protocol,
    routers: Seq<(Seq<char>, L4Router)>,
    backends: Index,
) -> Seq<NoticeView>
    decreases routers.len(),
{
    if routers.len() == 0 {
        Seq::empty()
    } else {
        let (name, router) = routers.last();
        let rest = routers.drop_last();
        let claimed = claimed_ports(cfg, proto, rest, backends);
        raw_notices(cfg, proto, rest, backends) + notices_for(
            Block::Raw(proto),
            name,
            raw_reasons(cfg, proto, router, backends, claimed),
        )
    }
}

pub open spec fn disabled_notices(proto: L4Protocol, routers: Seq<(Seq<char>, L4Router)>) -> Seq<
    NoticeView,
> {
    Seq::new(
        routers.len(),
        |i: int|
            NoticeView {
                block: Block::Raw(proto),
                router: routers[i].0,
                reason: Reason::Disabled,
            },
    )
}

pub open spec fn family_notices(
    cfg: ConfigView,
    block: Option<L4Config>,
    proto: L4Protocol,
    enabled: bool,
) -> Seq<NoticeView> {
    match block {
        Some(l4) => if enabled {
            raw_notices(
                cfg,
                proto,
                l4.routers.entries(),
                l4_backend_index(cfg, l4.services.entries(), family_of(proto)),
            )
        } else {
            disabled_notices(proto, l4.routers.entries())
        },
        None => Seq::empty(),
    }
}

/// What there is to say about the routers of a configuration, block by block and router by
/// router.
pub open spec fn notices_of(cfg: ConfigView, config: TraefikDynamicConfig) -> Seq<NoticeView> {
    http_notices(
        cfg,
        config.http.routers.entries(),
        config.http.middlewares@,
        http_backends(cfg, config),
    ) + family_notices(cfg, config.tcp, L4Protocol::Tcp, cfg.enable_tcp_routes) + family_notices(
        cfg,
        config.udp,
        L4Protocol::Udp,
        cfg.enable_udp_routes,
    )
}

// ---- laws -----------------------------------------------------------------------------

/// Some notice says why a router has no route.
pub open spec fn is_reported(notices: Seq<NoticeView>, block: Block, router: Seq<char>) -> bool {
    exists|j: int|
        0 <= j < notices.len() && (#[trigger] notices[j]).block == block && notices[j].router
            == router && skips(notices[j].reason)
}

/// A router is emitted exactly when no reason skips it.
pub proof fn law_emitted_or_skipped(
    cfg: ConfigView,
    router: Router,
    middlewares: Middlewares,
    backends: Index,
)
    ensures
        router_emitted(cfg, router, middlewares, backends) <==> forall|i: int|
            0 <= i < http_reasons(cfg, router, middlewares, backends).len() ==> !skips(
                #[trigger] http_reasons(cfg, router, middlewares, backends)[i],
            ),
{
    let reasons = http_reasons(cfg, router, middlewares, backends);
    if !router_emitted(cfg, router, middlewares, backends) {
        assert(skips(reasons[reasons.len() - 1]));
    }
}

/// A raw router of an enabled family claims a port exactly when no reason skips it.
pub proof fn law_claimed_or_skipped(
    cfg: ConfigView,
    proto: L4Protocol,
    router: L4Router,
    backends: Index,
    claimed: Seq<i32>,
)
    ensures
        ports_of_router(cfg, proto, router, backends, claimed).len() > 0 <==> raw_reasons(
            cfg,
            proto,
            router,
            backends,
            claimed,
        ).len() == 0,
{
}

proof fn lemma_http_notice(
    cfg: ConfigView,
    routers: Seq<(Seq<char>, Router)>,
    middlewares: Middlewares,
    backends: Index,
    i: int,
)
    requires
        0 <= i < routers.len(),
        !router_emitted(cfg, routers[i].1, middlewares, backends),
    ensures
        is_reported(
            http_notices(cfg, routers, middlewares, backends),
            Block::Http,
            routers[i].0,
        ),
    decreases routers.len(),
{
    let rest = routers.drop_last();
    let before = http_notices(cfg, rest, middlewares, backends);
    let all = http_notices(cfg, routers, middlewares, backends);
    if i < rest.len() {
        assert(rest[i] == routers[i]);
        lemma_http_notice(cfg, rest, middlewares, backends, i);
        let j = choose|j: int|
            0 <= j < before.len() && (#[trigger] before[j]).block == Block::Http
                && before[j].router == routers[i].0 && skips(before[j].reason);
        assert(all[j] == before[j]);
    } else {
        let (name, router) = routers.last();
        let reasons = http_reasons(cfg, router, middlewares, backends);
        assert(skips(reasons[reasons.len() - 1]));
        assert(all[all.len() - 1] == (NoticeView {
            block: Block::Http,
            router: name,
            reason: reasons[reasons.len() - 1],
        }));
    }
}

/// Every HTTP router has a route under its name, or a notice that says why not.
pub proof fn law_routed_or_reported(cfg: ConfigView, config: TraefikDynamicConfig, i: int)
    requires
        0 <= i < config.http.routers.entries().len(),
    ensures
        ({
            let name = config.http.routers.entries()[i].0;
            ||| desired_of(cfg, config).http_routes.contains_key(route_name(name))
            ||| is_reported(notices_of(cfg, config), Block::Http, name)
        }),
{
    let routers = config.http.routers.entries();
    let m = config.http.middlewares@;
    let index = http_backends(cfg, config);
    if router_emitted(cfg, routers[i].1, m, index) {
        lemma_emitted_route_is_desired(cfg, config, i);
    } else {
        lemma_http_notice(cfg, routers, m, index, i);
        let first = http_notices(cfg, routers, m, index);
        let all = notices_of(cfg, config);
        let j = choose|j: int|
            0 <= j < first.len() && (#[trigger] first[j]).block == Block::Http && first[j].router
                == routers[i].0 && skips(first[j].reason);
        assert(all[j] == first[j]);
    }
}

/// Every protected router that goes out without authentication is reported as such.
pub proof fn law_unauthenticated_is_reported(
    cfg: ConfigView,
    router: Router,
    middlewares: Middlewares,
    backends: Index,
)
    requires
        router_emitted(cfg, router, middlewares, backends),
    ensures
        http_reasons(cfg, router, middlewares, backends) == reason_if(
            router_protected(router, middlewares) && cfg.ext_authz is None,
            Reason::Unauthenticated,
        ),
{
    let reasons = http_reasons(cfg, router, middlewares, backends);
    assert(reasons =~= reason_if(
        router_protected(router, middlewares) && cfg.ext_authz is None,
        Reason::Unauthenticated,
    ));
}

proof fn lemma_raw_notice(
    cfg: ConfigView,
    proto: L4Protocol,
    routers: Seq<(Seq<char>, L4Router)>,
    backends: Index,
    d: DesiredView,
    i: int,
)
    requires
        0 <= i < routers.len(),
    ensures
        ({
            let name = routers[i].0;
            ||| raw_routes(with_l4_routers(cfg, proto, routers, backends, d), proto).contains_key(
                l4_route_name(proto, name),
            )
            ||| is_reported(raw_notices(cfg, proto, routers, backends), Block::Raw(proto), name)
        }),
    decreases routers.len(),
{
    let rest = routers.drop_last();
    let (name, router) = routers.last();
    let claimed = claimed_ports(cfg, proto, rest, backends);
    let reasons = raw_reasons(cfg, proto, router, backends, claimed);
    let before = raw_notices(cfg, proto, rest, backends);
    let all = raw_notices(cfg, proto, routers, backends);
    if i < rest.len() {
        assert(rest[i] == routers[i]);
        lemma_raw_notice(cfg, proto, rest, backends, d, i);
        if is_reported(before, Block::Raw(proto), routers[i].0) {
            let j = choose|j: int|
                0 <= j < before.len() && (#[trigger] before[j]).block == Block::Raw(proto)
                    && before[j].router == routers[i].0 && skips(before[j].reason);
            assert(all[j] == before[j]);
        }
    } else {
        law_claimed_or_skipped(cfg, proto, router, backends, claimed);
        if reasons.len() > 0 {
            assert(all[all.len() - 1] == (NoticeView {
                block: Block::Raw(proto),
                router: name,
                reason: reasons[reasons.len() - 1],
            }));
        }
    }
}

/// Every TCP or UDP router has a route under its name, or a notice that says why not.
pub proof fn law_raw_routed_or_reported(
    cfg: ConfigView,
    config: TraefikDynamicConfig,
    proto: L4Protocol,
    i: int,
)
    requires
        match proto {
            L4Protocol::Tcp => config.tcp is Some,
            L4Protocol::Udp => config.udp is Some,
        },
        0 <= i < raw_block(config, proto).routers.entries().len(),
    ensures
        ({
            let name = raw_block(config, proto).routers.entries()[i].0;
            ||| raw_routes(desired_of(cfg, config), proto).contains_key(l4_route_name(proto, name))
            ||| is_reported(notices_of(cfg, config), Block::Raw(proto), name)
        }),
{
    let l4 = raw_block(config, proto);
    let name = l4.routers.entries()[i].0;
    let d = lemma_family_adds_its_routes(cfg, config, proto);
    let enabled = match proto {
        L4Protocol::Tcp => cfg.enable_tcp_routes,
        L4Protocol::Udp => cfg.enable_udp_routes,
    };
    let part = family_notices(cfg, Some(l4), proto, enabled);
    if enabled {
        let services = l4.services.entries();
        let family = family_of(proto);
        lemma_raw_notice(
            cfg,
            proto,
            l4.routers.entries(),
            l4_backend_index(cfg, services, family),
            with_l4_backends(cfg, services, family, d),
            i,
        );
    } else {
        assert(part[i].router == name);
    }
    if is_reported(part, Block::Raw(proto), name) {
        let j = choose|j: int|
            0 <= j < part.len() && (#[trigger] part[j]).block == Block::Raw(proto)
                && part[j].router == name && skips(part[j].reason);
        let all = notices_of(cfg, config);
        let http = http_notices(
            cfg,
            config.http.routers.entries(),
            config.http.middlewares@,
            http_backends(cfg, config),
        );
        let tcp = family_notices(cfg, config.tcp, L4Protocol::Tcp, cfg.enable_tcp_routes);
        let offset = match proto {
            L4Protocol::Tcp => http.len() as int,
            L4Protocol::Udp => (http + tcp).len() as int,
        };
        assert(all[offset + j] == part[j]);
    }
}

// ---- functions ------------------------------------------------------------------------

fn add_notice(out: &mut Vec<Notice>, on: bool, block: Block, router: &str, reason: Reason)
    ensures
        final(out).deep_view() == old(out).deep_view() + notices_for(
            block,
            router@,
            reason_if(on, reason),
        ),
{
    let ghost before = out.deep_view();
    let ghost more = notices_for(block, router@, reason_if(on, reason));
    if on {
        let n = Notice { block, router: router.to_owned(), reason };
        out.push(n);
        assert(out.deep_view() =~= before.push(n.deep_view()));
    }
    assert(out.deep_view() =~= before + more);
}

fn note_http(
    out: &mut Vec<Notice>,
    cfg: &Config,
    name: &str,
    router: &Router,
    http: &HttpConfig,
    backends: &BackendIndex,
)
    ensures
        final(out).deep_view() == old(out).deep_view() + notices_for(
            Block::Http,
            name@,
            http_reasons(cfg.deep_view(), *router, http.middlewares@, backends.deep_view()),
        ),
{
    let ghost before = out.deep_view();
    let ghost reasons = http_reasons(
        cfg.deep_view(),
        *router,
        http.middlewares@,
        backends.deep_view(),
    );
    if !rule::parse(router.rule.as_str()).is_usable() {
        add_notice(out, true, Block::Http, name, Reason::Rule);
        return;
    }
    let protected = middleware::requires_badger_auth(&router.middlewares, &http.middlewares);
    if protected && cfg.ext_authz.is_none() && !cfg.allow_unauthenticated_routes {
        add_notice(out, true, Block::Http, name, Reason::Protected);
        return;
    }
    let open = protected && cfg.ext_authz.is_none();
    let known = backends.contains_key(router.service.as_str());
    assert(backends@.dom() =~= backends.deep_view().dom());
    add_notice(out, open, Block::Http, name, Reason::Unauthenticated);
    add_notice(out, !known, Block::Http, name, Reason::UnknownService);
    assert(out.deep_view() =~= before + notices_for(Block::Http, name@, reasons));
}

fn note_raw(
    out: &mut Vec<Notice>,
    cfg: &Config,
    proto: L4Protocol,
    name: &str,
    router: &L4Router,
    backends: &BackendIndex,
    claimed: &mut Vec<i32>,
)
    ensures
        final(out).deep_view() == old(out).deep_view() + notices_for(
            Block::Raw(proto),
            name@,
            raw_reasons(cfg.deep_view(), proto, *router, backends.deep_view(), old(claimed)@),
        ),
        final(claimed)@ == old(claimed)@ + ports_of_router(
            cfg.deep_view(),
            proto,
            *router,
            backends.deep_view(),
            old(claimed)@,
        ),
{
    let block = Block::Raw(proto);
    let ghost start = claimed@;
    assert(start + Seq::<i32>::empty() =~= start);
    assert(backends@.dom() =~= backends.deep_view().dom());
    if router.tls.is_some() {
        add_notice(out, true, block, name, Reason::TlsOptions);
    } else if !rule_is_supported(name, router, proto) {
        add_notice(out, true, block, name, Reason::Rule);
    } else if !backends.contains_key(router.service.as_str()) {
        add_notice(out, true, block, name, Reason::UnknownService);
    } else {
        let mut ports = claim_ports(cfg, proto, &router.entry_points, claimed);
        add_notice(out, ports.len() == 0, block, name, Reason::NoEntrypoint);
        claimed.append(&mut ports);
    }
}

fn note_family(
    out: &mut Vec<Notice>,
    cfg: &Config,
    block: &Option<L4Config>,
    proto: L4Protocol,
    enabled: bool,
)
    ensures
        final(out).deep_view() == old(out).deep_view() + family_notices(
            cfg.deep_view(),
            *block,
            proto,
            enabled,
        ),
{
    let ghost start = out.deep_view();
    let l4 = match block {
        Some(l4) => l4,
        None => {
            assert(out.deep_view() =~= start + Seq::<NoticeView>::empty());
            return;
        },
    };
    let ghost e = l4.routers.entries();
    let ghost c = cfg.deep_view();
    let n: usize = l4.routers.len();
    let mut i: usize = 0;
    if enabled {
        let mut scratch = Desired::new();
        let backends = build_l4_backends(cfg, &l4.services, proto, &mut scratch);
        let ghost index = backends.deep_view();
        let mut claimed: Vec<i32> = Vec::new();
        assert(e.take(0) =~= Seq::<(Seq<char>, L4Router)>::empty());
        assert(out.deep_view() =~= start + raw_notices(c, proto, e.take(0), index));
        while i < n
            invariant
                e == l4.routers.entries(),
                c == cfg.deep_view(),
                index == backends.deep_view(),
                n == e.len(),
                i <= n,
                claimed@ == claimed_ports(c, proto, e.take(i as int), index),
                out.deep_view() == start + raw_notices(c, proto, e.take(i as int), index),
            decreases n - i,
        {
            let name = l4.routers.key_at(i);
            let router = l4.routers.value_at(i);
            assert(e.take(i + 1).drop_last() =~= e.take(i as int));
            assert(e.take(i + 1).last() == (name@, *router));
            note_raw(out, cfg, proto, name.as_str(), router, &backends, &mut claimed);
            i += 1;
            assert(out.deep_view() =~= start + raw_notices(c, proto, e.take(i as int), index));
        }
        assert(e.take(i as int) =~= e);
    } else {
        let ghost all = disabled_notices(proto, e);
        assert(out.deep_view() =~= start + all.take(0));
        while i < n
            invariant
                e == l4.routers.entries(),
                all == disabled_notices(proto, e),
                n == e.len(),
                i <= n,
                out.deep_view() == start + all.take(i as int),
            decreases n - i,
        {
            let name = l4.routers.key_at(i);
            let ghost before = out.deep_view();
            add_notice(out, true, Block::Raw(proto), name.as_str(), Reason::Disabled);
            i += 1;
            assert(out.deep_view() =~= start + all.take(i as int));
        }
        assert(all.take(i as int) =~= all);
    }
}

/// What there is to say about the routers of a configuration: which get no route and why,
/// and which go out without authentication.
pub fn router_notices(cfg: &Config, dyn_config: &TraefikDynamicConfig) -> (r: Vec<Notice>)
    ensures
        r.deep_view() == notices_of(cfg.deep_view(), *dyn_config),
{
    let http = &dyn_config.http;
    let mut scratch = Desired::new();
    let backends = build_backends(cfg, &http.services, &http.servers_transports, &mut scratch);
    let ghost e = http.routers.entries();
    let ghost c = cfg.deep_view();
    let ghost m = http.middlewares@;
    let ghost b = backends.deep_view();
    let mut out: Vec<Notice> = Vec::new();
    let n: usize = http.routers.len();
    let mut i: usize = 0;
    assert(e.take(0) =~= Seq::<(Seq<char>, Router)>::empty());
    assert(out.deep_view() =~= Seq::<NoticeView>::empty());
    while i < n
        invariant
            e == http.routers.entries(),
            c == cfg.deep_view(),
            m == http.middlewares@,
            b == backends.deep_view(),
            n == e.len(),
            i <= n,
            out.deep_view() == http_notices(c, e.take(i as int), m, b),
        decreases n - i,
    {
        let name = http.routers.key_at(i);
        let router = http.routers.value_at(i);
        assert(e.take(i + 1).drop_last() =~= e.take(i as int));
        assert(e.take(i + 1).last() == (name@, *router));
        note_http(&mut out, cfg, name.as_str(), router, http, &backends);
        i += 1;
    }
    assert(e.take(i as int) =~= e);
    note_family(&mut out, cfg, &dyn_config.tcp, L4Protocol::Tcp, cfg.enable_tcp_routes);
    note_family(&mut out, cfg, &dyn_config.udp, L4Protocol::Udp, cfg.enable_udp_routes);
    out
}

} // verus!

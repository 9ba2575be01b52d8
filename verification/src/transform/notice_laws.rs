//! What routers are reported for.

use vstd::prelude::*;

use crate::config::ConfigView;
use crate::pangolin::types::{L4Config, L4Router, Router};
use crate::transform::backend::{l4_backend_index, Index};
use crate::transform::l4::{claimed_ports, family_of, new_ports, supported, L4Protocol};
use crate::transform::middleware::Middlewares;
use crate::transform::notices::{
    family_notices, http_notices, http_reasons, raw_notices, raw_reasons, Block, NoticeView,
    Reason,
};
use crate::transform::route::router_protected;
use crate::transform::rule::{parsed, usable};

verus! {

/// What an HTTP router is reported for: a rule that cannot be translated; else protection
/// that nothing enforces, as a refusal or, where that is permitted, as a warning; and a
/// service that does not resolve, unless the router is refused already.
pub proof fn law_http_routers_are_reported_for(
    cfg: ConfigView,
    router: Router,
    middlewares: Middlewares,
    backends: Index,
    reason: Reason,
)
    ensures
        ({
            let readable = usable(parsed(router.rule@));
            let bare = router_protected(router, middlewares) && cfg.ext_authz is None;
            let known = backends.contains_key(router.service@);
            http_reasons(cfg, router, middlewares, backends).contains(reason) <==> match reason {
                Reason::Rule => !readable,
                Reason::Protected => readable && bare && !cfg.allow_unauthenticated_routes,
                Reason::Unauthenticated => readable && bare && cfg.allow_unauthenticated_routes,
                Reason::UnknownService => readable && !known && (bare
                    ==> cfg.allow_unauthenticated_routes),
                Reason::TlsOptions | Reason::NoEntrypoint | Reason::Disabled => false,
            }
        }),
{
    let r = http_reasons(cfg, router, middlewares, backends);
    if r.len() > 0 {
        assert(r.contains(r[0]));
    }
    if r.len() > 1 {
        assert(r.contains(r[1]));
    }
    if r.contains(reason) {
        let i = choose|i: int| 0 <= i < r.len() && r[i] == reason;
        assert(i == 0 || i == 1);
    }
}

/// What a raw router is reported for: TLS options, a rule that is not supported, a service
/// that does not resolve, or no port of its own; the first of these that holds.
pub proof fn law_raw_routers_are_reported_for(
    cfg: ConfigView,
    proto: L4Protocol,
    router: L4Router,
    backends: Index,
    claimed: Seq<i32>,
    reason: Reason,
)
    ensures
        ({
            let plain = router.tls is None;
            let known = backends.contains_key(router.service@);
            let ports = new_ports(cfg, proto, router.entry_points.deep_view(), claimed);
            raw_reasons(cfg, proto, router, backends, claimed).contains(reason) <==> match reason {
                Reason::TlsOptions => !plain,
                Reason::Rule => plain && !supported(router, proto),
                Reason::UnknownService => plain && supported(router, proto) && !known,
                Reason::NoEntrypoint => plain && supported(router, proto) && known && ports.len()
                    == 0,
                Reason::Protected | Reason::Unauthenticated | Reason::Disabled => false,
            }
        }),
{
    let r = raw_reasons(cfg, proto, router, backends, claimed);
    if r.len() > 0 {
        assert(r.contains(r[0]));
    }
    if r.contains(reason) {
        let i = choose|i: int| 0 <= i < r.len() && r[i] == reason;
        assert(i == 0);
    }
}

/// Notices follow the routers: one more router adds one for each of its reasons, under its
/// name and block, behind those of the routers before it.
pub proof fn law_notices_follow_the_routers(
    cfg: ConfigView,
    routers: Seq<(Seq<char>, Router)>,
    name: Seq<char>,
    router: Router,
    middlewares: Middlewares,
    backends: Index,
    i: int,
)
    ensures
        ({
            let before = http_notices(cfg, routers, middlewares, backends);
            let after = http_notices(cfg, routers.push((name, router)), middlewares, backends);
            let reasons = http_reasons(cfg, router, middlewares, backends);
            &&& after.len() == before.len() + reasons.len()
            &&& 0 <= i < before.len() ==> after[i] == before[i]
            &&& 0 <= i < reasons.len() ==> after[before.len() + i] == (NoticeView {
                block: Block::Http,
                router: name,
                reason: reasons[i],
            })
        }),
        http_notices(cfg, Seq::empty(), middlewares, backends).len() == 0,
{
    assert(routers.push((name, router)).drop_last() =~= routers);
}

/// Notices of raw routers follow the routers as well, each judged by the ports that the
/// routers before it have claimed.
pub proof fn law_raw_notices_follow_the_routers(
    cfg: ConfigView,
    proto: L4Protocol,
    routers: Seq<(Seq<char>, L4Router)>,
    name: Seq<char>,
    router: L4Router,
    backends: Index,
    i: int,
)
    ensures
        ({
            let before = raw_notices(cfg, proto, routers, backends);
            let after = raw_notices(cfg, proto, routers.push((name, router)), backends);
            let claimed = claimed_ports(cfg, proto, routers, backends);
            let reasons = raw_reasons(cfg, proto, router, backends, claimed);
            &&& after.len() == before.len() + reasons.len()
            &&& 0 <= i < before.len() ==> after[i] == before[i]
            &&& 0 <= i < reasons.len() ==> after[before.len() + i] == (NoticeView {
                block: Block::Raw(proto),
                router: name,
                reason: reasons[i],
            })
        }),
        raw_notices(cfg, proto, Seq::empty(), backends).len() == 0,
{
    assert(routers.push((name, router)).drop_last() =~= routers);
}

/// Every router of a family that is switched off is reported as such, and nothing else is.
pub proof fn law_disabled_routers_are_reported(
    cfg: ConfigView,
    l4: L4Config,
    proto: L4Protocol,
    i: int,
)
    requires
        0 <= i < l4.routers.entries().len(),
    ensures
        family_notices(cfg, Some(l4), proto, false).len() == l4.routers.entries().len(),
        family_notices(cfg, Some(l4), proto, false)[i] == (NoticeView {
            block: Block::Raw(proto),
            router: l4.routers.entries()[i].0,
            reason: Reason::Disabled,
        }),
        family_notices(cfg, Some(l4), proto, true) == raw_notices(
            cfg,
            proto,
            l4.routers.entries(),
            l4_backend_index(cfg, l4.services.entries(), family_of(proto)),
        ),
        family_notices(cfg, None, proto, true).len() == 0,
{
}

} // verus!

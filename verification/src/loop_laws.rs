//! What a turn of the loop does: fetching, remembering, applying, sweeping.

use vstd::prelude::*;
use vstd::utf8::*;

use crate::apply::{apply_action_of, ApplyAction};
use crate::config::{BackendKind, ConfigView};
use crate::gc::orphans;
use crate::kubernetes::ObjectMetaView;
use crate::pangolin::client::{
    boundary, error_text, head_decision, headers_of_request, truncated, FetchErrorView,
    HeadDecision,
};
use crate::reconcile::{
    action_after, action_after_fetch, apply_steps, is_round, is_state_after_fetch,
    is_state_after_reconcile, kinds_to_sweep, names_of, steps_of, wait_after_reconcile,
    FetchEventView, LoopActionView, LoopStateView, ObjectKind, RoundAction,
};
use crate::strmap::{in_order, lemma_in_order_lists};
use crate::text::dec;
use crate::transform::desired::DesiredView;

verus! {

// ---- requests and answers ---------------------------------------------------------------

/// Every request asks for JSON; it carries the authorization that is configured and the
/// entity tag of the last answer, and nothing that is not there.
pub proof fn law_requests_are_conditional(
    auth: Option<Seq<char>>,
    etag: Option<Seq<char>>,
    name: Seq<char>,
    value: Seq<char>,
)
    ensures
        headers_of_request(auth, etag).contains((name, value)) <==> {
            ||| name == "accept"@ && value == "application/json"@
            ||| name == "authorization"@ && auth == Some(value)
            ||| name == "if-none-match"@ && etag == Some(value)
        },
{
    let h = headers_of_request(auth, etag);
    let a: int = if auth is Some {
        1
    } else {
        0
    };
    assert(h[0] == ("accept"@, "application/json"@));
    if auth is Some {
        assert(h[1] == ("authorization"@, auth->0));
    }
    if etag is Some {
        assert(h[1 + a] == ("if-none-match"@, etag->0));
    }
    if h.contains((name, value)) {
        let i = choose|i: int| 0 <= i < h.len() && h[i] == (name, value);
        assert(i == 0 || i == 1 || i == 2);
    }
}

/// An answer is read when its status is one of success and it announces no more than the
/// limit.
pub proof fn law_answers_are_judged(status: u16, length: Option<u64>, limit: u64)
    ensures
        head_decision(status, length, limit) == HeadDecision::NotModified <==> status == 304,
        head_decision(status, length, limit) == HeadDecision::Refuse <==> status != 304 && (status
            < 200 || status > 299),
        head_decision(status, length, limit) == HeadDecision::TooLarge <==> 200 <= status <= 299
            && (length matches Some(n) && n > limit),
        head_decision(status, length, limit) == HeadDecision::Read <==> 200 <= status <= 299 && (
        length matches Some(n) ==> n <= limit),
{
}

proof fn lemma_boundary(bytes: Seq<u8>, i: int)
    requires
        0 <= i,
    ensures
        0 <= boundary(bytes, i) <= i,
        boundary(bytes, i) == 0 || is_char_boundary(bytes, boundary(bytes, i)),
        forall|j: int| boundary(bytes, i) < j <= i ==> !is_char_boundary(bytes, j),
    decreases i,
{
    if i > 0 && !is_char_boundary(bytes, i) {
        lemma_boundary(bytes, i - 1);
    }
}

/// A text that fits is kept; a longer one is cut to the longest start of whole characters
/// that fits.
pub proof fn law_texts_are_cut_between_characters(bytes: Seq<u8>, max: nat, n: int)
    ensures
        bytes.len() <= max ==> truncated(bytes, max as int) == bytes,
        bytes.len() > max ==> {
            let cut = truncated(bytes, max as int);
            &&& cut.len() <= max
            &&& cut == bytes.take(cut.len() as int)
            &&& cut.len() == 0 || is_char_boundary(bytes, cut.len() as int)
            &&& 0 <= n <= max && is_char_boundary(bytes, n) ==> n <= cut.len()
        },
{
    lemma_boundary(bytes, max as int);
}

/// The message of a refused request shows status and body, that of an oversized answer the
/// size and the limit.
pub proof fn law_fetch_errors_tell(status: Seq<char>, body: Seq<char>, bytes: u64, limit: u64)
    ensures
        error_text(FetchErrorView::Refused { status, body }) == "pangolin returned "@ + status
            + ": "@ + body,
        error_text(FetchErrorView::TooLarge { bytes, limit }) == "pangolin response is "@ + dec(
            bytes as nat,
        ) + " bytes, exceeds CONFIG_MAX_RESPONSE_BODY_BYTES="@ + dec(limit as nat),
{
}

// ---- what is remembered -----------------------------------------------------------------

/// What a fetch does to the state: a failure touches nothing but the delay; an unchanged
/// configuration makes the controller ready and keeps what it knows; a new one is
/// reconciled before anything is remembered. Every fetch that succeeds takes the delay back
/// to one second.
pub proof fn law_fetches_are_remembered(
    cfg: ConfigView,
    s: LoopStateView,
    t: LoopStateView,
    etag: Option<Seq<char>>,
    digest: Seq<char>,
)
    ensures
        is_state_after_fetch(cfg, s, FetchEventView::Failed, t) ==> t.last_etag == s.last_etag
            && t.last_digest == s.last_digest && t.ready == s.ready,
        is_state_after_fetch(cfg, s, FetchEventView::NotModified, t) ==> {
            &&& t.last_etag == s.last_etag
            &&& t.last_digest == s.last_digest
            &&& t.ready
            &&& t.backoff.secs == 1 && t.backoff.nanos == 0
        },
        action_after_fetch(cfg, s, FetchEventView::NotModified) == LoopActionView::Wait(
            cfg.poll_interval,
        ),
        ({
            let changed = FetchEventView::Changed { etag, digest };
            &&& is_state_after_fetch(cfg, s, changed, t) ==> t.backoff.secs == 1 && t.backoff.nanos
                == 0 && t.last_digest == s.last_digest
            &&& is_state_after_fetch(cfg, s, changed, t) && s.last_digest == Some(digest)
                ==> t.ready && (etag is Some ==> t.last_etag == etag) && (etag is None
                ==> t.last_etag == s.last_etag)
            &&& is_state_after_fetch(cfg, s, changed, t) && s.last_digest != Some(digest)
                ==> t.ready == s.ready && t.last_etag == s.last_etag
            &&& s.last_digest == Some(digest) ==> action_after_fetch(cfg, s, changed)
                == LoopActionView::Wait(cfg.poll_interval)
            &&& s.last_digest != Some(digest) ==> action_after_fetch(cfg, s, changed) == (
            LoopActionView::Reconcile { etag, digest })
        }),
{
}

/// What a reconciliation does to the state: a success remembers digest and entity tag and
/// makes the controller ready, a failure touches nothing but the delay.
pub proof fn law_reconciliations_are_remembered(
    cfg: ConfigView,
    s: LoopStateView,
    t: LoopStateView,
    etag: Option<Seq<char>>,
    digest: Seq<char>,
)
    ensures
        is_state_after_reconcile(cfg, s, etag, digest, true, t) ==> {
            &&& t.last_digest == Some(digest)
            &&& etag is Some ==> t.last_etag == etag
            &&& etag is None ==> t.last_etag == s.last_etag
            &&& t.ready
            &&& t.backoff == s.backoff
        },
        is_state_after_reconcile(cfg, s, etag, digest, false, t) ==> {
            &&& t.last_digest == s.last_digest
            &&& t.last_etag == s.last_etag
            &&& t.ready == s.ready
        },
        wait_after_reconcile(cfg, s, true) == cfg.poll_interval,
{
}

/// After a failure the delay doubles, up to the bound, and the wait is the delay from
/// before, within the bound; a failed reconciliation waits like a failed fetch.
pub proof fn law_failures_back_off(
    cfg: ConfigView,
    s: LoopStateView,
    t: LoopStateView,
    etag: Option<Seq<char>>,
    digest: Seq<char>,
)
    requires
        s.backoff.valid(),
        cfg.max_backoff.valid(),
        is_state_after_fetch(cfg, s, FetchEventView::Failed, t) || is_state_after_reconcile(
            cfg,
            s,
            etag,
            digest,
            false,
            t,
        ),
    ensures
        ({
            let wait = wait_after_reconcile(cfg, s, false);
            &&& action_after_fetch(cfg, s, FetchEventView::Failed) == LoopActionView::Wait(wait)
            &&& s.backoff.total() <= cfg.max_backoff.total() ==> wait == s.backoff
            &&& s.backoff.total() > cfg.max_backoff.total() ==> wait == cfg.max_backoff
            &&& 2 * s.backoff.total() <= cfg.max_backoff.total() ==> t.backoff.total() == 2
                * s.backoff.total()
            &&& 2 * s.backoff.total() > cfg.max_backoff.total() ==> t.backoff.total()
                == cfg.max_backoff.total()
        }),
{
}

// ---- applying ---------------------------------------------------------------------------

/// An object of the kind is desired under the name.
pub open spec fn is_desired(d: DesiredView, kind: ObjectKind, name: Seq<char>) -> bool {
    match kind {
        ObjectKind::Service => d.services.contains_key(name),
        ObjectKind::EndpointSlice => d.endpoint_slices.contains_key(name),
        ObjectKind::EnvoyBackend => d.envoy_backends.contains_key(name),
        ObjectKind::BackendTlsPolicy => d.backend_tls_policies.contains_key(name),
        ObjectKind::ListenerSet => d.listener_sets.contains_key(name),
        ObjectKind::SecurityPolicy => d.security_policies.contains_key(name),
        ObjectKind::HttpRoute => d.http_routes.contains_key(name),
        ObjectKind::TcpRoute => d.tcp_routes.contains_key(name),
        ObjectKind::UdpRoute => d.udp_routes.contains_key(name),
    }
}

pub open spec fn all_finite(d: DesiredView) -> bool {
    &&& d.services.dom().finite()
    &&& d.endpoint_slices.dom().finite()
    &&& d.envoy_backends.dom().finite()
    &&& d.backend_tls_policies.dom().finite()
    &&& d.listener_sets.dom().finite()
    &&& d.security_policies.dom().finite()
    &&& d.http_routes.dom().finite()
    &&& d.tcp_routes.dom().finite()
    &&& d.udp_routes.dom().finite()
}

proof fn lemma_steps(d: DesiredView, of: ObjectKind, kind: ObjectKind, name: Seq<char>)
    requires
        all_finite(d),
    ensures
        steps_of(d, of).contains((kind, name)) <==> of == kind && is_desired(d, kind, name),
{
    let names = in_order(names_of(d, of));
    lemma_in_order_lists(names_of(d, of));
    let steps = steps_of(d, of);
    if steps.contains((kind, name)) {
        let i = choose|i: int| 0 <= i < steps.len() && steps[i] == (kind, name);
        assert(names[i] == name);
        assert(names.to_set().contains(name));
    }
    if of == kind && is_desired(d, kind, name) {
        assert(names.to_set().contains(name));
        let i = choose|i: int| 0 <= i < names.len() && names[i] == name;
        assert(steps[i] == (kind, name));
    }
}

proof fn lemma_contains_add<T>(a: Seq<T>, b: Seq<T>, x: T)
    ensures
        (a + b).contains(x) <==> a.contains(x) || b.contains(x),
{
    let c = a + b;
    if c.contains(x) {
        let i = choose|i: int| 0 <= i < c.len() && c[i] == x;
        if i < a.len() {
            assert(a[i] == x);
        } else {
            assert(b[i - a.len()] == x);
        }
    }
    if a.contains(x) {
        let i = choose|i: int| 0 <= i < a.len() && a[i] == x;
        assert(c[i] == x);
    }
    if b.contains(x) {
        let i = choose|i: int| 0 <= i < b.len() && b[i] == x;
        assert(c[a.len() + i] == x);
    }
}

/// Every desired object is applied, and nothing else is.
pub proof fn law_desired_objects_are_applied(d: DesiredView, kind: ObjectKind, name: Seq<char>)
    requires
        all_finite(d),
    ensures
        apply_steps(d).contains((kind, name)) <==> is_desired(d, kind, name),
{
    let x = (kind, name);
    let a = steps_of(d, ObjectKind::Service);
    let b = a + steps_of(d, ObjectKind::EndpointSlice);
    let c = b + steps_of(d, ObjectKind::EnvoyBackend);
    let e = c + steps_of(d, ObjectKind::BackendTlsPolicy);
    let f = e + steps_of(d, ObjectKind::ListenerSet);
    let g = f + steps_of(d, ObjectKind::SecurityPolicy);
    let h = g + steps_of(d, ObjectKind::HttpRoute);
    let k = h + steps_of(d, ObjectKind::TcpRoute);
    lemma_contains_add(a, steps_of(d, ObjectKind::EndpointSlice), x);
    lemma_contains_add(b, steps_of(d, ObjectKind::EnvoyBackend), x);
    lemma_contains_add(c, steps_of(d, ObjectKind::BackendTlsPolicy), x);
    lemma_contains_add(e, steps_of(d, ObjectKind::ListenerSet), x);
    lemma_contains_add(f, steps_of(d, ObjectKind::SecurityPolicy), x);
    lemma_contains_add(g, steps_of(d, ObjectKind::HttpRoute), x);
    lemma_contains_add(h, steps_of(d, ObjectKind::TcpRoute), x);
    lemma_contains_add(k, steps_of(d, ObjectKind::UdpRoute), x);
    lemma_steps(d, ObjectKind::Service, kind, name);
    lemma_steps(d, ObjectKind::EndpointSlice, kind, name);
    lemma_steps(d, ObjectKind::EnvoyBackend, kind, name);
    lemma_steps(d, ObjectKind::BackendTlsPolicy, kind, name);
    lemma_steps(d, ObjectKind::ListenerSet, kind, name);
    lemma_steps(d, ObjectKind::SecurityPolicy, kind, name);
    lemma_steps(d, ObjectKind::HttpRoute, kind, name);
    lemma_steps(d, ObjectKind::TcpRoute, kind, name);
    lemma_steps(d, ObjectKind::UdpRoute, kind, name);
}

pub open spec fn is_route(kind: ObjectKind) -> bool {
    kind == ObjectKind::HttpRoute || kind == ObjectKind::TcpRoute || kind == ObjectKind::UdpRoute
}

/// Nothing but routes is applied after a route, nothing but policies and routes after a
/// security policy, and no backend after the listener set.
pub proof fn law_routes_are_applied_last(d: DesiredView, i: int, j: int)
    requires
        0 <= i < j < apply_steps(d).len(),
    ensures
        ({
            let first = apply_steps(d)[i].0;
            let later = apply_steps(d)[j].0;
            &&& is_route(first) ==> is_route(later)
            &&& first == ObjectKind::SecurityPolicy ==> later == ObjectKind::SecurityPolicy
                || is_route(later)
            &&& first == ObjectKind::ListenerSet ==> later == ObjectKind::ListenerSet || later
                == ObjectKind::SecurityPolicy || is_route(later)
        }),
{
}

/// Read-only mode writes nothing, and an object without a name is an error in either mode.
pub proof fn law_read_only_applies_nothing(metadata: ObjectMetaView, read_only: bool)
    ensures
        apply_action_of(metadata, read_only) == ApplyAction::Apply <==> metadata.name is Some
            && !read_only,
        apply_action_of(metadata, read_only) == ApplyAction::Skip <==> metadata.name is Some
            && read_only,
        apply_action_of(metadata, read_only) == ApplyAction::Nameless <==> metadata.name is None,
{
}

// ---- sweeping ---------------------------------------------------------------------------

/// Which kinds are swept: the core ones always, the others in the modes that use them.
pub proof fn law_kinds_are_swept(cfg: ConfigView, kind: ObjectKind)
    ensures
        kinds_to_sweep(cfg).contains(kind) <==> match kind {
            ObjectKind::HttpRoute | ObjectKind::ListenerSet | ObjectKind::EndpointSlice
            | ObjectKind::Service => true,
            ObjectKind::EnvoyBackend => cfg.backend_kind == BackendKind::EnvoyBackend,
            ObjectKind::BackendTlsPolicy => cfg.backend_kind == BackendKind::Service,
            ObjectKind::SecurityPolicy => cfg.backend_kind == BackendKind::EnvoyBackend
                || cfg.ext_authz is Some,
            ObjectKind::TcpRoute => cfg.enable_tcp_routes,
            ObjectKind::UdpRoute => cfg.enable_udp_routes,
        },
{
    let envoy = cfg.backend_kind == BackendKind::EnvoyBackend;
    let a = seq![
        ObjectKind::HttpRoute,
        ObjectKind::ListenerSet,
        ObjectKind::EndpointSlice,
        ObjectKind::Service,
    ];
    let b = crate::reconcile::when(envoy, ObjectKind::EnvoyBackend);
    let c = crate::reconcile::when(cfg.enable_tcp_routes, ObjectKind::TcpRoute);
    let d = crate::reconcile::when(cfg.enable_udp_routes, ObjectKind::UdpRoute);
    let e = crate::reconcile::when(envoy || cfg.ext_authz is Some, ObjectKind::SecurityPolicy);
    let f = crate::reconcile::when(!envoy, ObjectKind::BackendTlsPolicy);
    lemma_contains_add(a, b, kind);
    lemma_contains_add(a + b, c, kind);
    lemma_contains_add(a + b + c, d, kind);
    lemma_contains_add(a + b + c + d, e, kind);
    lemma_contains_add(a + b + c + d + e, f, kind);
    assert(a[0] == ObjectKind::HttpRoute && a[1] == ObjectKind::ListenerSet && a[2]
        == ObjectKind::EndpointSlice && a[3] == ObjectKind::Service);
    lemma_when(envoy, ObjectKind::EnvoyBackend, kind);
    lemma_when(cfg.enable_tcp_routes, ObjectKind::TcpRoute, kind);
    lemma_when(cfg.enable_udp_routes, ObjectKind::UdpRoute, kind);
    lemma_when(envoy || cfg.ext_authz is Some, ObjectKind::SecurityPolicy, kind);
    lemma_when(!envoy, ObjectKind::BackendTlsPolicy, kind);
}

proof fn lemma_when(on: bool, of: ObjectKind, kind: ObjectKind)
    ensures
        crate::reconcile::when(on, of).contains(kind) <==> on && of == kind,
{
    let s = crate::reconcile::when(on, of);
    if on {
        assert(s[0] == of);
    }
}

/// No route is swept after a policy that protects routes, and no kind twice.
pub proof fn law_policies_are_swept_after_routes(cfg: ConfigView, i: int, j: int)
    requires
        0 <= i < j < kinds_to_sweep(cfg).len(),
    ensures
        kinds_to_sweep(cfg)[i] == ObjectKind::SecurityPolicy ==> !is_route(kinds_to_sweep(cfg)[j]),
        kinds_to_sweep(cfg)[i] != kinds_to_sweep(cfg)[j],
{
}

/// One more existing object is swept last, if it has a name that nobody wants.
pub proof fn law_orphans_stand_in_order(
    existing: Seq<Option<Seq<char>>>,
    desired: Set<Seq<char>>,
    name: Seq<char>,
)
    ensures
        !desired.contains(name) ==> orphans(existing.push(Some(name)), desired) == orphans(
            existing,
            desired,
        ).push(name),
        desired.contains(name) ==> orphans(existing.push(Some(name)), desired) == orphans(
            existing,
            desired,
        ),
        orphans(existing.push(None), desired) == orphans(existing, desired),
        orphans(Seq::empty(), desired).len() == 0,
{
    assert(existing.push(Some(name)).drop_last() =~= existing);
    assert(existing.push(None).drop_last() =~= existing);
}

/// A round in which every apply succeeds applies each step in turn, then sweeps each kind in
/// turn, whatever came of earlier sweeps, and is then done.
pub proof fn law_rounds_go_through_every_step(outcomes: Seq<bool>, applies: nat, sweeps: nat)
    requires
        forall|k: int|
            0 <= k < applies && k < outcomes.len() ==> #[trigger] outcomes[k],
        outcomes.len() <= applies + sweeps <= usize::MAX,
    ensures
        is_round(outcomes, applies, sweeps),
        outcomes.len() < applies ==> (action_after(outcomes, applies, sweeps)
            matches RoundAction::Apply(i) && i == outcomes.len()),
        applies <= outcomes.len() < applies + sweeps ==> (action_after(outcomes, applies, sweeps)
            matches RoundAction::Sweep(i) && i == outcomes.len() - applies),
        outcomes.len() == applies + sweeps ==> action_after(outcomes, applies, sweeps)
            == RoundAction::Done,
{
    assert forall|k: int| 0 <= k < outcomes.len() implies {
        let a = #[trigger] action_after(outcomes.take(k), applies, sweeps);
        a is Apply || a is Sweep
    } by {
        if k > 0 && k <= applies {
            assert(outcomes.take(k).last() == outcomes[k - 1]);
        }
    }
    if outcomes.len() > 0 && outcomes.len() <= applies {
        assert(outcomes.last() == outcomes[outcomes.len() - 1]);
    }
}

} // verus!

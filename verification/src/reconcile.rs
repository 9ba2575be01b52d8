//! The reconcile loop as decisions: poll pangolin, transform, apply, collect garbage.
//!
//! Nothing here does any of that work. [`LoopState`] takes what came of a fetch or of a
//! reconciliation and says what to do next; [`apply_plan`] and [`sweep_kinds`] say in
//! which order objects are applied and which kinds are swept, and [`next_step`] leads
//! through a round of both.

use vstd::arithmetic::power2::{lemma2_to64, lemma_pow2_unfold, pow2};
use vstd::prelude::*;
use vstd::string::*;

use crate::config::{BackendKind, Config, ConfigView};
use crate::duration::{nanos_per_sec, Duration};
use crate::health::Readiness;
use crate::strmap::{in_order, StrMap, StrSet};
use crate::text;
use crate::transform::desired::{Desired, DesiredView};

verus! {

// ---- the loop -----------------------------------------------------------------------

/// What the loop remembers between polls.
pub struct LoopState {
    pub last_etag: Option<String>,
    pub last_digest: Option<String>,
    pub backoff: Duration,
    pub readiness: Readiness,
}

#[verifier::ext_equal]
pub struct LoopStateView {
    pub last_etag: Option<Seq<char>>,
    pub last_digest: Option<Seq<char>>,
    pub backoff: Duration,
    pub ready: bool,
}

impl DeepView for LoopState {
    type V = LoopStateView;

    open spec fn deep_view(&self) -> LoopStateView {
        LoopStateView {
            last_etag: self.last_etag.deep_view(),
            last_digest: self.last_digest.deep_view(),
            backoff: self.backoff,
            ready: self.readiness@,
        }
    }
}

/// What came of a fetch.
pub enum FetchEvent {
    Failed,
    NotModified,
    /// A configuration, with its entity tag and the digest of its body.
    Changed { etag: Option<String>, digest: String },
}

pub enum FetchEventView {
    Failed,
    NotModified,
    Changed { etag: Option<Seq<char>>, digest: Seq<char> },
}

impl DeepView for FetchEvent {
    type V = FetchEventView;

    open spec fn deep_view(&self) -> FetchEventView {
        match self {
            FetchEvent::Failed => FetchEventView::Failed,
            FetchEvent::NotModified => FetchEventView::NotModified,
            FetchEvent::Changed { etag, digest } => FetchEventView::Changed {
                etag: etag.deep_view(),
                digest: digest@,
            },
        }
    }
}

/// What to do next.
pub enum LoopAction {
    /// Wait, then fetch again.
    Wait(Duration),
    /// Reconcile the fetched configuration, then see [`LoopState::on_reconciled`].
    Reconcile { etag: Option<String>, digest: String },
}

pub enum LoopActionView {
    Wait(Duration),
    Reconcile { etag: Option<Seq<char>>, digest: Seq<char> },
}

impl DeepView for LoopAction {
    type V = LoopActionView;

    open spec fn deep_view(&self) -> LoopActionView {
        match self {
            LoopAction::Wait(d) => LoopActionView::Wait(*d),
            LoopAction::Reconcile { etag, digest } => LoopActionView::Reconcile {
                etag: etag.deep_view(),
                digest: digest@,
            },
        }
    }
}

pub open spec fn one_second() -> Duration {
    Duration { secs: 1, nanos: 0 }
}

/// Twice the delay, but never more than the bound.
pub open spec fn is_next_backoff(next: Duration, current: Duration, max: Duration) -> bool {
    &&& next.valid()
    &&& next.total() == if 2 * current.total() < max.total() {
        2 * current.total()
    } else {
        max.total()
    }
}

pub fn next_backoff(current: Duration, max: Duration) -> (r: Duration)
    requires
        current.valid(),
        max.valid(),
    ensures
        is_next_backoff(r, current, max),
{
    // Twice more than half of the bound is beyond it, and might not fit a `Duration`.
    if current.secs <= max.secs / 2 {
        let twice = current.doubled();
        if twice.shorter_than(&max) {
            twice
        } else {
            max
        }
    } else {
        max
    }
}

/// The delay, but never more than the bound.
pub open spec fn capped(delay: Duration, max: Duration) -> Duration {
    if max.total() < delay.total() {
        max
    } else {
        delay
    }
}

/// The wait after a failure.
fn capped_wait(delay: Duration, max: Duration) -> (r: Duration)
    requires
        delay.valid(),
        max.valid(),
    ensures
        r == capped(delay, max),
        r.valid(),
        r.total() == if delay.total() < max.total() {
            delay.total()
        } else {
            max.total()
        },
{
    if max.shorter_than(&delay) {
        max
    } else {
        delay
    }
}

/// A successful poll cycle ends in readiness and the usual pause.
pub open spec fn settled(
    s: LoopStateView,
    etag: Option<Seq<char>>,
    digest: Option<Seq<char>>,
) -> LoopStateView {
    LoopStateView {
        last_etag: if etag is Some {
            etag
        } else {
            s.last_etag
        },
        last_digest: digest,
        ready: true,
        ..s
    }
}

/// The state after a fetch. A fetch that succeeded resets the delay.
pub open spec fn is_state_after_fetch(
    cfg: ConfigView,
    s: LoopStateView,
    event: FetchEventView,
    t: LoopStateView,
) -> bool {
    let calm = LoopStateView { backoff: one_second(), ..s };
    match event {
        FetchEventView::Failed => {
            &&& is_next_backoff(t.backoff, s.backoff, cfg.max_backoff)
            &&& t == LoopStateView { backoff: t.backoff, ..s }
        },
        FetchEventView::NotModified => t == settled(calm, None, s.last_digest),
        FetchEventView::Changed { etag, digest } => if s.last_digest == Some(digest) {
            t == settled(calm, etag, s.last_digest)
        } else {
            t == calm
        },
    }
}

/// What follows a fetch: a failure waits out the delay within its bound, a new body is
/// reconciled, and an unchanged one waits for the next poll.
pub open spec fn action_after_fetch(
    cfg: ConfigView,
    s: LoopStateView,
    event: FetchEventView,
) -> LoopActionView {
    match event {
        FetchEventView::Failed => LoopActionView::Wait(capped(s.backoff, cfg.max_backoff)),
        FetchEventView::NotModified => LoopActionView::Wait(cfg.poll_interval),
        FetchEventView::Changed { etag, digest } => if s.last_digest == Some(digest) {
            LoopActionView::Wait(cfg.poll_interval)
        } else {
            LoopActionView::Reconcile { etag, digest }
        },
    }
}

/// The state after a reconciliation. Only a successful one is remembered, so a failed
/// one is tried again with the next fetch.
pub open spec fn is_state_after_reconcile(
    cfg: ConfigView,
    s: LoopStateView,
    etag: Option<Seq<char>>,
    digest: Seq<char>,
    succeeded: bool,
    t: LoopStateView,
) -> bool {
    if succeeded {
        t == settled(s, etag, Some(digest))
    } else {
        &&& is_next_backoff(t.backoff, s.backoff, cfg.max_backoff)
        &&& t == LoopStateView { backoff: t.backoff, ..s }
    }
}

pub open spec fn wait_after_reconcile(
    cfg: ConfigView,
    s: LoopStateView,
    succeeded: bool,
) -> Duration {
    if succeeded {
        cfg.poll_interval
    } else {
        capped(s.backoff, cfg.max_backoff)
    }
}

impl LoopState {
    pub fn new() -> (r: LoopState)
        ensures
            r.deep_view() == (LoopStateView {
                last_etag: None,
                last_digest: None,
                backoff: one_second(),
                ready: false,
            }),
    {
        LoopState {
            last_etag: None,
            last_digest: None,
            backoff: Duration::from_secs(1),
            readiness: Readiness::new(),
        }
    }

    fn settle(&mut self, etag: Option<String>, digest: Option<String>)
        ensures
            final(self).deep_view() == settled(
                old(self).deep_view(),
                etag.deep_view(),
                digest.deep_view(),
            ),
    {
        if etag.is_some() {
            self.last_etag = etag;
        }
        self.last_digest = digest;
        self.readiness.set_ready();
    }

    /// Take what came of a fetch and say what to do.
    pub fn on_fetch(&mut self, cfg: &Config, event: FetchEvent) -> (r: LoopAction)
        requires
            old(self).backoff.valid(),
            cfg.max_backoff.valid(),
        ensures
            r.deep_view() == action_after_fetch(
                cfg.deep_view(),
                old(self).deep_view(),
                event.deep_view(),
            ),
            is_state_after_fetch(
                cfg.deep_view(),
                old(self).deep_view(),
                event.deep_view(),
                final(self).deep_view(),
            ),
    {
        match event {
            FetchEvent::Failed => {
                let wait = capped_wait(self.backoff, cfg.max_backoff);
                self.backoff = next_backoff(self.backoff, cfg.max_backoff);
                LoopAction::Wait(wait)
            },
            FetchEvent::NotModified => {
                self.backoff = Duration::from_secs(1);
                let digest = text::copy_opt(&self.last_digest);
                self.settle(None, digest);
                LoopAction::Wait(cfg.poll_interval)
            },
            FetchEvent::Changed { etag, digest } => {
                self.backoff = Duration::from_secs(1);
                let unchanged = match &self.last_digest {
                    Some(d) => text::same(d.as_str(), digest.as_str()),
                    None => false,
                };
                if unchanged {
                    self.settle(etag, Some(digest));
                    LoopAction::Wait(cfg.poll_interval)
                } else {
                    LoopAction::Reconcile { etag, digest }
                }
            },
        }
    }

    /// Take what came of a reconciliation and say how long to wait.
    pub fn on_reconciled(
        &mut self,
        cfg: &Config,
        etag: Option<String>,
        digest: String,
        succeeded: bool,
    ) -> (r: Duration)
        requires
            old(self).backoff.valid(),
            cfg.max_backoff.valid(),
        ensures
            r == wait_after_reconcile(cfg.deep_view(), old(self).deep_view(), succeeded),
            is_state_after_reconcile(
                cfg.deep_view(),
                old(self).deep_view(),
                etag.deep_view(),
                digest@,
                succeeded,
                final(self).deep_view(),
            ),
    {
        if succeeded {
            self.settle(etag, Some(digest));
            cfg.poll_interval
        } else {
            let wait = capped_wait(self.backoff, cfg.max_backoff);
            self.backoff = next_backoff(self.backoff, cfg.max_backoff);
            wait
        }
    }
}

// ---- laws of the loop -----------------------------------------------------------------

/// Readiness is sticky: no event takes it back.
pub proof fn law_readiness_is_sticky(
    cfg: ConfigView,
    s: LoopStateView,
    event: FetchEventView,
    etag: Option<Seq<char>>,
    digest: Seq<char>,
    succeeded: bool,
    t: LoopStateView,
)
    requires
        s.ready,
        is_state_after_fetch(cfg, s, event, t) || is_state_after_reconcile(
            cfg,
            s,
            etag,
            digest,
            succeeded,
            t,
        ),
    ensures
        t.ready,
{
}

/// No wait after a failed fetch or a failed reconciliation is longer than the configured
/// bound.
pub proof fn law_backoff_stays_bounded(cfg: ConfigView, s: LoopStateView)
    requires
        s.backoff.valid(),
        cfg.max_backoff.valid(),
    ensures
        action_after_fetch(cfg, s, FetchEventView::Failed) matches LoopActionView::Wait(d)
            && d.valid() && d.total() <= cfg.max_backoff.total(),
        wait_after_reconcile(cfg, s, false).valid(),
        wait_after_reconcile(cfg, s, false).total() <= cfg.max_backoff.total(),
{
}

/// The states of a loop whose fetches all fail, from one with the first delay on.
pub open spec fn all_fetches_fail(cfg: ConfigView, states: Seq<LoopStateView>) -> bool {
    &&& states.len() > 0
    &&& states[0].backoff == one_second()
    &&& forall|k: int|
        0 < k < states.len() ==> is_state_after_fetch(
            cfg,
            states[k - 1],
            FetchEventView::Failed,
            #[trigger] states[k],
        )
}

proof fn lemma_delay_of_failure(cfg: ConfigView, states: Seq<LoopStateView>, i: int)
    requires
        cfg.max_backoff.valid(),
        all_fetches_fail(cfg, states),
        0 <= i < states.len(),
    ensures
        states[i].backoff.valid(),
        capped(states[i].backoff, cfg.max_backoff).total() == if pow2(i as nat) * nanos_per_sec()
            < cfg.max_backoff.total() {
            pow2(i as nat) * nanos_per_sec()
        } else {
            cfg.max_backoff.total()
        },
    decreases i,
{
    if i == 0 {
        lemma2_to64();
    } else {
        lemma_delay_of_failure(cfg, states, i - 1);
        lemma_pow2_unfold(i as nat);
        assert(is_state_after_fetch(cfg, states[i - 1], FetchEventView::Failed, states[i]));
    }
}

/// The waits double: the first failed fetch waits one second, each further one twice as
/// long, and none longer than the configured bound. States are counted from 0.
pub proof fn law_waits_double_up_to_the_bound(cfg: ConfigView, states: Seq<LoopStateView>, i: int)
    requires
        cfg.max_backoff.valid(),
        all_fetches_fail(cfg, states),
        0 <= i < states.len(),
    ensures
        action_after_fetch(cfg, states[i], FetchEventView::Failed) matches LoopActionView::Wait(d)
            && d.valid() && d.total() == if pow2(i as nat) * nanos_per_sec()
            < cfg.max_backoff.total() {
            pow2(i as nat) * nanos_per_sec()
        } else {
            cfg.max_backoff.total()
        },
{
    lemma_delay_of_failure(cfg, states, i);
}

/// A body that was reconciled is not reconciled again: the same digest in the next fetch
/// only waits.
pub proof fn law_reconciled_body_is_skipped(
    cfg: ConfigView,
    s: LoopStateView,
    etag: Option<Seq<char>>,
    later: Option<Seq<char>>,
    digest: Seq<char>,
    t: LoopStateView,
)
    requires
        is_state_after_reconcile(cfg, s, etag, digest, true, t),
    ensures
        action_after_fetch(cfg, t, FetchEventView::Changed { etag: later, digest })
            == LoopActionView::Wait(cfg.poll_interval),
{
}

/// A body whose reconciliation failed is reconciled again by the next fetch, unless it was
/// the last one to succeed.
pub proof fn law_failed_body_is_retried(
    cfg: ConfigView,
    s: LoopStateView,
    etag: Option<Seq<char>>,
    digest: Seq<char>,
    t: LoopStateView,
)
    requires
        s.last_digest != Some(digest),
        is_state_after_reconcile(cfg, s, etag, digest, false, t),
    ensures
        action_after_fetch(cfg, t, FetchEventView::Changed { etag, digest })
            == (LoopActionView::Reconcile { etag, digest }),
        t.last_etag == s.last_etag,
{
}

// ---- applying -------------------------------------------------------------------------

#[derive(Debug, Clone, Copy, PartialEq, Eq, Structural)]
pub enum ObjectKind {
    Service,
    EndpointSlice,
    EnvoyBackend,
    BackendTlsPolicy,
    ListenerSet,
    SecurityPolicy,
    HttpRoute,
    TcpRoute,
    UdpRoute,
}

/// The place of a kind in the order of application. Backends come first, so that
/// backendRefs resolve immediately, then the listener set, so that the parent of the
/// routes exists, and policies before the routes that they protect.
pub open spec fn rank(kind: ObjectKind) -> int {
    match kind {
        ObjectKind::Service => 0,
        ObjectKind::EndpointSlice => 1,
        ObjectKind::EnvoyBackend => 2,
        ObjectKind::BackendTlsPolicy => 3,
        ObjectKind::ListenerSet => 4,
        ObjectKind::SecurityPolicy => 5,
        ObjectKind::HttpRoute => 6,
        ObjectKind::TcpRoute => 7,
        ObjectKind::UdpRoute => 8,
    }
}

/// The names of the desired objects of a kind.
pub open spec fn names_of(d: DesiredView, kind: ObjectKind) -> Set<Seq<char>> {
    match kind {
        ObjectKind::Service => d.services.dom(),
        ObjectKind::EndpointSlice => d.endpoint_slices.dom(),
        ObjectKind::EnvoyBackend => d.envoy_backends.dom(),
        ObjectKind::BackendTlsPolicy => d.backend_tls_policies.dom(),
        ObjectKind::ListenerSet => d.listener_sets.dom(),
        ObjectKind::SecurityPolicy => d.security_policies.dom(),
        ObjectKind::HttpRoute => d.http_routes.dom(),
        ObjectKind::TcpRoute => d.tcp_routes.dom(),
        ObjectKind::UdpRoute => d.udp_routes.dom(),
    }
}

/// The objects of a kind, in the order of their names.
pub open spec fn steps_of(d: DesiredView, kind: ObjectKind) -> Seq<(ObjectKind, Seq<char>)> {
    let names = in_order(names_of(d, kind));
    Seq::new(names.len(), |i: int| (kind, names[i]))
}

/// All desired objects, in the order in which they are applied.
pub open spec fn apply_steps(d: DesiredView) -> Seq<(ObjectKind, Seq<char>)> {
    steps_of(d, ObjectKind::Service) + steps_of(d, ObjectKind::EndpointSlice) + steps_of(
        d,
        ObjectKind::EnvoyBackend,
    ) + steps_of(d, ObjectKind::BackendTlsPolicy) + steps_of(d, ObjectKind::ListenerSet)
        + steps_of(d, ObjectKind::SecurityPolicy) + steps_of(d, ObjectKind::HttpRoute) + steps_of(
        d,
        ObjectKind::TcpRoute,
    ) + steps_of(d, ObjectKind::UdpRoute)
}

/// Objects are applied kind by kind, in the order of the kinds: no route before the
/// backends, the listener set and the policies.
pub proof fn law_kinds_are_applied_in_order(d: DesiredView, i: int, j: int)
    requires
        0 <= i < j < apply_steps(d).len(),
    ensures
        rank(apply_steps(d)[i].0) <= rank(apply_steps(d)[j].0),
{
}

/// One object to apply.
pub struct Step {
    pub kind: ObjectKind,
    pub name: String,
}

impl DeepView for Step {
    type V = (ObjectKind, Seq<char>);

    open spec fn deep_view(&self) -> (ObjectKind, Seq<char>) {
        (self.kind, self.name@)
    }
}

fn add_steps<T>(out: &mut Vec<Step>, kind: ObjectKind, objects: &StrMap<T>)
    ensures
        ({
            let names = in_order(objects@.dom());
            final(out).deep_view() == old(out).deep_view() + Seq::new(
                names.len(),
                |i: int| (kind, names[i]),
            )
        }),
{
    let names = objects.keys();
    let ghost listed = in_order(objects@.dom());
    let ghost more = Seq::new(listed.len(), |i: int| (kind, listed[i]));
    let ghost start = out.deep_view();
    let mut i: usize = 0;
    assert(names@.len() == names.deep_view().len());
    assert(out.deep_view() =~= start + more.take(0));
    while i < names.len()
        invariant
            names.deep_view() == listed,
            names@.len() == listed.len(),
            more == Seq::new(listed.len(), |i: int| (kind, listed[i])),
            i <= names@.len(),
            out.deep_view() == start + more.take(i as int),
        decreases names@.len() - i,
    {
        let ghost before = out.deep_view();
        assert(names.deep_view()[i as int] == names@[i as int]@);
        let s = Step { kind, name: names[i].clone() };
        out.push(s);
        assert(out.deep_view() =~= before.push(s.deep_view()));
        i += 1;
        assert(out.deep_view() =~= start + more.take(i as int));
    }
    assert(more.take(i as int) =~= more);
}

/// The objects to apply, in order.
pub fn apply_plan(desired: &Desired) -> (r: Vec<Step>)
    ensures
        r.deep_view() == apply_steps(desired.deep_view()),
{
    let mut out: Vec<Step> = Vec::new();
    let ghost d = desired.deep_view();
    proof {
        lemma_doms(*desired);
    }
    assert(out.deep_view() =~= Seq::<(ObjectKind, Seq<char>)>::empty());
    add_steps(&mut out, ObjectKind::Service, &desired.services);
    assert(out.deep_view() =~= steps_of(d, ObjectKind::Service));
    add_steps(&mut out, ObjectKind::EndpointSlice, &desired.endpoint_slices);
    add_steps(&mut out, ObjectKind::EnvoyBackend, &desired.envoy_backends);
    add_steps(&mut out, ObjectKind::BackendTlsPolicy, &desired.backend_tls_policies);
    add_steps(&mut out, ObjectKind::ListenerSet, &desired.listener_sets);
    add_steps(&mut out, ObjectKind::SecurityPolicy, &desired.security_policies);
    add_steps(&mut out, ObjectKind::HttpRoute, &desired.http_routes);
    add_steps(&mut out, ObjectKind::TcpRoute, &desired.tcp_routes);
    add_steps(&mut out, ObjectKind::UdpRoute, &desired.udp_routes);
    out
}

/// The keys of a map are those of its view.
proof fn lemma_doms(d: Desired)
    ensures
        d.services@.dom() == d.deep_view().services.dom(),
        d.endpoint_slices@.dom() == d.deep_view().endpoint_slices.dom(),
        d.envoy_backends@.dom() == d.deep_view().envoy_backends.dom(),
        d.backend_tls_policies@.dom() == d.deep_view().backend_tls_policies.dom(),
        d.listener_sets@.dom() == d.deep_view().listener_sets.dom(),
        d.security_policies@.dom() == d.deep_view().security_policies.dom(),
        d.http_routes@.dom() == d.deep_view().http_routes.dom(),
        d.tcp_routes@.dom() == d.deep_view().tcp_routes.dom(),
        d.udp_routes@.dom() == d.deep_view().udp_routes.dom(),
{
    assert(d.services@.dom() =~= d.deep_view().services.dom());
    assert(d.endpoint_slices@.dom() =~= d.deep_view().endpoint_slices.dom());
    assert(d.envoy_backends@.dom() =~= d.deep_view().envoy_backends.dom());
    assert(d.backend_tls_policies@.dom() =~= d.deep_view().backend_tls_policies.dom());
    assert(d.listener_sets@.dom() =~= d.deep_view().listener_sets.dom());
    assert(d.security_policies@.dom() =~= d.deep_view().security_policies.dom());
    assert(d.http_routes@.dom() =~= d.deep_view().http_routes.dom());
    assert(d.tcp_routes@.dom() =~= d.deep_view().tcp_routes.dom());
    assert(d.udp_routes@.dom() =~= d.deep_view().udp_routes.dom());
}

// ---- sweeping ---------------------------------------------------------------------------

pub open spec fn when(on: bool, kind: ObjectKind) -> Seq<ObjectKind> {
    if on {
        seq![kind]
    } else {
        Seq::empty()
    }
}

/// The kinds to sweep, in order. Kinds whose CRD may not be installed are listed only in
/// the mode that uses them; routes go before the policies that protect them.
pub open spec fn kinds_to_sweep(cfg: ConfigView) -> Seq<ObjectKind> {
    let envoy = cfg.backend_kind == BackendKind::EnvoyBackend;
    seq![
        ObjectKind::HttpRoute,
        ObjectKind::ListenerSet,
        ObjectKind::EndpointSlice,
        ObjectKind::Service,
    ] + when(envoy, ObjectKind::EnvoyBackend) + when(cfg.enable_tcp_routes, ObjectKind::TcpRoute)
        + when(cfg.enable_udp_routes, ObjectKind::UdpRoute) + when(
        envoy || cfg.ext_authz is Some,
        ObjectKind::SecurityPolicy,
    ) + when(!envoy, ObjectKind::BackendTlsPolicy)
}

fn push_when(out: &mut Vec<ObjectKind>, on: bool, kind: ObjectKind)
    ensures
        final(out)@ == old(out)@ + when(on, kind),
{
    let ghost before = out@;
    if on {
        out.push(kind);
        assert(out@ =~= before + seq![kind]);
    } else {
        assert(before + Seq::<ObjectKind>::empty() =~= before);
    }
}

/// The kinds to sweep, in order.
pub fn sweep_kinds(cfg: &Config) -> (r: Vec<ObjectKind>)
    ensures
        r@ == kinds_to_sweep(cfg.deep_view()),
{
    let envoy = cfg.backend_kind == BackendKind::EnvoyBackend;
    let mut out = vec![
        ObjectKind::HttpRoute,
        ObjectKind::ListenerSet,
        ObjectKind::EndpointSlice,
        ObjectKind::Service,
    ];
    assert(out@ =~= seq![
        ObjectKind::HttpRoute,
        ObjectKind::ListenerSet,
        ObjectKind::EndpointSlice,
        ObjectKind::Service,
    ]);
    push_when(&mut out, envoy, ObjectKind::EnvoyBackend);
    push_when(&mut out, cfg.enable_tcp_routes, ObjectKind::TcpRoute);
    push_when(&mut out, cfg.enable_udp_routes, ObjectKind::UdpRoute);
    push_when(&mut out, envoy || cfg.ext_authz.is_some(), ObjectKind::SecurityPolicy);
    push_when(&mut out, !envoy, ObjectKind::BackendTlsPolicy);
    out
}

fn key_set<T>(objects: &StrMap<T>) -> (r: StrSet)
    ensures
        r@ == objects@.dom(),
{
    let keys = objects.keys();
    let ghost all = keys.deep_view();
    let mut out = StrSet::new();
    let mut i: usize = 0;
    assert(keys@.len() == all.len());
    assert(out@ =~= all.take(0).to_set());
    while i < keys.len()
        invariant
            all == keys.deep_view(),
            keys@.len() == all.len(),
            i <= keys@.len(),
            out@ == all.take(i as int).to_set(),
        decreases keys@.len() - i,
    {
        assert(all[i as int] == keys@[i as int]@);
        let ghost a = all.take(i as int);
        let ghost b = all.take(i + 1);
        let ghost before = out@;
        out.insert(keys[i].clone());
        assert forall|x: Seq<char>| b.to_set().contains(x) <==> before.insert(
            all[i as int],
        ).contains(x) by {
            if b.contains(x) {
                let k = choose|k: int| 0 <= k < b.len() && b[k] == x;
                if k < i {
                    assert(a[k] == x);
                }
            }
            if a.contains(x) {
                let k = choose|k: int| 0 <= k < a.len() && a[k] == x;
                assert(b[k] == x);
            }
            assert(b[i as int] == all[i as int]);
        }
        i += 1;
        assert(out@ =~= b.to_set());
    }
    assert(all.take(i as int) =~= all);
    out
}

/// The names of the desired objects of a kind.
pub fn desired_names(desired: &Desired, kind: ObjectKind) -> (r: StrSet)
    ensures
        r@ == names_of(desired.deep_view(), kind),
{
    proof {
        lemma_doms(*desired);
    }
    match kind {
        ObjectKind::Service => key_set(&desired.services),
        ObjectKind::EndpointSlice => key_set(&desired.endpoint_slices),
        ObjectKind::EnvoyBackend => key_set(&desired.envoy_backends),
        ObjectKind::BackendTlsPolicy => key_set(&desired.backend_tls_policies),
        ObjectKind::ListenerSet => key_set(&desired.listener_sets),
        ObjectKind::SecurityPolicy => key_set(&desired.security_policies),
        ObjectKind::HttpRoute => key_set(&desired.http_routes),
        ObjectKind::TcpRoute => key_set(&desired.tcp_routes),
        ObjectKind::UdpRoute => key_set(&desired.udp_routes),
    }
}

// ---- rounds -----------------------------------------------------------------------------

/// What a round of applying and sweeping does next.
#[derive(Debug, Clone, Copy, PartialEq, Eq, Structural)]
pub enum RoundAction {
    /// Apply that step of the plan.
    Apply(usize),
    /// Sweep that one of the kinds.
    Sweep(usize),
    /// Everything was applied and swept.
    Done,
    /// An apply failed: the round ends there.
    Failed,
}

/// What follows the first `done` applies and sweeps of a round, of which the last
/// succeeded or not: the first failed apply ends the round, sweeping begins after the last
/// apply, and a failed sweep does not count.
pub open spec fn round_action(done: int, last_ok: bool, applies: nat, sweeps: nat) -> RoundAction {
    if 0 < done <= applies && !last_ok {
        RoundAction::Failed
    } else if done < applies {
        RoundAction::Apply(done as usize)
    } else if done < applies + sweeps {
        RoundAction::Sweep((done - applies) as usize)
    } else {
        RoundAction::Done
    }
}

/// What to do after the first `done` applies and sweeps of a round.
pub fn next_step(
    done: usize,
    last_ok: bool,
    plan: &Vec<Step>,
    kinds: &Vec<ObjectKind>,
) -> (r: RoundAction)
    ensures
        r == round_action(done as int, last_ok, plan@.len(), kinds@.len()),
{
    if 0 < done && done <= plan.len() && !last_ok {
        RoundAction::Failed
    } else if done < plan.len() {
        RoundAction::Apply(done)
    } else if done - plan.len() < kinds.len() {
        RoundAction::Sweep(done - plan.len())
    } else {
        RoundAction::Done
    }
}

/// What a round does after these outcomes.
pub open spec fn action_after(outcomes: Seq<bool>, applies: nat, sweeps: nat) -> RoundAction {
    round_action(
        outcomes.len() as int,
        outcomes.len() > 0 && outcomes.last(),
        applies,
        sweeps,
    )
}

/// The outcomes of a round so far: each belongs to an apply or a sweep that was asked for.
pub open spec fn is_round(outcomes: Seq<bool>, applies: nat, sweeps: nat) -> bool {
    forall|k: int|
        0 <= k < outcomes.len() ==> {
            let a = #[trigger] action_after(outcomes.take(k), applies, sweeps);
            a is Apply || a is Sweep
        }
}

/// Nothing is swept unless every apply succeeded, and a round is done only when every kind
/// was swept as well.
pub proof fn law_sweeping_follows_every_apply(outcomes: Seq<bool>, applies: nat, sweeps: nat)
    requires
        is_round(outcomes, applies, sweeps),
        action_after(outcomes, applies, sweeps) is Sweep || action_after(
            outcomes,
            applies,
            sweeps,
        ) is Done,
    ensures
        outcomes.len() >= applies,
        forall|k: int| 0 <= k < applies ==> #[trigger] outcomes[k],
        action_after(outcomes, applies, sweeps) is Done ==> outcomes.len() == applies + sweeps,
{
    assert forall|k: int| 0 <= k < applies implies #[trigger] outcomes[k] by {
        if k + 1 < outcomes.len() {
            assert(outcomes.take(k + 1).last() == outcomes[k]);
            assert(action_after(outcomes.take(k + 1), applies, sweeps) != RoundAction::Failed);
        }
    }
    if outcomes.len() > applies + sweeps {
        let n = outcomes.len() - 1;
        assert(action_after(outcomes.take(n), applies, sweeps) is Sweep);
    }
}

/// A round fails exactly when an apply fails: the last outcome is that of the first apply
/// that failed. A failed sweep never fails the round.
pub proof fn law_rounds_fail_by_applies(outcomes: Seq<bool>, applies: nat, sweeps: nat)
    requires
        is_round(outcomes, applies, sweeps),
    ensures
        action_after(outcomes, applies, sweeps) == RoundAction::Failed <==> exists|k: int|
            0 <= k < outcomes.len() && k < applies && !#[trigger] outcomes[k],
        action_after(outcomes, applies, sweeps) == RoundAction::Failed ==> outcomes.len()
            <= applies && forall|k: int|
            0 <= k < outcomes.len() - 1 ==> #[trigger] outcomes[k],
{
    assert forall|k: int| 0 <= k < outcomes.len() - 1 && k < applies implies #[trigger] outcomes[k] by {
        assert(outcomes.take(k + 1).last() == outcomes[k]);
        assert(action_after(outcomes.take(k + 1), applies, sweeps) != RoundAction::Failed);
    }
    if action_after(outcomes, applies, sweeps) == RoundAction::Failed {
        assert(!outcomes[outcomes.len() - 1]);
    }
}

} // verus!

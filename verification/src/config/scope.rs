//! The allow-list of objects to reconcile.

use vstd::prelude::*;
use vstd::string::*;

use crate::config::env::{entries_of, error, error_of, list_entries};
use crate::config::env::{ConfigError, ConfigErrorView, ErrorKind};
use crate::text;
use crate::text::{is_space, lower, split, split_once, trim, trim_end_char};

verus! {

// ---- kinds ------------------------------------------------------------------------

#[derive(Debug, Clone, Copy, PartialEq, Eq, PartialOrd, Ord, Structural)]
pub enum ReconcileKind {
    HttpRoute,
    ListenerSet,
    Service,
    EndpointSlice,
    Backend,
    SecurityPolicy,
    UDPRoute,
}

impl DeepView for ReconcileKind {
    type V = ReconcileKind;

    open spec fn deep_view(&self) -> ReconcileKind {
        *self
    }
}

/// The text without dashes, underscores and white space.
pub open spec fn unmarked(s: Seq<char>) -> Seq<char>
    decreases s.len(),
{
    if s.len() == 0 {
        s
    } else {
        let rest = unmarked(s.drop_last());
        let c = s.last();
        if c == '-' || c == '_' || is_space(c) {
            rest
        } else {
            rest.push(c)
        }
    }
}

/// The spelling by which kinds are told apart.
pub open spec fn kind_word(s: Seq<char>) -> Seq<char> {
    lower(unmarked(s))
}

pub open spec fn kind_named(word: Seq<char>) -> Option<ReconcileKind> {
    if word == "httproute"@ || word == "httproutes"@ || word == "hr"@ {
        Some(ReconcileKind::HttpRoute)
    } else if word == "listenerset"@ || word == "listenersets"@ || word == "ls"@ {
        Some(ReconcileKind::ListenerSet)
    } else if word == "service"@ || word == "services"@ || word == "svc"@ {
        Some(ReconcileKind::Service)
    } else if word == "endpointslice"@ || word == "endpointslices"@ || word == "eps"@ {
        Some(ReconcileKind::EndpointSlice)
    } else if word == "backend"@ || word == "backends"@ || word == "envoybackend"@ || word
        == "envoybackends"@ || word == "be"@ {
        Some(ReconcileKind::Backend)
    } else if word == "securitypolicy"@ || word == "securitypolicies"@ || word == "sp"@ {
        Some(ReconcileKind::SecurityPolicy)
    } else if word == "udproute"@ || word == "udproutes"@ || word == "udp"@ {
        Some(ReconcileKind::UDPRoute)
    } else {
        None
    }
}

pub open spec fn kind_of(s: Seq<char>) -> Result<ReconcileKind, ConfigErrorView> {
    match kind_named(kind_word(s)) {
        Some(k) => Ok(k),
        None => Err(error_of(ErrorKind::InvalidReconcileKind, Seq::empty(), kind_word(s))),
    }
}

pub open spec fn kind_text(kind: ReconcileKind) -> Seq<char> {
    match kind {
        ReconcileKind::HttpRoute => "HTTPRoute"@,
        ReconcileKind::ListenerSet => "ListenerSet"@,
        ReconcileKind::Service => "Service"@,
        ReconcileKind::EndpointSlice => "EndpointSlice"@,
        ReconcileKind::Backend => "Backend"@,
        ReconcileKind::SecurityPolicy => "SecurityPolicy"@,
        ReconcileKind::UDPRoute => "UDPRoute"@,
    }
}

fn normalize_kind(s: &str) -> (r: String)
    ensures
        r@ == kind_word(s@),
{
    let v = text::to_chars(s);
    let mut out = String::new();
    let mut i: usize = 0;
    assert(v@.take(0) =~= Seq::<char>::empty());
    while i < v.len()
        invariant
            v@ == s@,
            i <= v@.len(),
            out@ == unmarked(v@.take(i as int)),
        decreases v@.len() - i,
    {
        let c = v[i];
        assert(v@.take(i + 1).drop_last() =~= v@.take(i as int));
        if !(c == '-' || c == '_' || text::is_space_char(c)) {
            out.push(c);
        }
        i += 1;
    }
    assert(v@.take(i as int) =~= v@);
    text::to_lower(out.as_str())
}

impl ReconcileKind {
    pub fn parse(s: &str) -> (r: Result<ReconcileKind, ConfigError>)
        ensures
            match r {
                Ok(k) => kind_of(s@) == Ok::<_, ConfigErrorView>(k),
                Err(e) => kind_of(s@) == Err::<ReconcileKind, _>(e.deep_view()),
            },
    {
        let word = normalize_kind(s);
        let w = word.as_str();
        if text::same(w, "httproute") || text::same(w, "httproutes") || text::same(w, "hr") {
            Ok(ReconcileKind::HttpRoute)
        } else if text::same(w, "listenerset") || text::same(w, "listenersets") || text::same(
            w,
            "ls",
        ) {
            Ok(ReconcileKind::ListenerSet)
        } else if text::same(w, "service") || text::same(w, "services") || text::same(w, "svc") {
            Ok(ReconcileKind::Service)
        } else if text::same(w, "endpointslice") || text::same(w, "endpointslices") || text::same(
            w,
            "eps",
        ) {
            Ok(ReconcileKind::EndpointSlice)
        } else if text::same(w, "backend") || text::same(w, "backends") || text::same(
            w,
            "envoybackend",
        ) || text::same(w, "envoybackends") || text::same(w, "be") {
            Ok(ReconcileKind::Backend)
        } else if text::same(w, "securitypolicy") || text::same(w, "securitypolicies")
            || text::same(w, "sp") {
            Ok(ReconcileKind::SecurityPolicy)
        } else if text::same(w, "udproute") || text::same(w, "udproutes") || text::same(w, "udp") {
            Ok(ReconcileKind::UDPRoute)
        } else {
            proof {
                reveal_strlit("");
                assert(""@ =~= Seq::<char>::empty());
            }
            Err(error(ErrorKind::InvalidReconcileKind, "", w))
        }
    }

    pub fn as_str(self) -> (r: &'static str)
        ensures
            r@ == kind_text(self),
    {
        match self {
            ReconcileKind::HttpRoute => "HTTPRoute",
            ReconcileKind::ListenerSet => "ListenerSet",
            ReconcileKind::Service => "Service",
            ReconcileKind::EndpointSlice => "EndpointSlice",
            ReconcileKind::Backend => "Backend",
            ReconcileKind::SecurityPolicy => "SecurityPolicy",
            ReconcileKind::UDPRoute => "UDPRoute",
        }
    }
}

proof fn lemma_unmarked(s: Seq<char>)
    requires
        forall|i: int| 0 <= i < s.len() ==> text::is_alpha(#[trigger] s[i]),
    ensures
        unmarked(s) == s,
    decreases s.len(),
{
    if s.len() > 0 {
        lemma_unmarked(s.drop_last());
        assert(text::is_alpha(s[s.len() - 1]));
        assert(s =~= s.drop_last().push(s.last()));
    }
}

/// The name of a kind reads as that kind.
pub proof fn law_kind_round_trip(kind: ReconcileKind)
    ensures
        kind_of(kind_text(kind)) == Ok::<_, ConfigErrorView>(kind),
{
    reveal_strlit("HTTPRoute");
    reveal_strlit("ListenerSet");
    reveal_strlit("Service");
    reveal_strlit("EndpointSlice");
    reveal_strlit("Backend");
    reveal_strlit("SecurityPolicy");
    reveal_strlit("UDPRoute");
    reveal_strlit("httproute");
    reveal_strlit("httproutes");
    reveal_strlit("hr");
    reveal_strlit("listenerset");
    reveal_strlit("listenersets");
    reveal_strlit("ls");
    reveal_strlit("service");
    reveal_strlit("services");
    reveal_strlit("svc");
    reveal_strlit("endpointslice");
    reveal_strlit("endpointslices");
    reveal_strlit("eps");
    reveal_strlit("backend");
    reveal_strlit("backends");
    reveal_strlit("envoybackend");
    reveal_strlit("envoybackends");
    reveal_strlit("be");
    reveal_strlit("securitypolicy");
    reveal_strlit("securitypolicies");
    reveal_strlit("sp");
    reveal_strlit("udproute");
    lemma_unmarked(kind_text(kind));
    match kind {
        ReconcileKind::HttpRoute => {
            assert(lower("HTTPRoute"@) =~= "httproute"@);
        },
        ReconcileKind::ListenerSet => {
            assert(lower("ListenerSet"@) =~= "listenerset"@);
        },
        ReconcileKind::Service => {
            assert(lower("Service"@) =~= "service"@);
        },
        ReconcileKind::EndpointSlice => {
            assert(lower("EndpointSlice"@) =~= "endpointslice"@);
        },
        ReconcileKind::Backend => {
            assert(lower("Backend"@) =~= "backend"@);
            assert("backend"@[0] != "service"@[0]);
        },
        ReconcileKind::SecurityPolicy => {
            assert(lower("SecurityPolicy"@) =~= "securitypolicy"@);
            assert("securitypolicy"@[0] != "endpointslices"@[0]);
        },
        ReconcileKind::UDPRoute => {
            assert(lower("UDPRoute"@) =~= "udproute"@);
            assert("udproute"@[0] != "services"@[0]);
            assert("udproute"@[0] != "backends"@[0]);
        },
    }
}

// ---- selectors ----------------------------------------------------------------------

/// What one entry of the allow-list selects.
enum ReconcileSelector {
    Object { kind: Option<ReconcileKind>, name: String },
    Hostname(String),
    ObjectNameOrHostname(String),
}

#[verifier::ext_equal]
pub enum SelectorView {
    /// The object of that name, of that kind or of any.
    Object { kind: Option<ReconcileKind>, name: Seq<char> },
    /// The objects behind a hostname.
    Hostname(Seq<char>),
    /// An object of any kind by name, or a hostname.
    ObjectNameOrHostname(Seq<char>),
}

impl DeepView for ReconcileSelector {
    type V = SelectorView;

    closed spec fn deep_view(&self) -> SelectorView {
        match self {
            ReconcileSelector::Object { kind, name } => SelectorView::Object {
                kind: *kind,
                name: name@,
            },
            ReconcileSelector::Hostname(name) => SelectorView::Hostname(name@),
            ReconcileSelector::ObjectNameOrHostname(name) => SelectorView::ObjectNameOrHostname(
                name@,
            ),
        }
    }
}

/// An allow-list; without selectors it allows everything.
pub struct ReconcileScope {
    selectors: Vec<ReconcileSelector>,
}

#[verifier::ext_equal]
pub struct ReconcileScopeView {
    pub selectors: Seq<SelectorView>,
}

impl DeepView for ReconcileScope {
    type V = ReconcileScopeView;

    closed spec fn deep_view(&self) -> ReconcileScopeView {
        ReconcileScopeView { selectors: self.selectors.deep_view() }
    }
}

pub open spec fn names_hosts(kind: Seq<char>) -> bool {
    let word = kind_word(kind);
    word == "host"@ || word == "hosts"@ || word == "hostname"@ || word == "hostnames"@
}

/// A hostname without surrounding white space and trailing dots, in lowercase.
pub open spec fn host_word(s: Seq<char>) -> Seq<char> {
    lower(trim_end_char(trim(s), '.'))
}

/// The selector of a trimmed entry with a kind part and a name part.
pub open spec fn qualified_selector(
    entry: Seq<char>,
    kind: Seq<char>,
    name: Seq<char>,
) -> Result<SelectorView, ConfigErrorView> {
    if name.len() == 0 {
        Err(error_of(ErrorKind::EmptySelector, "CONFIG_RECONCILE_ONLY"@, entry))
    } else if names_hosts(kind) {
        Ok(SelectorView::Hostname(host_word(name)))
    } else {
        match kind_of(kind) {
            Err(e) => Err(e),
            Ok(k) => Ok(SelectorView::Object { kind: Some(k), name }),
        }
    }
}

/// The selector of a trimmed entry: `kind/name`, `kind:name`, or a bare name.
pub open spec fn selector_of(entry: Seq<char>) -> Result<SelectorView, ConfigErrorView> {
    match split_once(entry, '/') {
        Some(p) => qualified_selector(entry, trim(p.0), trim(p.1)),
        None => match split_once(entry, ':') {
            Some(p) => qualified_selector(entry, trim(p.0), trim(p.1)),
            None => Ok(SelectorView::ObjectNameOrHostname(entry)),
        },
    }
}

/// The selectors of the entries, or the error of the first bad one.
pub open spec fn selectors_of(entries: Seq<Seq<char>>) -> Result<
    Seq<SelectorView>,
    ConfigErrorView,
>
    decreases entries.len(),
{
    if entries.len() == 0 {
        Ok(Seq::empty())
    } else {
        match selectors_of(entries.drop_last()) {
            Err(e) => Err(e),
            Ok(rest) => match selector_of(entries.last()) {
                Err(e) => Err(e),
                Ok(s) => Ok(rest.push(s)),
            },
        }
    }
}

/// The scope that a comma-separated list stands for.
pub open spec fn scope_of(raw: Seq<char>) -> Result<ReconcileScopeView, ConfigErrorView> {
    match selectors_of(entries_of(split(raw, ','))) {
        Err(e) => Err(e),
        Ok(selectors) => Ok(ReconcileScopeView { selectors }),
    }
}

/// The selector names this object.
pub open spec fn selects(s: SelectorView, kind: ReconcileKind, name: Seq<char>) -> bool {
    match s {
        SelectorView::Object { kind: k, name: n } => (k is None || k == Some(kind)) && n == name,
        SelectorView::ObjectNameOrHostname(n) => n == name,
        SelectorView::Hostname(_) => false,
    }
}

/// The selector can name objects of this kind.
pub open spec fn touches(s: SelectorView, kind: ReconcileKind) -> bool {
    match s {
        SelectorView::Object { kind: k, name: _ } => k is None || k == Some(kind),
        SelectorView::ObjectNameOrHostname(_) => true,
        SelectorView::Hostname(_) => false,
    }
}

/// The hostname that a selector may stand for.
pub open spec fn candidate(s: SelectorView) -> Option<Seq<char>> {
    match s {
        SelectorView::Hostname(h) => Some(host_word(h)),
        SelectorView::ObjectNameOrHostname(h) => if h.contains('.') {
            Some(host_word(h))
        } else {
            None
        },
        SelectorView::Object { kind: _, name: _ } => None,
    }
}

pub open spec fn candidates(selectors: Seq<SelectorView>) -> Seq<Seq<char>>
    decreases selectors.len(),
{
    if selectors.len() == 0 {
        Seq::empty()
    } else {
        let rest = candidates(selectors.drop_last());
        match candidate(selectors.last()) {
            Some(h) => rest.push(h),
            None => rest,
        }
    }
}

pub open spec fn without_hostnames(selectors: Seq<SelectorView>) -> Seq<SelectorView>
    decreases selectors.len(),
{
    if selectors.len() == 0 {
        Seq::empty()
    } else {
        let rest = without_hostnames(selectors.drop_last());
        if selectors.last() is Hostname {
            rest
        } else {
            rest.push(selectors.last())
        }
    }
}

pub open spec fn object_selectors(objects: Seq<(ReconcileKind, Seq<char>)>) -> Seq<SelectorView> {
    Seq::new(
        objects.len(),
        |i: int| SelectorView::Object { kind: Some(objects[i].0), name: objects[i].1 },
    )
}

impl ReconcileScopeView {
    pub open spec fn is_all(self) -> bool {
        self.selectors.len() == 0
    }

    pub open spec fn includes(self, kind: ReconcileKind, name: Seq<char>) -> bool {
        self.is_all() || exists|i: int|
            0 <= i < self.selectors.len() && selects(#[trigger] self.selectors[i], kind, name)
    }

    pub open spec fn affects_kind(self, kind: ReconcileKind) -> bool {
        self.is_all() || exists|i: int|
            0 <= i < self.selectors.len() && touches(#[trigger] self.selectors[i], kind)
    }

    pub open spec fn expanded(
        self,
        objects: Seq<(ReconcileKind, Seq<char>)>,
    ) -> ReconcileScopeView {
        ReconcileScopeView {
            selectors: without_hostnames(self.selectors) + object_selectors(objects),
        }
    }
}

// ---- laws ---------------------------------------------------------------------------

/// A scope that includes an object affects the object's kind.
pub proof fn law_included_is_affected(
    scope: ReconcileScopeView,
    kind: ReconcileKind,
    name: Seq<char>,
)
    requires
        scope.includes(kind, name),
    ensures
        scope.affects_kind(kind),
{
    if !scope.is_all() {
        let i = choose|i: int|
            0 <= i < scope.selectors.len() && selects(#[trigger] scope.selectors[i], kind, name);
        assert(touches(scope.selectors[i], kind));
    }
}

/// A scope includes every object it was expanded by.
pub proof fn law_expanded_objects_are_included(
    scope: ReconcileScopeView,
    objects: Seq<(ReconcileKind, Seq<char>)>,
    i: int,
)
    requires
        0 <= i < objects.len(),
    ensures
        scope.expanded(objects).includes(objects[i].0, objects[i].1),
{
    let kept = without_hostnames(scope.selectors);
    assert(scope.expanded(objects).selectors[kept.len() + i] == object_selectors(objects)[i]);
    assert(selects(
        scope.expanded(objects).selectors[kept.len() + i],
        objects[i].0,
        objects[i].1,
    ));
}

proof fn lemma_kept_selectors(selectors: Seq<SelectorView>, i: int) -> (j: int)
    requires
        0 <= i < selectors.len(),
        !(selectors[i] is Hostname),
    ensures
        0 <= j < without_hostnames(selectors).len(),
        without_hostnames(selectors)[j] == selectors[i],
    decreases selectors.len(),
{
    if i == selectors.len() - 1 {
        without_hostnames(selectors).len() - 1
    } else {
        assert(selectors.drop_last()[i] == selectors[i]);
        lemma_kept_selectors(selectors.drop_last(), i)
    }
}

/// Expanding a scope keeps the objects that it selects by name.
pub proof fn law_expansion_keeps_objects(
    scope: ReconcileScopeView,
    objects: Seq<(ReconcileKind, Seq<char>)>,
    kind: ReconcileKind,
    name: Seq<char>,
)
    requires
        !scope.is_all(),
        scope.includes(kind, name),
    ensures
        scope.expanded(objects).includes(kind, name),
{
    let i = choose|i: int|
        0 <= i < scope.selectors.len() && selects(#[trigger] scope.selectors[i], kind, name);
    let j = lemma_kept_selectors(scope.selectors, i);
    assert(scope.expanded(objects).selectors[j] == scope.selectors[i]);
    assert(selects(scope.expanded(objects).selectors[j], kind, name));
}

// ---- functions ------------------------------------------------------------------------

fn is_hostname_selector_kind(kind: &str) -> (r: bool)
    ensures
        r == names_hosts(kind@),
{
    let word = normalize_kind(kind);
    let w = word.as_str();
    text::same(w, "host") || text::same(w, "hosts") || text::same(w, "hostname") || text::same(
        w,
        "hostnames",
    )
}

fn normalize_hostname_selector(hostname: &str) -> (r: String)
    ensures
        r@ == host_word(hostname@),
{
    let trimmed = text::trimmed(hostname);
    text::to_lower(text::trimmed_end_char(trimmed.as_str(), '.').as_str())
}

fn parse_qualified(entry: &str, kind: &str, name: &str) -> (r: Result<
    ReconcileSelector,
    ConfigError,
>)
    ensures
        match r {
            Ok(s) => qualified_selector(entry@, kind@, name@) == Ok::<_, ConfigErrorView>(
                s.deep_view(),
            ),
            Err(e) => qualified_selector(entry@, kind@, name@) == Err::<SelectorView, _>(
                e.deep_view(),
            ),
        },
{
    if name.is_empty() {
        return Err(error(ErrorKind::EmptySelector, "CONFIG_RECONCILE_ONLY", entry));
    }
    if is_hostname_selector_kind(kind) {
        return Ok(ReconcileSelector::Hostname(normalize_hostname_selector(name)));
    }
    match ReconcileKind::parse(kind) {
        Err(e) => Err(e),
        Ok(k) => Ok(ReconcileSelector::Object { kind: Some(k), name: name.to_owned() }),
    }
}

fn parse_selector(entry: &str) -> (r: Result<ReconcileSelector, ConfigError>)
    ensures
        match r {
            Ok(s) => selector_of(entry@) == Ok::<_, ConfigErrorView>(s.deep_view()),
            Err(e) => selector_of(entry@) == Err::<SelectorView, _>(e.deep_view()),
        },
{
    let parts = match text::split_at_first(entry, '/') {
        Some(p) => Some(p),
        None => text::split_at_first(entry, ':'),
    };
    match parts {
        Some((kind, name)) => parse_qualified(
            entry,
            text::trimmed(kind.as_str()).as_str(),
            text::trimmed(name.as_str()).as_str(),
        ),
        None => Ok(ReconcileSelector::ObjectNameOrHostname(entry.to_owned())),
    }
}

proof fn lemma_selectors_prefix(entries: Seq<Seq<char>>, i: int)
    requires
        0 <= i <= entries.len(),
        selectors_of(entries.take(i)) is Err,
    ensures
        selectors_of(entries) == selectors_of(entries.take(i)),
    decreases entries.len() - i,
{
    if i < entries.len() {
        assert(entries.take(i + 1).drop_last() =~= entries.take(i));
        lemma_selectors_prefix(entries, i + 1);
    } else {
        assert(entries.take(i) =~= entries);
    }
}

fn copy_selector(s: &ReconcileSelector) -> (r: ReconcileSelector)
    ensures
        r.deep_view() == s.deep_view(),
{
    match s {
        ReconcileSelector::Object { kind, name } => ReconcileSelector::Object {
            kind: *kind,
            name: name.clone(),
        },
        ReconcileSelector::Hostname(name) => ReconcileSelector::Hostname(name.clone()),
        ReconcileSelector::ObjectNameOrHostname(
            name,
        ) => ReconcileSelector::ObjectNameOrHostname(name.clone()),
    }
}

impl ReconcileScope {
    pub fn parse(raw: &str) -> (r: Result<ReconcileScope, ConfigError>)
        ensures
            match r {
                Ok(s) => scope_of(raw@) == Ok::<_, ConfigErrorView>(s.deep_view()),
                Err(e) => scope_of(raw@) == Err::<ReconcileScopeView, _>(e.deep_view()),
            },
    {
        let entries = list_entries(raw);
        let ghost all = entries.deep_view();
        let mut selectors: Vec<ReconcileSelector> = Vec::new();
        let mut i: usize = 0;
        assert(all.take(0) =~= Seq::<Seq<char>>::empty());
        assert(selectors.deep_view() =~= Seq::<SelectorView>::empty());
        while i < entries.len()
            invariant
                all == entries.deep_view(),
                all == entries_of(split(raw@, ',')),
                i <= entries@.len(),
                selectors_of(all.take(i as int)) == Ok::<_, ConfigErrorView>(
                    selectors.deep_view(),
                ),
            decreases entries@.len() - i,
        {
            assert(all.take(i + 1).drop_last() =~= all.take(i as int));
            assert(all.take(i + 1).last() == entries@[i as int]@);
            match parse_selector(entries[i].as_str()) {
                Ok(s) => {
                    let ghost done = selectors.deep_view();
                    selectors.push(s);
                    assert(selectors.deep_view() =~= done.push(s.deep_view()));
                },
                Err(e) => {
                    proof {
                        lemma_selectors_prefix(all, i + 1);
                    }
                    return Err(e);
                },
            }
            i += 1;
        }
        assert(all.take(i as int) =~= all);
        Ok(ReconcileScope { selectors })
    }

    pub fn all() -> (r: ReconcileScope)
        ensures
            r.deep_view() == (ReconcileScopeView { selectors: Seq::empty() }),
    {
        let r = ReconcileScope { selectors: Vec::new() };
        assert(r.selectors.deep_view() =~= Seq::<SelectorView>::empty());
        r
    }

    pub fn is_all(&self) -> (r: bool)
        ensures
            r == self.deep_view().is_all(),
    {
        self.selectors.len() == 0
    }

    pub fn includes(&self, kind: ReconcileKind, name: &str) -> (r: bool)
        ensures
            r == self.deep_view().includes(kind, name@),
    {
        if self.is_all() {
            return true;
        }
        let ghost all = self.deep_view().selectors;
        let mut i: usize = 0;
        while i < self.selectors.len()
            invariant
                all == self.deep_view().selectors,
                i <= self.selectors@.len(),
                all.len() == self.selectors@.len(),
                forall|j: int| 0 <= j < i ==> !selects(#[trigger] all[j], kind, name@),
            decreases self.selectors@.len() - i,
        {
            let hit = match &self.selectors[i] {
                ReconcileSelector::Object { kind: selected, name: selected_name } => {
                    (match selected {
                        None => true,
                        Some(k) => *k == kind,
                    }) && text::same(selected_name.as_str(), name)
                },
                ReconcileSelector::ObjectNameOrHostname(selected_name) => text::same(
                    selected_name.as_str(),
                    name,
                ),
                ReconcileSelector::Hostname(_) => false,
            };
            assert(all[i as int] == self.selectors@[i as int].deep_view());
            if hit {
                assert(selects(all[i as int], kind, name@));
                return true;
            }
            i += 1;
        }
        false
    }

    pub fn affects_kind(&self, kind: ReconcileKind) -> (r: bool)
        ensures
            r == self.deep_view().affects_kind(kind),
    {
        if self.is_all() {
            return true;
        }
        let ghost all = self.deep_view().selectors;
        let mut i: usize = 0;
        while i < self.selectors.len()
            invariant
                all == self.deep_view().selectors,
                i <= self.selectors@.len(),
                all.len() == self.selectors@.len(),
                forall|j: int| 0 <= j < i ==> !touches(#[trigger] all[j], kind),
            decreases self.selectors@.len() - i,
        {
            let hit = match &self.selectors[i] {
                ReconcileSelector::Object { kind: selected, name: _ } => match selected {
                    None => true,
                    Some(k) => *k == kind,
                },
                ReconcileSelector::ObjectNameOrHostname(_) => true,
                ReconcileSelector::Hostname(_) => false,
            };
            assert(all[i as int] == self.selectors@[i as int].deep_view());
            if hit {
                assert(touches(all[i as int], kind));
                return true;
            }
            i += 1;
        }
        false
    }

    pub fn hostname_candidates(&self) -> (r: Vec<String>)
        ensures
            r.deep_view() == candidates(self.deep_view().selectors),
    {
        let ghost all = self.deep_view().selectors;
        let mut out: Vec<String> = Vec::new();
        let mut i: usize = 0;
        assert(all.take(0) =~= Seq::<SelectorView>::empty());
        assert(out.deep_view() =~= Seq::<Seq<char>>::empty());
        while i < self.selectors.len()
            invariant
                all == self.deep_view().selectors,
                all.len() == self.selectors@.len(),
                i <= self.selectors@.len(),
                out.deep_view() == candidates(all.take(i as int)),
            decreases self.selectors@.len() - i,
        {
            assert(all.take(i + 1).drop_last() =~= all.take(i as int));
            assert(all[i as int] == self.selectors@[i as int].deep_view());
            let ghost done = out.deep_view();
            let found = match &self.selectors[i] {
                ReconcileSelector::Hostname(h) => Some(normalize_hostname_selector(h.as_str())),
                ReconcileSelector::ObjectNameOrHostname(h) => if text::has_char(h.as_str(), '.') {
                    Some(normalize_hostname_selector(h.as_str()))
                } else {
                    None
                },
                ReconcileSelector::Object { kind: _, name: _ } => None,
            };
            if let Some(h) = found {
                out.push(h);
                assert(out.deep_view() =~= done.push(h@));
            }
            i += 1;
        }
        assert(all.take(i as int) =~= all);
        out
    }

    /// The scope with its hostname selectors replaced by the objects they stand for.
    pub fn with_expanded_objects(&self, objects: Vec<(ReconcileKind, String)>) -> (r: ReconcileScope)
        ensures
            r.deep_view() == self.deep_view().expanded(objects.deep_view()),
    {
        let ghost all = self.deep_view().selectors;
        let mut selectors: Vec<ReconcileSelector> = Vec::new();
        let mut i: usize = 0;
        assert(all.take(0) =~= Seq::<SelectorView>::empty());
        assert(selectors.deep_view() =~= Seq::<SelectorView>::empty());
        while i < self.selectors.len()
            invariant
                all == self.deep_view().selectors,
                all.len() == self.selectors@.len(),
                i <= self.selectors@.len(),
                selectors.deep_view() == without_hostnames(all.take(i as int)),
            decreases self.selectors@.len() - i,
        {
            assert(all.take(i + 1).drop_last() =~= all.take(i as int));
            assert(all[i as int] == self.selectors@[i as int].deep_view());
            let ghost done = selectors.deep_view();
            let hostname = match &self.selectors[i] {
                ReconcileSelector::Hostname(_) => true,
                _ => false,
            };
            if !hostname {
                let s = copy_selector(&self.selectors[i]);
                selectors.push(s);
                assert(selectors.deep_view() =~= done.push(s.deep_view()));
            }
            i += 1;
        }
        assert(all.take(i as int) =~= all);
        let ghost kept = selectors.deep_view();
        let ghost given = objects.deep_view();
        let mut j: usize = 0;
        assert(kept + object_selectors(given).take(0) =~= kept);
        while j < objects.len()
            invariant
                given == objects.deep_view(),
                j <= objects@.len(),
                selectors.deep_view() == kept + object_selectors(given).take(j as int),
            decreases objects@.len() - j,
        {
            let ghost done = selectors.deep_view();
            let s = ReconcileSelector::Object {
                kind: Some(objects[j].0),
                name: objects[j].1.clone(),
            };
            selectors.push(s);
            assert(selectors.deep_view() =~= done.push(s.deep_view()));
            assert(s.deep_view() == object_selectors(given)[j as int]);
            j += 1;
            assert(selectors.deep_view() =~= kept + object_selectors(given).take(j as int));
        }
        assert(object_selectors(given).take(j as int) =~= object_selectors(given));
        ReconcileScope { selectors }
    }
}

} // verus!

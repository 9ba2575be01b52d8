//! The Gateway API objects the controller writes, with the fields it sets.

use vstd::prelude::*;
use vstd::string::*;

use crate::envoy_gateway::{PolicyTargetRef, PolicyTargetRefView};
use crate::kubernetes::{ObjectMeta, ObjectMetaView};

verus! {
/// Reference from a route to a listener set, or from a listener set to its gateway.
pub struct ParentRef {
    pub group: Option<String>,
    pub kind: Option<String>,
    pub name: String,
    pub namespace: Option<String>,
    pub section_name: Option<String>,
}

#[verifier::ext_equal]
pub struct ParentRefView {
    pub group: Option<Seq<char>>,
    pub kind: Option<Seq<char>>,
    pub name: Seq<char>,
    pub namespace: Option<Seq<char>>,
    pub section_name: Option<Seq<char>>,
}

impl DeepView for ParentRef {
    type V = ParentRefView;

    open spec fn deep_view(&self) -> ParentRefView {
        ParentRefView {
            group: self.group.deep_view(),
            kind: self.kind.deep_view(),
            name: self.name@,
            namespace: self.namespace.deep_view(),
            section_name: self.section_name.deep_view(),
        }
    }
}

/// Reference from a route rule to the backend that serves it.
pub struct BackendRef {
    /// The empty text is the core API.
    pub group: Option<String>,
    pub kind: Option<String>,
    pub name: String,
    pub namespace: Option<String>,
    pub port: Option<i32>,
    pub weight: Option<i32>,
}

#[verifier::ext_equal]
pub struct BackendRefView {
    pub group: Option<Seq<char>>,
    pub kind: Option<Seq<char>>,
    pub name: Seq<char>,
    pub namespace: Option<Seq<char>>,
    pub port: Option<i32>,
    pub weight: Option<i32>,
}

impl DeepView for BackendRef {
    type V = BackendRefView;

    open spec fn deep_view(&self) -> BackendRefView {
        BackendRefView {
            group: self.group.deep_view(),
            kind: self.kind.deep_view(),
            name: self.name@,
            namespace: self.namespace.deep_view(),
            port: self.port.deep_view(),
            weight: self.weight.deep_view(),
        }
    }
}

/// A Gateway API `HTTPRoute`.
pub struct HTTPRoute {
    pub metadata: ObjectMeta,
    pub spec: HttpRouteSpec,
}

#[verifier::ext_equal]
pub struct HTTPRouteView {
    pub metadata: ObjectMetaView,
    pub spec: HttpRouteSpecView,
}

impl DeepView for HTTPRoute {
    type V = HTTPRouteView;

    open spec fn deep_view(&self) -> HTTPRouteView {
        HTTPRouteView {
            metadata: self.metadata.deep_view(),
            spec: self.spec.deep_view(),
        }
    }
}

pub struct HttpRouteSpec {
    pub parent_refs: Option<Vec<ParentRef>>,
    pub hostnames: Option<Vec<String>>,
    pub rules: Option<Vec<HttpRouteRule>>,
}

#[verifier::ext_equal]
pub struct HttpRouteSpecView {
    pub parent_refs: Option<Seq<ParentRefView>>,
    pub hostnames: Option<Seq<Seq<char>>>,
    pub rules: Option<Seq<HttpRouteRuleView>>,
}

impl DeepView for HttpRouteSpec {
    type V = HttpRouteSpecView;

    open spec fn deep_view(&self) -> HttpRouteSpecView {
        HttpRouteSpecView {
            parent_refs: self.parent_refs.deep_view(),
            hostnames: self.hostnames.deep_view(),
            rules: self.rules.deep_view(),
        }
    }
}

pub struct HttpRouteRule {
    pub matches: Option<Vec<RouteMatch>>,
    pub filters: Option<Vec<RouteFilter>>,
    pub backend_refs: Option<Vec<BackendRef>>,
}

#[verifier::ext_equal]
pub struct HttpRouteRuleView {
    pub matches: Option<Seq<RouteMatchView>>,
    pub filters: Option<Seq<RouteFilterView>>,
    pub backend_refs: Option<Seq<BackendRefView>>,
}

impl DeepView for HttpRouteRule {
    type V = HttpRouteRuleView;

    open spec fn deep_view(&self) -> HttpRouteRuleView {
        HttpRouteRuleView {
            matches: self.matches.deep_view(),
            filters: self.filters.deep_view(),
            backend_refs: self.backend_refs.deep_view(),
        }
    }
}

pub struct RouteMatch {
    pub path: Option<PathMatcher>,
    pub headers: Option<Vec<HeaderMatcher>>,
}

#[verifier::ext_equal]
pub struct RouteMatchView {
    pub path: Option<PathMatcherView>,
    pub headers: Option<Seq<HeaderMatcherView>>,
}

impl DeepView for RouteMatch {
    type V = RouteMatchView;

    open spec fn deep_view(&self) -> RouteMatchView {
        RouteMatchView {
            path: self.path.deep_view(),
            headers: self.headers.deep_view(),
        }
    }
}

#[derive(Debug, Clone, Copy, PartialEq, Eq, Structural)]
pub enum PathMatcherType {
    Exact,
    PathPrefix,
    RegularExpression,
}

impl DeepView for PathMatcherType {
    type V = PathMatcherType;

    open spec fn deep_view(&self) -> PathMatcherType {
        *self
    }
}

pub struct PathMatcher {
    pub kind: Option<PathMatcherType>,
    pub value: Option<String>,
}

#[verifier::ext_equal]
pub struct PathMatcherView {
    pub kind: Option<PathMatcherType>,
    pub value: Option<Seq<char>>,
}

impl DeepView for PathMatcher {
    type V = PathMatcherView;

    open spec fn deep_view(&self) -> PathMatcherView {
        PathMatcherView {
            kind: self.kind.deep_view(),
            value: self.value.deep_view(),
        }
    }
}

#[derive(Debug, Clone, Copy, PartialEq, Eq, Structural)]
pub enum HeaderMatcherType {
    Exact,
    RegularExpression,
}

impl DeepView for HeaderMatcherType {
    type V = HeaderMatcherType;

    open spec fn deep_view(&self) -> HeaderMatcherType {
        *self
    }
}

pub struct HeaderMatcher {
    pub name: String,
    pub kind: Option<HeaderMatcherType>,
    pub value: String,
}

#[verifier::ext_equal]
pub struct HeaderMatcherView {
    pub name: Seq<char>,
    pub kind: Option<HeaderMatcherType>,
    pub value: Seq<char>,
}

impl DeepView for HeaderMatcher {
    type V = HeaderMatcherView;

    open spec fn deep_view(&self) -> HeaderMatcherView {
        HeaderMatcherView {
            name: self.name@,
            kind: self.kind.deep_view(),
            value: self.value@,
        }
    }
}

#[derive(Debug, Clone, Copy, PartialEq, Eq, Structural)]
pub enum FilterType {
    RequestRedirect,
    RequestHeaderModifier,
    ResponseHeaderModifier,
    UrlRewrite,
}

impl DeepView for FilterType {
    type V = FilterType;

    open spec fn deep_view(&self) -> FilterType {
        *self
    }
}

#[derive(Debug, Clone, Copy, PartialEq, Eq, Structural)]
pub enum RedirectScheme {
    Http,
    Https,
}

impl DeepView for RedirectScheme {
    type V = RedirectScheme;

    open spec fn deep_view(&self) -> RedirectScheme {
        *self
    }
}

pub struct RequestRedirect {
    pub scheme: Option<RedirectScheme>,
    pub port: Option<i32>,
    pub status_code: Option<i64>,
}

#[verifier::ext_equal]
pub struct RequestRedirectView {
    pub scheme: Option<RedirectScheme>,
    pub port: Option<i32>,
    pub status_code: Option<i64>,
}

impl DeepView for RequestRedirect {
    type V = RequestRedirectView;

    open spec fn deep_view(&self) -> RequestRedirectView {
        RequestRedirectView {
            scheme: self.scheme.deep_view(),
            port: self.port.deep_view(),
            status_code: self.status_code.deep_view(),
        }
    }
}

/// One header to set.
pub struct HeaderSetting {
    pub name: String,
    pub value: String,
}

#[verifier::ext_equal]
pub struct HeaderSettingView {
    pub name: Seq<char>,
    pub value: Seq<char>,
}

impl DeepView for HeaderSetting {
    type V = HeaderSettingView;

    open spec fn deep_view(&self) -> HeaderSettingView {
        HeaderSettingView {
            name: self.name@,
            value: self.value@,
        }
    }
}

pub struct HeaderModifier {
    pub set: Option<Vec<HeaderSetting>>,
}

#[verifier::ext_equal]
pub struct HeaderModifierView {
    pub set: Option<Seq<HeaderSettingView>>,
}

impl DeepView for HeaderModifier {
    type V = HeaderModifierView;

    open spec fn deep_view(&self) -> HeaderModifierView {
        HeaderModifierView {
            set: self.set.deep_view(),
        }
    }
}

#[derive(Debug, Clone, Copy, PartialEq, Eq, Structural)]
pub enum PathRewriteType {
    ReplaceFullPath,
    ReplacePrefixMatch,
}

impl DeepView for PathRewriteType {
    type V = PathRewriteType;

    open spec fn deep_view(&self) -> PathRewriteType {
        *self
    }
}

pub struct PathRewrite {
    pub kind: PathRewriteType,
    pub replace_full_path: Option<String>,
    pub replace_prefix_match: Option<String>,
}

#[verifier::ext_equal]
pub struct PathRewriteView {
    pub kind: PathRewriteType,
    pub replace_full_path: Option<Seq<char>>,
    pub replace_prefix_match: Option<Seq<char>>,
}

impl DeepView for PathRewrite {
    type V = PathRewriteView;

    open spec fn deep_view(&self) -> PathRewriteView {
        PathRewriteView {
            kind: self.kind,
            replace_full_path: self.replace_full_path.deep_view(),
            replace_prefix_match: self.replace_prefix_match.deep_view(),
        }
    }
}

pub struct UrlRewrite {
    pub hostname: Option<String>,
    pub path: Option<PathRewrite>,
}

#[verifier::ext_equal]
pub struct UrlRewriteView {
    pub hostname: Option<Seq<char>>,
    pub path: Option<PathRewriteView>,
}

impl DeepView for UrlRewrite {
    type V = UrlRewriteView;

    open spec fn deep_view(&self) -> UrlRewriteView {
        UrlRewriteView {
            hostname: self.hostname.deep_view(),
            path: self.path.deep_view(),
        }
    }
}

/// A filter of an HTTP route rule: the field its kind names is the one that is set.
pub struct RouteFilter {
    pub kind: FilterType,
    pub request_redirect: Option<RequestRedirect>,
    pub request_header_modifier: Option<HeaderModifier>,
    pub response_header_modifier: Option<HeaderModifier>,
    pub url_rewrite: Option<UrlRewrite>,
}

#[verifier::ext_equal]
pub struct RouteFilterView {
    pub kind: FilterType,
    pub request_redirect: Option<RequestRedirectView>,
    pub request_header_modifier: Option<HeaderModifierView>,
    pub response_header_modifier: Option<HeaderModifierView>,
    pub url_rewrite: Option<UrlRewriteView>,
}

impl DeepView for RouteFilter {
    type V = RouteFilterView;

    open spec fn deep_view(&self) -> RouteFilterView {
        RouteFilterView {
            kind: self.kind,
            request_redirect: self.request_redirect.deep_view(),
            request_header_modifier: self.request_header_modifier.deep_view(),
            response_header_modifier: self.response_header_modifier.deep_view(),
            url_rewrite: self.url_rewrite.deep_view(),
        }
    }
}

/// A Gateway API `ListenerSet`.
pub struct ListenerSet {
    pub metadata: ObjectMeta,
    pub spec: ListenerSetSpec,
}

#[verifier::ext_equal]
pub struct ListenerSetView {
    pub metadata: ObjectMetaView,
    pub spec: ListenerSetSpecView,
}

impl DeepView for ListenerSet {
    type V = ListenerSetView;

    open spec fn deep_view(&self) -> ListenerSetView {
        ListenerSetView {
            metadata: self.metadata.deep_view(),
            spec: self.spec.deep_view(),
        }
    }
}

pub struct ListenerSetSpec {
    pub parent_ref: ParentRef,
    pub listeners: Vec<Listener>,
}

#[verifier::ext_equal]
pub struct ListenerSetSpecView {
    pub parent_ref: ParentRefView,
    pub listeners: Seq<ListenerView>,
}

impl DeepView for ListenerSetSpec {
    type V = ListenerSetSpecView;

    open spec fn deep_view(&self) -> ListenerSetSpecView {
        ListenerSetSpecView {
            parent_ref: self.parent_ref.deep_view(),
            listeners: self.listeners.deep_view(),
        }
    }
}

#[derive(Debug, Clone, Copy, PartialEq, Eq, Structural)]
pub enum TlsMode {
    Terminate,
    Passthrough,
}

impl DeepView for TlsMode {
    type V = TlsMode;

    open spec fn deep_view(&self) -> TlsMode {
        *self
    }
}

pub struct CertificateRef {
    pub group: Option<String>,
    pub kind: Option<String>,
    pub name: String,
    pub namespace: Option<String>,
}

#[verifier::ext_equal]
pub struct CertificateRefView {
    pub group: Option<Seq<char>>,
    pub kind: Option<Seq<char>>,
    pub name: Seq<char>,
    pub namespace: Option<Seq<char>>,
}

impl DeepView for CertificateRef {
    type V = CertificateRefView;

    open spec fn deep_view(&self) -> CertificateRefView {
        CertificateRefView {
            group: self.group.deep_view(),
            kind: self.kind.deep_view(),
            name: self.name@,
            namespace: self.namespace.deep_view(),
        }
    }
}

pub struct ListenerTls {
    pub mode: Option<TlsMode>,
    pub certificate_refs: Option<Vec<CertificateRef>>,
}

#[verifier::ext_equal]
pub struct ListenerTlsView {
    pub mode: Option<TlsMode>,
    pub certificate_refs: Option<Seq<CertificateRefView>>,
}

impl DeepView for ListenerTls {
    type V = ListenerTlsView;

    open spec fn deep_view(&self) -> ListenerTlsView {
        ListenerTlsView {
            mode: self.mode.deep_view(),
            certificate_refs: self.certificate_refs.deep_view(),
        }
    }
}

pub struct Listener {
    pub name: String,
    pub hostname: Option<String>,
    pub port: i32,
    pub protocol: String,
    pub tls: Option<ListenerTls>,
}

#[verifier::ext_equal]
pub struct ListenerView {
    pub name: Seq<char>,
    pub hostname: Option<Seq<char>>,
    pub port: i32,
    pub protocol: Seq<char>,
    pub tls: Option<ListenerTlsView>,
}

impl DeepView for Listener {
    type V = ListenerView;

    open spec fn deep_view(&self) -> ListenerView {
        ListenerView {
            name: self.name@,
            hostname: self.hostname.deep_view(),
            port: self.port,
            protocol: self.protocol@,
            tls: self.tls.deep_view(),
        }
    }
}

/// A Gateway API `TCPRoute` or `UDPRoute`: the two have one shape.
pub struct L4Route {
    pub metadata: ObjectMeta,
    pub spec: L4RouteSpec,
}

#[verifier::ext_equal]
pub struct L4RouteView {
    pub metadata: ObjectMetaView,
    pub spec: L4RouteSpecView,
}

impl DeepView for L4Route {
    type V = L4RouteView;

    open spec fn deep_view(&self) -> L4RouteView {
        L4RouteView {
            metadata: self.metadata.deep_view(),
            spec: self.spec.deep_view(),
        }
    }
}

pub struct L4RouteSpec {
    pub parent_refs: Option<Vec<ParentRef>>,
    pub rules: Vec<L4RouteRule>,
}

#[verifier::ext_equal]
pub struct L4RouteSpecView {
    pub parent_refs: Option<Seq<ParentRefView>>,
    pub rules: Seq<L4RouteRuleView>,
}

impl DeepView for L4RouteSpec {
    type V = L4RouteSpecView;

    open spec fn deep_view(&self) -> L4RouteSpecView {
        L4RouteSpecView {
            parent_refs: self.parent_refs.deep_view(),
            rules: self.rules.deep_view(),
        }
    }
}

pub struct L4RouteRule {
    pub name: Option<String>,
    pub backend_refs: Vec<BackendRef>,
}

#[verifier::ext_equal]
pub struct L4RouteRuleView {
    pub name: Option<Seq<char>>,
    pub backend_refs: Seq<BackendRefView>,
}

impl DeepView for L4RouteRule {
    type V = L4RouteRuleView;

    open spec fn deep_view(&self) -> L4RouteRuleView {
        L4RouteRuleView {
            name: self.name.deep_view(),
            backend_refs: self.backend_refs.deep_view(),
        }
    }
}

/// A Gateway API `BackendTLSPolicy`.
pub struct BackendTLSPolicy {
    pub metadata: ObjectMeta,
    pub spec: BackendTlsPolicySpec,
}

#[verifier::ext_equal]
pub struct BackendTLSPolicyView {
    pub metadata: ObjectMetaView,
    pub spec: BackendTlsPolicySpecView,
}

impl DeepView for BackendTLSPolicy {
    type V = BackendTLSPolicyView;

    open spec fn deep_view(&self) -> BackendTLSPolicyView {
        BackendTLSPolicyView {
            metadata: self.metadata.deep_view(),
            spec: self.spec.deep_view(),
        }
    }
}

pub struct BackendTlsPolicySpec {
    pub target_refs: Vec<PolicyTargetRef>,
    pub validation: BackendTlsValidation,
}

#[verifier::ext_equal]
pub struct BackendTlsPolicySpecView {
    pub target_refs: Seq<PolicyTargetRefView>,
    pub validation: BackendTlsValidationView,
}

impl DeepView for BackendTlsPolicySpec {
    type V = BackendTlsPolicySpecView;

    open spec fn deep_view(&self) -> BackendTlsPolicySpecView {
        BackendTlsPolicySpecView {
            target_refs: self.target_refs.deep_view(),
            validation: self.validation.deep_view(),
        }
    }
}

pub struct BackendTlsValidation {
    /// Server name sent to the backend, and the name its certificate must carry.
    pub hostname: String,
    /// `"System"` trusts the system CA pool.
    pub well_known_ca_certificates: Option<String>,
}

#[verifier::ext_equal]
pub struct BackendTlsValidationView {
    pub hostname: Seq<char>,
    pub well_known_ca_certificates: Option<Seq<char>>,
}

impl DeepView for BackendTlsValidation {
    type V = BackendTlsValidationView;

    open spec fn deep_view(&self) -> BackendTlsValidationView {
        BackendTlsValidationView {
            hostname: self.hostname@,
            well_known_ca_certificates: self.well_known_ca_certificates.deep_view(),
        }
    }
}

} // verus!

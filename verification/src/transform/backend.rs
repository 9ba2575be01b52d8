//! Map pangolin's `http.services.{name}.loadBalancer.servers[]` lists to backend references.
//!
//! Pangolin emits servers as `{ url: "http://host:port" }`. Each pangolin service is
//! classified by the kind of host(s) it carries, and then:
//!
//! * **IP literal(s)** — backend objects are synthesized according to
//!   [`BackendKind`]: either a headless `Service` and an `EndpointSlice` (portable
//!   across every Gateway API implementation) or an Envoy Gateway `Backend`
//!   CRD (Envoy Gateway only).
//! * **Kubernetes cluster DNS** (`<svc>.<ns>.svc[.cluster.local]`) — the existing
//!   `Service` is referenced directly, because it already exists and is the right
//!   target. An `https` target is wrapped in a `Backend` in `envoy-backend` mode, and
//!   gets a `BackendTLSPolicy` in `service` mode where the Service lives in the
//!   controller namespace.
//! * **Arbitrary FQDN** — only supported in `envoy-backend` mode (Envoy
//!   Gateway's `Backend` accepts FQDN endpoints natively). In `service` mode
//!   the entry is dropped, since an `EndpointSlice` can't carry a hostname.

use vstd::prelude::*;
use vstd::string::*;

use crate::apply::{labels_of, managed_metadata, metadata, metadata_with, owner_labels};
use crate::config::{BackendKind, Config, ConfigView};
use crate::envoy_gateway::{
    Backend, BackendEndpoint, BackendEndpointView, BackendFqdn, BackendFqdnView, BackendIp,
    BackendIpView, BackendSpec, BackendSpecView, BackendTlsSettings, BackendTlsSettingsView,
    BackendView, PolicyTargetRef, PolicyTargetRefView,
};
use crate::gateway::{
    BackendTLSPolicy, BackendTLSPolicyView, BackendTlsPolicySpec, BackendTlsPolicySpecView,
    BackendTlsValidation, BackendTlsValidationView,
};
use crate::ip::{ip_of, ip_text, IpAddr, IpAddrView};
use crate::json::Json;
use crate::kubernetes::{
    Endpoint, EndpointPort, EndpointPortView, EndpointSlice, EndpointSliceView, EndpointView,
    Service, ServicePort, ServicePortView, ServiceSpec, ServiceSpecView, ServiceView,
};
use crate::pangolin::types::{
    L4Server, L4Service, LoadBalancerServer, Service as PangService,
};
use crate::strmap::{lemma_deep_insert, StrMap};
use crate::text;
use crate::text::{
    lower, parse_unsigned, rsplit_once, split, split_once, split_text, strip_prefix, trim,
    trim_end_char, trim_start_char,
};
use crate::transform::desired::{Desired, DesiredView};
use crate::transform::l4::{family_of, L4Protocol};
use crate::transform::naming::{prefixed, prefixed_label};
use crate::urls::{parse_url, url_of, UrlParts, UrlPartsView};

verus! {

pub type BackendIndex = StrMap<ResolvedBackend>;

/// A pangolin service resolved to a Gateway API `backendRef` target.
pub struct ResolvedBackend {
    pub group: String,
    pub kind: String,
    pub name: String,
    /// Cross-namespace reference, for a backend that is an existing Service
    /// (then the HTTPRoute may need a ReferenceGrant).
    pub namespace: Option<String>,
    pub port: i32,
}

#[verifier::ext_equal]
pub struct ResolvedBackendView {
    pub group: Seq<char>,
    pub kind: Seq<char>,
    pub name: Seq<char>,
    pub namespace: Option<Seq<char>>,
    pub port: i32,
}

impl DeepView for ResolvedBackend {
    type V = ResolvedBackendView;

    open spec fn deep_view(&self) -> ResolvedBackendView {
        ResolvedBackendView {
            group: self.group@,
            kind: self.kind@,
            name: self.name@,
            namespace: self.namespace.deep_view(),
            port: self.port,
        }
    }
}

/// A server target reduced to its host and port, whatever syntax it arrived in.
pub struct HostPort {
    pub host: String,
    pub port: i32,
    /// The target is to be spoken to over TLS.
    pub tls: bool,
}

#[verifier::ext_equal]
pub struct HostPortView {
    pub host: Seq<char>,
    pub port: i32,
    pub tls: bool,
}

impl DeepView for HostPort {
    type V = HostPortView;

    open spec fn deep_view(&self) -> HostPortView {
        HostPortView { host: self.host@, port: self.port, tls: self.tls }
    }
}

/// What the servers of a pangolin service come to.
pub enum Classification {
    Empty,
    Ips { entries: Vec<IpAddr>, port: i32, tls: bool },
    Fqdn { hostname: String, port: i32, tls: bool },
    ClusterDns { service: String, namespace: String, port: i32, host: String, tls: bool },
}

#[verifier::ext_equal]
pub enum ClassificationView {
    Empty,
    Ips { entries: Seq<IpAddrView>, port: i32, tls: bool },
    Fqdn { hostname: Seq<char>, port: i32, tls: bool },
    ClusterDns {
        service: Seq<char>,
        namespace: Seq<char>,
        port: i32,
        host: Seq<char>,
        tls: bool,
    },
}

impl DeepView for Classification {
    type V = ClassificationView;

    open spec fn deep_view(&self) -> ClassificationView {
        match self {
            Classification::Empty => ClassificationView::Empty,
            Classification::Ips { entries, port, tls } => ClassificationView::Ips {
                entries: entries.deep_view(),
                port: *port,
                tls: *tls,
            },
            Classification::Fqdn { hostname, port, tls } => ClassificationView::Fqdn {
                hostname: hostname@,
                port: *port,
                tls: *tls,
            },
            Classification::ClusterDns {
                service,
                namespace,
                port,
                host,
                tls,
            } => ClassificationView::ClusterDns {
                service: service@,
                namespace: namespace@,
                port: *port,
                host: host@,
                tls: *tls,
            },
        }
    }
}

// ---- targets ----------------------------------------------------------------------

/// The target of a parsed server URL: it needs a host and a port.
pub open spec fn url_target(url: UrlPartsView) -> Option<HostPortView> {
    match (url.host, url.port) {
        (Some(host), Some(port)) => Some(
            HostPortView {
                host: trim_end_char(trim_start_char(host, '['), ']'),
                port: port as i32,
                tls: url.scheme == "https"@,
            },
        ),
        _ => None,
    }
}

pub open spec fn server_target(url: Seq<char>) -> Option<HostPortView> {
    match url_of(url) {
        Some(u) => url_target(u),
        None => None,
    }
}

/// The targets of server URLs; those that have none are passed over.
pub open spec fn url_targets(urls: Seq<Seq<char>>) -> Seq<HostPortView>
    decreases urls.len(),
{
    if urls.len() == 0 {
        Seq::empty()
    } else {
        let rest = url_targets(urls.drop_last());
        match server_target(urls.last()) {
            Some(t) => rest.push(t),
            None => rest,
        }
    }
}

/// What stands behind a leading `<scheme>://`.
pub open spec fn without_scheme(s: Seq<char>) -> Seq<char> {
    match split_text(s, "://"@) {
        Some(p) => p.1,
        None => s,
    }
}

/// The host and the port text of `host:port` or `[host]:port`.
pub open spec fn host_and_port(s: Seq<char>) -> Option<(Seq<char>, Seq<char>)> {
    match strip_prefix(s, "["@) {
        Some(rest) => match split_once(rest, ']') {
            Some(p) => match strip_prefix(p.1, ":"@) {
                Some(port) => Some((p.0, port)),
                None => None,
            },
            None => None,
        },
        None => rsplit_once(s, ':'),
    }
}

/// The target of a Traefik L4 server address.
pub open spec fn l4_target(address: Seq<char>) -> Option<HostPortView> {
    match host_and_port(without_scheme(trim(address))) {
        Some(p) => match parse_unsigned(p.1, 65535) {
            Some(port) => if p.0.len() > 0 {
                Some(HostPortView { host: p.0, port: port as i32, tls: false })
            } else {
                None
            },
            None => None,
        },
        None => None,
    }
}

pub open spec fn l4_targets(addresses: Seq<Seq<char>>) -> Seq<HostPortView>
    decreases addresses.len(),
{
    if addresses.len() == 0 {
        Seq::empty()
    } else {
        let rest = l4_targets(addresses.drop_last());
        match l4_target(addresses.last()) {
            Some(t) => rest.push(t),
            None => rest,
        }
    }
}

// ---- classification -----------------------------------------------------------------

/// `<svc>.<ns>.svc`, with any further domain, as `(svc, ns)`.
pub open spec fn cluster_dns_of(host: Seq<char>) -> Option<(Seq<char>, Seq<char>)> {
    let parts = split(lower(trim_end_char(host, '.')), '.');
    if parts.len() >= 3 && parts[2] == "svc"@ {
        Some((parts[0], parts[1]))
    } else {
        None
    }
}

#[derive(Clone, Copy, PartialEq, Eq, Structural)]
pub enum HostClass {
    Ip,
    ClusterDns,
    Fqdn,
}

pub open spec fn host_class(host: Seq<char>) -> HostClass {
    if ip_of(host) is Some {
        HostClass::Ip
    } else if cluster_dns_of(host) is Some {
        HostClass::ClusterDns
    } else {
        HostClass::Fqdn
    }
}

/// The first target of a class.
pub open spec fn first_of(entries: Seq<HostPortView>, class: HostClass) -> Option<HostPortView>
    decreases entries.len(),
{
    if entries.len() == 0 {
        None
    } else {
        match first_of(entries.drop_last(), class) {
            Some(e) => Some(e),
            None => if host_class(entries.last().host) == class {
                Some(entries.last())
            } else {
                None
            },
        }
    }
}

/// The addresses of the IP targets on one port.
pub open spec fn ips_on(entries: Seq<HostPortView>, port: i32) -> Seq<IpAddrView>
    decreases entries.len(),
{
    if entries.len() == 0 {
        Seq::empty()
    } else {
        let rest = ips_on(entries.drop_last(), port);
        match ip_of(entries.last().host) {
            Some(ip) => if entries.last().port == port {
                rest.push(ip)
            } else {
                rest
            },
            None => rest,
        }
    }
}

/// IP targets win over cluster DNS, which wins over FQDNs. Of IP targets those on the
/// port of the first are taken, of the others the first. FQDNs need a backend kind that
/// can carry them.
pub open spec fn classified(entries: Seq<HostPortView>, kind: BackendKind) -> ClassificationView {
    match first_of(entries, HostClass::Ip) {
        Some(e) => ClassificationView::Ips {
            entries: ips_on(entries, e.port),
            port: e.port,
            tls: e.tls,
        },
        None => match first_of(entries, HostClass::ClusterDns) {
            Some(e) => ClassificationView::ClusterDns {
                service: (cluster_dns_of(e.host)->0).0,
                namespace: (cluster_dns_of(e.host)->0).1,
                port: e.port,
                host: e.host,
                tls: e.tls,
            },
            None => match first_of(entries, HostClass::Fqdn) {
                Some(e) => if kind == BackendKind::EnvoyBackend {
                    ClassificationView::Fqdn { hostname: e.host, port: e.port, tls: e.tls }
                } else {
                    ClassificationView::Empty
                },
                None => ClassificationView::Empty,
            },
        },
    }
}

// ---- objects ------------------------------------------------------------------------

/// `<base>-<infix>` when an infix is set, plain `<base>` otherwise.
pub open spec fn infixed(base: Seq<char>, infix: Seq<char>) -> Seq<char> {
    if infix.len() == 0 {
        base
    } else {
        base + "-"@ + infix
    }
}

pub open spec fn object_name(base: Seq<char>, infix: Seq<char>, name: Seq<char>) -> Seq<char> {
    prefixed(infixed(base, infix), name)
}

/// How Envoy speaks to a target: in the clear, over TLS checked against the system CA
/// pool, or over unchecked TLS.
pub open spec fn tls_settings(
    tls: bool,
    skip_verify: bool,
    sni: Option<Seq<char>>,
) -> Option<BackendTlsSettingsView> {
    if !tls {
        None
    } else if skip_verify {
        Some(
            BackendTlsSettingsView {
                well_known_ca_certificates: None,
                insecure_skip_verify: Some(true),
                sni,
            },
        )
    } else {
        Some(
            BackendTlsSettingsView {
                well_known_ca_certificates: Some("System"@),
                insecure_skip_verify: None,
                sni,
            },
        )
    }
}

pub open spec fn ip_endpoints(ips: Seq<IpAddrView>, port: i32) -> Seq<BackendEndpointView> {
    Seq::new(
        ips.len(),
        |i: int|
            BackendEndpointView {
                ip: Some(BackendIpView { address: ip_text(ips[i]), port }),
                fqdn: None,
            },
    )
}

pub open spec fn fqdn_endpoint(hostname: Seq<char>, port: i32) -> Seq<BackendEndpointView> {
    seq![BackendEndpointView { ip: None, fqdn: Some(BackendFqdnView { hostname, port }) }]
}

pub open spec fn envoy_backend(
    cfg: ConfigView,
    name: Seq<char>,
    endpoints: Seq<BackendEndpointView>,
    tls: Option<BackendTlsSettingsView>,
) -> BackendView {
    BackendView { metadata: metadata(cfg, name), spec: BackendSpecView { endpoints, tls } }
}

pub open spec fn service_stub(
    cfg: ConfigView,
    name: Seq<char>,
    port: i32,
    protocol: Seq<char>,
) -> ServiceView {
    ServiceView {
        metadata: metadata(cfg, name),
        spec: Some(
            ServiceSpecView {
                cluster_ip: Some("None"@),
                service_type: Some("ClusterIP"@),
                ports: Some(
                    seq![
                        ServicePortView {
                            name: Some("default"@),
                            port,
                            target_port: Some(port),
                            protocol: Some(protocol),
                        },
                    ],
                ),
            },
        ),
    }
}

pub open spec fn slice_stub(
    cfg: ConfigView,
    name: Seq<char>,
    service: Seq<char>,
    ips: Seq<IpAddrView>,
    port: i32,
    protocol: Seq<char>,
) -> EndpointSliceView {
    EndpointSliceView {
        metadata: metadata_with(
            cfg,
            name,
            labels_of(cfg).insert("kubernetes.io/service-name"@, service),
            Map::empty(),
        ),
        address_type: "IPv4"@,
        endpoints: Seq::new(
            ips.len(),
            |i: int| EndpointView { addresses: seq![ip_text(ips[i])] },
        ),
        ports: Some(
            seq![
                EndpointPortView {
                    name: Some("default"@),
                    port: Some(port),
                    protocol: Some(protocol),
                },
            ],
        ),
    }
}

pub open spec fn backend_tls_policy(
    cfg: ConfigView,
    name: Seq<char>,
    service: Seq<char>,
    hostname: Seq<char>,
) -> BackendTLSPolicyView {
    BackendTLSPolicyView {
        metadata: metadata(cfg, name),
        spec: BackendTlsPolicySpecView {
            target_refs: seq![
                PolicyTargetRefView { group: Seq::empty(), kind: "Service"@, name: service },
            ],
            validation: BackendTlsValidationView {
                hostname,
                well_known_ca_certificates: Some("System"@),
            },
        },
    }
}

pub open spec fn service_ref(
    name: Seq<char>,
    namespace: Option<Seq<char>>,
    port: i32,
) -> ResolvedBackendView {
    ResolvedBackendView { group: Seq::empty(), kind: "Service"@, name, namespace, port }
}

pub open spec fn envoy_ref(name: Seq<char>, port: i32) -> ResolvedBackendView {
    ResolvedBackendView {
        group: "gateway.envoyproxy.io"@,
        kind: "Backend"@,
        name,
        namespace: None,
        port,
    }
}

/// The settings under which the servers of one service are emitted.
#[verifier::ext_equal]
pub struct Family {
    /// `""` for http, `"tcp"` and `"udp"` otherwise.
    pub infix: Seq<char>,
    /// The Kubernetes port protocol.
    pub protocol: Seq<char>,
}

pub open spec fn http_family() -> Family {
    Family { infix: ""@, protocol: "TCP"@ }
}

/// What a classified service resolves to.
pub open spec fn resolved(
    cfg: ConfigView,
    name: Seq<char>,
    class: ClassificationView,
    family: Family,
) -> Option<ResolvedBackendView> {
    let backend = object_name("be"@, family.infix, name);
    match class {
        ClassificationView::Empty => None,
        ClassificationView::Ips { entries: _, port, tls: _ } => Some(
            match cfg.backend_kind {
                BackendKind::Service => service_ref(
                    object_name("svc"@, family.infix, name),
                    None,
                    port,
                ),
                BackendKind::EnvoyBackend => envoy_ref(backend, port),
            },
        ),
        ClassificationView::Fqdn { hostname: _, port, tls: _ } => Some(envoy_ref(backend, port)),
        ClassificationView::ClusterDns { service, namespace, port, host: _, tls } => Some(
            if tls && cfg.backend_kind == BackendKind::EnvoyBackend {
                envoy_ref(backend, port)
            } else {
                service_ref(service, Some(namespace), port)
            },
        ),
    }
}

pub open spec fn with_backend(d: DesiredView, name: Seq<char>, b: BackendView) -> DesiredView {
    DesiredView { envoy_backends: d.envoy_backends.insert(name, b), ..d }
}

/// The desired objects with those of one classified service.
pub open spec fn emitted(
    cfg: ConfigView,
    name: Seq<char>,
    class: ClassificationView,
    family: Family,
    skip_verify: bool,
    d: DesiredView,
) -> DesiredView {
    let backend = object_name("be"@, family.infix, name);
    match class {
        ClassificationView::Empty => d,
        ClassificationView::Ips { entries, port, tls } => match cfg.backend_kind {
            BackendKind::EnvoyBackend => with_backend(
                d,
                backend,
                envoy_backend(
                    cfg,
                    backend,
                    ip_endpoints(entries, port),
                    tls_settings(tls, skip_verify, None),
                ),
            ),
            BackendKind::Service => {
                let svc = object_name("svc"@, family.infix, name);
                let eps = object_name("eps"@, family.infix, name);
                DesiredView {
                    services: d.services.insert(
                        svc,
                        service_stub(cfg, svc, port, family.protocol),
                    ),
                    endpoint_slices: d.endpoint_slices.insert(
                        eps,
                        slice_stub(cfg, eps, svc, entries, port, family.protocol),
                    ),
                    ..d
                }
            },
        },
        ClassificationView::Fqdn { hostname, port, tls } => with_backend(
            d,
            backend,
            envoy_backend(
                cfg,
                backend,
                fqdn_endpoint(hostname, port),
                tls_settings(tls, skip_verify, Some(hostname)),
            ),
        ),
        ClassificationView::ClusterDns { service, namespace, port, host, tls } => if !tls {
            d
        } else {
            match cfg.backend_kind {
                BackendKind::EnvoyBackend => with_backend(
                    d,
                    backend,
                    envoy_backend(
                        cfg,
                        backend,
                        fqdn_endpoint(host, port),
                        tls_settings(tls, skip_verify, Some(host)),
                    ),
                ),
                // A policy is a local object, and it cannot switch verification off.
                BackendKind::Service => if namespace == cfg.namespace && !skip_verify {
                    let policy = object_name("btp"@, family.infix, name);
                    DesiredView {
                        backend_tls_policies: d.backend_tls_policies.insert(
                            policy,
                            backend_tls_policy(cfg, policy, service, host),
                        ),
                        ..d
                    }
                } else {
                    d
                },
            }
        },
    }
}

// ---- services -----------------------------------------------------------------------

pub open spec fn urls_of(servers: Seq<LoadBalancerServer>) -> Seq<Seq<char>> {
    Seq::new(servers.len(), |i: int| servers[i].url@)
}

pub open spec fn addresses_of(servers: Seq<L4Server>) -> Seq<Seq<char>> {
    Seq::new(servers.len(), |i: int| servers[i].address@)
}

/// The class of a pangolin service; one without servers has none.
pub open spec fn service_class(svc: PangService, kind: BackendKind) -> ClassificationView {
    match svc.load_balancer {
        Some(lb) => classified(url_targets(urls_of(lb.servers@)), kind),
        None => ClassificationView::Empty,
    }
}

pub open spec fn l4_service_class(svc: L4Service, kind: BackendKind) -> ClassificationView {
    match svc.load_balancer {
        Some(lb) => classified(l4_targets(addresses_of(lb.servers@)), kind),
        None => ClassificationView::Empty,
    }
}

/// The service's servers transport switches certificate checks off.
pub open spec fn skips_verify(svc: PangService, transports: Map<Seq<char>, Json>) -> bool {
    match svc.load_balancer {
        Some(lb) => match lb.servers_transport {
            Some(name) => transports.contains_key(name@) && transports[name@].member(
                "insecureSkipVerify"@,
            ) == Some(Json::Bool(true)),
            None => false,
        },
        None => false,
    }
}

pub type Index = Map<Seq<char>, ResolvedBackendView>;

pub open spec fn with_resolved(
    index: Index,
    name: Seq<char>,
    r: Option<ResolvedBackendView>,
) -> Index {
    match r {
        Some(b) => index.insert(name, b),
        None => index,
    }
}

/// What the services resolve to.
pub open spec fn backend_index(cfg: ConfigView, services: Seq<(Seq<char>, PangService)>) -> Index
    decreases services.len(),
{
    if services.len() == 0 {
        Map::empty()
    } else {
        let (name, svc) = services.last();
        with_resolved(
            backend_index(cfg, services.drop_last()),
            name,
            resolved(cfg, name, service_class(svc, cfg.backend_kind), http_family()),
        )
    }
}

/// The desired objects with those of the services.
pub open spec fn with_backends(
    cfg: ConfigView,
    services: Seq<(Seq<char>, PangService)>,
    transports: Map<Seq<char>, Json>,
    d: DesiredView,
) -> DesiredView
    decreases services.len(),
{
    if services.len() == 0 {
        d
    } else {
        let (name, svc) = services.last();
        emitted(
            cfg,
            name,
            service_class(svc, cfg.backend_kind),
            http_family(),
            skips_verify(svc, transports),
            with_backends(cfg, services.drop_last(), transports, d),
        )
    }
}

pub open spec fn l4_backend_index(
    cfg: ConfigView,
    services: Seq<(Seq<char>, L4Service)>,
    family: Family,
) -> Index
    decreases services.len(),
{
    if services.len() == 0 {
        Map::empty()
    } else {
        let (name, svc) = services.last();
        with_resolved(
            l4_backend_index(cfg, services.drop_last(), family),
            name,
            resolved(cfg, name, l4_service_class(svc, cfg.backend_kind), family),
        )
    }
}

pub open spec fn with_l4_backends(
    cfg: ConfigView,
    services: Seq<(Seq<char>, L4Service)>,
    family: Family,
    d: DesiredView,
) -> DesiredView
    decreases services.len(),
{
    if services.len() == 0 {
        d
    } else {
        let (name, svc) = services.last();
        emitted(
            cfg,
            name,
            l4_service_class(svc, cfg.backend_kind),
            family,
            false,
            with_l4_backends(cfg, services.drop_last(), family, d),
        )
    }
}

// ---- functions: targets and classes ---------------------------------------------------

/// The target of a parsed server URL.
pub fn target_of_url(url: &UrlParts) -> (r: Option<HostPort>)
    ensures
        r.deep_view() == url_target(url.deep_view()),
{
    match (&url.host, url.port) {
        (Some(host), Some(port)) => Some(
            HostPort {
                host: text::trimmed_end_char(
                    text::trimmed_start_char(host.as_str(), '[').as_str(),
                    ']',
                ),
                port: port as i32,
                tls: text::same(url.scheme.as_str(), "https"),
            },
        ),
        _ => None,
    }
}

pub fn parse_url_servers(_pang_name: &str, servers: &Vec<LoadBalancerServer>) -> (r: Vec<HostPort>)
    ensures
        r.deep_view() == url_targets(urls_of(servers@)),
{
    let ghost urls = urls_of(servers@);
    let mut entries: Vec<HostPort> = Vec::new();
    let mut i: usize = 0;
    assert(urls.take(0) =~= Seq::<Seq<char>>::empty());
    assert(entries.deep_view() =~= Seq::<HostPortView>::empty());
    while i < servers.len()
        invariant
            urls == urls_of(servers@),
            i <= servers@.len(),
            entries.deep_view() == url_targets(urls.take(i as int)),
        decreases servers@.len() - i,
    {
        assert(urls.take(i + 1).drop_last() =~= urls.take(i as int));
        let ghost before = entries.deep_view();
        let target = match parse_url(servers[i].url.as_str()) {
            Some(u) => target_of_url(&u),
            None => None,
        };
        if let Some(t) = target {
            entries.push(t);
            assert(entries.deep_view() =~= before.push(t.deep_view()));
        }
        i += 1;
    }
    assert(urls.take(i as int) =~= urls);
    entries
}

fn split_address(s: &str) -> (r: Option<(String, String)>)
    ensures
        r.deep_view() == host_and_port(s@),
{
    match text::without_prefix(s, "[") {
        Some(rest) => match text::split_at_first(rest.as_str(), ']') {
            // Bracketed IPv6: [::1]:8080
            Some((host, after)) => match text::without_prefix(after.as_str(), ":") {
                Some(port) => Some((host, port)),
                None => None,
            },
            None => None,
        },
        None => text::split_at_last(s, ':'),
    }
}

/// Parse a Traefik L4 server `address` (`host:port`, IPv6 in brackets). Pangolin
/// has been seen prefixing a scheme even for UDP targets, so a leading
/// `<scheme>://` is tolerated and stripped.
pub fn parse_l4_address(_pang_name: &str, address: &str) -> (r: Option<HostPort>)
    ensures
        r.deep_view() == l4_target(address@),
{
    proof {
        reveal_strlit("://");
    }
    let trimmed = text::trimmed(address);
    let plain = match text::text_split(trimmed.as_str(), "://") {
        Some((_, rest)) => rest,
        None => trimmed,
    };
    let (host, port_text) = match split_address(plain.as_str()) {
        Some(p) => p,
        None => {
            return None;
        },
    };
    match text::unsigned(port_text.as_str(), 65535) {
        Some(port) => {
            if host.as_str().is_empty() {
                None
            } else {
                Some(HostPort { host, port: port as i32, tls: false })
            }
        },
        None => None,
    }
}

fn parse_l4_servers(pang_name: &str, servers: &Vec<L4Server>) -> (r: Vec<HostPort>)
    ensures
        r.deep_view() == l4_targets(addresses_of(servers@)),
{
    let ghost all = addresses_of(servers@);
    let mut entries: Vec<HostPort> = Vec::new();
    let mut i: usize = 0;
    assert(all.take(0) =~= Seq::<Seq<char>>::empty());
    assert(entries.deep_view() =~= Seq::<HostPortView>::empty());
    while i < servers.len()
        invariant
            all == addresses_of(servers@),
            i <= servers@.len(),
            entries.deep_view() == l4_targets(all.take(i as int)),
        decreases servers@.len() - i,
    {
        assert(all.take(i + 1).drop_last() =~= all.take(i as int));
        let ghost before = entries.deep_view();
        if let Some(t) = parse_l4_address(pang_name, servers[i].address.as_str()) {
            entries.push(t);
            assert(entries.deep_view() =~= before.push(t.deep_view()));
        }
        i += 1;
    }
    assert(all.take(i as int) =~= all);
    entries
}

/// Parse `<svc>.<ns>.svc` or `<svc>.<ns>.svc.cluster.local` (with optional further
/// search-domain suffix) into `(svc, ns)`.
pub fn parse_cluster_dns(host: &str) -> (r: Option<(String, String)>)
    ensures
        r.deep_view() == cluster_dns_of(host@),
{
    let normalized = text::to_lower(text::trimmed_end_char(host, '.').as_str());
    let parts = text::pieces(normalized.as_str(), '.');
    assert(parts@.len() == parts.deep_view().len());
    if parts.len() < 3 {
        return None;
    }
    assert(forall|i: int| 0 <= i < parts@.len() ==> #[trigger] parts.deep_view()[i] == parts@[i]@);
    if !text::same(parts[2].as_str(), "svc") {
        return None;
    }
    Some((parts[0].clone(), parts[1].clone()))
}

proof fn lemma_no_ips(entries: Seq<HostPortView>, port: i32)
    requires
        first_of(entries, HostClass::Ip) is None,
    ensures
        ips_on(entries, port) == Seq::<IpAddrView>::empty(),
    decreases entries.len(),
{
    if entries.len() > 0 {
        lemma_no_ips(entries.drop_last(), port);
    }
}

/// Classify the targets of a pangolin service.
pub fn classify_entries(_pang_name: &str, entries: &Vec<HostPort>, kind: BackendKind) -> (r:
    Classification)
    ensures
        r.deep_view() == classified(entries.deep_view(), kind),
{
    let ghost all = entries.deep_view();
    let mut ips: Vec<IpAddr> = Vec::new();
    let mut ip: Option<(i32, bool)> = None;
    let mut cluster: Option<(String, String, String, i32, bool)> = None;
    let mut fqdn: Option<(String, i32, bool)> = None;
    let mut i: usize = 0;
    assert(all.take(0) =~= Seq::<HostPortView>::empty());
    assert(ips.deep_view() =~= Seq::<IpAddrView>::empty());
    while i < entries.len()
        invariant
            all == entries.deep_view(),
            i <= entries@.len(),
            match first_of(all.take(i as int), HostClass::Ip) {
                Some(e) => ip == Some((e.port, e.tls)) && ips.deep_view() == ips_on(
                    all.take(i as int),
                    e.port,
                ),
                None => ip is None && ips@.len() == 0,
            },
            match first_of(all.take(i as int), HostClass::ClusterDns) {
                Some(e) => cluster matches Some(c) && cluster_dns_of(e.host) == Some((c.0@, c.1@))
                    && c.2@ == e.host && c.3 == e.port && c.4 == e.tls,
                None => cluster is None,
            },
            match first_of(all.take(i as int), HostClass::Fqdn) {
                Some(e) => fqdn matches Some(f) && f.0@ == e.host && f.1 == e.port && f.2 == e.tls,
                None => fqdn is None,
            },
        decreases entries@.len() - i,
    {
        let entry = &entries[i];
        let host = entry.host.as_str();
        assert(all[i as int] == entry.deep_view());
        assert(all.take(i + 1).drop_last() =~= all.take(i as int));
        let ghost before = ips.deep_view();
        assert(before.len() == ips@.len());
        if let Some(a) = IpAddr::parse(host) {
            match ip {
                Some((port, _)) => {
                    if port == entry.port {
                        ips.push(a);
                        assert(ips.deep_view() =~= before.push(a.deep_view()));
                    }
                },
                None => {
                    ip = Some((entry.port, entry.tls));
                    ips.push(a);
                    assert(ips.deep_view() =~= before.push(a.deep_view()));
                    proof {
                        lemma_no_ips(all.take(i as int), entry.port);
                    }
                    assert(ips_on(all.take(i as int), entry.port) =~= before);
                },
            }
        } else if let Some((svc, ns)) = parse_cluster_dns(host) {
            if cluster.is_none() {
                cluster = Some((svc, ns, entry.host.clone(), entry.port, entry.tls));
            }
        } else if fqdn.is_none() {
            fqdn = Some((entry.host.clone(), entry.port, entry.tls));
        }
        i += 1;
    }
    assert(all.take(i as int) =~= all);
    if let Some((port, tls)) = ip {
        return Classification::Ips { entries: ips, port, tls };
    }
    if let Some((service, namespace, host, port, tls)) = cluster {
        return Classification::ClusterDns { service, namespace, port, host, tls };
    }
    match (kind, fqdn) {
        (BackendKind::EnvoyBackend, Some((hostname, port, tls))) => Classification::Fqdn {
            hostname,
            port,
            tls,
        },
        _ => Classification::Empty,
    }
}

// ---- functions: objects -----------------------------------------------------------------

fn name_prefix(base: &str, infix: &str) -> (r: String)
    ensures
        r@ == infixed(base@, infix@),
{
    if infix.is_empty() {
        base.to_owned()
    } else {
        text::cat3(base, "-", infix)
    }
}

fn name_of(base: &str, infix: &str, pang_name: &str) -> (r: String)
    ensures
        r@ == object_name(base@, infix@, pang_name@),
{
    prefixed_label(name_prefix(base, infix).as_str(), pang_name)
}

fn backend_tls(tls: bool, skip_verify: bool, sni: Option<&str>) -> (r: Option<BackendTlsSettings>)
    ensures
        r.deep_view() == tls_settings(tls, skip_verify, sni.deep_view()),
{
    let sni = match sni {
        Some(s) => Some(s.to_owned()),
        None => None,
    };
    if !tls {
        None
    } else if skip_verify {
        Some(
            BackendTlsSettings {
                well_known_ca_certificates: None,
                insecure_skip_verify: Some(true),
                sni,
            },
        )
    } else {
        Some(
            BackendTlsSettings {
                well_known_ca_certificates: Some("System".to_owned()),
                insecure_skip_verify: None,
                sni,
            },
        )
    }
}

fn emit_envoy_backend(
    cfg: &Config,
    pang_name: &str,
    endpoints: Vec<BackendEndpoint>,
    tls: Option<BackendTlsSettings>,
    port: i32,
    infix: &str,
    desired: &mut Desired,
) -> (r: ResolvedBackend)
    ensures
        ({
            let name = object_name("be"@, infix@, pang_name@);
            &&& r.deep_view() == envoy_ref(name, port)
            &&& final(desired).deep_view() == with_backend(
                old(desired).deep_view(),
                name,
                envoy_backend(cfg.deep_view(), name, endpoints.deep_view(), tls.deep_view()),
            )
        }),
{
    broadcast use lemma_deep_insert;

    let name = name_of("be", infix, pang_name);
    let labels = owner_labels(cfg, name.as_str());
    let backend = Backend {
        metadata: managed_metadata(cfg, name.as_str(), labels),
        spec: BackendSpec { endpoints, tls },
    };
    desired.envoy_backends.insert(name.clone(), backend);
    ResolvedBackend {
        group: "gateway.envoyproxy.io".to_owned(),
        kind: "Backend".to_owned(),
        name,
        namespace: None,
        port,
    }
}

fn fqdn_endpoints(hostname: &str, port: i32) -> (r: Vec<BackendEndpoint>)
    ensures
        r.deep_view() == fqdn_endpoint(hostname@, port),
{
    let e = BackendEndpoint {
        ip: None,
        fqdn: Some(BackendFqdn { hostname: hostname.to_owned(), port }),
    };
    let r = vec![e];
    assert(r.deep_view() =~= fqdn_endpoint(hostname@, port));
    r
}

fn ip_addresses(ips: &Vec<IpAddr>, port: i32) -> (r: Vec<BackendEndpoint>)
    ensures
        r.deep_view() == ip_endpoints(ips.deep_view(), port),
{
    let ghost all = ip_endpoints(ips.deep_view(), port);
    let mut out: Vec<BackendEndpoint> = Vec::new();
    let mut i: usize = 0;
    assert(out.deep_view() =~= all.take(0));
    while i < ips.len()
        invariant
            all == ip_endpoints(ips.deep_view(), port),
            i <= ips@.len(),
            out.deep_view() == all.take(i as int),
        decreases ips@.len() - i,
    {
        let ghost before = out.deep_view();
        let e = BackendEndpoint {
            ip: Some(BackendIp { address: ips[i].text(), port }),
            fqdn: None,
        };
        assert(e.deep_view() == all[i as int]);
        out.push(e);
        assert(out.deep_view() =~= before.push(e.deep_view()));
        i += 1;
        assert(out.deep_view() =~= all.take(i as int));
    }
    assert(all.take(i as int) =~= all);
    out
}

fn slice_endpoints(ips: &Vec<IpAddr>) -> (r: Vec<Endpoint>)
    ensures
        r.deep_view() == Seq::new(
            ips.deep_view().len(),
            |i: int| EndpointView { addresses: seq![ip_text(ips.deep_view()[i])] },
        ),
{
    let ghost all = Seq::new(
        ips.deep_view().len(),
        |i: int| EndpointView { addresses: seq![ip_text(ips.deep_view()[i])] },
    );
    let mut out: Vec<Endpoint> = Vec::new();
    let mut i: usize = 0;
    assert(out.deep_view() =~= all.take(0));
    while i < ips.len()
        invariant
            all == Seq::new(
                ips.deep_view().len(),
                |i: int| EndpointView { addresses: seq![ip_text(ips.deep_view()[i])] },
            ),
            i <= ips@.len(),
            out.deep_view() == all.take(i as int),
        decreases ips@.len() - i,
    {
        let ghost before = out.deep_view();
        let address = ips[i].text();
        let addresses = vec![address];
        assert(addresses.deep_view() =~= seq![address@]);
        let e = Endpoint { addresses };
        assert(e.deep_view() == all[i as int]);
        out.push(e);
        assert(out.deep_view() =~= before.push(e.deep_view()));
        i += 1;
        assert(out.deep_view() =~= all.take(i as int));
    }
    assert(all.take(i as int) =~= all);
    out
}

fn stub_service(cfg: &Config, name: &str, port: i32, protocol: &str) -> (r: Service)
    ensures
        r.deep_view() == service_stub(cfg.deep_view(), name@, port, protocol@),
{
    let p = ServicePort {
        name: Some("default".to_owned()),
        port,
        target_port: Some(port),
        protocol: Some(protocol.to_owned()),
    };
    let ports = vec![p];
    proof {
        text::lemma_one(ports, p);
    }
    let labels = owner_labels(cfg, name);
    Service {
        metadata: managed_metadata(cfg, name, labels),
        spec: Some(
            ServiceSpec {
                cluster_ip: Some("None".to_owned()),
                service_type: Some("ClusterIP".to_owned()),
                ports: Some(ports),
            },
        ),
    }
}

fn stub_slice(
    cfg: &Config,
    name: &str,
    service: &str,
    ips: &Vec<IpAddr>,
    port: i32,
    protocol: &str,
) -> (r: EndpointSlice)
    ensures
        r.deep_view() == slice_stub(
            cfg.deep_view(),
            name@,
            service@,
            ips.deep_view(),
            port,
            protocol@,
        ),
{
    broadcast use lemma_deep_insert;

    let p = EndpointPort {
        name: Some("default".to_owned()),
        port: Some(port),
        protocol: Some(protocol.to_owned()),
    };
    let ports = vec![p];
    proof {
        text::lemma_one(ports, p);
    }
    let mut labels = owner_labels(cfg, service);
    labels.insert("kubernetes.io/service-name".to_owned(), service.to_owned());
    EndpointSlice {
        metadata: managed_metadata(cfg, name, labels),
        address_type: "IPv4".to_owned(),
        endpoints: slice_endpoints(ips),
        ports: Some(ports),
    }
}

fn stub_policy(cfg: &Config, name: &str, service: &str, hostname: &str) -> (r: BackendTLSPolicy)
    ensures
        r.deep_view() == backend_tls_policy(cfg.deep_view(), name@, service@, hostname@),
{
    let t = PolicyTargetRef {
        group: String::new(),
        kind: "Service".to_owned(),
        name: service.to_owned(),
    };
    let target_refs = vec![t];
    proof {
        text::lemma_one(target_refs, t);
    }
    let labels = owner_labels(cfg, name);
    BackendTLSPolicy {
        metadata: managed_metadata(cfg, name, labels),
        spec: BackendTlsPolicySpec {
            target_refs,
            validation: BackendTlsValidation {
                hostname: hostname.to_owned(),
                well_known_ca_certificates: Some("System".to_owned()),
            },
        },
    }
}

fn emit_synthesized_service(
    cfg: &Config,
    pang_name: &str,
    ips: &Vec<IpAddr>,
    port: i32,
    infix: &str,
    protocol: &str,
    desired: &mut Desired,
) -> (r: ResolvedBackend)
    ensures
        ({
            let svc = object_name("svc"@, infix@, pang_name@);
            let eps = object_name("eps"@, infix@, pang_name@);
            let c = cfg.deep_view();
            &&& r.deep_view() == service_ref(svc, None, port)
            &&& final(desired).deep_view() == (DesiredView {
                services: old(desired).deep_view().services.insert(
                    svc,
                    service_stub(c, svc, port, protocol@),
                ),
                endpoint_slices: old(desired).deep_view().endpoint_slices.insert(
                    eps,
                    slice_stub(c, eps, svc, ips.deep_view(), port, protocol@),
                ),
                ..old(desired).deep_view()
            })
        }),
{
    broadcast use lemma_deep_insert;

    let svc_name = name_of("svc", infix, pang_name);
    let slice_name = name_of("eps", infix, pang_name);
    let service = stub_service(cfg, svc_name.as_str(), port, protocol);
    let slice = stub_slice(cfg, slice_name.as_str(), svc_name.as_str(), ips, port, protocol);
    desired.services.insert(svc_name.clone(), service);
    desired.endpoint_slices.insert(slice_name, slice);
    ResolvedBackend {
        group: String::new(),
        kind: "Service".to_owned(),
        name: svc_name,
        namespace: None,
        port,
    }
}

/// Dispatch a classification to the right emitter. `infix` distinguishes
/// synthesized object names per traffic family (`""` for http, `"tcp"`/`"udp"`),
/// `protocol` is the Kubernetes port protocol for Service/EndpointSlice stubs.
pub fn emit_backend(
    cfg: &Config,
    pang_name: &str,
    classification: Classification,
    infix: &str,
    protocol: &str,
    skip_verify: bool,
    desired: &mut Desired,
) -> (r: Option<ResolvedBackend>)
    ensures
        ({
            let family = Family { infix: infix@, protocol: protocol@ };
            let c = cfg.deep_view();
            let class = classification.deep_view();
            &&& r.deep_view() == resolved(c, pang_name@, class, family)
            &&& final(desired).deep_view() == emitted(
                c,
                pang_name@,
                class,
                family,
                skip_verify,
                old(desired).deep_view(),
            )
        }),
{
    broadcast use lemma_deep_insert;

    match classification {
        Classification::Empty => None,
        Classification::Ips { entries, port, tls } => match cfg.backend_kind {
            BackendKind::Service => Some(
                emit_synthesized_service(
                    cfg,
                    pang_name,
                    &entries,
                    port,
                    infix,
                    protocol,
                    desired,
                ),
            ),
            BackendKind::EnvoyBackend => {
                let endpoints = ip_addresses(&entries, port);
                let settings = backend_tls(tls, skip_verify, None);
                Some(emit_envoy_backend(cfg, pang_name, endpoints, settings, port, infix, desired))
            },
        },
        Classification::Fqdn { hostname, port, tls } => {
            let endpoints = fqdn_endpoints(hostname.as_str(), port);
            let settings = backend_tls(tls, skip_verify, Some(hostname.as_str()));
            Some(emit_envoy_backend(cfg, pang_name, endpoints, settings, port, infix, desired))
        },
        Classification::ClusterDns { service, namespace, port, host, tls } => {
            if tls {
                match cfg.backend_kind {
                    BackendKind::EnvoyBackend => {
                        let endpoints = fqdn_endpoints(host.as_str(), port);
                        let settings = backend_tls(tls, skip_verify, Some(host.as_str()));
                        return Some(
                            emit_envoy_backend(
                                cfg,
                                pang_name,
                                endpoints,
                                settings,
                                port,
                                infix,
                                desired,
                            ),
                        );
                    },
                    BackendKind::Service => {
                        if text::same(namespace.as_str(), cfg.namespace.as_str()) && !skip_verify {
                            let name = name_of("btp", infix, pang_name);
                            let policy = stub_policy(
                                cfg,
                                name.as_str(),
                                service.as_str(),
                                host.as_str(),
                            );
                            desired.backend_tls_policies.insert(name, policy);
                        }
                    },
                }
            }
            Some(
                ResolvedBackend {
                    group: String::new(),
                    kind: "Service".to_owned(),
                    name: service,
                    namespace: Some(namespace),
                    port,
                },
            )
        },
    }
}

// ---- functions: services ------------------------------------------------------------------

fn skip_verify_of(svc: &PangService, transports: &StrMap<Json>) -> (r: bool)
    ensures
        r == skips_verify(*svc, transports@),
{
    match &svc.load_balancer {
        Some(lb) => match &lb.servers_transport {
            Some(name) => match transports.get(name.as_str()) {
                Some(t) => match t.get("insecureSkipVerify") {
                    Some(Json::Bool(b)) => *b,
                    _ => false,
                },
                None => false,
            },
            None => false,
        },
        None => false,
    }
}

fn classify_service(pang_name: &str, svc: &PangService, kind: BackendKind) -> (r: Classification)
    ensures
        r.deep_view() == service_class(*svc, kind),
{
    match &svc.load_balancer {
        Some(lb) => {
            let entries = parse_url_servers(pang_name, &lb.servers);
            classify_entries(pang_name, &entries, kind)
        },
        None => Classification::Empty,
    }
}

fn classify_l4_service(pang_name: &str, svc: &L4Service, kind: BackendKind) -> (r: Classification)
    ensures
        r.deep_view() == l4_service_class(*svc, kind),
{
    match &svc.load_balancer {
        Some(lb) => {
            let entries = parse_l4_servers(pang_name, &lb.servers);
            classify_entries(pang_name, &entries, kind)
        },
        None => Classification::Empty,
    }
}

/// Resolve pangolin's HTTP services, adding the objects they need.
pub fn build_backends(
    cfg: &Config,
    services: &StrMap<PangService>,
    servers_transports: &StrMap<Json>,
    desired: &mut Desired,
) -> (index: BackendIndex)
    ensures
        index.deep_view() == backend_index(cfg.deep_view(), services.entries()),
        final(desired).deep_view() == with_backends(
            cfg.deep_view(),
            services.entries(),
            servers_transports@,
            old(desired).deep_view(),
        ),
{
    broadcast use lemma_deep_insert;

    let ghost e = services.entries();
    let ghost c = cfg.deep_view();
    let ghost start = desired.deep_view();
    let mut index: BackendIndex = StrMap::new();
    let n: usize = services.len();
    let mut i: usize = 0;
    assert(index.deep_view() =~= Map::<Seq<char>, ResolvedBackendView>::empty());
    assert(e.take(0) =~= Seq::<(Seq<char>, PangService)>::empty());
    while i < n
        invariant
            e == services.entries(),
            c == cfg.deep_view(),
            n == e.len(),
            i <= n,
            index.deep_view() == backend_index(c, e.take(i as int)),
            desired.deep_view() == with_backends(
                c,
                e.take(i as int),
                servers_transports@,
                start,
            ),
        decreases n - i,
    {
        let name = services.key_at(i);
        let svc = services.value_at(i);
        assert(e.take(i + 1).drop_last() =~= e.take(i as int));
        assert(e.take(i + 1).last() == (name@, *svc));
        let classification = classify_service(name.as_str(), svc, cfg.backend_kind);
        let skip_verify = skip_verify_of(svc, servers_transports);
        let found = emit_backend(
            cfg,
            name.as_str(),
            classification,
            "",
            "TCP",
            skip_verify,
            desired,
        );
        if let Some(b) = found {
            index.insert(name.clone(), b);
        }
        i += 1;
    }
    assert(e.take(i as int) =~= e);
    index
}

/// L4 sibling of [`build_backends`]: pangolin's `tcp`/`udp` services carry
/// `address` (`host:port`) entries instead of URLs. Synthesized object names get
/// a protocol infix (`be-tcp-…`) so a pangolin service name reused across the
/// http/tcp/udp blocks can't collide, and `service`-mode stubs carry the right
/// port protocol.
pub fn build_l4_backends(
    cfg: &Config,
    services: &StrMap<L4Service>,
    proto: L4Protocol,
    desired: &mut Desired,
) -> (index: BackendIndex)
    ensures
        index.deep_view() == l4_backend_index(
            cfg.deep_view(),
            services.entries(),
            family_of(proto),
        ),
        final(desired).deep_view() == with_l4_backends(
            cfg.deep_view(),
            services.entries(),
            family_of(proto),
            old(desired).deep_view(),
        ),
{
    broadcast use lemma_deep_insert;

    let ghost e = services.entries();
    let ghost c = cfg.deep_view();
    let ghost f = family_of(proto);
    let ghost start = desired.deep_view();
    let mut index: BackendIndex = StrMap::new();
    let n: usize = services.len();
    let mut i: usize = 0;
    assert(index.deep_view() =~= Map::<Seq<char>, ResolvedBackendView>::empty());
    assert(e.take(0) =~= Seq::<(Seq<char>, L4Service)>::empty());
    while i < n
        invariant
            e == services.entries(),
            c == cfg.deep_view(),
            f == family_of(proto),
            n == e.len(),
            i <= n,
            index.deep_view() == l4_backend_index(c, e.take(i as int), f),
            desired.deep_view() == with_l4_backends(c, e.take(i as int), f, start),
        decreases n - i,
    {
        let name = services.key_at(i);
        let svc = services.value_at(i);
        assert(e.take(i + 1).drop_last() =~= e.take(i as int));
        assert(e.take(i + 1).last() == (name@, *svc));
        let classification = classify_l4_service(name.as_str(), svc, cfg.backend_kind);
        let found = emit_backend(
            cfg,
            name.as_str(),
            classification,
            proto.infix(),
            proto.k8s_protocol(),
            false,
            desired,
        );
        if let Some(b) = found {
            index.insert(name.clone(), b);
        }
        i += 1;
    }
    assert(e.take(i as int) =~= e);
    index
}

} // verus!

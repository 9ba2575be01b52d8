//! The subset of Envoy Gateway's API that the controller writes.
//!
//! Envoy Gateway publishes its CRDs at `gateway.envoyproxy.io/v1alpha1`.
//! Reference: <https://gateway.envoyproxy.io/docs/api/extension_types/>.

use vstd::prelude::*;
use vstd::string::*;

use crate::kubernetes::{ObjectMeta, ObjectMetaView};

verus! {
/// `gateway.envoyproxy.io/v1alpha1/Backend` — direct IP/FQDN endpoints addressable
/// from an HTTPRoute via `backendRefs.group=gateway.envoyproxy.io, kind=Backend`.
pub struct Backend {
    pub metadata: ObjectMeta,
    pub spec: BackendSpec,
}

#[verifier::ext_equal]
pub struct BackendView {
    pub metadata: ObjectMetaView,
    pub spec: BackendSpecView,
}

impl DeepView for Backend {
    type V = BackendView;

    open spec fn deep_view(&self) -> BackendView {
        BackendView {
            metadata: self.metadata.deep_view(),
            spec: self.spec.deep_view(),
        }
    }
}

pub struct BackendSpec {
    /// One entry per target. Each entry sets exactly one of `ip` and `fqdn`.
    pub endpoints: Vec<BackendEndpoint>,
    /// TLS origination towards the backend.
    pub tls: Option<BackendTlsSettings>,
}

#[verifier::ext_equal]
pub struct BackendSpecView {
    pub endpoints: Seq<BackendEndpointView>,
    pub tls: Option<BackendTlsSettingsView>,
}

impl DeepView for BackendSpec {
    type V = BackendSpecView;

    open spec fn deep_view(&self) -> BackendSpecView {
        BackendSpecView {
            endpoints: self.endpoints.deep_view(),
            tls: self.tls.deep_view(),
        }
    }
}

pub struct BackendTlsSettings {
    /// `"System"` — validate against the proxy container's system CA pool.
    pub well_known_ca_certificates: Option<String>,
    /// Disable certificate validation entirely. Mirrors pangolin's
    /// `serversTransports[].insecureSkipVerify`.
    pub insecure_skip_verify: Option<bool>,
    /// SNI and SAN match for verification. Must be a DNS hostname.
    pub sni: Option<String>,
}

#[verifier::ext_equal]
pub struct BackendTlsSettingsView {
    pub well_known_ca_certificates: Option<Seq<char>>,
    pub insecure_skip_verify: Option<bool>,
    pub sni: Option<Seq<char>>,
}

impl DeepView for BackendTlsSettings {
    type V = BackendTlsSettingsView;

    open spec fn deep_view(&self) -> BackendTlsSettingsView {
        BackendTlsSettingsView {
            well_known_ca_certificates: self.well_known_ca_certificates.deep_view(),
            insecure_skip_verify: self.insecure_skip_verify.deep_view(),
            sni: self.sni.deep_view(),
        }
    }
}

pub struct BackendEndpoint {
    pub ip: Option<BackendIp>,
    pub fqdn: Option<BackendFqdn>,
}

#[verifier::ext_equal]
pub struct BackendEndpointView {
    pub ip: Option<BackendIpView>,
    pub fqdn: Option<BackendFqdnView>,
}

impl DeepView for BackendEndpoint {
    type V = BackendEndpointView;

    open spec fn deep_view(&self) -> BackendEndpointView {
        BackendEndpointView {
            ip: self.ip.deep_view(),
            fqdn: self.fqdn.deep_view(),
        }
    }
}

pub struct BackendIp {
    pub address: String,
    pub port: i32,
}

#[verifier::ext_equal]
pub struct BackendIpView {
    pub address: Seq<char>,
    pub port: i32,
}

impl DeepView for BackendIp {
    type V = BackendIpView;

    open spec fn deep_view(&self) -> BackendIpView {
        BackendIpView {
            address: self.address@,
            port: self.port,
        }
    }
}

pub struct BackendFqdn {
    pub hostname: String,
    pub port: i32,
}

#[verifier::ext_equal]
pub struct BackendFqdnView {
    pub hostname: Seq<char>,
    pub port: i32,
}

impl DeepView for BackendFqdn {
    type V = BackendFqdnView;

    open spec fn deep_view(&self) -> BackendFqdnView {
        BackendFqdnView {
            hostname: self.hostname@,
            port: self.port,
        }
    }
}

/// `gateway.envoyproxy.io/v1alpha1/SecurityPolicy` — only the `extAuth.http` surface
/// emitted for pangolin's badger-protected routers.
pub struct SecurityPolicy {
    pub metadata: ObjectMeta,
    pub spec: SecurityPolicySpec,
}

#[verifier::ext_equal]
pub struct SecurityPolicyView {
    pub metadata: ObjectMetaView,
    pub spec: SecurityPolicySpecView,
}

impl DeepView for SecurityPolicy {
    type V = SecurityPolicyView;

    open spec fn deep_view(&self) -> SecurityPolicyView {
        SecurityPolicyView {
            metadata: self.metadata.deep_view(),
            spec: self.spec.deep_view(),
        }
    }
}

pub struct SecurityPolicySpec {
    /// One entry per HTTPRoute the policy protects. Exactly one is emitted.
    pub target_refs: Vec<PolicyTargetRef>,
    pub ext_auth: Option<ExtAuth>,
}

#[verifier::ext_equal]
pub struct SecurityPolicySpecView {
    pub target_refs: Seq<PolicyTargetRefView>,
    pub ext_auth: Option<ExtAuthView>,
}

impl DeepView for SecurityPolicySpec {
    type V = SecurityPolicySpecView;

    open spec fn deep_view(&self) -> SecurityPolicySpecView {
        SecurityPolicySpecView {
            target_refs: self.target_refs.deep_view(),
            ext_auth: self.ext_auth.deep_view(),
        }
    }
}

pub struct PolicyTargetRef {
    pub group: String,
    pub kind: String,
    pub name: String,
}

#[verifier::ext_equal]
pub struct PolicyTargetRefView {
    pub group: Seq<char>,
    pub kind: Seq<char>,
    pub name: Seq<char>,
}

impl DeepView for PolicyTargetRef {
    type V = PolicyTargetRefView;

    open spec fn deep_view(&self) -> PolicyTargetRefView {
        PolicyTargetRefView {
            group: self.group@,
            kind: self.kind@,
            name: self.name@,
        }
    }
}

pub struct ExtAuth {
    pub http: Option<HttpExtAuthService>,
    /// Client request headers forwarded to the auth service in addition to
    /// Envoy's defaults.
    pub headers_to_ext_auth: Option<Vec<String>>,
    /// `false`: an unreachable auth service denies requests rather than letting
    /// them through unauthenticated.
    pub fail_open: Option<bool>,
}

#[verifier::ext_equal]
pub struct ExtAuthView {
    pub http: Option<HttpExtAuthServiceView>,
    pub headers_to_ext_auth: Option<Seq<Seq<char>>>,
    pub fail_open: Option<bool>,
}

impl DeepView for ExtAuth {
    type V = ExtAuthView;

    open spec fn deep_view(&self) -> ExtAuthView {
        ExtAuthView {
            http: self.http.deep_view(),
            headers_to_ext_auth: self.headers_to_ext_auth.deep_view(),
            fail_open: self.fail_open.deep_view(),
        }
    }
}

pub struct HttpExtAuthService {
    pub backend_refs: Vec<ExtAuthBackendRef>,
    pub path: Option<String>,
    /// Auth-service response headers copied onto the upstream request.
    pub headers_to_backend: Option<Vec<String>>,
}

#[verifier::ext_equal]
pub struct HttpExtAuthServiceView {
    pub backend_refs: Seq<ExtAuthBackendRefView>,
    pub path: Option<Seq<char>>,
    pub headers_to_backend: Option<Seq<Seq<char>>>,
}

impl DeepView for HttpExtAuthService {
    type V = HttpExtAuthServiceView;

    open spec fn deep_view(&self) -> HttpExtAuthServiceView {
        HttpExtAuthServiceView {
            backend_refs: self.backend_refs.deep_view(),
            path: self.path.deep_view(),
            headers_to_backend: self.headers_to_backend.deep_view(),
        }
    }
}

pub struct ExtAuthBackendRef {
    pub name: String,
    pub namespace: Option<String>,
    pub port: Option<i32>,
}

#[verifier::ext_equal]
pub struct ExtAuthBackendRefView {
    pub name: Seq<char>,
    pub namespace: Option<Seq<char>>,
    pub port: Option<i32>,
}

impl DeepView for ExtAuthBackendRef {
    type V = ExtAuthBackendRefView;

    open spec fn deep_view(&self) -> ExtAuthBackendRefView {
        ExtAuthBackendRefView {
            name: self.name@,
            namespace: self.namespace.deep_view(),
            port: self.port.deep_view(),
        }
    }
}

} // verus!

//! The desired set of objects.

use vstd::prelude::*;
use vstd::string::*;

use crate::envoy_gateway::{Backend, BackendView, SecurityPolicy, SecurityPolicyView};
use crate::gateway::{
    BackendTLSPolicy, BackendTLSPolicyView, HTTPRoute, HTTPRouteView, L4Route, L4RouteView,
    ListenerSet, ListenerSetView,
};
use crate::kubernetes::{EndpointSlice, EndpointSliceView, Service, ServiceView};
use crate::strmap::StrMap;

verus! {

/// Everything the controller wants to exist in the cluster, keyed by resource name.
/// Names are DNS-label safe.
pub struct Desired {
    pub http_routes: StrMap<HTTPRoute>,
    pub listener_sets: StrMap<ListenerSet>,
    pub services: StrMap<Service>,
    pub endpoint_slices: StrMap<EndpointSlice>,
    /// Populated only when `CONFIG_BACKEND_KIND=envoy-backend`. Empty otherwise.
    pub envoy_backends: StrMap<Backend>,
    /// Populated only when `CONFIG_ENABLE_TCP_ROUTES=true`. Empty otherwise.
    pub tcp_routes: StrMap<L4Route>,
    /// Populated only when `CONFIG_ENABLE_UDP_ROUTES=true`. Empty otherwise.
    pub udp_routes: StrMap<L4Route>,
    /// One per badger-protected HTTPRoute, when an external authorization service is
    /// configured.
    pub security_policies: StrMap<SecurityPolicy>,
    /// TLS towards existing Services of the controller namespace.
    pub backend_tls_policies: StrMap<BackendTLSPolicy>,
}

#[verifier::ext_equal]
pub struct DesiredView {
    pub http_routes: Map<Seq<char>, HTTPRouteView>,
    pub listener_sets: Map<Seq<char>, ListenerSetView>,
    pub services: Map<Seq<char>, ServiceView>,
    pub endpoint_slices: Map<Seq<char>, EndpointSliceView>,
    pub envoy_backends: Map<Seq<char>, BackendView>,
    pub tcp_routes: Map<Seq<char>, L4RouteView>,
    pub udp_routes: Map<Seq<char>, L4RouteView>,
    pub security_policies: Map<Seq<char>, SecurityPolicyView>,
    pub backend_tls_policies: Map<Seq<char>, BackendTLSPolicyView>,
}

impl DeepView for Desired {
    type V = DesiredView;

    open spec fn deep_view(&self) -> DesiredView {
        DesiredView {
            http_routes: self.http_routes.deep_view(),
            listener_sets: self.listener_sets.deep_view(),
            services: self.services.deep_view(),
            endpoint_slices: self.endpoint_slices.deep_view(),
            envoy_backends: self.envoy_backends.deep_view(),
            tcp_routes: self.tcp_routes.deep_view(),
            udp_routes: self.udp_routes.deep_view(),
            security_policies: self.security_policies.deep_view(),
            backend_tls_policies: self.backend_tls_policies.deep_view(),
        }
    }
}


/// Nothing desired.
pub open spec fn nothing() -> DesiredView {
    DesiredView {
        http_routes: Map::empty(),
        listener_sets: Map::empty(),
        services: Map::empty(),
        endpoint_slices: Map::empty(),
        envoy_backends: Map::empty(),
        tcp_routes: Map::empty(),
        udp_routes: Map::empty(),
        security_policies: Map::empty(),
        backend_tls_policies: Map::empty(),
    }
}

impl Desired {
    pub fn new() -> (r: Desired)
        ensures
            r.deep_view() == nothing(),
    {
        let r = Desired {
            http_routes: StrMap::new(),
            listener_sets: StrMap::new(),
            services: StrMap::new(),
            endpoint_slices: StrMap::new(),
            envoy_backends: StrMap::new(),
            tcp_routes: StrMap::new(),
            udp_routes: StrMap::new(),
            security_policies: StrMap::new(),
            backend_tls_policies: StrMap::new(),
        };
        assert(r.deep_view() =~~= nothing());
        r
    }
}

} // verus!

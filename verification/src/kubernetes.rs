//! The Kubernetes core objects the controller writes, with the fields it sets.

use vstd::prelude::*;
use vstd::string::*;

use crate::strmap::StrMap;

verus! {
/// Object metadata, as far as the controller writes it.
pub struct ObjectMeta {
    pub name: Option<String>,
    pub namespace: Option<String>,
    pub labels: Option<StrMap<String>>,
    pub annotations: Option<StrMap<String>>,
}

#[verifier::ext_equal]
pub struct ObjectMetaView {
    pub name: Option<Seq<char>>,
    pub namespace: Option<Seq<char>>,
    pub labels: Option<Map<Seq<char>, Seq<char>>>,
    pub annotations: Option<Map<Seq<char>, Seq<char>>>,
}

impl DeepView for ObjectMeta {
    type V = ObjectMetaView;

    open spec fn deep_view(&self) -> ObjectMetaView {
        ObjectMetaView {
            name: self.name.deep_view(),
            namespace: self.namespace.deep_view(),
            labels: self.labels.deep_view(),
            annotations: self.annotations.deep_view(),
        }
    }
}

/// A core `Service`.
pub struct Service {
    pub metadata: ObjectMeta,
    pub spec: Option<ServiceSpec>,
}

#[verifier::ext_equal]
pub struct ServiceView {
    pub metadata: ObjectMetaView,
    pub spec: Option<ServiceSpecView>,
}

impl DeepView for Service {
    type V = ServiceView;

    open spec fn deep_view(&self) -> ServiceView {
        ServiceView {
            metadata: self.metadata.deep_view(),
            spec: self.spec.deep_view(),
        }
    }
}

pub struct ServiceSpec {
    /// `"None"` for a headless service.
    pub cluster_ip: Option<String>,
    pub service_type: Option<String>,
    pub ports: Option<Vec<ServicePort>>,
}

#[verifier::ext_equal]
pub struct ServiceSpecView {
    pub cluster_ip: Option<Seq<char>>,
    pub service_type: Option<Seq<char>>,
    pub ports: Option<Seq<ServicePortView>>,
}

impl DeepView for ServiceSpec {
    type V = ServiceSpecView;

    open spec fn deep_view(&self) -> ServiceSpecView {
        ServiceSpecView {
            cluster_ip: self.cluster_ip.deep_view(),
            service_type: self.service_type.deep_view(),
            ports: self.ports.deep_view(),
        }
    }
}

pub struct ServicePort {
    pub name: Option<String>,
    pub port: i32,
    pub target_port: Option<i32>,
    pub protocol: Option<String>,
}

#[verifier::ext_equal]
pub struct ServicePortView {
    pub name: Option<Seq<char>>,
    pub port: i32,
    pub target_port: Option<i32>,
    pub protocol: Option<Seq<char>>,
}

impl DeepView for ServicePort {
    type V = ServicePortView;

    open spec fn deep_view(&self) -> ServicePortView {
        ServicePortView {
            name: self.name.deep_view(),
            port: self.port,
            target_port: self.target_port.deep_view(),
            protocol: self.protocol.deep_view(),
        }
    }
}

/// A `discovery.k8s.io/v1` `EndpointSlice`.
pub struct EndpointSlice {
    pub metadata: ObjectMeta,
    pub address_type: String,
    pub endpoints: Vec<Endpoint>,
    pub ports: Option<Vec<EndpointPort>>,
}

#[verifier::ext_equal]
pub struct EndpointSliceView {
    pub metadata: ObjectMetaView,
    pub address_type: Seq<char>,
    pub endpoints: Seq<EndpointView>,
    pub ports: Option<Seq<EndpointPortView>>,
}

impl DeepView for EndpointSlice {
    type V = EndpointSliceView;

    open spec fn deep_view(&self) -> EndpointSliceView {
        EndpointSliceView {
            metadata: self.metadata.deep_view(),
            address_type: self.address_type@,
            endpoints: self.endpoints.deep_view(),
            ports: self.ports.deep_view(),
        }
    }
}

pub struct Endpoint {
    pub addresses: Vec<String>,
}

#[verifier::ext_equal]
pub struct EndpointView {
    pub addresses: Seq<Seq<char>>,
}

impl DeepView for Endpoint {
    type V = EndpointView;

    open spec fn deep_view(&self) -> EndpointView {
        EndpointView {
            addresses: self.addresses.deep_view(),
        }
    }
}

pub struct EndpointPort {
    pub name: Option<String>,
    pub port: Option<i32>,
    pub protocol: Option<String>,
}

#[verifier::ext_equal]
pub struct EndpointPortView {
    pub name: Option<Seq<char>>,
    pub port: Option<i32>,
    pub protocol: Option<Seq<char>>,
}

impl DeepView for EndpointPort {
    type V = EndpointPortView;

    open spec fn deep_view(&self) -> EndpointPortView {
        EndpointPortView {
            name: self.name.deep_view(),
            port: self.port.deep_view(),
            protocol: self.protocol.deep_view(),
        }
    }
}

} // verus!

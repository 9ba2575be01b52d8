//! Strongly-typed view of the subset of Traefik's dynamic configuration that pangolin emits.
//!
//! Some fields are kept though nothing consumes them yet, so that the schema is
//! self-documenting and no information is silently dropped.

use vstd::prelude::*;

use crate::json::Json;
use crate::strmap::StrMap;

verus! {

pub struct TraefikDynamicConfig {
    pub http: HttpConfig,
    /// Raw TCP resources. Translated to Gateway API `TCPRoute` when
    /// `CONFIG_ENABLE_TCP_ROUTES=true`.
    pub tcp: Option<L4Config>,
    /// Raw UDP resources. Translated to Gateway API `UDPRoute` when
    /// `CONFIG_ENABLE_UDP_ROUTES=true`.
    pub udp: Option<L4Config>,
}

/// Shared shape of Traefik's `tcp` and `udp` dynamic-config blocks as pangolin
/// emits them for "raw" resources.
pub struct L4Config {
    pub routers: StrMap<L4Router>,
    pub services: StrMap<L4Service>,
}

pub struct L4Router {
    /// TCP routers carry ``HostSNI(`*`)``; UDP routers have no rule at all.
    pub rule: Option<String>,
    pub service: String,
    /// Pangolin encodes the public port in the entrypoint name: `tcp-<port>` / `udp-<port>`.
    pub entry_points: Vec<String>,
    /// TLS passthrough options. Presence means the router needs TLSRoute
    /// semantics, which are not supported; kept opaque.
    pub tls: Option<Json>,
}

pub struct L4Service {
    pub load_balancer: Option<L4LoadBalancer>,
    /// Unhandled.
    pub weighted: Option<Json>,
}

pub struct L4LoadBalancer {
    pub servers: Vec<L4Server>,
}

pub struct L4Server {
    /// Traefik L4 servers use `address` (`host:port`), not the HTTP `url` field.
    /// Pangolin has been seen emitting a stray scheme prefix here.
    pub address: String,
}

pub struct HttpConfig {
    pub routers: StrMap<Router>,
    pub services: StrMap<Service>,
    pub middlewares: StrMap<Middleware>,
    pub servers_transports: StrMap<Json>,
}

pub struct Router {
    pub rule: String,
    pub service: String,
    pub middlewares: Vec<String>,
    pub entry_points: Vec<String>,
    pub priority: Option<i64>,
    pub tls: Option<RouterTls>,
}

pub struct RouterTls {
    pub cert_resolver: Option<String>,
    pub domains: Vec<TlsDomain>,
}

pub struct TlsDomain {
    pub main: Option<String>,
    pub sans: Vec<String>,
}

pub struct Service {
    pub load_balancer: Option<LoadBalancer>,
    /// Unhandled.
    pub weighted: Option<Json>,
    /// Unhandled.
    pub mirroring: Option<Json>,
}

pub struct LoadBalancer {
    pub servers: Vec<LoadBalancerServer>,
    pub sticky: Option<Json>,
    pub servers_transport: Option<String>,
    pub pass_host_header: Option<bool>,
}

pub struct LoadBalancerServer {
    /// Pangolin emits servers as `{ url: "http://10.0.0.5:8080" }`.
    pub url: String,
}

/// Each middleware is one of many disjoint variants in Traefik. The untyped JSON body
/// is kept so that the transform layer can switch on whichever key is present.
pub struct Middleware(pub Json);

impl Middleware {
    pub fn as_object(&self) -> (r: Option<&StrMap<Json>>)
        ensures
            match r {
                Some(map) => self.0.members() == Some(*map),
                None => self.0.members() is None,
            },
    {
        self.0.as_object()
    }
}

} // verus!

//! Emit one Envoy Gateway `SecurityPolicy` per badger-protected HTTPRoute.
//!
//! Pangolin enforces resource auth (SSO, password, PIN, access rules) through
//! its `badger` Traefik plugin. Envoy can't run Traefik plugins, but badger is
//! semantically an auth check and a redirect, which is exactly Envoy's HTTP external
//! authorization model. The operator points `CONFIG_EXT_AUTHZ_SERVICE` at a
//! service speaking that protocol and the controller wires every protected
//! route to it. `failOpen` is always false: if the auth service is down,
//! protected resources stay closed.

use vstd::prelude::*;
use vstd::string::*;

use crate::apply::{managed_metadata, metadata, owner_labels};
use crate::config::{Config, ConfigView, ExtAuthzConfig, ExtAuthzConfigView};
use crate::envoy_gateway::{
    ExtAuth, ExtAuthBackendRef, ExtAuthBackendRefView, ExtAuthView, HttpExtAuthService,
    HttpExtAuthServiceView, PolicyTargetRef, PolicyTargetRefView, SecurityPolicy,
    SecurityPolicySpec, SecurityPolicySpecView, SecurityPolicyView,
};
use crate::text;
use crate::transform::naming::{prefixed, prefixed_label};

verus! {

/// The name of the policy of a route.
pub open spec fn policy_name(route_name: Seq<char>) -> Seq<char> {
    prefixed("sp"@, route_name)
}

/// An empty list is left out.
pub open spec fn unless_empty(v: Seq<Seq<char>>) -> Option<Seq<Seq<char>>> {
    if v.len() == 0 {
        None
    } else {
        Some(v)
    }
}

pub open spec fn security_policy(
    cfg: ConfigView,
    ea: ExtAuthzConfigView,
    route_name: Seq<char>,
) -> SecurityPolicyView {
    SecurityPolicyView {
        metadata: metadata(cfg, policy_name(route_name)),
        spec: SecurityPolicySpecView {
            target_refs: seq![
                PolicyTargetRefView {
                    group: "gateway.networking.k8s.io"@,
                    kind: "HTTPRoute"@,
                    name: route_name,
                },
            ],
            ext_auth: Some(
                ExtAuthView {
                    http: Some(
                        HttpExtAuthServiceView {
                            backend_refs: seq![
                                ExtAuthBackendRefView {
                                    name: ea.service,
                                    namespace: ea.namespace,
                                    port: Some(ea.port),
                                },
                            ],
                            path: ea.path,
                            headers_to_backend: unless_empty(ea.headers_to_backend),
                        },
                    ),
                    headers_to_ext_auth: unless_empty(ea.headers_to_ext_auth),
                    fail_open: Some(false),
                },
            ),
        },
    }
}

fn non_empty(v: &Vec<String>) -> (r: Option<Vec<String>>)
    ensures
        r.deep_view() == unless_empty(v.deep_view()),
{
    if v.len() == 0 {
        None
    } else {
        Some(text::copy_all(v))
    }
}

/// Policy protecting the HTTPRoute named `route_name`. The policy name is
/// derived from the route name so route GC and policy GC stay in lockstep.
pub fn build_security_policy(cfg: &Config, ea: &ExtAuthzConfig, route_name: &str) -> (r:
    SecurityPolicy)
    ensures
        r.deep_view() == security_policy(cfg.deep_view(), ea.deep_view(), route_name@),
{
    let name = prefixed_label("sp", route_name);
    let labels = owner_labels(cfg, name.as_str());
    let target = PolicyTargetRef {
        group: "gateway.networking.k8s.io".to_owned(),
        kind: "HTTPRoute".to_owned(),
        name: route_name.to_owned(),
    };
    let target_refs = vec![target];
    let backend = ExtAuthBackendRef {
        name: ea.service.clone(),
        namespace: text::copy_opt(&ea.namespace),
        port: Some(ea.port),
    };
    let backend_refs = vec![backend];
    proof {
        text::lemma_one(target_refs, target);
        text::lemma_one(backend_refs, backend);
    }
    SecurityPolicy {
        metadata: managed_metadata(cfg, name.as_str(), labels),
        spec: SecurityPolicySpec {
            target_refs,
            ext_auth: Some(
                ExtAuth {
                    http: Some(
                        HttpExtAuthService {
                            backend_refs,
                            path: text::copy_opt(&ea.path),
                            headers_to_backend: non_empty(&ea.headers_to_backend),
                        },
                    ),
                    headers_to_ext_auth: non_empty(&ea.headers_to_ext_auth),
                    fail_open: Some(false),
                },
            ),
        },
    }
}

} // verus!

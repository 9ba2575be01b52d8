//! Verified core of a Kubernetes controller that turns Pangolin's Traefik
//! dynamic configuration into Gateway API objects.

pub mod apply;
pub mod config;
pub mod digest;
pub mod duration;
pub mod duration_laws;
pub mod envoy_gateway;
pub mod gateway;
pub mod gc;
pub mod health;
pub mod ip;
pub mod ip_laws;
pub mod json;
pub mod kubernetes;
pub mod loop_laws;
pub mod pangolin;
pub mod reconcile;
pub mod shim;
pub mod shim_laws;
pub mod strmap;
pub mod text;
pub mod text_laws;
pub mod transform;
pub mod urls;

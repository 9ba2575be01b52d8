//! Pangolin's Traefik provider: what it answers and how an answer is taken.

pub mod client;
pub mod types;

pub use crate::pangolin::client::FetchOutcome;
pub use crate::pangolin::types::TraefikDynamicConfig;

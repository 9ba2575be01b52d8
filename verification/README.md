# pangolin-gateway-controller

A Kubernetes controller that polls [Pangolin]'s Traefik dynamic configuration and turns it
into [Gateway API] objects for [Envoy Gateway], together with the ext-authz shim that lets
Envoy ask pangolin's badger API about sessions. The decisions are made in a library that
[Verus] verifies; the program around it only talks to the network.

## Layout

| Path | What it holds |
|---|---|
| `src/transform/` | rules, middlewares, backends, routes, listeners and policies: from a Traefik configuration to the desired objects; `notices.rs` says which routers are skipped and why, and `laws.rs` states what holds of every desired set |
| `src/config/` | the settings, read from environment variables, and the reconcile scope |
| `src/reconcile.rs`, `src/gc.rs`, `src/apply.rs`, `src/health.rs` | the poll loop as a state machine, the order of applying, garbage collection, readiness |
| `src/pangolin/` | Traefik's configuration types, and how an answer of pangolin is taken |
| `src/shim.rs` | the authorization check, step by step |
| `src/kubernetes.rs`, `src/gateway.rs`, `src/envoy_gateway.rs` | the objects that are written |
| `src/text.rs`, `src/strmap.rs`, `src/ip.rs`, `src/json.rs`, `src/urls.rs`, `src/duration.rs`, `src/digest.rs` | texts, ordered maps, addresses, JSON, URLs, durations and digests |
| `app/` | the program: HTTP, Kubernetes, signals, and conversions between types |
| `tests/` | tests of the library on concrete values |

Each type that a contract speaks of has a ghost twin, named with `View`, and a `deep_view`
from the one to the other. A function's contract says what its result is under that view;
public proof functions named `law_…` state what holds across functions.

## What is not proved

A few functions call other crates and are believed by contract: `url` (URLs and query
strings), `humantime` (durations), `sha2` and `hex` (digests), `axum` (header values), and
of the standard library the `{:?}` form of texts and characters and `String::push`. Each
says in its doc comment what is claimed.

[Pangolin]: https://github.com/fosrl/pangolin
[Gateway API]: https://gateway-api.sigs.k8s.io/
[Envoy Gateway]: https://gateway.envoyproxy.io/
[Verus]: https://github.com/verus-lang/verus

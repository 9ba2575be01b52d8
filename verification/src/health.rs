//! Liveness and readiness of the controller binary.
//!
//! `/healthz` answers 200 as long as the process serves HTTP (liveness).
//! `/readyz` answers 200 once the controller has completed one successful
//! pangolin poll cycle, 503 before that (readiness). The flag is sticky:
//! transient pangolin outages after startup do not flip the pod unready.

use vstd::prelude::*;
use vstd::string::*;

verus! {

/// Whether one poll cycle has succeeded.
pub struct Readiness {
    ready: bool,
}

impl View for Readiness {
    type V = bool;

    closed spec fn view(&self) -> bool {
        self.ready
    }
}

impl Readiness {
    pub fn new() -> (r: Readiness)
        ensures
            !r@,
    {
        Readiness { ready: false }
    }

    /// Nothing takes the flag back.
    pub fn set_ready(&mut self)
        ensures
            final(self)@,
    {
        self.ready = true;
    }

    pub fn is_ready(&self) -> (r: bool)
        ensures
            r == self@,
    {
        self.ready
    }
}

impl Default for Readiness {
    fn default() -> (r: Self)
        ensures
            !r@,
    {
        Readiness::new()
    }
}

/// The answer of `/healthz`: status and body.
pub fn healthz() -> (r: (u16, &'static str))
    ensures
        r.0 == 200,
        r.1@ == "ok"@,
{
    (200, "ok")
}

/// The answer of `/readyz`: status and body.
pub fn readyz(ready: &Readiness) -> (r: (u16, &'static str))
    ensures
        r.0 == if ready@ {
            200u16
        } else {
            503u16
        },
        r.1@ == if ready@ {
            "ready"@
        } else {
            "waiting for first successful reconcile"@
        },
{
    if ready.is_ready() {
        (200, "ready")
    } else {
        (503, "waiting for first successful reconcile")
    }
}

} // verus!

use vstd::prelude::*;

verus! {

/// Reachability classification of a backend server. The load balancer never
/// forwards a client request to a backend it currently considers unhealthy.
#[derive(Clone, Copy, Debug, PartialEq, Eq, Structural)]
pub enum Health {
    Healthy,
    Unhealthy,
}

} // verus!

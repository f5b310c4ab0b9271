use vstd::prelude::*;

use crate::health::Health;

verus! {

/// A backend server for a geography-aware policy: like the plain backend,
/// but carrying a weight for a future weighted selection. The weight is
/// not consulted yet.
#[derive(Debug)]
pub struct GeoBackend {
    /// Address prefix of the backend server, for example
    /// `http://localhost:8081/`.
    pub address: String,
    /// Weight of the backend server; the higher, the more requests it
    /// would receive once weighted selection exists.
    pub weight: u32,
    /// Health observed on the last probe or forward.
    pub health: Health,
}

impl Clone for GeoBackend {
    fn clone(&self) -> (r: Self)
        ensures
            r == *self,
    {
        GeoBackend { address: self.address.clone(), weight: self.weight, health: self.health }
    }
}

impl GeoBackend {
    /// A backend at `address` with the given weight and initial health.
    pub fn new(address: String, weight: u32, health: Health) -> (r: Self)
        ensures
            r.address == address,
            r.weight == weight,
            r.health == health,
    {
        GeoBackend { address, weight, health }
    }

    /// Health observed on the last probe or forward.
    pub fn health(&self) -> (r: Health)
        ensures
            r == self.health,
    {
        self.health
    }

    /// Publishes what one probe or forward observed: reachable at the
    /// transport level means healthy, unreachable means unhealthy.
    pub fn record_reachability(&mut self, reachable: bool)
        ensures
            final(self).address == old(self).address,
            final(self).weight == old(self).weight,
            final(self).health == (if reachable {
                Health::Healthy
            } else {
                Health::Unhealthy
            }),
    {
        if reachable {
            self.health = Health::Healthy;
        } else {
            self.health = Health::Unhealthy;
        }
    }
}

} // verus!

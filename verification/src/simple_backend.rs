use vstd::prelude::*;

use crate::health::Health;
use crate::outcome::{ForwardOutcome, ProbeOutcome};

verus! {

/// A backend server the load balancer can forward requests to. The address
/// is fixed for the life of the value; health and response time are
/// republished after every probe or forward.
#[derive(Debug)]
pub struct SimpleBackend {
    /// Address prefix of the backend server: protocol, hostname, port and a
    /// trailing slash, for example `http://localhost:8081/`. The health
    /// endpoint is reached at this address with `health` appended.
    pub address: String,
    /// Health observed on the last probe or forward.
    pub health: Health,
    /// Round trip of the last probe or forward in milliseconds; 0 before the
    /// first observation.
    pub response_time_ms: u64,
}

/// The state a backend publishes after one probe or forward: reachable at
/// the transport level means healthy (whatever the response status),
/// unreachable means unhealthy, and the observed round trip replaces the
/// stored response time either way.
pub open spec fn recorded(b: SimpleBackend, reachable: bool, elapsed_ms: u64) -> SimpleBackend {
    SimpleBackend {
        health: if reachable {
            Health::Healthy
        } else {
            Health::Unhealthy
        },
        response_time_ms: elapsed_ms,
        ..b
    }
}

impl Clone for SimpleBackend {
    fn clone(&self) -> (r: Self)
        ensures
            r == *self,
    {
        SimpleBackend {
            address: self.address.clone(),
            health: self.health,
            response_time_ms: self.response_time_ms,
        }
    }
}

impl SimpleBackend {
    /// A fresh backend at `address` with the given initial health and no
    /// response time observed yet.
    pub fn new(address: String, health: Health) -> (r: Self)
        ensures
            r.address == address,
            r.health == health,
            r.response_time_ms == 0,
    {
        SimpleBackend { address, health, response_time_ms: 0 }
    }

    /// Health observed on the last probe or forward.
    pub fn health(&self) -> (r: Health)
        ensures
            r == self.health,
    {
        self.health
    }

    /// Round trip of the last probe or forward in milliseconds.
    pub fn response_time_ms(&self) -> (r: u64)
        ensures
            r == self.response_time_ms,
    {
        self.response_time_ms
    }

    /// The backend's address prefix.
    pub fn address(&self) -> (r: &str)
        ensures
            r@ == self.address@,
    {
        self.address.as_str()
    }

    /// Publishes the state updates of one health probe: the caller performed
    /// a GET against the health endpoint and hands back what it observed.
    pub fn record_probe(&mut self, outcome: &ProbeOutcome)
        ensures
            *final(self) == recorded(*old(self), outcome.reachable, outcome.elapsed_ms),
    {
        self.response_time_ms = outcome.elapsed_ms;
        if outcome.reachable {
            self.health = Health::Healthy;
        } else {
            self.health = Health::Unhealthy;
        }
    }

    /// Publishes the state updates of one forwarded request: success makes
    /// the backend healthy, a transport failure makes it unhealthy, and the
    /// observed round trip is stored either way.
    pub fn record_forward(&mut self, outcome: &ForwardOutcome)
        ensures
            *final(self) == recorded(*old(self), outcome.is_success(), outcome.elapsed()),
    {
        match outcome {
            ForwardOutcome::Success { elapsed_ms, .. } => {
                self.response_time_ms = *elapsed_ms;
                self.health = Health::Healthy;
            },
            ForwardOutcome::Failure { elapsed_ms } => {
                self.response_time_ms = *elapsed_ms;
                self.health = Health::Unhealthy;
            },
        }
    }
}

} // verus!

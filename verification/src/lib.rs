//! A verified core for an HTTP reverse-proxying load balancer.
//!
//! The library holds the backend-pool state machine: per-backend health and
//! response-time state, two selection policies (round-robin and
//! least-response-time), health refresh, and request-level failover. All
//! network I/O happens outside the library; callers perform each probe or
//! forward and hand the observed outcome back as a plain value, and every
//! decision taken on those outcomes is verified here.

pub mod continent;
pub mod dispatcher;
pub mod geo_backend;
pub mod health;
pub mod internal_error;
pub mod least_response_load_balancer;
pub mod min_heap_item;
pub mod min_queue;
pub mod origin_state;
pub mod outcome;
pub mod round_robin_load_balancer;
pub mod scheduler;
pub mod simple_backend;
pub mod strings;

use vstd::prelude::*;

verus! {

/// What one health probe of a backend observed: whether any response came
/// back at the transport level (any status counts as reachable), and the
/// elapsed round trip in milliseconds.
#[derive(Clone, Copy, Debug, PartialEq, Eq, Structural)]
pub struct ProbeOutcome {
    pub reachable: bool,
    pub elapsed_ms: u64,
}

/// What one forward of a client request to a backend observed.
#[derive(Debug)]
pub enum ForwardOutcome {
    /// A response arrived; `body` is its text, decoded lossily if need be.
    Success { elapsed_ms: u64, body: String },
    /// The transport failed (connection refused, DNS failure, timeout).
    Failure { elapsed_ms: u64 },
}

impl ForwardOutcome {
    /// Whether the forward reached the backend at the transport level.
    pub open spec fn is_success(self) -> bool {
        self matches ForwardOutcome::Success { .. }
    }

    /// The elapsed round trip, observed on success and failure alike.
    pub open spec fn elapsed(self) -> u64 {
        match self {
            ForwardOutcome::Success { elapsed_ms, .. } => elapsed_ms,
            ForwardOutcome::Failure { elapsed_ms } => elapsed_ms,
        }
    }

    /// The response body of a successful forward; empty for a failure.
    pub open spec fn body(self) -> Seq<char> {
        match self {
            ForwardOutcome::Success { body, .. } => body@,
            ForwardOutcome::Failure { .. } => Seq::empty(),
        }
    }
}

} // verus!

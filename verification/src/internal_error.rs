use vstd::prelude::*;

verus! {

/// The two ways a request dispatch can fail: either no backend is left to
/// try, or the selected backend's forward failed at the transport level.
#[derive(Clone, Copy, Debug, PartialEq, Eq, Structural)]
pub enum InternalError {
    NoBackendAvailable,
    BackendUnreachable,
}

impl InternalError {
    /// The message this error displays in logs.
    pub fn message(&self) -> (r: String)
        ensures
            *self == InternalError::NoBackendAvailable ==> r@ == "No load balancer available"@,
            *self == InternalError::BackendUnreachable ==> r@ == "Backend server unreachable"@,
    {
        match self {
            InternalError::NoBackendAvailable => "No load balancer available".to_owned(),
            InternalError::BackendUnreachable => "Backend server unreachable".to_owned(),
        }
    }
}

} // verus!

use vstd::prelude::*;

use crate::internal_error::InternalError;

verus! {

/// Translates a policy's result into the HTTP reply the client sees: a
/// backend's body passes through verbatim with status 200, and either
/// failure — no backend available, or the chosen backend unreachable —
/// becomes a 500 with a fixed message; telling the two apart is a logging
/// concern only.
pub fn dispatch_response(result: Result<String, InternalError>) -> (r: (u16, String))
    ensures
        (match result {
            Ok(body) => r.0 == 200 && r.1@ == body@,
            Err(_) => r.0 == 500 && r.1@ == "Failed to send request to backend server"@,
        }),
{
    match result {
        Ok(body) => (200, body),
        Err(_) => (500, "Failed to send request to backend server".to_owned()),
    }
}

} // verus!

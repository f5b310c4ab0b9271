use vstd::prelude::*;

use vstd::string::StringExecFns;

verus! {

/// The state of a demo origin server: its name, how often it has been
/// called, and an artificial delay before each reply, for testing the
/// least-response policy against slow backends.
#[derive(Debug)]
pub struct State {
    /// Name of the backend server, echoed in every reply.
    pub name: String,
    /// Number of requests served so far.
    pub times_called: u64,
    /// Delay in milliseconds before responding to a request.
    pub delay_ms: u64,
}

impl State {
    /// A fresh server state that has served no request yet.
    pub fn new(name: String, delay_ms: u64) -> (r: Self)
        ensures
            r.name == name,
            r.times_called == 0,
            r.delay_ms == delay_ms,
    {
        State { name, times_called: 0, delay_ms }
    }

    /// Counts one served request.
    pub fn record_call(&mut self)
        requires
            old(self).times_called < u64::MAX,
        ensures
            final(self).times_called == old(self).times_called + 1,
            final(self).name == old(self).name,
            final(self).delay_ms == old(self).delay_ms,
    {
        self.times_called = self.times_called + 1;
    }

    /// The body the server replies with: a hello message carrying its
    /// name.
    pub fn greeting(&self) -> (r: String)
        ensures
            r@ == "Hello from backend server: "@ + self.name@,
    {
        let mut r = "Hello from backend server: ".to_owned();
        r.append(self.name.as_str());
        r
    }
}

} // verus!

use vstd::prelude::*;

use vstd::arithmetic::div_mod::{
    lemma_add_mod_noop_right, lemma_basic_div, lemma_div_plus_one,
    lemma_fundamental_div_mod_converse_mod, lemma_mod_add_multiples_vanish,
    lemma_mod_division_less_than_divisor, lemma_small_mod,
};

use crate::internal_error::InternalError;
use crate::outcome::{ForwardOutcome, ProbeOutcome};
use crate::simple_backend::{recorded, SimpleBackend};

verus! {

/// One selection pass in flight: `pending` is the backend just issued for
/// probing, `tried` how many candidates this pass has already rejected.
/// The counter is scoped to the pass, so concurrent selections cannot
/// starve each other. A candidate rejected by its probe and a chosen
/// backend whose forward failed both count against `tried`, so one call
/// attempts each backend at most once whichever way it is rejected;
/// `forward_failed` remembers whether some forward already failed this
/// call, which decides the error once the pass runs out of backends.
#[derive(Clone, Copy, Debug, PartialEq, Eq, Structural)]
pub struct Selection {
    pub pending: usize,
    pub tried: usize,
    pub forward_failed: bool,
}

/// What a selection pass asks of its driver next: probe another candidate,
/// forward to the chosen backend (the candidate inside the carried
/// `Selection`), or give up with the error to report because every
/// backend has been tried this call.
#[derive(Clone, Copy, Debug, PartialEq, Eq, Structural)]
pub enum SelectStep {
    Probe(Selection),
    Chosen(Selection),
    Failed(InternalError),
}

/// What a request is up to after one forward attempt: done with the
/// response body, failing over — probe the next candidate and carry on
/// the same pass — or failed because every backend has been tried this
/// call.
#[derive(Debug)]
pub enum SendStep {
    Done(String),
    Probe(Selection),
    Failed(InternalError),
}

/// Sends each request to the next backend in cyclic order, skipping
/// backends whose probe just failed. All backends stay in the pool
/// whatever their health; unhealthy ones are skipped at selection time.
/// A forward that fails mid-request does not end it: the pass resumes
/// with the next candidate until a backend succeeds or every backend has
/// been tried this call.
///
/// The caller performs the network I/O: it asks for a candidate, probes
/// it, hands the outcome back, and either forwards to the chosen backend
/// or probes the next candidate.
#[derive(Debug)]
pub struct RoundRobinLoadBalancer {
    backends: Vec<SimpleBackend>,
    current_backend_index: usize,
}

impl RoundRobinLoadBalancer {
    /// The pool in configuration order.
    pub closed spec fn backends_view(self) -> Seq<SimpleBackend> {
        self.backends@
    }

    /// The cursor: index of the backend the next selection will try first.
    pub closed spec fn cursor(self) -> int {
        self.current_backend_index as int
    }

    /// The cursor stays inside the pool whenever the pool is non-empty.
    pub open spec fn wf(self) -> bool {
        self.backends_view().len() > 0 ==> 0 <= self.cursor() < self.backends_view().len()
    }

    /// A selection pass that may still be stepped against this pool.
    pub open spec fn valid_selection(self, sel: Selection) -> bool {
        sel.pending < self.backends_view().len() && sel.tried < self.backends_view().len()
    }

    /// A balancer over the given pool, with the cursor on the first
    /// backend.
    pub fn new(backends: Vec<SimpleBackend>) -> (r: Self)
        ensures
            r.backends_view() == backends@,
            r.cursor() == 0,
            r.wf(),
    {
        RoundRobinLoadBalancer { backends, current_backend_index: 0 }
    }

    /// How many backends the pool holds.
    pub fn backend_count(&self) -> (r: usize)
        ensures
            r == self.backends_view().len(),
    {
        self.backends.len()
    }

    /// The backend at position `i` of the pool.
    pub fn backend(&self, i: usize) -> (r: &SimpleBackend)
        requires
            i < self.backends_view().len(),
        ensures
            *r == self.backends_view()[i as int],
    {
        &self.backends[i]
    }

    /// Starts one selection pass: the candidate is the backend under the
    /// cursor, and the cursor advances cyclically. An empty pool fails as
    /// `NoBackendAvailable` — the pass is over before it began.
    pub fn next_available_backend_begin(&mut self) -> (r: Result<Selection, InternalError>)
        requires
            old(self).wf(),
        ensures
            final(self).wf(),
            final(self).backends_view() == old(self).backends_view(),
            old(self).backends_view().len() == 0 ==> r == Err::<Selection, InternalError>(
                InternalError::NoBackendAvailable,
            ) && *final(self) == *old(self),
            old(self).backends_view().len() > 0 ==> (match r {
                Ok(sel) => {
                    &&& sel.pending as int == old(self).cursor()
                    &&& sel.tried == 0
                    &&& !sel.forward_failed
                    &&& old(self).valid_selection(sel)
                    &&& final(self).cursor() == (old(self).cursor() + 1) % (
                    old(self).backends_view().len() as int)
                },
                Err(_) => false,
            }),
    {
        let n = self.backends.len();
        if n == 0 {
            return Err(InternalError::NoBackendAvailable);
        }
        let pending = self.current_backend_index;
        self.current_backend_index = (self.current_backend_index + 1) % n;
        Ok(Selection { pending, tried: 0, forward_failed: false })
    }

    /// Steps a selection pass with the outcome of the probe it asked for.
    /// The probed backend records the outcome. A reachable backend is
    /// chosen; otherwise the pass moves to the backend under the cursor,
    /// until every backend has been tried once this call — only then does
    /// the pass fail, as `BackendUnreachable` when some forward already
    /// failed during this call and as `NoBackendAvailable` otherwise.
    pub fn next_available_backend_step(&mut self, sel: Selection, outcome: &ProbeOutcome) -> (r:
        SelectStep)
        requires
            old(self).wf(),
            old(self).valid_selection(sel),
        ensures
            final(self).wf(),
            final(self).backends_view() == old(self).backends_view().update(
                sel.pending as int,
                recorded(
                    old(self).backends_view()[sel.pending as int],
                    outcome.reachable,
                    outcome.elapsed_ms,
                ),
            ),
            outcome.reachable ==> r == SelectStep::Chosen(sel) && final(self).cursor() == old(
                self,
            ).cursor(),
            !outcome.reachable && sel.tried + 1 == old(self).backends_view().len()
                ==> r == SelectStep::Failed(
                if sel.forward_failed {
                    InternalError::BackendUnreachable
                } else {
                    InternalError::NoBackendAvailable
                },
            ) && final(self).cursor() == old(self).cursor(),
            !outcome.reachable && sel.tried + 1 < old(self).backends_view().len() ==> {
                &&& r == SelectStep::Probe(
                    Selection {
                        pending: old(self).cursor() as usize,
                        tried: (sel.tried + 1) as usize,
                        forward_failed: sel.forward_failed,
                    },
                )
                &&& final(self).cursor() == (old(self).cursor() + 1) % (
                old(self).backends_view().len() as int)
                &&& final(self).valid_selection(
                    Selection {
                        pending: old(self).cursor() as usize,
                        tried: (sel.tried + 1) as usize,
                        forward_failed: sel.forward_failed,
                    },
                )
            },
    {
        let n = self.backends.len();
        let probed = vstd::std_specs::vec::vec_index_mut(&mut self.backends, sel.pending);
        probed.record_probe(outcome);
        if outcome.reachable {
            SelectStep::Chosen(sel)
        } else if sel.tried + 1 == n {
            SelectStep::Failed(
                if sel.forward_failed {
                    InternalError::BackendUnreachable
                } else {
                    InternalError::NoBackendAvailable
                },
            )
        } else {
            let pending = self.current_backend_index;
            self.current_backend_index = (self.current_backend_index + 1) % n;
            SelectStep::Probe(
                Selection { pending, tried: sel.tried + 1, forward_failed: sel.forward_failed },
            )
        }
    }

    /// Settles one forward attempt of the chosen backend `sel.pending`,
    /// which records the outcome either way. A response body ends the
    /// request. A transport failure does not end the request while
    /// untried backends remain: the failed backend — now recorded
    /// Unhealthy — counts against `tried`, and the pass resumes with the
    /// backend under the cursor, so the failover stays within this call's
    /// each-backend-at-most-once bound. Only with every backend tried
    /// does the request fail, as `BackendUnreachable`.
    pub fn send_request_finish(&mut self, sel: Selection, outcome: ForwardOutcome) -> (r: SendStep)
        requires
            old(self).wf(),
            old(self).valid_selection(sel),
        ensures
            final(self).wf(),
            final(self).backends_view() == old(self).backends_view().update(
                sel.pending as int,
                recorded(
                    old(self).backends_view()[sel.pending as int],
                    outcome.is_success(),
                    outcome.elapsed(),
                ),
            ),
            outcome.is_success() ==> (match r {
                SendStep::Done(body) => body@ == outcome.body() && final(self).cursor() == old(
                    self,
                ).cursor(),
                _ => false,
            }),
            !outcome.is_success() && sel.tried + 1 == old(self).backends_view().len()
                ==> r == SendStep::Failed(InternalError::BackendUnreachable) && final(self).cursor()
                == old(self).cursor(),
            !outcome.is_success() && sel.tried + 1 < old(self).backends_view().len() ==> {
                &&& r == SendStep::Probe(
                    Selection {
                        pending: old(self).cursor() as usize,
                        tried: (sel.tried + 1) as usize,
                        forward_failed: true,
                    },
                )
                &&& final(self).cursor() == (old(self).cursor() + 1) % (
                old(self).backends_view().len() as int)
                &&& final(self).valid_selection(
                    Selection {
                        pending: old(self).cursor() as usize,
                        tried: (sel.tried + 1) as usize,
                        forward_failed: true,
                    },
                )
            },
    {
        let n = self.backends.len();
        let forwarded = vstd::std_specs::vec::vec_index_mut(&mut self.backends, sel.pending);
        forwarded.record_forward(&outcome);
        match outcome {
            ForwardOutcome::Success { body, .. } => SendStep::Done(body),
            ForwardOutcome::Failure { .. } => {
                if sel.tried + 1 == n {
                    SendStep::Failed(InternalError::BackendUnreachable)
                } else {
                    let pending = self.current_backend_index;
                    self.current_backend_index = (self.current_backend_index + 1) % n;
                    SendStep::Probe(Selection { pending, tried: sel.tried + 1, forward_failed: true })
                }
            },
        }
    }

    /// Refreshes the whole pool: every backend records the outcome of its
    /// probe, in configuration order. Membership does not change — the
    /// cursor skips unhealthy backends at selection time instead.
    pub fn check_backends_healths(&mut self, outcomes: &Vec<ProbeOutcome>)
        requires
            old(self).wf(),
            outcomes@.len() == old(self).backends_view().len(),
        ensures
            final(self).wf(),
            final(self).cursor() == old(self).cursor(),
            final(self).backends_view().len() == old(self).backends_view().len(),
            forall|i: int|
                0 <= i < old(self).backends_view().len() ==> final(self).backends_view()[i]
                    == recorded(
                    old(self).backends_view()[i],
                    outcomes@[i].reachable,
                    outcomes@[i].elapsed_ms,
                ),
    {
        let n = self.backends.len();
        let mut i: usize = 0;
        while i < n
            invariant
                n == self.backends_view().len(),
                n == old(self).backends_view().len(),
                outcomes@.len() == n,
                i <= n,
                self.cursor() == old(self).cursor(),
                self.wf(),
                forall|j: int|
                    0 <= j < i ==> self.backends_view()[j] == recorded(
                        old(self).backends_view()[j],
                        outcomes@[j].reachable,
                        outcomes@[j].elapsed_ms,
                    ),
                forall|j: int| i <= j < n ==> self.backends_view()[j] == old(self).backends_view()[j],
            decreases n - i,
        {
            let probed = vstd::std_specs::vec::vec_index_mut(&mut self.backends, i);
            probed.record_probe(&outcomes[i]);
            i += 1;
        }
    }
}

/// The backend the `j`-th selection of a pass sequence chooses when every
/// backend is healthy. `next_available_backend_begin` hands out the cursor
/// and advances it cyclically, and a reachable probe makes the step choose
/// that candidate at once — so from cursor `c0`, selection `j` chooses
/// backend `(c0 + j) % n`.
pub open spec fn selection_order(c0: int, n: int, j: int) -> int {
    (c0 + j) % n
}

/// How often backend `b` is chosen over the first `k` consecutive
/// selections, all backends healthy, starting from cursor `c0`.
pub open spec fn times_selected(c0: int, n: int, b: int, k: nat) -> int
    decreases k,
{
    if k == 0 {
        0
    } else {
        times_selected(c0, n, b, (k - 1) as nat) + if selection_order(c0, n, k - 1) == b {
            1int
        } else {
            0int
        }
    }
}

/// How many selections it takes, starting from cursor `c0`, before backend
/// `b` comes up: its cyclic distance from the cursor.
pub open spec fn gap(c0: int, b: int, n: int) -> int {
    if b >= c0 {
        b - c0
    } else {
        b - c0 + n
    }
}

/// Ties the chosen-backend formula to the cursor recurrence of the
/// machine: the next selection's choice is one step past this selection's,
/// cyclically — exactly how `next_available_backend_begin` advances the
/// cursor.
pub proof fn lemma_selection_order_step(c0: int, n: int, j: int)
    requires
        0 <= c0 < n,
        0 <= j,
    ensures
        selection_order(c0, n, j + 1) == (selection_order(c0, n, j) + 1) % n,
{
    lemma_add_mod_noop_right(1, c0 + j, n);
}

/// The chosen backend written without the modulo: the pass walks from the
/// cursor to the end of the pool, then wraps to the front.
proof fn lemma_selection_order_explicit(c0: int, n: int, j: int)
    requires
        0 <= c0 < n,
        0 <= j < n,
    ensures
        selection_order(c0, n, j) == if c0 + j < n {
            c0 + j
        } else {
            c0 + j - n
        },
{
    if c0 + j < n {
        lemma_small_mod((c0 + j) as nat, n as nat);
    } else {
        assert(1 * n + (c0 + j - n) == c0 + j) by (nonlinear_arith);
        lemma_fundamental_div_mod_converse_mod(c0 + j, n, 1, c0 + j - n);
    }
}

/// A pass never tries the same backend twice: the candidate for tried
/// count `t` is `(c0 + t) % n` whether the previous candidate was
/// rejected by its probe or by a failed forward, and these are pairwise
/// distinct — so each backend is attempted at most once per call, probes
/// and forwards together.
pub proof fn lemma_candidates_distinct(c0: int, n: int, j1: int, j2: int)
    requires
        0 <= c0 < n,
        0 <= j1 < j2 < n,
    ensures
        selection_order(c0, n, j1) != selection_order(c0, n, j2),
{
    lemma_selection_order_explicit(c0, n, j1);
    lemma_selection_order_explicit(c0, n, j2);
}

/// Selection `j` of a pass sequence chooses backend `b` exactly when `j`
/// equals `b`'s cyclic distance from the starting cursor — so within any
/// window of fewer than `n` selections each backend comes up at most once.
proof fn lemma_hit_iff(c0: int, n: int, b: int, j: int)
    requires
        0 <= c0 < n,
        0 <= b < n,
        0 <= j < n,
    ensures
        (selection_order(c0, n, j) == b) <==> (j == gap(c0, b, n)),
{
    lemma_selection_order_explicit(c0, n, j);
}

/// Over at most one cycle, backend `b` is chosen once if the window is
/// long enough to reach it and not at all otherwise.
proof fn lemma_times_selected_one_cycle(c0: int, n: int, b: int, m: nat)
    requires
        0 <= c0 < n,
        0 <= b < n,
        m <= n,
    ensures
        times_selected(c0, n, b, m) == if gap(c0, b, n) < m {
            1int
        } else {
            0int
        },
    decreases m,
{
    if m > 0 {
        lemma_times_selected_one_cycle(c0, n, b, (m - 1) as nat);
        lemma_hit_iff(c0, n, b, m - 1);
    }
}

/// Counting selections splits at any point: the tail counts as if it were
/// a fresh sequence starting from the cursor the head leaves behind.
proof fn lemma_times_selected_split(c0: int, n: int, b: int, k1: nat, k2: nat)
    requires
        0 <= c0 < n,
        0 <= b < n,
    ensures
        times_selected(c0, n, b, (k1 + k2) as nat) == times_selected(c0, n, b, k1)
            + times_selected((c0 + k1) % (n as int), n, b, k2),
    decreases k2,
{
    lemma_mod_division_less_than_divisor(c0 + k1, n);
    let c1 = (c0 + k1) % (n as int);
    if k2 > 0 {
        lemma_times_selected_split(c0, n, b, k1, (k2 - 1) as nat);
        lemma_add_mod_noop_right(k2 - 1, c0 + k1, n);
        assert(selection_order(c0, n, k1 + k2 - 1) == selection_order(c1, n, k2 - 1));
    }
}

/// Round-robin fairness: over `k` consecutive selections against `n`
/// all-healthy backends, every backend is selected exactly ⌊k/n⌋ or
/// ⌈k/n⌉ times. The count is ⌊k/n⌋ plus one more exactly for the backends
/// the leftover partial cycle still reaches; when `n` divides `k` the
/// count is the same for every backend.
pub proof fn lemma_round_robin_distribution(c0: int, n: int, b: int, k: nat)
    requires
        0 <= c0 < n,
        0 <= b < n,
    ensures
        times_selected(c0, n, b, k) == k as int / n + if gap(c0, b, n) < k as int % n {
            1int
        } else {
            0int
        },
        k as int / n <= times_selected(c0, n, b, k) <= k as int / n + 1,
        k as int % n == 0 ==> times_selected(c0, n, b, k) == k as int / n,
    decreases k,
{
    if k < n {
        lemma_small_mod(k, n as nat);
        lemma_basic_div(k as int, n);
        lemma_times_selected_one_cycle(c0, n, b, k);
    } else {
        lemma_times_selected_split(c0, n, b, n as nat, (k - n) as nat);
        lemma_mod_add_multiples_vanish(c0, n);
        lemma_small_mod(c0 as nat, n as nat);
        assert((c0 + n) % (n as int) == c0);
        lemma_times_selected_one_cycle(c0, n, b, n as nat);
        lemma_round_robin_distribution(c0, n, b, (k - n) as nat);
        lemma_mod_add_multiples_vanish(k - n, n);
        assert(k as int % n == (k - n) as int % n);
        lemma_div_plus_one((k - n) as int, n);
        assert(k as int / n == (k - n) as int / n + 1);
    }
}

} // verus!

use vstd::prelude::*;

use vstd::multiset::Multiset;

use crate::health::Health;
use crate::internal_error::InternalError;
use crate::min_heap_item::MinHeapItem;
use crate::min_queue::MinQueue;
use crate::outcome::{ForwardOutcome, ProbeOutcome};
use crate::simple_backend::{recorded, SimpleBackend};

verus! {

/// The healthy side a refresh rebuilds: the backends whose probe found them
/// reachable, each recorded and keyed by its fresh response time, in the
/// order they were probed.
pub open spec fn healthy_partition(bs: Seq<SimpleBackend>, os: Seq<ProbeOutcome>) -> Seq<
    MinHeapItem<SimpleBackend>,
>
    decreases bs.len(),
{
    if bs.len() == 0 {
        Seq::empty()
    } else {
        let rebuilt = healthy_partition(bs.drop_last(), os.drop_last());
        let b = recorded(bs.last(), os.last().reachable, os.last().elapsed_ms);
        if os.last().reachable {
            rebuilt.push(MinHeapItem { priority: b.response_time_ms, element: b })
        } else {
            rebuilt
        }
    }
}

/// The unhealthy side a refresh rebuilds: the backends whose probe failed,
/// recorded, in the order they were probed.
pub open spec fn unhealthy_partition(bs: Seq<SimpleBackend>, os: Seq<ProbeOutcome>) -> Seq<
    SimpleBackend,
>
    decreases bs.len(),
{
    if bs.len() == 0 {
        Seq::empty()
    } else {
        let rebuilt = unhealthy_partition(bs.drop_last(), os.drop_last());
        let b = recorded(bs.last(), os.last().reachable, os.last().elapsed_ms);
        if os.last().reachable {
            rebuilt
        } else {
            rebuilt.push(b)
        }
    }
}

/// Keeps a min-heap of healthy backends keyed by their last observed
/// response time, and a separate list of unhealthy backends. Requests go
/// to the healthy backend with the smallest key; a failed forward moves
/// the backend to the unhealthy side within the same request.
///
/// The caller performs the network I/O: it pops the best candidate,
/// forwards to it, and hands the outcome back; for a refresh it drains the
/// pool, probes every backend, and hands all outcomes back.
#[derive(Debug)]
pub struct LeastResponseLoadBalancer {
    unhealthy_backends: Vec<SimpleBackend>,
    healthy_backends: MinQueue<SimpleBackend>,
}

impl LeastResponseLoadBalancer {
    /// The healthy heap's entries, in insertion order.
    pub closed spec fn healthy_view(self) -> Seq<MinHeapItem<SimpleBackend>> {
        self.healthy_backends@
    }

    /// The unhealthy list, in insertion order.
    pub closed spec fn unhealthy_view(self) -> Seq<SimpleBackend> {
        self.unhealthy_backends@
    }

    /// Every heap entry is keyed by its backend's own response time, so
    /// the smallest key belongs to the backend with the smallest response
    /// time.
    pub open spec fn wf(self) -> bool {
        forall|i: int|
            0 <= i < self.healthy_view().len() ==> #[trigger] self.healthy_view()[i].priority
                == self.healthy_view()[i].element.response_time_ms
    }

    /// A balancer whose healthy heap holds the given backends, each keyed
    /// by its current response time — 0 for freshly configured backends,
    /// so the first selections come in an arbitrary order until real
    /// samples arrive. The unhealthy list starts empty.
    pub fn new(backends: Vec<SimpleBackend>) -> (r: Self)
        ensures
            r.wf(),
            r.unhealthy_view() == Seq::<SimpleBackend>::empty(),
            r.healthy_view().len() == backends@.len(),
            forall|i: int|
                0 <= i < backends@.len() ==> #[trigger] r.healthy_view()[i].element == backends@[i]
                    && r.healthy_view()[i].priority == backends@[i].response_time_ms,
    {
        let mut healthy_backends: MinQueue<SimpleBackend> = MinQueue::new();
        let mut backends = backends;
        let n = backends.len();
        let ghost orig = backends@;
        let mut i: usize = 0;
        while i < n
            invariant
                n == orig.len(),
                backends@ == orig.skip(i as int),
                i <= n,
                healthy_backends@.len() == i,
                forall|j: int|
                    0 <= j < i ==> #[trigger] healthy_backends@[j].element == orig[j]
                        && healthy_backends@[j].priority == orig[j].response_time_ms,
            decreases n - i,
        {
            proof {
                assert(backends@[0] == orig[i as int]);
                assert(backends@.skip(1) =~= orig.skip(i + 1));
            }
            let backend = backends.remove(0);
            let priority = backend.response_time_ms();
            healthy_backends.push(MinHeapItem { priority, element: backend });
            i += 1;
        }
        LeastResponseLoadBalancer { unhealthy_backends: Vec::new(), healthy_backends }
    }

    /// How many backends each side holds.
    pub fn healthy_count(&self) -> (r: usize)
        ensures
            r == self.healthy_view().len(),
    {
        self.healthy_backends.len()
    }

    pub fn unhealthy_count(&self) -> (r: usize)
        ensures
            r == self.unhealthy_view().len(),
    {
        self.unhealthy_backends.len()
    }

    /// The healthy backend at position `i` of the heap, in insertion
    /// order — lets a driver collect the healthy addresses for probing
    /// without draining the heap or holding it locked meanwhile.
    pub fn healthy_backend(&self, i: usize) -> (r: &SimpleBackend)
        requires
            i < self.healthy_view().len(),
        ensures
            *r == self.healthy_view()[i as int].element,
    {
        &self.healthy_backends.get(i).element
    }

    /// The unhealthy backend at position `i`.
    pub fn unhealthy_backend(&self, i: usize) -> (r: &SimpleBackend)
        requires
            i < self.unhealthy_view().len(),
        ensures
            *r == self.unhealthy_view()[i as int],
    {
        &self.unhealthy_backends[i]
    }

    /// A healthy backend with the smallest response time of all healthy
    /// backends, or `None` when no backend is healthy.
    pub fn next_available_backend(&self) -> (r: Option<&SimpleBackend>)
        requires
            self.wf(),
        ensures
            (match r {
                None => self.healthy_view().len() == 0,
                Some(b) => {
                    &&& exists|i: int|
                        0 <= i < self.healthy_view().len() && #[trigger] self.healthy_view()[i].element
                            == *b
                    &&& forall|i: int|
                        0 <= i < self.healthy_view().len() ==> b.response_time_ms
                            <= #[trigger] self.healthy_view()[i].element.response_time_ms
                },
            }),
    {
        match self.healthy_backends.peek_min() {
            None => None,
            Some(m) => Some(&m.element),
        }
    }

    /// Starts (or continues) one request: removes the healthy backend with
    /// the smallest response time and hands it to the caller to forward
    /// to. With no healthy backend left the request fails as
    /// `NoBackendAvailable` — immediately on an empty heap, or after every
    /// healthy backend failed in turn this call.
    pub fn send_request_begin(&mut self) -> (r: Result<SimpleBackend, InternalError>)
        requires
            old(self).wf(),
        ensures
            final(self).wf(),
            final(self).unhealthy_view() == old(self).unhealthy_view(),
            old(self).healthy_view().len() == 0 ==> r == Err::<SimpleBackend, InternalError>(
                InternalError::NoBackendAvailable,
            ) && final(self).healthy_view() == old(self).healthy_view(),
            old(self).healthy_view().len() > 0 ==> (match r {
                Ok(b) => {
                    &&& exists|i: int|
                        0 <= i < old(self).healthy_view().len() && old(self).healthy_view()[i].element
                            == b && final(self).healthy_view() == old(self).healthy_view().remove(i)
                    &&& forall|i: int|
                        0 <= i < old(self).healthy_view().len() ==> b.response_time_ms <= #[trigger] old(
                            self,
                        ).healthy_view()[i].element.response_time_ms
                },
                Err(_) => false,
            }),
    {
        match self.healthy_backends.pop_min() {
            None => Err(InternalError::NoBackendAvailable),
            Some(m) => Ok(m.element),
        }
    }

    /// Finishes one forward attempt. On success the backend re-enters the
    /// healthy heap keyed by the fresh response time and the body is
    /// returned; on failure the backend joins the unhealthy list and
    /// `None` tells the caller to begin again with the next candidate.
    pub fn send_request_finish(&mut self, backend: SimpleBackend, outcome: ForwardOutcome) -> (r:
        Option<String>)
        requires
            old(self).wf(),
        ensures
            final(self).wf(),
            outcome.is_success() ==> (match r {
                Some(body) => {
                    &&& body@ == outcome.body()
                    &&& final(self).healthy_view() == old(self).healthy_view().push(
                        (MinHeapItem {
                            priority: outcome.elapsed(),
                            element: recorded(backend, true, outcome.elapsed()),
                        }),
                    )
                    &&& final(self).unhealthy_view() == old(self).unhealthy_view()
                },
                None => false,
            }),
            !outcome.is_success() ==> {
                &&& r is None
                &&& final(self).healthy_view() == old(self).healthy_view()
                &&& final(self).unhealthy_view() == old(self).unhealthy_view().push(
                    recorded(backend, false, outcome.elapsed()),
                )
            },
    {
        let mut backend = backend;
        backend.record_forward(&outcome);
        match outcome {
            ForwardOutcome::Success { body, elapsed_ms } => {
                self.healthy_backends.push(MinHeapItem { priority: elapsed_ms, element: backend });
                Some(body)
            },
            ForwardOutcome::Failure { .. } => {
                self.unhealthy_backends.push(backend);
                None
            },
        }
    }

    /// Starts a health refresh: drains both sides and hands every backend
    /// out to be probed — first the healthy ones in heap order, then the
    /// unhealthy ones.
    pub fn check_backends_healths_begin(&mut self) -> (r: Vec<SimpleBackend>)
        ensures
            final(self).healthy_view() == Seq::<MinHeapItem<SimpleBackend>>::empty(),
            final(self).unhealthy_view() == Seq::<SimpleBackend>::empty(),
            r@.len() == old(self).healthy_view().len() + old(self).unhealthy_view().len(),
            forall|i: int|
                0 <= i < old(self).healthy_view().len() ==> r@[i] == old(
                    self,
                ).healthy_view()[i].element,
            forall|i: int|
                0 <= i < old(self).unhealthy_view().len() ==> r@[old(self).healthy_view().len() + i]
                    == old(self).unhealthy_view()[i],
    {
        let mut out: Vec<SimpleBackend> = Vec::new();
        let mut drained = self.healthy_backends.take_all();
        let ghost h = old(self).healthy_view();
        let n = drained.len();
        let mut i: usize = 0;
        while i < n
            invariant
                n == h.len(),
                drained@ == h.skip(i as int),
                i <= n,
                out@.len() == i,
                forall|j: int| 0 <= j < i ==> out@[j] == h[j].element,
            decreases n - i,
        {
            proof {
                assert(drained@[0] == h[i as int]);
                assert(drained@.skip(1) =~= h.skip(i + 1));
            }
            let item = drained.remove(0);
            out.push(item.element);
            i += 1;
        }
        let mut stale: Vec<SimpleBackend> = Vec::new();
        core::mem::swap(&mut self.unhealthy_backends, &mut stale);
        out.append(&mut stale);
        out
    }

    /// Finishes a health refresh: every drained backend records its probe
    /// outcome and lands in exactly one side — the healthy heap, keyed by
    /// its fresh response time, if its probe succeeded, else the unhealthy
    /// list.
    pub fn check_backends_healths_finish(
        &mut self,
        backends: Vec<SimpleBackend>,
        outcomes: &Vec<ProbeOutcome>,
    )
        requires
            old(self).healthy_view().len() == 0,
            old(self).unhealthy_view().len() == 0,
            outcomes@.len() == backends@.len(),
        ensures
            final(self).wf(),
            final(self).healthy_view() == healthy_partition(backends@, outcomes@),
            final(self).unhealthy_view() == unhealthy_partition(backends@, outcomes@),
    {
        let mut backends = backends;
        let ghost bs = backends@;
        let n = backends.len();
        let mut i: usize = 0;
        while i < n
            invariant
                n == bs.len(),
                outcomes@.len() == n,
                backends@ == bs.skip(i as int),
                i <= n,
                self.wf(),
                self.healthy_view() == healthy_partition(bs.take(i as int), outcomes@.take(i as int)),
                self.unhealthy_view() == unhealthy_partition(
                    bs.take(i as int),
                    outcomes@.take(i as int),
                ),
            decreases n - i,
        {
            proof {
                assert(backends@[0] == bs[i as int]);
                assert(backends@.skip(1) =~= bs.skip(i + 1));
                assert(bs.take(i + 1).drop_last() =~= bs.take(i as int));
                assert(outcomes@.take(i + 1).drop_last() =~= outcomes@.take(i as int));
                assert(bs.take(i + 1).last() == bs[i as int]);
                assert(outcomes@.take(i + 1).last() == outcomes@[i as int]);
            }
            let mut backend = backends.remove(0);
            backend.record_probe(&outcomes[i]);
            if backend.health() == crate::health::Health::Healthy {
                let priority = backend.response_time_ms();
                self.healthy_backends.push(MinHeapItem { priority, element: backend });
            } else {
                self.unhealthy_backends.push(backend);
            }
            i += 1;
        }
        proof {
            assert(bs.take(n as int) =~= bs);
            assert(outcomes@.take(n as int) =~= outcomes@);
        }
    }
}

/// The whole pool as a refresh sees it: every backend with its probe
/// outcome recorded, in probe order.
pub open spec fn refreshed_pool(bs: Seq<SimpleBackend>, os: Seq<ProbeOutcome>) -> Seq<
    SimpleBackend,
> {
    Seq::new(bs.len(), |i: int| recorded(bs[i], os[i].reachable, os[i].elapsed_ms))
}

/// The backends carried by a sequence of heap entries.
pub open spec fn heap_elements(h: Seq<MinHeapItem<SimpleBackend>>) -> Seq<SimpleBackend> {
    h.map_values(|m: MinHeapItem<SimpleBackend>| m.element)
}

/// After a refresh every backend belongs to exactly one of the two sides:
/// the healthy heap and the unhealthy list together hold, as a multiset,
/// precisely the refreshed pool — no backend is dropped or duplicated.
/// Moreover a backend whose probe succeeded sits in the healthy heap with
/// health `Healthy`, and one whose probe failed sits in the unhealthy
/// list with health `Unhealthy`.
pub proof fn lemma_refresh_partitions_pool(bs: Seq<SimpleBackend>, os: Seq<ProbeOutcome>)
    requires
        bs.len() == os.len(),
    ensures
        heap_elements(healthy_partition(bs, os)).to_multiset().add(
            unhealthy_partition(bs, os).to_multiset(),
        ) == refreshed_pool(bs, os).to_multiset(),
        healthy_partition(bs, os).len() + unhealthy_partition(bs, os).len() == bs.len(),
        forall|i: int|
            0 <= i < healthy_partition(bs, os).len() ==> #[trigger] healthy_partition(
                bs,
                os,
            )[i].element.health == Health::Healthy,
        forall|i: int|
            0 <= i < unhealthy_partition(bs, os).len() ==> #[trigger] unhealthy_partition(
                bs,
                os,
            )[i].health == Health::Unhealthy,
    decreases bs.len(),
{
    broadcast use vstd::seq_lib::group_to_multiset_ensures;
    broadcast use vstd::multiset::group_multiset_axioms;

    let h = healthy_partition(bs, os);
    let u = unhealthy_partition(bs, os);
    let all = refreshed_pool(bs, os);
    if bs.len() == 0 {
        assert(heap_elements(h) =~= Seq::<SimpleBackend>::empty());
        assert(all =~= Seq::<SimpleBackend>::empty());
        assert(heap_elements(h).to_multiset().add(u.to_multiset()) =~= all.to_multiset());
    } else {
        lemma_refresh_partitions_pool(bs.drop_last(), os.drop_last());
        let h0 = healthy_partition(bs.drop_last(), os.drop_last());
        let u0 = unhealthy_partition(bs.drop_last(), os.drop_last());
        let all0 = refreshed_pool(bs.drop_last(), os.drop_last());
        let b = recorded(bs.last(), os.last().reachable, os.last().elapsed_ms);
        assert(all =~= all0.push(b));
        if os.last().reachable {
            assert(h =~= h0.push(MinHeapItem { priority: b.response_time_ms, element: b }));
            assert(heap_elements(h) =~= heap_elements(h0).push(b));
            assert(heap_elements(h).to_multiset().add(u.to_multiset()) =~= all.to_multiset());
        } else {
            assert(u =~= u0.push(b));
            assert(heap_elements(h).to_multiset().add(u.to_multiset()) =~= all.to_multiset());
        }
    }
}

/// Read exactly-one-membership per backend: a backend occurring once in
/// the refreshed pool is held by exactly one of the two sides.
pub proof fn lemma_refresh_exactly_one_side(
    bs: Seq<SimpleBackend>,
    os: Seq<ProbeOutcome>,
    x: SimpleBackend,
)
    requires
        bs.len() == os.len(),
        refreshed_pool(bs, os).to_multiset().count(x) == 1,
    ensures
        heap_elements(healthy_partition(bs, os)).to_multiset().count(x) + unhealthy_partition(
            bs,
            os,
        ).to_multiset().count(x) == 1,
{
    broadcast use vstd::multiset::group_multiset_axioms;

    lemma_refresh_partitions_pool(bs, os);
}

/// Bridges one `send_request_begin` pop to the draw-without-replacement
/// model: removing index `i` from the heap takes exactly that entry out
/// of the heap's contents — the entry was present, and one copy of it is
/// gone afterwards.
pub proof fn lemma_pop_removes_entry(h: Seq<MinHeapItem<SimpleBackend>>, i: int)
    requires
        0 <= i < h.len(),
    ensures
        h.to_multiset().count(h[i]) > 0,
        h.remove(i).to_multiset() == h.to_multiset().remove(h[i]),
{
    broadcast use vstd::seq_lib::group_to_multiset_ensures;

}

/// Refreshing an already refreshed pool with unchanged reachability leaves
/// the membership of the two sides identical. The pool a refresh hands
/// out is a healthy prefix followed by an unhealthy suffix; when the next
/// round's probes find exactly the backends that were healthy reachable
/// again, the rebuilt sides hold the same backends, by address and in the
/// same order — only the measured response times may move.
pub proof fn lemma_refresh_membership_stable(
    bs: Seq<SimpleBackend>,
    os: Seq<ProbeOutcome>,
    hlen: int,
)
    requires
        0 <= hlen <= bs.len(),
        os.len() == bs.len(),
        forall|j: int| 0 <= j < hlen ==> #[trigger] bs[j].health == Health::Healthy,
        forall|j: int| hlen <= j < bs.len() ==> #[trigger] bs[j].health == Health::Unhealthy,
        forall|j: int|
            0 <= j < bs.len() ==> (#[trigger] os[j].reachable <==> bs[j].health == Health::Healthy),
    ensures
        healthy_partition(bs, os).len() == hlen,
        forall|j: int|
            0 <= j < hlen ==> #[trigger] healthy_partition(bs, os)[j].element.address
                == bs[j].address,
        unhealthy_partition(bs, os).len() == bs.len() - hlen,
        forall|j: int|
            0 <= j < bs.len() - hlen ==> #[trigger] unhealthy_partition(bs, os)[j].address == bs[hlen
                + j].address,
    decreases bs.len(),
{
    if bs.len() > 0 {
        if hlen == bs.len() {
            lemma_refresh_membership_stable(bs.drop_last(), os.drop_last(), hlen - 1);
        } else {
            lemma_refresh_membership_stable(bs.drop_last(), os.drop_last(), hlen);
        }
    }
}

/// With a single healthy backend, every request goes to it and leaves it
/// in place: `send_request_begin` must return the heap's only element,
/// and after a successful `send_request_finish` the heap is again a
/// singleton holding the same backend — so any number of successive
/// requests all return that backend's body.
pub proof fn lemma_single_healthy_backend_sticky(
    h: Seq<MinHeapItem<SimpleBackend>>,
    i: int,
    b: SimpleBackend,
    elapsed_ms: u64,
)
    requires
        h.len() == 1,
        0 <= i < 1,
        b == h[i].element,
    ensures
        b == h[0].element,
        h.remove(i).push(
            (MinHeapItem { priority: elapsed_ms, element: recorded(b, true, elapsed_ms) }),
        ).len() == 1,
        h.remove(i).push(
            (MinHeapItem { priority: elapsed_ms, element: recorded(b, true, elapsed_ms) }),
        )[0].element.address == h[0].element.address,
        h.remove(i).push(
            (MinHeapItem { priority: elapsed_ms, element: recorded(b, true, elapsed_ms) }),
        )[0].element.health == Health::Healthy,
{
    assert(h.remove(i) =~= Seq::<MinHeapItem<SimpleBackend>>::empty());
}

/// What remains available in one request after the first `i` attempts: the
/// initial healthy heap minus the entries already popped. Each failed
/// attempt removes its entry for good — the entry moves to the unhealthy
/// list and nothing re-enters the heap before the call ends.
pub open spec fn remaining_after(
    initial: Multiset<MinHeapItem<SimpleBackend>>,
    attempts: Seq<MinHeapItem<SimpleBackend>>,
    i: int,
) -> Multiset<MinHeapItem<SimpleBackend>>
    decreases i,
{
    if i <= 0 {
        initial
    } else {
        remaining_after(initial, attempts, i - 1).remove(attempts[i - 1])
    }
}

/// Counting form of the draw-without-replacement argument: as long as
/// every attempt pops an entry still remaining, the entries attempted so
/// far plus the entries remaining add up exactly to the initial heap.
proof fn lemma_remaining_count(
    initial: Multiset<MinHeapItem<SimpleBackend>>,
    attempts: Seq<MinHeapItem<SimpleBackend>>,
    i: int,
    x: MinHeapItem<SimpleBackend>,
)
    requires
        0 <= i <= attempts.len(),
        forall|j: int|
            0 <= j < i ==> #[trigger] remaining_after(initial, attempts, j).count(attempts[j]) > 0,
    ensures
        remaining_after(initial, attempts, i).count(x) + attempts.take(i).to_multiset().count(x)
            == initial.count(x),
    decreases i,
{
    broadcast use vstd::seq_lib::group_to_multiset_ensures;
    broadcast use vstd::multiset::group_multiset_axioms;

    if i == 0 {
        assert(attempts.take(0) =~= Seq::<MinHeapItem<SimpleBackend>>::empty());
    } else {
        lemma_remaining_count(initial, attempts, i - 1, x);
        lemma_remaining_count(initial, attempts, i - 1, attempts[i - 1]);
        assert(attempts.take(i) =~= attempts.take(i - 1).push(attempts[i - 1]));
    }
}

/// A request attempts each backend at most once. Every attempt pops an
/// entry out of what remains of the initial healthy heap, so the
/// multiset of attempted entries is contained in the initial heap: an
/// entry present once — every backend, in a pool without duplicates — is
/// attempted at most once per call, and the attempts number at most the
/// initial heap size.
pub proof fn lemma_attempts_without_replacement(
    initial: Multiset<MinHeapItem<SimpleBackend>>,
    attempts: Seq<MinHeapItem<SimpleBackend>>,
)
    requires
        forall|j: int|
            0 <= j < attempts.len() ==> #[trigger] remaining_after(initial, attempts, j).count(
                attempts[j],
            ) > 0,
    ensures
        attempts.to_multiset().subset_of(initial),
        attempts.len() <= initial.len(),
{
    broadcast use vstd::seq_lib::group_to_multiset_ensures;
    broadcast use vstd::multiset::group_multiset_axioms;

    assert(attempts.take(attempts.len() as int) =~= attempts);
    assert forall|x: MinHeapItem<SimpleBackend>| attempts.to_multiset().count(x)
        <= initial.count(x) by {
        lemma_remaining_count(initial, attempts, attempts.len() as int, x);
    }
    lemma_remaining_len(initial, attempts, attempts.len() as int);
}

/// The remaining heap shrinks by exactly one entry per attempt.
proof fn lemma_remaining_len(
    initial: Multiset<MinHeapItem<SimpleBackend>>,
    attempts: Seq<MinHeapItem<SimpleBackend>>,
    i: int,
)
    requires
        0 <= i <= attempts.len(),
        forall|j: int|
            0 <= j < i ==> #[trigger] remaining_after(initial, attempts, j).count(attempts[j]) > 0,
    ensures
        remaining_after(initial, attempts, i).len() + i == initial.len(),
    decreases i,
{
    broadcast use vstd::multiset::group_multiset_axioms;

    if i > 0 {
        lemma_remaining_len(initial, attempts, i - 1);
        let before = remaining_after(initial, attempts, i - 1);
        let v = attempts[i - 1];
        assert(Multiset::singleton(v).subset_of(before)) by {
            assert(Multiset::singleton(v).count(v) == 1);
            assert forall|w: MinHeapItem<SimpleBackend>| #[trigger] Multiset::singleton(v).count(w)
                <= before.count(w) by {
                if w != v {
                    assert(Multiset::singleton(v).count(w) == 0);
                }
            }
        }
    }
}

} // verus!

use vstd::prelude::*;

verus! {

/// The features that wait for their mesh, drained a bounded number per tick.
/// Features are queued in increasing identity order, so that none is queued
/// twice over the queue's life and each is decorated exactly once.
pub struct DecorationQueue {
    pending: Vec<u64>,
    floor: u64,
    decorated: Ghost<Set<u64>>,
}

/// How many features one tick takes from a queue of `len` with cap `cap`.
pub open spec fn batch_len(len: int, cap: int) -> int {
    if cap < len {
        cap
    } else {
        len
    }
}

/// What is left of queue `q` after `t` ticks of at most `cap` features each.
pub open spec fn left_after(q: Seq<u64>, cap: int, t: nat) -> Seq<u64>
    decreases t,
{
    if t == 0 {
        q
    } else {
        let before = left_after(q, cap, (t - 1) as nat);
        before.skip(batch_len(before.len() as int, cap))
    }
}

/// The features that `t` ticks of at most `cap` features each take from
/// queue `q`, in the order they are taken.
pub open spec fn taken_after(q: Seq<u64>, cap: int, t: nat) -> Seq<u64>
    decreases t,
{
    if t == 0 {
        Seq::empty()
    } else {
        let before = left_after(q, cap, (t - 1) as nat);
        taken_after(q, cap, (t - 1) as nat) + before.take(batch_len(before.len() as int, cap))
    }
}

/// The number of ticks after which a queue of `len` is drained with cap `cap`.
pub open spec fn ticks_to_drain(len: int, cap: int) -> int {
    (len + cap - 1) / cap
}

impl DecorationQueue {
    /// Features waiting for their mesh, in the order they were queued.
    pub closed spec fn pending(&self) -> Seq<u64> {
        self.pending@
    }

    /// Features that a tick has already taken.
    pub closed spec fn decorated(&self) -> Set<u64> {
        self.decorated@
    }

    /// The least identity that can still be queued.
    pub closed spec fn floor(&self) -> u64 {
        self.floor
    }

    /// No feature waits twice, none waits that was decorated already, and
    /// every identity queued so far is below the floor.
    pub closed spec fn wf(&self) -> bool {
        &&& self.pending@.no_duplicates()
        &&& forall|i: int| 0 <= i < self.pending@.len() ==> !self.decorated@.contains(#[trigger] self.pending@[i])
        &&& forall|i: int| 0 <= i < self.pending@.len() ==> #[trigger] self.pending@[i] < self.floor
        &&& forall|x: u64| self.decorated@.contains(x) ==> x < self.floor
    }

    pub fn new() -> (r: DecorationQueue)
        ensures
            r.wf(),
            r.pending().len() == 0,
            r.decorated().is_empty(),
            r.floor() == 0,
    {
        DecorationQueue { pending: Vec::new(), floor: 0, decorated: Ghost(Set::empty()) }
    }

    /// Number of features waiting.
    pub fn len(&self) -> (r: usize)
        ensures
            r == self.pending().len(),
    {
        self.pending.len()
    }

    /// Marks feature `id` as waiting for its mesh. Identities must come in
    /// increasing order: one at or below an identity queued before is refused,
    /// so that no feature waits or is decorated twice. Returns whether `id`
    /// was queued.
    pub fn mark(&mut self, id: u64) -> (r: bool)
        requires
            old(self).wf(),
        ensures
            final(self).wf(),
            r == (old(self).floor() <= id < u64::MAX),
            r ==> final(self).pending() == old(self).pending().push(id) && final(self).floor() == id + 1,
            !r ==> final(self).pending() == old(self).pending() && final(self).floor() == old(self).floor(),
            !old(self).pending().contains(id) && !old(self).decorated().contains(id) <== r,
            final(self).decorated() == old(self).decorated(),
    {
        if id < self.floor || id == u64::MAX {
            return false;
        }
        let ghost before = self.pending@;
        self.pending.push(id);
        self.floor = id + 1;
        proof {
            assert forall|a: int, b: int| 0 <= a < b < self.pending@.len() implies self.pending@[a] != self.pending@[b] by {
                if b < before.len() {
                    assert(before[a] != before[b]);
                } else {
                    assert(before[a] < old(self).floor);
                }
            }
            assert(!before.contains(id)) by {
                if before.contains(id) {
                    let j = choose|j: int| 0 <= j < before.len() && before[j] == id;
                    assert(before[j] < old(self).floor);
                }
            }
            assert(!self.decorated@.contains(id)) by {
                if self.decorated@.contains(id) {
                    assert(id < old(self).floor);
                }
            }
        }
        true
    }

    /// One tick: takes the first `cap` waiting features (all of them when
    /// fewer wait) and returns them, in order, to be decorated.
    pub fn tick(&mut self, cap: usize) -> (r: Vec<u64>)
        requires
            old(self).wf(),
        ensures
            final(self).wf(),
            r@ == old(self).pending().take(batch_len(old(self).pending().len() as int, cap as int)),
            final(self).pending() == old(self).pending().skip(batch_len(old(self).pending().len() as int, cap as int)),
            forall|x: u64| final(self).decorated().contains(x) <==> (old(self).decorated().contains(x) || r@.contains(x)),
    {
        let n = self.pending.len();
        let k = if cap < n { cap } else { n };
        let mut batch = self.pending.split_off(k);
        core::mem::swap(&mut batch, &mut self.pending);
        assert(batch@.len() == k);
        let ghost old_pending = old(self).pending@;
        self.decorated = Ghost(self.decorated@.union(batch@.to_set()));
        proof {
            assert(batch@ =~= old_pending.take(k as int));
            assert(self.pending@ =~= old_pending.skip(k as int));
            assert forall|x: u64| self.decorated@.contains(x) <==> (old(self).decorated@.contains(x) || batch@.contains(x)) by {
                if batch@.contains(x) {
                    assert(batch@.to_set().contains(x));
                }
            }
            assert forall|a: int, b: int| 0 <= a < b < self.pending@.len() implies self.pending@[a] != self.pending@[b] by {
                assert(old_pending[a + k] != old_pending[b + k]);
            }
            assert forall|x: u64| self.decorated@.contains(x) implies x < self.floor by {
                if batch@.contains(x) {
                    let j = choose|j: int| 0 <= j < batch@.len() && batch@[j] == x;
                    assert(old_pending[j] == x);
                }
            }
            assert forall|i: int| 0 <= i < self.pending@.len() implies #[trigger] self.pending@[i] < self.floor by {
                assert(self.pending@[i] == old_pending[i + k]);
            }
            assert forall|i: int| 0 <= i < self.pending@.len() implies !self.decorated@.contains(#[trigger] self.pending@[i]) by {
                assert(self.pending@[i] == old_pending[i + k]);
                if batch@.contains(self.pending@[i]) {
                    let j = choose|j: int| 0 <= j < batch@.len() && batch@[j] == self.pending@[i];
                    assert(old_pending[j] == old_pending[i + k]);
                }
            }
        }
        batch
    }
}

/// A well-formed queue holds no feature twice, so the drain law applies to
/// what it holds.
pub proof fn lemma_pending_distinct(q: &DecorationQueue)
    requires
        q.wf(),
    ensures
        q.pending().no_duplicates(),
{
}

/// Queue of `len` features, cap `cap`: after `t` ticks the taken features
/// followed by those left are the queue, and `len - t * cap` are left (none
/// once that is negative).
pub proof fn lemma_ticks(q: Seq<u64>, cap: int, t: nat)
    requires
        cap > 0,
    ensures
        taken_after(q, cap, t) + left_after(q, cap, t) == q,
        left_after(q, cap, t).len() == if q.len() - t * cap > 0 { q.len() - t * cap } else { 0 },
    decreases t,
{
    if t > 0 {
        lemma_ticks(q, cap, (t - 1) as nat);
        let before = left_after(q, cap, (t - 1) as nat);
        let k = batch_len(before.len() as int, cap);
        assert(before.take(k) + before.skip(k) =~= before);
        assert(taken_after(q, cap, t) + left_after(q, cap, t) =~= taken_after(q, cap, (t - 1) as nat) + (before.take(k) + before.skip(k)));
        assert(t * cap == (t - 1) * cap + cap) by (nonlinear_arith);
    }
}

/// Decoration pass: with `B` features waiting, none twice, and at most `cap`
/// taken per tick, `ceil(B / cap)` ticks take every one of them exactly once,
/// in queue order, and leave none waiting.
pub proof fn lemma_drained_exactly_once(q: Seq<u64>, cap: int)
    requires
        cap > 0,
        q.no_duplicates(),
    ensures
        ticks_to_drain(q.len() as int, cap) >= 0,
        left_after(q, cap, ticks_to_drain(q.len() as int, cap) as nat).len() == 0,
        taken_after(q, cap, ticks_to_drain(q.len() as int, cap) as nat) == q,
        taken_after(q, cap, ticks_to_drain(q.len() as int, cap) as nat).no_duplicates(),
{
    let b = q.len() as int;
    let t = ticks_to_drain(b, cap);
    assert(t >= 0) by (nonlinear_arith)
        requires t == (b + cap - 1) / cap, cap > 0, b >= 0;
    assert(t * cap >= b) by (nonlinear_arith)
        requires t == (b + cap - 1) / cap, cap > 0, b >= 0;
    lemma_ticks(q, cap, t as nat);
    assert(taken_after(q, cap, t as nat) + Seq::<u64>::empty() =~= taken_after(q, cap, t as nat));
}

} // verus!

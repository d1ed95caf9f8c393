use vstd::prelude::*;
use crate::coords::LoadRequest;
use crate::osm::FeatureKind;

verus! {

/// What one non-blocking check of a background fetch found.
#[derive(Clone, Copy, Debug, PartialEq, Eq, Structural)]
pub enum FetchOutcome {
    /// The fetch has not finished yet.
    Pending,
    /// The fetch finished and decoded this many feature records.
    Loaded(usize),
    /// The fetch or its decoding failed.
    Failed,
}

/// The load scheduler of one kind of feature. Each request is an entity that
/// is first waiting, then has exactly one fetch in flight, then is gone: its
/// fetch either spawned feature entities or failed. Entity identities are
/// handed out by the scheduler and never reused.
pub struct LoadScheduler {
    kind: FeatureKind,
    waiting: Vec<(u64, LoadRequest)>,
    in_flight: Vec<u64>,
    next_id: u64,
    started: Ghost<Set<u64>>,
}

pub open spec fn ids_of(s: Seq<(u64, LoadRequest)>) -> Seq<u64> {
    s.map_values(|p: (u64, LoadRequest)| p.0)
}

/// The identities `from .. from + n`, in order.
pub open spec fn fresh_ids(from: int, n: int) -> Seq<u64> {
    Seq::new(n as nat, |i: int| (from + i) as u64)
}

impl LoadScheduler {
    /// The kind of feature this scheduler loads.
    pub closed spec fn kind_spec(&self) -> FeatureKind {
        self.kind
    }

    /// Requests that have no fetch yet, in the order they came.
    pub closed spec fn waiting(&self) -> Seq<(u64, LoadRequest)> {
        self.waiting@
    }

    /// Requests whose fetch runs.
    pub closed spec fn in_flight(&self) -> Seq<u64> {
        self.in_flight@
    }

    /// The next entity identity to hand out.
    pub closed spec fn next_entity(&self) -> u64 {
        self.next_id
    }

    /// Every request that was ever given a fetch.
    pub closed spec fn started(&self) -> Set<u64> {
        self.started@
    }

    /// Waiting requests were never given a fetch; requests in flight were,
    /// each appears once, and all identities were handed out already.
    pub closed spec fn wf(&self) -> bool {
        &&& ids_of(self.waiting@).no_duplicates()
        &&& self.in_flight@.no_duplicates()
        &&& forall|i: int| 0 <= i < self.waiting@.len() ==> !self.started@.contains(#[trigger] self.waiting@[i].0)
            && self.waiting@[i].0 < self.next_id
        &&& forall|i: int| 0 <= i < self.in_flight@.len() ==> self.started@.contains(#[trigger] self.in_flight@[i])
        &&& forall|x: u64| self.started@.contains(x) ==> x < self.next_id
    }

    pub fn new(kind: FeatureKind) -> (r: LoadScheduler)
        ensures
            r.wf(),
            r.kind_spec() == kind,
            r.waiting().len() == 0,
            r.in_flight().len() == 0,
            r.started().is_empty(),
            r.next_entity() == 0,
    {
        LoadScheduler {
            kind,
            waiting: Vec::new(),
            in_flight: Vec::new(),
            next_id: 0,
            started: Ghost(Set::empty()),
        }
    }

    /// The kind of feature this scheduler loads.
    pub fn kind(&self) -> (r: FeatureKind)
        ensures
            r == self.kind_spec(),
    {
        self.kind
    }

    /// The next entity identity to hand out.
    pub fn next_entity_id(&self) -> (r: u64)
        ensures
            r == self.next_entity(),
    {
        self.next_id
    }

    /// Whether `id` is a request whose fetch runs.
    pub fn is_in_flight(&self, id: u64) -> (r: bool)
        ensures
            r == self.in_flight().contains(id),
    {
        let mut i: usize = 0;
        while i < self.in_flight.len()
            invariant
                i <= self.in_flight@.len(),
                forall|j: int| 0 <= j < i ==> self.in_flight@[j] != id,
            decreases self.in_flight.len() - i,
        {
            if self.in_flight[i] == id {
                return true;
            }
            i += 1;
        }
        false
    }

    /// Adds a request entity for `req`, and returns its identity.
    pub fn submit(&mut self, req: LoadRequest) -> (r: u64)
        requires
            old(self).wf(),
            old(self).next_entity() < u64::MAX,
        ensures
            final(self).wf(),
            r == old(self).next_entity(),
            final(self).next_entity() == old(self).next_entity() + 1,
            final(self).waiting() == old(self).waiting().push((r, req)),
            final(self).in_flight() == old(self).in_flight(),
            final(self).started() == old(self).started(),
            final(self).kind_spec() == old(self).kind_spec(),
    {
        let id = self.next_id;
        self.waiting.push((id, req));
        self.next_id = id + 1;
        proof {
            let w = self.waiting@;
            assert(ids_of(w) =~= ids_of(old(self).waiting@).push(id));
            assert forall|i: int, j: int| 0 <= i < j < ids_of(w).len() implies ids_of(w)[i] != ids_of(w)[j] by {
                if j == ids_of(w).len() - 1 {
                    assert(old(self).waiting@[i].0 < id);
                } else {
                    assert(ids_of(old(self).waiting@)[i] != ids_of(old(self).waiting@)[j]);
                }
            }
        }
        id
    }

    /// Gives every waiting request its fetch: the requests are returned, in
    /// the order they came, for their fetches to be spawned, and are now in
    /// flight. None of them had a fetch before.
    pub fn start_loading(&mut self) -> (r: Vec<(u64, LoadRequest)>)
        requires
            old(self).wf(),
        ensures
            final(self).wf(),
            r@ == old(self).waiting(),
            forall|i: int| 0 <= i < r@.len() ==> !old(self).started().contains(#[trigger] r@[i].0),
            final(self).waiting().len() == 0,
            final(self).in_flight() == old(self).in_flight() + ids_of(r@),
            forall|x: u64| final(self).started().contains(x) <==> (old(self).started().contains(x) || ids_of(r@).contains(x)),
            final(self).next_entity() == old(self).next_entity(),
            final(self).kind_spec() == old(self).kind_spec(),
    {
        let ghost old_flight = self.in_flight@;
        let ghost old_started = self.started@;
        let ghost old_waiting = self.waiting@;
        let mut out: Vec<(u64, LoadRequest)> = Vec::new();
        let mut i: usize = 0;
        while i < self.waiting.len()
            invariant
                self.waiting@ == old_waiting,
                self.next_id == old(self).next_id,
                self.kind == old(self).kind,
                i <= self.waiting@.len(),
                out@ == old_waiting.subrange(0, i as int),
                self.in_flight@ == old_flight + ids_of(out@),
                forall|x: u64| self.started@.contains(x) <==> (old_started.contains(x) || ids_of(out@).contains(x)),
            decreases self.waiting.len() - i,
        {
            let p = self.waiting[i];
            let ghost prev_out = out@;
            let ghost prev_started = self.started@;
            out.push(p);
            self.in_flight.push(p.0);
            self.started = Ghost(self.started@.insert(p.0));
            proof {
                assert(out@ =~= old_waiting.subrange(0, i + 1));
                assert(ids_of(out@) =~= ids_of(prev_out).push(p.0));
                assert(self.in_flight@ =~= old_flight + ids_of(out@));
                assert forall|x: u64| self.started@.contains(x) <==> (old_started.contains(x) || ids_of(out@).contains(x)) by {
                    assert(prev_started.contains(x) <==> (old_started.contains(x) || ids_of(prev_out).contains(x)));
                    if ids_of(out@).contains(x) && x != p.0 {
                        let j = choose|j: int| 0 <= j < ids_of(out@).len() && ids_of(out@)[j] == x;
                        assert(ids_of(prev_out)[j] == x);
                    }
                    if ids_of(prev_out).contains(x) {
                        let j = choose|j: int| 0 <= j < ids_of(prev_out).len() && ids_of(prev_out)[j] == x;
                        assert(ids_of(out@)[j] == x);
                    }
                    if x == p.0 {
                        assert(ids_of(out@)[i as int] == x);
                    }
                }
            }
            i += 1;
        }
        self.waiting.clear();
        proof {
            assert(out@ =~= old_waiting);
            let ws = ids_of(old_waiting);
            assert forall|k: int| 0 <= k < out@.len() implies !old_started.contains(#[trigger] out@[k].0) by {
                assert(out@[k] == old_waiting[k]);
            }
            assert forall|a: int, b: int| 0 <= a < b < self.in_flight@.len() implies self.in_flight@[a] != self.in_flight@[b] by {
                let m = old_flight.len() as int;
                if b < m {
                    assert(old_flight[a] != old_flight[b]);
                } else if a < m {
                    assert(old_started.contains(old_flight[a]));
                    assert(self.in_flight@[b] == old_waiting[b - m].0);
                    assert(!old_started.contains(old_waiting[b - m].0));
                } else {
                    assert(ws[a - m] != ws[b - m]);
                }
            }
            assert forall|j: int| 0 <= j < self.in_flight@.len() implies self.started@.contains(#[trigger] self.in_flight@[j]) by {
                let m = old_flight.len() as int;
                if j >= m {
                    assert(ids_of(out@)[j - m] == self.in_flight@[j]);
                }
            }
            assert forall|x: u64| self.started@.contains(x) implies x < self.next_id by {
                if ids_of(out@).contains(x) {
                    let j = choose|j: int| 0 <= j < ids_of(out@).len() && ids_of(out@)[j] == x;
                    assert(old_waiting[j].0 == x);
                    assert(old(self).waiting@[j].0 < old(self).next_id);
                } else {
                    assert(old_started.contains(x));
                }
            }
        }
        out
    }

    /// Takes the result of one check of the fetch of request `id`. A pending
    /// fetch, or an `id` that has no fetch in flight, changes nothing. A
    /// finished fetch takes the request out of flight for good: a failed one
    /// spawns nothing, one that loaded `k` records hands out `k` fresh entity
    /// identities, one per feature record, returned in order.
    pub fn finish(&mut self, id: u64, outcome: FetchOutcome) -> (r: Vec<u64>)
        requires
            old(self).wf(),
            outcome matches FetchOutcome::Loaded(k) ==> old(self).next_entity() + k <= u64::MAX,
        ensures
            final(self).wf(),
            final(self).waiting() == old(self).waiting(),
            final(self).started() == old(self).started(),
            final(self).kind_spec() == old(self).kind_spec(),
            !old(self).in_flight().contains(id) || outcome == FetchOutcome::Pending ==> {
                &&& final(self).in_flight() == old(self).in_flight()
                &&& final(self).next_entity() == old(self).next_entity()
                &&& r@.len() == 0
            },
            old(self).in_flight().contains(id) && outcome != FetchOutcome::Pending ==> {
                &&& !final(self).in_flight().contains(id)
                &&& forall|x: u64| x != id ==> (final(self).in_flight().contains(x) <==> old(self).in_flight().contains(x))
                &&& final(self).in_flight().len() == old(self).in_flight().len() - 1
            },
            old(self).in_flight().contains(id) && outcome == FetchOutcome::Failed ==> {
                &&& r@.len() == 0
                &&& final(self).next_entity() == old(self).next_entity()
            },
            old(self).in_flight().contains(id) ==> (outcome matches FetchOutcome::Loaded(k) ==> {
                &&& r@ == fresh_ids(old(self).next_entity() as int, k as int)
                &&& final(self).next_entity() == old(self).next_entity() + k
            }),
    {
        let mut r: Vec<u64> = Vec::new();
        if let FetchOutcome::Pending = outcome {
            return r;
        }
        let n = self.in_flight.len();
        let mut i: usize = 0;
        while i < n && self.in_flight[i] != id
            invariant
                n == self.in_flight@.len(),
                i <= n,
                forall|j: int| 0 <= j < i ==> self.in_flight@[j] != id,
            decreases n - i,
        {
            i += 1;
        }
        if i == n {
            return r;
        }
        let ghost before = self.in_flight@;
        self.in_flight.remove(i);
        proof {
            assert(self.in_flight@ == before.remove(i as int));
            assert forall|x: u64| x != id implies (self.in_flight@.contains(x) <==> before.contains(x)) by {
                if before.contains(x) {
                    let j = choose|j: int| 0 <= j < before.len() && before[j] == x;
                    if j < i {
                        assert(self.in_flight@[j] == x);
                    } else {
                        assert(self.in_flight@[j - 1] == x);
                    }
                }
            }
            assert(!self.in_flight@.contains(id)) by {
                if self.in_flight@.contains(id) {
                    let j = choose|j: int| 0 <= j < self.in_flight@.len() && self.in_flight@[j] == id;
                    if j < i {
                        assert(before[j] == id);
                    } else {
                        assert(before[j + 1] == id);
                    }
                }
            }
            assert forall|a: int, b: int| 0 <= a < b < self.in_flight@.len() implies self.in_flight@[a] != self.in_flight@[b] by {
                let a0 = if a < i { a } else { a + 1 };
                let b0 = if b < i { b } else { b + 1 };
                assert(before[a0] != before[b0]);
            }
            assert forall|j: int| 0 <= j < self.in_flight@.len() implies self.started@.contains(#[trigger] self.in_flight@[j]) by {
                let j0 = if j < i { j } else { j + 1 };
                assert(self.in_flight@[j] == before[j0]);
            }
        }
        if let FetchOutcome::Loaded(k) = outcome {
            let start = self.next_id;
            let mut c: usize = 0;
            while c < k
                invariant
                    c <= k,
                    start as int + k <= u64::MAX,
                    r@ == fresh_ids(start as int, c as int),
                decreases k - c,
            {
                r.push(start + c as u64);
                c += 1;
                assert(r@ =~= fresh_ids(start as int, c as int));
            }
            self.next_id = start + k as u64;
            assert forall|j: int| 0 <= j < self.waiting@.len() implies !self.started@.contains(#[trigger] self.waiting@[j].0)
                && self.waiting@[j].0 < self.next_id by {
                assert(old(self).waiting@[j].0 < old(self).next_id);
            }
        }
        r
    }
}

/// A request entity never holds two fetches at once: each identity is in
/// flight at most once, and a request that waits for its fetch has none in
/// flight.
pub proof fn lemma_one_fetch_per_request(s: &LoadScheduler, id: u64)
    requires
        s.wf(),
    ensures
        forall|i: int, j: int|
            0 <= i < s.in_flight().len() && 0 <= j < s.in_flight().len() && s.in_flight()[i] == id
                && s.in_flight()[j] == id ==> i == j,
        s.in_flight().contains(id) ==> !ids_of(s.waiting()).contains(id),
{
    if s.in_flight().contains(id) && ids_of(s.waiting()).contains(id) {
        let j = choose|j: int| 0 <= j < ids_of(s.waiting()).len() && ids_of(s.waiting()).index(j) == id;
        let k = choose|k: int| 0 <= k < s.in_flight().len() && s.in_flight()[k] == id;
        assert(s.waiting()[j].0 == id);
        assert(s.started().contains(s.in_flight()[k]));
    }
}

} // verus!

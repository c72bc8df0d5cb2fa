//! The two-level cache of arranged collections, keyed by plan.
use vstd::prelude::*;

use crate::assoc::{
    assoc, keys_unique, lemma_assoc_absent, lemma_assoc_entry, lemma_assoc_key_has_entry,
    lemma_assoc_latest, lemma_assoc_update,
};
use crate::plan::{columns_equal, copy_columns, Plan, PlanModel};
use crate::time::{may_advance, Time};

verus! {

/// The identity of an arranged collection held by the engine. Two equal
/// identities denote the same shared handle.
pub type TraceId = usize;

/// The key of a keyed cache entry: a plan and an ordered sequence of columns.
pub type KeyedModel = (PlanModel, Seq<usize>);

/// Root handles to maintained collections: a map from plan to the arranged
/// forms of that collection.
pub struct TraceManager {
    /// Arrangements where the record itself is the key.
    inputs: Vec<(Plan, TraceId)>,
    /// Arrangements of collections by a sequence of key columns.
    arrangements: Vec<(Plan, Vec<usize>, TraceId)>,
    /// The latest time to which every cached trace was advanced.
    time: Option<Time>,
}

impl TraceManager {
    pub closed spec fn unkeyed_entries(&self) -> Seq<(PlanModel, TraceId)> {
        self.inputs@.map_values(|e: (Plan, TraceId)| (e.0@, e.1))
    }

    pub closed spec fn keyed_entries(&self) -> Seq<(KeyedModel, TraceId)> {
        self.arrangements@.map_values(|e: (Plan, Vec<usize>, TraceId)| ((e.0@, e.1@), e.2))
    }

    /// The unkeyed cache: plan to whole-record arrangement.
    pub closed spec fn unkeyed(&self) -> Map<PlanModel, TraceId> {
        assoc(self.unkeyed_entries())
    }

    /// The keyed cache: (plan, columns) to by-key arrangement.
    pub closed spec fn keyed(&self) -> Map<KeyedModel, TraceId> {
        assoc(self.keyed_entries())
    }

    /// The latest time the cached traces were advanced to, if any.
    pub closed spec fn time(&self) -> Option<Time> {
        self.time
    }

    /// Whether `id` is the value of some entry of either cache.
    pub open spec fn is_cached(&self, id: TraceId) -> bool {
        (exists|p: PlanModel| #[trigger]
            self.unkeyed().contains_key(p) && self.unkeyed()[p] == id) || (exists|k: KeyedModel|
            #[trigger] self.keyed().contains_key(k) && self.keyed()[k] == id)
    }

    /// At most one cached trace per key.
    pub closed spec fn wf(&self) -> bool {
        keys_unique(self.unkeyed_entries()) && keys_unique(self.keyed_entries())
    }

    /// Creates a new empty trace manager.
    pub fn new() -> (r: TraceManager)
        ensures
            r.wf(),
            r.unkeyed() == Map::<PlanModel, TraceId>::empty(),
            r.keyed() == Map::<KeyedModel, TraceId>::empty(),
            r.time() is None,
    {
        let r = TraceManager { inputs: Vec::new(), arrangements: Vec::new(), time: None };
        assert(r.unkeyed_entries().len() == 0);
        assert(r.keyed_entries().len() == 0);
        r
    }

    /// Drops every cached trace.
    pub fn clear(&mut self)
        ensures
            final(self).wf(),
            final(self).unkeyed() == Map::<PlanModel, TraceId>::empty(),
            final(self).keyed() == Map::<KeyedModel, TraceId>::empty(),
            final(self).time() == old(self).time(),
    {
        self.inputs.clear();
        self.arrangements.clear();
        assert(self.unkeyed_entries().len() == 0);
        assert(self.keyed_entries().len() == 0);
    }

    /// Records that every cached trace is advanced to `time`: no caller will
    /// ask for a state before it again.
    pub fn advance_time(&mut self, time: Time)
        requires
            may_advance(old(self).time(), time),
        ensures
            final(self).time() == Some(time),
            final(self).unkeyed() == old(self).unkeyed(),
            final(self).keyed() == old(self).keyed(),
            final(self).wf() == old(self).wf(),
    {
        self.time = Some(time);
    }

    /// The latest time the cached traces were advanced to, if any.
    pub fn current_time(&self) -> (r: Option<Time>)
        ensures
            r == self.time(),
    {
        self.time
    }

    /// Recovers the whole-record arrangement of `plan`, if it is cached.
    pub fn get_unkeyed(&self, plan: &Plan) -> (r: Option<TraceId>)
        ensures
            r == (if self.unkeyed().contains_key(plan@) {
                Some(self.unkeyed()[plan@])
            } else {
                None
            }),
    {
        let ghost s = self.unkeyed_entries();
        let mut i: usize = self.inputs.len();
        while i > 0
            invariant
                i <= self.inputs@.len(),
                s == self.unkeyed_entries(),
                forall|l: int| i <= l < s.len() ==> s[l].0 != plan@,
            decreases i,
        {
            i = i - 1;
            if self.inputs[i].0.same_as(plan) {
                proof {
                    lemma_assoc_latest(s, i as int, plan@);
                }
                return Some(self.inputs[i].1);
            }
        }
        proof {
            lemma_assoc_absent(s, plan@);
        }
        None
    }

    /// The position of the unkeyed entry for `plan`, if there is one.
    fn find_unkeyed(&self, plan: &Plan) -> (r: Option<usize>)
        ensures
            match r {
                Some(i) => i < self.inputs@.len() && self.unkeyed_entries()[i as int].0 == plan@,
                None => forall|l: int|
                    0 <= l < self.inputs@.len() ==> self.unkeyed_entries()[l].0 != plan@,
            },
    {
        let mut i: usize = 0;
        while i < self.inputs.len()
            invariant
                i <= self.inputs@.len(),
                forall|l: int| 0 <= l < i ==> self.unkeyed_entries()[l].0 != plan@,
            decreases self.inputs@.len() - i,
        {
            if self.inputs[i].0.same_as(plan) {
                return Some(i);
            }
            i = i + 1;
        }
        None
    }

    /// Installs `trace` as the whole-record arrangement of `plan`, replacing
    /// any earlier one.
    pub fn set_unkeyed(&mut self, plan: &Plan, trace: TraceId)
        requires
            old(self).wf(),
        ensures
            final(self).wf(),
            final(self).unkeyed() == old(self).unkeyed().insert(plan@, trace),
            final(self).keyed() == old(self).keyed(),
            final(self).time() == old(self).time(),
    {
        let ghost s = self.unkeyed_entries();
        match self.find_unkeyed(plan) {
            Some(i) => {
                let key = plan.duplicate();
                self.inputs.set(i, (key, trace));
                proof {
                    lemma_assoc_update(s, i as int, trace);
                    assert(self.unkeyed_entries() =~= s.update(i as int, (s[i as int].0, trace)));
                    assert(keys_unique(self.unkeyed_entries()));
                }
            },
            None => {
                self.inputs.push((plan.duplicate(), trace));
                proof {
                    let t = self.unkeyed_entries();
                    assert(t.drop_last() =~= s);
                    assert(forall|l: int| 0 <= l < s.len() ==> t[l] == s[l]);
                    assert(keys_unique(t));
                }
            },
        }
    }

    /// Recovers the arrangement of `plan` by the columns `keys`, if it is cached.
    pub fn get_keyed(&self, plan: &Plan, keys: &[usize]) -> (r: Option<TraceId>)
        ensures
            r == (if self.keyed().contains_key((plan@, keys@)) {
                Some(self.keyed()[(plan@, keys@)])
            } else {
                None
            }),
    {
        let ghost s = self.keyed_entries();
        let ghost k = (plan@, keys@);
        let mut i: usize = self.arrangements.len();
        while i > 0
            invariant
                i <= self.arrangements@.len(),
                s == self.keyed_entries(),
                k == (plan@, keys@),
                forall|l: int| i <= l < s.len() ==> s[l].0 != k,
            decreases i,
        {
            i = i - 1;
            let entry = &self.arrangements[i];
            if entry.0.same_as(plan) && columns_equal(entry.1.as_slice(), keys) {
                proof {
                    lemma_assoc_latest(s, i as int, k);
                }
                return Some(entry.2);
            }
        }
        proof {
            lemma_assoc_absent(s, k);
        }
        None
    }

    /// The position of the keyed entry for `plan` and `keys`, if there is one.
    fn find_keyed(&self, plan: &Plan, keys: &[usize]) -> (r: Option<usize>)
        ensures
            match r {
                Some(i) => i < self.arrangements@.len() && self.keyed_entries()[i as int].0 == (
                plan@,
                keys@,
                ),
                None => forall|l: int|
                    0 <= l < self.arrangements@.len() ==> self.keyed_entries()[l].0 != (
                    plan@,
                    keys@,
                    ),
            },
    {
        let mut i: usize = 0;
        while i < self.arrangements.len()
            invariant
                i <= self.arrangements@.len(),
                forall|l: int| 0 <= l < i ==> self.keyed_entries()[l].0 != (plan@, keys@),
            decreases self.arrangements@.len() - i,
        {
            let entry = &self.arrangements[i];
            if entry.0.same_as(plan) && columns_equal(entry.1.as_slice(), keys) {
                return Some(i);
            }
            i = i + 1;
        }
        None
    }

    /// Installs `trace` as the arrangement of `plan` by the columns `keys`,
    /// replacing any earlier one.
    pub fn set_keyed(&mut self, plan: &Plan, keys: &[usize], trace: TraceId)
        requires
            old(self).wf(),
        ensures
            final(self).wf(),
            final(self).keyed() == old(self).keyed().insert((plan@, keys@), trace),
            final(self).unkeyed() == old(self).unkeyed(),
            final(self).time() == old(self).time(),
    {
        let ghost s = self.keyed_entries();
        match self.find_keyed(plan, keys) {
            Some(i) => {
                let entry = (plan.duplicate(), copy_columns(keys), trace);
                self.arrangements.set(i, entry);
                proof {
                    lemma_assoc_update(s, i as int, trace);
                    assert(self.keyed_entries() =~= s.update(i as int, (s[i as int].0, trace)));
                    assert(keys_unique(self.keyed_entries()));
                }
            },
            None => {
                self.arrangements.push((plan.duplicate(), copy_columns(keys), trace));
                proof {
                    let t = self.keyed_entries();
                    assert(t.drop_last() =~= s);
                    assert(forall|l: int| 0 <= l < s.len() ==> t[l] == s[l]);
                    assert(keys_unique(t));
                }
            },
        }
    }

    /// Every cached trace, unkeyed and keyed: exactly the values of the two
    /// caches, each once per entry.
    pub fn cached_traces(&self) -> (r: Vec<TraceId>)
        requires
            self.wf(),
        ensures
            forall|p: PlanModel| #[trigger]
                self.unkeyed().contains_key(p) ==> r@.contains(self.unkeyed()[p]),
            forall|k: KeyedModel| #[trigger]
                self.keyed().contains_key(k) ==> r@.contains(self.keyed()[k]),
            forall|i: int| 0 <= i < r@.len() ==> #[trigger] self.is_cached(r@[i]),
    {
        let ghost u = self.unkeyed_entries();
        let ghost a = self.keyed_entries();
        let mut r: Vec<TraceId> = Vec::new();
        let mut i: usize = 0;
        while i < self.inputs.len()
            invariant
                i <= self.inputs@.len(),
                u == self.unkeyed_entries(),
                keys_unique(u),
                r@.len() == i,
                forall|l: int| 0 <= l < i ==> r@[l] == u[l].1,
            decreases self.inputs@.len() - i,
        {
            r.push(self.inputs[i].1);
            i = i + 1;
        }
        let mut j: usize = 0;
        while j < self.arrangements.len()
            invariant
                j <= self.arrangements@.len(),
                u == self.unkeyed_entries(),
                a == self.keyed_entries(),
                keys_unique(a),
                r@.len() == u.len() + j,
                forall|l: int| 0 <= l < u.len() ==> r@[l] == u[l].1,
                forall|l: int| 0 <= l < j ==> r@[u.len() + l] == a[l].1,
            decreases self.arrangements@.len() - j,
        {
            r.push(self.arrangements[j].2);
            j = j + 1;
        }
        proof {
            assert forall|p: PlanModel| #[trigger]
                self.unkeyed().contains_key(p) implies r@.contains(self.unkeyed()[p]) by {
                lemma_assoc_key_has_entry(u, p);
                let l = choose|l: int| 0 <= l < u.len() && u[l].0 == p && u[l].1 == assoc(u)[p];
                assert(r@[l] == self.unkeyed()[p]);
            }
            assert forall|k: KeyedModel| #[trigger]
                self.keyed().contains_key(k) implies r@.contains(self.keyed()[k]) by {
                lemma_assoc_key_has_entry(a, k);
                let l = choose|l: int| 0 <= l < a.len() && a[l].0 == k && a[l].1 == assoc(a)[k];
                assert(r@[u.len() + l] == self.keyed()[k]);
            }
            assert forall|i: int| 0 <= i < r@.len() implies #[trigger] self.is_cached(r@[i]) by {
                if i < u.len() {
                    lemma_assoc_entry(u, i);
                    assert(self.unkeyed().contains_key(u[i].0));
                } else {
                    lemma_assoc_entry(a, i - u.len());
                    assert(self.keyed().contains_key(a[i - u.len()].0));
                }
            }
        }
        r
    }
}

/// Cache identity, unkeyed: after a trace is installed under a plan, a
/// lookup with any structurally equal plan finds that same trace.
pub proof fn unkeyed_cache_identity(
    before: TraceManager,
    after: TraceManager,
    p1: Plan,
    p2: Plan,
    trace: TraceId,
)
    requires
        after.unkeyed() == before.unkeyed().insert(p1@, trace),
        p1@ == p2@,
    ensures
        after.unkeyed().contains_key(p2@),
        after.unkeyed()[p2@] == trace,
{
}

/// Cache identity, keyed: after a trace is installed under a plan and a
/// column sequence, a lookup with a structurally equal plan and an equal
/// column sequence finds that same trace.
pub proof fn keyed_cache_identity(
    before: TraceManager,
    after: TraceManager,
    p1: Plan,
    p2: Plan,
    keys1: Seq<usize>,
    keys2: Seq<usize>,
    trace: TraceId,
)
    requires
        after.keyed() == before.keyed().insert((p1@, keys1), trace),
        p1@ == p2@,
        keys1 == keys2,
    ensures
        after.keyed().contains_key((p2@, keys2)),
        after.keyed()[(p2@, keys2)] == trace,
{
}

/// Miss before set: a new manager into which the traces of `installs` were
/// installed in order, each by `set_unkeyed`, holds `assoc(installs)`; a plan
/// that none of them names is not cached.
pub proof fn miss_before_set(installs: Seq<(PlanModel, TraceId)>, p: PlanModel)
    requires
        forall|i: int| 0 <= i < installs.len() ==> installs[i].0 != p,
    ensures
        !assoc(installs).contains_key(p),
{
    lemma_assoc_absent(installs, p);
}

/// The cache after a sequence of installs on a new manager: installing
/// entry by entry from the empty map gives `assoc` of the entries.
pub proof fn installs_in_order(
    before: TraceManager,
    after: TraceManager,
    installs: Seq<(PlanModel, TraceId)>,
    p: PlanModel,
    trace: TraceId,
)
    requires
        before.unkeyed() == assoc(installs),
        after.unkeyed() == before.unkeyed().insert(p, trace),
    ensures
        after.unkeyed() == assoc(installs.push((p, trace))),
{
    assert(installs.push((p, trace)).drop_last() =~= installs);
}

} // verus!

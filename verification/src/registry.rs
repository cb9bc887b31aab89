//! The shared registry of admitted endpoints.
//!
//! A registry holds a bounded, ordered collection of accepted candidates
//! together with a membership index of deduplication keys. A candidate is
//! admitted only when its key is absent and the collection is not full;
//! a full registry drops further unique candidates silently, and their
//! keys are not recorded. The check-then-insert step for one candidate is
//! a single unit: a caller that wants exclusion among concurrent writers
//! wraps the registry in a lock and holds it for at least one candidate.

use vstd::prelude::*;

use crate::endpoint::{CandidateEndpoint, EndpointModel, clone_candidate, make_key};

verus! {

/// Mathematical image of the registry: the accepted endpoints in
/// admission order, and the fixed capacity.
pub ghost struct RegistryModel {
    pub entries: Seq<EndpointModel>,
    pub capacity: nat,
}

impl RegistryModel {
    /// True when some accepted entry has this deduplication key.
    pub open spec fn has_key(self, key: Seq<char>) -> bool {
        exists|i: int| 0 <= i < self.entries.len() && self.entries[i].key() == key
    }

    /// No two accepted entries share a deduplication key.
    pub open spec fn distinct_keys(self) -> bool {
        forall|i: int, j: int|
            0 <= i < j < self.entries.len() ==> self.entries[i].key() != self.entries[j].key()
    }

    /// The registry never outgrows its capacity and never holds two
    /// entries with one key.
    pub open spec fn wf(self) -> bool {
        self.entries.len() <= self.capacity && self.distinct_keys()
    }

    /// One candidate admitted: appended exactly when its key is new and
    /// there is room; otherwise the registry is unchanged.
    pub open spec fn admit_one(self, c: EndpointModel) -> RegistryModel {
        if self.has_key(c.key()) || self.entries.len() >= self.capacity {
            self
        } else {
            RegistryModel { entries: self.entries.push(c), capacity: self.capacity }
        }
    }

    /// A batch admitted candidate by candidate, in order.
    pub open spec fn admit_all(self, cs: Seq<EndpointModel>) -> RegistryModel
        decreases cs.len(),
    {
        if cs.len() == 0 {
            self
        } else {
            self.admit_one(cs[0]).admit_all(cs.drop_first())
        }
    }
}

/// The bounded, deduplicated store of accepted endpoints, with its
/// membership index of `address:port` keys.
pub struct Registry {
    entries: Vec<CandidateEndpoint>,
    keys: Vec<String>,
    capacity: usize,
}

impl View for Registry {
    type V = RegistryModel;

    closed spec fn view(&self) -> RegistryModel {
        RegistryModel { entries: self.entries.deep_view(), capacity: self.capacity as nat }
    }
}

impl Registry {
    /// Internal well-formedness: the index mirrors the collection, one
    /// key per entry, no key twice, never over capacity.
    pub closed spec fn inv(self) -> bool {
        &&& self.keys.len() == self.entries.len()
        &&& forall|i: int|
            0 <= i < self.entries.len() ==> self.keys[i]@ == self.entries.deep_view()[i].key()
        &&& self@.wf()
    }

    /// An empty registry with the given fixed capacity.
    pub fn new(capacity: usize) -> (r: Registry)
        ensures
            r.inv(),
            r@.entries.len() == 0,
            r@.capacity == capacity as nat,
            r@.wf(),
    {
        Registry { entries: Vec::new(), keys: Vec::new(), capacity }
    }

    /// How many endpoints have been accepted.
    pub fn len(&self) -> (n: usize)
        ensures
            n as nat == self@.entries.len(),
    {
        self.entries.len()
    }

    /// The fixed capacity the registry was created with.
    pub fn capacity(&self) -> (n: usize)
        ensures
            n as nat == self@.capacity,
    {
        self.capacity
    }

    /// Read access for consumers: the accepted endpoints in admission
    /// order.
    pub fn entries(&self) -> (r: &Vec<CandidateEndpoint>)
        ensures
            r.deep_view() == self@.entries,
    {
        &self.entries
    }

    /// Membership test over the key index.
    fn contains_key(&self, key: &String) -> (b: bool)
        requires
            self.inv(),
        ensures
            b == self@.has_key(key@),
    {
        let mut i: usize = 0;
        while i < self.keys.len()
            invariant
                self.inv(),
                i <= self.keys.len(),
                forall|j: int| 0 <= j < i ==> self.keys[j]@ != key@,
            decreases self.keys.len() - i,
        {
            if self.keys[i] == *key {
                assert(self@.entries[i as int].key() == key@);
                return true;
            }
            i += 1;
        }
        false
    }

    /// Admit one candidate: under one exclusive borrow, test membership
    /// and append, recording the key only when the append happens.
    pub fn admit_one(&mut self, c: CandidateEndpoint) -> (added: bool)
        requires
            old(self).inv(),
        ensures
            final(self).inv(),
            final(self)@ == old(self)@.admit_one(c@),
            added == !(old(self)@.has_key(c@.key()) || old(self)@.entries.len()
                >= old(self)@.capacity),
    {
        let key = make_key(c.address.as_str(), c.port);
        assert(key@ == c@.key());
        if self.contains_key(&key) {
            return false;
        }
        if self.entries.len() >= self.capacity {
            return false;
        }
        self.entries.push(c);
        self.keys.push(key);
        proof {
            assert(self.entries.deep_view() =~= old(self).entries.deep_view().push(c.deep_view()));
        }
        true
    }

    /// Admit a batch, candidate by candidate, in order; returns how many
    /// were newly added, which is for observability only.
    pub fn admit_batch(&mut self, candidates: &Vec<CandidateEndpoint>) -> (added: usize)
        requires
            old(self).inv(),
        ensures
            final(self).inv(),
            final(self)@ == old(self)@.admit_all(candidates.deep_view()),
            added as nat == final(self)@.entries.len() - old(self)@.entries.len(),
    {
        let ghost cs = candidates.deep_view();
        let mut added: usize = 0;
        let mut i: usize = 0;
        while i < candidates.len()
            invariant
                self.inv(),
                i <= candidates.len(),
                cs == candidates.deep_view(),
                cs.len() == candidates.len(),
                self@ == old(self)@.admit_all(cs.take(i as int)),
                old(self)@.entries.len() <= self@.entries.len(),
                added as nat == self@.entries.len() - old(self)@.entries.len(),
                added <= i,
            decreases candidates.len() - i,
        {
            let c = clone_candidate(&candidates[i]);
            assert(c@ == cs[i as int]);
            let one = self.admit_one(c);
            if one {
                added += 1;
            }
            proof {
                assert(cs.take(i + 1) =~= cs.take(i as int).push(cs[i as int]));
                lemma_admit_all_snoc(old(self)@, cs.take(i as int), cs[i as int]);
            }
            i += 1;
        }
        proof {
            assert(cs.take(candidates.len() as int) =~= cs);
        }
        added
    }
}

/// Admitting one candidate keeps the registry well formed: the bound is
/// respected and no two entries ever share a deduplication key.
pub proof fn lemma_admit_one_preserves_wf(m: RegistryModel, c: EndpointModel)
    requires
        m.wf(),
    ensures
        m.admit_one(c).wf(),
{
    let r = m.admit_one(c);
    if !(m.has_key(c.key()) || m.entries.len() >= m.capacity) {
        assert forall|i: int, j: int| 0 <= i < j < r.entries.len() implies r.entries[i].key()
            != r.entries[j].key() by {
            if j == r.entries.len() - 1 {
                assert(r.entries[i] == m.entries[i]);
                assert(!m.has_key(c.key()));
            }
        }
    }
}

/// Admitting any batch keeps the registry well formed, whatever the
/// interleaving of batches that produced the starting state.
pub proof fn lemma_admit_all_preserves_wf(m: RegistryModel, cs: Seq<EndpointModel>)
    requires
        m.wf(),
    ensures
        m.admit_all(cs).wf(),
    decreases cs.len(),
{
    if cs.len() > 0 {
        lemma_admit_one_preserves_wf(m, cs[0]);
        lemma_admit_all_preserves_wf(m.admit_one(cs[0]), cs.drop_first());
    }
}

/// Admission only grows the registry: the capacity stays fixed, entries
/// are never removed, and a key once present stays present.
pub proof fn lemma_admit_all_monotone(m: RegistryModel, cs: Seq<EndpointModel>)
    ensures
        m.admit_all(cs).capacity == m.capacity,
        m.entries.len() <= m.admit_all(cs).entries.len(),
        forall|k: Seq<char>| m.has_key(k) ==> #[trigger] m.admit_all(cs).has_key(k),
    decreases cs.len(),
{
    if cs.len() > 0 {
        let m1 = m.admit_one(cs[0]);
        assert forall|k: Seq<char>| m.has_key(k) implies #[trigger] m1.has_key(k) by {
            let w = choose|i: int|
                0 <= i < m.entries.len() && m.entries[i].key() == k;
            assert(m1.entries[w].key() == k);
        }
        lemma_admit_all_monotone(m1, cs.drop_first());
    }
}

/// A registry that has already admitted a batch rejects each of the
/// batch's candidates.
proof fn lemma_admit_all_rejects_own(m: RegistryModel, cs: Seq<EndpointModel>)
    ensures
        forall|i: int|
            0 <= i < cs.len() ==> #[trigger] m.admit_all(cs).admit_one(cs[i]) == m.admit_all(cs),
    decreases cs.len(),
{
    if cs.len() > 0 {
        let m1 = m.admit_one(cs[0]);
        let r = m.admit_all(cs);
        assert(r == m1.admit_all(cs.drop_first()));
        lemma_admit_all_rejects_own(m1, cs.drop_first());
        lemma_admit_all_monotone(m1, cs.drop_first());
        assert forall|i: int| 0 <= i < cs.len() implies #[trigger] r.admit_one(cs[i]) == r by {
            if i == 0 {
                if m.has_key(cs[0].key()) || m.entries.len() >= m.capacity {
                    if m.has_key(cs[0].key()) {
                        assert(r.has_key(cs[0].key()));
                    } else {
                        assert(m1.entries.len() >= m1.capacity);
                        assert(r.entries.len() >= r.capacity);
                    }
                } else {
                    assert(m1.entries[m1.entries.len() - 1].key() == cs[0].key());
                    assert(m1.has_key(cs[0].key()));
                    assert(r.has_key(cs[0].key()));
                }
            } else {
                assert(cs.drop_first()[i - 1] == cs[i]);
            }
        }
    }
}

/// A batch each of whose candidates the registry rejects changes nothing
/// when admitted.
proof fn lemma_admit_all_fixed(m: RegistryModel, cs: Seq<EndpointModel>)
    requires
        forall|i: int| 0 <= i < cs.len() ==> #[trigger] m.admit_one(cs[i]) == m,
    ensures
        m.admit_all(cs) == m,
    decreases cs.len(),
{
    if cs.len() > 0 {
        assert(m.admit_one(cs[0]) == m);
        assert(forall|i: int|
            0 <= i < cs.drop_first().len() ==> #[trigger] m.admit_one(cs.drop_first()[i]) == m);
        lemma_admit_all_fixed(m, cs.drop_first());
    }
}

/// Idempotence of admission: admitting the same batch a second time
/// changes nothing, so the second call adds zero entries and each unique
/// key still backs exactly one entry.
pub proof fn lemma_admit_all_idempotent(m: RegistryModel, cs: Seq<EndpointModel>)
    ensures
        m.admit_all(cs).admit_all(cs) == m.admit_all(cs),
{
    lemma_admit_all_rejects_own(m, cs);
    lemma_admit_all_fixed(m.admit_all(cs), cs);
}

/// Nothing of a batch is lost silently but to the capacity bound: once
/// a batch is admitted, each of its candidates has its key stored, or
/// the registry is full.
pub proof fn lemma_admit_all_accounts_for_batch(m: RegistryModel, cs: Seq<EndpointModel>)
    ensures
        forall|i: int|
            0 <= i < cs.len() ==> #[trigger] m.admit_all(cs).has_key(cs[i].key()) || m.admit_all(
                cs,
            ).entries.len() >= m.admit_all(cs).capacity,
{
    lemma_admit_all_rejects_own(m, cs);
    let r = m.admit_all(cs);
    assert forall|i: int|
        0 <= i < cs.len() implies #[trigger] r.has_key(cs[i].key()) || r.entries.len()
        >= r.capacity by {
        assert(r.admit_one(cs[i]) == r);
        if !(r.has_key(cs[i].key()) || r.entries.len() >= r.capacity) {
            assert(r.admit_one(cs[i]).entries.len() == r.entries.len() + 1);
        }
    }
}

/// Splitting the last candidate off a batch: admitting `cs` then `c`
/// equals admitting `cs.push(c)`.
pub proof fn lemma_admit_all_snoc(m: RegistryModel, cs: Seq<EndpointModel>, c: EndpointModel)
    ensures
        m.admit_all(cs.push(c)) == m.admit_all(cs).admit_one(c),
    decreases cs.len(),
{
    if cs.len() == 0 {
        assert(cs.push(c).drop_first() =~= Seq::<EndpointModel>::empty());
        assert(cs.push(c)[0] == c);
        assert(m.admit_all(cs.push(c)) == m.admit_one(c).admit_all(cs.push(c).drop_first()));
        assert(m.admit_one(c).admit_all(Seq::<EndpointModel>::empty()) == m.admit_one(c));
        assert(m.admit_all(cs) == m);
    } else {
        assert(cs.push(c).drop_first() =~= cs.drop_first().push(c));
        assert(cs.push(c)[0] == cs[0]);
        assert(m.admit_all(cs.push(c)) == m.admit_one(cs[0]).admit_all(cs.drop_first().push(c)));
        lemma_admit_all_snoc(m.admit_one(cs[0]), cs.drop_first(), c);
        assert(m.admit_all(cs) == m.admit_one(cs[0]).admit_all(cs.drop_first()));
    }
}

} // verus!

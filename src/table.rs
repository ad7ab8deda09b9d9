use std::collections::BTreeMap;
use vstd::multiset::Multiset;
use vstd::prelude::*;

verus! {

broadcast use vstd::std_specs::btree::group_btree_axioms, vstd::multiset::group_multiset_axioms;

/// `m` lists, for each syscall id that occurs in `events`, how often it occurs, and no other id.
pub open spec fn counts_match(m: Map<u32, u64>, events: Multiset<u32>) -> bool {
    forall|id: u32|
        #![trigger m.contains_key(id)]
        #![trigger events.count(id)]
        (m.contains_key(id) <==> events.count(id) > 0) && (m.contains_key(id) ==> m[id] as nat
            == events.count(id))
}

/// The table that lists each id occurring in `events` with its number of occurrences.
pub open spec fn counts_map(events: Multiset<u32>) -> Map<u32, u64> {
    Map::new(|id: u32| events.count(id) > 0, |id: u32| events.count(id) as u64)
}

/// What `serde_json::to_vec` writes for a table of counts.
pub uninterp spec fn counts_json(m: Map<u32, u64>) -> Seq<u8>;

#[verifier::external_type_specification]
#[verifier::external_body]
pub struct ExJsonError(serde_json::Error);

/// Relies on `serde_json::to_vec`: the bytes of one JSON object that holds each entry, its key
/// as decimal text; a `BTreeMap` is walked in key order, so the bytes depend on the entries
/// alone. Integer keys and values always encode, and writing into a `Vec` never fails, so the
/// call succeeds.
#[verifier::external_body]
fn counts_to_json(m: &BTreeMap<u32, u64>) -> (r: Result<Vec<u8>, serde_json::Error>)
    ensures
        r is Ok,
        r matches Ok(b) ==> b@ == counts_json(m@),
{
    serde_json::to_vec(m)
}

/// Why a snapshot could not be written out.
#[derive(Clone, Copy, Debug, PartialEq, Eq, Structural)]
pub enum SnapshotError {
    /// The JSON encoder failed.
    Encoding,
}

proof fn lemma_counts_match_is_counts_map(m: Map<u32, u64>, events: Multiset<u32>)
    requires
        counts_match(m, events),
    ensures
        m == counts_map(events),
{
    assert(m =~= counts_map(events));
}

/// Per-syscall occurrence counts. Its view is the multiset of syscall ids recorded so far.
pub struct SyscallCounter {
    counts: BTreeMap<u32, u64>,
    events: Ghost<Multiset<u32>>,
}

impl View for SyscallCounter {
    type V = Multiset<u32>;

    closed spec fn view(&self) -> Multiset<u32> {
        self.events@
    }
}

impl SyscallCounter {
    pub closed spec fn wf(&self) -> bool {
        counts_match(self.counts@, self.events@)
    }

    /// An empty table.
    pub fn new() -> (r: SyscallCounter)
        ensures
            r.wf(),
            r@ == Multiset::<u32>::empty(),
    {
        SyscallCounter { counts: BTreeMap::new(), events: Ghost(Multiset::empty()) }
    }

    /// How many times `syscall_id` has been recorded.
    pub fn count(&self, syscall_id: u32) -> (r: u64)
        requires
            self.wf(),
        ensures
            r as nat == self@.count(syscall_id),
    {
        match self.counts.get(&syscall_id) {
            Some(v) => *v,
            None => 0,
        }
    }

    /// Records one more occurrence of `syscall_id`.
    pub fn push_syscall(&mut self, syscall_id: u32)
        requires
            old(self).wf(),
            old(self)@.count(syscall_id) < u64::MAX,
        ensures
            final(self).wf(),
            final(self)@ == old(self)@.insert(syscall_id),
    {
        let c = self.count(syscall_id);
        self.counts.insert(syscall_id, c + 1);
        self.events = Ghost(self.events@.insert(syscall_id));
        assert forall|id: u32| #[trigger] self.counts@.contains_key(id) implies self.counts@[id]
            as nat == self.events@.count(id) by {
            if id != syscall_id {
                assert(old(self).counts@.contains_key(id));
            }
        }
    }

    /// A copy of the table: each recorded syscall id with its count.
    pub fn snapshot(&self) -> (r: BTreeMap<u32, u64>)
        requires
            self.wf(),
        ensures
            r@ == counts_map(self@),
    {
        proof {
            lemma_counts_match_is_counts_map(self.counts@, self.events@);
        }
        self.counts.clone()
    }

    /// The snapshot as a JSON object that maps each syscall id, as text, to its count.
    pub fn snapshot_json(&self) -> (r: Result<Vec<u8>, SnapshotError>)
        requires
            self.wf(),
        ensures
            r is Ok,
            r matches Ok(b) ==> b@ == counts_json(counts_map(self@)),
    {
        proof {
            lemma_counts_match_is_counts_map(self.counts@, self.events@);
        }
        match counts_to_json(&self.counts) {
            Ok(b) => Ok(b),
            Err(_) => Err(SnapshotError::Encoding),
        }
    }
}

/// Two snapshots of the same counts are the same mapping.
pub proof fn lemma_snapshot_determined(a: Map<u32, u64>, b: Map<u32, u64>, events: Multiset<u32>)
    requires
        counts_match(a, events),
        counts_match(b, events),
    ensures
        a == b,
{
    assert(a =~= b) by {
        assert forall|id: u32| a.contains_key(id) <==> b.contains_key(id) by {
            assert(a.contains_key(id) <==> events.count(id) > 0);
        }
    }
}

} // verus!

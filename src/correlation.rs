use vstd::prelude::*;

verus! {

/// What a correlation state holds: the candidate process ids and the matched control group.
pub struct CorrelationView {
    pub candidates: Seq<u32>,
    pub matched: Option<u64>,
}

/// The candidate process ids of the monitored container, fixed at construction, and the
/// control group inferred for it, set at most once.
pub struct CorrelationState {
    candidates: Vec<u32>,
    matched: Option<u64>,
}

impl View for CorrelationState {
    type V = CorrelationView;

    closed spec fn view(&self) -> CorrelationView {
        CorrelationView { candidates: self.candidates@, matched: self.matched }
    }
}

impl CorrelationState {
    /// A state over `proc_list` with no group matched yet.
    pub fn new(proc_list: Vec<u32>) -> (r: CorrelationState)
        ensures
            r@.candidates == proc_list@,
            r@.matched is None,
    {
        CorrelationState { candidates: proc_list, matched: None }
    }

    /// The candidate process ids.
    pub fn get_proc_list(&self) -> (r: &Vec<u32>)
        ensures
            r@ == self@.candidates,
    {
        &self.candidates
    }

    /// Whether `pid` is among the candidates.
    pub fn is_candidate(&self, pid: u32) -> (r: bool)
        ensures
            r == self@.candidates.contains(pid),
    {
        let mut i: usize = 0;
        while i < self.candidates.len()
            invariant
                i <= self.candidates@.len(),
                forall|j: int| 0 <= j < i ==> self.candidates@[j] != pid,
            decreases self.candidates@.len() - i,
        {
            if self.candidates[i] == pid {
                assert(self.candidates@[i as int] == pid);
                return true;
            }
            i = i + 1;
        }
        false
    }

    /// The matched control group, if one has been set.
    pub fn get_cgroup_flag(&self) -> (r: Option<u64>)
        ensures
            r == self@.matched,
    {
        self.matched
    }

    /// Sets the matched control group to `cgroup_id` unless one is set already: the first
    /// writer wins and later writes change nothing.
    pub fn set_cgroup_flag(&mut self, cgroup_id: u64)
        ensures
            final(self)@.candidates == old(self)@.candidates,
            final(self)@.matched == set_once(old(self)@.matched, cgroup_id),
    {
        if self.matched.is_none() {
            self.matched = Some(cgroup_id);
        }
    }
}

/// The matched group after one attempt to set it to `cgroup_id`.
pub open spec fn set_once(matched: Option<u64>, cgroup_id: u64) -> Option<u64> {
    if matched is Some {
        matched
    } else {
        Some(cgroup_id)
    }
}

/// The matched group after attempts to set it to each of `attempts`, in order.
pub open spec fn set_each(matched: Option<u64>, attempts: Seq<u64>) -> Option<u64>
    decreases attempts.len(),
{
    if attempts.len() == 0 {
        matched
    } else {
        set_once(set_each(matched, attempts.drop_last()), attempts.last())
    }
}

/// The first writer wins: from an unset group, any attempts in order leave it at the first
/// attempt's value, whatever the later ones carry; with a group set, no attempt changes it.
pub proof fn lemma_first_writer_wins(matched: Option<u64>, attempts: Seq<u64>)
    ensures
        matched is Some ==> set_each(matched, attempts) == matched,
        matched is None && attempts.len() > 0 ==> set_each(matched, attempts) == Some(attempts[0]),
        matched is None && attempts.len() == 0 ==> set_each(matched, attempts) is None,
    decreases attempts.len(),
{
    if attempts.len() > 0 {
        lemma_first_writer_wins(matched, attempts.drop_last());
        if attempts.len() > 1 {
            assert(attempts.drop_last()[0] == attempts[0]);
        }
    }
}

} // verus!

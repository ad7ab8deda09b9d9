use std::collections::BTreeMap;
use vstd::multiset::Multiset;
use vstd::prelude::*;
use crate::correlation::CorrelationState;
use crate::record::{decode, decodes_to, native_order, ByteOrder, DecodeError, TraceRecord, RECORD_SIZE};
use crate::table::{counts_json, counts_map, SnapshotError, SyscallCounter};

verus! {

broadcast use vstd::multiset::group_multiset_axioms;

/// What a monitor holds: the candidate process ids, the matched control group, and the
/// multiset of syscall ids counted so far.
pub struct MonitorModel {
    pub candidates: Seq<u32>,
    pub matched: Option<u64>,
    pub counts: Multiset<u32>,
}

/// The record belongs to the group that was matched already.
pub open spec fn fast_path(s: MonitorModel, r: TraceRecord) -> bool {
    s.matched == Some(r.cgroup_id)
}

/// The record is attributed to the monitored container, and so counted.
pub open spec fn attributed(s: MonitorModel, r: TraceRecord) -> bool {
    fast_path(s, r) || s.candidates.contains(r.pid)
}

/// The state after one record.
pub open spec fn step(s: MonitorModel, r: TraceRecord) -> MonitorModel {
    if fast_path(s, r) {
        MonitorModel {
            candidates: s.candidates,
            matched: s.matched,
            counts: s.counts.insert(r.syscall_id),
        }
    } else if s.candidates.contains(r.pid) {
        MonitorModel {
            candidates: s.candidates,
            matched: if s.matched is Some {
                s.matched
            } else {
                Some(r.cgroup_id)
            },
            counts: s.counts.insert(r.syscall_id),
        }
    } else {
        s
    }
}

/// The state after the records `rs`, in delivery order.
pub open spec fn run(s: MonitorModel, rs: Seq<TraceRecord>) -> MonitorModel
    decreases rs.len(),
{
    if rs.len() == 0 {
        s
    } else {
        step(run(s, rs.drop_last()), rs.last())
    }
}

/// Why a raw event was not handled.
#[derive(Clone, Copy, Debug, PartialEq, Eq, Structural)]
pub enum EventError {
    /// The buffer holds fewer than a record's bytes.
    Truncated { len: usize },
    /// The record was attributed, but the count of its syscall is at its largest value.
    CountFull { syscall_id: u32 },
}

/// What handling the decoded record `rec` in state `s` returns (`r`) and leaves (`t`).
pub open spec fn event_outcome(
    s: MonitorModel,
    rec: TraceRecord,
    r: Result<Option<TraceRecord>, EventError>,
    t: MonitorModel,
) -> bool {
    if !attributed(s, rec) {
        r == Ok::<Option<TraceRecord>, EventError>(None) && t == s
    } else if s.counts.count(rec.syscall_id) == u64::MAX {
        r == Err::<Option<TraceRecord>, EventError>(
            EventError::CountFull { syscall_id: rec.syscall_id },
        ) && t == s
    } else {
        r == Ok::<Option<TraceRecord>, EventError>(Some(rec)) && t == step(s, rec)
    }
}

/// The correlation and counting engine: decides for each record whether it belongs to the
/// monitored container and counts the syscalls of those that do.
pub struct Monitor {
    correlation: CorrelationState,
    counter: SyscallCounter,
}

impl View for Monitor {
    type V = MonitorModel;

    closed spec fn view(&self) -> MonitorModel {
        MonitorModel {
            candidates: self.correlation@.candidates,
            matched: self.correlation@.matched,
            counts: self.counter@,
        }
    }
}

impl Monitor {
    pub closed spec fn wf(&self) -> bool {
        self.counter.wf()
    }

    /// A monitor over the candidate process ids `proc_list`, with no group matched and
    /// nothing counted.
    pub fn new(proc_list: Vec<u32>) -> (r: Monitor)
        ensures
            r.wf(),
            r@ == (MonitorModel {
                candidates: proc_list@,
                matched: None,
                counts: Multiset::empty(),
            }),
    {
        Monitor { correlation: CorrelationState::new(proc_list), counter: SyscallCounter::new() }
    }

    /// The correlation state.
    pub fn correlation(&self) -> (r: &CorrelationState)
        ensures
            r@.candidates == self@.candidates,
            r@.matched == self@.matched,
    {
        &self.correlation
    }

    /// The matched control group, if any.
    pub fn matched_group(&self) -> (r: Option<u64>)
        ensures
            r == self@.matched,
    {
        self.correlation.get_cgroup_flag()
    }

    /// How many times `syscall_id` has been counted.
    pub fn count(&self, syscall_id: u32) -> (r: u64)
        requires
            self.wf(),
        ensures
            r as nat == self@.counts.count(syscall_id),
    {
        self.counter.count(syscall_id)
    }

    /// A copy of the frequency table: each counted syscall id with its count.
    pub fn snapshot(&self) -> (r: BTreeMap<u32, u64>)
        requires
            self.wf(),
        ensures
            r@ == counts_map(self@.counts),
    {
        self.counter.snapshot()
    }

    /// The snapshot as a JSON object that maps each syscall id, as text, to its count.
    pub fn snapshot_json(&self) -> (r: Result<Vec<u8>, SnapshotError>)
        requires
            self.wf(),
        ensures
            r is Ok,
            r matches Ok(b) ==> b@ == counts_json(counts_map(self@.counts)),
    {
        self.counter.snapshot_json()
    }

    /// Decides whether `r` belongs to the monitored container and, if so, counts its syscall.
    /// A record of the matched group is counted at once; any other is counted when its
    /// process id is a candidate, and then sets the matched group if none is set yet.
    /// Returns whether the record was counted.
    pub fn dispatch(&mut self, r: &TraceRecord) -> (counted: bool)
        requires
            old(self).wf(),
            attributed(old(self)@, *r) ==> old(self)@.counts.count(r.syscall_id) < u64::MAX,
        ensures
            final(self).wf(),
            final(self)@ == step(old(self)@, *r),
            counted == attributed(old(self)@, *r),
            fast_path(old(self)@, *r) ==> counted,
    {
        let fast = match self.correlation.get_cgroup_flag() {
            Some(g) => g == r.cgroup_id,
            None => false,
        };
        if fast {
            self.counter.push_syscall(r.syscall_id);
            true
        } else if self.correlation.is_candidate(r.pid) {
            self.correlation.set_cgroup_flag(r.cgroup_id);
            self.counter.push_syscall(r.syscall_id);
            true
        } else {
            false
        }
    }

    /// Dispatches the records of one batch in delivery order. Returns how many were counted.
    pub fn dispatch_batch(&mut self, rs: &Vec<TraceRecord>) -> (n: usize)
        requires
            old(self).wf(),
            old(self)@.counts.len() + rs@.len() < u64::MAX,
        ensures
            final(self).wf(),
            final(self)@ == run(old(self)@, rs@),
            n == n_counted(old(self)@, rs@),
    {
        let ghost s0 = self@;
        let mut n: usize = 0;
        let mut i: usize = 0;
        while i < rs.len()
            invariant
                self.wf(),
                i <= rs@.len(),
                n <= i,
                self@ == run(s0, rs@.take(i as int)),
                n == n_counted(s0, rs@.take(i as int)),
                self@.counts.len() == s0.counts.len() + n,
                s0.counts.len() + rs@.len() < u64::MAX,
            decreases rs@.len() - i,
        {
            proof {
                assert(rs@.take(i + 1).drop_last() =~= rs@.take(i as int));
                lemma_counting_conservation(s0, rs@.take(i + 1));
            }
            if self.dispatch(&rs[i]) {
                n = n + 1;
            }
            i = i + 1;
        }
        assert(rs@.take(i as int) =~= rs@);
        n
    }

    /// Handles one raw record whose integers are laid out in `order`: decodes it and
    /// dispatches it. Returns the record if it was counted, `None` if it was ignored.
    pub fn handle_event_in_order(&mut self, x: &[u8], order: ByteOrder) -> (r: Result<
        Option<TraceRecord>,
        EventError,
    >)
        requires
            old(self).wf(),
        ensures
            final(self).wf(),
            x@.len() < RECORD_SIZE ==> r == Err::<Option<TraceRecord>, EventError>(
                EventError::Truncated { len: x@.len() as usize },
            ) && final(self)@ == old(self)@,
            x@.len() >= RECORD_SIZE ==> exists|rec: TraceRecord|
                decodes_to(x@, order, rec) && event_outcome(old(self)@, rec, r, final(self)@),
    {
        let rec = match decode(x, order) {
            Ok(rec) => rec,
            Err(DecodeError::Truncated { len }) => {
                return Err(EventError::Truncated { len });
            },
        };
        let fast = match self.correlation.get_cgroup_flag() {
            Some(g) => g == rec.cgroup_id,
            None => false,
        };
        if !fast && !self.correlation.is_candidate(rec.pid) {
            return Ok(None);
        }
        if self.counter.count(rec.syscall_id) == u64::MAX {
            return Err(EventError::CountFull { syscall_id: rec.syscall_id });
        }
        self.dispatch(&rec);
        Ok(Some(rec))
    }

    /// Handles one raw record as the trace source delivers it, in the machine's own byte
    /// order: decodes it and dispatches it. Returns the record if it was counted, `None` if it
    /// was ignored.
    pub fn handle_event(&mut self, x: &[u8]) -> (r: Result<Option<TraceRecord>, EventError>)
        requires
            old(self).wf(),
        ensures
            final(self).wf(),
            x@.len() < RECORD_SIZE ==> r == Err::<Option<TraceRecord>, EventError>(
                EventError::Truncated { len: x@.len() as usize },
            ) && final(self)@ == old(self)@,
            x@.len() >= RECORD_SIZE ==> exists|rec: TraceRecord|
                (decodes_to(x@, ByteOrder::Little, rec) || decodes_to(x@, ByteOrder::Big, rec))
                    && event_outcome(old(self)@, rec, r, final(self)@),
    {
        let order = native_order();
        let r = self.handle_event_in_order(x, order);
        assert(order == ByteOrder::Little || order == ByteOrder::Big);
        r
    }
}

/// The control group of the first record of `rs`, in delivery order, whose process id is among
/// `candidates`; `None` if there is no such record.
pub open spec fn first_match(candidates: Seq<u32>, rs: Seq<TraceRecord>) -> Option<u64>
    decreases rs.len(),
{
    if rs.len() == 0 {
        None
    } else {
        let m = first_match(candidates, rs.drop_last());
        if m is Some {
            m
        } else if candidates.contains(rs.last().pid) {
            Some(rs.last().cgroup_id)
        } else {
            None
        }
    }
}

/// How many of the records `rs`, fed in order from state `s`, are counted.
pub open spec fn n_counted(s: MonitorModel, rs: Seq<TraceRecord>) -> nat
    decreases rs.len(),
{
    if rs.len() == 0 {
        0
    } else {
        n_counted(s, rs.drop_last()) + if attributed(run(s, rs.drop_last()), rs.last()) {
            1nat
        } else {
            0nat
        }
    }
}

/// The candidate process ids never change.
pub proof fn lemma_candidates_fixed(s: MonitorModel, rs: Seq<TraceRecord>)
    ensures
        run(s, rs).candidates == s.candidates,
    decreases rs.len(),
{
    if rs.len() > 0 {
        lemma_candidates_fixed(s, rs.drop_last());
    }
}

/// The matched group is written once: after any records, it is the group it was before if one
/// was set, and otherwise the group of the first record whose process id is a candidate.
/// Later records with other groups leave it as it is.
pub proof fn lemma_write_once(s: MonitorModel, rs: Seq<TraceRecord>)
    ensures
        run(s, rs).matched == (if s.matched is Some {
            s.matched
        } else {
            first_match(s.candidates, rs)
        }),
    decreases rs.len(),
{
    if rs.len() > 0 {
        lemma_write_once(s, rs.drop_last());
        lemma_candidates_fixed(s, rs.drop_last());
    }
}

/// The table grows by exactly one count for each record that is counted, and by nothing else.
pub proof fn lemma_counting_conservation(s: MonitorModel, rs: Seq<TraceRecord>)
    ensures
        run(s, rs).counts.len() == s.counts.len() + n_counted(s, rs),
    decreases rs.len(),
{
    if rs.len() > 0 {
        lemma_counting_conservation(s, rs.drop_last());
    }
}

/// The syscall ids of the records among `rs`, fed in order from state `s`, that are counted.
pub open spec fn counted_ids(s: MonitorModel, rs: Seq<TraceRecord>) -> Multiset<u32>
    decreases rs.len(),
{
    if rs.len() == 0 {
        Multiset::empty()
    } else {
        let before = counted_ids(s, rs.drop_last());
        if attributed(run(s, rs.drop_last()), rs.last()) {
            before.insert(rs.last().syscall_id)
        } else {
            before
        }
    }
}

/// No increment is lost or duplicated: each syscall id's count grows by exactly the number of
/// counted records that carry it, and the ids counted are as many as the records counted.
pub proof fn lemma_counts_per_syscall(s: MonitorModel, rs: Seq<TraceRecord>)
    ensures
        run(s, rs).counts == s.counts.add(counted_ids(s, rs)),
        counted_ids(s, rs).len() == n_counted(s, rs),
    decreases rs.len(),
{
    if rs.len() == 0 {
        assert(s.counts.add(Multiset::empty()) =~= s.counts);
    } else {
        lemma_counts_per_syscall(s, rs.drop_last());
        let before = counted_ids(s, rs.drop_last());
        let x = rs.last().syscall_id;
        assert(s.counts.add(before).insert(x) =~= s.counts.add(before.insert(x)));
    }
}

/// With no candidate process ids and no matched group, no record is ever counted: any records
/// leave the state, and so the table, as it was.
pub proof fn lemma_empty_candidates(s: MonitorModel, rs: Seq<TraceRecord>)
    requires
        s.candidates.len() == 0,
        s.matched is None,
    ensures
        run(s, rs) == s,
        n_counted(s, rs) == 0,
    decreases rs.len(),
{
    if rs.len() > 0 {
        lemma_empty_candidates(s, rs.drop_last());
        assert(!s.candidates.contains(rs.last().pid));
    }
}

/// Once a group is matched, a record of that group is counted whatever its process id, and
/// the matched group stays.
pub proof fn lemma_fast_path(s: MonitorModel, r: TraceRecord)
    requires
        s.matched == Some(r.cgroup_id),
    ensures
        attributed(s, r),
        step(s, r).counts == s.counts.insert(r.syscall_id),
        step(s, r).matched == s.matched,
{
}

} // verus!

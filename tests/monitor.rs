use secmonitor::correlation::CorrelationState;
use secmonitor::monitor::{EventError, Monitor};
use secmonitor::record::{ByteOrder, TraceRecord};
use std::collections::BTreeMap;

fn rec(cgroup_id: u64, pid: u32, syscall_id: u32) -> TraceRecord {
    TraceRecord { cgroup_id, syscall_id, pid, comm: *b"worker\0\0\0\0\0\0\0\0\0\0" }
}

fn raw(r: &TraceRecord) -> Vec<u8> {
    let mut v = Vec::new();
    v.extend_from_slice(&r.cgroup_id.to_ne_bytes());
    v.extend_from_slice(&r.syscall_id.to_ne_bytes());
    v.extend_from_slice(&r.pid.to_ne_bytes());
    v.extend_from_slice(&r.comm);
    v
}

fn table(entries: &[(u32, u64)]) -> BTreeMap<u32, u64> {
    entries.iter().cloned().collect()
}

#[test]
fn scenario_four_records() {
    let mut m = Monitor::new(vec![42]);
    assert!(!m.dispatch(&rec(7, 99, 1)));
    assert_eq!(m.matched_group(), None);
    assert!(m.snapshot().is_empty());
    assert!(m.dispatch(&rec(7, 42, 2)));
    assert_eq!(m.matched_group(), Some(7));
    assert_eq!(m.snapshot(), table(&[(2, 1)]));
    assert!(m.dispatch(&rec(7, 1, 2)));
    assert_eq!(m.snapshot(), table(&[(2, 2)]));
    assert!(m.dispatch(&rec(9, 42, 3)));
    assert_eq!(m.snapshot(), table(&[(2, 2), (3, 1)]));
    assert_eq!(m.matched_group(), Some(7));
}

#[test]
fn empty_candidates_count_nothing() {
    let mut m = Monitor::new(vec![]);
    for i in 0..50u32 {
        assert!(!m.dispatch(&rec(i as u64, i, i % 7)));
    }
    assert_eq!(m.matched_group(), None);
    assert!(m.snapshot().is_empty());
}

#[test]
fn first_candidate_record_sets_group() {
    let mut m = Monitor::new(vec![10, 20, 30]);
    m.dispatch(&rec(5, 1, 0));
    m.dispatch(&rec(11, 20, 0));
    m.dispatch(&rec(12, 10, 0));
    m.dispatch(&rec(13, 30, 0));
    assert_eq!(m.matched_group(), Some(11));
    assert_eq!(m.count(0), 3);
}

#[test]
fn fast_path_counts_any_pid() {
    let mut m = Monitor::new(vec![1]);
    m.dispatch(&rec(3, 1, 60));
    for pid in [2u32, 500, u32::MAX] {
        assert!(m.dispatch(&rec(3, pid, 61)));
    }
    assert_eq!(m.count(61), 3);
    assert!(!m.dispatch(&rec(4, 2, 61)));
    assert_eq!(m.count(61), 3);
}

#[test]
fn counted_records_equal_table_total() {
    let mut m = Monitor::new(vec![100, 200]);
    let records = [
        rec(1, 5, 0),
        rec(1, 100, 1),
        rec(1, 6, 2),
        rec(2, 7, 3),
        rec(2, 200, 4),
        rec(3, 8, 1),
        rec(1, 9, 1),
    ];
    let mut counted = 0u64;
    for r in records.iter() {
        if m.dispatch(r) {
            counted += 1;
        }
    }
    assert_eq!(counted, 4);
    let total: u64 = m.snapshot().values().sum();
    assert_eq!(total, counted);
    assert_eq!(m.snapshot(), table(&[(1, 2), (2, 1), (4, 1)]));
}

#[test]
fn cgroup_zero_is_not_matched_before_a_candidate() {
    let mut m = Monitor::new(vec![42]);
    assert!(!m.dispatch(&rec(0, 1, 1)));
    assert!(m.snapshot().is_empty());
}

#[test]
fn handle_event_counts_and_returns_record() {
    let mut m = Monitor::new(vec![42]);
    let r = rec(7, 42, 2);
    assert_eq!(m.handle_event(&raw(&r)), Ok(Some(r)));
    assert_eq!(m.count(2), 1);
    assert_eq!(m.matched_group(), Some(7));
}

#[test]
fn handle_event_ignores_unrelated_record() {
    let mut m = Monitor::new(vec![42]);
    assert_eq!(m.handle_event(&raw(&rec(7, 99, 1))), Ok(None));
    assert!(m.snapshot().is_empty());
}

#[test]
fn handle_event_rejects_short_buffer() {
    let mut m = Monitor::new(vec![42]);
    assert_eq!(m.handle_event(&[0u8; 20]), Err(EventError::Truncated { len: 20 }));
    assert_eq!(m.matched_group(), None);
}

#[test]
fn correlation_state_write_once() {
    let mut c = CorrelationState::new(vec![3, 4]);
    assert_eq!(c.get_cgroup_flag(), None);
    c.set_cgroup_flag(8);
    c.set_cgroup_flag(9);
    c.set_cgroup_flag(8);
    assert_eq!(c.get_cgroup_flag(), Some(8));
    assert_eq!(c.get_proc_list(), &vec![3, 4]);
    assert!(c.is_candidate(4));
    assert!(!c.is_candidate(5));
}

#[test]
fn monitor_exposes_correlation() {
    let mut m = Monitor::new(vec![9]);
    m.dispatch(&rec(77, 9, 0));
    assert_eq!(m.correlation().get_cgroup_flag(), Some(77));
    assert_eq!(m.correlation().get_proc_list(), &vec![9]);
}

#[test]
fn dispatch_batch_counts_in_delivery_order() {
    let mut m = Monitor::new(vec![42]);
    let batch = vec![rec(7, 99, 1), rec(7, 42, 2), rec(7, 1, 2), rec(9, 42, 3)];
    assert_eq!(m.dispatch_batch(&batch), 3);
    assert_eq!(m.snapshot(), table(&[(2, 2), (3, 1)]));
    assert_eq!(m.matched_group(), Some(7));
    assert_eq!(m.dispatch_batch(&vec![]), 0);
}

#[test]
fn monitor_snapshot_json() {
    let mut m = Monitor::new(vec![42]);
    m.dispatch(&rec(7, 42, 2));
    m.dispatch(&rec(7, 5, 2));
    assert_eq!(m.snapshot_json().unwrap(), br#"{"2":2}"#.to_vec());
}

fn raw_in(r: &TraceRecord, big: bool) -> Vec<u8> {
    let mut v = Vec::new();
    if big {
        v.extend_from_slice(&r.cgroup_id.to_be_bytes());
        v.extend_from_slice(&r.syscall_id.to_be_bytes());
        v.extend_from_slice(&r.pid.to_be_bytes());
    } else {
        v.extend_from_slice(&r.cgroup_id.to_le_bytes());
        v.extend_from_slice(&r.syscall_id.to_le_bytes());
        v.extend_from_slice(&r.pid.to_le_bytes());
    }
    v.extend_from_slice(&r.comm);
    v
}

#[test]
fn handle_event_in_order_big_endian() {
    let mut m = Monitor::new(vec![0x0102_0304]);
    let r = rec(0x0a0b_0c0d_0e0f_1011, 0x0102_0304, 0x0000_0105);
    assert_eq!(m.handle_event_in_order(&raw_in(&r, true), ByteOrder::Big), Ok(Some(r)));
    assert_eq!(m.matched_group(), Some(0x0a0b_0c0d_0e0f_1011));
    assert_eq!(m.count(0x0000_0105), 1);
}

#[test]
fn handle_event_in_order_little_endian() {
    let mut m = Monitor::new(vec![300]);
    let r = rec(65536, 300, 513);
    assert_eq!(m.handle_event_in_order(&raw_in(&r, false), ByteOrder::Little), Ok(Some(r)));
    let other = rec(65537, 301, 7);
    assert_eq!(m.handle_event_in_order(&raw_in(&other, false), ByteOrder::Little), Ok(None));
    assert_eq!(
        m.handle_event_in_order(&[0u8; 31], ByteOrder::Little),
        Err(EventError::Truncated { len: 31 })
    );
    assert_eq!(m.snapshot(), table(&[(513, 1)]));
}

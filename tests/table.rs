use secmonitor::table::SyscallCounter;
use std::collections::BTreeMap;

#[test]
fn counter_starts_empty() {
    let t = SyscallCounter::new();
    assert_eq!(t.count(0), 0);
    assert!(t.snapshot().is_empty());
}

#[test]
fn push_syscall_inserts_then_increments() {
    let mut t = SyscallCounter::new();
    t.push_syscall(5);
    assert_eq!(t.count(5), 1);
    t.push_syscall(5);
    t.push_syscall(u32::MAX);
    assert_eq!(t.count(5), 2);
    assert_eq!(t.count(u32::MAX), 1);
    assert_eq!(t.count(6), 0);
    let mut expected = BTreeMap::new();
    expected.insert(5u32, 2u64);
    expected.insert(u32::MAX, 1u64);
    assert_eq!(t.snapshot(), expected);
}

#[test]
fn snapshot_twice_is_equal() {
    let mut t = SyscallCounter::new();
    for id in [1u32, 2, 2, 3, 3, 3] {
        t.push_syscall(id);
    }
    let a = t.snapshot();
    let b = t.snapshot();
    assert_eq!(a, b);
    assert_eq!(a.get(&3), Some(&3));
    assert_eq!(a.len(), 3);
}

#[test]
fn snapshot_is_a_copy() {
    let mut t = SyscallCounter::new();
    t.push_syscall(1);
    let a = t.snapshot();
    t.push_syscall(1);
    assert_eq!(a.get(&1), Some(&1));
    assert_eq!(t.snapshot().get(&1), Some(&2));
}

#[test]
fn snapshot_json_maps_text_keys_to_counts() {
    let mut t = SyscallCounter::new();
    for id in [3u32, 2, 2, 10] {
        t.push_syscall(id);
    }
    let bytes = t.snapshot_json().unwrap();
    assert_eq!(String::from_utf8(bytes).unwrap(), r#"{"2":2,"3":1,"10":1}"#);
}

#[test]
fn snapshot_json_of_empty_table() {
    let t = SyscallCounter::new();
    assert_eq!(t.snapshot_json().unwrap(), b"{}".to_vec());
}

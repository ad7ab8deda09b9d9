use secmonitor::lifecycle::{candidate_pids, stop_container, LifecycleError};
use secmonitor::polling::{is_finished, next_state, should_poll, start, LoopState};

fn row(cols: &[&str]) -> Vec<String> {
    cols.iter().map(|c| c.to_string()).collect()
}

#[test]
fn candidate_pids_from_listing() {
    let rows = vec![row(&["root", "1234", "1"]), row(&["root", "+0077", "1234"])];
    assert_eq!(candidate_pids(Some(rows)), Ok(vec![1234, 77]));
}

#[test]
fn candidate_pids_absent_or_empty() {
    assert_eq!(candidate_pids(None), Err(LifecycleError::NoProcesses));
    assert_eq!(candidate_pids(Some(vec![])), Err(LifecycleError::NoProcesses));
}

#[test]
fn candidate_pids_bad_rows() {
    let short = vec![row(&["root", "1"]), row(&["root"])];
    assert_eq!(candidate_pids(Some(short)), Err(LifecycleError::BadPid { row: 1 }));
    let text = vec![row(&["root", "12a"])];
    assert_eq!(candidate_pids(Some(text)), Err(LifecycleError::BadPid { row: 0 }));
    let over = vec![row(&["root", "4294967295"]), row(&["root", "4294967296"])];
    assert_eq!(candidate_pids(Some(over)), Err(LifecycleError::BadPid { row: 1 }));
    let signs = vec![row(&["root", "-1"])];
    assert_eq!(candidate_pids(Some(signs)), Err(LifecycleError::BadPid { row: 0 }));
    let blank = vec![row(&["root", " 5"])];
    assert_eq!(candidate_pids(Some(blank)), Err(LifecycleError::BadPid { row: 0 }));
}

#[test]
fn stop_container_succeeds() {
    assert_eq!(stop_container("secmonitor-alpine"), Ok(()));
}

#[test]
fn loop_starts_running() {
    assert_eq!(start(LoopState::Idle), LoopState::Running);
    assert_eq!(start(LoopState::Stopped), LoopState::Stopped);
    assert!(should_poll(LoopState::Running));
    assert!(!should_poll(LoopState::Idle));
}

#[test]
fn loop_stops_on_cancel() {
    assert_eq!(next_state(LoopState::Running, true, 5, None), LoopState::Stopped);
    assert_eq!(next_state(LoopState::Running, false, 5, None), LoopState::Running);
    assert!(is_finished(LoopState::Stopped));
}

#[test]
fn loop_times_out_after_duration() {
    assert_eq!(next_state(LoopState::Running, false, 999, Some(1000)), LoopState::Running);
    assert_eq!(next_state(LoopState::Running, false, 1000, Some(1000)), LoopState::TimedOut);
    assert_eq!(next_state(LoopState::Running, true, 2000, Some(1000)), LoopState::TimedOut);
    assert!(is_finished(LoopState::TimedOut));
    assert!(!is_finished(LoopState::Running));
}

#[test]
fn final_states_are_kept() {
    assert_eq!(next_state(LoopState::Stopped, false, 0, Some(0)), LoopState::Stopped);
    assert_eq!(next_state(LoopState::TimedOut, true, 0, None), LoopState::TimedOut);
    assert_eq!(next_state(LoopState::Idle, true, 10, Some(1)), LoopState::Idle);
}

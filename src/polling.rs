use vstd::prelude::*;

verus! {

/// The phases of the polling loop.
#[derive(Clone, Copy, Debug, PartialEq, Eq, Structural)]
pub enum LoopState {
    Idle,
    Running,
    Stopped,
    TimedOut,
}

/// The state after one check at an iteration boundary.
pub open spec fn next_state_spec(
    state: LoopState,
    cancelled: bool,
    elapsed_ms: u64,
    limit_ms: Option<u64>,
) -> LoopState {
    match state {
        LoopState::Running => {
            if limit_ms is Some && elapsed_ms >= limit_ms->0 {
                LoopState::TimedOut
            } else if cancelled {
                LoopState::Stopped
            } else {
                LoopState::Running
            }
        },
        _ => state,
    }
}

/// Starts the loop: `Idle` becomes `Running`; any other state stays.
pub fn start(state: LoopState) -> (r: LoopState)
    ensures
        r == (if state == LoopState::Idle {
            LoopState::Running
        } else {
            state
        }),
{
    match state {
        LoopState::Idle => LoopState::Running,
        _ => state,
    }
}

/// The check made at each iteration boundary of a running loop: once the run duration
/// `limit_ms` (if any) has elapsed the loop times out; else, once cancellation is observed, it
/// stops; else it keeps running. `Idle` and the two final states do not change.
pub fn next_state(state: LoopState, cancelled: bool, elapsed_ms: u64, limit_ms: Option<u64>) -> (r:
    LoopState)
    ensures
        r == next_state_spec(state, cancelled, elapsed_ms, limit_ms),
{
    match state {
        LoopState::Running => {
            let timed_out = match limit_ms {
                Some(d) => elapsed_ms >= d,
                None => false,
            };
            if timed_out {
                LoopState::TimedOut
            } else if cancelled {
                LoopState::Stopped
            } else {
                LoopState::Running
            }
        },
        _ => state,
    }
}

/// Whether the loop polls the trace source again.
pub fn should_poll(state: LoopState) -> (r: bool)
    ensures
        r == (state == LoopState::Running),
{
    match state {
        LoopState::Running => true,
        _ => false,
    }
}

/// Whether the loop has ended, by cancellation or by timing out.
pub fn is_finished(state: LoopState) -> (r: bool)
    ensures
        r == (state == LoopState::Stopped || state == LoopState::TimedOut),
{
    match state {
        LoopState::Stopped | LoopState::TimedOut => true,
        _ => false,
    }
}

/// A final state is never left.
pub proof fn lemma_final_states_kept(
    state: LoopState,
    cancelled: bool,
    elapsed_ms: u64,
    limit_ms: Option<u64>,
)
    requires
        state == LoopState::Stopped || state == LoopState::TimedOut,
    ensures
        next_state_spec(state, cancelled, elapsed_ms, limit_ms) == state,
{
}

} // verus!

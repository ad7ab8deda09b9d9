use vstd::prelude::*;

verus! {

/// Column of a container's process listing that holds the process id.
pub const PID_COLUMN: usize = 1;

/// Why the candidate process ids could not be had from a container.
#[derive(Clone, Copy, Debug, PartialEq, Eq, Structural)]
pub enum LifecycleError {
    /// The container reported no processes.
    NoProcesses,
    /// Row `row` of the process listing holds no process id.
    BadPid { row: usize },
}

pub open spec fn is_digit(c: char) -> bool {
    '0' <= c && c <= '9'
}

/// Value of a string of decimal digits.
pub open spec fn digits_value(s: Seq<char>) -> nat
    decreases s.len(),
{
    if s.len() == 0 {
        0
    } else {
        digits_value(s.drop_last()) * 10 + (s.last() as nat - '0' as nat) as nat
    }
}

/// What `s` reads as a `u32`: an optional `+` and then one or more decimal digits whose value
/// fits, and nothing else.
pub open spec fn u32_text(s: Seq<char>) -> Option<u32> {
    let d = if s.len() > 0 && s[0] == '+' {
        s.drop_first()
    } else {
        s
    };
    if d.len() > 0 && (forall|i: int| 0 <= i < d.len() ==> is_digit(#[trigger] d[i]))
        && digits_value(d) <= u32::MAX {
        Some(digits_value(d) as u32)
    } else {
        None
    }
}

/// Relies on `u32::from_str`: an optional `+` followed by decimal digits only, whose value
/// fits in a `u32`; anything else is an error.
#[verifier::external_body]
fn parse_u32(s: &str) -> (r: Option<u32>)
    ensures
        r == u32_text(s@),
{
    s.parse::<u32>().ok()
}

/// The process id in one row of a process listing, if the row holds one.
pub open spec fn row_pid(row: Seq<String>) -> Option<u32> {
    if row.len() > PID_COLUMN {
        u32_text(row[PID_COLUMN as int]@)
    } else {
        None
    }
}

/// The candidate process ids of a container, one from each row of its process listing, in
/// order. An absent or empty listing, or a row without a process id, is an error.
pub fn candidate_pids(processes: Option<Vec<Vec<String>>>) -> (r: Result<Vec<u32>, LifecycleError>)
    ensures
        match r {
            Ok(pids) => processes is Some && processes->0@.len() > 0 && pids@.len()
                == processes->0@.len() && forall|i: int|
                0 <= i < pids@.len() ==> row_pid(#[trigger] processes->0@[i]@) == Some(pids@[i]),
            Err(LifecycleError::NoProcesses) => processes is None || processes->0@.len() == 0,
            Err(LifecycleError::BadPid { row }) => processes is Some && row < processes->0@.len()
                && row_pid(processes->0@[row as int]@) is None && forall|j: int|
                0 <= j < row ==> #[trigger] row_pid(processes->0@[j]@) is Some,
        },
{
    let rows = match processes {
        None => {
            return Err(LifecycleError::NoProcesses);
        },
        Some(rows) => rows,
    };
    if rows.len() == 0 {
        return Err(LifecycleError::NoProcesses);
    }
    let mut pids: Vec<u32> = Vec::new();
    let mut i: usize = 0;
    while i < rows.len()
        invariant
            i <= rows@.len(),
            processes == Some(rows),
            pids@.len() == i,
            forall|j: int| 0 <= j < i ==> row_pid(#[trigger] rows@[j]@) == Some(pids@[j]),
        decreases rows@.len() - i,
    {
        if rows[i].len() <= PID_COLUMN {
            return Err(LifecycleError::BadPid { row: i });
        }
        match parse_u32(rows[i][PID_COLUMN].as_str()) {
            None => {
                return Err(LifecycleError::BadPid { row: i });
            },
            Some(pid) => {
                pids.push(pid);
            },
        }
        i = i + 1;
    }
    Ok(pids)
}

/// Stops a container launched for monitoring. Nothing is held for it here, so this always
/// succeeds.
pub fn stop_container(name: &str) -> (r: Result<(), LifecycleError>)
    ensures
        r == Ok::<(), LifecycleError>(()),
{
    Ok(())
}

} // verus!

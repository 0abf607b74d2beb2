//! Stopping a flow: which flow stops, and how long its session lasted.

use vstd::prelude::*;

use crate::clock::{now_rfc3339, rfc3339_accepts, rfc3339_seconds_between, seconds_between_rfc3339};
use crate::config::LockFile;
use crate::error::AppError;
use crate::text::{decimal, decimal_string};

verus! {

/// A signed number of seconds, negative ones counted as zero.
pub open spec fn clamp_seconds(s: int) -> nat {
    if s < 0 {
        0
    } else {
        s as nat
    }
}

/// A signed number of seconds, negative ones counted as zero.
pub fn elapsed_seconds(delta: i64) -> (r: u64)
    ensures
        r == clamp_seconds(delta as int),
{
    if delta < 0 {
        0
    } else {
        delta as u64
    }
}

/// How long the session recorded in `lock` lasts when it ends at `now`: the
/// whole seconds from its start time to `now`, negative ones counted as zero;
/// nothing when the lock records no start time or either time is not an
/// RFC 3339 timestamp.
pub open spec fn session_seconds_spec(lock: LockFile, now: Seq<char>) -> Option<nat> {
    match lock.start_time {
        Some(t) => if rfc3339_accepts(t@) && rfc3339_accepts(now) {
            Some(clamp_seconds(rfc3339_seconds_between(now, t@)))
        } else {
            None
        },
        None => None,
    }
}

/// How long the session recorded in `lock` lasts when it ends at the time
/// `now` (RFC 3339), in whole seconds, never negative.
pub fn session_seconds_at(lock: &LockFile, now: &str) -> (r: Option<u64>)
    ensures
        r matches Some(n) ==> session_seconds_spec(*lock, now@) == Some(n as nat),
        r is None ==> session_seconds_spec(*lock, now@) is None,
{
    match &lock.start_time {
        Some(t) => match seconds_between_rfc3339(now, t.as_str()) {
            Some(d) => Some(elapsed_seconds(d)),
            None => None,
        },
        None => None,
    }
}

/// How long the session recorded in `lock` has lasted until the clock's
/// current reading, in whole seconds, never negative. Which reading the clock
/// gives is not stated; the result is what `session_seconds_at` gives for it.
pub fn session_seconds(lock: &LockFile) -> (r: Option<u64>)
    ensures
        exists|now: Seq<char>|
            #![trigger session_seconds_spec(*lock, now)]
            match r {
                Some(n) => session_seconds_spec(*lock, now) == Some(n as nat),
                None => session_seconds_spec(*lock, now) is None,
            },
        r is Some ==> (lock.start_time is Some && rfc3339_accepts(lock.start_time->0@)),
{
    let now = now_rfc3339();
    session_seconds_at(lock, now.as_str())
}

/// The two rounds of stopping a flow's processes: first each live process is
/// asked to end, then, after a grace period, each one still alive is killed.
#[derive(Clone, Copy, PartialEq, Eq, Structural)]
pub enum StopRound {
    /// The first round, `SIGTERM`.
    Terminate,
    /// The second round, `SIGKILL`.
    Kill,
}

/// The signal sent to a process.
#[derive(Clone, Copy, PartialEq, Eq, Structural)]
pub enum StopSignal {
    /// `SIGTERM`: asked to end.
    Term,
    /// `SIGKILL`: killed.
    Kill,
}

/// Which signal a process gets in `round`: none when it is no longer alive.
pub open spec fn signal_for(round: StopRound, alive: bool) -> Option<StopSignal> {
    if !alive {
        None
    } else {
        match round {
            StopRound::Terminate => Some(StopSignal::Term),
            StopRound::Kill => Some(StopSignal::Kill),
        }
    }
}

/// Which signal a process gets in `round`, given whether it is alive.
pub fn next_signal(round: StopRound, alive: bool) -> (r: Option<StopSignal>)
    ensures
        r == signal_for(round, alive),
{
    if !alive {
        None
    } else {
        match round {
            StopRound::Terminate => Some(StopSignal::Term),
            StopRound::Kill => Some(StopSignal::Kill),
        }
    }
}

/// The seconds to wait between the two rounds: 3 when the lock lists any
/// process, else none.
pub fn grace_seconds(pid_count: usize) -> (r: u64)
    ensures
        r == (if pid_count > 0 { 3int } else { 0int }),
{
    if pid_count > 0 {
        3
    } else {
        0
    }
}

/// The line shown, with `--verbose`, when `signal` is sent to `pid`.
pub fn signal_line(signal: StopSignal, pid: u32) -> (r: String)
    ensures
        r@ == (match signal {
            StopSignal::Term => "Sending SIGTERM to PID "@,
            StopSignal::Kill => "Sending SIGKILL to PID "@,
        }) + decimal(pid as nat),
{
    let mut m = match signal {
        StopSignal::Term => "Sending SIGTERM to PID ".to_owned(),
        StopSignal::Kill => "Sending SIGKILL to PID ".to_owned(),
    };
    let n = decimal_string(pid as u64);
    m.append(n.as_str());
    m
}

/// The error when no flow is named and none is active.
pub fn no_active_flow_error() -> (e: AppError)
    ensures
        e matches AppError::User(m) && m@ == "No active flow found"@,
{
    AppError::User("No active flow found".to_owned())
}

/// The error when the flow `name` has no lock file.
pub fn not_running_error(name: &str) -> (e: AppError)
    ensures
        e matches AppError::User(m) && m@ == "Flow '"@ + name@
            + "' doesn't seem to be running (no lock file)"@,
{
    let mut m = "Flow '".to_owned();
    m.append(name);
    m.append("' doesn't seem to be running (no lock file)");
    AppError::User(m)
}

} // verus!

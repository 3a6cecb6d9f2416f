//! Background tasks and when they run.

use vstd::prelude::*;

verus! {

broadcast use vstd::string::group_string_axioms;

/// When a task runs: on a cron expression, every so many seconds, or once
/// after a delay in seconds.
pub enum Schedule {
    Cron(String),
    Interval(u64),
    Once(u64),
}

/// A task the scheduler runs; its work is done by the program around the
/// library, which knows the task by its name.
pub trait Task {
    fn name(&self) -> String;
}

/// The task that reports that the service is alive.
#[derive(Clone, Copy, Debug)]
pub struct HeartbeatTask;

impl Task for HeartbeatTask {
    fn name(&self) -> (n: String)
        ensures
            n@ == "heartbeat"@,
    {
        "heartbeat".to_string()
    }
}

/// Seconds between two heartbeats.
pub const HEARTBEAT_INTERVAL_SECS: u64 = 10;

/// The heartbeat runs every ten seconds.
pub fn heartbeat_schedule() -> (s: Schedule)
    ensures
        s == Schedule::Interval(10),
{
    Schedule::Interval(HEARTBEAT_INTERVAL_SECS)
}

} // verus!

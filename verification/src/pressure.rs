//! Watching the guest's memory pressure and telling the host.

use crate::meminfo;
use crate::paths;
use crate::text;
use vstd::prelude::*;

verus! {

/// The kernel's trigger: 100 ms of memory stall of some task in any one second.
pub const PSI_TRIGGER: &'static str = "some 100000 1000000";

/// The name of the signal file in the shared directory.
pub const PRESSURE_SIGNAL_FILE: &'static str = "memory-pressure";

/// What waiting for the trigger gave.
#[derive(Debug, Clone, Copy, PartialEq, Eq, Structural)]
pub enum PollResult {
    /// So many files are ready; the flag says whether the trigger fired.
    Ready(i32, bool),
    /// A signal interrupted the wait.
    Interrupted,
    /// The wait failed.
    Failed,
}

/// What follows.
#[derive(Debug, Clone, Copy, PartialEq, Eq, Structural)]
pub enum PollStep {
    /// Write the signal file, then wait again.
    Signal,
    /// Wait again.
    Wait,
    /// Stop watching.
    Stop,
}

/// What follows a wait for the trigger.
pub fn run_pressure_watcher(result: PollResult) -> (res: PollStep)
    ensures
        res == match result {
            PollResult::Ready(n, fired) => if n > 0 && fired {
                PollStep::Signal
            } else {
                PollStep::Wait
            },
            PollResult::Interrupted => PollStep::Wait,
            PollResult::Failed => PollStep::Stop,
        },
        res == poll_step(result),
{
    match result {
        PollResult::Ready(n, fired) => if n > 0 && fired {
            PollStep::Signal
        } else {
            PollStep::Wait
        },
        PollResult::Interrupted => PollStep::Wait,
        PollResult::Failed => PollStep::Stop,
    }
}

/// The signal file to write, and its content: the available memory in KiB, zero where that is
/// unknown. `meminfo` is the text of `/proc/meminfo`, where it could be read.
pub fn handle_pressure_event(shared_dir: &str, meminfo_text: Option<&str>) -> (res: (String, String))
    ensures
        res.0@ == paths::joined(shared_dir@, PRESSURE_SIGNAL_FILE@),
        res.1@ == text::dec(
            match text::opt_str(meminfo_text) {
                Some(t) => match meminfo::available(text::lines(t)) {
                    Some(n) => n,
                    None => 0,
                },
                None => 0,
            },
        ) + "\n"@,
{
    let kb: u64 = match meminfo_text {
        Some(t) => match meminfo::read_mem_available(t) {
            Some(n) => n,
            None => 0,
        },
        None => 0,
    };
    let digits: String = text::decimal(kb);
    (paths::join(shared_dir, PRESSURE_SIGNAL_FILE), text::join2(digits.as_str(), "\n"))
}

/// What follows a wait for memory pressure.
pub open spec fn poll_step(result: PollResult) -> PollStep {
    match result {
        PollResult::Ready(n, fired) => if n > 0 && fired {
            PollStep::Signal
        } else {
            PollStep::Wait
        },
        PollResult::Interrupted => PollStep::Wait,
        PollResult::Failed => PollStep::Stop,
    }
}

/// Pressure is signalled exactly where the trigger fired. The watch goes on after that, after an
/// interruption and after a wait in which nothing fired, and ends only with a wait that failed.
pub proof fn law_pressure_is_signalled(result: PollResult, n: i32)
    ensures
        n > 0 ==> poll_step(PollResult::Ready(n, true)) == PollStep::Signal,
        poll_step(PollResult::Ready(n, false)) == PollStep::Wait,
        poll_step(PollResult::Ready(0, true)) == PollStep::Wait,
        poll_step(PollResult::Interrupted) == PollStep::Wait,
        poll_step(result) == PollStep::Stop <==> result is Failed,
        poll_step(result) == PollStep::Signal ==> (result matches PollResult::Ready(_, fired)
            && fired),
{
}

} // verus!

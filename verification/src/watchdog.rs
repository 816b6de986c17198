//! Decisions of the daemon's watchdog task, which monitors pipeline health
//! and keeps the reported uptime current.
use vstd::prelude::*;

verus! {

/// What woke the watchdog.
#[derive(Debug, Clone, Copy, PartialEq, Eq, Structural)]
pub enum WatchdogEvent {
    /// The one-second interval elapsed.
    Tick,
    /// The daemon is shutting down.
    Shutdown,
}

/// What the watchdog does next.
#[derive(Debug, Clone, Copy, PartialEq, Eq, Structural)]
pub enum WatchdogAction {
    /// Record this many seconds of uptime in the daemon status.
    RecordUptime(u64),
    /// Stop the watchdog.
    Stop,
}

/// Interval between watchdog ticks, in milliseconds.
pub const WATCHDOG_INTERVAL_MS: u64 = 1000;

/// On a tick, the status takes the whole seconds elapsed since start; on
/// shutdown, the watchdog stops.
pub fn watchdog_step(event: WatchdogEvent, elapsed_secs: u64) -> (a: WatchdogAction)
    ensures
        a == match event {
            WatchdogEvent::Tick => WatchdogAction::RecordUptime(elapsed_secs),
            WatchdogEvent::Shutdown => WatchdogAction::Stop,
        },
{
    match event {
        WatchdogEvent::Tick => WatchdogAction::RecordUptime(elapsed_secs),
        WatchdogEvent::Shutdown => WatchdogAction::Stop,
    }
}

} // verus!

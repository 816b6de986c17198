//! Recovery decisions: the outcome of a sysfs `authorized` reset cycle,
//! the retry-with-reset protocol, waiting for the device to reappear, and
//! device presence.
//!
//! The USB reset is the primary recovery mechanism for the open/close
//! lockup bug: writing 0 to the `authorized` sysfs file deauthorizes the
//! device, writing 1 reauthorizes it, causing re-enumeration — equivalent
//! to a physical unplug/replug. The file reads, writes and waits are the
//! caller's; the decisions are made here.
use vstd::prelude::*;
use vstd::string::*;
use crate::text::{parse_u8, parse_unsigned, str_equal, trim, trimmed};

verus! {

#[derive(Debug, Clone)]
pub struct ResetResult {
    pub sysfs_path: String,
    pub success: bool,
    pub previous_state: String,
    pub new_state: String,
}

/// Why a reset cycle did not bring the device back.
#[derive(Debug, Clone)]
pub enum ResetError {
    /// The device has no `authorized` file.
    MissingAuthorizedFile,
    /// After the cycle, `authorized` reads something other than `1`
    /// (the trimmed text is kept).
    NotReauthorized(String),
}

/// Milliseconds to wait after deauthorizing, for the kernel to unbind the
/// driver.
pub const UNBIND_WAIT_MS: u64 = 500;

/// Milliseconds to wait after reauthorizing, for re-enumeration.
pub const ENUMERATION_WAIT_MS: u64 = 1500;

/// The result of a reset cycle, from whether the `authorized` file exists
/// and the texts it held before and after the cycle: an error when the
/// file is missing or does not read `1` (after trimming) at the end; a
/// successful result with both trimmed texts otherwise.
pub fn reset_outcome(sysfs_path: &str, authorized_exists: bool, previous_raw: &str, new_raw: &str) -> (r: Result<ResetResult, ResetError>)
    ensures
        !authorized_exists ==> r matches Err(ResetError::MissingAuthorizedFile),
        authorized_exists && trimmed(new_raw@) == "1"@ ==> (r matches Ok(res) && res.sysfs_path@ == sysfs_path@
            && res.success && res.previous_state@ == trimmed(previous_raw@) && res.new_state@ == "1"@),
        authorized_exists && trimmed(new_raw@) != "1"@ ==> (r matches Err(ResetError::NotReauthorized(s))
            && s@ == trimmed(new_raw@)),
{
    if !authorized_exists {
        return Err(ResetError::MissingAuthorizedFile);
    }
    let current = trim(previous_raw);
    let new_state = trim(new_raw);
    if !str_equal(new_state, "1") {
        return Err(ResetError::NotReauthorized(String::from_str(new_state)));
    }
    Ok(ResetResult {
        sysfs_path: String::from_str(sysfs_path),
        success: true,
        previous_state: String::from_str(current),
        new_state: String::from_str(new_state),
    })
}

/// Where the retry-with-reset protocol stands.
#[derive(Debug, Clone, Copy, PartialEq, Eq, Structural)]
pub enum RetryPhase {
    /// Not started.
    Idle,
    /// Attempt `n` (counting from 1) is running.
    Running(u32),
    /// Attempt `n` failed and the device is being reset.
    Resetting(u32),
    /// The reset after attempt `n` succeeded; the device is settling.
    Settling(u32),
    /// The protocol has ended.
    Done,
}

/// What happened since the last action.
#[derive(Debug, Clone, Copy, PartialEq, Eq, Structural)]
pub enum RetryEvent {
    /// Start the protocol.
    Begin,
    /// The running attempt succeeded.
    AttemptSucceeded,
    /// The running attempt failed.
    AttemptFailed,
    /// The USB reset finished, successfully or not.
    ResetFinished(bool),
    /// The settling wait is over.
    Settled,
}

/// What the caller does next.
#[derive(Debug, Clone, Copy, PartialEq, Eq, Structural)]
pub enum RetryAction {
    /// Run attempt `n` of the operation.
    RunAttempt(u32),
    /// Reset the device over sysfs.
    ResetDevice,
    /// Wait this many milliseconds.
    Wait(u64),
    /// Report success on attempt `n`.
    Succeed(u32),
    /// Report failure after `n` attempts (with the last attempt's error, if
    /// any attempt was made).
    GiveUp(u32),
    /// The event does not apply in the current phase; nothing to do.
    Nothing,
}

/// Milliseconds of extra settling after a successful reset.
pub const SETTLE_WAIT_MS: u64 = 1000;

/// Attempt an operation with retry-on-failure logic.
///
/// Due to the ~50% startup failure rate, the protocol:
/// 1. Attempts the operation
/// 2. On failure, performs a USB reset
/// 3. Waits for the device to settle (when the reset succeeded)
/// 4. Retries, up to `max_attempts` attempts in all
#[derive(Debug, Clone, Copy)]
pub struct RetryWithReset {
    pub max_attempts: u32,
    pub phase: RetryPhase,
}

/// The protocol's transition: the next phase and the action for it.
pub open spec fn retry_transition(max_attempts: u32, phase: RetryPhase, event: RetryEvent) -> (RetryPhase, RetryAction) {
    match (phase, event) {
        (RetryPhase::Idle, RetryEvent::Begin) => if max_attempts == 0 {
            (RetryPhase::Done, RetryAction::GiveUp(0))
        } else {
            (RetryPhase::Running(1), RetryAction::RunAttempt(1))
        },
        (RetryPhase::Running(n), RetryEvent::AttemptSucceeded) => (RetryPhase::Done, RetryAction::Succeed(n)),
        (RetryPhase::Running(n), RetryEvent::AttemptFailed) => if n < max_attempts {
            (RetryPhase::Resetting(n), RetryAction::ResetDevice)
        } else {
            (RetryPhase::Done, RetryAction::GiveUp(n))
        },
        (RetryPhase::Resetting(n), RetryEvent::ResetFinished(ok)) => if ok {
            (RetryPhase::Settling(n), RetryAction::Wait(SETTLE_WAIT_MS))
        } else {
            (RetryPhase::Running((n + 1) as u32), RetryAction::RunAttempt((n + 1) as u32))
        },
        (RetryPhase::Settling(n), RetryEvent::Settled) => (RetryPhase::Running((n + 1) as u32), RetryAction::RunAttempt((n + 1) as u32)),
        _ => (phase, RetryAction::Nothing),
    }
}

/// The phases the protocol can be in: attempt numbers start at 1, never
/// pass the limit, and a reset only follows an attempt below the limit.
pub open spec fn retry_phase_valid(max_attempts: u32, phase: RetryPhase) -> bool {
    match phase {
        RetryPhase::Running(n) => 1 <= n <= max_attempts,
        RetryPhase::Resetting(n) => 1 <= n < max_attempts,
        RetryPhase::Settling(n) => 1 <= n < max_attempts,
        _ => true,
    }
}

impl RetryWithReset {
    pub open spec fn wf(&self) -> bool {
        retry_phase_valid(self.max_attempts, self.phase)
    }

    /// A protocol that allows `max_attempts` attempts, not yet started.
    pub fn new(max_attempts: u32) -> (r: Self)
        ensures
            r.max_attempts == max_attempts,
            r.phase == RetryPhase::Idle,
            r.wf(),
    {
        RetryWithReset { max_attempts, phase: RetryPhase::Idle }
    }

    /// Advances the protocol by one event and says what to do next.
    pub fn step(&mut self, event: RetryEvent) -> (action: RetryAction)
        requires
            old(self).wf(),
        ensures
            final(self).max_attempts == old(self).max_attempts,
            (final(self).phase, action) == retry_transition(old(self).max_attempts, old(self).phase, event),
            final(self).wf(),
    {
        let max = self.max_attempts;
        match (self.phase, event) {
            (RetryPhase::Idle, RetryEvent::Begin) => {
                if max == 0 {
                    self.phase = RetryPhase::Done;
                    RetryAction::GiveUp(0)
                } else {
                    self.phase = RetryPhase::Running(1);
                    RetryAction::RunAttempt(1)
                }
            },
            (RetryPhase::Running(n), RetryEvent::AttemptSucceeded) => {
                self.phase = RetryPhase::Done;
                RetryAction::Succeed(n)
            },
            (RetryPhase::Running(n), RetryEvent::AttemptFailed) => {
                if n < max {
                    self.phase = RetryPhase::Resetting(n);
                    RetryAction::ResetDevice
                } else {
                    self.phase = RetryPhase::Done;
                    RetryAction::GiveUp(n)
                }
            },
            (RetryPhase::Resetting(n), RetryEvent::ResetFinished(ok)) => {
                if ok {
                    self.phase = RetryPhase::Settling(n);
                    RetryAction::Wait(SETTLE_WAIT_MS)
                } else {
                    self.phase = RetryPhase::Running(n + 1);
                    RetryAction::RunAttempt(n + 1)
                }
            },
            (RetryPhase::Settling(n), RetryEvent::Settled) => {
                self.phase = RetryPhase::Running(n + 1);
                RetryAction::RunAttempt(n + 1)
            },
            _ => RetryAction::Nothing,
        }
    }
}

/// An attempt is only ever run with a number from 1 to the limit.
pub proof fn lemma_attempts_within_limit(max_attempts: u32, phase: RetryPhase, event: RetryEvent)
    requires
        retry_phase_valid(max_attempts, phase),
    ensures
        retry_transition(max_attempts, phase, event).1 matches RetryAction::RunAttempt(n) ==> 1 <= n <= max_attempts,
{
}

/// Attempt `n + 1` is only run after attempt `n` failed and a reset of the
/// device was performed (and, when the reset succeeded, the device settled).
pub proof fn lemma_retry_follows_reset(max_attempts: u32, phase: RetryPhase, event: RetryEvent)
    requires
        retry_phase_valid(max_attempts, phase),
    ensures
        retry_transition(max_attempts, phase, event).1 matches RetryAction::RunAttempt(m) ==> m > 1 ==> (
            (phase == RetryPhase::Resetting((m - 1) as u32) && event == RetryEvent::ResetFinished(false))
            || (phase == RetryPhase::Settling((m - 1) as u32) && event == RetryEvent::Settled)),
{
}

/// A failed attempt leads to a reset exactly when attempts remain, and the
/// protocol gives up only when the failed attempt was the last one allowed
/// (or no attempt is allowed at all).
pub proof fn lemma_give_up_only_at_limit(max_attempts: u32, phase: RetryPhase, event: RetryEvent)
    requires
        retry_phase_valid(max_attempts, phase),
    ensures
        retry_transition(max_attempts, phase, event).1 matches RetryAction::GiveUp(n) ==> n == max_attempts,
        (phase matches RetryPhase::Running(n) && event == RetryEvent::AttemptFailed && n < max_attempts)
            ==> retry_transition(max_attempts, phase, event).1 == RetryAction::ResetDevice,
{
}

/// Success is reported with the number of the attempt that succeeded.
pub proof fn lemma_success_reports_attempt(max_attempts: u32, phase: RetryPhase, event: RetryEvent)
    ensures
        retry_transition(max_attempts, phase, event).1 matches RetryAction::Succeed(n) ==> (
            phase == RetryPhase::Running(n) && event == RetryEvent::AttemptSucceeded),
{
}

/// Every transition keeps the protocol in a valid phase.
pub proof fn lemma_retry_phase_preserved(max_attempts: u32, phase: RetryPhase, event: RetryEvent)
    requires
        retry_phase_valid(max_attempts, phase),
    ensures
        retry_phase_valid(max_attempts, retry_transition(max_attempts, phase, event).0),
{
}

/// Milliseconds between two scans while waiting for the device.
pub const POLL_INTERVAL_MS: u64 = 200;

/// What to do while waiting for the Facecam to appear.
#[derive(Debug, Clone, PartialEq, Eq)]
pub enum WaitAction {
    /// The timeout has passed: give up.
    TimedOut,
    /// Scan sysfs for the device.
    Scan,
    /// The device was found at this sysfs path.
    Found(String),
    /// Wait this many milliseconds before the next check.
    Sleep(u64),
}

/// The result of one sysfs scan.
#[derive(Debug, Clone)]
pub enum ScanResult {
    Found(String),
    NotFound,
    Failed,
}

/// Before each scan: give up once more than `timeout_ms` have elapsed.
pub fn wait_check_time(elapsed_ms: u64, timeout_ms: u64) -> (a: WaitAction)
    ensures
        a == (if elapsed_ms > timeout_ms { WaitAction::TimedOut } else { WaitAction::Scan }),
{
    if elapsed_ms > timeout_ms {
        WaitAction::TimedOut
    } else {
        WaitAction::Scan
    }
}

/// After a scan: return the path once found; otherwise (not found, or the
/// scan failed) sleep for the poll interval and check again.
pub fn wait_after_scan(scan: ScanResult) -> (a: WaitAction)
    ensures
        scan matches ScanResult::Found(p) ==> a matches WaitAction::Found(q) && q@ == p@,
        !(scan is Found) ==> a == WaitAction::Sleep(POLL_INTERVAL_MS),
{
    match scan {
        ScanResult::Found(path) => WaitAction::Found(path),
        _ => WaitAction::Sleep(POLL_INTERVAL_MS),
    }
}

#[derive(Debug, Clone)]
pub struct DevicePresence {
    pub connected: bool,
    pub authorized: bool,
    pub sysfs_path: Option<String>,
}

/// Whether the Facecam is connected and authorized: connected when sysfs
/// has a path for it; authorized when its `authorized` file exists and
/// reads 1 (after trimming).
pub fn device_presence(sysfs_path: Option<String>, authorized_text: Option<&str>) -> (r: DevicePresence)
    ensures
        r.connected == sysfs_path.is_some(),
        r.sysfs_path == sysfs_path,
        r.authorized == (sysfs_path.is_some() && (authorized_text matches Some(t)
            && parse_unsigned(trimmed(t@), u8::MAX as int) == Some(1int))),
{
    match sysfs_path {
        Some(path) => {
            let authorized = match authorized_text {
                Some(text) => {
                    match parse_u8(trim(text)) {
                        Some(v) => v == 1,
                        None => false,
                    }
                },
                None => false,
            };
            DevicePresence { connected: true, authorized, sysfs_path: Some(path) }
        },
        None => DevicePresence { connected: false, authorized: false, sysfs_path: None },
    }
}

} // verus!

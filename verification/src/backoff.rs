//! The retry/backoff state machine of the delivery loop.
//!
//! After every cycle the loop waits before starting the next one.  A
//! successful transmission resets the retry delay to its minimum and is
//! followed by the fixed heartbeat wait; a rejected or failed
//! transmission waits the current delay and then doubles it, capped at
//! sixty seconds; a failed collection waits the heartbeat and leaves the
//! retry delay untouched.

use vstd::prelude::*;

verus! {

use crate::arith::lemma_pow2n_pos;
use crate::arith::pow2n;

/// Smallest retry delay, in seconds; also the delay of a fresh state.
pub const MIN_DELAY_SECS: u64 = 1;

/// Largest retry delay, in seconds: the cap of the exponential backoff.
pub const MAX_DELAY_SECS: u64 = 60;

/// Fixed wait after a successful cycle or a failed collection, in seconds.
pub const HEARTBEAT_SECS: u64 = 5;

/// How one delivery cycle ended.
#[derive(Clone, Copy, PartialEq, Eq, Structural, Debug)]
pub enum CycleOutcome {
    /// Reading or parsing the kernel sources failed; nothing was sent.
    CollectionFailed,
    /// The ingest endpoint accepted the record (a 2xx status).
    TransmitSuccess,
    /// The ingest endpoint answered with a non-2xx status.
    RejectedByServer(u16),
    /// The request never completed (connection or timeout failure).
    TransportFailure,
}

/// The one piece of state that outlives a cycle: the next retry delay.
#[derive(Clone, Copy, PartialEq, Eq, Structural, Debug)]
pub struct BackoffState {
    pub current_delay_secs: u64,
}

/// What the delivery loop does between two cycles: wait `wait_secs`,
/// and carry `next` into the coming cycle.
#[derive(Clone, Copy, PartialEq, Eq, Structural, Debug)]
pub struct CycleDecision {
    pub wait_secs: u64,
    pub next: BackoffState,
}

impl BackoffState {
    /// The retry delay always stays within its two bounds.
    pub open spec fn wf(self) -> bool {
        MIN_DELAY_SECS <= self.current_delay_secs <= MAX_DELAY_SECS
    }

    /// A fresh state starts at the minimum delay.
    pub fn new() -> (s: Self)
        ensures
            s.current_delay_secs == MIN_DELAY_SECS,
            s.wf(),
    {
        BackoffState { current_delay_secs: MIN_DELAY_SECS }
    }
}

/// The retry delay after a cycle with outcome `o`, given delay `d` before it.
pub open spec fn next_delay(d: nat, o: CycleOutcome) -> nat {
    match o {
        CycleOutcome::CollectionFailed => d,
        CycleOutcome::TransmitSuccess => MIN_DELAY_SECS as nat,
        CycleOutcome::RejectedByServer(_) => escalated(d),
        CycleOutcome::TransportFailure => escalated(d),
    }
}

/// Doubling with the sixty-second cap.
pub open spec fn escalated(d: nat) -> nat {
    if 2 * d <= MAX_DELAY_SECS { 2 * d } else { MAX_DELAY_SECS as nat }
}

/// How long the loop waits after a cycle with outcome `o`, given delay `d`.
pub open spec fn next_wait(d: nat, o: CycleOutcome) -> nat {
    match o {
        CycleOutcome::CollectionFailed => HEARTBEAT_SECS as nat,
        CycleOutcome::TransmitSuccess => HEARTBEAT_SECS as nat,
        CycleOutcome::RejectedByServer(_) => d,
        CycleOutcome::TransportFailure => d,
    }
}

/// Applies the transition table to one cycle outcome: returns the wait
/// before the next cycle and the state to carry into it.
pub fn apply_outcome(state: &BackoffState, outcome: CycleOutcome) -> (d: CycleDecision)
    requires
        state.wf(),
    ensures
        d.next.wf(),
        d.next.current_delay_secs as nat == next_delay(state.current_delay_secs as nat, outcome),
        d.wait_secs as nat == next_wait(state.current_delay_secs as nat, outcome),
{
    match outcome {
        CycleOutcome::CollectionFailed => CycleDecision {
            wait_secs: HEARTBEAT_SECS,
            next: BackoffState { current_delay_secs: state.current_delay_secs },
        },
        CycleOutcome::TransmitSuccess => CycleDecision {
            wait_secs: HEARTBEAT_SECS,
            next: BackoffState { current_delay_secs: MIN_DELAY_SECS },
        },
        CycleOutcome::RejectedByServer(_) => CycleDecision {
            wait_secs: state.current_delay_secs,
            next: BackoffState { current_delay_secs: double_capped(state.current_delay_secs) },
        },
        CycleOutcome::TransportFailure => CycleDecision {
            wait_secs: state.current_delay_secs,
            next: BackoffState { current_delay_secs: double_capped(state.current_delay_secs) },
        },
    }
}

/// Doubles a delay, saturating at the cap.
fn double_capped(d: u64) -> (r: u64)
    requires
        d <= MAX_DELAY_SECS,
    ensures
        r as nat == escalated(d as nat),
{
    if d <= MAX_DELAY_SECS / 2 {
        2 * d
    } else {
        MAX_DELAY_SECS
    }
}

/// Classifies one HTTP response status: any 2xx status is success,
/// everything else is a server rejection carrying the status.
pub fn classify_status(status: u16) -> (r: CycleOutcome)
    ensures
        r == if 200 <= status < 300 {
            CycleOutcome::TransmitSuccess
        } else {
            CycleOutcome::RejectedByServer(status)
        },
{
    if 200 <= status && status < 300 {
        CycleOutcome::TransmitSuccess
    } else {
        CycleOutcome::RejectedByServer(status)
    }
}

/// The retry delay after `k` consecutive transmission failures starting
/// from a fresh state.
pub open spec fn delay_after_failures(k: nat) -> nat
    decreases k,
{
    if k == 0 {
        MIN_DELAY_SECS as nat
    } else {
        escalated(delay_after_failures((k - 1) as nat))
    }
}

/// Law: server rejection and transport failure escalate identically.
pub proof fn lemma_escalation_uniform(d: nat, status: u16)
    ensures
        next_delay(d, CycleOutcome::RejectedByServer(status)) == next_delay(
            d,
            CycleOutcome::TransportFailure,
        ),
        next_wait(d, CycleOutcome::RejectedByServer(status)) == next_wait(
            d,
            CycleOutcome::TransportFailure,
        ),
{
}

/// Law: within a contiguous run of transmission failures the delay never
/// decreases and never exceeds the cap.
pub proof fn lemma_failure_escalation(d: nat)
    requires
        MIN_DELAY_SECS as nat <= d <= MAX_DELAY_SECS as nat,
    ensures
        d <= escalated(d) <= MAX_DELAY_SECS as nat,
{
}

/// Law: after `k` consecutive transmission failures starting fresh, the
/// wait before the next attempt is exactly `min(2^k, 60)` seconds --- the
/// sequence 1, 2, 4, 8, 16, 32, 60, 60, ... --- and never exceeds the cap.
pub proof fn lemma_backoff_sequence(k: nat)
    ensures
        delay_after_failures(k) == if pow2n(k) <= MAX_DELAY_SECS as nat {
            pow2n(k)
        } else {
            MAX_DELAY_SECS as nat
        },
        delay_after_failures(k) <= MAX_DELAY_SECS as nat,
        next_wait(delay_after_failures(k), CycleOutcome::TransportFailure) == delay_after_failures(
            k,
        ),
    decreases k,
{
    if k > 0 {
        lemma_backoff_sequence((k - 1) as nat);
        lemma_pow2n_pos((k - 1) as nat);
    }
}

/// Law: a transmission success resets the delay to exactly the minimum,
/// whatever ran up before it.
pub proof fn lemma_success_resets(d: nat)
    ensures
        next_delay(d, CycleOutcome::TransmitSuccess) == MIN_DELAY_SECS as nat,
{
}

/// Law: a successful cycle is always followed by the fixed heartbeat
/// wait, regardless of the backoff state.
pub proof fn lemma_heartbeat_after_success(d: nat)
    ensures
        next_wait(d, CycleOutcome::TransmitSuccess) == HEARTBEAT_SECS as nat,
{
}

/// Law: a collection failure leaves the backoff state untouched and
/// waits the fixed heartbeat.
pub proof fn lemma_collection_failure_inert(d: nat)
    ensures
        next_delay(d, CycleOutcome::CollectionFailed) == d,
        next_wait(d, CycleOutcome::CollectionFailed) == HEARTBEAT_SECS as nat,
{
}

} // verus!


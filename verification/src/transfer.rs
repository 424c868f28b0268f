//! Transfer batch state machine (receiving policy / asynchronous batch approval).
//!
//! A batch is the set of files of one "send" action. The sender first asks with a
//! transfer request; the receiving hook answers allow / ask / deny. Under "ask"
//! the batch stays pending until the user answers or the approval timeout passes.
//! Only `Pending -> Approved` and `Pending -> Rejected` are legal transitions.
//!
//! Times are monotonic milliseconds supplied by the caller (the caller reads the clock).

use vstd::prelude::*;

verus! {

/// Time-to-live of an approved batch without activity: 24 hours (ms).
pub const APPROVED_BATCH_TTL_MS: u64 = 86_400_000;
/// Default approval timeout (seconds).
pub const DEFAULT_APPROVAL_TIMEOUT_SECS: u64 = 60;
/// Lower bound of the approval timeout (seconds).
pub const MIN_APPROVAL_TIMEOUT_SECS: u64 = 10;
/// Upper bound of the approval timeout (seconds).
pub const MAX_APPROVAL_TIMEOUT_SECS: u64 = 600;

/// Why a batch was rejected (wire values are kebab-case).
#[derive(Debug, Clone, Copy, PartialEq, Eq)]
pub enum RejectReason {
    /// The user pressed reject.
    UserRejected,
    /// The approval wait timed out (host TTL / disconnect).
    Timeout,
}

impl RejectReason {
    /// Wire string of the reason.
    pub fn as_str(self) -> (s: &'static str)
        ensures
            s@ == reject_reason_wire(self),
    {
        match self {
            RejectReason::UserRejected => "user-rejected",
            RejectReason::Timeout => "timeout",
        }
    }
}

/// Wire string of a reject reason.
pub open spec fn reject_reason_wire(r: RejectReason) -> Seq<char> {
    match r {
        RejectReason::UserRejected => "user-rejected"@,
        RejectReason::Timeout => "timeout"@,
    }
}

/// Batch state.
#[derive(Debug, Clone, PartialEq, Eq)]
pub enum BatchState {
    /// Waiting for the user's answer.
    Pending,
    /// Accepted by the user or allowed by the hook.
    Approved,
    /// Rejected by the user or timed out (terminal).
    Rejected { reason: RejectReason },
}

/// Outcome of the hook split of a transfer request.
#[derive(Debug, Clone, Copy, PartialEq, Eq)]
pub enum BatchDecision {
    /// Hook allowed: the batch is approved at once.
    Approved,
    /// Hook asked: the batch waits for the user.
    Pending,
}

/// One file of a batch (relative path + size).
#[derive(Debug, Clone, PartialEq, Eq)]
pub struct UploadRequestMeta {
    /// Path relative to the mount.
    pub relative_path: String,
    /// Size in bytes.
    pub size: u64,
}

/// Batch record (host memory only).
#[derive(Debug, Clone)]
pub struct TransferBatch {
    /// Batch id (generated by the sender).
    pub batch_id: String,
    /// Owning plugin.
    pub plugin_id: String,
    /// Mount the batch is bound to.
    pub mount_path: String,
    /// Files of the batch.
    pub files: Vec<UploadRequestMeta>,
    /// Total size of the batch (bytes).
    pub total_size: u64,
    /// Current state.
    pub state: BatchState,
    /// Creation time (ms).
    pub created_at_ms: u64,
    /// Last activity (ms): base of the pending timeout and of the approved TTL.
    pub last_active_ms: u64,
    /// Approval timeout of a pending batch (ms).
    pub approval_timeout_ms: u64,
}

/// Legal batch transitions.
pub open spec fn batch_transition_ok(from: BatchState, to: BatchState) -> bool {
    from is Pending && (to is Approved || to is Rejected)
}

/// Validates a batch transition: only a pending batch moves, to approved or rejected.
pub fn validate_batch_transition(from: &BatchState, to: &BatchState) -> (r: Result<(), &'static str>)
    ensures
        r is Ok <==> batch_transition_ok(*from, *to),
        r matches Err(m) ==> m@ == "invalid batch state transition"@,
{
    match (from, to) {
        (BatchState::Pending, BatchState::Approved) => Ok(()),
        (BatchState::Pending, BatchState::Rejected { .. }) => Ok(()),
        _ => Err("invalid batch state transition"),
    }
}

/// Whether the batch is approved (gates session creation).
pub fn is_approved(batch: &TransferBatch) -> (r: bool)
    ensures
        r == (batch.state is Approved),
{
    match batch.state {
        BatchState::Approved => true,
        _ => false,
    }
}

/// `a - b` saturated at 0.
pub open spec fn sat_sub(a: u64, b: u64) -> u64 {
    if a >= b { (a - b) as u64 } else { 0 }
}

/// Whether a batch has expired at time `now_ms`: a pending batch after its approval
/// timeout, an approved one after 24 hours without activity; a rejected batch never.
pub open spec fn batch_expired(batch: TransferBatch, now_ms: u64) -> bool {
    match batch.state {
        BatchState::Pending => sat_sub(now_ms, batch.last_active_ms) >= batch.approval_timeout_ms,
        BatchState::Approved => sat_sub(now_ms, batch.last_active_ms) >= APPROVED_BATCH_TTL_MS,
        BatchState::Rejected { .. } => false,
    }
}

/// Whether the batch has expired at `now_ms` (see [`batch_expired`]).
pub fn is_batch_expired(batch: &TransferBatch, now_ms: u64) -> (r: bool)
    ensures
        r == batch_expired(*batch, now_ms),
{
    let idle = now_ms.saturating_sub(batch.last_active_ms);
    match batch.state {
        BatchState::Pending => idle >= batch.approval_timeout_ms,
        BatchState::Approved => idle >= APPROVED_BATCH_TTL_MS,
        BatchState::Rejected { .. } => false,
    }
}

/// Validates an approval timeout (10..=600 seconds).
pub fn validate_approval_timeout(secs: u64) -> (r: Result<u64, &'static str>)
    ensures
        r is Ok <==> MIN_APPROVAL_TIMEOUT_SECS <= secs <= MAX_APPROVAL_TIMEOUT_SECS,
        r matches Ok(v) ==> v == secs,
        r matches Err(m) ==> m@ == "approval timeout must be in 10..=600 seconds"@,
{
    if MIN_APPROVAL_TIMEOUT_SECS <= secs && secs <= MAX_APPROVAL_TIMEOUT_SECS {
        Ok(secs)
    } else {
        Err("approval timeout must be in 10..=600 seconds")
    }
}

/// Law: a decided batch (approved or rejected) never changes state again.
pub proof fn lemma_decided_batch_is_final(from: BatchState, to: BatchState)
    requires
        !(from is Pending),
    ensures
        !batch_transition_ok(from, to),
{
}

/// Law: a rejected batch never expires (the sweeper leaves it alone).
pub proof fn lemma_rejected_never_expires(batch: TransferBatch, now_ms: u64)
    requires
        batch.state is Rejected,
    ensures
        !batch_expired(batch, now_ms),
{
}

/// Law: an approved batch expires once it has been idle for 24 hours
/// (86 400 000 ms) and not before; time going back never expires it.
pub proof fn lemma_approved_batch_expiry(batch: TransferBatch, now_ms: u64)
    requires
        batch.state is Approved,
    ensures
        now_ms >= batch.last_active_ms && now_ms - batch.last_active_ms >= 86_400_000 ==> batch_expired(batch, now_ms),
        now_ms >= batch.last_active_ms && now_ms - batch.last_active_ms < 86_400_000 ==> !batch_expired(batch, now_ms),
        now_ms < batch.last_active_ms ==> !batch_expired(batch, now_ms),
{
}

/// Law: a pending batch expires once it has been idle for its approval
/// timeout and not before; when time goes back it counts as no idle time.
pub proof fn lemma_pending_batch_expiry(batch: TransferBatch, now_ms: u64)
    requires
        batch.state is Pending,
    ensures
        now_ms >= batch.last_active_ms && now_ms - batch.last_active_ms >= batch.approval_timeout_ms ==> batch_expired(
            batch,
            now_ms,
        ),
        now_ms >= batch.last_active_ms && now_ms - batch.last_active_ms < batch.approval_timeout_ms ==> !batch_expired(
            batch,
            now_ms,
        ),
        now_ms < batch.last_active_ms ==> (batch_expired(batch, now_ms) <==> batch.approval_timeout_ms == 0),
{
}

} // verus!

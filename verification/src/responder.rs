//! Intent responder core (the desktop directs the phone to run transfers).
//!
//! The desktop sends an intent; by its direction the phone uploads ("pull") or
//! downloads ("push"). A push waits at an approval gate until the user answers.
//! This module holds the intent lifecycle state machine and the registry of
//! intents with its decisions; the caller performs the HTTP/WS work and reports
//! the outcome back.

use vstd::prelude::*;
use vstd::hash_map::StringHashMap;
use crate::cursor::CursorStore;
use crate::peers::{FileOperation, PeerMountAnnouncement};
use crate::saf_tree::{join, join_path};
use crate::text::{chars_of, concat, str_eq};
use crate::upload_client::UploadError;

verus! {

/// Lowest allowed concurrency.
pub const MIN_CONCURRENCY: usize = 1;
/// Highest allowed concurrency.
pub const MAX_CONCURRENCY: usize = 8;
/// Default concurrency.
pub const DEFAULT_CONCURRENCY: usize = 3;

/// Intent lifecycle state (memory only).
#[derive(Debug, Clone, Copy, PartialEq, Eq)]
pub enum IntentState {
    /// Received (a push waits here for the user).
    Received,
    /// The user approved (push gate open).
    Approved,
    /// Data is flowing.
    Executing,
    /// Finished.
    Completed,
    /// Rejected.
    Rejected,
    /// Failed, with the bytes already written on the receiving side.
    Failed { offset: u64 },
    /// Cancelled by the desktop or the user.
    Cancelled,
}

/// Legal lifecycle transitions:
/// `Received -> [Approved ->] Executing -> Completed | Failed | Cancelled`,
/// with `Rejected`/`Cancelled` also reachable before execution.
pub open spec fn transition_ok(from: IntentState, to: IntentState) -> bool {
    match from {
        IntentState::Received => to is Executing || to is Rejected || to is Cancelled || to is Approved,
        IntentState::Approved => to is Executing || to is Rejected || to is Cancelled,
        IntentState::Executing => to is Completed || to is Failed || to is Cancelled,
        _ => false,
    }
}

/// Terminal states.
pub open spec fn is_terminal(s: IntentState) -> bool {
    s is Completed || s is Rejected || s is Failed || s is Cancelled
}

/// Whether `from -> to` is a legal lifecycle transition.
pub fn validate_transition(from: IntentState, to: IntentState) -> (r: bool)
    ensures
        r == transition_ok(from, to),
{
    match (from, to) {
        (IntentState::Received, IntentState::Executing)
        | (IntentState::Received, IntentState::Rejected)
        | (IntentState::Received, IntentState::Cancelled) => true,
        (IntentState::Received, IntentState::Approved) => true,
        (IntentState::Approved, IntentState::Executing)
        | (IntentState::Approved, IntentState::Rejected)
        | (IntentState::Approved, IntentState::Cancelled) => true,
        (IntentState::Executing, IntentState::Completed)
        | (IntentState::Executing, IntentState::Failed { .. })
        | (IntentState::Executing, IntentState::Cancelled) => true,
        _ => false,
    }
}

/// Data engine chosen for an intent.
#[derive(Debug, Clone, Copy, PartialEq, Eq)]
pub enum IntentAction {
    /// "pull": the phone uploads its file to the desktop.
    Upload,
    /// "push": the phone downloads the desktop file.
    Download,
}

/// The engine of a direction ("pull" -> upload, "push" -> download, else none).
pub open spec fn action_of(direction: Seq<char>) -> Option<IntentAction> {
    if direction == "pull"@ {
        Some(IntentAction::Upload)
    } else if direction == "push"@ {
        Some(IntentAction::Download)
    } else {
        None
    }
}

/// Chooses the engine from the intent direction (unknown direction: `None`).
pub fn decide_action(direction: &str) -> (r: Option<IntentAction>)
    ensures
        r == action_of(direction@),
{
    if str_eq(direction, "pull") {
        Some(IntentAction::Upload)
    } else if str_eq(direction, "push") {
        Some(IntentAction::Download)
    } else {
        None
    }
}

/// Clamps a concurrency setting into `1..=8`.
pub fn clamp_concurrency(n: usize) -> (r: usize)
    ensures
        r == (if n < MIN_CONCURRENCY { MIN_CONCURRENCY } else if n > MAX_CONCURRENCY { MAX_CONCURRENCY } else { n }),
{
    if n < MIN_CONCURRENCY {
        MIN_CONCURRENCY
    } else if n > MAX_CONCURRENCY {
        MAX_CONCURRENCY
    } else {
        n
    }
}

/// Event/log name of a state.
pub open spec fn state_wire(s: IntentState) -> Seq<char> {
    match s {
        IntentState::Received => "received"@,
        IntentState::Approved => "approved"@,
        IntentState::Executing => "executing"@,
        IntentState::Completed => "completed"@,
        IntentState::Rejected => "rejected"@,
        IntentState::Failed { .. } => "failed"@,
        IntentState::Cancelled => "cancelled"@,
    }
}

/// Event/log name of a state.
pub fn state_name(s: IntentState) -> (r: &'static str)
    ensures
        r@ == state_wire(s),
{
    match s {
        IntentState::Received => "received",
        IntentState::Approved => "approved",
        IntentState::Executing => "executing",
        IntentState::Completed => "completed",
        IntentState::Rejected => "rejected",
        IntentState::Failed { .. } => "failed",
        IntentState::Cancelled => "cancelled",
    }
}

/// Intent record (registry entry and execution context).
#[derive(Debug)]
pub struct IntentRecord {
    /// Intent id (carried by ACK/progress/cancel).
    pub intent_id: String,
    /// "pull" | "push".
    pub direction: String,
    /// "download" | "upload" (business meaning).
    pub semantics: String,
    /// Batch id (pull under ask: pre-approved by the desktop).
    pub batch_id: Option<String>,
    /// Relative path.
    pub relative_path: String,
    /// Size in bytes.
    pub size: u64,
    /// Peer device name.
    pub device_name: String,
    /// Whether the desktop expects a reply.
    pub expect_response: bool,
    /// Current state.
    pub state: IntentState,
    /// Bytes written (push resume source of truth).
    pub offset: u64,
    /// Whether an execution handle (cancel token) is attached.
    pub has_handle: bool,
    /// Creation time (ms, diagnostics).
    pub created_at_ms: u64,
}

fn copy_opt_string(s: &Option<String>) -> (r: Option<String>)
    ensures
        r == *s,
{
    match s {
        Some(v) => Some(v.clone()),
        None => None,
    }
}

impl IntentRecord {
    /// A field-for-field copy.
    pub fn duplicate(&self) -> (r: Self)
        ensures
            r == *self,
    {
        IntentRecord {
            intent_id: self.intent_id.clone(),
            direction: self.direction.clone(),
            semantics: self.semantics.clone(),
            batch_id: copy_opt_string(&self.batch_id),
            relative_path: self.relative_path.clone(),
            size: self.size,
            device_name: self.device_name.clone(),
            expect_response: self.expect_response,
            state: self.state,
            offset: self.offset,
            has_handle: self.has_handle,
            created_at_ms: self.created_at_ms,
        }
    }

    /// Moves to `to` if the transition is legal; otherwise leaves the record unchanged.
    pub fn set_state(&mut self, to: IntentState) -> (r: Result<(), String>)
        ensures
            r is Ok <==> transition_ok(old(self).state, to),
            r is Ok ==> *final(self) == (IntentRecord { state: to, ..*old(self) }),
            r is Err ==> *final(self) == *old(self),
    {
        if !validate_transition(self.state, to) {
            return Err("invalid intent transition".to_string());
        }
        self.state = to;
        Ok(())
    }
}

/// What a cancel request did.
#[derive(Debug, Clone, Copy, PartialEq, Eq)]
pub enum CancelOutcome {
    /// Unknown intent: nothing to cancel.
    NotFound,
    /// Executing: the caller must fire the cancel token (the execution task closes the record).
    CancelExecution,
    /// Still waiting for approval: the record was removed.
    RemovedPending,
}

/// Terminal outcome of an execution.
#[derive(Debug, Clone, PartialEq, Eq)]
pub enum Outcome {
    /// Data fully transferred.
    Completed,
    /// Cancelled.
    Cancelled,
    /// Failed, with a reason.
    Failed(String),
}

/// Final state of an outcome (a failure carries the bytes transferred).
pub open spec fn outcome_state(o: Outcome, transferred: u64) -> IntentState {
    match o {
        Outcome::Completed => IntentState::Completed,
        Outcome::Cancelled => IntentState::Cancelled,
        Outcome::Failed(_) => IntentState::Failed { offset: transferred },
    }
}

/// Final state of an outcome.
pub fn final_state(o: &Outcome, transferred: u64) -> (s: IntentState)
    ensures
        s == outcome_state(*o, transferred),
{
    match o {
        Outcome::Completed => IntentState::Completed,
        Outcome::Cancelled => IntentState::Cancelled,
        Outcome::Failed(_) => IntentState::Failed { offset: transferred },
    }
}

/// Wire state string of a terminal transfer-progress report.
pub open spec fn outcome_wire(o: Outcome) -> Seq<char> {
    match o {
        Outcome::Completed => "completed"@,
        Outcome::Cancelled => "cancelled"@,
        Outcome::Failed(_) => "failed"@,
    }
}

/// Wire state string of a terminal transfer-progress report.
pub fn outcome_name(o: &Outcome) -> (r: &'static str)
    ensures
        r@ == outcome_wire(*o),
{
    match o {
        Outcome::Completed => "completed",
        Outcome::Cancelled => "cancelled",
        Outcome::Failed(_) => "failed",
    }
}

/// Resume offset of an intent: the locally written bytes, 0 without a cursor.
pub fn resume_offset(store: &CursorStore, intent_id: &str) -> (o: u64)
    ensures
        o == (if store@.contains_key(intent_id@) { store@[intent_id@].position } else { 0 }),
{
    match store.get(intent_id) {
        Some(c) => c.position,
        None => 0,
    }
}

/// What [`IntentTable::dispatch`] decided.
#[derive(Debug, Clone, Copy, PartialEq, Eq)]
pub enum DispatchStep {
    /// Repeated intent id: ignored.
    Duplicate,
    /// Execute now; send an "accepted" ACK with this offset when present.
    Execute { ack_offset: Option<u64> },
    /// Wait for the user's answer at the approval gate.
    AwaitApproval,
    /// Unknown direction: rejected and dropped.
    Rejected,
}

/// What happens after the user's answer at a push gate.
#[derive(Debug, Clone, Copy, PartialEq, Eq)]
pub enum GateStep {
    /// Execute; send an "accepted" ACK with this offset when present.
    Execute { ack_offset: Option<u64> },
    /// Rejected; send a "rejected" ACK (offset 0) when `send_ack`.
    Rejected { send_ack: bool },
}

/// Registry of intents and of push approval gates.
pub struct IntentTable {
    intents: StringHashMap<IntentRecord>,
    approvals: StringHashMap<bool>,
}

impl IntentTable {
    /// Records by intent id.
    pub closed spec fn records(&self) -> Map<Seq<char>, IntentRecord> {
        self.intents@
    }

    /// Ids with an open approval gate.
    pub closed spec fn gates(&self) -> Set<Seq<char>> {
        self.approvals@.dom()
    }

    /// Empty registry.
    pub fn new() -> (t: Self)
        ensures
            t.records() == Map::<Seq<char>, IntentRecord>::empty(),
            t.gates() == Set::<Seq<char>>::empty(),
    {
        IntentTable { intents: StringHashMap::new(), approvals: StringHashMap::new() }
    }

    /// Registers a received intent; a repeated id (WS resend) is ignored.
    pub fn register(&mut self, record: IntentRecord) -> (fresh: bool)
        ensures
            fresh == !old(self).records().contains_key(record.intent_id@),
            fresh ==> final(self).records() == old(self).records().insert(record.intent_id@, record),
            !fresh ==> final(self).records() == old(self).records(),
            final(self).gates() == old(self).gates(),
    {
        if self.intents.contains_key(record.intent_id.as_str()) {
            return false;
        }
        let key = record.intent_id.clone();
        self.intents.insert(key, record);
        true
    }

    /// Number of live records.
    pub fn active_count(&self) -> (n: usize)
        ensures
            n == self.records().len(),
    {
        self.intents.len()
    }

    /// The state of an intent.
    pub fn state_of(&self, id: &str) -> (r: Option<IntentState>)
        ensures
            r == (if self.records().contains_key(id@) { Some(self.records()[id@].state) } else { None::<IntentState> }),
    {
        match self.intents.get(id) {
            Some(rec) => Some(rec.state),
            None => None,
        }
    }

    /// Moves an intent to `to`; unknown ids and illegal transitions are refused
    /// and leave the registry unchanged.
    pub fn set_state(&mut self, id: &str, to: IntentState) -> (r: Result<(), String>)
        ensures
            r is Ok <==> old(self).records().contains_key(id@)
                && transition_ok(old(self).records()[id@].state, to),
            r is Ok ==> final(self).records() == old(self).records().insert(
                id@,
                IntentRecord { state: to, ..old(self).records()[id@] },
            ),
            r is Err ==> final(self).records() == old(self).records(),
            final(self).gates() == old(self).gates(),
    {
        let mut rec = match self.intents.get(id) {
            Some(rec) => rec.duplicate(),
            None => return Err("intent not found".to_string()),
        };
        let res = rec.set_state(to);
        if res.is_ok() {
            self.intents.insert(id.to_string(), rec);
        }
        res
    }

    /// Marks that an execution handle is attached to an intent.
    pub fn attach_handle(&mut self, id: &str)
        ensures
            old(self).records().contains_key(id@) ==> final(self).records() == old(self).records().insert(
                id@,
                IntentRecord { has_handle: true, ..old(self).records()[id@] },
            ),
            !old(self).records().contains_key(id@) ==> final(self).records() == old(self).records(),
            final(self).gates() == old(self).gates(),
    {
        let mut rec = match self.intents.get(id) {
            Some(rec) => rec.duplicate(),
            None => return,
        };
        rec.has_handle = true;
        self.intents.insert(id.to_string(), rec);
    }

    /// Cancel request from the desktop: an executing intent gets its token fired
    /// by the caller; one still waiting for approval is removed; an unknown one is reported.
    pub fn cancel_intent(&mut self, id: &str) -> (r: CancelOutcome)
        ensures
            !old(self).records().contains_key(id@) ==> r == CancelOutcome::NotFound
                && final(self).records() == old(self).records(),
            old(self).records().contains_key(id@) && old(self).records()[id@].has_handle
                ==> r == CancelOutcome::CancelExecution && final(self).records() == old(self).records(),
            old(self).records().contains_key(id@) && !old(self).records()[id@].has_handle
                ==> r == CancelOutcome::RemovedPending && final(self).records() == old(self).records().remove(id@),
            final(self).gates() == old(self).gates(),
    {
        let has_handle = match self.intents.get(id) {
            Some(rec) => rec.has_handle,
            None => return CancelOutcome::NotFound,
        };
        if has_handle {
            CancelOutcome::CancelExecution
        } else {
            self.intents.remove(id);
            CancelOutcome::RemovedPending
        }
    }

    /// Opens the approval gate of a push intent.
    pub fn open_gate(&mut self, id: &str)
        ensures
            final(self).gates() == old(self).gates().insert(id@),
            final(self).records() == old(self).records(),
    {
        self.approvals.insert(id.to_string(), true);
    }

    /// Closes the approval gate of an intent (user approved or rejected); an
    /// intent without an open gate is `NotFound`.
    pub fn close_gate(&mut self, id: &str) -> (r: Result<(), crate::error::AppError>)
        ensures
            r is Ok <==> old(self).gates().contains(id@),
            r matches Err(e) ==> (e matches crate::error::AppError::NotFound(m) && m@ == "intent approval not found: "@ + id@),
            final(self).gates() == old(self).gates().remove(id@),
            final(self).records() == old(self).records(),
    {
        if !self.approvals.contains_key(id) {
            proof {
                assert(old(self).gates().remove(id@) =~= old(self).gates());
            }
            return Err(crate::error::AppError::NotFound(crate::text::concat("intent approval not found: ", id)));
        }
        self.approvals.remove(id);
        proof {
            assert(self.approvals@.dom() =~= old(self).approvals@.dom().remove(id@));
        }
        Ok(())
    }

    /// Removes an intent and its gate.
    pub fn remove_record(&mut self, id: &str)
        ensures
            final(self).records() == old(self).records().remove(id@),
            final(self).gates() == old(self).gates().remove(id@),
    {
        self.intents.remove(id);
        self.approvals.remove(id);
        proof {
            assert(self.approvals@.dom() =~= old(self).approvals@.dom().remove(id@));
        }
    }

    /// Receives an intent from the desktop. A repeated id is ignored. Else
    /// the record is registered as received (nothing written, no handle): a
    /// pull is executed at once (with an "accepted" ACK carrying the local
    /// resume offset when the desktop expects a reply); a push waits at an
    /// approval gate; an unknown direction is rejected and dropped.
    pub fn dispatch(&mut self, record: IntentRecord, store: &CursorStore) -> (step: DispatchStep)
        ensures
            old(self).records().contains_key(record.intent_id@) ==> step == DispatchStep::Duplicate
                && final(self).records() == old(self).records() && final(self).gates() == old(self).gates(),
            !old(self).records().contains_key(record.intent_id@) ==> {
                let id = record.intent_id@;
                let fresh = IntentRecord { state: IntentState::Received, offset: 0, has_handle: false, ..record };
                match action_of(record.direction@) {
                    Some(IntentAction::Upload) => {
                        &&& step == (DispatchStep::Execute {
                            ack_offset: if record.expect_response {
                                Some(if store@.contains_key(id) { store@[id].position } else { 0 })
                            } else {
                                None::<u64>
                            },
                        })
                        &&& final(self).records() == old(self).records().insert(id, fresh)
                        &&& final(self).gates() == old(self).gates()
                    },
                    Some(IntentAction::Download) => {
                        &&& step == DispatchStep::AwaitApproval
                        &&& final(self).records() == old(self).records().insert(id, fresh)
                        &&& final(self).gates() == old(self).gates().insert(id)
                    },
                    None => {
                        &&& step == DispatchStep::Rejected
                        &&& final(self).records() == old(self).records()
                        &&& final(self).gates() == old(self).gates().remove(id)
                    },
                }
            },
    {
        let mut record = record;
        record.state = IntentState::Received;
        record.offset = 0;
        record.has_handle = false;
        let id = record.intent_id.clone();
        let expect = record.expect_response;
        let action = decide_action(record.direction.as_str());
        if !self.register(record) {
            return DispatchStep::Duplicate;
        }
        match action {
            Some(IntentAction::Upload) => {
                let ack_offset = if expect {
                    Some(resume_offset(store, id.as_str()))
                } else {
                    None
                };
                DispatchStep::Execute { ack_offset }
            },
            Some(IntentAction::Download) => {
                self.open_gate(id.as_str());
                DispatchStep::AwaitApproval
            },
            None => {
                let _ = self.set_state(id.as_str(), IntentState::Rejected);
                self.remove_record(id.as_str());
                proof {
                    assert(final(self).records() =~= old(self).records());
                }
                DispatchStep::Rejected
            },
        }
    }

    /// The user's answer at a push gate reached the waiting task. Approved:
    /// the intent moves to approved (if it still can), an "accepted" ACK with
    /// the local resume offset goes out when a reply is expected, and the
    /// transfer is executed. Rejected: the intent moves to rejected, a
    /// "rejected" ACK (offset 0) goes out when a reply is expected, and the
    /// record is dropped.
    pub fn resolve_gate(&mut self, id: &str, approved: bool, expect_response: bool, store: &CursorStore) -> (step: GateStep)
        ensures
            approved ==> step == (GateStep::Execute {
                ack_offset: if expect_response {
                    Some(if store@.contains_key(id@) { store@[id@].position } else { 0 })
                } else {
                    None::<u64>
                },
            }),
            approved ==> final(self).records() == (if old(self).records().contains_key(id@) && transition_ok(
                old(self).records()[id@].state,
                IntentState::Approved,
            ) {
                old(self).records().insert(id@, IntentRecord { state: IntentState::Approved, ..old(self).records()[id@] })
            } else {
                old(self).records()
            }),
            approved ==> final(self).gates() == old(self).gates(),
            !approved ==> step == (GateStep::Rejected { send_ack: expect_response }),
            !approved ==> final(self).records() == old(self).records().remove(id@),
            !approved ==> final(self).gates() == old(self).gates().remove(id@),
    {
        if approved {
            let _ = self.set_state(id, IntentState::Approved);
            let ack_offset = if expect_response {
                Some(resume_offset(store, id))
            } else {
                None
            };
            GateStep::Execute { ack_offset }
        } else {
            let _ = self.set_state(id, IntentState::Rejected);
            self.remove_record(id);
            proof {
                assert(final(self).records() =~= old(self).records().remove(id@));
            }
            GateStep::Rejected { send_ack: expect_response }
        }
    }

    /// Starts an execution (a concurrency slot is held): the intent moves to
    /// executing and gets its handle. When it cannot (unknown, or not in a
    /// state that may start), it is rejected and dropped and false is returned.
    pub fn begin_execution(&mut self, id: &str) -> (started: bool)
        ensures
            started <==> old(self).records().contains_key(id@) && transition_ok(
                old(self).records()[id@].state,
                IntentState::Executing,
            ),
            started ==> final(self).records() == old(self).records().insert(
                id@,
                IntentRecord { state: IntentState::Executing, has_handle: true, ..old(self).records()[id@] },
            ),
            started ==> final(self).gates() == old(self).gates(),
            !started ==> final(self).records() == old(self).records().remove(id@),
            !started ==> final(self).gates() == old(self).gates().remove(id@),
    {
        match self.set_state(id, IntentState::Executing) {
            Ok(()) => {
                self.attach_handle(id);
                true
            },
            Err(_) => {
                let _ = self.set_state(id, IntentState::Rejected);
                self.remove_record(id);
                proof {
                    assert(final(self).records() =~= old(self).records().remove(id@));
                }
                false
            },
        }
    }

    /// Closes an execution with its outcome: the record and gate are dropped;
    /// the local cursor is dropped only after a completed transfer (failed or
    /// cancelled ones keep it so that a resent intent resumes). Returns the
    /// final state reported to the desktop.
    pub fn finalize(&mut self, id: &str, outcome: &Outcome, transferred: u64, store: &mut CursorStore) -> (s: IntentState)
        ensures
            s == outcome_state(*outcome, transferred),
            final(self).records() == old(self).records().remove(id@),
            final(self).gates() == old(self).gates().remove(id@),
            final(store)@ == (if *outcome == Outcome::Completed {
                old(store)@.remove(id@)
            } else {
                old(store)@
            }),
    {
        let s = final_state(outcome, transferred);
        let _ = self.set_state(id, s);
        self.remove_record(id);
        proof {
            assert(final(self).records() =~= old(self).records().remove(id@));
        }
        match outcome {
            Outcome::Completed => store.remove(id),
            _ => {},
        }
        s
    }
}

/// Law: a terminal state never changes again.
pub proof fn lemma_terminal_is_final(from: IntentState, to: IntentState)
    requires
        is_terminal(from),
    ensures
        !transition_ok(from, to),
{
}

/// Law: the approval gate cannot be skipped: completion, failure and a
/// cancel-after-start are reachable only from `Executing`.
pub proof fn lemma_only_execution_finishes(from: IntentState, to: IntentState)
    requires
        to is Completed || to is Failed,
        transition_ok(from, to),
    ensures
        from is Executing,
{
}

/// Law: an outcome always yields a terminal state that `Executing` may enter.
pub proof fn lemma_outcome_closes_execution(o: Outcome, transferred: u64)
    ensures
        is_terminal(outcome_state(o, transferred)),
        transition_ok(IntentState::Executing, outcome_state(o, transferred)),
{
}

/// Law: an intent can be cancelled from every state in which it is still
/// live (received, approved or executing), and only from those.
pub proof fn lemma_cancel_from_every_live_state(from: IntentState)
    ensures
        (from is Received || from is Approved || from is Executing) ==> transition_ok(from, IntentState::Cancelled),
        transition_ok(from, IntentState::Cancelled) ==> (from is Received || from is Approved || from is Executing),
{
}

/// Law: the whole lifecycle. A move is legal exactly when it cancels a live
/// intent, approves a received one, starts or rejects one not yet started,
/// or ends an executing one with success or failure.
pub proof fn lemma_lifecycle(from: IntentState, to: IntentState)
    ensures
        transition_ok(from, to) <==> {
            ||| (to is Cancelled && (from is Received || from is Approved || from is Executing))
            ||| (from is Received && to is Approved)
            ||| ((from is Received || from is Approved) && (to is Executing || to is Rejected))
            ||| (from is Executing && (to is Completed || to is Failed))
        },
{
}

/// Index of the first mount allowing `op`, else -1.
pub open spec fn first_mount_allowing(mounts: Seq<PeerMountAnnouncement>, op: FileOperation) -> int
    decreases mounts.len(),
{
    if mounts.len() == 0 {
        -1
    } else if mounts[0].operations@.contains(op) {
        0
    } else {
        let r = first_mount_allowing(mounts.drop_first(), op);
        if r < 0 { -1 } else { r + 1 }
    }
}

proof fn lemma_first_mount(mounts: Seq<PeerMountAnnouncement>, op: FileOperation, i: int)
    requires
        0 <= i <= mounts.len(),
        forall|k: int| 0 <= k < i ==> !(#[trigger] mounts[k]).operations@.contains(op),
        i < mounts.len() ==> mounts[i].operations@.contains(op),
    ensures
        first_mount_allowing(mounts, op) == (if i < mounts.len() { i } else { -1 }),
    decreases i,
{
    if i > 0 {
        let rest = mounts.drop_first();
        assert forall|k: int| 0 <= k < i - 1 implies !(#[trigger] rest[k]).operations@.contains(op) by {
            assert(rest[k] == mounts[k + 1]);
        }
        lemma_first_mount(rest, op, i - 1);
    }
}

fn ops_contain(ops: &[FileOperation], op: FileOperation) -> (b: bool)
    ensures
        b == ops@.contains(op),
{
    let mut k: usize = 0;
    while k < ops.len()
        invariant
            k <= ops@.len(),
            forall|j: int| 0 <= j < k ==> ops@[j] != op,
        decreases ops@.len() - k,
    {
        if ops[k] == op {
            return true;
        }
        k += 1;
    }
    false
}

/// The desktop mount a transfer uses: the first one allowing `op`, else the
/// first one; an error when the desktop shares none.
pub fn choose_desktop_mount(mounts: &[PeerMountAnnouncement], op: FileOperation) -> (r: Result<(String, String), String>)
    ensures
        mounts@.len() == 0 ==> (r matches Err(m) && m@ == "desktop peer has no file mounts"@),
        mounts@.len() > 0 ==> (r matches Ok(pm) && {
            let i = first_mount_allowing(mounts@, op);
            let chosen = if i >= 0 { mounts@[i] } else { mounts@[0] };
            pm.0@ == chosen.plugin_id@ && pm.1@ == chosen.mount_path@
        }),
{
    let mut i: usize = 0;
    while i < mounts.len()
        invariant
            i <= mounts@.len(),
            forall|k: int| 0 <= k < i ==> !(#[trigger] mounts@[k]).operations@.contains(op),
        decreases mounts@.len() - i,
    {
        if ops_contain(mounts[i].operations.as_slice(), op) {
            proof {
                lemma_first_mount(mounts@, op, i as int);
            }
            return Ok((mounts[i].plugin_id.clone(), mounts[i].mount_path.clone()));
        }
        i += 1;
    }
    proof {
        lemma_first_mount(mounts@, op, i as int);
    }
    if mounts.len() == 0 {
        return Err("desktop peer has no file mounts".to_owned());
    }
    Ok((mounts[0].plugin_id.clone(), mounts[0].mount_path.clone()))
}

/// What a progress tick sends.
#[derive(Debug, Clone, Copy, PartialEq, Eq)]
pub enum ProgressTick {
    /// A progress report (running).
    Progress,
    /// A keep-alive heartbeat.
    Heartbeat,
    /// Nothing.
    Quiet,
}

/// One progress tick, from the bytes transferred now, those last reported
/// and whether nothing was sent for a heartbeat interval: when something
/// moved or it has been silent, the count is recorded, and a report goes out
/// when bytes were transferred, a heartbeat when none were. Returns what to
/// send and the count to remember.
pub fn progress_tick(transferred: u64, last_bytes: u64, silent: bool) -> (r: (ProgressTick, u64))
    ensures
        r == (if transferred != last_bytes || silent {
            (if transferred > 0 {
                ProgressTick::Progress
            } else if silent {
                ProgressTick::Heartbeat
            } else {
                ProgressTick::Quiet
            }, transferred)
        } else {
            (ProgressTick::Quiet, last_bytes)
        }),
{
    if transferred != last_bytes || silent {
        if transferred > 0 {
            (ProgressTick::Progress, transferred)
        } else if silent {
            (ProgressTick::Heartbeat, transferred)
        } else {
            (ProgressTick::Quiet, transferred)
        }
    } else {
        (ProgressTick::Quiet, last_bytes)
    }
}

/// Outcome of a transfer run from its failure (none: it succeeded) and
/// whether it was cancelled: success completes, a failure of a cancelled
/// run is a cancellation, any other failure fails with its text.
pub fn transfer_outcome(failure: Option<String>, cancelled: bool) -> (o: Outcome)
    ensures
        failure is None ==> o == Outcome::Completed,
        failure is Some && cancelled ==> o == Outcome::Cancelled,
        !cancelled ==> (failure matches Some(m) ==> o == Outcome::Failed(m)),
{
    match failure {
        None => Outcome::Completed,
        Some(m) => if cancelled { Outcome::Cancelled } else { Outcome::Failed(m) },
    }
}

/// Failure text of an upload error: a duplicate name is reported as
/// "duplicate-name", any other error by its own text.
pub fn upload_failure_text(e: &UploadError, text: String) -> (t: String)
    ensures
        e is DuplicateName ==> t@ == "duplicate-name"@,
        !(e is DuplicateName) ==> t == text,
{
    match e {
        UploadError::DuplicateName(_) => "duplicate-name".to_owned(),
        _ => text,
    }
}

/// `std::path::Path::file_name` on the text of a path: its last component,
/// none when there is none or it is `..`.
pub uninterp spec fn path_file_name_spec(p: Seq<char>) -> Option<Seq<char>>;

/// `Path::new(p).file_name()`, as text. Its result is named, not described.
#[verifier::external_body]
fn path_file_name(p: &str) -> (r: Option<String>)
    ensures
        r matches Some(n) ==> path_file_name_spec(p@) == Some(n@),
        r is None ==> path_file_name_spec(p@) is None,
{
    std::path::Path::new(p).file_name().map(|n| n.to_string_lossy().into_owned())
}

/// Local name of a transferred file: the last component of its path, else
/// `fallback` ("download" for a pushed file, "upload" for a pulled one).
pub fn transfer_file_name(relative_path: &str, fallback: &str) -> (n: String)
    ensures
        n@ == match path_file_name_spec(relative_path@) {
            Some(x) => x,
            None => fallback@,
        },
{
    match path_file_name(relative_path) {
        Some(n) => n,
        None => fallback.to_owned(),
    }
}

/// Where a pushed file lands: the downloads directory joined with its name,
/// and the `.part` file it is written to first.
pub fn download_targets(downloads_dir: &str, relative_path: &str) -> (r: (String, String))
    ensures
        ({
            let name = match path_file_name_spec(relative_path@) {
                Some(x) => x,
                None => "download"@,
            };
            &&& r.0@ == join_path(downloads_dir@, name)
            &&& r.1@ == join_path(downloads_dir@, name) + ".part"@
        }),
{
    let name = transfer_file_name(relative_path, "download");
    let dest = join(downloads_dir, chars_of(name.as_str()).as_slice());
    let part = concat(dest.as_str(), ".part");
    (dest, part)
}

} // verus!

use bedcode_mobile::client::urlencode_path;
use bedcode_mobile::error::AppError;
use bedcode_mobile::saf_tree::{walk_start, walk_step, WalkStep};
use bedcode_mobile::saf_tree::{relay_copy_poll, CopyPoll, CopyStatus};
use bedcode_mobile::cursor::{CursorStore, StoredCursor};
use bedcode_mobile::responder::{
    clamp_concurrency, decide_action, final_state, outcome_name, resume_offset, state_name,
    validate_transition, CancelOutcome, DispatchStep, GateStep, IntentAction, IntentRecord,
    IntentState, IntentTable, Outcome,
};
use bedcode_mobile::saf_tree::{
    is_saf_tree_uri, match_saf_root, percent_decode, relay_cache_path, tree_alias, tree_document_id,
};
use bedcode_mobile::transfer::{
    is_approved, is_batch_expired, validate_approval_timeout, validate_batch_transition, BatchState,
    RejectReason, TransferBatch, DEFAULT_APPROVAL_TIMEOUT_SECS,
};

#[test]
fn tree_uri_parsing() {
    assert!(is_saf_tree_uri("content://tree/primary%3ADownload"));
    assert!(!is_saf_tree_uri("/storage/emulated/0/Download"));
    assert!(!is_saf_tree_uri("content://com.android.externalstorage.documents"));
    assert!(is_saf_tree_uri("content://com.android.externalstorage.documents/tree/primary%3ADownload"));
    assert!(is_saf_tree_uri(
        "content://com.android.externalstorage.documents/tree/primary%3A%E4%B8%8B%E8%BD%BD"
    ));
    assert!(!is_saf_tree_uri(
        "content://com.android.externalstorage.documents/document/primary%3ADownload"
    ));
    assert!(!is_saf_tree_uri("content://com.android.externalstorage.documents/tree"));
    assert_eq!(
        tree_document_id("content://com.android.externalstorage.documents/tree/primary%3A%E4%B8%8B%E8%BD%BD")
            .as_deref(),
        Some("primary:下载")
    );
    assert_eq!(
        tree_alias("content://com.android.externalstorage.documents/tree/primary%3A%E4%B8%8B%E8%BD%BD")
            .as_deref(),
        Some("下载")
    );
    assert_eq!(tree_document_id("content://tree/primary%3ADownload").as_deref(), Some("primary:Download"));
    assert_eq!(
        tree_document_id("content://tree/0123-4567%3ADCIM%2FCamera").as_deref(),
        Some("0123-4567:DCIM/Camera")
    );
    assert_eq!(tree_alias("content://tree/primary%3ADownload").as_deref(), Some("Download"));
    assert_eq!(tree_alias("content://tree/primary%3ADCIM%2FCamera").as_deref(), Some("DCIM/Camera"));
    assert_eq!(tree_alias("content://tree/0123-4567%3ADownload").as_deref(), Some("Download"));
    assert_eq!(tree_alias("content://tree/root").as_deref(), Some("root"));
}

#[test]
fn match_saf_root_hits_alias_and_strips_prefix() {
    let roots = vec!["content://tree/primary%3ADownload".to_string()];
    let hit = match_saf_root(&roots, "Download/sub/file.txt");
    assert_eq!(hit.as_ref().unwrap().0, "content://tree/primary%3ADownload");
    assert_eq!(hit.unwrap().1, vec!["sub".to_string(), "file.txt".to_string()]);
    let hit = match_saf_root(&roots, "Download");
    assert!(hit.unwrap().1.is_empty());
    assert!(match_saf_root(&roots, "Photo/a.jpg").is_none());
    assert!(match_saf_root(&roots, "").is_none());
}

#[test]
fn match_saf_root_handles_alias_with_slash() {
    let roots = vec!["content://tree/primary%3ADCIM%2FCamera".to_string()];
    let hit = match_saf_root(&roots, "DCIM/Camera/2026/IMG_1.jpg");
    assert_eq!(hit.unwrap().1, vec!["2026".to_string(), "IMG_1.jpg".to_string()]);
    assert!(match_saf_root(&roots, "DCIM/Other").is_none());
}

#[test]
fn relay_cache_path_is_stable_and_unique() {
    let dir = "/cache/bedcode_downloads";
    let p1 = relay_cache_path(dir, "content://tree/a/document/f1");
    let p2 = relay_cache_path(dir, "content://tree/a/document/f1");
    let p3 = relay_cache_path(dir, "content://tree/a/document/f2");
    assert_eq!(p1, p2);
    assert_ne!(p1, p3);
    assert!(p1.starts_with(dir));
    let name = p1.rsplit('/').next().unwrap().to_string();
    assert_eq!(name.len(), 16);
    assert!(name.chars().all(|c| c.is_ascii_hexdigit()));
}

#[test]
fn percent_decode_basic() {
    assert_eq!(percent_decode("primary%3ADownload"), "primary:Download");
    assert_eq!(percent_decode("plain"), "plain");
    assert_eq!(percent_decode("a%2Fb%zz"), "a/b%zz");
}

#[test]
fn percent_decode_invalid_utf8_is_replaced() {
    assert_eq!(percent_decode("%FF"), "\u{FFFD}");
}

fn pending_batch() -> TransferBatch {
    TransferBatch {
        batch_id: "b1".to_string(),
        plugin_id: "p".to_string(),
        mount_path: "m".to_string(),
        files: Vec::new(),
        total_size: 0,
        state: BatchState::Pending,
        created_at_ms: 0,
        last_active_ms: 0,
        approval_timeout_ms: DEFAULT_APPROVAL_TIMEOUT_SECS * 1000,
    }
}

#[test]
fn test_batch_transition_valid() {
    assert!(validate_batch_transition(&BatchState::Pending, &BatchState::Approved).is_ok());
    assert!(validate_batch_transition(
        &BatchState::Pending,
        &BatchState::Rejected { reason: RejectReason::UserRejected }
    )
    .is_ok());
    assert!(validate_batch_transition(&BatchState::Pending, &BatchState::Rejected { reason: RejectReason::Timeout })
        .is_ok());
}

#[test]
fn test_batch_transition_invalid() {
    assert!(validate_batch_transition(
        &BatchState::Approved,
        &BatchState::Rejected { reason: RejectReason::UserRejected }
    )
    .is_err());
    assert!(validate_batch_transition(&BatchState::Rejected { reason: RejectReason::Timeout }, &BatchState::Approved)
        .is_err());
    assert!(validate_batch_transition(&BatchState::Pending, &BatchState::Pending).is_err());
}

#[test]
fn reject_reason_wire_names() {
    assert_eq!(RejectReason::UserRejected.as_str(), "user-rejected");
    assert_eq!(RejectReason::Timeout.as_str(), "timeout");
}

#[test]
fn test_is_approved() {
    let mut batch = pending_batch();
    assert!(!is_approved(&batch));
    batch.state = BatchState::Approved;
    assert!(is_approved(&batch));
}

#[test]
fn test_validate_approval_timeout_bounds() {
    assert!(validate_approval_timeout(9).is_err());
    assert_eq!(validate_approval_timeout(10).unwrap(), 10);
    assert_eq!(validate_approval_timeout(600).unwrap(), 600);
    assert!(validate_approval_timeout(601).is_err());
    assert!(validate_approval_timeout(0).is_err());
}

#[test]
fn test_is_batch_expired_pending_and_approved() {
    let now: u64 = 10_000_000;
    let mut batch = pending_batch();
    batch.approval_timeout_ms = 10;
    batch.last_active_ms = now - 50;
    assert!(is_batch_expired(&batch, now));

    let mut approved = pending_batch();
    approved.state = BatchState::Approved;
    approved.last_active_ms = now - 3_600_000;
    assert!(!is_batch_expired(&approved, now));

    let mut rejected = pending_batch();
    rejected.state = BatchState::Rejected { reason: RejectReason::Timeout };
    rejected.last_active_ms = 0;
    assert!(!is_batch_expired(&rejected, u64::MAX));
}

#[test]
fn transition_matrix_valid_and_invalid() {
    assert!(validate_transition(IntentState::Received, IntentState::Executing));
    assert!(validate_transition(IntentState::Received, IntentState::Approved));
    assert!(validate_transition(IntentState::Received, IntentState::Rejected));
    assert!(validate_transition(IntentState::Approved, IntentState::Executing));
    assert!(validate_transition(IntentState::Executing, IntentState::Completed));
    assert!(validate_transition(IntentState::Executing, IntentState::Failed { offset: 10 }));
    assert!(validate_transition(IntentState::Executing, IntentState::Cancelled));
    assert!(!validate_transition(IntentState::Completed, IntentState::Executing));
    assert!(!validate_transition(IntentState::Executing, IntentState::Received));
    assert!(!validate_transition(IntentState::Failed { offset: 0 }, IntentState::Executing));
    assert!(!validate_transition(IntentState::Rejected, IntentState::Approved));
    assert!(!validate_transition(IntentState::Cancelled, IntentState::Executing));
    assert!(!validate_transition(IntentState::Approved, IntentState::Completed));
}

fn record(id: &str, direction: &str, expect_response: bool) -> IntentRecord {
    IntentRecord {
        intent_id: id.to_string(),
        direction: direction.to_string(),
        semantics: "upload".to_string(),
        batch_id: None,
        relative_path: "a.mp4".to_string(),
        size: 10,
        device_name: "d".to_string(),
        expect_response,
        state: IntentState::Received,
        offset: 0,
        has_handle: false,
        created_at_ms: 0,
    }
}

#[test]
fn record_rejects_invalid_transition() {
    let mut record = record("i1", "push", true);
    record.set_state(IntentState::Approved).unwrap();
    record.set_state(IntentState::Executing).unwrap();
    record.set_state(IntentState::Completed).unwrap();
    assert!(record.set_state(IntentState::Executing).is_err());
}

#[test]
fn decide_action_by_direction() {
    assert_eq!(decide_action("pull"), Some(IntentAction::Upload));
    assert_eq!(decide_action("push"), Some(IntentAction::Download));
    assert_eq!(decide_action("unknown"), None);
}

#[test]
fn clamp_concurrency_bounds() {
    assert_eq!(clamp_concurrency(0), 1);
    assert_eq!(clamp_concurrency(3), 3);
    assert_eq!(clamp_concurrency(99), 8);
    assert_eq!(clamp_concurrency(8), 8);
}

#[test]
fn state_and_outcome_wire_names() {
    assert_eq!(state_name(IntentState::Failed { offset: 3 }), "failed");
    assert_eq!(state_name(IntentState::Received), "received");
    assert_eq!(final_state(&Outcome::Failed("x".to_string()), 7), IntentState::Failed { offset: 7 });
    assert_eq!(outcome_name(&Outcome::Cancelled), "cancelled");
}

#[test]
fn pull_intent_executes_with_resume_offset_ack() {
    let mut table = IntentTable::new();
    let mut store = CursorStore::new();
    store.upsert("i1", StoredCursor { position: 42, fingerprint: None });
    assert_eq!(table.dispatch(record("i1", "pull", true), &store), DispatchStep::Execute { ack_offset: Some(42) });
    assert_eq!(table.dispatch(record("i1", "pull", true), &store), DispatchStep::Duplicate);
    assert_eq!(table.active_count(), 1);
    assert!(table.begin_execution("i1"));
    assert_eq!(table.state_of("i1"), Some(IntentState::Executing));
    assert_eq!(table.cancel_intent("i1"), CancelOutcome::CancelExecution);
    let s = table.finalize("i1", &Outcome::Completed, 10, &mut store);
    assert_eq!(s, IntentState::Completed);
    assert_eq!(table.active_count(), 0);
    assert!(store.get("i1").is_none());
}

#[test]
fn push_intent_waits_at_gate_until_answered() {
    let mut table = IntentTable::new();
    let mut store = CursorStore::new();
    assert_eq!(table.dispatch(record("p1", "push", true), &store), DispatchStep::AwaitApproval);
    assert!(table.close_gate("p1").is_ok());
    assert!(table.close_gate("p1").is_err());
    assert_eq!(
        table.resolve_gate("p1", true, true, &store),
        GateStep::Execute { ack_offset: Some(0) }
    );
    assert_eq!(table.state_of("p1"), Some(IntentState::Approved));
    assert!(table.begin_execution("p1"));
    store.upsert("p1", StoredCursor { position: 5, fingerprint: None });
    let s = table.finalize("p1", &Outcome::Failed("network".to_string()), 5, &mut store);
    assert_eq!(s, IntentState::Failed { offset: 5 });
    assert_eq!(resume_offset(&store, "p1"), 5);

    assert_eq!(table.dispatch(record("p2", "push", false), &store), DispatchStep::AwaitApproval);
    assert_eq!(table.resolve_gate("p2", false, false, &store), GateStep::Rejected { send_ack: false });
    assert_eq!(table.state_of("p2"), None);
}

#[test]
fn unknown_direction_and_pending_cancel() {
    let mut table = IntentTable::new();
    let store = CursorStore::new();
    assert_eq!(table.dispatch(record("x", "sideways", true), &store), DispatchStep::Rejected);
    assert_eq!(table.active_count(), 0);
    assert_eq!(table.dispatch(record("q", "push", true), &store), DispatchStep::AwaitApproval);
    assert_eq!(table.cancel_intent("q"), CancelOutcome::RemovedPending);
    assert_eq!(table.cancel_intent("q"), CancelOutcome::NotFound);
    assert!(!table.begin_execution("q"));
}

fn saf_entry(name: &str, is_dir: bool, doc: &str) -> bedcode_mobile::saf_tree::SafEntry {
    bedcode_mobile::saf_tree::SafEntry {
        name: name.to_string(),
        is_dir,
        size: if is_dir { 0 } else { 12 },
        mime: String::new(),
        uri: format!("content://x/document/{doc}"),
        document_id: doc.to_string(),
    }
}

#[test]
fn saf_walk_descends_directories_to_the_entry() {
    let tree = "content://com.android.externalstorage.documents/tree/primary%3ADownload";
    let parts = vec!["sub".to_string(), "a.txt".to_string()];
    assert_eq!(walk_start(tree, "primary:Download", &parts), WalkStep::List { document_id: "primary:Download".to_string() });
    match walk_start(tree, "primary:Download", &[]) {
        WalkStep::Found(e) => {
            assert_eq!(e.name, "Download");
            assert!(e.is_dir);
            assert_eq!(e.uri, tree);
            assert_eq!(e.document_id, "primary:Download");
        }
        other => panic!("{other:?}"),
    }
    let root_children = vec![saf_entry("a.txt", false, "d1"), saf_entry("sub", true, "d2")];
    assert_eq!(
        walk_step(tree, "primary:Download", &parts, 0, Ok(root_children)),
        WalkStep::List { document_id: "d2".to_string() }
    );
    let sub_children = vec![saf_entry("a.txt", false, "d3"), saf_entry("a.txt", false, "d4")];
    assert_eq!(walk_step(tree, "d2", &parts, 1, Ok(sub_children)), WalkStep::Found(saf_entry("a.txt", false, "d3")));
    assert_eq!(
        walk_step(tree, "d2", &parts, 1, Ok(vec![])),
        WalkStep::Failed(AppError::NotFound(format!("'a.txt' not found in SAF tree {tree}")))
    );
    assert_eq!(
        walk_step(tree, "primary:Download", &parts, 0, Ok(vec![saf_entry("sub", false, "d9")])),
        WalkStep::Failed(AppError::NotFound(format!("'sub' is not a directory in SAF tree {tree}")))
    );
    assert_eq!(
        walk_step(tree, "d2", &parts, 1, Err("revoked".to_string())),
        WalkStep::Failed(AppError::Plugin(format!(
            "saf walk: list_tree({tree}, d2) failed (permission may be revoked): revoked"
        )))
    );
}

#[test]
fn relay_copy_poll_waits_then_completes_or_fails() {
    let st = |finished, cancelled, error: Option<&str>| CopyStatus { finished, cancelled, error: error.map(|e| e.to_string()) };
    assert_eq!(relay_copy_poll("content://u", &st(false, false, None)), CopyPoll::Wait);
    assert_eq!(relay_copy_poll("content://u", &st(true, false, None)), CopyPoll::Done);
    assert_eq!(
        relay_copy_poll("content://u", &st(true, true, None)),
        CopyPoll::Failed(AppError::Plugin("ensure_relay_copy: relay copy cancelled by user (content://u)".to_string()))
    );
    assert_eq!(
        relay_copy_poll("content://u", &st(true, false, Some("disk full"))),
        CopyPoll::Failed(AppError::Plugin("ensure_relay_copy: relay copy failed for content://u: disk full".to_string()))
    );
}

#[test]
fn match_saf_root_skips_roots_without_alias() {
    let roots = vec![
        "content://tree/".to_string(),
        "content://com.android.externalstorage.documents/tree/primary%3ADownload".to_string(),
    ];
    let hit = match_saf_root(&roots, "Download/sub/file.txt").unwrap();
    assert_eq!(hit.0, roots[1]);
    assert_eq!(hit.1, vec!["sub".to_string(), "file.txt".to_string()]);
    assert_eq!(match_saf_root(&roots, "Photo/a.jpg"), None);
}

#[test]
fn urlencoded_path_decodes_back() {
    for p in ["movies/a b&c%.mp4", "下载/文件 1.txt", "plain/path-._~"] {
        assert_eq!(percent_decode(&urlencode_path(p)), p);
    }
}

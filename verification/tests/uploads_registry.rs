use bedcode_mobile::server::{
    batch_admission, create_upload_begin, create_upload_finish, create_upload_gate, hook_admission, Admission,
    BatchError, CreateUploadStep, UploadGate, UploadHookDecision,
};
use bedcode_mobile::connection::{reconnect_step, ReconnectStep};
use bedcode_mobile::error::AppError;
use bedcode_mobile::migration::{approval_timeout_secs, migrate_shared_dirs, receiving_policy, shared_root_id, LegacySharedDir};
use bedcode_mobile::peers::{announced_peer, desktop_peer_id, merge_desktop_peer, FileOperation, PeerFileService, PeerMountAnnouncement};
use bedcode_mobile::registry::{check_mount_request, needs_write_access, split_roots, HookRoute, HookTarget, MountEntry, MountTable};
use bedcode_mobile::upload_client::{CompleteError, UploadError, UploadPlanner, UploadSessionInfo, UploadStep};
use bedcode_mobile::upload_session::{after_placement, PlacementError, PlacementFollowUp, UploadSessionError, UploadSessionManager};

fn info(sid: &str, received: u64) -> UploadSessionInfo {
    UploadSessionInfo { session_id: sid.to_string(), received }
}

#[test]
fn upload_full_flow_creates_appends_completes() {
    let mut p = UploadPlanner::new(10);
    assert_eq!(p.next(false), UploadStep::CreateSession);
    assert_eq!(p.on_created(Ok(info("s1", 0))), UploadStep::QuerySession { sid: "s1".to_string() });
    let (step, base) = p.on_queried("s1".to_string(), Ok(info("s1", 0)));
    assert_eq!(step, UploadStep::Append { sid: "s1".to_string(), offset: 0 });
    assert_eq!(base, None);
    assert_eq!(
        p.on_appended("s1".to_string(), Ok(10)),
        UploadStep::Complete { sid: "s1".to_string(), received: 10, after_append: true }
    );
    assert_eq!(p.on_completed("s1".to_string(), 10, true, Ok(())), UploadStep::Finished(Ok(info("s1", 10))));
}

#[test]
fn upload_404_rebuilds_session_and_completes() {
    let mut p = UploadPlanner::new(4);
    p.next(false);
    p.on_created(Ok(info("old", 0)));
    let (step, _) = p.on_queried("old".to_string(), Err(UploadError::SessionNotFound("gone".to_string())));
    assert_eq!(step, UploadStep::Continue);
    assert_eq!(p.next(false), UploadStep::CreateSession);
    assert_eq!(p.on_created(Ok(info("new", 0))), UploadStep::QuerySession { sid: "new".to_string() });
    let (step, _) = p.on_queried("new".to_string(), Ok(info("new", 4)));
    assert_eq!(step, UploadStep::Complete { sid: "new".to_string(), received: 4, after_append: false });
    assert_eq!(p.on_completed("new".to_string(), 4, false, Ok(())), UploadStep::Finished(Ok(info("new", 4))));
}

#[test]
fn upload_complete_duplicate_name_rejected() {
    let mut p = UploadPlanner::new(3);
    let step = p.on_completed("s".to_string(), 3, true, Err(CompleteError::DuplicateName("a.txt".to_string())));
    assert!(matches!(step, UploadStep::Finished(Err(UploadError::DuplicateName(_)))), "got: {:?}", step);
}

#[test]
fn network_failures_resume_from_server_offset_then_give_up_on_create() {
    let mut p = UploadPlanner::new(100);
    p.next(false);
    p.on_created(Ok(info("s", 0)));
    let (step, base) = p.on_queried("s".to_string(), Ok(info("s", 40)));
    assert_eq!(step, UploadStep::Append { sid: "s".to_string(), offset: 40 });
    assert_eq!(base, Some(40));
    assert_eq!(p.on_appended("s".to_string(), Err(UploadError::Network("reset".to_string()))), UploadStep::RetryAfterPause);
    assert_eq!(p.next(false), UploadStep::QuerySession { sid: "s".to_string() });
    let (_, base) = p.on_queried("s".to_string(), Ok(info("s", 60)));
    assert_eq!(base, None);

    let mut q = UploadPlanner::new(1);
    q.next(false);
    assert_eq!(q.on_created(Err(UploadError::Network("a".to_string()))), UploadStep::RetryAfterPause);
    q.next(false);
    assert_eq!(q.on_created(Err(UploadError::Network("b".to_string()))), UploadStep::RetryAfterPause);
    q.next(false);
    assert_eq!(
        q.on_created(Err(UploadError::Network("c".to_string()))),
        UploadStep::Finished(Err(UploadError::Network("create session failed after 3 attempts: c".to_string())))
    );
    assert_eq!(UploadPlanner::new(1).next(true), UploadStep::Finished(Err(UploadError::Cancelled)));
}

#[test]
fn offset_mismatch_keeps_session() {
    let mut p = UploadPlanner::new(9);
    assert_eq!(
        p.on_appended("s".to_string(), Err(UploadError::OffsetMismatch { expected: 5, got: 0 })),
        UploadStep::Continue
    );
    assert_eq!(p.session_id.as_deref(), Some("s"));
    assert_eq!(p.on_appended("s".to_string(), Err(UploadError::Io("open failed".to_string()))), UploadStep::Finished(Err(UploadError::Io("open failed".to_string()))));
}

#[test]
fn test_create_append_complete_lifecycle() {
    let mut m = UploadSessionManager::new();
    let s = m.create("com.test.plugin", "files", "/dl/target.txt", 10, 1000).unwrap();
    assert_eq!(s.received, 0);
    assert!(s.tmp.rsplit('/').next().unwrap().starts_with(".bedcode-upload-"));
    assert_eq!(s.tmp, format!("/dl/.bedcode-upload-{}.part", s.id));
    assert_eq!(m.append_target(&s.id, "com.test.plugin", "files", 0).unwrap(), s.tmp);
    assert_eq!(m.commit_append(&s.id, "com.test.plugin", "files", 5, 1001).unwrap(), 5);
    assert!(matches!(
        m.append_target(&s.id, "com.test.plugin", "files", 0),
        Err(UploadSessionError::OffsetMismatch { expected: 5, got: 0 })
    ));
    assert_eq!(m.commit_append(&s.id, "com.test.plugin", "files", 5, 1002).unwrap(), 10);
    let taken = m.take_for_complete(&s.id, "com.test.plugin", "files", false, true).unwrap();
    assert_eq!(taken.target, "/dl/target.txt");
    assert!(m.get(&s.id, "com.test.plugin", "files").is_none());
}

#[test]
fn test_complete_duplicate_name_keeps_part() {
    let mut m = UploadSessionManager::new();
    let s = m.create("p", "m", "/dl/a.txt", 1, 0).unwrap();
    let err = m.take_for_complete(&s.id, "p", "m", true, true).unwrap_err();
    assert!(matches!(err, UploadSessionError::DuplicateName(_)));
    assert!(m.get(&s.id, "p", "m").is_some());
    let err = m.take_for_complete(&s.id, "p", "m", false, false).unwrap_err();
    assert_eq!(err, UploadSessionError::NotFound(format!("{} (temp file missing)", s.id)));
}

#[test]
fn failed_rename_restores_session() {
    let mut m = UploadSessionManager::new();
    let s = m.create("p", "m", "/dl/a.txt", 1, 0).unwrap();
    let taken = m.take_for_complete(&s.id, "p", "m", false, true).unwrap();
    assert_eq!(m.len(), 0);
    m.restore(taken);
    assert!(m.get(&s.id, "p", "m").is_some());
    assert_eq!(after_placement(&Ok(())), PlacementFollowUp::RemovePart);
    assert_eq!(after_placement(&Err(PlacementError::Duplicate("d".to_string()))), PlacementFollowUp::RejectDuplicate);
    assert_eq!(after_placement(&Err(PlacementError::Other("o".to_string()))), PlacementFollowUp::RenameToPrivate);
}

#[test]
fn test_cancel_removes_temp_file() {
    let mut m = UploadSessionManager::new();
    let s = m.create("p", "m", "/dl/a.txt", 1, 0).unwrap();
    let removed = m.cancel(&s.id, "p", "m").unwrap();
    assert_eq!(removed.tmp, s.tmp);
    assert!(m.get(&s.id, "p", "m").is_none());
    assert!(matches!(m.cancel(&s.id, "p", "m"), Err(UploadSessionError::NotFound(_))));
}

#[test]
fn test_ownership_isolation() {
    let mut m = UploadSessionManager::new();
    let s = m.create("plugin-a", "files", "/dl/a.txt", 1, 0).unwrap();
    assert!(m.get(&s.id, "plugin-b", "files").is_none());
    assert!(m.get(&s.id, "plugin-a", "other").is_none());
    assert!(m.get(&s.id, "plugin-a", "files").is_some());
    assert!(m.cancel_for_plugin(&s.id, "plugin-b").is_err());
    assert!(m.cancel_for_plugin(&s.id, "plugin-a").is_ok());
}

#[test]
fn test_cancel_for_mount() {
    let mut m = UploadSessionManager::new();
    m.create("p", "m1", "/dl/a", 1, 0).unwrap();
    m.create("p", "m1", "/dl/b", 1, 0).unwrap();
    let keep = m.create("p", "m2", "/dl/c", 1, 0).unwrap();
    assert_eq!(m.cancel_for_mount("p", "m1").len(), 2);
    assert_eq!(m.len(), 1);
    assert!(m.get(&keep.id, "p", "m2").is_some());
}

#[test]
fn sweep_removes_idle_sessions_only() {
    let mut m = UploadSessionManager::new();
    let old = m.create("p", "m", "/dl/a", 1, 0).unwrap();
    let fresh = m.create("p", "m", "/dl/b", 1, 86_400_000).unwrap();
    let swept = m.sweep_expired(86_400_001);
    assert_eq!(swept.len(), 1);
    assert_eq!(swept[0].id, old.id);
    assert!(m.get(&fresh.id, "p", "m").is_some());
    assert!(matches!(m.create("p", "m", "noparent", 1, 0), Ok(_)));
    assert_eq!(
        m.create("p", "m", "/", 1, 0).unwrap_err(),
        UploadSessionError::Io("upload target '/' has no parent directory".to_string())
    );
}

#[test]
fn desktop_peer_merges_mount_reports() {
    assert_eq!(desktop_peer_id("192.168.1.9"), "desktop:192.168.1.9");
    let p = merge_desktop_peer(None, "10.0.0.2", 8080, "", "pl", "files", true, &[FileOperation::List]);
    assert_eq!(p.ip, "10.0.0.2");
    assert_eq!(p.port, 8080);
    assert_eq!(p.token, "");
    assert_eq!(p.mounts.len(), 1);
    let p = merge_desktop_peer(Some(p), "10.0.0.2", 8080, "tok", "pl", "files", true, &[FileOperation::Download]);
    assert_eq!(p.token, "tok");
    assert_eq!(p.mounts, vec![PeerMountAnnouncement {
        plugin_id: "pl".to_string(),
        mount_path: "files".to_string(),
        operations: vec![FileOperation::Download],
    }]);
    let p = merge_desktop_peer(Some(p), "10.0.0.2", 8080, "", "pl", "files", false, &[]);
    assert!(p.mounts.is_empty());
    assert_eq!(p.token, "tok");
}

#[test]
fn desktop_announce_replaces_mounts() {
    let existing = PeerFileService {
        ip: "old".to_string(),
        port: 1,
        token: "old-token".to_string(),
        device_name: "Desk".to_string(),
        mounts: vec![],
    };
    let mounts = vec![PeerMountAnnouncement { plugin_id: "a".to_string(), mount_path: "b".to_string(), operations: vec![] }];
    let p = announced_peer(Some(existing), "1.2.3.4", 9, "", 4455, String::new(), String::new(), mounts.clone());
    assert_eq!(p.ip, "1.2.3.4");
    assert_eq!(p.port, 4455);
    assert_eq!(p.token, "old-token");
    assert_eq!(p.device_name, "Desk");
    assert_eq!(p.mounts, mounts);
    let p = announced_peer(None, "1.2.3.4", 9, "global", 4455, String::new(), "PC".to_string(), vec![]);
    assert_eq!(p.token, "global");
    assert_eq!(p.device_name, "PC");
}

#[test]
fn legacy_settings_and_roots_migrate() {
    assert_eq!(receiving_policy("always_accept"), "accept");
    assert_eq!(receiving_policy("always_deny"), "reject");
    assert_eq!(receiving_policy("ask_every_time"), "ask");
    assert_eq!(approval_timeout_secs(3), 10);
    assert_eq!(approval_timeout_secs(90), 90);
    assert_eq!(approval_timeout_secs(9000), 600);
    assert_eq!(shared_root_id(""), "root-cbf29ce484222325");
    let roots = migrate_shared_dirs(vec![
        LegacySharedDir { name: "Dl".to_string(), tree_uri: Some("content://tree/primary%3ADownload".to_string()) },
        LegacySharedDir { name: "fs".to_string(), tree_uri: None },
    ]);
    assert_eq!(roots.len(), 1);
    assert_eq!(roots[0].name, "Dl");
    assert_eq!(roots[0].path, "content://tree/primary%3ADownload");
    assert_eq!(roots[0].id, shared_root_id("content://tree/primary%3ADownload"));
    assert_eq!(roots[0].id.len(), 21);
}

fn entry(plugin: &str, mount: &str, hook: HookTarget) -> MountEntry {
    MountEntry {
        plugin_id: plugin.to_string(),
        mount_path: mount.to_string(),
        roots: vec!["/sdcard/Download".to_string()],
        saf_roots: vec![],
        operations: vec![FileOperation::List, FileOperation::Upload],
        hook,
    }
}

#[test]
fn mount_table_rejects_duplicates_and_unmounts_with_sessions() {
    let mut t = MountTable::new();
    let mut sessions = UploadSessionManager::new();
    assert!(t.insert(entry("p", "files", HookTarget::Wasm)).is_ok());
    assert_eq!(
        t.insert(entry("p", "files", HookTarget::Wasm)),
        Err(AppError::InvalidInput("mount 'files' already exists for plugin 'p'".to_string()))
    );
    assert!(t.insert(entry("p", "media", HookTarget::NoHook)).is_ok());
    assert!(t.insert(entry("q", "files", HookTarget::Webview)).is_ok());
    assert_eq!(t.mount_count(), 3);
    assert_eq!(t.hook_route("p", "files"), HookRoute::CallWasm);
    assert_eq!(t.hook_route("q", "files"), HookRoute::CallWebview);
    match t.hook_route("p", "media") {
        HookRoute::Decided(d) => assert_eq!(d.reason.as_deref(), Some("mount has no upload hook")),
        other => panic!("unexpected {:?}", other),
    }
    match t.hook_route("z", "none") {
        HookRoute::Decided(d) => assert_eq!(d.reason.as_deref(), Some("mount not found")),
        other => panic!("unexpected {:?}", other),
    }
    sessions.create("p", "files", "/dl/a", 1, 0).unwrap();
    sessions.create("q", "files", "/dl/b", 1, 0).unwrap();
    let cancelled = t.unmount(&mut sessions, "p", "files").unwrap();
    assert_eq!(cancelled.len(), 1);
    assert_eq!(sessions.len(), 1);
    assert_eq!(
        t.get_entry("p", "files").unwrap_err(),
        AppError::NotFound("mount 'files' not found for plugin 'p'".to_string())
    );
    let removed = t.unmount_plugin(&mut sessions, "q");
    assert_eq!(removed, vec!["files".to_string()]);
    assert_eq!(sessions.len(), 0);
    assert_eq!(t.mount_count(), 1);
    assert_eq!(t.mount_announcements().len(), 1);
}

#[test]
fn mount_request_checks_and_root_split() {
    assert!(check_mount_request("files", &["/a".to_string()]).is_ok());
    assert_eq!(
        check_mount_request("files", &[]),
        Err(AppError::InvalidInput("mount 'files': roots must not be empty".to_string()))
    );
    assert!(check_mount_request("Bad Name", &["/a".to_string()]).is_err());
    let (saf, real) = split_roots(&["/sdcard/DCIM".to_string(), "content://tree/primary%3ADownload".to_string()]);
    assert_eq!(saf, vec!["content://tree/primary%3ADownload".to_string()]);
    assert_eq!(real, vec!["/sdcard/DCIM".to_string()]);
    assert!(needs_write_access(&[FileOperation::Upload]));
    assert!(!needs_write_access(&[FileOperation::List, FileOperation::Download]));
    let mut t = MountTable::new();
    t.insert(entry("p", "files", HookTarget::Wasm)).unwrap();
    t.set_roots("p", "files", vec!["/x".to_string()], vec![]).unwrap();
    assert_eq!(t.get_entry("p", "files").unwrap().roots, vec!["/x".to_string()]);
}

#[test]
fn reconnect_backoff_schedule() {
    assert_eq!(reconnect_step(0, false, false), ReconnectStep::Attempt { delay_ms: None });
    assert_eq!(reconnect_step(1, false, false), ReconnectStep::Attempt { delay_ms: Some(1000) });
    assert_eq!(reconnect_step(4, false, false), ReconnectStep::Attempt { delay_ms: Some(8000) });
    assert_eq!(reconnect_step(5, false, false), ReconnectStep::GiveUp);
    assert_eq!(reconnect_step(1, true, false), ReconnectStep::Stop);
    assert_eq!(reconnect_step(1, false, true), ReconnectStep::Stop);
}

#[test]
fn append_resumes_at_the_committed_count() {
    let mut m = UploadSessionManager::new();
    let s = m.create("p", "m", "/dl/b.bin", 100, 0).unwrap();
    let n = m.commit_append(&s.id, "p", "m", 40, 1).unwrap();
    assert_eq!(n, 40);
    assert_eq!(m.append_target(&s.id, "p", "m", n).unwrap(), s.tmp);
    assert_eq!(
        m.append_target(&s.id, "p", "m", 39),
        Err(UploadSessionError::OffsetMismatch { expected: 40, got: 39 })
    );
    assert_eq!(m.get(&s.id, "p", "m").unwrap().received, 40);
}

#[test]
fn create_upload_flow_orders_its_answers() {
    let mut mounts = MountTable::new();
    mounts.insert(entry("p", "m", HookTarget::NoHook)).unwrap();
    let mut ro = entry("p", "ro", HookTarget::NoHook);
    ro.operations = vec![FileOperation::List];
    mounts.insert(ro).unwrap();
    match create_upload_begin(&mounts, "p", "nope", Some("/dl".to_string())) {
        CreateUploadStep::Refuse { status, .. } => assert_eq!(status, 404),
        other => panic!("{other:?}"),
    }
    assert_eq!(
        create_upload_begin(&mounts, "p", "ro", Some("/dl".to_string())),
        CreateUploadStep::Refuse { status: 403, message: "operation 'Upload' not allowed for mount 'ro'".to_string() }
    );
    assert_eq!(
        create_upload_begin(&mounts, "p", "m", None),
        CreateUploadStep::Refuse { status: 500, message: "downloads dir unavailable".to_string() }
    );
    assert_eq!(
        create_upload_begin(&mounts, "p", "m", Some("/dl".to_string())),
        CreateUploadStep::ResolveTarget { downloads_dir: "/dl".to_string() }
    );
    assert_eq!(
        create_upload_gate(Err("path escapes root".to_string()), None),
        UploadGate::Refuse { status: 400, message: "path escapes root".to_string() }
    );
    assert_eq!(
        create_upload_gate(Ok("/dl/a.txt".to_string()), Some("b1".to_string())),
        UploadGate::CheckBatch { target: "/dl/a.txt".to_string(), batch_id: "b1".to_string() }
    );
    assert_eq!(create_upload_gate(Ok("/dl/a.txt".to_string()), None), UploadGate::CallHook { target: "/dl/a.txt".to_string() });
    let mut sessions = UploadSessionManager::new();
    let refused = batch_admission(&Err(BatchError::NotApproved("batch-pending".to_string())));
    assert_eq!(
        create_upload_finish(&mut sessions, "p", "m", "/dl/a.txt", refused, 5, 1).err(),
        Some((403, "batch-pending".to_string()))
    );
    assert_eq!(sessions.len(), 0);
    let ask = hook_admission(&UploadHookDecision { allow: false, ask: true, reason: None });
    assert_eq!(
        create_upload_finish(&mut sessions, "p", "m", "/dl/a.txt", ask, 5, 1).err(),
        Some((403, "batch-context-required".to_string()))
    );
    assert_eq!(sessions.len(), 0);
    let s = create_upload_finish(&mut sessions, "p", "m", "/dl/a.txt", Admission::Admit, 5, 1).unwrap();
    assert_eq!(s.target, "/dl/a.txt");
    assert_eq!(s.received, 0);
    assert_eq!(sessions.len(), 1);
}

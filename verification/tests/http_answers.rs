use bedcode_mobile::client::on_chunk;
use bedcode_mobile::cursor::CursorStore;
use bedcode_mobile::listing::{saf_listing, SafChild};
use bedcode_mobile::client::{range_header, DownloadRequest};
use bedcode_mobile::handlers::{AuthHandler, FileServiceHandler, SyncHandler, TerminalHandler};
use bedcode_mobile::router::ClientRouteHandler;
use bedcode_mobile::server::transfer_request_answer;
use bedcode_mobile::transfer::BatchDecision;

#[test]
fn range_header_only_when_resuming() {
    assert_eq!(range_header(0), None);
    assert_eq!(range_header(1), Some("bytes=1-".to_string()));
    assert_eq!(range_header(524288), Some("bytes=524288-".to_string()));
}

#[test]
fn transfer_request_answers() {
    assert_eq!(transfer_request_answer(BatchDecision::Approved), (200, "approved"));
    assert_eq!(transfer_request_answer(BatchDecision::Pending), (202, "pending"));
}

#[test]
fn download_request_holds_its_fields() {
    let r = DownloadRequest {
        url: "http://h/api/plugins/p/m/file?path=a".to_string(),
        auth: "Bearer t".to_string(),
        dest_path: "/d/a.part".to_string(),
        final_path: "/d/a".to_string(),
        total: 10,
        media: Some(("a".to_string(), "text/plain".to_string())),
    };
    let c = r.clone();
    assert_eq!(c, r);
    assert_eq!(c.total, 10);
}

fn route_name<H: ClientRouteHandler>(h: &H) -> &'static str {
    h.name()
}

#[test]
fn handlers_are_route_handlers() {
    assert_eq!(route_name(&TerminalHandler), "TerminalHandler");
    assert_eq!(route_name(&AuthHandler), "AuthHandler");
    assert_eq!(route_name(&SyncHandler), "SyncHandler");
    assert_eq!(route_name(&FileServiceHandler), "FileServiceHandler");
}

use bedcode_mobile::listing::root_listing;
use bedcode_mobile::server::FileEntryDto;

fn dir(name: &str, mtime: u64) -> FileEntryDto {
    FileEntryDto { name: name.to_string(), size: 0, mtime, is_dir: true }
}

#[test]
fn root_listing_merges_real_and_saf_roots_by_name() {
    let out = root_listing(
        vec![dir("Music", 5), dir("Books", 7)],
        &[
            "content://tree/primary%3ADownload".to_string(),
            "content://tree/".to_string(),
            "content://tree/primary%3ACamera".to_string(),
        ],
    );
    let names: Vec<&str> = out.iter().map(|e| e.name.as_str()).collect();
    assert_eq!(names, vec!["Books", "Camera", "Download", "Music"]);
    assert!(out.iter().all(|e| e.is_dir));
    assert_eq!(out[0].mtime, 7);
    assert_eq!(out[1].mtime, 0);
    assert_eq!(out[1].size, 0);
}

#[test]
fn root_listing_empty() {
    assert!(root_listing(vec![], &[]).is_empty());
}

use bedcode_mobile::relay::{relay_file_of, relay_part_name, CleanupTick, RelayState, RELAY_CACHE_TTL_MS};

#[test]
fn relay_cleanup_starts_once_per_copy() {
    let mut s = RelayState::new();
    assert!(s.arm_cleanup("abc", 0));
    assert!(!s.arm_cleanup("abc", 10));
    assert!(s.arm_cleanup("def", 10));
}

#[test]
fn relay_copy_kept_while_accessed() {
    let mut s = RelayState::new();
    assert!(s.arm_cleanup("abc", 0));
    s.touch("abc", 1_000_000);
    assert_eq!(s.cleanup_tick("abc", RELAY_CACHE_TTL_MS), CleanupTick::KeepWaiting);
    assert_eq!(s.cleanup_tick("abc", 1_000_000 + RELAY_CACHE_TTL_MS), CleanupTick::Remove);
    // forgotten: a new cleanup can start
    assert!(s.arm_cleanup("abc", 5));
}

#[test]
fn relay_unknown_copy_is_removed_and_reset_forgets() {
    let mut s = RelayState::new();
    assert_eq!(s.cleanup_tick("zzz", 0), CleanupTick::Remove);
    assert!(s.arm_cleanup("abc", 0));
    s.reset();
    assert!(s.arm_cleanup("abc", 0));
}

#[test]
fn relay_file_names() {
    assert!(relay_file_of("0123abcd.pdf", "0123abcd"));
    assert!(relay_file_of("0123abcd.pdf.part", "0123abcd"));
    assert!(!relay_file_of("ffff.pdf", "0123abcd"));
    assert_eq!(relay_part_name("0123abcd.pdf"), "0123abcd.pdf.part");
}

use bedcode_mobile::registry::{
    wasm_hook_decision, webview_hook_decision, PendingHookReplies, WasmHookOutcome, WebviewHookOutcome,
};
use bedcode_mobile::server::UploadHookDecision;

fn refused(d: &UploadHookDecision, reason: &str) -> bool {
    !d.allow && !d.ask && d.reason.as_deref() == Some(reason)
}

#[test]
fn wasm_hook_fails_closed() {
    let yes = UploadHookDecision { allow: true, ask: false, reason: None };
    assert_eq!(wasm_hook_decision(WasmHookOutcome::Answered(yes.clone())), yes);
    assert!(refused(&wasm_hook_decision(WasmHookOutcome::Malformed), "invalid upload hook decision"));
    assert!(refused(&wasm_hook_decision(WasmHookOutcome::Unavailable), "upload hook unavailable"));
    assert!(refused(&wasm_hook_decision(WasmHookOutcome::TimedOut), "upload hook timed out"));
}

#[test]
fn webview_hook_fails_closed() {
    let ask = UploadHookDecision { allow: false, ask: true, reason: Some("ask".to_string()) };
    assert_eq!(webview_hook_decision(WebviewHookOutcome::Answered(ask.clone())), ask);
    assert!(refused(&webview_hook_decision(WebviewHookOutcome::NoAppHandle), "webview hook unavailable"));
    assert!(refused(&webview_hook_decision(WebviewHookOutcome::EmitFailed), "webview hook emit failed"));
    assert!(refused(&webview_hook_decision(WebviewHookOutcome::TimedOut), "webview upload hook timed out"));
}

#[test]
fn hook_reply_delivered_once() {
    let mut p = PendingHookReplies::new();
    assert!(!p.take("r1"));
    p.register("r1");
    assert!(p.take("r1"));
    assert!(!p.take("r1"));
}

use bedcode_mobile::router::{build_router, RouteTarget};

#[test]
fn business_router_routes() {
    let r = build_router();
    assert_eq!(r.get("Terminal"), Some(&RouteTarget::Terminal));
    assert_eq!(r.get("Auth"), Some(&RouteTarget::Auth));
    assert_eq!(r.get("SyncData"), Some(&RouteTarget::Sync));
    assert_eq!(r.get("ServerClosed"), Some(&RouteTarget::System));
    assert_eq!(r.get("Error"), Some(&RouteTarget::System));
    assert_eq!(r.get("Ack"), Some(&RouteTarget::System));
    assert_eq!(r.get("SessionEvent"), None);
}

use bedcode_mobile::connection::{
    connect_start, is_linked, unexpected_disconnect_reason, with_global_token, ConnectStart, LinkEvent, LinkStatus,
};
use bedcode_mobile::message::Message;

#[test]
fn connect_start_by_status() {
    assert_eq!(connect_start(LinkStatus::Connecting), ConnectStart::AlreadyConnecting);
    assert_eq!(connect_start(LinkStatus::Connected), ConnectStart::AlreadyConnected);
    assert_eq!(connect_start(LinkStatus::Paired), ConnectStart::AlreadyConnected);
    assert_eq!(connect_start(LinkStatus::Disconnected), ConnectStart::Connect);
    assert!(is_linked(LinkStatus::Paired));
    assert!(!is_linked(LinkStatus::Connecting));
}

#[test]
fn unexpected_disconnect_reasons() {
    assert_eq!(
        unexpected_disconnect_reason(LinkEvent::ServerClosed { reason: "bye".to_string() }, false),
        Some("bye".to_string())
    );
    assert_eq!(
        unexpected_disconnect_reason(LinkEvent::Error { message: "boom".to_string() }, false),
        Some("boom".to_string())
    );
    assert_eq!(unexpected_disconnect_reason(LinkEvent::Disconnected, false), Some("Connection lost".to_string()));
    assert_eq!(unexpected_disconnect_reason(LinkEvent::Disconnected, true), None);
}

#[test]
fn global_token_injected_only_when_set() {
    let m = Message::server_closed("maintenance", true);
    assert_eq!(with_global_token(m.clone(), ""), m);
    let t = with_global_token(m, "jwt");
    assert_eq!(t.token(), "jwt");
}

use bedcode_mobile::peers::{FileOperation, PeerMountAnnouncement};
use bedcode_mobile::responder::{
    choose_desktop_mount, download_targets, progress_tick, transfer_file_name, transfer_outcome,
    upload_failure_text, Outcome, ProgressTick,
};
use bedcode_mobile::upload_client::UploadError;

fn m(plugin: &str, path: &str, ops: Vec<FileOperation>) -> PeerMountAnnouncement {
    PeerMountAnnouncement { plugin_id: plugin.to_string(), mount_path: path.to_string(), operations: ops }
}

#[test]
fn desktop_mount_prefers_one_allowing_the_operation() {
    let mounts = vec![m("p1", "ro", vec![FileOperation::List]), m("p2", "rw", vec![FileOperation::Upload])];
    assert_eq!(
        choose_desktop_mount(&mounts, FileOperation::Upload),
        Ok(("p2".to_string(), "rw".to_string()))
    );
    assert_eq!(
        choose_desktop_mount(&mounts, FileOperation::Download),
        Ok(("p1".to_string(), "ro".to_string()))
    );
    assert_eq!(
        choose_desktop_mount(&[], FileOperation::Download),
        Err("desktop peer has no file mounts".to_string())
    );
}

#[test]
fn progress_ticks() {
    assert_eq!(progress_tick(10, 0, false), (ProgressTick::Progress, 10));
    assert_eq!(progress_tick(10, 10, false), (ProgressTick::Quiet, 10));
    assert_eq!(progress_tick(10, 10, true), (ProgressTick::Progress, 10));
    assert_eq!(progress_tick(0, 0, true), (ProgressTick::Heartbeat, 0));
    assert_eq!(progress_tick(0, 0, false), (ProgressTick::Quiet, 0));
}

#[test]
fn transfer_outcomes() {
    assert_eq!(transfer_outcome(None, true), Outcome::Completed);
    assert_eq!(transfer_outcome(Some("x".to_string()), true), Outcome::Cancelled);
    assert_eq!(transfer_outcome(Some("x".to_string()), false), Outcome::Failed("x".to_string()));
    assert_eq!(
        upload_failure_text(&UploadError::DuplicateName("a".to_string()), "dup a".to_string()),
        "duplicate-name"
    );
    assert_eq!(upload_failure_text(&UploadError::Cancelled, "cancelled".to_string()), "cancelled");
}

#[test]
fn transfer_names_and_targets() {
    assert_eq!(transfer_file_name("docs/report.pdf", "download"), "report.pdf");
    assert_eq!(transfer_file_name("a/b/", "download"), "b");
    assert_eq!(transfer_file_name("..", "upload"), "upload");
    assert_eq!(transfer_file_name("", "upload"), "upload");
    assert_eq!(
        download_targets("/data/dl", "docs/report.pdf"),
        ("/data/dl/report.pdf".to_string(), "/data/dl/report.pdf.part".to_string())
    );
}

use bedcode_mobile::client::{head_fingerprint_result, DownloadError};
use bedcode_mobile::cursor::FileFingerprint;

#[test]
fn head_parses_fingerprint_headers() {
    // a 200 answer with an empty body (Content-Length: 0) and both fingerprint headers
    let f = head_fingerprint_result(200, "http://127.0.0.1/file", Some("12345"), Some("0"), Some("1700000000")).unwrap();
    assert_eq!(f, FileFingerprint { size: 12345, mtime: 1700000000 });
}

#[test]
fn head_falls_back_to_content_length() {
    let f = head_fingerprint_result(200, "http://127.0.0.1/file", None, Some("0"), None).unwrap();
    assert_eq!(f, FileFingerprint { size: 0, mtime: 0 });
}

#[test]
fn head_404_reports_http_error() {
    let err = head_fingerprint_result(404, "http://127.0.0.1/file", None, Some("9"), None).unwrap_err();
    assert!(matches!(err, DownloadError::Http { status: 404, .. }));
}

use bedcode_mobile::server::download_response_head;

#[test]
fn build_download_response_range_returns_206_with_headers() {
    let resp = download_response_head(Some((10, Some(19))), 10, 19, 100, 10);
    assert_eq!(resp.status, 206);
    assert_eq!(resp.content_range.as_deref(), Some("bytes 10-19/100"));
    assert_eq!(resp.content_length, "10");
    assert_eq!(resp.accept_ranges, "bytes");
    assert_eq!(resp.content_type, "application/octet-stream");
}

#[test]
fn build_download_response_full_returns_200_without_content_range() {
    let resp = download_response_head(None, 0, 99, 100, 100);
    assert_eq!(resp.status, 200);
    assert!(resp.content_range.is_none());
    assert_eq!(resp.content_length, "100");
}

use bedcode_mobile::upload_client::{append_answer_error, append_url, cancel_answer, complete_answer, CompleteError};

#[test]
fn append_stream_rejects_offset_mismatch() {
    // the server holds 5 bytes of session s1; the client appends from offset 0
    let body = r#"{"code":409,"message":"offset mismatch: server has 5 bytes, client sent offset 0"}"#.to_string();
    let err = append_answer_error(409, "http://127.0.0.1/api/plugins/p/m/upload/s1", 0, body);
    assert!(matches!(err, UploadError::OffsetMismatch { expected: 5, got: 0 }), "got: {:?}", err);
}

#[test]
fn append_answer_other_errors() {
    let e = append_answer_error(404, "u", 3, "gone".to_string());
    assert_eq!(e, UploadError::SessionNotFound("u".to_string()));
    let e = append_answer_error(500, "u", 3, "boom".to_string());
    assert_eq!(e, UploadError::Http { status: 500, url: "u".to_string(), message: "boom".to_string() });
    let e = append_answer_error(409, "u", 3, "no count here".to_string());
    assert_eq!(e, UploadError::OffsetMismatch { expected: 0, got: 3 });
    assert_eq!(append_url("http://h/upload/s1", 42), "http://h/upload/s1?offset=42");
}

#[test]
fn complete_and_cancel_answers() {
    assert_eq!(complete_answer(200, "u", String::new()), Ok(()));
    assert_eq!(complete_answer(409, "u", "dup".to_string()), Err(CompleteError::DuplicateName("dup".to_string())));
    assert_eq!(complete_answer(404, "u", String::new()), Err(CompleteError::SessionNotFound("u".to_string())));
    assert_eq!(
        complete_answer(503, "u", "busy".to_string()),
        Err(CompleteError::Http { status: 503, url: "u".to_string(), message: "busy".to_string() })
    );
    assert_eq!(cancel_answer(204, "u", String::new()), Ok(()));
    assert_eq!(cancel_answer(404, "u", String::new()), Ok(()));
    assert!(cancel_answer(500, "u", "x".to_string()).is_err());
}

use bedcode_mobile::registry::{announce_payload, query_answers_with_announce};

#[test]
fn announce_only_with_mounts() {
    assert!(announce_payload(vec![], Some("Pixel".to_string())).is_none());
    let a = announce_payload(vec![m("p", "files", vec![FileOperation::List])], Some("Pixel".to_string())).unwrap();
    assert_eq!(a.port, 0);
    assert_eq!(a.token, "");
    assert_eq!(a.device_name, "Pixel");
    assert_eq!(a.mounts.len(), 1);
    let b = announce_payload(vec![m("p", "files", vec![])], None).unwrap();
    assert_eq!(b.device_name, "");
}

#[test]
fn query_reply_choice() {
    assert!(query_answers_with_announce(2, true));
    assert!(!query_answers_with_announce(0, true));
    assert!(!query_answers_with_announce(2, false));
}

use bedcode_mobile::listing::{list_route, trim_slashes_str, ListRoute};

#[test]
fn list_routes() {
    let roots = vec!["content://tree/primary%3ADCIM".to_string()];
    assert_eq!(list_route(&roots, ""), ListRoute::MountRoot);
    assert_eq!(list_route(&roots, "///"), ListRoute::MountRoot);
    assert_eq!(
        list_route(&roots, "/DCIM/Camera/"),
        ListRoute::SafTree { tree_uri: roots[0].clone(), parts: vec!["Camera".to_string()] }
    );
    assert_eq!(list_route(&roots, "Music/a"), ListRoute::RealPath { rel: "Music/a".to_string() });
    assert_eq!(trim_slashes_str("//a/b//"), "a/b");
}

use bedcode_mobile::client::extract_expected_offset;
use bedcode_mobile::upload_session::UploadSessionError;

#[test]
fn server_offset_message_reads_back_on_the_client() {
    let e = UploadSessionError::OffsetMismatch { expected: 524288, got: 0 };
    let text = e.message();
    assert_eq!(text, "offset mismatch: server has 524288 bytes, client sent offset 0");
    assert_eq!(extract_expected_offset(&text), Some(524288));
}

#[test]
fn session_error_messages() {
    assert_eq!(UploadSessionError::NotFound("s1".to_string()).message(), "upload session not found: s1");
    assert_eq!(
        UploadSessionError::DuplicateName("/d/a.txt".to_string()).message(),
        "target file already exists: /d/a.txt"
    );
    assert_eq!(UploadSessionError::Io("disk full".to_string()).message(), "upload session io failed: disk full");
}

#[test]
fn client_error_messages() {
    assert_eq!(
        UploadError::Http { status: 403, url: "u".to_string(), message: "batch-context-required".to_string() }.message(),
        "upload HTTP 403 for u: batch-context-required"
    );
    assert_eq!(UploadError::OffsetMismatch { expected: 5, got: 0 }.message(), "upload offset mismatch: server has 5 bytes, client sent 0");
    assert_eq!(UploadError::DuplicateName("a".to_string()).message(), "duplicate-name: a");
    assert_eq!(UploadError::Cancelled.message(), "upload cancelled");
    assert_eq!(DownloadError::Http { status: 404, url: "u".to_string() }.message(), "download HTTP 404 for u");
    assert_eq!(
        DownloadError::FingerprintMismatch(10, 20).message(),
        "source fingerprint changed (size 10->20); abandon stale cursor"
    );
    assert_eq!(DownloadError::Cancelled.message(), "download cancelled");
    assert_eq!(DownloadError::DuplicateName("/d/a".to_string()).message(), "destination already exists: /d/a");
}

use bedcode_mobile::client::plan_download_start;
use bedcode_mobile::cursor::StoredCursor;

#[test]
fn download_plan_changed_source_restarts() {
    let prev = FileFingerprint { size: 100, mtime: 1 };
    let now = FileFingerprint { size: 100, mtime: 2 };
    let d = plan_download_start(Some(StoredCursor { position: 40, fingerprint: Some(prev) }), now, 0);
    assert_eq!(d.offset, 0);
    assert_eq!(d.total, 100);
}

#[test]
fn download_plan_unchanged_source_resumes() {
    let fp = FileFingerprint { size: 100, mtime: 1 };
    let d = plan_download_start(Some(StoredCursor { position: 40, fingerprint: Some(fp) }), fp, 0);
    assert_eq!(d.offset, 40);
    // a cursor beyond the size restarts
    let e = plan_download_start(Some(StoredCursor { position: 140, fingerprint: Some(fp) }), fp, 0);
    assert_eq!(e.offset, 0);
    // no cursor: from the start, declared size when HEAD has none
    let f = plan_download_start(None, FileFingerprint { size: 0, mtime: 0 }, 77);
    assert_eq!((f.offset, f.total), (0, 77));
}

#[test]
fn saf_listing_hides_parts_and_orders_dirs_first() {
    let child = |name: &str, size: i64, is_dir: bool| SafChild { name: name.to_string(), size, is_dir };
    let out = saf_listing(vec![
        child("b.txt", 10, false),
        child("zdir", 4096, true),
        child(".bedcode-upload-x.part", 3, false),
        child("a.txt", -1, false),
        child("adir", 7, true),
        child("movie.part", 9, false),
    ]);
    let view: Vec<(String, u64, u64, bool)> =
        out.into_iter().map(|e| (e.name, e.size, e.mtime, e.is_dir)).collect();
    assert_eq!(
        view,
        vec![
            ("adir".to_string(), 0, 0, true),
            ("zdir".to_string(), 0, 0, true),
            ("a.txt".to_string(), 0, 0, false),
            ("b.txt".to_string(), 10, 0, false),
        ]
    );
}

#[test]
fn on_chunk_moves_position_and_stores_cursor() {
    let mut store = CursorStore::new();
    let fp = FileFingerprint { size: 100, mtime: 7 };
    let p = on_chunk(&mut store, "t1", 40, 25, fp);
    assert_eq!(p, 65);
    assert_eq!(store.get("t1"), Some(StoredCursor { position: 65, fingerprint: Some(fp) }));
    assert_eq!(on_chunk(&mut store, "t1", p, 35, fp), 100);
    assert_eq!(store.get("t1").unwrap().position, 100);
    assert_eq!(store.len(), 1);
}

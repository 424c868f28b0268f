use bedcode_mobile::registry::{HookTarget, MountEntry, MountTable};
use bedcode_mobile::server::{download_answer, download_begin, DownloadSource};
use bedcode_mobile::error::AppError;
use bedcode_mobile::server::saf_error_status;
use bedcode_mobile::client::{endpoint, extract_expected_offset, urlencode_path};
use bedcode_mobile::listing::{name_less, sort_entries};
use bedcode_mobile::paths::{
    is_filtered_listing_name, is_upload_part_name, needs_all_files_access, parse_range_header,
    validate_mount_path,
};
use bedcode_mobile::peers::FileOperation;
use bedcode_mobile::server::{
    allows, batch_admission, content_range, decimal_string, hook_admission, listing_notice,
    next_read_len, plan_range, require_op, session_error_status, should_flush, transfer_request_refusal,
    Admission, BatchError, FileEntryDto, RangePlan, UploadHookDecision,
};
use bedcode_mobile::upload_session::UploadSessionError;

#[test]
fn endpoint_builds_plugin_mount_url() {
    assert_eq!(
        endpoint("http://192.168.1.5:4455", "com.bedcode.file-transfer", "files", "file?path=movies%2Fa.mp4"),
        "http://192.168.1.5:4455/api/plugins/com.bedcode.file-transfer/files/file?path=movies%2Fa.mp4"
    );
    assert_eq!(
        endpoint("http://192.168.1.5:4455/", "p", "m", "/upload"),
        "http://192.168.1.5:4455/api/plugins/p/m/upload"
    );
}

#[test]
fn urlencode_path_keeps_unreserved_and_slashes() {
    assert_eq!(urlencode_path("movies/a b.mp4"), "movies/a%20b.mp4");
    assert_eq!(urlencode_path("x~y_z-1.2"), "x~y_z-1.2");
    assert_eq!(urlencode_path("é"), "%C3%A9");
}

#[test]
fn extract_expected_offset_parses_message() {
    assert_eq!(
        extract_expected_offset("offset mismatch: server has 123 bytes, client sent offset 0"),
        Some(123)
    );
    assert_eq!(extract_expected_offset("boom"), None);
}

#[test]
fn test_needs_all_files_access() {
    assert!(!needs_all_files_access("/data/user/0/com.bedcode.mobile/files"));
    assert!(needs_all_files_access("/storage/emulated/0/DCIM/Camera"));
    assert!(!needs_all_files_access("/storage/emulated/0/android/data/pkg"));
    assert!(!needs_all_files_access("/sdcard0/Download"));
}

#[test]
fn needs_all_files_access_classifies_paths() {
    assert!(needs_all_files_access("/storage/emulated/0/DCIM"));
    assert!(needs_all_files_access("/storage/emulated/0"));
    assert!(needs_all_files_access("/storage/emulated/0/"));
    assert!(!needs_all_files_access("/storage/emulated/0/Android/data/com.bedcode.mobile"));
    assert!(!needs_all_files_access("/storage/emulated/0/android/data"));
    assert!(needs_all_files_access("/storage/emulated/0/Android/obb"));
    assert!(!needs_all_files_access("/sdcard/foo"));
    assert!(!needs_all_files_access("/data/user/0/com.bedcode.mobile/files"));
    assert!(needs_all_files_access("/storage/emulated/0\\DCIM"));
}

#[test]
fn test_validate_mount_path() {
    assert!(validate_mount_path("files").is_ok());
    assert!(validate_mount_path("media-2_go").is_ok());
    assert!(validate_mount_path("").is_err());
    assert!(validate_mount_path("Files").is_err());
    assert!(validate_mount_path("my files").is_err());
    assert!(validate_mount_path("../evil").is_err());
    assert!(validate_mount_path("a/b").is_err());
    assert!(validate_mount_path(&"x".repeat(65)).is_err());
}

#[test]
fn test_parse_range_header() {
    assert_eq!(parse_range_header("bytes=0-", 100), Some((0, None)));
    assert_eq!(parse_range_header("bytes=50-", 100), Some((50, None)));
    assert_eq!(parse_range_header("bytes=10-19", 100), Some((10, Some(19))));
    assert_eq!(parse_range_header("bytes=100-", 100), None);
    assert_eq!(parse_range_header("bytes=200-", 100), None);
    assert_eq!(parse_range_header("bytes=abc-", 100), None);
    assert_eq!(parse_range_header("bytes=10-5", 100), None);
    assert_eq!(parse_range_header("bytes=0-1,2-3", 100), None);
    assert_eq!(parse_range_header("chars=0-", 100), None);
}

#[test]
fn part_file_names_are_recognised() {
    assert!(is_upload_part_name(".bedcode-upload-abc.part"));
    assert!(!is_upload_part_name("movie.part"));
    assert!(is_filtered_listing_name("movie.part"));
    assert!(!is_filtered_listing_name("movie.mp4"));
}

#[test]
fn require_op_enforces_mount_operations() {
    let all = [FileOperation::List, FileOperation::Download, FileOperation::Upload];
    assert!(allows(&all, FileOperation::List));
    assert!(allows(&all, FileOperation::Download));
    assert!(allows(&all, FileOperation::Upload));
    let restricted = [FileOperation::List];
    assert!(!allows(&restricted, FileOperation::Download));
    assert!(require_op(&all, FileOperation::List, "files").is_ok());
    let err = require_op(&restricted, FileOperation::Download, "files").expect_err("an undeclared operation is refused");
    assert_eq!(err.0, 403);
    assert_eq!(err.1, "operation 'Download' not allowed for mount 'files'");
}

#[test]
fn range_plan_serves_partial_and_full_bodies() {
    assert_eq!(
        plan_range(parse_range_header("bytes=10-19", 100), 100),
        RangePlan { partial: true, start: 10, end: 19, content_len: 10 }
    );
    assert_eq!(
        plan_range(parse_range_header("bytes=90-500", 100), 100),
        RangePlan { partial: true, start: 90, end: 99, content_len: 10 }
    );
    assert_eq!(
        plan_range(parse_range_header("bytes=40-", 100), 100),
        RangePlan { partial: true, start: 40, end: 99, content_len: 60 }
    );
    assert_eq!(plan_range(None, 100), RangePlan { partial: false, start: 0, end: 99, content_len: 100 });
    assert_eq!(plan_range(None, 0), RangePlan { partial: false, start: 0, end: 0, content_len: 0 });
}

#[test]
fn content_range_header_text() {
    assert_eq!(content_range(10, 19, 100), "bytes 10-19/100");
    assert_eq!(decimal_string(0), "0");
    assert_eq!(decimal_string(18446744073709551615), "18446744073709551615");
}

#[test]
fn stream_reads_in_chunks() {
    assert_eq!(next_read_len(10), 10);
    assert_eq!(next_read_len(524_288), 524_288);
    assert_eq!(next_read_len(2_000_000), 524_288);
    assert!(!should_flush(1000));
    assert!(should_flush(524_288));
}

#[test]
fn session_errors_map_to_http_statuses() {
    assert_eq!(session_error_status(&UploadSessionError::NotFound("s".to_string())), 404);
    assert_eq!(session_error_status(&UploadSessionError::OffsetMismatch { expected: 1, got: 2 }), 409);
    assert_eq!(session_error_status(&UploadSessionError::DuplicateName("t".to_string())), 409);
    assert_eq!(session_error_status(&UploadSessionError::Io("e".to_string())), 500);
}

#[test]
fn upload_admission_by_batch_and_hook() {
    assert_eq!(batch_admission(&Ok(())), Admission::Admit);
    assert_eq!(
        batch_admission(&Err(BatchError::NotApproved("batch-pending".to_string()))),
        Admission::Refuse { status: 403, message: "batch-pending".to_string() }
    );
    assert_eq!(
        batch_admission(&Err(BatchError::Denied("x".to_string()))),
        Admission::Refuse { status: 403, message: "batch-not-approved".to_string() }
    );
    let allow = UploadHookDecision { allow: true, ask: false, reason: None };
    assert_eq!(hook_admission(&allow), Admission::Admit);
    let ask = UploadHookDecision { allow: false, ask: true, reason: Some("ask".to_string()) };
    assert_eq!(
        hook_admission(&ask),
        Admission::Refuse { status: 403, message: "batch-context-required".to_string() }
    );
    let dup = UploadHookDecision { allow: false, ask: false, reason: Some("duplicate-name".to_string()) };
    assert_eq!(hook_admission(&dup), Admission::Refuse { status: 409, message: "duplicate-name".to_string() });
    let plain = UploadHookDecision { allow: false, ask: false, reason: None };
    assert_eq!(
        hook_admission(&plain),
        Admission::Refuse { status: 403, message: "rejected by upload hook".to_string() }
    );
    assert_eq!(transfer_request_refusal(&BatchError::HookFailed("hook timed out".to_string())), "hook timed out");
    assert_eq!(transfer_request_refusal(&BatchError::NotFound("n".to_string())), "policy-denied");
    let d = UploadHookDecision::deny("mount not found");
    assert!(!d.allow && !d.ask && d.reason.as_deref() == Some("mount not found"));
}

fn entry(name: &str, is_dir: bool) -> FileEntryDto {
    FileEntryDto { name: name.to_string(), size: 1, mtime: 0, is_dir }
}

#[test]
fn read_dir_entries_sorts_dirs_first_and_filters_part_files() {
    let names = ["keep.txt", "sub", ".bedcode-upload-1.part", "a.txt"];
    let listed: Vec<FileEntryDto> = names
        .iter()
        .filter(|n| !is_filtered_listing_name(n))
        .map(|n| entry(n, *n == "sub"))
        .collect();
    let sorted = sort_entries(listed, true);
    let got: Vec<&str> = sorted.iter().map(|e| e.name.as_str()).collect();
    assert_eq!(got, vec!["sub", "a.txt", "keep.txt"]);
}

#[test]
fn root_listing_sorts_by_name_only() {
    let sorted = sort_entries(vec![entry("b", true), entry("a", false), entry("B", true)], false);
    let got: Vec<&str> = sorted.iter().map(|e| e.name.as_str()).collect();
    assert_eq!(got, vec!["B", "a", "b"]);
    assert!(name_less("ab", "b"));
    assert!(name_less("a", "ab"));
    assert!(!name_less("b", "b"));
}

#[test]
fn empty_primary_storage_listing_carries_notice() {
    assert_eq!(listing_notice(true, true), Some("all_files_access_may_be_required".to_string()));
    assert_eq!(listing_notice(false, true), None);
    assert_eq!(listing_notice(true, false), None);
}

#[test]
fn saf_errors_map_to_404_or_500() {
    assert_eq!(saf_error_status(&AppError::NotFound("x".to_string())), 404);
    assert_eq!(saf_error_status(&AppError::Internal("x".to_string())), 500);
    assert_eq!(saf_error_status(&AppError::InvalidInput("x".to_string())), 500);
}

#[test]
fn download_flow_routes_and_answers() {
    let mut mounts = MountTable::new();
    mounts
        .insert(MountEntry {
            plugin_id: "p".to_string(),
            mount_path: "m".to_string(),
            roots: vec!["/sdcard/Download".to_string()],
            saf_roots: vec!["content://tree/primary%3ADownload".to_string()],
            operations: vec![FileOperation::Download],
            hook: HookTarget::NoHook,
        })
        .unwrap();
    match download_begin(&mounts, "p", "x", "a") {
        DownloadSource::Refuse { status, .. } => assert_eq!(status, 404),
        other => panic!("{other:?}"),
    }
    assert_eq!(
        download_begin(&mounts, "p", "m", "/Download/sub/a.bin/"),
        DownloadSource::SafTree {
            tree_uri: "content://tree/primary%3ADownload".to_string(),
            parts: vec!["sub".to_string(), "a.bin".to_string()],
            rel: "Download/sub/a.bin".to_string(),
        }
    );
    assert_eq!(download_begin(&mounts, "p", "m", "/movies/b.mp4"), DownloadSource::RealPath { rel: "movies/b.mp4".to_string() });
    let (plan, head) = download_answer(Some("bytes=10-19"), 100);
    assert_eq!((plan.start, plan.end, plan.content_len), (10, 19, 10));
    assert_eq!(head.status, 206);
    assert_eq!(head.content_range.as_deref(), Some("bytes 10-19/100"));
    assert_eq!(head.content_length, "10");
    let (plan, head) = download_answer(Some("bytes=500-"), 100);
    assert_eq!((plan.start, plan.content_len), (0, 100));
    assert_eq!(head.status, 200);
    assert_eq!(head.content_range, None);
}

//! Rules of the phone's file service HTTP endpoints: wire DTOs, the Range
//! plan of a download, the admission of a new upload session, the status of
//! an upload session failure, and the order of directory listings.

use vstd::prelude::*;
use crate::auth::{bearer_accepts, BearerTokenGuard};
use crate::encoding::b64;
use crate::error::AppError;
use crate::peers::FileOperation;
use crate::text::{all_digits, concat, decimal_value, is_digit, parse_u64_spec};
use crate::transfer::BatchDecision;
use crate::listing::{trim_slashes, trim_slashes_str};
use crate::paths::{parse_range_header, range_of};
use crate::registry::{not_found_message, MountTable};
use crate::saf_tree::{components, match_saf_root, saf_root_match, string_views};
use crate::upload_session::{path_parent_spec, UploadSession, UploadSessionError, UploadSessionManager};

verus! {

/// Append buffer threshold: buffered chunk bytes are written once this many have arrived.
pub const APPEND_FLUSH_THRESHOLD: usize = 524_288;

/// A single payload chunk above this size is written at once.
pub const APPEND_MAX_CHUNK: usize = 1_048_576;

/// Read size of the download stream.
pub const DOWNLOAD_CHUNK_SIZE: u64 = 524_288;

/// Body limit of `POST upload` (metadata only).
pub const CREATE_UPLOAD_BODY_LIMIT: usize = 65_536;

/// Directory entry of a listing (`*.part` files are never listed).
#[derive(Debug, Clone, PartialEq, Eq)]
pub struct FileEntryDto {
    /// File or directory name.
    pub name: String,
    /// Size in bytes (0 for a directory).
    pub size: u64,
    /// Modification time in Unix seconds (0 when unknown).
    pub mtime: u64,
    /// Whether it is a directory.
    pub is_dir: bool,
}

/// Listing response.
#[derive(Debug, Clone, PartialEq, Eq)]
pub struct ListResponse {
    /// Listed relative path.
    pub path: String,
    /// Entries, directories first, then by name.
    pub entries: Vec<FileEntryDto>,
    /// Set when the listing may be filtered by Android storage permissions.
    pub notice: Option<String>,
}

/// Body of `POST upload`.
#[derive(Debug, Clone, PartialEq, Eq)]
pub struct CreateUploadRequest {
    /// Target path relative to the mount root.
    pub relative_path: String,
    /// Declared total size.
    pub size: u64,
    /// Transfer batch (batch gating instead of the per-file hook).
    pub batch_id: Option<String>,
}

/// Session answer of `POST upload`, `PUT` and `GET upload/{sid}`.
#[derive(Debug, Clone, PartialEq, Eq)]
pub struct UploadSessionResponse {
    /// Session id.
    pub session_id: String,
    /// Bytes received.
    pub received: u64,
}

/// `?path=` query (empty: the mount root).
#[derive(Debug, Clone, PartialEq, Eq)]
pub struct PathOnlyQuery {
    /// Path relative to the mount.
    pub path: String,
}

/// Whether a mount with `operations` allows `op` (403 otherwise).
pub fn allows(operations: &[FileOperation], op: FileOperation) -> (r: bool)
    ensures
        r == operations@.contains(op),
{
    let mut i: usize = 0;
    while i < operations.len()
        invariant
            i <= operations.len(),
            forall|k: int| 0 <= k < i ==> operations@[k] != op,
        decreases operations.len() - i,
    {
        if operations[i] == op {
            assert(operations@[i as int] == op);
            return true;
        }
        i += 1;
    }
    false
}

/// Name of an operation as it appears in messages (`List`, `Download`, `Upload`).
pub open spec fn op_label(op: FileOperation) -> Seq<char> {
    match op {
        FileOperation::List => "List"@,
        FileOperation::Download => "Download"@,
        FileOperation::Upload => "Upload"@,
    }
}

fn op_name(op: FileOperation) -> (n: &'static str)
    ensures
        n@ == op_label(op),
{
    match op {
        FileOperation::List => "List",
        FileOperation::Download => "Download",
        FileOperation::Upload => "Upload",
    }
}

/// A request for `op` on a mount with `operations`: allowed, or refused
/// with 403 and "operation '{op}' not allowed for mount '{mount_path}'".
pub fn require_op(operations: &[FileOperation], op: FileOperation, mount_path: &str) -> (r: Result<(), (u16, String)>)
    ensures
        operations@.contains(op) ==> r is Ok,
        !operations@.contains(op) ==> (r matches Err((code, m)) && code == 403 && m@ == "operation '"@ + op_label(op)
            + "' not allowed for mount '"@ + mount_path@ + "'"@),
{
    if allows(operations, op) {
        return Ok(());
    }
    let a = concat("operation '", op_name(op));
    let b = concat(a.as_str(), "' not allowed for mount '");
    let c = concat(b.as_str(), mount_path);
    Err((403, concat(c.as_str(), "'")))
}

/// Whether the append buffer is written out now.
pub fn should_flush(buffered: usize) -> (r: bool)
    ensures
        r == (buffered >= APPEND_FLUSH_THRESHOLD || buffered >= APPEND_MAX_CHUNK),
{
    buffered >= APPEND_FLUSH_THRESHOLD || buffered >= APPEND_MAX_CHUNK
}

/// HTTP status of an upload session failure: 404 for a missing session,
/// 409 for an offset mismatch or a taken name, 500 otherwise.
pub fn session_error_status(e: &UploadSessionError) -> (s: u16)
    ensures
        s == match e {
            UploadSessionError::NotFound(_) => 404u16,
            UploadSessionError::OffsetMismatch { .. } => 409u16,
            UploadSessionError::DuplicateName(_) => 409u16,
            UploadSessionError::Io(_) => 500u16,
        },
{
    match e {
        UploadSessionError::NotFound(_) => 404,
        UploadSessionError::OffsetMismatch { .. } => 409,
        UploadSessionError::DuplicateName(_) => 409,
        UploadSessionError::Io(_) => 500,
    }
}

/// HTTP status of a failure to resolve a SAF entry: 404 when it does not
/// exist, 500 otherwise.
pub fn saf_error_status(e: &AppError) -> (s: u16)
    ensures
        s == (if e is NotFound { 404u16 } else { 500u16 }),
{
    match e {
        AppError::NotFound(_) => 404,
        _ => 500,
    }
}

/// Decimal digits of `n`.
pub open spec fn decimal(n: nat) -> Seq<char>
    decreases n,
{
    if n < 10 {
        seq![digit_char(n)]
    } else {
        decimal(n / 10).push(digit_char(n % 10))
    }
}

/// The digit of `d < 10`.
pub open spec fn digit_char(d: nat) -> char {
    ((d + 48) as u8) as char
}

proof fn lemma_digit_char(d: nat)
    requires
        d < 10,
    ensures
        is_digit(digit_char(d)),
        (digit_char(d) as u32) - 48 == d,
{
    let b: u8 = (d + 48) as u8;
    assert(b as int == d + 48);
    assert((b as char) as u32 == b as u32);
}

/// The digits of `n` read back as `n`: every character is a digit, the
/// first too, and their value is `n`.
pub proof fn lemma_decimal_round_trip(n: nat)
    ensures
        decimal(n).len() >= 1,
        all_digits(decimal(n)),
        decimal_value(decimal(n)) == n,
    decreases n,
{
    if n < 10 {
        lemma_digit_char(n);
        let d = decimal(n);
        assert(d.drop_last() =~= Seq::<char>::empty());
        assert(decimal_value(d.drop_last()) == 0);
        assert(d.last() == digit_char(n));
    } else {
        lemma_decimal_round_trip(n / 10);
        lemma_digit_char(n % 10);
        let d = decimal(n);
        assert(d == decimal(n / 10).push(digit_char(n % 10)));
        assert(d.drop_last() =~= decimal(n / 10));
        assert(d.last() == digit_char(n % 10));
        assert(((d.last() as u32) - 48) as nat == n % 10);
        assert(decimal_value(d) == decimal_value(decimal(n / 10)) * 10 + n % 10);
        assert((n / 10) * 10 + n % 10 == n);
        assert forall|i: int| 0 <= i < d.len() implies is_digit(#[trigger] d[i]) by {
            if i < d.len() - 1 {
                assert(d[i] == decimal(n / 10)[i]);
            }
        }
    }
}

/// Parsing the decimal text of a `u64` gives it back.
pub proof fn lemma_parse_decimal(n: u64)
    ensures
        parse_u64_spec(decimal(n as nat)) == Some(n),
{
    lemma_decimal_round_trip(n as nat);
    assert(is_digit(decimal(n as nat)[0]));
}

/// `n.to_string()`.
pub fn decimal_string(n: u64) -> (s: String)
    ensures
        s@ == decimal(n as nat),
{
    let mut rev: Vec<char> = Vec::new();
    let mut m: u64 = n;
    let ghost mut tail: Seq<char> = Seq::empty();
    while m >= 10
        invariant
            decimal(n as nat) == decimal(m as nat) + tail,
            rev@.len() == tail.len(),
            forall|k: int| 0 <= k < tail.len() ==> rev@[k] == tail[tail.len() - 1 - k],
        decreases m,
    {
        let c = ((m % 10) as u8 + 48) as char;
        proof {
            assert(c == digit_char((m % 10) as nat));
            assert(decimal(m as nat) == decimal((m / 10) as nat).push(c));
            assert(decimal((m / 10) as nat).push(c) + tail =~= decimal((m / 10) as nat) + (seq![c] + tail));
        }
        rev.push(c);
        proof {
            tail = seq![c] + tail;
        }
        m = m / 10;
    }
    let c = (m as u8 + 48) as char;
    proof {
        assert(c == digit_char(m as nat));
        assert(decimal(m as nat) == seq![c]);
    }
    rev.push(c);
    proof {
        tail = seq![c] + tail;
    }
    let mut out: Vec<char> = Vec::new();
    let mut k: usize = rev.len();
    while k > 0
        invariant
            k <= rev@.len(),
            rev@.len() == tail.len(),
            forall|j: int| 0 <= j < tail.len() ==> rev@[j] == tail[tail.len() - 1 - j],
            out@ == tail.take(rev@.len() - k),
        decreases k,
    {
        k -= 1;
        out.push(rev[k]);
        proof {
            assert(tail.take(rev@.len() - k) =~= tail.take(rev@.len() - k - 1).push(tail[rev@.len() - k - 1]));
        }
    }
    proof {
        assert(tail.take(tail.len() as int) =~= tail);
    }
    crate::text::string_of(out.as_slice())
}

/// How a download is served.
#[derive(Debug, Clone, Copy, PartialEq, Eq)]
pub struct RangePlan {
    /// A valid `Range` header was given (206 with `Content-Range`).
    pub partial: bool,
    /// First byte served.
    pub start: u64,
    /// Last byte position reported (0 for an empty file without a range).
    pub end: u64,
    /// Number of bytes in the body.
    pub content_len: u64,
}

/// The plan of a download of `file_len` bytes for the parsed `range`, as
/// [`plan_range`] computes it.
pub open spec fn range_plan(range: Option<(u64, Option<u64>)>, file_len: u64) -> RangePlan {
    let start: u64 = match range {
        Some((s, _)) => s,
        None => 0,
    };
    let last: u64 = if file_len == 0 { 0 } else { (file_len - 1) as u64 };
    let wanted: u64 = match range {
        Some((_, Some(e))) => e,
        _ => last,
    };
    let end: u64 = if wanted < last { wanted } else { last };
    RangePlan {
        partial: range is Some,
        start,
        end,
        content_len: if file_len == 0 { 0 } else { (end - start + 1) as u64 },
    }
}

/// The plan of a download of `file_len` bytes given the parsed `Range`
/// header (see [`crate::paths::parse_range_header`]): a range serves from its
/// start to its end capped at the last byte; no range serves everything.
/// An empty file has an empty body.
pub fn plan_range(range: Option<(u64, Option<u64>)>, file_len: u64) -> (p: RangePlan)
    requires
        range matches Some((s, e)) ==> s < file_len && (e matches Some(e2) ==> e2 >= s),
    ensures
        p.partial == range is Some,
        p.start == (match range {
            Some((s, _)) => s,
            None => 0,
        }),
        ({
            let last = if file_len == 0 { 0 } else { file_len - 1 };
            let wanted = match range {
                Some((_, Some(e))) => e as int,
                _ => last,
            };
            p.end == (if wanted < last { wanted } else { last })
        }),
        p.content_len == (if file_len == 0 { 0 } else { p.end - p.start + 1 }),
        file_len > 0 ==> p.start <= p.end < file_len,
        range is None ==> p.content_len == file_len,
        p == range_plan(range, file_len),
{
    let (start, end_opt) = match range {
        Some((s, e)) => (s, e),
        None => (0, None),
    };
    let last: u64 = if file_len == 0 { 0 } else { file_len - 1 };
    let wanted = match end_opt {
        Some(e) => e,
        None => last,
    };
    let end = if wanted < last { wanted } else { last };
    let content_len = if file_len == 0 { 0 } else { end - start + 1 };
    RangePlan { partial: range.is_some(), start, end, content_len }
}

/// `Content-Range` value of a partial answer: `bytes {start}-{end}/{len}`.
pub fn content_range(start: u64, end: u64, file_len: u64) -> (s: String)
    ensures
        s@ == "bytes "@ + decimal(start as nat) + "-"@ + decimal(end as nat) + "/"@ + decimal(file_len as nat),
{
    let a = concat("bytes ", decimal_string(start).as_str());
    let b = concat(a.as_str(), "-");
    let c = concat(b.as_str(), decimal_string(end).as_str());
    let d = concat(c.as_str(), "/");
    concat(d.as_str(), decimal_string(file_len).as_str())
}

/// Status and headers of a download answer.
#[derive(Debug, Clone, PartialEq, Eq)]
pub struct DownloadHead {
    /// 206 for a range, else 200.
    pub status: u16,
    /// `Content-Range` of a partial answer.
    pub content_range: Option<String>,
    /// `Accept-Ranges` (always "bytes").
    pub accept_ranges: &'static str,
    /// `Content-Length`.
    pub content_length: String,
    /// `Content-Type` (always "application/octet-stream").
    pub content_type: &'static str,
}

/// Head of a download answer: 206 with `Content-Range: bytes
/// {start}-{end}/{file_len}` when a range was asked for, else 200 without
/// it; byte ranges accepted, the body length, an octet stream.
pub fn download_response_head(range: Option<(u64, Option<u64>)>, start: u64, end: u64, file_len: u64, content_len: u64) -> (h: DownloadHead)
    ensures
        h.status == (if range is Some { 206u16 } else { 200u16 }),
        range is Some ==> (h.content_range matches Some(c) && c@ == "bytes "@ + decimal(start as nat) + "-"@ + decimal(
            end as nat,
        ) + "/"@ + decimal(file_len as nat)),
        range is None ==> h.content_range is None,
        h.accept_ranges@ == "bytes"@,
        h.content_length@ == decimal(content_len as nat),
        h.content_type@ == "application/octet-stream"@,
{
    let content_range = if range.is_some() {
        Some(content_range(start, end, file_len))
    } else {
        None
    };
    DownloadHead {
        status: if range.is_some() { 206 } else { 200 },
        content_range,
        accept_ranges: "bytes",
        content_length: decimal_string(content_len),
        content_type: "application/octet-stream",
    }
}

/// Bytes the download stream reads next, `remaining` being left to send.
pub fn next_read_len(remaining: u64) -> (n: u64)
    ensures
        n == (if remaining < DOWNLOAD_CHUNK_SIZE { remaining } else { DOWNLOAD_CHUNK_SIZE }),
{
    if remaining < DOWNLOAD_CHUNK_SIZE {
        remaining
    } else {
        DOWNLOAD_CHUNK_SIZE
    }
}

/// Failure of a transfer batch lookup or request.
#[derive(Debug, Clone, PartialEq, Eq)]
pub enum BatchError {
    /// No such batch.
    NotFound(String),
    /// The batch is still waiting for approval.
    NotApproved(String),
    /// The batch was rejected.
    Rejected(String),
    /// The receiving policy denied the request.
    Denied(String),
    /// The policy hook failed.
    HookFailed(String),
    /// Batch gating denied the request.
    GatingDenied(String),
}

/// Decision of the per-file upload policy hook.
#[derive(Debug, Clone, PartialEq, Eq)]
pub struct UploadHookDecision {
    /// Upload allowed.
    pub allow: bool,
    /// The policy asks the user (a batch must be requested instead).
    pub ask: bool,
    /// Reason of a refusal.
    pub reason: Option<String>,
}

impl UploadHookDecision {
    /// A refusal with `reason`.
    pub fn deny(reason: &str) -> (d: Self)
        ensures
            !d.allow,
            !d.ask,
            d.reason matches Some(r) && r@ == reason@,
    {
        UploadHookDecision { allow: false, ask: false, reason: Some(reason.to_owned()) }
    }
}

/// Whether `POST upload` may create its session.
#[derive(Debug, Clone, PartialEq, Eq)]
pub enum Admission {
    /// Create the session.
    Admit,
    /// Answer with this status and message.
    Refuse { status: u16, message: String },
}

/// Admission of an upload that names a batch: an approved batch admits
/// (no per-file hook); any other batch state refuses with 403.
pub fn batch_admission(check: &Result<(), BatchError>) -> (a: Admission)
    ensures
        match check {
            Ok(()) => a == Admission::Admit,
            Err(BatchError::NotFound(m)) | Err(BatchError::NotApproved(m)) | Err(BatchError::Rejected(m)) => a
                matches Admission::Refuse { status, message } && status == 403 && message@ == m@,
            Err(_) => a matches Admission::Refuse { status, message } && status == 403 && message@
                == "batch-not-approved"@,
        },
{
    match check {
        Ok(()) => Admission::Admit,
        Err(BatchError::NotFound(m)) | Err(BatchError::NotApproved(m)) | Err(BatchError::Rejected(m)) => Admission::Refuse {
            status: 403,
            message: m.clone(),
        },
        Err(_) => Admission::Refuse { status: 403, message: "batch-not-approved".to_owned() },
    }
}

/// Admission of an upload without a batch, by the per-file hook: allowed
/// admits; an "ask" decision refuses with 403 batch-context-required (the
/// sender must request a batch); a duplicate name refuses with 409; any
/// other refusal with 403 and its reason (default "rejected by upload hook").
pub fn hook_admission(d: &UploadHookDecision) -> (a: Admission)
    ensures
        ({
            let reason = match d.reason {
                Some(r) => r@,
                None => "rejected by upload hook"@,
            };
            if d.allow {
                a == Admission::Admit
            } else if d.ask {
                a matches Admission::Refuse { status, message } && status == 403 && message@
                    == "batch-context-required"@
            } else if reason == "duplicate-name"@ {
                a matches Admission::Refuse { status, message } && status == 409 && message@
                    == "duplicate-name"@
            } else {
                a matches Admission::Refuse { status, message } && status == 403 && message@ == reason
            }
        }),
{
    if d.allow {
        return Admission::Admit;
    }
    let reason: String = match &d.reason {
        Some(r) => r.clone(),
        None => "rejected by upload hook".to_owned(),
    };
    if d.ask {
        return Admission::Refuse { status: 403, message: "batch-context-required".to_owned() };
    }
    if crate::text::str_eq(reason.as_str(), "duplicate-name") {
        return Admission::Refuse { status: 409, message: "duplicate-name".to_owned() };
    }
    Admission::Refuse { status: 403, message: reason }
}

/// Answer of a batch request that the registry refused: the message of a
/// denial, hook failure or gating denial, else "policy-denied" (always 403).
pub fn transfer_request_refusal(e: &BatchError) -> (m: String)
    ensures
        m@ == match e {
            BatchError::Denied(x) | BatchError::HookFailed(x) | BatchError::GatingDenied(x) => x@,
            _ => "policy-denied"@,
        },
{
    match e {
        BatchError::Denied(x) | BatchError::HookFailed(x) | BatchError::GatingDenied(x) => x.clone(),
        _ => "policy-denied".to_owned(),
    }
}

/// Answer of a batch request that the registry accepted: 200 "approved"
/// when it was approved at once, 202 "pending" while the user decides.
pub fn transfer_request_answer(d: BatchDecision) -> (a: (u16, &'static str))
    ensures
        d is Approved ==> a.0 == 200 && a.1@ == "approved"@,
        d is Pending ==> a.0 == 202 && a.1@ == "pending"@,
{
    match d {
        BatchDecision::Approved => (200, "approved"),
        BatchDecision::Pending => (202, "pending"),
    }
}

/// Notice of a listing that came back empty from a directory under primary
/// storage outside the app's own data: the result may be filtered by Android
/// storage permissions.
pub fn listing_notice(entries_empty: bool, may_need_all_files_access: bool) -> (n: Option<String>)
    ensures
        n is Some <==> entries_empty && may_need_all_files_access,
        n matches Some(t) ==> t@ == "all_files_access_may_be_required"@,
{
    if entries_empty && may_need_all_files_access {
        Some("all_files_access_may_be_required".to_owned())
    } else {
        None
    }
}

/// What `ensure_started` does.
#[derive(Debug, Clone, PartialEq, Eq)]
pub enum StartPlan {
    /// Already listening on this port: nothing to do.
    AlreadyRunning(u16),
    /// A fresh token was registered: sweep the relay directory, bind a port
    /// and report it with [`FileServiceServer::started`].
    Bind,
}

/// Lifecycle of the file service: the port it listens on while running,
/// and the bearer token, which exists exactly from start to stop.
pub struct FileServiceServer {
    port: Option<u16>,
    token: BearerTokenGuard,
}

impl FileServiceServer {
    /// The listening port while running.
    pub closed spec fn running_port(&self) -> Option<u16> {
        self.port
    }

    /// The token the server accepts.
    pub closed spec fn token_view(&self) -> Option<Seq<char>> {
        self.token.current()
    }

    /// Not running, no token.
    pub fn new() -> (s: Self)
        ensures
            s.running_port() is None,
            s.token_view() is None,
    {
        FileServiceServer { port: None, token: BearerTokenGuard::new() }
    }

    /// The token guard.
    pub fn token_guard(&self) -> (g: &BearerTokenGuard)
        ensures
            g.current() == self.token_view(),
    {
        &self.token
    }

    /// Whether the server runs.
    pub fn is_running(&self) -> (b: bool)
        ensures
            b == (self.running_port() is Some),
    {
        self.port.is_some()
    }

    /// The listening port (none when stopped).
    pub fn port(&self) -> (p: Option<u16>)
        ensures
            p == self.running_port(),
    {
        self.port
    }

    /// First half of `ensure_started`: a running server reports its port
    /// and keeps its token; otherwise a freshly generated token (32 random
    /// bytes in unpadded URL-safe base64, 43 characters) replaces any earlier
    /// one and the caller binds.
    pub fn start_plan(&mut self) -> (plan: StartPlan)
        ensures
            old(self).running_port() matches Some(p) ==> plan == StartPlan::AlreadyRunning(p) && final(self).running_port()
                == old(self).running_port() && final(self).token_view() == old(self).token_view(),
            old(self).running_port() is None ==> plan == StartPlan::Bind && final(self).running_port() is None
                && (final(self).token_view() matches Some(t) && t.len() == 43 && exists|b: Seq<u8>|
                b.len() == 32 && t == #[trigger] b64(b, true, false)),
    {
        match self.port {
            Some(p) => StartPlan::AlreadyRunning(p),
            None => {
                let _ = self.token.generate();
                StartPlan::Bind
            },
        }
    }

    /// The server listens on `port`.
    pub fn started(&mut self, port: u16)
        ensures
            final(self).running_port() == Some(port),
            final(self).token_view() == old(self).token_view(),
    {
        self.port = Some(port);
    }

    /// Stops the server: returns the port it listened on, if any, and
    /// revokes the token in every case.
    pub fn stop(&mut self) -> (was: Option<u16>)
        ensures
            was == old(self).running_port(),
            final(self).running_port() is None,
            final(self).token_view() is None,
    {
        let was = self.port;
        self.port = None;
        self.token.revoke();
        was
    }
}

/// Once stopped, the server authorizes no request, whatever its
/// `Authorization` header.
pub proof fn lemma_stopped_server_refuses(stopped: FileServiceServer, authorization: Option<Seq<char>>)
    requires
        stopped.token_view() is None,
    ensures
        !bearer_accepts(stopped.token_view(), authorization),
{
}

// ==================== request flows ====================

/// First answer of `POST upload`.
#[derive(Debug, Clone, PartialEq, Eq)]
pub enum CreateUploadStep {
    /// Answer with this status and message; no session is created.
    Refuse { status: u16, message: String },
    /// Resolve the target path inside this downloads directory and hand the
    /// result to [`create_upload_gate`].
    ResolveTarget { downloads_dir: String },
}

/// How `POST upload` is admitted once its target is known.
#[derive(Debug, Clone, PartialEq, Eq)]
pub enum UploadGate {
    /// Answer with this status and message; no session is created.
    Refuse { status: u16, message: String },
    /// Check batch `batch_id` (see [`batch_admission`]), then finish with
    /// [`create_upload_finish`] for `target`.
    CheckBatch { target: String, batch_id: String },
    /// Ask the per-file hook (see [`hook_admission`]), then finish with
    /// [`create_upload_finish`] for `target`.
    CallHook { target: String },
}

/// Start of `POST upload` on `plugin_id`/`mount_path`: an unknown mount is
/// 404, a mount without the upload operation 403, a missing downloads
/// directory 500 ("downloads dir unavailable"); otherwise the target is
/// resolved in the downloads directory.
pub fn create_upload_begin(mounts: &MountTable, plugin_id: &str, mount_path: &str, downloads_dir: Option<String>) -> (s: CreateUploadStep)
    requires
        mounts.wf(),
    ensures
        ({
            let key = (plugin_id@, mount_path@);
            if !mounts.view().contains_key(key) {
                s matches CreateUploadStep::Refuse { status, message } && status == 404 && message@
                    == not_found_message(plugin_id@, mount_path@)
            } else if !mounts.view()[key].operations@.contains(FileOperation::Upload) {
                s matches CreateUploadStep::Refuse { status, message } && status == 403 && message@
                    == "operation '"@ + op_label(FileOperation::Upload) + "' not allowed for mount '"@ + mount_path@
                    + "'"@
            } else {
                match downloads_dir {
                    None => s matches CreateUploadStep::Refuse { status, message } && status == 500 && message@
                        == "downloads dir unavailable"@,
                    Some(d) => s == CreateUploadStep::ResolveTarget { downloads_dir: d },
                }
            }
        }),
{
    let entry = match mounts.get_entry(plugin_id, mount_path) {
        Ok(e) => e,
        Err(e) => {
            let message = match e {
                AppError::NotFound(m) => m,
                _ => String::new(),
            };
            return CreateUploadStep::Refuse { status: 404, message };
        },
    };
    match require_op(entry.operations.as_slice(), FileOperation::Upload, mount_path) {
        Ok(()) => {},
        Err((status, message)) => return CreateUploadStep::Refuse { status, message },
    }
    match downloads_dir {
        None => CreateUploadStep::Refuse { status: 500, message: "downloads dir unavailable".to_owned() },
        Some(d) => CreateUploadStep::ResolveTarget { downloads_dir: d },
    }
}

/// After the target was resolved: a target that cannot be resolved is 400
/// with the resolver's message; otherwise a request naming a batch is
/// admitted by that batch, one without by the per-file hook.
pub fn create_upload_gate(target: Result<String, String>, batch_id: Option<String>) -> (g: UploadGate)
    ensures
        match target {
            Err(m) => g == UploadGate::Refuse { status: 400, message: m },
            Ok(t) => match batch_id {
                Some(b) => g == UploadGate::CheckBatch { target: t, batch_id: b },
                None => g == UploadGate::CallHook { target: t },
            },
        },
{
    match target {
        Err(m) => UploadGate::Refuse { status: 400, message: m },
        Ok(t) => match batch_id {
            Some(b) => UploadGate::CheckBatch { target: t, batch_id: b },
            None => UploadGate::CallHook { target: t },
        },
    }
}

/// End of `POST upload`: a refused admission answers with its status and
/// message; an admitted one creates the session for `target` (500 with the
/// failure's text when that fails). Only a created session changes the
/// table: every refusal leaves it as it was.
pub fn create_upload_finish(
    sessions: &mut UploadSessionManager,
    plugin_id: &str,
    mount_path: &str,
    target: &str,
    admission: Admission,
    size: u64,
    now_ms: u64,
) -> (r: Result<UploadSession, (u16, String)>)
    requires
        old(sessions).wf(),
    ensures
        final(sessions).wf(),
        r is Err ==> final(sessions).view() == old(sessions).view(),
        match admission {
            Admission::Refuse { status, message } => r == Err::<UploadSession, (u16, String)>((status, message)),
            Admission::Admit => match r {
                Ok(s) => {
                    &&& s.plugin_id@ == plugin_id@
                    &&& s.mount_path@ == mount_path@
                    &&& s.target@ == target@
                    &&& s.size == size
                    &&& s.received == 0
                    &&& final(sessions).view() == old(sessions).view().insert(s.id@, s)
                },
                Err((status, message)) => status == 500 && path_parent_spec(target@) is None && message@
                    == "upload session io failed: "@ + ("upload target '"@ + target@ + "' has no parent directory"@),
            },
        },
        admission is Admit ==> (r is Ok <==> path_parent_spec(target@) is Some),
{
    match admission {
        Admission::Refuse { status, message } => Err((status, message)),
        Admission::Admit => match sessions.create(plugin_id, mount_path, target, size, now_ms) {
            Ok(s) => Ok(s),
            Err(e) => Err((500, e.message())),
        },
    }
}

/// Where `GET file` serves from.
#[derive(Debug, Clone, PartialEq, Eq)]
pub enum DownloadSource {
    /// Answer with this status and message.
    Refuse { status: u16, message: String },
    /// A file under a SAF root: walk `parts` from `tree_uri` and serve its
    /// relay copy (`rel` is the trimmed request path).
    SafTree { tree_uri: String, parts: Vec<String>, rel: String },
    /// A path under the mount's real roots: resolve `rel` there and serve it
    /// when it is a file.
    RealPath { rel: String },
}

/// Start of `GET file` on `plugin_id`/`mount_path` for `path`: an unknown
/// mount is 404, a mount without the download operation 403; otherwise the
/// path without surrounding slashes goes to the first SAF root whose alias
/// it starts with, else to the real roots.
pub fn download_begin(mounts: &MountTable, plugin_id: &str, mount_path: &str, path: &str) -> (s: DownloadSource)
    requires
        mounts.wf(),
    ensures
        ({
            let key = (plugin_id@, mount_path@);
            if !mounts.view().contains_key(key) {
                s matches DownloadSource::Refuse { status, message } && status == 404 && message@
                    == not_found_message(plugin_id@, mount_path@)
            } else if !mounts.view()[key].operations@.contains(FileOperation::Download) {
                s matches DownloadSource::Refuse { status, message } && status == 403 && message@
                    == "operation '"@ + op_label(FileOperation::Download) + "' not allowed for mount '"@
                    + mount_path@ + "'"@
            } else {
                let roots = mounts.view()[key].saf_roots@;
                let t = trim_slashes(path@);
                match saf_root_match(string_views(roots), t) {
                    Some((k, rest)) => s matches DownloadSource::SafTree { tree_uri, parts, rel } && tree_uri@
                        == roots[k]@ && string_views(parts@) == components(rest) && rel@ == t,
                    None => s matches DownloadSource::RealPath { rel } && rel@ == t,
                }
            }
        }),
{
    let entry = match mounts.get_entry(plugin_id, mount_path) {
        Ok(e) => e,
        Err(e) => {
            let message = match e {
                AppError::NotFound(m) => m,
                _ => String::new(),
            };
            return DownloadSource::Refuse { status: 404, message };
        },
    };
    match require_op(entry.operations.as_slice(), FileOperation::Download, mount_path) {
        Ok(()) => {},
        Err((status, message)) => return DownloadSource::Refuse { status, message },
    }
    let rel = trim_slashes_str(path);
    match match_saf_root(entry.saf_roots.as_slice(), rel.as_str()) {
        Some((tree_uri, parts)) => DownloadSource::SafTree { tree_uri, parts, rel },
        None => DownloadSource::RealPath { rel },
    }
}

/// The answer of `GET file` for a file of `file_len` bytes and the request's
/// `Range` header: the header is parsed against the length (an unusable one
/// serves the whole file), the plan gives the bytes to send, and the head
/// carries the status and headers.
pub fn download_answer(range_header: Option<&str>, file_len: u64) -> (a: (RangePlan, DownloadHead))
    ensures
        ({
            let range = match range_header {
                Some(v) => range_of(v@, file_len),
                None => None,
            };
            let p = range_plan(range, file_len);
            &&& a.0 == p
            &&& a.1.status == (if range is Some { 206u16 } else { 200u16 })
            &&& (range is Some ==> (a.1.content_range matches Some(c) && c@ == "bytes "@ + decimal(p.start as nat)
                + "-"@ + decimal(p.end as nat) + "/"@ + decimal(file_len as nat)))
            &&& (range is None ==> a.1.content_range is None)
            &&& a.1.accept_ranges@ == "bytes"@
            &&& a.1.content_length@ == decimal(p.content_len as nat)
            &&& a.1.content_type@ == "application/octet-stream"@
        }),
{
    let range = match range_header {
        Some(v) => parse_range_header(v, file_len),
        None => None,
    };
    let p = plan_range(range, file_len);
    let h = download_response_head(range, p.start, p.end, file_len, p.content_len);
    (p, h)
}

} // verus!

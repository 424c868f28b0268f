//! Upload client orchestration (phone pushes a file to the desktop).
//!
//! The session protocol is: `POST upload` creates a session, `GET upload/{sid}`
//! reports how many bytes the server holds (the resume point), `PUT
//! upload/{sid}?offset=` appends from that point and `POST upload/{sid}/complete`
//! renames the part file into place.
//!
//! [`UploadPlanner`] holds the decisions of that loop: the caller performs
//! each [`UploadStep`] (an HTTP call, a pause) and hands the outcome back.
//! Network failures are retried (keeping the session, so the transfer resumes
//! from the server's byte count); a vanished session is recreated; a
//! duplicate name at completion is final.

use vstd::prelude::*;
use crate::client::{expected_offset_of, extract_expected_offset};
use crate::server::{decimal, decimal_string};
use crate::text::concat;

verus! {

/// Consecutive network failures after which an upload gives up.
pub const MAX_NETWORK_FAILURES: u32 = 3;

/// Structured upload failure.
#[derive(Debug, Clone, PartialEq, Eq)]
pub enum UploadError {
    /// Non-2xx HTTP answer (403 batch not approved, 500 server error, ...).
    Http { status: u16, url: String, message: String },
    /// Request or stream failed on the network (retryable).
    Network(String),
    /// The append offset differs from the server's byte count (409).
    OffsetMismatch { expected: u64, got: u64 },
    /// The session no longer exists on the server (404).
    SessionNotFound(String),
    /// The target name exists at completion (409 duplicate-name).
    DuplicateName(String),
    /// The transfer was cancelled locally.
    Cancelled,
    /// Local source read or response parse failure.
    Io(String),
}

/// Text of an upload failure.
pub open spec fn upload_error_text(e: UploadError) -> Seq<char> {
    match e {
        UploadError::Http { status, url, message } => "upload HTTP "@ + decimal(status as nat) + " for "@ + url@ + ": "@
            + message@,
        UploadError::Network(m) => "upload network error: "@ + m@,
        UploadError::OffsetMismatch { expected, got } => "upload offset mismatch: server has "@ + decimal(
            expected as nat,
        ) + " bytes, client sent "@ + decimal(got as nat),
        UploadError::SessionNotFound(u) => "upload session not found: "@ + u@,
        UploadError::DuplicateName(n) => "duplicate-name: "@ + n@,
        UploadError::Cancelled => "upload cancelled"@,
        UploadError::Io(m) => "upload io error: "@ + m@,
    }
}

impl UploadError {
    /// Text of the failure.
    pub fn message(&self) -> (m: String)
        ensures
            m@ == upload_error_text(*self),
    {
        match self {
            UploadError::Http { status, url, message } => {
                let a = concat("upload HTTP ", decimal_string(*status as u64).as_str());
                let b = concat(a.as_str(), " for ");
                let c = concat(b.as_str(), url.as_str());
                let d = concat(c.as_str(), ": ");
                concat(d.as_str(), message.as_str())
            },
            UploadError::Network(m) => concat("upload network error: ", m.as_str()),
            UploadError::OffsetMismatch { expected, got } => {
                let a = concat("upload offset mismatch: server has ", decimal_string(*expected).as_str());
                let b = concat(a.as_str(), " bytes, client sent ");
                concat(b.as_str(), decimal_string(*got).as_str())
            },
            UploadError::SessionNotFound(u) => concat("upload session not found: ", u.as_str()),
            UploadError::DuplicateName(n) => concat("duplicate-name: ", n.as_str()),
            UploadError::Cancelled => "upload cancelled".to_owned(),
            UploadError::Io(m) => concat("upload io error: ", m.as_str()),
        }
    }
}

/// Body of `POST upload`.
#[derive(Debug, Clone, PartialEq, Eq)]
pub struct CreateUploadRequest {
    /// Target path relative to the desktop mount root.
    pub relative_path: String,
    /// Declared total size in bytes.
    pub size: u64,
    /// Transfer batch the file belongs to, if any.
    pub batch_id: Option<String>,
}

/// Session information returned by the server.
#[derive(Debug, Clone, PartialEq, Eq)]
pub struct UploadSessionInfo {
    /// Session id.
    pub session_id: String,
    /// Bytes the server has received (the resume point).
    pub received: u64,
}

/// Failure of `POST upload/{sid}/complete`.
#[derive(Debug, Clone, PartialEq, Eq)]
pub enum CompleteError {
    /// 409: the target name exists.
    DuplicateName(String),
    /// 404: the session is gone.
    SessionNotFound(String),
    /// Any other HTTP error.
    Http { status: u16, url: String, message: String },
    /// Network failure.
    Network(String),
}

/// What the caller does next.
#[derive(Debug, PartialEq, Eq)]
pub enum UploadStep {
    /// `POST upload` with the request body; report the outcome to [`UploadPlanner::on_created`].
    CreateSession,
    /// `GET upload/{sid}`; report to [`UploadPlanner::on_queried`].
    QuerySession { sid: String },
    /// `POST upload/{sid}/complete`; report to [`UploadPlanner::on_completed`].
    Complete { sid: String, received: u64, after_append: bool },
    /// Open the source at `offset` and `PUT upload/{sid}?offset=`; report to
    /// [`UploadPlanner::on_appended`] (a source that cannot be opened is an `Io` error).
    Append { sid: String, offset: u64 },
    /// Pause briefly, then call [`UploadPlanner::next`].
    RetryAfterPause,
    /// Call [`UploadPlanner::next`] at once.
    Continue,
    /// The upload is over with this result.
    Finished(Result<UploadSessionInfo, UploadError>),
}

/// `"{op} failed after 3 attempts: {e}"`.
pub open spec fn give_up_message(op: Seq<char>, e: Seq<char>) -> Seq<char> {
    op + " failed after 3 attempts: "@ + e
}

/// Whether `step` is the final network failure of operation `op` with cause `e`.
pub open spec fn gives_up(step: UploadStep, op: Seq<char>, e: Seq<char>) -> bool {
    step matches UploadStep::Finished(Err(UploadError::Network(m))) && m@ == give_up_message(op, e)
}

/// The upload loop state.
#[derive(Debug, Clone)]
pub struct UploadPlanner {
    /// Declared file size.
    pub size: u64,
    /// Session to resume at the next loop head (none: create one).
    pub session_id: Option<String>,
    /// Network failures since a session id was last obtained.
    pub network_failures: u32,
    /// Whether the resume offset was already added to the progress.
    pub initial_offset_reported: bool,
}

fn give_up(op: &str, e: &str) -> (m: String)
    ensures
        m@ == give_up_message(op@, e@),
{
    let head = concat(op, " failed after 3 attempts: ");
    concat(head.as_str(), e)
}

impl UploadPlanner {
    /// Below the give-up threshold.
    pub open spec fn live(&self) -> bool {
        self.network_failures < MAX_NETWORK_FAILURES
    }

    /// `self` and `other` differ at most in the session and failure count.
    pub open spec fn same_upload(&self, other: &Self) -> bool {
        self.size == other.size && self.initial_offset_reported == other.initial_offset_reported
    }

    /// A fresh upload of `size` bytes.
    pub fn new(size: u64) -> (p: Self)
        ensures
            p.size == size,
            p.session_id is None,
            p.network_failures == 0,
            !p.initial_offset_reported,
            p.live(),
    {
        UploadPlanner { size, session_id: None, network_failures: 0, initial_offset_reported: false }
    }

    /// Loop head: stop when cancelled, else resume the kept session (the
    /// failure count restarts) or create a new one.
    pub fn next(&mut self, cancelled: bool) -> (step: UploadStep)
        requires
            old(self).live(),
        ensures
            final(self).live(),
            final(self).same_upload(&*old(self)),
            cancelled ==> step == UploadStep::Finished(Err(UploadError::Cancelled)) && *final(self) == *old(self),
            !cancelled && old(self).session_id is None ==> step == UploadStep::CreateSession && *final(self) == *old(self),
            !cancelled && old(self).session_id is Some ==> step == (UploadStep::QuerySession {
                sid: old(self).session_id->0,
            }) && final(self).session_id is None && final(self).network_failures == 0,
    {
        if cancelled {
            return UploadStep::Finished(Err(UploadError::Cancelled));
        }
        match self.session_id.take() {
            Some(sid) => {
                self.network_failures = 0;
                UploadStep::QuerySession { sid }
            },
            None => UploadStep::CreateSession,
        }
    }

    /// Counts one network failure; true when the upload must give up.
    fn count_failure(&mut self) -> (give: bool)
        requires
            old(self).live(),
        ensures
            final(self).network_failures == old(self).network_failures + 1,
            final(self).size == old(self).size,
            final(self).session_id == old(self).session_id,
            final(self).initial_offset_reported == old(self).initial_offset_reported,
            give <==> final(self).network_failures >= MAX_NETWORK_FAILURES,
            give ==> final(self).network_failures == MAX_NETWORK_FAILURES,
    {
        self.network_failures = self.network_failures + 1;
        self.network_failures >= MAX_NETWORK_FAILURES
    }

    /// Outcome of `POST upload`.
    pub fn on_created(&mut self, r: Result<UploadSessionInfo, UploadError>) -> (step: UploadStep)
        requires
            old(self).live(),
        ensures
            final(self).same_upload(&*old(self)),
            final(self).session_id == old(self).session_id,
            !(step is Finished) ==> final(self).live(),
            match r {
                Ok(info) => step == (UploadStep::QuerySession { sid: info.session_id })
                    && final(self).network_failures == 0,
                Err(UploadError::Network(e)) => final(self).network_failures == old(self).network_failures + 1
                    && (if old(self).network_failures + 1 >= MAX_NETWORK_FAILURES {
                    gives_up(step, "create session"@, e@)
                } else {
                    step == UploadStep::RetryAfterPause
                }),
                Err(e) => step == UploadStep::Finished(Err(e)) && final(self).network_failures
                    == old(self).network_failures,
            },
    {
        match r {
            Ok(info) => {
                self.network_failures = 0;
                UploadStep::QuerySession { sid: info.session_id }
            },
            Err(UploadError::Network(e)) => {
                if self.count_failure() {
                    let m = give_up("create session", e.as_str());
                    UploadStep::Finished(Err(UploadError::Network(m)))
                } else {
                    UploadStep::RetryAfterPause
                }
            },
            Err(e) => UploadStep::Finished(Err(e)),
        }
    }

    /// Outcome of `GET upload/{sid}`. The second result is the resume offset
    /// to add to the progress once (on the first successful query, when
    /// positive, capped at the size).
    pub fn on_queried(&mut self, sid: String, r: Result<UploadSessionInfo, UploadError>) -> (res: (
        UploadStep,
        Option<u64>,
    ))
        requires
            old(self).live(),
        ensures
            final(self).size == old(self).size,
            !(res.0 is Finished) ==> final(self).live(),
            res.0 matches UploadStep::Complete { received, .. } ==> received >= final(self).size,
            match r {
                Ok(info) => {
                    &&& final(self).session_id == old(self).session_id
                    &&& final(self).network_failures == old(self).network_failures
                    &&& final(self).initial_offset_reported
                    &&& res.1 == (if !old(self).initial_offset_reported && info.received > 0
                        && old(self).size > 0 {
                        Some(if info.received < old(self).size { info.received } else { old(self).size })
                    } else {
                        None::<u64>
                    })
                    &&& res.0 == (if info.received >= old(self).size {
                        UploadStep::Complete { sid, received: info.received, after_append: false }
                    } else {
                        UploadStep::Append { sid, offset: info.received }
                    })
                },
                Err(UploadError::SessionNotFound(_)) => res == (UploadStep::Continue, None::<u64>)
                    && final(self).session_id is None && final(self).network_failures
                    == old(self).network_failures && final(self).same_upload(&*old(self)),
                Err(UploadError::Network(e)) => {
                    &&& final(self).same_upload(&*old(self))
                    &&& res.1 is None
                    &&& final(self).network_failures == old(self).network_failures + 1
                    &&& if old(self).network_failures + 1 >= MAX_NETWORK_FAILURES {
                        gives_up(res.0, "query session"@, e@)
                    } else {
                        res.0 == UploadStep::RetryAfterPause && final(self).session_id == Some(sid)
                    }
                },
                Err(e) => res == (UploadStep::Finished(Err(e)), None::<u64>) && *final(self) == *old(self),
            },
    {
        match r {
            Ok(info) => {
                let received = info.received;
                let mut base: Option<u64> = None;
                if !self.initial_offset_reported {
                    let b = if received < self.size { received } else { self.size };
                    if b > 0 {
                        base = Some(b);
                    }
                    self.initial_offset_reported = true;
                }
                if received >= self.size {
                    (UploadStep::Complete { sid, received, after_append: false }, base)
                } else {
                    (UploadStep::Append { sid, offset: received }, base)
                }
            },
            Err(UploadError::SessionNotFound(_)) => {
                self.session_id = None;
                (UploadStep::Continue, None)
            },
            Err(UploadError::Network(e)) => {
                if self.count_failure() {
                    let m = give_up("query session", e.as_str());
                    (UploadStep::Finished(Err(UploadError::Network(m))), None)
                } else {
                    self.session_id = Some(sid);
                    (UploadStep::RetryAfterPause, None)
                }
            },
            Err(e) => (UploadStep::Finished(Err(e)), None),
        }
    }

    /// Outcome of `POST upload/{sid}/complete` for a session holding
    /// `received` bytes. After an append, a network failure keeps the session
    /// (the next query takes the complete path again); after the query fast
    /// path it does not.
    pub fn on_completed(&mut self, sid: String, received: u64, after_append: bool, r: Result<(), CompleteError>) -> (step: UploadStep)
        requires
            old(self).live(),
        ensures
            final(self).same_upload(&*old(self)),
            !(step is Finished) ==> final(self).live(),
            match r {
                Ok(()) => step == UploadStep::Finished(Ok(UploadSessionInfo { session_id: sid, received }))
                    && *final(self) == *old(self),
                Err(CompleteError::DuplicateName(p)) => step == UploadStep::Finished(
                    Err(UploadError::DuplicateName(p)),
                ) && *final(self) == *old(self),
                Err(CompleteError::SessionNotFound(_)) => step == UploadStep::Continue
                    && final(self).session_id is None && final(self).network_failures
                    == old(self).network_failures,
                Err(CompleteError::Http { status, url, message }) => step == UploadStep::Finished(
                    Err(UploadError::Http { status, url, message }),
                ) && *final(self) == *old(self),
                Err(CompleteError::Network(e)) => {
                    &&& final(self).network_failures == old(self).network_failures + 1
                    &&& final(self).session_id == (if after_append {
                        Some(sid)
                    } else {
                        old(self).session_id
                    })
                    &&& if old(self).network_failures + 1 >= MAX_NETWORK_FAILURES {
                        gives_up(step, "complete"@, e@)
                    } else {
                        step == UploadStep::RetryAfterPause
                    }
                },
            },
    {
        match r {
            Ok(()) => UploadStep::Finished(Ok(UploadSessionInfo { session_id: sid, received })),
            Err(CompleteError::DuplicateName(p)) => UploadStep::Finished(Err(UploadError::DuplicateName(p))),
            Err(CompleteError::SessionNotFound(_)) => {
                self.session_id = None;
                UploadStep::Continue
            },
            Err(CompleteError::Http { status, url, message }) => UploadStep::Finished(
                Err(UploadError::Http { status, url, message }),
            ),
            Err(CompleteError::Network(e)) => {
                if after_append {
                    self.session_id = Some(sid);
                }
                if self.count_failure() {
                    let m = give_up("complete", e.as_str());
                    UploadStep::Finished(Err(UploadError::Network(m)))
                } else {
                    UploadStep::RetryAfterPause
                }
            },
        }
    }

    /// Outcome of `PUT upload/{sid}?offset=` (the new server byte count).
    pub fn on_appended(&mut self, sid: String, r: Result<u64, UploadError>) -> (step: UploadStep)
        requires
            old(self).live(),
        ensures
            final(self).same_upload(&*old(self)),
            !(step is Finished) ==> final(self).live(),
            step matches UploadStep::Complete { received, .. } ==> received >= final(self).size,
            match r {
                Ok(n) => (if n >= old(self).size {
                    step == (UploadStep::Complete { sid, received: n, after_append: true }) && *final(self)
                        == *old(self)
                } else {
                    step == UploadStep::Continue && final(self).session_id == Some(sid)
                        && final(self).network_failures == old(self).network_failures
                }),
                Err(UploadError::OffsetMismatch { .. }) => step == UploadStep::Continue && final(self).session_id == Some(sid) && final(self).network_failures == old(self).network_failures,
                Err(UploadError::SessionNotFound(_)) => step == UploadStep::Continue && final(self).session_id is None && final(self).network_failures == old(self).network_failures,
                Err(UploadError::Network(e)) => {
                    &&& final(self).network_failures == old(self).network_failures + 1
                    &&& if old(self).network_failures + 1 >= MAX_NETWORK_FAILURES {
                        gives_up(step, "append"@, e@)
                    } else {
                        step == UploadStep::RetryAfterPause && final(self).session_id == Some(sid)
                    }
                },
                Err(e) => step == UploadStep::Finished(Err(e)) && *final(self) == *old(self),
            },
    {
        match r {
            Ok(n) => {
                if n >= self.size {
                    UploadStep::Complete { sid, received: n, after_append: true }
                } else {
                    self.session_id = Some(sid);
                    UploadStep::Continue
                }
            },
            Err(UploadError::OffsetMismatch { .. }) => {
                self.session_id = Some(sid);
                UploadStep::Continue
            },
            Err(UploadError::SessionNotFound(_)) => {
                self.session_id = None;
                UploadStep::Continue
            },
            Err(UploadError::Network(e)) => {
                if self.count_failure() {
                    let m = give_up("append", e.as_str());
                    UploadStep::Finished(Err(UploadError::Network(m)))
                } else {
                    self.session_id = Some(sid);
                    UploadStep::RetryAfterPause
                }
            },
            Err(e) => UploadStep::Finished(Err(e)),
        }
    }
}

/// URL of an append from `offset`: `{url}?offset={offset}`.
pub fn append_url(url: &str, offset: u64) -> (u: String)
    ensures
        u@ == url@ + "?offset="@ + decimal(offset as nat),
{
    let a = concat(url, "?offset=");
    concat(a.as_str(), decimal_string(offset).as_str())
}

/// Error of a non-2xx answer to an append from `offset`: 409 is an offset
/// mismatch (the server's count read from the message, 0 when it cannot be
/// read), 404 a lost session (naming the URL), anything else an HTTP error
/// with the body.
pub fn append_answer_error(status: u16, url: &str, offset: u64, body: String) -> (e: UploadError)
    ensures
        status == 409 ==> e == (UploadError::OffsetMismatch {
            expected: match expected_offset_of(body@) {
                Some(x) => x,
                None => 0,
            },
            got: offset,
        }),
        status == 404 ==> (e matches UploadError::SessionNotFound(u) && u@ == url@),
        status != 409 && status != 404 ==> (e matches UploadError::Http { status: s, url: u, message: m } && s
            == status && u@ == url@ && m == body),
{
    if status == 409 {
        let expected = match extract_expected_offset(body.as_str()) {
            Some(x) => x,
            None => 0,
        };
        UploadError::OffsetMismatch { expected, got: offset }
    } else if status == 404 {
        UploadError::SessionNotFound(url.to_owned())
    } else {
        UploadError::Http { status, url: url.to_owned(), message: body }
    }
}

/// Result of an answer to `POST complete`: 2xx done, 409 the name is taken
/// (with the body), 404 the session is gone (naming the URL), anything else
/// an HTTP error with the body.
pub fn complete_answer(status: u16, url: &str, body: String) -> (r: Result<(), CompleteError>)
    ensures
        200 <= status <= 299 ==> r is Ok,
        status == 409 ==> r == Err::<(), CompleteError>(CompleteError::DuplicateName(body)),
        status == 404 ==> (r matches Err(CompleteError::SessionNotFound(u)) && u@ == url@),
        !(200 <= status <= 299) && status != 409 && status != 404 ==> (r matches Err(
            CompleteError::Http { status: s, url: u, message: m },
        ) && s == status && u@ == url@ && m == body),
{
    if 200 <= status && status <= 299 {
        Ok(())
    } else if status == 409 {
        Err(CompleteError::DuplicateName(body))
    } else if status == 404 {
        Err(CompleteError::SessionNotFound(url.to_owned()))
    } else {
        Err(CompleteError::Http { status, url: url.to_owned(), message: body })
    }
}

/// Result of an answer to `DELETE` of a session: 2xx and 404 (already gone)
/// are done, anything else is an HTTP error with the body.
pub fn cancel_answer(status: u16, url: &str, body: String) -> (r: Result<(), UploadError>)
    ensures
        (200 <= status <= 299 || status == 404) ==> r is Ok,
        !(200 <= status <= 299 || status == 404) ==> (r matches Err(UploadError::Http { status: s, url: u, message: m })
            && s == status && u@ == url@ && m == body),
{
    if (200 <= status && status <= 299) || status == 404 {
        Ok(())
    } else {
        Err(UploadError::Http { status, url: url.to_owned(), message: body })
    }
}

} // verus!

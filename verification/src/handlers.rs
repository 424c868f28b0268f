//! Client route handlers. The terminal handler's decision is what it
//! forwards to the front end: output chunks only (subscription answers are
//! logged, other actions ignored); the authentication handler's is what an
//! authentication result leads to.

use vstd::prelude::*;
use crate::message::{Message, TerminalAction};
use crate::router::ClientRouteHandler;

verus! {

/// A terminal output chunk forwarded to the front end.
#[derive(Debug, Clone, PartialEq, Eq)]
pub struct TerminalOutputEvent {
    /// Terminal session.
    pub session_id: String,
    /// Output data (base64).
    pub data: String,
    /// The program waits for input.
    pub is_waiting: bool,
    /// Chunk index.
    pub index: u64,
    /// Last index of a merged chunk.
    pub end_index: Option<u64>,
    /// Byte offset of the first output byte.
    pub start_offset: Option<u64>,
    /// Byte offset past the last output byte.
    pub end_offset: Option<u64>,
}

/// Handler of terminal messages.
#[derive(Debug, Clone, Copy, PartialEq, Eq, Default)]
pub struct TerminalHandler;

/// Handler of authentication messages.
#[derive(Debug, Clone, Copy, PartialEq, Eq, Default)]
pub struct AuthHandler;

/// Handler of data-synchronisation pushes.
#[derive(Debug, Clone, Copy, PartialEq, Eq, Default)]
pub struct SyncHandler;

/// Handler of file-service control messages.
#[derive(Debug, Clone, Copy, PartialEq, Eq, Default)]
pub struct FileServiceHandler;

/// The output event a terminal message carries, if any.
pub open spec fn output_event_of(m: Message) -> Option<(Seq<char>, Seq<char>, bool, int, Option<int>, Option<u64>, Option<u64>)> {
    match m {
        Message::Terminal { session_id, payload, .. } => match payload.action {
            TerminalAction::Output { data, is_waiting, index, end_index, start_offset, end_offset } => Some(
                (
                    session_id@,
                    data@,
                    is_waiting,
                    index as int,
                    match end_index {
                        Some(e) => Some(e as int),
                        None => None,
                    },
                    start_offset,
                    end_offset,
                ),
            ),
            _ => None,
        },
        _ => None,
    }
}

impl TerminalHandler {
    /// Route name.
    pub fn name(&self) -> (n: &'static str)
        ensures
            n@ == "TerminalHandler"@,
    {
        "TerminalHandler"
    }

    /// Handles a routed message: an output chunk becomes an output event;
    /// everything else (subscription answers, other actions, other kinds)
    /// produces none. No reply is ever sent.
    pub fn handle(&self, message: Message) -> (ev: Option<TerminalOutputEvent>)
        ensures
            match output_event_of(message) {
                Some((sid, data, waiting, index, end_index, so, eo)) => ev matches Some(e) && {
                    &&& e.session_id@ == sid
                    &&& e.data@ == data
                    &&& e.is_waiting == waiting
                    &&& e.index == index
                    &&& (match e.end_index {
                        Some(x) => end_index == Some(x as int),
                        None => end_index is None,
                    })
                    &&& e.start_offset == so
                    &&& e.end_offset == eo
                },
                None => ev is None,
            },
    {
        match message {
            Message::Terminal { session_id, payload, .. } => match payload.action {
                TerminalAction::Output { data, is_waiting, index, end_index, start_offset, end_offset } => {
                    let end_index: Option<u64> = match end_index {
                        Some(e) => Some(e as u64),
                        None => None,
                    };
                    Some(
                        TerminalOutputEvent {
                            session_id,
                            data,
                            is_waiting,
                            index: index as u64,
                            end_index,
                            start_offset,
                            end_offset,
                        },
                    )
                },
                _ => None,
            },
            _ => None,
        }
    }
}

/// Stage of an authentication message.
#[derive(Debug, Clone, Copy, PartialEq, Eq)]
pub enum AuthStage {
    /// The desktop accepted the device.
    Authenticated,
    /// The desktop refused the device.
    Failed,
    /// Any intermediate stage.
    Other,
}

/// What an authentication message leads to.
#[derive(Debug, Clone, PartialEq, Eq)]
pub enum AuthEvent {
    /// Store the session token as the global token, report success, mark
    /// the link authenticated, notify the plugins and announce the file
    /// service again.
    Success { session_token: String },
    /// Report the failure with this reason.
    Failed { reason: String },
}

impl AuthHandler {
    /// Route name.
    pub fn name(&self) -> (n: &'static str)
        ensures
            n@ == "AuthHandler"@,
    {
        "AuthHandler"
    }

    /// Handles an authentication message of `stage`: success needs a
    /// session token (without one nothing happens); a failure carries its
    /// error, "Authentication failed" by default; other stages do nothing.
    pub fn handle(&self, stage: AuthStage, session_token: Option<String>, error: Option<String>) -> (ev: Option<AuthEvent>)
        ensures
            match stage {
                AuthStage::Authenticated => match session_token {
                    Some(t) => ev == Some(AuthEvent::Success { session_token: t }),
                    None => ev is None,
                },
                AuthStage::Failed => ev matches Some(AuthEvent::Failed { reason }) && reason@ == match error {
                    Some(e) => e@,
                    None => "Authentication failed"@,
                },
                AuthStage::Other => ev is None,
            },
    {
        match stage {
            AuthStage::Authenticated => match session_token {
                Some(t) => Some(AuthEvent::Success { session_token: t }),
                None => None,
            },
            AuthStage::Failed => {
                let reason = match error {
                    Some(e) => e,
                    None => "Authentication failed".to_owned(),
                };
                Some(AuthEvent::Failed { reason })
            },
            AuthStage::Other => None,
        }
    }
}

impl SyncHandler {
    /// Route name.
    pub fn name(&self) -> (n: &'static str)
        ensures
            n@ == "SyncHandler"@,
    {
        "SyncHandler"
    }
}

impl FileServiceHandler {
    /// Route name.
    pub fn name(&self) -> (n: &'static str)
        ensures
            n@ == "FileServiceHandler"@,
    {
        "FileServiceHandler"
    }
}

impl ClientRouteHandler for TerminalHandler {
    fn name(&self) -> (n: &'static str)
        ensures
            n@ == "TerminalHandler"@,
    {
        TerminalHandler::name(self)
    }
}

impl ClientRouteHandler for AuthHandler {
    fn name(&self) -> (n: &'static str)
        ensures
            n@ == "AuthHandler"@,
    {
        AuthHandler::name(self)
    }
}

impl ClientRouteHandler for SyncHandler {
    fn name(&self) -> (n: &'static str)
        ensures
            n@ == "SyncHandler"@,
    {
        SyncHandler::name(self)
    }
}

impl ClientRouteHandler for FileServiceHandler {
    fn name(&self) -> (n: &'static str)
        ensures
            n@ == "FileServiceHandler"@,
    {
        FileServiceHandler::name(self)
    }
}

} // verus!

//! Connection-level rules: the desktop target and which errors mean that the
//! WebSocket link is gone.

use vstd::prelude::*;
use crate::error::AppError;
use crate::message::{same_but_token, token_of, Message};
use crate::text::{chars_contain, chars_of, lower, seq_contains, to_lower};

verus! {

/// Reconnect back-off delays (milliseconds).
pub const RETRY_DELAYS: [u64; 5] = [1000, 2000, 4000, 8000, 16000];

/// Reconnect attempts before giving up.
pub const MAX_RETRY: u32 = 5;

/// What the reconnect loop does at its head.
#[derive(Debug, Clone, Copy, PartialEq, Eq)]
pub enum ReconnectStep {
    /// Stop quietly (`Ok`): the user disconnected, or a reconnect is already
    /// under way (after a failed attempt the loop meets its own flag here).
    Stop,
    /// Announce attempt `retry + 1`, wait `delay_ms` when present, then connect.
    Attempt { delay_ms: Option<u64> },
    /// All attempts failed: report the failure.
    GiveUp,
}

/// Loop head of a reconnect, at attempt index `retry`: give up after
/// `MAX_RETRY` attempts; stop on a manual disconnect or when the reconnecting
/// flag is already set; otherwise attempt, waiting the back-off delay of the
/// previous attempt (none before the first).
pub fn reconnect_step(retry: u32, manual_disconnect: bool, already_reconnecting: bool) -> (s: ReconnectStep)
    ensures
        s == (if retry >= MAX_RETRY {
            ReconnectStep::GiveUp
        } else if manual_disconnect || already_reconnecting {
            ReconnectStep::Stop
        } else if retry == 0 {
            ReconnectStep::Attempt { delay_ms: None }
        } else {
            ReconnectStep::Attempt { delay_ms: Some(RETRY_DELAYS[retry - 1]) }
        }),
{
    if retry >= MAX_RETRY {
        ReconnectStep::GiveUp
    } else if manual_disconnect || already_reconnecting {
        ReconnectStep::Stop
    } else if retry == 0 {
        ReconnectStep::Attempt { delay_ms: None }
    } else {
        ReconnectStep::Attempt { delay_ms: Some(RETRY_DELAYS[(retry - 1) as usize]) }
    }
}

/// The back-off is exponential: the first delay is one second and each
/// later delay doubles the one before.
pub proof fn lemma_backoff_doubles(retry: int)
    requires
        1 <= retry < MAX_RETRY,
    ensures
        RETRY_DELAYS@[0] == 1000,
        RETRY_DELAYS@[retry] == 2 * RETRY_DELAYS@[retry - 1],
{
    assert(RETRY_DELAYS@ == seq![1000u64, 2000, 4000, 8000, 16000]);
}

/// Connection target (the desktop).
#[derive(Debug, Clone, PartialEq, Eq)]
pub struct TargetDevice {
    /// Address.
    pub address: String,
    /// Port.
    pub port: u16,
    /// Display name.
    pub name: Option<String>,
}

/// Phrases of a WebSocket error that mean the link is down or a request was lost.
pub open spec fn disconnect_phrase(l: Seq<char>) -> bool {
    ||| seq_contains(l, "not connected"@)
    ||| seq_contains(l, "disconnected"@)
    ||| seq_contains(l, "connection lost"@)
    ||| seq_contains(l, "connection closed"@)
    ||| seq_contains(l, "failed to send"@)
    ||| seq_contains(l, "channel closed"@)
    ||| seq_contains(l, "timeout"@)
    ||| seq_contains(l, "response timeout"@)
}

/// Whether an error means the connection is gone (the front end must be told):
/// a WebSocket error whose message, lowercased, holds one of the phrases. The
/// phrases are ASCII without `k`/`i` at their end, so ASCII lowercasing finds
/// exactly what Unicode lowercasing finds.
pub open spec fn disconnect_error(e: AppError) -> bool {
    match e {
        AppError::WebSocket(msg) => disconnect_phrase(lower(msg@)),
        _ => false,
    }
}

fn has_phrase(l: &[char], p: &str) -> (r: bool)
    ensures
        r == seq_contains(l@, p@),
{
    chars_contain(l, chars_of(p).as_slice())
}

/// Whether an error means the connection is gone.
pub fn is_disconnect_error(error: &AppError) -> (r: bool)
    ensures
        r == disconnect_error(*error),
{
    match error {
        AppError::WebSocket(msg) => {
            let l = to_lower(chars_of(msg.as_str()).as_slice());
            has_phrase(l.as_slice(), "not connected") || has_phrase(l.as_slice(), "disconnected")
                || has_phrase(l.as_slice(), "connection lost") || has_phrase(l.as_slice(), "connection closed")
                || has_phrase(l.as_slice(), "failed to send") || has_phrase(l.as_slice(), "channel closed")
                || has_phrase(l.as_slice(), "timeout") || has_phrase(l.as_slice(), "response timeout")
        },
        _ => false,
    }
}

/// Status of the WebSocket link, as its client reports it.
#[derive(Debug, Clone, Copy, PartialEq, Eq)]
pub enum LinkStatus {
    /// No link.
    Disconnected,
    /// Opening.
    Connecting,
    /// Open.
    Connected,
    /// Open and paired.
    Paired,
}

/// What `connect` does for the current link status.
#[derive(Debug, Clone, Copy, PartialEq, Eq)]
pub enum ConnectStart {
    /// A link is being opened: report "already connecting" and return.
    AlreadyConnecting,
    /// A link is open: report "connected" and return.
    AlreadyConnected,
    /// Open a new link (dropping any previous client).
    Connect,
}

/// Whether a link is open (connected or paired).
pub fn is_linked(status: LinkStatus) -> (b: bool)
    ensures
        b == (status == LinkStatus::Connected || status == LinkStatus::Paired),
{
    match status {
        LinkStatus::Connected | LinkStatus::Paired => true,
        _ => false,
    }
}

/// Decision of `connect` from the link status.
pub fn connect_start(status: LinkStatus) -> (c: ConnectStart)
    ensures
        c == (match status {
            LinkStatus::Connecting => ConnectStart::AlreadyConnecting,
            LinkStatus::Connected | LinkStatus::Paired => ConnectStart::AlreadyConnected,
            LinkStatus::Disconnected => ConnectStart::Connect,
        }),
{
    match status {
        LinkStatus::Connecting => ConnectStart::AlreadyConnecting,
        LinkStatus::Connected | LinkStatus::Paired => ConnectStart::AlreadyConnected,
        LinkStatus::Disconnected => ConnectStart::Connect,
    }
}

/// Event of the link that ends the connection monitor.
#[derive(Debug, Clone, PartialEq, Eq)]
pub enum LinkEvent {
    /// The link dropped.
    Disconnected,
    /// The link failed.
    Error { message: String },
    /// The server closed the link.
    ServerClosed { reason: String },
}

/// Reason reported to the front end when the link ends without the user
/// asking: the server's reason, the error's message, or "Connection lost";
/// nothing after a manual disconnect.
pub fn unexpected_disconnect_reason(event: LinkEvent, manual_disconnect: bool) -> (r: Option<String>)
    ensures
        manual_disconnect ==> r is None,
        !manual_disconnect ==> (r matches Some(t) && t@ == match event {
            LinkEvent::ServerClosed { reason } => reason@,
            LinkEvent::Error { message } => message@,
            LinkEvent::Disconnected => "Connection lost"@,
        }),
{
    if manual_disconnect {
        return None;
    }
    match event {
        LinkEvent::ServerClosed { reason } => Some(reason),
        LinkEvent::Error { message } => Some(message),
        LinkEvent::Disconnected => Some("Connection lost".to_owned()),
    }
}

/// A message as sent: with the global token when there is one, else as it is.
pub fn with_global_token(message: Message, token: &str) -> (m: Message)
    ensures
        token@.len() == 0 ==> m == message,
        token@.len() > 0 ==> token_of(m) == token@ && same_but_token(message, m),
{
    if token.is_empty() {
        message
    } else {
        message.with_token(token)
    }
}

} // verus!

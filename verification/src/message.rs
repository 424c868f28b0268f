//! WebSocket business messages exchanged with the desktop, with their
//! constructors, accessors and the request-id / token rewriting used for
//! request-response correlation.
//!
//! Payloads whose schema is owned by other modules of the host are carried as
//! their JSON text ([`RawPayload`]); terminal payloads are modelled here.

use vstd::prelude::*;
use crate::encoding::{b64, base64_standard};

verus! {

/// Ack code: success.
pub const ACK_CODE_SUCCESS: u16 = 0;
/// Ack code: generic failure.
pub const ACK_CODE_FAILURE: u16 = 1;
/// Ack code: authentication failed.
pub const ACK_CODE_AUTH_FAILED: u16 = 1001;
/// Ack code: session not found.
pub const ACK_CODE_SESSION_NOT_FOUND: u16 = 1002;
/// Ack code: invalid request.
pub const ACK_CODE_INVALID_REQUEST: u16 = 1003;
/// Ack code: timeout.
pub const ACK_CODE_TIMEOUT: u16 = 1004;

/// Lowercase hex digit.
pub open spec fn is_lower_hex(c: char) -> bool {
    ('0' <= c <= '9') || ('a' <= c <= 'f')
}

/// Hyphenated lowercase text of a version-4 (random) UUID:
/// `xxxxxxxx-xxxx-4xxx-Nxxx-xxxxxxxxxxxx` with `N` in `8 9 a b`.
pub open spec fn uuid_v4_text(s: Seq<char>) -> bool {
    &&& s.len() == 36
    &&& forall|i: int| 0 <= i < 36 ==> (if i == 8 || i == 13 || i == 18 || i == 23 {
        s[i] == '-'
    } else {
        is_lower_hex(#[trigger] s[i])
    })
    &&& s[14] == '4'
    &&& (s[19] == '8' || s[19] == '9' || s[19] == 'a' || s[19] == 'b')
}

/// `uuid::Uuid::new_v4().to_string()`: a fresh random version-4 UUID in its
/// hyphenated lowercase text form. Only the shape is claimed (the value is random).
#[verifier::external_body]
pub(crate) fn generate_message_id() -> (id: String)
    ensures
        uuid_v4_text(id@),
{
    uuid::Uuid::new_v4().to_string()
}

/// `chrono::Utc::now().timestamp_millis()`: the current time in Unix
/// milliseconds. Nothing is claimed (it reads the clock).
#[verifier::external_body]
pub(crate) fn current_timestamp() -> (t: i64) {
    chrono::Utc::now().timestamp_millis()
}

/// Payload carried as its JSON text (schema owned elsewhere in the host).
#[derive(Debug, Clone, PartialEq, Eq)]
pub struct RawPayload {
    /// JSON text of the payload.
    pub json: String,
}

/// Terminal actions.
#[derive(Debug, Clone, PartialEq, Eq)]
pub enum TerminalAction {
    /// Output chunk (base64 data).
    Output {
        data: String,
        is_waiting: bool,
        index: usize,
        end_index: Option<usize>,
        start_offset: Option<u64>,
        end_offset: Option<u64>,
    },
    /// Input text with an optional key combination.
    Input { data: String, special_key: Option<String> },
    /// Subscribe from a sequence number.
    Subscribe { start_seq: Option<u64> },
    /// Subscription answer.
    SubscribeResponse {
        min_seq: u64,
        max_seq: u64,
        history_count: usize,
        mode: Option<String>,
        min_offset: Option<u64>,
        max_offset: Option<u64>,
    },
    /// Unsubscribe.
    Unsubscribe,
    /// Unsubscription answer.
    UnsubscribeResponse,
}

/// Terminal payload.
#[derive(Debug, Clone, PartialEq, Eq)]
pub struct TerminalPayload {
    /// The action.
    pub action: TerminalAction,
}

/// Business message.
#[derive(Debug, Clone, PartialEq, Eq)]
pub enum Message {
    /// Terminal message (both directions).
    Terminal {
        message_id: String,
        expect_response: bool,
        timestamp: i64,
        session_id: String,
        token: String,
        payload: TerminalPayload,
    },
    /// Authentication message.
    Auth {
        message_id: String,
        expect_response: bool,
        timestamp: i64,
        session_id: Option<String>,
        token: String,
        payload: RawPayload,
    },
    /// Session control.
    SessionControl {
        message_id: String,
        expect_response: bool,
        timestamp: i64,
        session_id: Option<String>,
        token: String,
        payload: RawPayload,
    },
    /// Session configuration.
    SessionConfig {
        message_id: String,
        expect_response: bool,
        timestamp: i64,
        session_id: Option<String>,
        token: String,
        payload: RawPayload,
    },
    /// Error (server to client).
    Error {
        message_id: Option<String>,
        expect_response: bool,
        timestamp: i64,
        token: String,
        code: String,
        message: String,
    },
    /// The server is closing.
    ServerClosed { reason: String, will_reconnect: bool, token: String },
    /// Another client disconnected.
    ClientDisconnected { device_name: String, reason: String, token: String },
    /// A client session changed.
    SessionEvent { event_type: String, session: RawPayload, device_name: String, token: String },
    /// Acknowledgement.
    Ack { request_id: String, timestamp: i64, code: u16, message: Option<String>, token: String },
    /// Data synchronisation push.
    SyncData { timestamp: i64, payload: RawPayload, token: String },
    /// File-service control plane.
    FileService {
        message_id: String,
        expect_response: bool,
        timestamp: i64,
        token: String,
        payload: RawPayload,
    },
}

/// Id of a message (`None` for kinds without one, or an error without one).
pub open spec fn message_id_of(m: Message) -> Option<Seq<char>> {
    match m {
        Message::Terminal { message_id, .. } => Some(message_id@),
        Message::Auth { message_id, .. } => Some(message_id@),
        Message::SessionControl { message_id, .. } => Some(message_id@),
        Message::SessionConfig { message_id, .. } => Some(message_id@),
        Message::Error { message_id, .. } => match message_id { Some(i) => Some(i@), None => None },
        Message::FileService { message_id, .. } => Some(message_id@),
        _ => None,
    }
}

/// Wire type name of a message.
pub open spec fn type_name_of(m: Message) -> Seq<char> {
    match m {
        Message::Terminal { .. } => "terminal"@,
        Message::Auth { .. } => "auth"@,
        Message::SessionControl { .. } => "session_control"@,
        Message::SessionConfig { .. } => "session_config"@,
        Message::Error { .. } => "error"@,
        Message::ServerClosed { .. } => "server_closed"@,
        Message::ClientDisconnected { .. } => "client_disconnected"@,
        Message::SessionEvent { .. } => "session_event"@,
        Message::Ack { .. } => "ack"@,
        Message::SyncData { .. } => "sync_data"@,
        Message::FileService { .. } => "file_service"@,
    }
}

/// Whether the sender expects a reply.
pub open spec fn expects_reply(m: Message) -> bool {
    match m {
        Message::Terminal { expect_response, .. } => expect_response,
        Message::Auth { expect_response, .. } => expect_response,
        Message::SessionControl { expect_response, .. } => expect_response,
        Message::SessionConfig { expect_response, .. } => expect_response,
        Message::Error { expect_response, .. } => expect_response,
        Message::FileService { expect_response, .. } => expect_response,
        _ => false,
    }
}

/// Token of a message.
pub open spec fn token_of(m: Message) -> Seq<char> {
    match m {
        Message::Terminal { token, .. } => token@,
        Message::Auth { token, .. } => token@,
        Message::SessionControl { token, .. } => token@,
        Message::SessionConfig { token, .. } => token@,
        Message::Error { token, .. } => token@,
        Message::ServerClosed { token, .. } => token@,
        Message::ClientDisconnected { token, .. } => token@,
        Message::SessionEvent { token, .. } => token@,
        Message::Ack { token, .. } => token@,
        Message::SyncData { token, .. } => token@,
        Message::FileService { token, .. } => token@,
    }
}

/// Kinds that carry a correlatable request id.
pub open spec fn correlatable(m: Message) -> bool {
    m is Terminal || m is Auth || m is SessionControl || m is SessionConfig || m is Error
}

/// `a` and `b` are the same message up to their token.
pub open spec fn same_but_token(a: Message, b: Message) -> bool {
    match (a, b) {
        (
            Message::Terminal { message_id: i1, expect_response: e1, timestamp: t1, session_id: s1, payload: p1, .. },
            Message::Terminal { message_id: i2, expect_response: e2, timestamp: t2, session_id: s2, payload: p2, .. },
        ) => i1 == i2 && e1 == e2 && t1 == t2 && s1 == s2 && p1 == p2,
        (
            Message::Auth { message_id: i1, expect_response: e1, timestamp: t1, session_id: s1, payload: p1, .. },
            Message::Auth { message_id: i2, expect_response: e2, timestamp: t2, session_id: s2, payload: p2, .. },
        ) => i1 == i2 && e1 == e2 && t1 == t2 && s1 == s2 && p1 == p2,
        (
            Message::SessionControl { message_id: i1, expect_response: e1, timestamp: t1, session_id: s1, payload: p1, .. },
            Message::SessionControl { message_id: i2, expect_response: e2, timestamp: t2, session_id: s2, payload: p2, .. },
        ) => i1 == i2 && e1 == e2 && t1 == t2 && s1 == s2 && p1 == p2,
        (
            Message::SessionConfig { message_id: i1, expect_response: e1, timestamp: t1, session_id: s1, payload: p1, .. },
            Message::SessionConfig { message_id: i2, expect_response: e2, timestamp: t2, session_id: s2, payload: p2, .. },
        ) => i1 == i2 && e1 == e2 && t1 == t2 && s1 == s2 && p1 == p2,
        (
            Message::Error { message_id: i1, expect_response: e1, timestamp: t1, code: c1, message: m1, .. },
            Message::Error { message_id: i2, expect_response: e2, timestamp: t2, code: c2, message: m2, .. },
        ) => i1 == i2 && e1 == e2 && t1 == t2 && c1 == c2 && m1 == m2,
        (
            Message::ServerClosed { reason: r1, will_reconnect: w1, .. },
            Message::ServerClosed { reason: r2, will_reconnect: w2, .. },
        ) => r1 == r2 && w1 == w2,
        (
            Message::ClientDisconnected { device_name: d1, reason: r1, .. },
            Message::ClientDisconnected { device_name: d2, reason: r2, .. },
        ) => d1 == d2 && r1 == r2,
        (
            Message::SessionEvent { event_type: e1, session: s1, device_name: d1, .. },
            Message::SessionEvent { event_type: e2, session: s2, device_name: d2, .. },
        ) => e1 == e2 && s1 == s2 && d1 == d2,
        (
            Message::Ack { request_id: r1, timestamp: t1, code: c1, message: m1, .. },
            Message::Ack { request_id: r2, timestamp: t2, code: c2, message: m2, .. },
        ) => r1 == r2 && t1 == t2 && c1 == c2 && m1 == m2,
        (
            Message::SyncData { timestamp: t1, payload: p1, .. },
            Message::SyncData { timestamp: t2, payload: p2, .. },
        ) => t1 == t2 && p1 == p2,
        (
            Message::FileService { message_id: i1, expect_response: e1, timestamp: t1, payload: p1, .. },
            Message::FileService { message_id: i2, expect_response: e2, timestamp: t2, payload: p2, .. },
        ) => i1 == i2 && e1 == e2 && t1 == t2 && p1 == p2,
        _ => false,
    }
}

/// `a` and `b` are the same message up to their id.
pub open spec fn same_but_id(a: Message, b: Message) -> bool {
    match (a, b) {
        (
            Message::Terminal { expect_response: e1, timestamp: t1, session_id: s1, token: k1, payload: p1, .. },
            Message::Terminal { expect_response: e2, timestamp: t2, session_id: s2, token: k2, payload: p2, .. },
        ) => e1 == e2 && t1 == t2 && s1 == s2 && k1 == k2 && p1 == p2,
        (
            Message::Auth { expect_response: e1, timestamp: t1, session_id: s1, token: k1, payload: p1, .. },
            Message::Auth { expect_response: e2, timestamp: t2, session_id: s2, token: k2, payload: p2, .. },
        ) => e1 == e2 && t1 == t2 && s1 == s2 && k1 == k2 && p1 == p2,
        (
            Message::SessionControl { expect_response: e1, timestamp: t1, session_id: s1, token: k1, payload: p1, .. },
            Message::SessionControl { expect_response: e2, timestamp: t2, session_id: s2, token: k2, payload: p2, .. },
        ) => e1 == e2 && t1 == t2 && s1 == s2 && k1 == k2 && p1 == p2,
        (
            Message::SessionConfig { expect_response: e1, timestamp: t1, session_id: s1, token: k1, payload: p1, .. },
            Message::SessionConfig { expect_response: e2, timestamp: t2, session_id: s2, token: k2, payload: p2, .. },
        ) => e1 == e2 && t1 == t2 && s1 == s2 && k1 == k2 && p1 == p2,
        (
            Message::Error { expect_response: e1, timestamp: t1, token: k1, code: c1, message: m1, .. },
            Message::Error { expect_response: e2, timestamp: t2, token: k2, code: c2, message: m2, .. },
        ) => e1 == e2 && t1 == t2 && k1 == k2 && c1 == c2 && m1 == m2,
        _ => false,
    }
}

fn opt_str(s: Option<&str>) -> (r: Option<String>)
    ensures
        match s { Some(v) => r matches Some(x) && x@ == v@, None => r is None },
{
    match s {
        Some(v) => Some(v.to_owned()),
        None => None,
    }
}

impl Message {
    /// Terminal output message; `data` is base64-encoded (standard alphabet, padded).
    pub fn output(session_id: &str, data: &[u8], is_waiting: bool, index: usize) -> (m: Self)
        requires
            4 * (data.len() / 3) + 4 <= usize::MAX,
        ensures
            m matches Message::Terminal {
                message_id, expect_response, session_id: sid, token,
                payload: TerminalPayload { action: TerminalAction::Output { data: d, is_waiting: w, index: i, end_index, start_offset, end_offset } }, ..
            } && uuid_v4_text(message_id@) && !expect_response && sid@ == session_id@ && token@ == Seq::<char>::empty()
                && d@ == b64(data@, false, true) && w == is_waiting && i == index && end_index is None
                && start_offset is None && end_offset is None,
    {
        Message::Terminal {
            message_id: generate_message_id(),
            expect_response: false,
            timestamp: current_timestamp(),
            session_id: session_id.to_owned(),
            token: String::new(),
            payload: TerminalPayload {
                action: TerminalAction::Output {
                    data: base64_standard(data),
                    is_waiting,
                    index,
                    end_index: None,
                    start_offset: None,
                    end_offset: None,
                },
            },
        }
    }

    /// Terminal output message from already-encoded base64 data (passed through).
    pub fn output_from_base64(session_id: &str, data_base64: &str, is_waiting: bool, index: usize, end_index: Option<usize>) -> (m: Self)
        ensures
            m matches Message::Terminal {
                message_id, expect_response, session_id: sid, token,
                payload: TerminalPayload { action: TerminalAction::Output { data: d, is_waiting: w, index: i, end_index: e, start_offset, end_offset } }, ..
            } && uuid_v4_text(message_id@) && !expect_response && sid@ == session_id@ && token@ == Seq::<char>::empty()
                && d@ == data_base64@ && w == is_waiting && i == index && e == end_index
                && start_offset is None && end_offset is None,
    {
        Message::Terminal {
            message_id: generate_message_id(),
            expect_response: false,
            timestamp: current_timestamp(),
            session_id: session_id.to_owned(),
            token: String::new(),
            payload: TerminalPayload {
                action: TerminalAction::Output {
                    data: data_base64.to_owned(),
                    is_waiting,
                    index,
                    end_index,
                    start_offset: None,
                    end_offset: None,
                },
            },
        }
    }

    fn input_message(session_id: &str, data: &str, special_key: Option<&str>, expect: bool) -> (m: Self)
        ensures
            m matches Message::Terminal {
                message_id, expect_response, session_id: sid, token,
                payload: TerminalPayload { action: TerminalAction::Input { data: d, special_key: k } }, ..
            } && uuid_v4_text(message_id@) && expect_response == expect && sid@ == session_id@ && token@ == Seq::<char>::empty()
                && d@ == data@ && match special_key { Some(v) => k matches Some(x) && x@ == v@, None => k is None },
    {
        Message::Terminal {
            message_id: generate_message_id(),
            expect_response: expect,
            timestamp: current_timestamp(),
            session_id: session_id.to_owned(),
            token: String::new(),
            payload: TerminalPayload {
                action: TerminalAction::Input { data: data.to_owned(), special_key: opt_str(special_key) },
            },
        }
    }

    /// Terminal input message (the key combination is given by its text, e.g. `ctrl+c`).
    pub fn input(session_id: &str, data: &str, special_key: Option<&str>) -> (m: Self)
        ensures
            m matches Message::Terminal {
                message_id, expect_response, session_id: sid, token,
                payload: TerminalPayload { action: TerminalAction::Input { data: d, special_key: k } }, ..
            } && uuid_v4_text(message_id@) && !expect_response && sid@ == session_id@ && token@ == Seq::<char>::empty()
                && d@ == data@ && match special_key { Some(v) => k matches Some(x) && x@ == v@, None => k is None },
    {
        Self::input_message(session_id, data, special_key, false)
    }

    /// Terminal input message expecting a reply.
    pub fn input_with_response(session_id: &str, data: &str, special_key: Option<&str>) -> (m: Self)
        ensures
            m matches Message::Terminal {
                message_id, expect_response, session_id: sid, token,
                payload: TerminalPayload { action: TerminalAction::Input { data: d, special_key: k } }, ..
            } && uuid_v4_text(message_id@) && expect_response && sid@ == session_id@ && token@ == Seq::<char>::empty()
                && d@ == data@ && match special_key { Some(v) => k matches Some(x) && x@ == v@, None => k is None },
    {
        Self::input_message(session_id, data, special_key, true)
    }

    fn terminal_with(session_id: &str, action: TerminalAction, expect: bool) -> (m: Self)
        ensures
            m matches Message::Terminal { message_id, expect_response, session_id: sid, token, payload, .. }
                && uuid_v4_text(message_id@) && expect_response == expect && sid@ == session_id@ && token@ == Seq::<char>::empty()
                && payload == (TerminalPayload { action }),
    {
        Message::Terminal {
            message_id: generate_message_id(),
            expect_response: expect,
            timestamp: current_timestamp(),
            session_id: session_id.to_owned(),
            token: String::new(),
            payload: TerminalPayload { action },
        }
    }

    /// Terminal subscription.
    pub fn subscribe(session_id: &str, start_seq: Option<u64>) -> (m: Self)
        ensures
            m matches Message::Terminal { message_id, expect_response, session_id: sid, token, payload, .. }
                && uuid_v4_text(message_id@) && !expect_response && sid@ == session_id@ && token@ == Seq::<char>::empty()
                && payload == (TerminalPayload { action: TerminalAction::Subscribe { start_seq } }),
    {
        Self::terminal_with(session_id, TerminalAction::Subscribe { start_seq }, false)
    }

    /// Terminal subscription expecting a reply.
    pub fn subscribe_with_response(session_id: &str, start_seq: Option<u64>) -> (m: Self)
        ensures
            m matches Message::Terminal { message_id, expect_response, session_id: sid, token, payload, .. }
                && uuid_v4_text(message_id@) && expect_response && sid@ == session_id@ && token@ == Seq::<char>::empty()
                && payload == (TerminalPayload { action: TerminalAction::Subscribe { start_seq } }),
    {
        Self::terminal_with(session_id, TerminalAction::Subscribe { start_seq }, true)
    }

    /// Subscription answer with a fresh id.
    pub fn subscribe_response(session_id: &str, min_seq: u64, max_seq: u64, history_count: usize) -> (m: Self)
        ensures
            m matches Message::Terminal {
                message_id, expect_response, session_id: sid, token,
                payload: TerminalPayload { action: TerminalAction::SubscribeResponse { min_seq: a, max_seq: b, history_count: h, mode, min_offset, max_offset } }, ..
            } && uuid_v4_text(message_id@) && !expect_response && sid@ == session_id@ && token@ == Seq::<char>::empty()
                && a == min_seq && b == max_seq && h == history_count && mode is None && min_offset is None
                && max_offset is None,
    {
        let id = generate_message_id();
        Self::subscribe_response_with_request_id(session_id, min_seq, max_seq, history_count, id.as_str())
    }

    /// Subscription answer carrying the request id (so the client can match it).
    pub fn subscribe_response_with_request_id(session_id: &str, min_seq: u64, max_seq: u64, history_count: usize, request_id: &str) -> (m: Self)
        ensures
            m matches Message::Terminal {
                message_id, expect_response, session_id: sid, token,
                payload: TerminalPayload { action: TerminalAction::SubscribeResponse { min_seq: a, max_seq: b, history_count: h, mode, min_offset, max_offset } }, ..
            } && message_id@ == request_id@ && !expect_response && sid@ == session_id@ && token@ == Seq::<char>::empty()
                && a == min_seq && b == max_seq && h == history_count && mode is None && min_offset is None
                && max_offset is None,
    {
        Message::Terminal {
            message_id: request_id.to_owned(),
            expect_response: false,
            timestamp: current_timestamp(),
            session_id: session_id.to_owned(),
            token: String::new(),
            payload: TerminalPayload {
                action: TerminalAction::SubscribeResponse {
                    min_seq,
                    max_seq,
                    history_count,
                    mode: None,
                    min_offset: None,
                    max_offset: None,
                },
            },
        }
    }

    /// Terminal unsubscription.
    pub fn unsubscribe(session_id: &str) -> (m: Self)
        ensures
            m matches Message::Terminal { message_id, expect_response, session_id: sid, token, payload, .. }
                && uuid_v4_text(message_id@) && !expect_response && sid@ == session_id@ && token@ == Seq::<char>::empty()
                && payload == (TerminalPayload { action: TerminalAction::Unsubscribe }),
    {
        Self::terminal_with(session_id, TerminalAction::Unsubscribe, false)
    }

    /// Terminal unsubscription expecting a reply.
    pub fn unsubscribe_with_response(session_id: &str) -> (m: Self)
        ensures
            m matches Message::Terminal { message_id, expect_response, session_id: sid, token, payload, .. }
                && uuid_v4_text(message_id@) && expect_response && sid@ == session_id@ && token@ == Seq::<char>::empty()
                && payload == (TerminalPayload { action: TerminalAction::Unsubscribe }),
    {
        Self::terminal_with(session_id, TerminalAction::Unsubscribe, true)
    }

    /// Unsubscription answer with a fresh id.
    pub fn unsubscribe_response(session_id: &str) -> (m: Self)
        ensures
            m matches Message::Terminal { message_id, expect_response, session_id: sid, token, payload, .. }
                && uuid_v4_text(message_id@) && !expect_response && sid@ == session_id@ && token@ == Seq::<char>::empty()
                && payload == (TerminalPayload { action: TerminalAction::UnsubscribeResponse }),
    {
        let id = generate_message_id();
        Self::unsubscribe_response_with_request_id(session_id, id.as_str())
    }

    /// Unsubscription answer carrying the request id.
    pub fn unsubscribe_response_with_request_id(session_id: &str, request_id: &str) -> (m: Self)
        ensures
            m matches Message::Terminal { message_id, expect_response, session_id: sid, token, payload, .. }
                && message_id@ == request_id@ && !expect_response && sid@ == session_id@ && token@ == Seq::<char>::empty()
                && payload == (TerminalPayload { action: TerminalAction::UnsubscribeResponse }),
    {
        Message::Terminal {
            message_id: request_id.to_owned(),
            expect_response: false,
            timestamp: current_timestamp(),
            session_id: session_id.to_owned(),
            token: String::new(),
            payload: TerminalPayload { action: TerminalAction::UnsubscribeResponse },
        }
    }

    /// Session-control message (`action` is the JSON text of the control action).
    pub fn session_control(action: RawPayload, session_id: Option<&str>) -> (m: Self)
        ensures
            m matches Message::SessionControl { message_id, expect_response, session_id: sid, token, payload, .. }
                && uuid_v4_text(message_id@) && !expect_response && token@ == Seq::<char>::empty() && payload == action
                && match session_id { Some(v) => sid matches Some(x) && x@ == v@, None => sid is None },
    {
        Message::SessionControl {
            message_id: generate_message_id(),
            expect_response: false,
            timestamp: current_timestamp(),
            session_id: opt_str(session_id),
            token: String::new(),
            payload: action,
        }
    }

    /// Session-control message expecting a reply.
    pub fn session_control_with_response(action: RawPayload, session_id: Option<&str>) -> (m: Self)
        ensures
            m matches Message::SessionControl { message_id, expect_response, session_id: sid, token, payload, .. }
                && uuid_v4_text(message_id@) && expect_response && token@ == Seq::<char>::empty() && payload == action
                && match session_id { Some(v) => sid matches Some(x) && x@ == v@, None => sid is None },
    {
        Message::SessionControl {
            message_id: generate_message_id(),
            expect_response: true,
            timestamp: current_timestamp(),
            session_id: opt_str(session_id),
            token: String::new(),
            payload: action,
        }
    }

    /// Session-configuration message.
    pub fn session_config(action: RawPayload, session_id: Option<&str>) -> (m: Self)
        ensures
            m matches Message::SessionConfig { message_id, expect_response, session_id: sid, token, payload, .. }
                && uuid_v4_text(message_id@) && !expect_response && token@ == Seq::<char>::empty() && payload == action
                && match session_id { Some(v) => sid matches Some(x) && x@ == v@, None => sid is None },
    {
        Message::SessionConfig {
            message_id: generate_message_id(),
            expect_response: false,
            timestamp: current_timestamp(),
            session_id: opt_str(session_id),
            token: String::new(),
            payload: action,
        }
    }

    /// Session-configuration message expecting a reply.
    pub fn session_config_with_response(action: RawPayload, session_id: Option<&str>) -> (m: Self)
        ensures
            m matches Message::SessionConfig { message_id, expect_response, session_id: sid, token, payload, .. }
                && uuid_v4_text(message_id@) && expect_response && token@ == Seq::<char>::empty() && payload == action
                && match session_id { Some(v) => sid matches Some(x) && x@ == v@, None => sid is None },
    {
        Message::SessionConfig {
            message_id: generate_message_id(),
            expect_response: true,
            timestamp: current_timestamp(),
            session_id: opt_str(session_id),
            token: String::new(),
            payload: action,
        }
    }

    /// Authentication message.
    pub fn auth(session_id: Option<String>, payload: RawPayload) -> (m: Self)
        ensures
            m matches Message::Auth { message_id, expect_response, session_id: sid, token, payload: p, .. }
                && uuid_v4_text(message_id@) && !expect_response && token@ == Seq::<char>::empty() && p == payload && sid == session_id,
    {
        Message::Auth {
            message_id: generate_message_id(),
            expect_response: false,
            timestamp: current_timestamp(),
            session_id,
            token: String::new(),
            payload,
        }
    }

    /// Error message without an id.
    pub fn error(code: &str, message: &str) -> (m: Self)
        ensures
            m matches Message::Error { message_id, expect_response, token, code: c, message: t, .. }
                && message_id is None && !expect_response && token@ == Seq::<char>::empty() && c@ == code@ && t@ == message@,
    {
        Message::Error {
            message_id: None,
            expect_response: false,
            timestamp: current_timestamp(),
            token: String::new(),
            code: code.to_owned(),
            message: message.to_owned(),
        }
    }

    /// Error message tied to a message id.
    pub fn error_with_id(message_id: &str, code: &str, message: &str) -> (m: Self)
        ensures
            m matches Message::Error { message_id: Some(i), expect_response, token, code: c, message: t, .. }
                && i@ == message_id@ && !expect_response && token@ == Seq::<char>::empty() && c@ == code@ && t@ == message@,
    {
        Message::Error {
            message_id: Some(message_id.to_owned()),
            expect_response: false,
            timestamp: current_timestamp(),
            token: String::new(),
            code: code.to_owned(),
            message: message.to_owned(),
        }
    }

    /// Server-closing notice.
    pub fn server_closed(reason: &str, will_reconnect: bool) -> (m: Self)
        ensures
            m matches Message::ServerClosed { reason: r, will_reconnect: w, token }
                && r@ == reason@ && w == will_reconnect && token@ == Seq::<char>::empty(),
    {
        Message::ServerClosed { reason: reason.to_owned(), will_reconnect, token: String::new() }
    }

    /// Client-disconnected notice.
    pub fn client_disconnected(device_name: &str, reason: &str) -> (m: Self)
        ensures
            m matches Message::ClientDisconnected { device_name: d, reason: r, token }
                && d@ == device_name@ && r@ == reason@ && token@ == Seq::<char>::empty(),
    {
        Message::ClientDisconnected {
            device_name: device_name.to_owned(),
            reason: reason.to_owned(),
            token: String::new(),
        }
    }

    /// Session event notice (`session` is the JSON text of the session summary).
    pub fn session_event(event_type: &str, session: RawPayload, device_name: &str) -> (m: Self)
        ensures
            m matches Message::SessionEvent { event_type: e, session: s, device_name: d, token }
                && e@ == event_type@ && s == session && d@ == device_name@ && token@ == Seq::<char>::empty(),
    {
        Message::SessionEvent {
            event_type: event_type.to_owned(),
            session,
            device_name: device_name.to_owned(),
            token: String::new(),
        }
    }

    /// Successful acknowledgement.
    pub fn ack(request_id: &str) -> (m: Self)
        ensures
            m matches Message::Ack { request_id: r, code, message, token, .. }
                && r@ == request_id@ && code == ACK_CODE_SUCCESS && message is None && token@ == Seq::<char>::empty(),
    {
        Message::Ack {
            request_id: request_id.to_owned(),
            timestamp: current_timestamp(),
            code: ACK_CODE_SUCCESS,
            message: None,
            token: String::new(),
        }
    }

    /// Failed acknowledgement.
    pub fn ack_failure(request_id: &str, code: u16, message: &str) -> (m: Self)
        ensures
            m matches Message::Ack { request_id: r, code: c, message: Some(t), token, .. }
                && r@ == request_id@ && c == code && t@ == message@ && token@ == Seq::<char>::empty(),
    {
        Message::Ack {
            request_id: request_id.to_owned(),
            timestamp: current_timestamp(),
            code,
            message: Some(message.to_owned()),
            token: String::new(),
        }
    }

    /// Data synchronisation message.
    pub fn sync_data(payload: RawPayload) -> (m: Self)
        ensures
            m matches Message::SyncData { payload: p, token, .. } && p == payload && token@ == Seq::<char>::empty(),
    {
        Message::SyncData { timestamp: current_timestamp(), payload, token: String::new() }
    }

    /// File-service control-plane message.
    pub fn file_service(payload: RawPayload) -> (m: Self)
        ensures
            m matches Message::FileService { message_id, expect_response, token, payload: p, .. }
                && uuid_v4_text(message_id@) && !expect_response && token@ == Seq::<char>::empty() && p == payload,
    {
        Message::FileService {
            message_id: generate_message_id(),
            expect_response: false,
            timestamp: current_timestamp(),
            token: String::new(),
            payload,
        }
    }

    /// The message id, if the kind has one.
    pub fn message_id(&self) -> (r: Option<&str>)
        ensures
            match r { Some(v) => message_id_of(*self) == Some(v@), None => message_id_of(*self) is None },
    {
        match self {
            Message::Terminal { message_id, .. } => Some(message_id.as_str()),
            Message::Auth { message_id, .. } => Some(message_id.as_str()),
            Message::SessionControl { message_id, .. } => Some(message_id.as_str()),
            Message::SessionConfig { message_id, .. } => Some(message_id.as_str()),
            Message::Error { message_id, .. } => match message_id {
                Some(i) => Some(i.as_str()),
                None => None,
            },
            Message::ServerClosed { .. } => None,
            Message::ClientDisconnected { .. } => None,
            Message::SessionEvent { .. } => None,
            Message::Ack { .. } => None,
            Message::SyncData { .. } => None,
            Message::FileService { message_id, .. } => Some(message_id.as_str()),
        }
    }

    /// The wire type name (always present).
    pub fn message_type(&self) -> (r: Option<&'static str>)
        ensures
            r matches Some(t) && t@ == type_name_of(*self),
    {
        match self {
            Message::Terminal { .. } => Some("terminal"),
            Message::Auth { .. } => Some("auth"),
            Message::SessionControl { .. } => Some("session_control"),
            Message::SessionConfig { .. } => Some("session_config"),
            Message::Error { .. } => Some("error"),
            Message::ServerClosed { .. } => Some("server_closed"),
            Message::ClientDisconnected { .. } => Some("client_disconnected"),
            Message::SessionEvent { .. } => Some("session_event"),
            Message::Ack { .. } => Some("ack"),
            Message::SyncData { .. } => Some("sync_data"),
            Message::FileService { .. } => Some("file_service"),
        }
    }

    /// The expect-response flag (false for kinds without one).
    pub fn expect_response(&self) -> (r: bool)
        ensures
            r == expects_reply(*self),
    {
        match self {
            Message::Terminal { expect_response, .. } => *expect_response,
            Message::Auth { expect_response, .. } => *expect_response,
            Message::SessionControl { expect_response, .. } => *expect_response,
            Message::SessionConfig { expect_response, .. } => *expect_response,
            Message::Error { expect_response, .. } => *expect_response,
            Message::ServerClosed { .. } => false,
            Message::ClientDisconnected { .. } => false,
            Message::SessionEvent { .. } => false,
            Message::Ack { .. } => false,
            Message::SyncData { .. } => false,
            Message::FileService { expect_response, .. } => *expect_response,
        }
    }

    /// The token.
    pub fn token(&self) -> (r: &str)
        ensures
            r@ == token_of(*self),
    {
        match self {
            Message::Terminal { token, .. } => token.as_str(),
            Message::Auth { token, .. } => token.as_str(),
            Message::SessionControl { token, .. } => token.as_str(),
            Message::SessionConfig { token, .. } => token.as_str(),
            Message::Error { token, .. } => token.as_str(),
            Message::ServerClosed { token, .. } => token.as_str(),
            Message::ClientDisconnected { token, .. } => token.as_str(),
            Message::SessionEvent { token, .. } => token.as_str(),
            Message::Ack { token, .. } => token.as_str(),
            Message::SyncData { token, .. } => token.as_str(),
            Message::FileService { token, .. } => token.as_str(),
        }
    }

    /// Sets the correlation id of a reply; kinds without a correlatable id are
    /// returned unchanged.
    pub fn with_request_id(self, request_id: &str) -> (m: Self)
        ensures
            correlatable(self) ==> message_id_of(m) == Some(request_id@) && same_but_id(self, m),
            !correlatable(self) ==> m == self,
    {
        match self {
            Message::Terminal { message_id, expect_response, timestamp, session_id, token, payload } => {
                Message::Terminal { message_id: request_id.to_owned(), expect_response, timestamp, session_id, token, payload }
            },
            Message::Auth { message_id, expect_response, timestamp, session_id, token, payload } => {
                Message::Auth { message_id: request_id.to_owned(), expect_response, timestamp, session_id, token, payload }
            },
            Message::SessionControl { message_id, expect_response, timestamp, session_id, token, payload } => {
                Message::SessionControl { message_id: request_id.to_owned(), expect_response, timestamp, session_id, token, payload }
            },
            Message::SessionConfig { message_id, expect_response, timestamp, session_id, token, payload } => {
                Message::SessionConfig { message_id: request_id.to_owned(), expect_response, timestamp, session_id, token, payload }
            },
            Message::Error { message_id, expect_response, timestamp, token, code, message } => {
                Message::Error { message_id: Some(request_id.to_owned()), expect_response, timestamp, token, code, message }
            },
            other => other,
        }
    }

    /// Sets the token (every kind carries one).
    pub fn with_token(self, token: &str) -> (m: Self)
        ensures
            token_of(m) == token@,
            same_but_token(self, m),
    {
        match self {
            Message::Terminal { message_id, expect_response, timestamp, session_id, payload, .. } => {
                Message::Terminal { message_id, expect_response, timestamp, session_id, token: token.to_owned(), payload }
            },
            Message::Auth { message_id, expect_response, timestamp, session_id, payload, .. } => {
                Message::Auth { message_id, expect_response, timestamp, session_id, token: token.to_owned(), payload }
            },
            Message::SessionControl { message_id, expect_response, timestamp, session_id, payload, .. } => {
                Message::SessionControl { message_id, expect_response, timestamp, session_id, token: token.to_owned(), payload }
            },
            Message::SessionConfig { message_id, expect_response, timestamp, session_id, payload, .. } => {
                Message::SessionConfig { message_id, expect_response, timestamp, session_id, token: token.to_owned(), payload }
            },
            Message::Error { message_id, expect_response, timestamp, code, message, .. } => {
                Message::Error { message_id, expect_response, timestamp, token: token.to_owned(), code, message }
            },
            Message::ServerClosed { reason, will_reconnect, .. } => {
                Message::ServerClosed { reason, will_reconnect, token: token.to_owned() }
            },
            Message::ClientDisconnected { device_name, reason, .. } => {
                Message::ClientDisconnected { device_name, reason, token: token.to_owned() }
            },
            Message::SessionEvent { event_type, session, device_name, .. } => {
                Message::SessionEvent { event_type, session, device_name, token: token.to_owned() }
            },
            Message::Ack { request_id, timestamp, code, message, .. } => {
                Message::Ack { request_id, timestamp, code, message, token: token.to_owned() }
            },
            Message::SyncData { timestamp, payload, .. } => {
                Message::SyncData { timestamp, payload, token: token.to_owned() }
            },
            Message::FileService { message_id, expect_response, timestamp, payload, .. } => {
                Message::FileService { message_id, expect_response, timestamp, token: token.to_owned(), payload }
            },
        }
    }
}

/// Law: setting the token keeps the kind, the id and the reply flag.
pub proof fn lemma_with_token_keeps_identity(a: Message, b: Message)
    requires
        same_but_token(a, b),
    ensures
        type_name_of(a) == type_name_of(b),
        message_id_of(a) == message_id_of(b),
        expects_reply(a) == expects_reply(b),
{
}

/// Law: setting the request id keeps the kind, the token and the reply flag.
pub proof fn lemma_with_request_id_keeps_rest(a: Message, b: Message)
    requires
        same_but_id(a, b),
    ensures
        type_name_of(a) == type_name_of(b),
        token_of(a) == token_of(b),
        expects_reply(a) == expects_reply(b),
{
}

} // verus!

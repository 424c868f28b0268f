//! Client route registry: maps a message kind to its handler, with a fallback.
//!
//! The registry is generic over the handler type; the host instantiates it with
//! its (asynchronous) handler objects.

use vstd::prelude::*;
use vstd::hash_map::StringHashMap;
use crate::message::Message;

verus! {

/// Route key of a message kind.
pub open spec fn route_key(m: Message) -> Seq<char> {
    match m {
        Message::Terminal { .. } => "Terminal"@,
        Message::Auth { .. } => "Auth"@,
        Message::SyncData { .. } => "SyncData"@,
        Message::ServerClosed { .. } => "ServerClosed"@,
        Message::Error { .. } => "Error"@,
        Message::Ack { .. } => "Ack"@,
        Message::SessionControl { .. } => "SessionControl"@,
        Message::SessionConfig { .. } => "SessionConfig"@,
        Message::ClientDisconnected { .. } => "ClientDisconnected"@,
        Message::SessionEvent { .. } => "SessionEvent"@,
        Message::FileService { .. } => "FileService"@,
    }
}

/// Route key of a message (its variant name).
pub fn message_type_key(msg: &Message) -> (k: &'static str)
    ensures
        k@ == route_key(*msg),
{
    match msg {
        Message::Terminal { .. } => "Terminal",
        Message::Auth { .. } => "Auth",
        Message::SyncData { .. } => "SyncData",
        Message::ServerClosed { .. } => "ServerClosed",
        Message::Error { .. } => "Error",
        Message::Ack { .. } => "Ack",
        Message::SessionControl { .. } => "SessionControl",
        Message::SessionConfig { .. } => "SessionConfig",
        Message::ClientDisconnected { .. } => "ClientDisconnected",
        Message::SessionEvent { .. } => "SessionEvent",
        Message::FileService { .. } => "FileService",
    }
}

/// A handler of routed messages. The host's handlers answer messages
/// asynchronously; what every handler states here is its name.
pub trait ClientRouteHandler {
    /// Handler name.
    fn name(&self) -> &'static str;
}

/// Route registry.
#[verifier::reject_recursive_types(H)]
pub struct ClientRouteRegistry<H> {
    handlers: StringHashMap<H>,
    fallback_handler: Option<H>,
}

impl<H> ClientRouteRegistry<H> {
    /// Registered handlers by message kind.
    pub closed spec fn routes(&self) -> Map<Seq<char>, H> {
        self.handlers@
    }

    /// The fallback handler.
    pub closed spec fn fallback_of(&self) -> Option<H> {
        self.fallback_handler
    }

    /// The handler a message kind resolves to: its own, else the fallback.
    pub open spec fn resolve(&self, key: Seq<char>) -> Option<H> {
        if self.routes().contains_key(key) { Some(self.routes()[key]) } else { self.fallback_of() }
    }

    /// Empty registry.
    pub fn new() -> (r: Self)
        ensures
            r.routes() == Map::<Seq<char>, H>::empty(),
            r.fallback_of() is None,
    {
        ClientRouteRegistry { handlers: StringHashMap::new(), fallback_handler: None }
    }

    /// Registers (or replaces) the handler of a message kind.
    pub fn route(&mut self, msg_type: &str, handler: H)
        ensures
            final(self).routes() == old(self).routes().insert(msg_type@, handler),
            final(self).fallback_of() == old(self).fallback_of(),
    {
        self.handlers.insert(msg_type.to_owned(), handler);
    }

    /// Sets the fallback handler (used when no kind matches).
    pub fn fallback(&mut self, handler: H)
        ensures
            final(self).routes() == old(self).routes(),
            final(self).fallback_of() == Some(handler),
    {
        self.fallback_handler = Some(handler);
    }

    /// The handler of a message kind, else the fallback.
    pub fn get(&self, msg_type: &str) -> (r: Option<&H>)
        ensures
            match r { Some(h) => self.resolve(msg_type@) == Some(*h), None => self.resolve(msg_type@) is None },
    {
        match self.handlers.get(msg_type) {
            Some(h) => Some(h),
            None => self.fallback_handler.as_ref(),
        }
    }
}

/// Law: a registered kind resolves to the handler registered last for it,
/// whatever the fallback.
pub proof fn lemma_route_then_get<H>(r: ClientRouteRegistry<H>, key: Seq<char>, h: H)
    requires
        r.routes().contains_key(key),
        r.routes()[key] == h,
    ensures
        r.resolve(key) == Some(h),
{
}

/// Handlers of the connection's business router.
#[derive(Debug, Clone, Copy, PartialEq, Eq)]
pub enum RouteTarget {
    /// Terminal messages.
    Terminal,
    /// Authentication messages.
    Auth,
    /// Data-synchronisation pushes.
    Sync,
    /// Server-closed, error and acknowledgement messages.
    System,
}

/// The business router a connection uses: terminal, auth and sync messages
/// to their handlers; server-closed, error and ack messages to the system
/// handler; no fallback.
pub fn build_router() -> (r: ClientRouteRegistry<RouteTarget>)
    ensures
        r.routes() == map![
            "Terminal"@ => RouteTarget::Terminal,
            "Auth"@ => RouteTarget::Auth,
            "SyncData"@ => RouteTarget::Sync,
            "ServerClosed"@ => RouteTarget::System,
            "Error"@ => RouteTarget::System,
            "Ack"@ => RouteTarget::System
        ],
        r.fallback_of() is None,
{
    let mut r = ClientRouteRegistry::new();
    r.route("Terminal", RouteTarget::Terminal);
    r.route("Auth", RouteTarget::Auth);
    r.route("SyncData", RouteTarget::Sync);
    r.route("ServerClosed", RouteTarget::System);
    r.route("Error", RouteTarget::System);
    r.route("Ack", RouteTarget::System);
    r
}

} // verus!

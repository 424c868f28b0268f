//! Verified core of the BedCode mobile host: transfer cursors, bearer-token
//! guard, transfer/intent state machines, SAF tree path handling, wire
//! message helpers and the integer image operations of the OCR pipeline.

pub mod auth;
pub mod borders;
pub mod client;
pub mod connection;
pub mod cursor;
pub mod encoding;
pub mod error;
pub mod handlers;
pub mod imgops;
pub mod listing;
pub mod mdns;
pub mod message;
pub mod migration;
pub mod notify;
pub mod ocr;
pub mod paths;
pub mod peers;
pub mod registry;
pub mod relay;
pub mod responder;
pub mod router;
pub mod saf_tree;
pub mod server;
pub mod text;
pub mod transfer;
pub mod upload_client;
pub mod upload_session;

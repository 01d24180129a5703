//! Serverless peer discovery, chat messaging and file-transfer negotiation for
//! a local network: message validation, chunk splitting and reassembly with
//! duplicate suppression, and the decisions of the transfer handshake.
//!
//! The library decides; its caller acts. Sockets, files and the notification
//! sink live with the caller, which encodes and sends what these functions
//! prepare and reports back what happened. Time is handed in as a number.
//! The few things the library asks of the machine itself (its host name, the
//! local clock for the chat log, a random number for a chunk id) come in
//! through functions whose results are promised nothing about.

pub mod limits;
pub mod error;
pub mod peer;
pub mod message;
pub mod events;
pub mod decimal;
pub mod identifiers;
pub mod buffer_pool;
pub mod chunk_store;
pub mod splitter;
pub mod delivery;
pub mod outbound;
pub mod transfer;
pub mod dispatch;
pub mod socket_manager;
pub mod chatlog;
pub mod diagnostics;

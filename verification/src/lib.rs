//! A content-addressed chat history engine.
//!
//! Messages are immutable records identified by a SHA-1 digest of their
//! canonical JSON serialization and linked to an optional parent message,
//! forming chains. A [`state::State`] holds the message store, the chat
//! metadata records, and the registry of chat titles, and offers the
//! operations a chat service needs: create a chat, post a message, apply a
//! completion, list chats, and reconstruct a transcript from a chat's head.

use vstd::prelude::*;

pub mod chat;
pub mod codec;
pub mod digest;
pub mod history;
pub mod message;
pub mod state;
pub mod store;

verus! {

/// The failure kinds of the engine.
///
/// `StorageError` and `InvalidRequest` are never produced by the in-memory
/// operations here; they belong to the same vocabulary and are reserved for
/// the surrounding persistence and transport layers, which map I/O failures
/// and malformed client input onto them before or after calling in.
#[derive(Clone, Copy, Debug, PartialEq, Eq, Structural)]
pub enum ChatError {
    /// A message or chat was looked up by an identifier that is not present.
    NotFound,
    /// Stored data cannot be interpreted; also reported when a parent walk
    /// revisits a message, which only a corrupted store can cause.
    CorruptData,
    /// The underlying medium failed to read or write.
    StorageError,
    /// A parent link during reconstruction names a missing message.
    BrokenChain,
    /// The external completion call failed or returned an unusable shape.
    CompletionFailed,
    /// Malformed client input.
    InvalidRequest,
}

} // verus!

//! The envelope/message protocol: the wire-level schema for synchronization
//! events.
//!
//! A [`SyncEnvelope`] wraps a [`SyncMessage`] together with the identity of
//! its sender: either a session or the reserved server identity.  Messages
//! are a closed tagged union; a new message kind is a deliberate protocol
//! change.  Path values are opaque relative identifiers carried as raw
//! bytes; the hub never inspects or normalizes them.

use vstd::prelude::*;
use crate::ids::Id;

verus! {

/// Who caused a file-system or storage event: a client or the server.
#[derive(Clone, Copy, PartialEq, Eq, Structural, Debug)]
pub enum SyncSource {
    Client,
    Server,
}

/// An absolute wall-clock instant: seconds and subsecond nanoseconds since
/// the epoch.  A valid instant has `nanos < 1_000_000_000`.
#[derive(Clone, Copy, PartialEq, Eq, Structural, Debug)]
pub struct Timestamp {
    pub secs: u64,
    pub nanos: u32,
}

impl Timestamp {
    /// A timestamp denotes a unique instant only when the nanosecond part
    /// stays below one second.
    pub open spec fn wf(self) -> bool {
        self.nanos < 1_000_000_000
    }
}

/// A synchronization event.  The tag tells the kind of change, the payload
/// carries the affected path and the identities involved.
#[derive(Clone, Debug, PartialEq, Eq)]
pub enum SyncMessage {
    Init { session_id: Id },
    FileCreated { path: Vec<u8>, source: SyncSource, session_id: Id, user_id: Id },
    FolderCreated { path: Vec<u8>, session_id: Id, user_id: Id },
    FileChanged { path: Vec<u8>, timestamp: Timestamp, source: SyncSource, session_id: Id, user_id: Id },
    FileDeleted { path: Vec<u8>, source: SyncSource, session_id: Id, user_id: Id },
    FolderDeleted { path: Vec<u8>, session_id: Id, user_id: Id },
    ObjectCreated { path: Vec<u8>, source: SyncSource, session_id: Id, user_id: Id },
    ObjectDeleted { path: Vec<u8>, source: SyncSource, session_id: Id, user_id: Id },
    Ping,
    Pong,
}

/// The mathematical model of a [`SyncMessage`]: paths as byte sequences.
#[verifier::ext_equal]
pub enum MessageView {
    Init { session_id: Id },
    FileCreated { path: Seq<u8>, source: SyncSource, session_id: Id, user_id: Id },
    FolderCreated { path: Seq<u8>, session_id: Id, user_id: Id },
    FileChanged { path: Seq<u8>, timestamp: Timestamp, source: SyncSource, session_id: Id, user_id: Id },
    FileDeleted { path: Seq<u8>, source: SyncSource, session_id: Id, user_id: Id },
    FolderDeleted { path: Seq<u8>, session_id: Id, user_id: Id },
    ObjectCreated { path: Seq<u8>, source: SyncSource, session_id: Id, user_id: Id },
    ObjectDeleted { path: Seq<u8>, source: SyncSource, session_id: Id, user_id: Id },
    Ping,
    Pong,
}

impl MessageView {
    /// A message is well formed when any timestamp it carries is.
    pub open spec fn wf(self) -> bool {
        match self {
            MessageView::FileChanged { timestamp, .. } => timestamp.wf(),
            _ => true,
        }
    }
}

impl View for SyncMessage {
    type V = MessageView;

    open spec fn view(&self) -> MessageView {
        match self {
            SyncMessage::Init { session_id } => (MessageView::Init { session_id: *session_id }),
            SyncMessage::FileCreated { path, source, session_id, user_id } => (MessageView::FileCreated {
                path: path@,
                source: *source,
                session_id: *session_id,
                user_id: *user_id,
            }),
            SyncMessage::FolderCreated { path, session_id, user_id } => (MessageView::FolderCreated {
                path: path@,
                session_id: *session_id,
                user_id: *user_id,
            }),
            SyncMessage::FileChanged { path, timestamp, source, session_id, user_id } => (MessageView::FileChanged {
                path: path@,
                timestamp: *timestamp,
                source: *source,
                session_id: *session_id,
                user_id: *user_id,
            }),
            SyncMessage::FileDeleted { path, source, session_id, user_id } => (MessageView::FileDeleted {
                path: path@,
                source: *source,
                session_id: *session_id,
                user_id: *user_id,
            }),
            SyncMessage::FolderDeleted { path, session_id, user_id } => (MessageView::FolderDeleted {
                path: path@,
                session_id: *session_id,
                user_id: *user_id,
            }),
            SyncMessage::ObjectCreated { path, source, session_id, user_id } => (MessageView::ObjectCreated {
                path: path@,
                source: *source,
                session_id: *session_id,
                user_id: *user_id,
            }),
            SyncMessage::ObjectDeleted { path, source, session_id, user_id } => (MessageView::ObjectDeleted {
                path: path@,
                source: *source,
                session_id: *session_id,
                user_id: *user_id,
            }),
            SyncMessage::Ping => MessageView::Ping,
            SyncMessage::Pong => MessageView::Pong,
        }
    }
}

/// The outer wrapper on the wire: a sender identity and a message.  The
/// sender is a session, or the reserved server identity for
/// server-authoritative events.
#[derive(Clone, Debug, PartialEq, Eq)]
pub struct SyncEnvelope {
    pub sender_id: Id,
    pub message: SyncMessage,
}

/// The mathematical model of a [`SyncEnvelope`].
#[verifier::ext_equal]
pub struct EnvelopeView {
    pub sender_id: Id,
    pub message: MessageView,
}

impl EnvelopeView {
    /// An envelope is well formed when its message is.
    pub open spec fn wf(self) -> bool {
        self.message.wf()
    }
}

impl View for SyncEnvelope {
    type V = EnvelopeView;

    open spec fn view(&self) -> EnvelopeView {
        EnvelopeView { sender_id: self.sender_id, message: self.message@ }
    }
}

} // verus!

//! A real-time synchronization hub for a font-manager service.
//!
//! Clients that belong to the same user hold persistent connections to the
//! server and are kept informed of file and object changes made by their
//! peers or by the backend itself.  The crate provides the verified core of
//! that hub: the session identifiers, the wire protocol for synchronization
//! envelopes, the registry of live sessions with its broadcast operations,
//! and the decision logic of the per-connection session handler and of the
//! server-side notification relay.  The surrounding I/O (sockets, storage,
//! database) lives outside this crate and hands plain values in and out.

pub mod auth;
pub mod codec;
pub mod database;
pub mod decode;
pub mod encode;
pub mod hub;
pub mod ids;
pub mod metadata;
pub mod numerals;
pub mod protocol;
pub mod registry;
pub mod roundtrip;
pub mod storage;

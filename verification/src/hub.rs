//! The hub's decision logic: what the per-connection session handler and
//! the server-side notification relay do to the registry.
//!
//! The surrounding connection loop lives outside this crate: it accepts
//! the connection, reads frames, writes queued payloads out, and calls in
//! here with plain values.  Opening a session registers it and enqueues
//! the `Init` envelope onto its own queue; an inbound frame is decoded
//! and, on success, relayed verbatim to every other session of the same
//! user; a relay event is wrapped under the server identity, serialized
//! once, and broadcast to all sessions.

use vstd::prelude::*;
use crate::codec::{dec_envelope, enc_envelope};
use crate::decode::{decode_envelope, DecodeError};
use crate::encode::encode_envelope;
use crate::ids::{fresh_id, Id};
use crate::protocol::{EnvelopeView, MessageView, SyncEnvelope, SyncMessage};
use crate::registry::{after_broadcast, without_id, ClientModel, Registry, SyncClient};

verus! {

/// The entry a freshly opened session adds to the registry: an open queue
/// holding only the `Init` envelope that tells the client its assigned
/// identity.
pub open spec fn fresh_client(server: Id, session_id: Id, user_id: Id) -> ClientModel {
    ClientModel {
        session_id,
        user_id,
        outbound: seq![
            enc_envelope(
                EnvelopeView { sender_id: server, message: MessageView::Init { session_id } },
            ),
        ],
        open: true,
    }
}

/// Accepts a connection under the given session identity: registers the
/// session with a new outbound queue, then immediately enqueues the
/// `Init` envelope (sender: the server identity) onto that queue, so the
/// client learns its identity before any other traffic.
pub fn open_session(reg: &mut Registry, session_id: Id, user_id: Id)
    ensures
        final(reg).server_id == old(reg).server_id,
        final(reg)@ == without_id(old(reg)@, session_id).push(
            fresh_client(old(reg).server_id, session_id, user_id),
        ),
        old(reg).wf() ==> final(reg).wf(),
{
    let env = SyncEnvelope {
        sender_id: reg.server_id,
        message: SyncMessage::Init { session_id },
    };
    let payload = encode_envelope(&env);
    let ghost pv = payload@;
    let mut outbound: Vec<Vec<u8>> = Vec::new();
    outbound.push(payload);
    let c = SyncClient { session_id, user_id, outbound, open: true };
    proof {
        assert(c@ =~= fresh_client(reg.server_id, session_id, user_id)) by {
            assert(c.outbound.deep_view() =~= seq![pv]) by {
                assert(c.outbound@[0].deep_view() =~= pv);
            }
        }
    }
    reg.register(c);
}

/// Accepts a connection, assigning it a freshly drawn session identity,
/// and returns that identity.
pub fn connect_session(reg: &mut Registry, user_id: Id) -> (sid: Id)
    ensures
        final(reg).server_id == old(reg).server_id,
        final(reg)@ == without_id(old(reg)@, sid).push(
            fresh_client(old(reg).server_id, sid, user_id),
        ),
        old(reg).wf() ==> final(reg).wf(),
{
    let sid = fresh_id();
    open_session(reg, sid, user_id);
    sid
}

/// One inbound frame of a session owned by `user_id`: the payload is
/// decoded, and on success the raw bytes are relayed verbatim — not
/// re-encoded — to every other session of the same user, excluding the
/// envelope's sender and the reserved server identity.  A malformed
/// payload is rejected and dropped: the registry is untouched and the
/// session stays open.
pub fn handle_incoming(reg: &mut Registry, user_id: Id, raw: &Vec<u8>) -> (r: Result<
    (),
    DecodeError,
>)
    ensures
        final(reg).server_id == old(reg).server_id,
        (match dec_envelope(raw@) {
            Some(env) => r is Ok && final(reg)@ == after_broadcast(
                old(reg)@,
                Some(user_id),
                Some(env.sender_id),
                old(reg).server_id,
                raw@,
            ),
            None => r is Err && final(reg)@ == old(reg)@,
        }),
        old(reg).wf() ==> final(reg).wf(),
{
    match decode_envelope(raw.as_slice()) {
        Ok(env) => {
            reg.broadcast_to_user(user_id, env.sender_id, raw);
            Ok(())
        },
        Err(e) => Err(e),
    }
}

/// One event of the notification relay: wrap it in an envelope whose
/// sender is the reserved server identity, serialize it once, and
/// broadcast it to every session regardless of user.  The server identity
/// itself never receives it.
pub fn notify_broadcast(reg: &mut Registry, message: SyncMessage)
    ensures
        final(reg).server_id == old(reg).server_id,
        final(reg)@ == after_broadcast(
            old(reg)@,
            None,
            None,
            old(reg).server_id,
            enc_envelope(EnvelopeView { sender_id: old(reg).server_id, message: message@ }),
        ),
        old(reg).wf() ==> final(reg).wf(),
{
    let ghost srv = reg.server_id;
    let ghost mv = message@;
    let env = SyncEnvelope { sender_id: reg.server_id, message };
    let payload = encode_envelope(&env);
    proof {
        assert(env@ =~= (EnvelopeView { sender_id: srv, message: mv }));
    }
    reg.broadcast_all(None, &payload);
}

} // verus!

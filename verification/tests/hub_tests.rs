use fontsync::decode::decode_envelope;
use fontsync::encode::encode_envelope;
use fontsync::hub::{handle_incoming, notify_broadcast, open_session};
use fontsync::ids::Id;
use fontsync::protocol::{SyncEnvelope, SyncMessage, SyncSource, Timestamp};
use fontsync::registry::{Registry, SyncClient};

const SERVER: u128 = 0xffffffffffffffffffffffffffffffff;
const U1: u128 = 0x11;
const U2: u128 = 0x22;
const A: u128 = 0xaa;
const B: u128 = 0xbb;
const C: u128 = 0xcc;

fn client_of(reg: &Registry, id: Id) -> &SyncClient {
    reg.clients
        .iter()
        .find(|c| c.session_id == id)
        .expect("session must be registered")
}

#[test]
fn open_session_enqueues_init() {
    let mut reg = Registry::new(Id(SERVER));
    open_session(&mut reg, Id(A), Id(U1));
    assert_eq!(reg.clients.len(), 1);
    let a = client_of(&reg, Id(A));
    assert_eq!(a.user_id, Id(U1));
    assert!(a.open);
    assert_eq!(a.outbound.len(), 1);
    let init = decode_envelope(&a.outbound[0]).expect("the queued Init envelope decodes");
    assert_eq!(init.sender_id, Id(SERVER));
    assert_eq!(init.message, SyncMessage::Init { session_id: Id(A) });
}

#[test]
fn registry_never_holds_two_entries_per_session() {
    let mut reg = Registry::new(Id(SERVER));
    open_session(&mut reg, Id(A), Id(U1));
    open_session(&mut reg, Id(A), Id(U2));
    assert_eq!(reg.clients.len(), 1);
    assert_eq!(client_of(&reg, Id(A)).user_id, Id(U2));
    reg.unregister(Id(B));
    assert_eq!(reg.clients.len(), 1);
    reg.unregister(Id(A));
    assert_eq!(reg.clients.len(), 0);
    reg.unregister(Id(A));
    assert_eq!(reg.clients.len(), 0);
}

#[test]
fn relay_reaches_peer_and_skips_sender() {
    let mut reg = Registry::new(Id(SERVER));
    open_session(&mut reg, Id(A), Id(U1));
    open_session(&mut reg, Id(B), Id(U1));
    let env = SyncEnvelope {
        sender_id: Id(A),
        message: SyncMessage::FileChanged {
            path: b"x.ttf".to_vec(),
            timestamp: Timestamp { secs: 1, nanos: 0 },
            source: SyncSource::Client,
            session_id: Id(A),
            user_id: Id(U1),
        },
    };
    let raw = encode_envelope(&env);
    handle_incoming(&mut reg, Id(U1), &raw).expect("a well-formed envelope is relayed");
    let a = client_of(&reg, Id(A));
    let b = client_of(&reg, Id(B));
    assert_eq!(a.outbound.len(), 1, "the sender gets nothing back");
    assert_eq!(b.outbound.len(), 2, "the peer gets exactly one envelope");
    assert_eq!(b.outbound[1], raw, "the raw payload is relayed verbatim");
    let relayed = decode_envelope(&b.outbound[1]).unwrap();
    assert_eq!(relayed.sender_id, Id(A));
}

#[test]
fn relay_respects_user_partition() {
    let mut reg = Registry::new(Id(SERVER));
    open_session(&mut reg, Id(A), Id(U1));
    open_session(&mut reg, Id(B), Id(U2));
    let env = SyncEnvelope { sender_id: Id(A), message: SyncMessage::Ping };
    let raw = encode_envelope(&env);
    handle_incoming(&mut reg, Id(U1), &raw).unwrap();
    assert_eq!(client_of(&reg, Id(B)).outbound.len(), 1, "another user's session sees nothing");
}

#[test]
fn notify_reaches_all_users_with_server_sender() {
    let mut reg = Registry::new(Id(SERVER));
    open_session(&mut reg, Id(A), Id(U1));
    open_session(&mut reg, Id(B), Id(U2));
    notify_broadcast(
        &mut reg,
        SyncMessage::ObjectCreated {
            path: b"a/b.ttf".to_vec(),
            source: SyncSource::Server,
            session_id: Id(0),
            user_id: Id(0),
        },
    );
    for id in [Id(A), Id(B)] {
        let c = client_of(&reg, id);
        assert_eq!(c.outbound.len(), 2);
        let env = decode_envelope(&c.outbound[1]).unwrap();
        assert_eq!(env.sender_id, Id(SERVER));
        match env.message {
            SyncMessage::ObjectCreated { path, source, .. } => {
                assert_eq!(path, b"a/b.ttf".to_vec());
                assert_eq!(source, SyncSource::Server);
            }
            other => panic!("wrong variant: {:?}", other),
        }
    }
}

#[test]
fn server_identity_never_receives() {
    let mut reg = Registry::new(Id(SERVER));
    // A stale entry under the server identity: even then no broadcast
    // reaches it.
    open_session(&mut reg, Id(SERVER), Id(U1));
    open_session(&mut reg, Id(A), Id(U1));
    notify_broadcast(&mut reg, SyncMessage::Ping);
    assert_eq!(client_of(&reg, Id(SERVER)).outbound.len(), 1, "only its own Init");
    assert_eq!(client_of(&reg, Id(A)).outbound.len(), 2);
}

#[test]
fn dead_recipient_pruned_and_others_still_served() {
    let mut reg = Registry::new(Id(SERVER));
    open_session(&mut reg, Id(A), Id(U1));
    open_session(&mut reg, Id(B), Id(U1));
    open_session(&mut reg, Id(C), Id(U1));
    reg.close(Id(C));
    let raw = encode_envelope(&SyncEnvelope { sender_id: Id(A), message: SyncMessage::Ping });
    handle_incoming(&mut reg, Id(U1), &raw).unwrap();
    assert_eq!(reg.clients.len(), 2, "the dead session is evicted");
    assert!(reg.clients.iter().all(|c| c.session_id != Id(C)));
    assert_eq!(client_of(&reg, Id(B)).outbound.len(), 2, "the live peer still received it");
    // A later broadcast to the same user succeeds for the remaining
    // sessions.
    let raw2 = encode_envelope(&SyncEnvelope { sender_id: Id(B), message: SyncMessage::Pong });
    handle_incoming(&mut reg, Id(U1), &raw2).unwrap();
    assert_eq!(reg.clients.len(), 2);
    assert_eq!(client_of(&reg, Id(A)).outbound.len(), 2);
}

#[test]
fn malformed_frame_keeps_session_alive() {
    let mut reg = Registry::new(Id(SERVER));
    open_session(&mut reg, Id(A), Id(U1));
    open_session(&mut reg, Id(B), Id(U1));
    let garbage = b"{\"senderId\":oops".to_vec();
    assert!(handle_incoming(&mut reg, Id(U1), &garbage).is_err());
    assert_eq!(reg.clients.len(), 2, "the registry is untouched");
    assert_eq!(client_of(&reg, Id(A)).outbound.len(), 1);
    assert_eq!(client_of(&reg, Id(B)).outbound.len(), 1);
    // A subsequent valid Ping is still processed normally.
    let raw = encode_envelope(&SyncEnvelope { sender_id: Id(A), message: SyncMessage::Ping });
    handle_incoming(&mut reg, Id(U1), &raw).unwrap();
    assert_eq!(client_of(&reg, Id(B)).outbound.len(), 2);
}

#[test]
fn broadcast_all_can_exclude_trigger() {
    let mut reg = Registry::new(Id(SERVER));
    open_session(&mut reg, Id(A), Id(U1));
    open_session(&mut reg, Id(B), Id(U2));
    let payload = b"note".to_vec();
    reg.broadcast_all(Some(Id(A)), &payload);
    assert_eq!(client_of(&reg, Id(A)).outbound.len(), 1);
    let b = client_of(&reg, Id(B));
    assert_eq!(b.outbound.len(), 2);
    assert_eq!(b.outbound[1], payload);
}

#[test]
fn connect_session_registers_fresh_identity() {
    let mut reg = Registry::new(Id(SERVER));
    let sid = fontsync::hub::connect_session(&mut reg, Id(U1));
    assert_eq!(reg.clients.len(), 1);
    let c = client_of(&reg, sid);
    assert_eq!(c.user_id, Id(U1));
    assert_eq!(c.outbound.len(), 1);
    let init = decode_envelope(&c.outbound[0]).unwrap();
    assert_eq!(init.message, SyncMessage::Init { session_id: sid });
    let sid2 = fontsync::hub::connect_session(&mut reg, Id(U2));
    assert_eq!(reg.clients.len(), 2, "two connections, two sessions");
    assert_ne!(sid, sid2, "fresh identities");
}

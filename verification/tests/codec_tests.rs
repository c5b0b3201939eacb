use fontsync::decode::decode_envelope;
use fontsync::encode::encode_envelope;
use fontsync::ids::Id;
use fontsync::protocol::{SyncEnvelope, SyncMessage, SyncSource, Timestamp};

const A: u128 = 0x123e4567e89b12d3a456426614174000;
const U: u128 = 0x00000000000000000000000000000001;

fn roundtrip(env: &SyncEnvelope) {
    let bytes = encode_envelope(env);
    let back = decode_envelope(&bytes).expect("well-formed envelope must decode");
    assert_eq!(&back, env);
}

#[test]
fn ping_exact_bytes() {
    let env = SyncEnvelope { sender_id: Id(A), message: SyncMessage::Ping };
    let bytes = encode_envelope(&env);
    let expected =
        "{\"senderId\":\"123e4567-e89b-12d3-a456-426614174000\",\"message\":{\"type\":\"Ping\"}}";
    assert_eq!(bytes, expected.as_bytes().to_vec());
}

#[test]
fn init_exact_bytes() {
    let env = SyncEnvelope { sender_id: Id(A), message: SyncMessage::Init { session_id: Id(U) } };
    let bytes = encode_envelope(&env);
    let expected = "{\"senderId\":\"123e4567-e89b-12d3-a456-426614174000\",\"message\":{\"type\":\"Init\",\"data\":{\"sessionId\":\"00000000-0000-0000-0000-000000000001\"}}}";
    assert_eq!(bytes, expected.as_bytes().to_vec());
}

#[test]
fn file_changed_exact_bytes() {
    let env = SyncEnvelope {
        sender_id: Id(A),
        message: SyncMessage::FileChanged {
            path: b"x.ttf".to_vec(),
            timestamp: Timestamp { secs: 42, nanos: 7 },
            source: SyncSource::Client,
            session_id: Id(A),
            user_id: Id(U),
        },
    };
    let bytes = encode_envelope(&env);
    let mut expected = String::new();
    expected.push_str("{\"senderId\":\"123e4567-e89b-12d3-a456-426614174000\",\"message\":");
    expected.push_str("{\"type\":\"FileChanged\",\"data\":{\"path\":\"x.ttf\",");
    expected.push_str("\"timestamp\":{\"secs_since_epoch\":42,\"nanos_since_epoch\":7},");
    expected.push_str("\"source\":\"Client\",");
    expected.push_str("\"sessionId\":\"123e4567-e89b-12d3-a456-426614174000\",");
    expected.push_str("\"userId\":\"00000000-0000-0000-0000-000000000001\"}}}");
    assert_eq!(bytes, expected.as_bytes().to_vec());
}

#[test]
fn roundtrip_every_variant() {
    let path = b"fonts/sub dir/x.ttf".to_vec();
    let msgs = vec![
        SyncMessage::Init { session_id: Id(A) },
        SyncMessage::FileCreated {
            path: path.clone(),
            source: SyncSource::Client,
            session_id: Id(A),
            user_id: Id(U),
        },
        SyncMessage::FolderCreated { path: path.clone(), session_id: Id(A), user_id: Id(U) },
        SyncMessage::FileChanged {
            path: path.clone(),
            timestamp: Timestamp { secs: u64::MAX, nanos: 999_999_999 },
            source: SyncSource::Server,
            session_id: Id(A),
            user_id: Id(U),
        },
        SyncMessage::FileDeleted {
            path: path.clone(),
            source: SyncSource::Server,
            session_id: Id(A),
            user_id: Id(U),
        },
        SyncMessage::FolderDeleted { path: path.clone(), session_id: Id(A), user_id: Id(U) },
        SyncMessage::ObjectCreated {
            path: path.clone(),
            source: SyncSource::Server,
            session_id: Id(A),
            user_id: Id(U),
        },
        SyncMessage::ObjectDeleted {
            path: path.clone(),
            source: SyncSource::Client,
            session_id: Id(A),
            user_id: Id(U),
        },
        SyncMessage::Ping,
        SyncMessage::Pong,
    ];
    for message in msgs {
        roundtrip(&SyncEnvelope { sender_id: Id(A), message });
    }
}

#[test]
fn roundtrip_escaped_path() {
    let path = vec![0x22, 0x5c, 0x0a, 0x00, 0x1f, b'A', 0xc3, 0xa9];
    let env = SyncEnvelope {
        sender_id: Id(0),
        message: SyncMessage::FileCreated {
            path,
            source: SyncSource::Client,
            session_id: Id(1),
            user_id: Id(2),
        },
    };
    roundtrip(&env);
}

#[test]
fn escaped_path_exact_bytes() {
    let env = SyncEnvelope {
        sender_id: Id(0),
        message: SyncMessage::FolderCreated {
            path: vec![0x22, 0x5c, 0x0a, b'A'],
            session_id: Id(0),
            user_id: Id(0),
        },
    };
    let bytes = encode_envelope(&env);
    let nil = "00000000-0000-0000-0000-000000000000";
    let expected = format!(
        "{{\"senderId\":\"{}\",\"message\":{{\"type\":\"FolderCreated\",\"data\":{{\"path\":\"\\\"\\\\\\u000aA\",\"sessionId\":\"{}\",\"userId\":\"{}\"}}}}}}",
        nil, nil, nil
    );
    assert_eq!(bytes, expected.as_bytes().to_vec());
}

#[test]
fn uppercase_identity_accepted() {
    let wire =
        "{\"senderId\":\"123E4567-E89B-12D3-A456-426614174000\",\"message\":{\"type\":\"Pong\"}}";
    let env = decode_envelope(wire.as_bytes()).expect("uppercase hex digits are identities too");
    assert_eq!(env.sender_id, Id(A));
    assert_eq!(env.message, SyncMessage::Pong);
}

#[test]
fn malformed_payloads_rejected() {
    let nil = "00000000-0000-0000-0000-000000000000";
    let bad: Vec<String> = vec![
        String::new(),
        "{}".to_string(),
        "not json at all".to_string(),
        format!("{{\"senderId\":\"{}\",\"message\":{{\"type\":\"Pang\"}}}}", nil),
        format!("{{\"senderId\":\"{}\",\"message\":{{\"type\":\"Ping\"}}", nil),
        format!("{{\"senderId\":\"{}\",\"message\":{{\"type\":\"Ping\"}}}} ", nil),
        format!("{{\"senderId\":\"{}x\",\"message\":{{\"type\":\"Ping\"}}}}", nil),
        "{\"senderId\":\"0000\",\"message\":{\"type\":\"Ping\"}}".to_string(),
    ];
    for s in bad {
        assert!(decode_envelope(s.as_bytes()).is_err(), "accepted: {}", s);
    }
}

#[test]
fn nanos_bounds_enforced() {
    let nil = "00000000-0000-0000-0000-000000000000";
    let wire_of = |nanos: &str| {
        format!(
            "{{\"senderId\":\"{}\",\"message\":{{\"type\":\"FileChanged\",\"data\":{{\"path\":\"p\",\"timestamp\":{{\"secs_since_epoch\":5,\"nanos_since_epoch\":{}}},\"source\":\"Client\",\"sessionId\":\"{}\",\"userId\":\"{}\"}}}}}}",
            nil, nanos, nil, nil
        )
    };
    let ok = decode_envelope(wire_of("999999999").as_bytes()).expect("maximal nanos decode");
    match ok.message {
        SyncMessage::FileChanged { timestamp, .. } => {
            assert_eq!(timestamp, Timestamp { secs: 5, nanos: 999_999_999 });
        }
        other => panic!("wrong variant: {:?}", other),
    }
    assert!(decode_envelope(wire_of("1000000000").as_bytes()).is_err());
    assert!(decode_envelope(wire_of("18446744073709551616").as_bytes()).is_err());
}

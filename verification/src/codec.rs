//! The wire format of synchronization envelopes, as mathematical functions.
//!
//! An envelope travels as one JSON object,
//! `{"senderId":"<id>","message":{"type":<tag>,"data":<payload>}}`:
//! identities as hyphenated lowercase hexadecimal strings, paths as JSON
//! strings with `\"`, `\\` and `\u00XX` escapes, timestamps as seconds and
//! nanoseconds since the epoch.  `enc_envelope` gives the exact byte
//! sequence written for an envelope; `dec_envelope` gives the envelope an
//! incoming byte sequence denotes, or nothing when it is malformed.  The
//! executable encoder and decoder in `crate::encode` and `crate::decode`
//! are verified against these functions, and `crate::roundtrip` proves
//! that decoding an encoded envelope gives the envelope back.

use vstd::prelude::*;
use crate::ids::Id;
use crate::numerals::{dec_digits, dec_num, hex_digit_char, hex_digits, hex_seq_val, hex_val,
    is_hex};
use crate::protocol::{EnvelopeView, MessageView, SyncSource, Timestamp};

verus! {

/// `{"senderId":"`
pub open spec fn lit_env_open() -> Seq<u8> {
    seq![123u8, 34u8, 115u8, 101u8, 110u8, 100u8, 101u8, 114u8, 73u8, 100u8, 34u8, 58u8, 34u8]
}

/// `","message":`
pub open spec fn lit_env_msg() -> Seq<u8> {
    seq![34u8, 44u8, 34u8, 109u8, 101u8, 115u8, 115u8, 97u8, 103u8, 101u8, 34u8, 58u8]
}

/// `{"type":"`
pub open spec fn lit_msg_open() -> Seq<u8> {
    seq![123u8, 34u8, 116u8, 121u8, 112u8, 101u8, 34u8, 58u8, 34u8]
}

/// `","data":{"sessionId":"`
pub open spec fn lit_init_rest() -> Seq<u8> {
    seq![34u8, 44u8, 34u8, 100u8, 97u8, 116u8, 97u8, 34u8, 58u8, 123u8, 34u8, 115u8, 101u8,
        115u8, 115u8, 105u8, 111u8, 110u8, 73u8, 100u8, 34u8, 58u8, 34u8]
}

/// `","data":{"path":"`
pub open spec fn lit_data_path() -> Seq<u8> {
    seq![34u8, 44u8, 34u8, 100u8, 97u8, 116u8, 97u8, 34u8, 58u8, 123u8, 34u8, 112u8, 97u8,
        116u8, 104u8, 34u8, 58u8, 34u8]
}

/// `,"source":`
pub open spec fn lit_comma_source() -> Seq<u8> {
    seq![44u8, 34u8, 115u8, 111u8, 117u8, 114u8, 99u8, 101u8, 34u8, 58u8]
}

/// `,"sessionId":"`
pub open spec fn lit_comma_session() -> Seq<u8> {
    seq![44u8, 34u8, 115u8, 101u8, 115u8, 115u8, 105u8, 111u8, 110u8, 73u8, 100u8, 34u8, 58u8,
        34u8]
}

/// `","userId":"`
pub open spec fn lit_quote_user() -> Seq<u8> {
    seq![34u8, 44u8, 34u8, 117u8, 115u8, 101u8, 114u8, 73u8, 100u8, 34u8, 58u8, 34u8]
}

/// `"}}`
pub open spec fn lit_close_data() -> Seq<u8> {
    seq![34u8, 125u8, 125u8]
}

/// `,"timestamp":{"secs_since_epoch":`
pub open spec fn lit_ts_open() -> Seq<u8> {
    seq![44u8, 34u8, 116u8, 105u8, 109u8, 101u8, 115u8, 116u8, 97u8, 109u8, 112u8, 34u8, 58u8,
        123u8, 34u8, 115u8, 101u8, 99u8, 115u8, 95u8, 115u8, 105u8, 110u8, 99u8, 101u8, 95u8,
        101u8, 112u8, 111u8, 99u8, 104u8, 34u8, 58u8]
}

/// `,"nanos_since_epoch":`
pub open spec fn lit_nanos() -> Seq<u8> {
    seq![44u8, 34u8, 110u8, 97u8, 110u8, 111u8, 115u8, 95u8, 115u8, 105u8, 110u8, 99u8, 101u8,
        95u8, 101u8, 112u8, 111u8, 99u8, 104u8, 34u8, 58u8]
}

/// `},"source":`
pub open spec fn lit_ts_close() -> Seq<u8> {
    seq![125u8, 44u8, 34u8, 115u8, 111u8, 117u8, 114u8, 99u8, 101u8, 34u8, 58u8]
}

/// `"Client"`
pub open spec fn lit_client() -> Seq<u8> {
    seq![34u8, 67u8, 108u8, 105u8, 101u8, 110u8, 116u8, 34u8]
}

/// `"Server"`
pub open spec fn lit_server() -> Seq<u8> {
    seq![34u8, 83u8, 101u8, 114u8, 118u8, 101u8, 114u8, 34u8]
}

/// `"}`
pub open spec fn lit_unit_close() -> Seq<u8> {
    seq![34u8, 125u8]
}

/// `Init`
pub open spec fn tag_init() -> Seq<u8> {
    seq![73u8, 110u8, 105u8, 116u8]
}

/// `FileCreated`
pub open spec fn tag_file_created() -> Seq<u8> {
    seq![70u8, 105u8, 108u8, 101u8, 67u8, 114u8, 101u8, 97u8, 116u8, 101u8, 100u8]
}

/// `FolderCreated`
pub open spec fn tag_folder_created() -> Seq<u8> {
    seq![70u8, 111u8, 108u8, 100u8, 101u8, 114u8, 67u8, 114u8, 101u8, 97u8, 116u8, 101u8, 100u8]
}

/// `FileChanged`
pub open spec fn tag_file_changed() -> Seq<u8> {
    seq![70u8, 105u8, 108u8, 101u8, 67u8, 104u8, 97u8, 110u8, 103u8, 101u8, 100u8]
}

/// `FileDeleted`
pub open spec fn tag_file_deleted() -> Seq<u8> {
    seq![70u8, 105u8, 108u8, 101u8, 68u8, 101u8, 108u8, 101u8, 116u8, 101u8, 100u8]
}

/// `FolderDeleted`
pub open spec fn tag_folder_deleted() -> Seq<u8> {
    seq![70u8, 111u8, 108u8, 100u8, 101u8, 114u8, 68u8, 101u8, 108u8, 101u8, 116u8, 101u8, 100u8]
}

/// `ObjectCreated`
pub open spec fn tag_object_created() -> Seq<u8> {
    seq![79u8, 98u8, 106u8, 101u8, 99u8, 116u8, 67u8, 114u8, 101u8, 97u8, 116u8, 101u8, 100u8]
}

/// `ObjectDeleted`
pub open spec fn tag_object_deleted() -> Seq<u8> {
    seq![79u8, 98u8, 106u8, 101u8, 99u8, 116u8, 68u8, 101u8, 108u8, 101u8, 116u8, 101u8, 100u8]
}

/// `Ping`
pub open spec fn tag_ping() -> Seq<u8> {
    seq![80u8, 105u8, 110u8, 103u8]
}

/// `Pong`
pub open spec fn tag_pong() -> Seq<u8> {
    seq![80u8, 111u8, 110u8, 103u8]
}

/// An identity as its hyphenated lowercase hexadecimal string of 36 bytes.
pub open spec fn enc_id(id: Id) -> Seq<u8> {
    let hd = hex_digits(id.0 as nat, 32);
    hd.subrange(0, 8) + seq![45u8] + hd.subrange(8, 12) + seq![45u8] + hd.subrange(12, 16)
        + seq![45u8] + hd.subrange(16, 20) + seq![45u8] + hd.subrange(20, 32)
}

/// How one path byte appears inside a JSON string.
pub open spec fn esc_byte(b: u8) -> Seq<u8> {
    if b == 34 {
        seq![92u8, 34u8]
    } else if b == 92 {
        seq![92u8, 92u8]
    } else if b < 32 {
        seq![92u8, 117u8, 48u8, 48u8, hex_digit_char(b / 16), hex_digit_char(b % 16)]
    } else {
        seq![b]
    }
}

/// A path as the body of a JSON string, without the surrounding quotes.
pub open spec fn enc_path(p: Seq<u8>) -> Seq<u8>
    decreases p.len(),
{
    if p.len() == 0 {
        Seq::empty()
    } else {
        esc_byte(p[0]) + enc_path(p.drop_first())
    }
}

pub open spec fn enc_source(src: SyncSource) -> Seq<u8> {
    match src {
        SyncSource::Client => lit_client(),
        SyncSource::Server => lit_server(),
    }
}

/// A timestamp as the `"timestamp"` member, from the comma that precedes
/// it through the `"source"` key that follows it.
pub open spec fn enc_timestamp(t: Timestamp) -> Seq<u8> {
    lit_ts_open() + dec_digits(t.secs as nat) + lit_nanos() + dec_digits(t.nanos as nat)
        + lit_ts_close()
}

/// The data object of a variant carrying path, source and both identities.
pub open spec fn enc_data_psu(path: Seq<u8>, source: SyncSource, sid: Id, uid: Id) -> Seq<u8> {
    lit_data_path() + enc_path(path) + seq![34u8] + lit_comma_source() + enc_source(source)
        + lit_comma_session() + enc_id(sid) + lit_quote_user() + enc_id(uid) + lit_close_data()
}

/// The data object of a variant carrying path and both identities.
pub open spec fn enc_data_pu(path: Seq<u8>, sid: Id, uid: Id) -> Seq<u8> {
    lit_data_path() + enc_path(path) + seq![34u8] + lit_comma_session() + enc_id(sid)
        + lit_quote_user() + enc_id(uid) + lit_close_data()
}

/// A message as its tagged JSON object.
pub open spec fn enc_message(m: MessageView) -> Seq<u8> {
    lit_msg_open() + match m {
        MessageView::Init { session_id } => tag_init() + lit_init_rest() + enc_id(session_id)
            + lit_close_data(),
        MessageView::FileCreated { path, source, session_id, user_id } => tag_file_created()
            + enc_data_psu(path, source, session_id, user_id),
        MessageView::FolderCreated { path, session_id, user_id } => tag_folder_created()
            + enc_data_pu(path, session_id, user_id),
        MessageView::FileChanged { path, timestamp, source, session_id, user_id } =>
            tag_file_changed() + lit_data_path() + enc_path(path) + seq![34u8]
            + enc_timestamp(timestamp) + enc_source(source) + lit_comma_session()
            + enc_id(session_id) + lit_quote_user() + enc_id(user_id) + lit_close_data(),
        MessageView::FileDeleted { path, source, session_id, user_id } => tag_file_deleted()
            + enc_data_psu(path, source, session_id, user_id),
        MessageView::FolderDeleted { path, session_id, user_id } => tag_folder_deleted()
            + enc_data_pu(path, session_id, user_id),
        MessageView::ObjectCreated { path, source, session_id, user_id } => tag_object_created()
            + enc_data_psu(path, source, session_id, user_id),
        MessageView::ObjectDeleted { path, source, session_id, user_id } => tag_object_deleted()
            + enc_data_psu(path, source, session_id, user_id),
        MessageView::Ping => tag_ping() + lit_unit_close(),
        MessageView::Pong => tag_pong() + lit_unit_close(),
    }
}

/// An envelope as the byte sequence written for it.
pub open spec fn enc_envelope(v: EnvelopeView) -> Seq<u8> {
    lit_env_open() + enc_id(v.sender_id) + lit_env_msg() + enc_message(v.message) + seq![125u8]
}

/// Reads the exact literal `lit` at position `i`.
pub open spec fn dec_lit(s: Seq<u8>, i: int, lit: Seq<u8>) -> Option<int> {
    if 0 <= i && i + lit.len() <= s.len() && s.subrange(i, i + lit.len()) == lit {
        Some(i + lit.len())
    } else {
        None
    }
}

/// Reads a hyphenated hexadecimal identity of 36 bytes at position `i`.
pub open spec fn dec_id(s: Seq<u8>, i: int) -> Option<(Id, int)> {
    if i < 0 || i + 36 > s.len() {
        None
    } else if s[i + 8] != 45 || s[i + 13] != 45 || s[i + 18] != 45 || s[i + 23] != 45 {
        None
    } else {
        let ds = s.subrange(i, i + 8) + s.subrange(i + 9, i + 13) + s.subrange(i + 14, i + 18)
            + s.subrange(i + 19, i + 23) + s.subrange(i + 24, i + 36);
        if forall|k: int| 0 <= k < 32 ==> is_hex(#[trigger] ds[k]) {
            Some((Id(hex_seq_val(ds) as u128), i + 36))
        } else {
            None
        }
    }
}

/// Reads the body of a JSON string at position `i`, through its closing
/// quote.
pub open spec fn dec_path(s: Seq<u8>, i: int) -> Option<(Seq<u8>, int)>
    decreases s.len() - i,
{
    if i < 0 || i >= s.len() {
        None
    } else if s[i] == 34 {
        Some((Seq::empty(), i + 1))
    } else if s[i] == 92 {
        if i + 1 < s.len() && (s[i + 1] == 34 || s[i + 1] == 92) {
            match dec_path(s, i + 2) {
                Some((p, j)) => Some((seq![s[i + 1]] + p, j)),
                None => None,
            }
        } else if i + 5 < s.len() && s[i + 1] == 117 && s[i + 2] == 48 && s[i + 3] == 48
            && is_hex(s[i + 4]) && is_hex(s[i + 5]) && hex_val(s[i + 4]) * 16 + hex_val(s[i + 5])
            < 32 {
            match dec_path(s, i + 6) {
                Some((p, j)) => Some((seq![(hex_val(s[i + 4]) * 16 + hex_val(s[i + 5])) as u8] + p, j)),
                None => None,
            }
        } else {
            None
        }
    } else if s[i] < 32 {
        None
    } else {
        match dec_path(s, i + 1) {
            Some((p, j)) => Some((seq![s[i]] + p, j)),
            None => None,
        }
    }
}

/// A successful string read ends after where it began and within the
/// input.
pub proof fn lemma_dec_path_bounds(s: Seq<u8>, i: int)
    ensures
        dec_path(s, i) matches Some(pj) ==> i < pj.1 <= s.len(),
    decreases s.len() - i,
{
    if 0 <= i && i < s.len() {
        if s[i] == 34 {
        } else if s[i] == 92 {
            if i + 1 < s.len() && (s[i + 1] == 34 || s[i + 1] == 92) {
                lemma_dec_path_bounds(s, i + 2);
            } else if i + 5 < s.len() && s[i + 1] == 117 && s[i + 2] == 48 && s[i + 3] == 48
                && is_hex(s[i + 4]) && is_hex(s[i + 5]) && hex_val(s[i + 4]) * 16 + hex_val(
                s[i + 5],
            ) < 32 {
                lemma_dec_path_bounds(s, i + 6);
            }
        } else if s[i] < 32 {
        } else {
            lemma_dec_path_bounds(s, i + 1);
        }
    }
}

pub open spec fn dec_source(s: Seq<u8>, i: int) -> Option<(SyncSource, int)> {
    match dec_lit(s, i, lit_client()) {
        Some(j) => Some((SyncSource::Client, j)),
        None => match dec_lit(s, i, lit_server()) {
            Some(j) => Some((SyncSource::Server, j)),
            None => None,
        },
    }
}

/// Reads a decimal numeral that fits in a `u64`.
pub open spec fn dec_u64(s: Seq<u8>, i: int) -> Option<(u64, int)> {
    match dec_num(s, i) {
        Some((v, j)) => if v < 0x10000000000000000 {
            Some((v as u64, j))
        } else {
            None
        },
        None => None,
    }
}

/// Reads a nanosecond count: a decimal numeral below one billion.
pub open spec fn dec_nanos(s: Seq<u8>, i: int) -> Option<(u32, int)> {
    match dec_num(s, i) {
        Some((v, j)) => if v < 1000000000 {
            Some((v as u32, j))
        } else {
            None
        },
        None => None,
    }
}

/// Reads the `"timestamp"` member, from the comma that precedes it through
/// the `"source"` key that follows it.
pub open spec fn dec_timestamp(s: Seq<u8>, i: int) -> Option<(Timestamp, int)> {
    match dec_lit(s, i, lit_ts_open()) {
        None => None,
        Some(j1) => match dec_u64(s, j1) {
            None => None,
            Some((secs, j2)) => match dec_lit(s, j2, lit_nanos()) {
                None => None,
                Some(j3) => match dec_nanos(s, j3) {
                    None => None,
                    Some((nanos, j4)) => match dec_lit(s, j4, lit_ts_close()) {
                        None => None,
                        Some(j5) => Some((Timestamp { secs, nanos }, j5)),
                    },
                },
            },
        },
    }
}

/// Reads the data object of a variant carrying path, source and both
/// identities.
pub open spec fn dec_data_psu(s: Seq<u8>, i: int) -> Option<((Seq<u8>, SyncSource, Id, Id), int)> {
    match dec_lit(s, i, lit_data_path()) {
        None => None,
        Some(j1) => match dec_path(s, j1) {
            None => None,
            Some((p, j2)) => match dec_lit(s, j2, lit_comma_source()) {
                None => None,
                Some(j3) => match dec_source(s, j3) {
                    None => None,
                    Some((src, j4)) => match dec_lit(s, j4, lit_comma_session()) {
                        None => None,
                        Some(j5) => match dec_id(s, j5) {
                            None => None,
                            Some((sid, j6)) => match dec_lit(s, j6, lit_quote_user()) {
                                None => None,
                                Some(j7) => match dec_id(s, j7) {
                                    None => None,
                                    Some((uid, j8)) => match dec_lit(s, j8, lit_close_data()) {
                                        None => None,
                                        Some(j9) => Some(((p, src, sid, uid), j9)),
                                    },
                                },
                            },
                        },
                    },
                },
            },
        },
    }
}

/// Reads the data object of a variant carrying path and both identities.
pub open spec fn dec_data_pu(s: Seq<u8>, i: int) -> Option<((Seq<u8>, Id, Id), int)> {
    match dec_lit(s, i, lit_data_path()) {
        None => None,
        Some(j1) => match dec_path(s, j1) {
            None => None,
            Some((p, j2)) => match dec_lit(s, j2, lit_comma_session()) {
                None => None,
                Some(j3) => match dec_id(s, j3) {
                    None => None,
                    Some((sid, j4)) => match dec_lit(s, j4, lit_quote_user()) {
                        None => None,
                        Some(j5) => match dec_id(s, j5) {
                            None => None,
                            Some((uid, j6)) => match dec_lit(s, j6, lit_close_data()) {
                                None => None,
                                Some(j7) => Some(((p, sid, uid), j7)),
                            },
                        },
                    },
                },
            },
        },
    }
}

/// Reads the data object of the `FileChanged` variant.
pub open spec fn dec_data_changed(s: Seq<u8>, i: int) -> Option<(
    (Seq<u8>, Timestamp, SyncSource, Id, Id),
    int,
)> {
    match dec_lit(s, i, lit_data_path()) {
        None => None,
        Some(j1) => match dec_path(s, j1) {
            None => None,
            Some((p, j2)) => match dec_timestamp(s, j2) {
                None => None,
                Some((ts, j3)) => match dec_source(s, j3) {
                    None => None,
                    Some((src, j4)) => match dec_lit(s, j4, lit_comma_session()) {
                        None => None,
                        Some(j5) => match dec_id(s, j5) {
                            None => None,
                            Some((sid, j6)) => match dec_lit(s, j6, lit_quote_user()) {
                                None => None,
                                Some(j7) => match dec_id(s, j7) {
                                    None => None,
                                    Some((uid, j8)) => match dec_lit(s, j8, lit_close_data()) {
                                        None => None,
                                        Some(j9) => Some(((p, ts, src, sid, uid), j9)),
                                    },
                                },
                            },
                        },
                    },
                },
            },
        },
    }
}

/// Reads the body of the `Init` variant.
pub open spec fn dec_data_init(s: Seq<u8>, i: int) -> Option<(Id, int)> {
    match dec_lit(s, i, lit_init_rest()) {
        None => None,
        Some(j1) => match dec_id(s, j1) {
            None => None,
            Some((sid, j2)) => match dec_lit(s, j2, lit_close_data()) {
                None => None,
                Some(j3) => Some((sid, j3)),
            },
        },
    }
}

/// Dispatches on the tag that stands at position `i`.
pub open spec fn dec_tagged(s: Seq<u8>, i: int) -> Option<(MessageView, int)> {
    match dec_lit(s, i, tag_init()) {
        Some(k) => match dec_data_init(s, k) {
            Some((sid, j)) => Some((MessageView::Init { session_id: sid }, j)),
            None => None,
        },
        None => match dec_lit(s, i, tag_file_created()) {
            Some(k) => match dec_data_psu(s, k) {
                Some(((p, src, sid, uid), j)) => Some((
                    MessageView::FileCreated { path: p, source: src, session_id: sid, user_id: uid },
                    j,
                )),
                None => None,
            },
            None => match dec_lit(s, i, tag_folder_created()) {
                Some(k) => match dec_data_pu(s, k) {
                    Some(((p, sid, uid), j)) => Some((
                        MessageView::FolderCreated { path: p, session_id: sid, user_id: uid },
                        j,
                    )),
                    None => None,
                },
                None => match dec_lit(s, i, tag_file_changed()) {
                    Some(k) => match dec_data_changed(s, k) {
                        Some(((p, ts, src, sid, uid), j)) => Some((
                            MessageView::FileChanged {
                                path: p,
                                timestamp: ts,
                                source: src,
                                session_id: sid,
                                user_id: uid,
                            },
                            j,
                        )),
                        None => None,
                    },
                    None => match dec_lit(s, i, tag_file_deleted()) {
                        Some(k) => match dec_data_psu(s, k) {
                            Some(((p, src, sid, uid), j)) => Some((
                                MessageView::FileDeleted {
                                    path: p,
                                    source: src,
                                    session_id: sid,
                                    user_id: uid,
                                },
                                j,
                            )),
                            None => None,
                        },
                        None => match dec_lit(s, i, tag_folder_deleted()) {
                            Some(k) => match dec_data_pu(s, k) {
                                Some(((p, sid, uid), j)) => Some((
                                    MessageView::FolderDeleted {
                                        path: p,
                                        session_id: sid,
                                        user_id: uid,
                                    },
                                    j,
                                )),
                                None => None,
                            },
                            None => match dec_lit(s, i, tag_object_created()) {
                                Some(k) => match dec_data_psu(s, k) {
                                    Some(((p, src, sid, uid), j)) => Some((
                                        MessageView::ObjectCreated {
                                            path: p,
                                            source: src,
                                            session_id: sid,
                                            user_id: uid,
                                        },
                                        j,
                                    )),
                                    None => None,
                                },
                                None => match dec_lit(s, i, tag_object_deleted()) {
                                    Some(k) => match dec_data_psu(s, k) {
                                        Some(((p, src, sid, uid), j)) => Some((
                                            MessageView::ObjectDeleted {
                                                path: p,
                                                source: src,
                                                session_id: sid,
                                                user_id: uid,
                                            },
                                            j,
                                        )),
                                        None => None,
                                    },
                                    None => match dec_lit(s, i, tag_ping()) {
                                        Some(k) => match dec_lit(s, k, lit_unit_close()) {
                                            Some(j) => Some((MessageView::Ping, j)),
                                            None => None,
                                        },
                                        None => match dec_lit(s, i, tag_pong()) {
                                            Some(k) => match dec_lit(s, k, lit_unit_close()) {
                                                Some(j) => Some((MessageView::Pong, j)),
                                                None => None,
                                            },
                                            None => None,
                                        },
                                    },
                                },
                            },
                        },
                    },
                },
            },
        },
    }
}

/// Reads a message object at position `i`.
pub open spec fn dec_message(s: Seq<u8>, i: int) -> Option<(MessageView, int)> {
    match dec_lit(s, i, lit_msg_open()) {
        None => None,
        Some(j) => dec_tagged(s, j),
    }
}

/// The envelope a byte sequence denotes: the whole sequence must be one
/// well-formed envelope object.
pub open spec fn dec_envelope(s: Seq<u8>) -> Option<EnvelopeView> {
    match dec_lit(s, 0, lit_env_open()) {
        None => None,
        Some(j1) => match dec_id(s, j1) {
            None => None,
            Some((sender, j2)) => match dec_lit(s, j2, lit_env_msg()) {
                None => None,
                Some(j3) => match dec_message(s, j3) {
                    None => None,
                    Some((m, j4)) => match dec_lit(s, j4, seq![125u8]) {
                        None => None,
                        Some(j5) => if j5 == s.len() {
                            Some(EnvelopeView { sender_id: sender, message: m })
                        } else {
                            None
                        },
                    },
                },
            },
        },
    }
}

} // verus!

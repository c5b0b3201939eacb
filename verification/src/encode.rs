//! The executable encoder: writes an envelope as exactly the byte
//! sequence that `crate::codec::enc_envelope` gives.

use vstd::prelude::*;
use crate::codec::{enc_data_psu, enc_data_pu, enc_envelope, enc_id, enc_message, enc_path,
    enc_source, enc_timestamp, esc_byte, lit_client, lit_close_data, lit_comma_session,
    lit_comma_source, lit_data_path, lit_env_msg, lit_env_open, lit_init_rest, lit_msg_open,
    lit_nanos, lit_quote_user, lit_server, lit_ts_close, lit_ts_open, lit_unit_close, tag_file_changed,
    tag_file_created, tag_file_deleted, tag_folder_created, tag_folder_deleted, tag_init,
    tag_object_created, tag_object_deleted, tag_ping, tag_pong};
use crate::ids::Id;
use crate::numerals::{dec_digits, hex_digits, lemma_hex_digits_len, push_dec_digits,
    push_hex_digits};
use crate::protocol::{SyncEnvelope, SyncMessage, SyncSource, Timestamp};

verus! {

/// Appends every byte of `s` to `out`.
fn push_bytes(out: &mut Vec<u8>, s: &[u8])
    ensures
        final(out)@ == old(out)@ + s@,
{
    let mut k: usize = 0;
    while k < s.len()
        invariant
            k <= s@.len(),
            out@ == old(out)@ + s@.take(k as int),
        decreases s@.len() - k,
    {
        out.push(s[k]);
        proof {
            assert(s@.take(k + 1) =~= s@.take(k as int).push(s@[k as int]));
        }
        k += 1;
    }
    proof {
        assert(s@.take(s@.len() as int) =~= s@);
    }
}

fn push_lit_env_open(out: &mut Vec<u8>)
    ensures
        final(out)@ == old(out)@ + lit_env_open(),
{
    push_bytes(out, &[123u8, 34u8, 115u8, 101u8, 110u8, 100u8, 101u8, 114u8, 73u8, 100u8, 34u8, 58u8, 34u8]);
    proof {
        assert(out@ =~= old(out)@ + lit_env_open());
    }
}

fn push_lit_env_msg(out: &mut Vec<u8>)
    ensures
        final(out)@ == old(out)@ + lit_env_msg(),
{
    push_bytes(out, &[34u8, 44u8, 34u8, 109u8, 101u8, 115u8, 115u8, 97u8, 103u8, 101u8, 34u8, 58u8]);
    proof {
        assert(out@ =~= old(out)@ + lit_env_msg());
    }
}

fn push_lit_msg_open(out: &mut Vec<u8>)
    ensures
        final(out)@ == old(out)@ + lit_msg_open(),
{
    push_bytes(out, &[123u8, 34u8, 116u8, 121u8, 112u8, 101u8, 34u8, 58u8, 34u8]);
    proof {
        assert(out@ =~= old(out)@ + lit_msg_open());
    }
}

fn push_lit_init_rest(out: &mut Vec<u8>)
    ensures
        final(out)@ == old(out)@ + lit_init_rest(),
{
    push_bytes(out, &[34u8, 44u8, 34u8, 100u8, 97u8, 116u8, 97u8, 34u8, 58u8, 123u8, 34u8, 115u8, 101u8, 115u8, 115u8, 105u8, 111u8, 110u8, 73u8, 100u8, 34u8, 58u8, 34u8]);
    proof {
        assert(out@ =~= old(out)@ + lit_init_rest());
    }
}

fn push_lit_data_path(out: &mut Vec<u8>)
    ensures
        final(out)@ == old(out)@ + lit_data_path(),
{
    push_bytes(out, &[34u8, 44u8, 34u8, 100u8, 97u8, 116u8, 97u8, 34u8, 58u8, 123u8, 34u8, 112u8, 97u8, 116u8, 104u8, 34u8, 58u8, 34u8]);
    proof {
        assert(out@ =~= old(out)@ + lit_data_path());
    }
}

fn push_lit_comma_source(out: &mut Vec<u8>)
    ensures
        final(out)@ == old(out)@ + lit_comma_source(),
{
    push_bytes(out, &[44u8, 34u8, 115u8, 111u8, 117u8, 114u8, 99u8, 101u8, 34u8, 58u8]);
    proof {
        assert(out@ =~= old(out)@ + lit_comma_source());
    }
}

fn push_lit_comma_session(out: &mut Vec<u8>)
    ensures
        final(out)@ == old(out)@ + lit_comma_session(),
{
    push_bytes(out, &[44u8, 34u8, 115u8, 101u8, 115u8, 115u8, 105u8, 111u8, 110u8, 73u8, 100u8, 34u8, 58u8, 34u8]);
    proof {
        assert(out@ =~= old(out)@ + lit_comma_session());
    }
}

fn push_lit_quote_user(out: &mut Vec<u8>)
    ensures
        final(out)@ == old(out)@ + lit_quote_user(),
{
    push_bytes(out, &[34u8, 44u8, 34u8, 117u8, 115u8, 101u8, 114u8, 73u8, 100u8, 34u8, 58u8, 34u8]);
    proof {
        assert(out@ =~= old(out)@ + lit_quote_user());
    }
}

fn push_lit_close_data(out: &mut Vec<u8>)
    ensures
        final(out)@ == old(out)@ + lit_close_data(),
{
    push_bytes(out, &[34u8, 125u8, 125u8]);
    proof {
        assert(out@ =~= old(out)@ + lit_close_data());
    }
}

fn push_lit_ts_open(out: &mut Vec<u8>)
    ensures
        final(out)@ == old(out)@ + lit_ts_open(),
{
    push_bytes(out, &[44u8, 34u8, 116u8, 105u8, 109u8, 101u8, 115u8, 116u8, 97u8, 109u8, 112u8, 34u8, 58u8, 123u8, 34u8, 115u8, 101u8, 99u8, 115u8, 95u8, 115u8, 105u8, 110u8, 99u8, 101u8, 95u8, 101u8, 112u8, 111u8, 99u8, 104u8, 34u8, 58u8]);
    proof {
        assert(out@ =~= old(out)@ + lit_ts_open());
    }
}

fn push_lit_nanos(out: &mut Vec<u8>)
    ensures
        final(out)@ == old(out)@ + lit_nanos(),
{
    push_bytes(out, &[44u8, 34u8, 110u8, 97u8, 110u8, 111u8, 115u8, 95u8, 115u8, 105u8, 110u8, 99u8, 101u8, 95u8, 101u8, 112u8, 111u8, 99u8, 104u8, 34u8, 58u8]);
    proof {
        assert(out@ =~= old(out)@ + lit_nanos());
    }
}

fn push_lit_ts_close(out: &mut Vec<u8>)
    ensures
        final(out)@ == old(out)@ + lit_ts_close(),
{
    push_bytes(out, &[125u8, 44u8, 34u8, 115u8, 111u8, 117u8, 114u8, 99u8, 101u8, 34u8, 58u8]);
    proof {
        assert(out@ =~= old(out)@ + lit_ts_close());
    }
}

fn push_lit_client(out: &mut Vec<u8>)
    ensures
        final(out)@ == old(out)@ + lit_client(),
{
    push_bytes(out, &[34u8, 67u8, 108u8, 105u8, 101u8, 110u8, 116u8, 34u8]);
    proof {
        assert(out@ =~= old(out)@ + lit_client());
    }
}

fn push_lit_server(out: &mut Vec<u8>)
    ensures
        final(out)@ == old(out)@ + lit_server(),
{
    push_bytes(out, &[34u8, 83u8, 101u8, 114u8, 118u8, 101u8, 114u8, 34u8]);
    proof {
        assert(out@ =~= old(out)@ + lit_server());
    }
}

fn push_lit_unit_close(out: &mut Vec<u8>)
    ensures
        final(out)@ == old(out)@ + lit_unit_close(),
{
    push_bytes(out, &[34u8, 125u8]);
    proof {
        assert(out@ =~= old(out)@ + lit_unit_close());
    }
}

fn push_tag_init(out: &mut Vec<u8>)
    ensures
        final(out)@ == old(out)@ + tag_init(),
{
    push_bytes(out, &[73u8, 110u8, 105u8, 116u8]);
    proof {
        assert(out@ =~= old(out)@ + tag_init());
    }
}

fn push_tag_file_created(out: &mut Vec<u8>)
    ensures
        final(out)@ == old(out)@ + tag_file_created(),
{
    push_bytes(out, &[70u8, 105u8, 108u8, 101u8, 67u8, 114u8, 101u8, 97u8, 116u8, 101u8, 100u8]);
    proof {
        assert(out@ =~= old(out)@ + tag_file_created());
    }
}

fn push_tag_folder_created(out: &mut Vec<u8>)
    ensures
        final(out)@ == old(out)@ + tag_folder_created(),
{
    push_bytes(out, &[70u8, 111u8, 108u8, 100u8, 101u8, 114u8, 67u8, 114u8, 101u8, 97u8, 116u8, 101u8, 100u8]);
    proof {
        assert(out@ =~= old(out)@ + tag_folder_created());
    }
}

fn push_tag_file_changed(out: &mut Vec<u8>)
    ensures
        final(out)@ == old(out)@ + tag_file_changed(),
{
    push_bytes(out, &[70u8, 105u8, 108u8, 101u8, 67u8, 104u8, 97u8, 110u8, 103u8, 101u8, 100u8]);
    proof {
        assert(out@ =~= old(out)@ + tag_file_changed());
    }
}

fn push_tag_file_deleted(out: &mut Vec<u8>)
    ensures
        final(out)@ == old(out)@ + tag_file_deleted(),
{
    push_bytes(out, &[70u8, 105u8, 108u8, 101u8, 68u8, 101u8, 108u8, 101u8, 116u8, 101u8, 100u8]);
    proof {
        assert(out@ =~= old(out)@ + tag_file_deleted());
    }
}

fn push_tag_folder_deleted(out: &mut Vec<u8>)
    ensures
        final(out)@ == old(out)@ + tag_folder_deleted(),
{
    push_bytes(out, &[70u8, 111u8, 108u8, 100u8, 101u8, 114u8, 68u8, 101u8, 108u8, 101u8, 116u8, 101u8, 100u8]);
    proof {
        assert(out@ =~= old(out)@ + tag_folder_deleted());
    }
}

fn push_tag_object_created(out: &mut Vec<u8>)
    ensures
        final(out)@ == old(out)@ + tag_object_created(),
{
    push_bytes(out, &[79u8, 98u8, 106u8, 101u8, 99u8, 116u8, 67u8, 114u8, 101u8, 97u8, 116u8, 101u8, 100u8]);
    proof {
        assert(out@ =~= old(out)@ + tag_object_created());
    }
}

fn push_tag_object_deleted(out: &mut Vec<u8>)
    ensures
        final(out)@ == old(out)@ + tag_object_deleted(),
{
    push_bytes(out, &[79u8, 98u8, 106u8, 101u8, 99u8, 116u8, 68u8, 101u8, 108u8, 101u8, 116u8, 101u8, 100u8]);
    proof {
        assert(out@ =~= old(out)@ + tag_object_deleted());
    }
}

fn push_tag_ping(out: &mut Vec<u8>)
    ensures
        final(out)@ == old(out)@ + tag_ping(),
{
    push_bytes(out, &[80u8, 105u8, 110u8, 103u8]);
    proof {
        assert(out@ =~= old(out)@ + tag_ping());
    }
}

fn push_tag_pong(out: &mut Vec<u8>)
    ensures
        final(out)@ == old(out)@ + tag_pong(),
{
    push_bytes(out, &[80u8, 111u8, 110u8, 103u8]);
    proof {
        assert(out@ =~= old(out)@ + tag_pong());
    }
}

/// Escaping distributes over appending one byte to the path.
pub proof fn lemma_enc_path_push(q: Seq<u8>, b: u8)
    ensures
        enc_path(q.push(b)) == enc_path(q) + esc_byte(b),
    decreases q.len(),
{
    if q.len() == 0 {
        assert(q.push(b)[0] == b);
        assert(q.push(b).drop_first() =~= Seq::<u8>::empty());
        assert(enc_path(Seq::<u8>::empty()) == Seq::<u8>::empty());
        assert(enc_path(q.push(b)) =~= enc_path(q) + esc_byte(b));
    } else {
        assert(q.push(b)[0] == q[0]);
        assert(q.push(b).drop_first() =~= q.drop_first().push(b));
        lemma_enc_path_push(q.drop_first(), b);
        assert(enc_path(q.push(b)) == esc_byte(q[0]) + (enc_path(q.drop_first()) + esc_byte(b)));
        assert(esc_byte(q[0]) + (enc_path(q.drop_first()) + esc_byte(b)) =~= (esc_byte(q[0])
            + enc_path(q.drop_first())) + esc_byte(b));
    }
}

/// Appends `src[a..b]` to `out`.
fn push_slice_range(out: &mut Vec<u8>, src: &Vec<u8>, a: usize, b: usize)
    requires
        a <= b,
        b <= src@.len(),
    ensures
        final(out)@ == old(out)@ + src@.subrange(a as int, b as int),
{
    let mut k: usize = a;
    while k < b
        invariant
            a <= k <= b <= src@.len(),
            out@ == old(out)@ + src@.subrange(a as int, k as int),
        decreases b - k,
    {
        out.push(src[k]);
        proof {
            assert(src@.subrange(a as int, k + 1) =~= src@.subrange(a as int, k as int).push(
                src@[k as int]));
        }
        k += 1;
    }
}

/// Appends the 36-byte identity string of `id` to `out`.
pub(crate) fn push_id(out: &mut Vec<u8>, id: Id)
    ensures
        final(out)@ == old(out)@ + enc_id(id),
{
    let mut hd: Vec<u8> = Vec::new();
    push_hex_digits(&mut hd, id.0, 32);
    proof {
        lemma_hex_digits_len(id.0 as nat, 32);
        assert(hd@ =~= hex_digits(id.0 as nat, 32));
    }
    push_slice_range(out, &hd, 0, 8);
    out.push(45);
    push_slice_range(out, &hd, 8, 12);
    out.push(45);
    push_slice_range(out, &hd, 12, 16);
    out.push(45);
    push_slice_range(out, &hd, 16, 20);
    out.push(45);
    push_slice_range(out, &hd, 20, 32);
    proof {
        assert(out@ =~= old(out)@ + enc_id(id));
    }
}

/// Appends the escaped form of one path byte to `out`.
fn push_esc_byte(out: &mut Vec<u8>, b: u8)
    ensures
        final(out)@ == old(out)@ + esc_byte(b),
{
    if b == 34 {
        out.push(92);
        out.push(34);
    } else if b == 92 {
        out.push(92);
        out.push(92);
    } else if b < 32 {
        out.push(92);
        out.push(117);
        out.push(48);
        out.push(48);
        let hi = b / 16;
        let lo = b % 16;
        out.push(if hi < 10 { 48 + hi } else { 87 + hi });
        out.push(if lo < 10 { 48 + lo } else { 87 + lo });
    } else {
        out.push(b);
    }
    proof {
        assert(out@ =~= old(out)@ + esc_byte(b));
    }
}

/// Appends the escaped body of a path string to `out`.
fn push_path(out: &mut Vec<u8>, p: &Vec<u8>)
    ensures
        final(out)@ == old(out)@ + enc_path(p@),
{
    let mut k: usize = 0;
    while k < p.len()
        invariant
            k <= p@.len(),
            out@ == old(out)@ + enc_path(p@.take(k as int)),
        decreases p@.len() - k,
    {
        push_esc_byte(out, p[k]);
        proof {
            assert(p@.take(k + 1) =~= p@.take(k as int).push(p@[k as int]));
            lemma_enc_path_push(p@.take(k as int), p@[k as int]);
        }
        k += 1;
    }
    proof {
        assert(p@.take(p@.len() as int) =~= p@);
    }
}

fn push_source(out: &mut Vec<u8>, src: SyncSource)
    ensures
        final(out)@ == old(out)@ + enc_source(src),
{
    match src {
        SyncSource::Client => push_lit_client(out),
        SyncSource::Server => push_lit_server(out),
    }
}

fn push_timestamp(out: &mut Vec<u8>, t: Timestamp)
    ensures
        final(out)@ == old(out)@ + enc_timestamp(t),
{
    push_lit_ts_open(out);
    push_dec_digits(out, t.secs);
    push_lit_nanos(out);
    push_dec_digits(out, t.nanos as u64);
    push_lit_ts_close(out);
    proof {
        assert(dec_digits(t.nanos as u64 as nat) == dec_digits(t.nanos as nat));
        assert(out@ =~= old(out)@ + enc_timestamp(t));
    }
}

/// Appends the data object of a variant carrying path, source and both
/// identities.
fn push_data_psu(out: &mut Vec<u8>, path: &Vec<u8>, source: SyncSource, sid: Id, uid: Id)
    ensures
        final(out)@ == old(out)@ + enc_data_psu(path@, source, sid, uid),
{
    push_lit_data_path(out);
    push_path(out, path);
    out.push(34);
    push_lit_comma_source(out);
    push_source(out, source);
    push_lit_comma_session(out);
    push_id(out, sid);
    push_lit_quote_user(out);
    push_id(out, uid);
    push_lit_close_data(out);
    proof {
        assert(out@ =~= old(out)@ + enc_data_psu(path@, source, sid, uid));
    }
}

/// Appends the data object of a variant carrying path and both identities.
fn push_data_pu(out: &mut Vec<u8>, path: &Vec<u8>, sid: Id, uid: Id)
    ensures
        final(out)@ == old(out)@ + enc_data_pu(path@, sid, uid),
{
    push_lit_data_path(out);
    push_path(out, path);
    out.push(34);
    push_lit_comma_session(out);
    push_id(out, sid);
    push_lit_quote_user(out);
    push_id(out, uid);
    push_lit_close_data(out);
    proof {
        assert(out@ =~= old(out)@ + enc_data_pu(path@, sid, uid));
    }
}

/// Appends the tagged JSON object of a message to `out`.
#[verifier::rlimit(100)]
fn push_message(out: &mut Vec<u8>, m: &SyncMessage)
    ensures
        final(out)@ == old(out)@ + enc_message(m@),
{
    push_lit_msg_open(out);
    match m {
        SyncMessage::Init { session_id } => {
            push_tag_init(out);
            push_lit_init_rest(out);
            push_id(out, *session_id);
            push_lit_close_data(out);
            proof {
                assert(out@ =~= old(out)@ + enc_message(m@));
            }
        },
        SyncMessage::FileCreated { path, source, session_id, user_id } => {
            push_tag_file_created(out);
            push_data_psu(out, path, *source, *session_id, *user_id);
            proof {
                assert(out@ =~= old(out)@ + enc_message(m@));
            }
        },
        SyncMessage::FolderCreated { path, session_id, user_id } => {
            push_tag_folder_created(out);
            push_data_pu(out, path, *session_id, *user_id);
            proof {
                assert(out@ =~= old(out)@ + enc_message(m@));
            }
        },
        SyncMessage::FileChanged { path, timestamp, source, session_id, user_id } => {
            push_tag_file_changed(out);
            push_lit_data_path(out);
            push_path(out, path);
            out.push(34);
            push_timestamp(out, *timestamp);
            push_source(out, *source);
            push_lit_comma_session(out);
            push_id(out, *session_id);
            push_lit_quote_user(out);
            push_id(out, *user_id);
            push_lit_close_data(out);
            proof {
                assert(out@ =~= old(out)@ + enc_message(m@));
            }
        },
        SyncMessage::FileDeleted { path, source, session_id, user_id } => {
            push_tag_file_deleted(out);
            push_data_psu(out, path, *source, *session_id, *user_id);
            proof {
                assert(out@ =~= old(out)@ + enc_message(m@));
            }
        },
        SyncMessage::FolderDeleted { path, session_id, user_id } => {
            push_tag_folder_deleted(out);
            push_data_pu(out, path, *session_id, *user_id);
            proof {
                assert(out@ =~= old(out)@ + enc_message(m@));
            }
        },
        SyncMessage::ObjectCreated { path, source, session_id, user_id } => {
            push_tag_object_created(out);
            push_data_psu(out, path, *source, *session_id, *user_id);
            proof {
                assert(out@ =~= old(out)@ + enc_message(m@));
            }
        },
        SyncMessage::ObjectDeleted { path, source, session_id, user_id } => {
            push_tag_object_deleted(out);
            push_data_psu(out, path, *source, *session_id, *user_id);
            proof {
                assert(out@ =~= old(out)@ + enc_message(m@));
            }
        },
        SyncMessage::Ping => {
            push_tag_ping(out);
            push_lit_unit_close(out);
            proof {
                assert(out@ =~= old(out)@ + enc_message(m@));
            }
        },
        SyncMessage::Pong => {
            push_tag_pong(out);
            push_lit_unit_close(out);
            proof {
                assert(out@ =~= old(out)@ + enc_message(m@));
            }
        },
    }
}

/// Writes an envelope as its wire bytes.  The result is exactly
/// `enc_envelope` of the envelope's model, so the decoder gives the
/// envelope back (`crate::roundtrip`).
pub fn encode_envelope(env: &SyncEnvelope) -> (r: Vec<u8>)
    ensures
        r@ == enc_envelope(env@),
{
    let mut out: Vec<u8> = Vec::new();
    push_lit_env_open(&mut out);
    push_id(&mut out, env.sender_id);
    push_lit_env_msg(&mut out);
    push_message(&mut out, &env.message);
    out.push(125);
    proof {
        assert(out@ =~= enc_envelope(env@));
    }
    out
}

} // verus!

//! Decoding an encoded envelope gives the envelope back: the wire format
//! loses nothing.
//!
//! The main result is [`lemma_decode_encode`]; together with the contracts
//! of `crate::encode::encode_envelope` and `crate::decode::decode_envelope`
//! it says that a round trip through the wire returns every well-formed
//! envelope unchanged, for every message variant and all field values.

use vstd::prelude::*;
use crate::codec::{dec_data_changed, dec_data_init, dec_data_psu, dec_data_pu, dec_envelope,
    dec_id, dec_lit, dec_message, dec_nanos, dec_path, dec_source, dec_tagged, dec_timestamp,
    dec_u64, enc_data_psu, enc_data_pu, enc_envelope, enc_id, enc_message, enc_path, enc_source,
    enc_timestamp, esc_byte, lit_client, lit_close_data, lit_comma_session, lit_comma_source,
    lit_data_path, lit_env_msg, lit_env_open, lit_init_rest, lit_msg_open, lit_nanos, lit_quote_user,
    lit_server, lit_ts_close, lit_ts_open, lit_unit_close, tag_file_changed, tag_file_created,
    tag_file_deleted, tag_folder_created, tag_folder_deleted, tag_init, tag_object_created,
    tag_object_deleted, tag_ping, tag_pong};
use crate::ids::Id;
use crate::numerals::{dec_digits, hex_digit_char, hex_digits, hex_seq_val, hex_val, is_dec, is_hex,
    lemma_dec_digits_ok, lemma_dec_num_of_digits, lemma_hex_digit_char_val,
    lemma_hex_digits_are_hex, lemma_hex_digits_len, lemma_hex_seq_val_of_digits, lemma_pow16_32};
use crate::protocol::{EnvelopeView, MessageView, SyncSource, Timestamp};

verus! {

/// A literal placed at `i` is read there.
proof fn lemma_dec_lit_at(s: Seq<u8>, i: int, lit: Seq<u8>)
    requires
        0 <= i,
        i + lit.len() <= s.len(),
        s.subrange(i, i + lit.len()) == lit,
    ensures
        dec_lit(s, i, lit) == Some(i + lit.len()),
{
}

/// A literal that differs from the input at one position is not read.
proof fn lemma_dec_lit_differs(s: Seq<u8>, i: int, lit: Seq<u8>, k: int)
    requires
        0 <= i,
        0 <= k < lit.len(),
        i + k < s.len(),
        s[i + k] != lit[k],
    ensures
        dec_lit(s, i, lit) is None,
{
    if i + lit.len() <= s.len() {
        let sub = s.subrange(i, i + lit.len());
        assert(sub[k] == s[i + k]);
    }
}

/// A piece of a sequence that is itself embedded in `s` is embedded in `s`.
proof fn lemma_embed(s: Seq<u8>, i: int, whole: Seq<u8>, off: int, part: Seq<u8>)
    requires
        0 <= i,
        i + whole.len() <= s.len(),
        s.subrange(i, i + whole.len()) == whole,
        0 <= off,
        off + part.len() <= whole.len(),
        whole.subrange(off, off + part.len()) == part,
    ensures
        s.subrange(i + off, i + off + part.len()) == part,
{
    assert(s.subrange(i + off, i + off + part.len()) =~= part) by {
        assert forall|t: int| 0 <= t < part.len() implies s.subrange(
            i + off,
            i + off + part.len(),
        )[t] == part[t] by {
            assert(s.subrange(i, i + whole.len())[off + t] == s[i + off + t]);
            assert(whole.subrange(off, off + part.len())[t] == whole[off + t]);
        }
    }
}

pub proof fn lemma_enc_id_len(id: Id)
    ensures
        enc_id(id).len() == 36,
{
    lemma_hex_digits_len(id.0 as nat, 32);
}

/// An identity written at `i` is read back as itself.
proof fn lemma_dec_enc_id(s: Seq<u8>, i: int, id: Id)
    requires
        0 <= i,
        i + 36 <= s.len(),
        s.subrange(i, i + 36) == enc_id(id),
    ensures
        dec_id(s, i) == Some((id, i + 36)),
{
    let n = id.0 as nat;
    let hd = hex_digits(n, 32);
    lemma_hex_digits_len(n, 32);
    lemma_hex_digits_are_hex(n, 32);
    let e = enc_id(id);
    let big = s.subrange(i, i + 36);
    assert(e.len() == 36);
    assert(e[8] == 45 && e[13] == 45 && e[18] == 45 && e[23] == 45);
    assert(s[i + 8] == big[8] && s[i + 13] == big[13] && s[i + 18] == big[18] && s[i + 23]
        == big[23]);
    let ds = s.subrange(i, i + 8) + s.subrange(i + 9, i + 13) + s.subrange(i + 14, i + 18)
        + s.subrange(i + 19, i + 23) + s.subrange(i + 24, i + 36);
    assert(ds =~= hd) by {
        assert forall|t: int| 0 <= t < 32 implies ds[t] == hd[t] by {
            if t < 8 {
                assert(ds[t] == s[i + t] == big[t] == e[t]);
            } else if t < 12 {
                assert(ds[t] == s[i + t + 1] == big[t + 1] == e[t + 1]);
            } else if t < 16 {
                assert(ds[t] == s[i + t + 2] == big[t + 2] == e[t + 2]);
            } else if t < 20 {
                assert(ds[t] == s[i + t + 3] == big[t + 3] == e[t + 3]);
            } else {
                assert(ds[t] == s[i + t + 4] == big[t + 4] == e[t + 4]);
            }
        }
    }
    lemma_pow16_32();
    lemma_hex_seq_val_of_digits(n, 32);
    assert(hex_seq_val(ds) == n);
    assert(Id(hex_seq_val(ds) as u128) == id);
}

/// A source tag written at `i` is read back as itself.
proof fn lemma_dec_enc_source(s: Seq<u8>, i: int, src: SyncSource)
    requires
        0 <= i,
        i + 8 <= s.len(),
        s.subrange(i, i + 8) == enc_source(src),
    ensures
        dec_source(s, i) == Some((src, i + 8)),
{
    match src {
        SyncSource::Client => {
            lemma_dec_lit_at(s, i, lit_client());
        },
        SyncSource::Server => {
            let big = s.subrange(i, i + 8);
            assert(s[i + 1] == big[1]);
            lemma_dec_lit_differs(s, i, lit_client(), 1);
            lemma_dec_lit_at(s, i, lit_server());
        },
    }
}

/// An escaped path written at `i`, with its closing quote, is read back as
/// itself.
proof fn lemma_dec_enc_path(s: Seq<u8>, i: int, p: Seq<u8>)
    requires
        0 <= i,
        i + enc_path(p).len() + 1 <= s.len(),
        s.subrange(i, i + enc_path(p).len() + 1) == enc_path(p) + seq![34u8],
    ensures
        dec_path(s, i) == Some((p, i + enc_path(p).len() + 1)),
    decreases p.len(),
{
    let e = enc_path(p);
    let big = s.subrange(i, i + e.len() + 1);
    if p.len() == 0 {
        assert(s[i] == big[0]);
        assert(big[0] == 34);
        assert(p =~= Seq::<u8>::empty());
    } else {
        let b = p[0];
        let eb = esc_byte(b);
        let p2 = p.drop_first();
        let rest = enc_path(p2);
        assert(e == eb + rest);
        let i2 = i + eb.len();
        assert(s.subrange(i2, i2 + rest.len() + 1) =~= rest + seq![34u8]) by {
            assert forall|t: int| 0 <= t < rest.len() + 1 implies s.subrange(
                i2,
                i2 + rest.len() + 1,
            )[t] == (rest + seq![34u8])[t] by {
                assert(big[eb.len() + t] == s[i2 + t]);
                assert((e + seq![34u8])[eb.len() + t] == (rest + seq![34u8])[t]);
            }
        }
        lemma_dec_enc_path(s, i2, p2);
        assert(s[i] == big[0]);
        if b == 34 {
            assert(big[0] == 92 && big[1] == 34);
            assert(s[i + 1] == big[1]);
            assert(seq![s[i + 1]] + p2 =~= p);
        } else if b == 92 {
            assert(big[0] == 92 && big[1] == 92);
            assert(s[i + 1] == big[1]);
            assert(seq![s[i + 1]] + p2 =~= p);
        } else if b < 32 {
            assert(big[0] == 92 && big[1] == 117 && big[2] == 48 && big[3] == 48);
            assert(s[i + 1] == big[1] && s[i + 2] == big[2] && s[i + 3] == big[3] && s[i + 4]
                == big[4] && s[i + 5] == big[5]);
            assert(big[4] == hex_digit_char(b / 16) && big[5] == hex_digit_char(b % 16));
            lemma_hex_digit_char_val(b / 16);
            lemma_hex_digit_char_val(b % 16);
            assert(hex_val(s[i + 4]) * 16 + hex_val(s[i + 5]) == b);
            assert(seq![(hex_val(s[i + 4]) * 16 + hex_val(s[i + 5])) as u8] + p2 =~= p);
        } else {
            assert(seq![b] + p2 =~= p);
        }
    }
}

/// A timestamp member written at `i` is read back as itself.
proof fn lemma_dec_enc_timestamp(s: Seq<u8>, i: int, t: Timestamp)
    requires
        0 <= i,
        t.wf(),
        i + enc_timestamp(t).len() <= s.len(),
        s.subrange(i, i + enc_timestamp(t).len()) == enc_timestamp(t),
    ensures
        dec_timestamp(s, i) == Some((t, i + enc_timestamp(t).len())),
{
    let e = enc_timestamp(t);
    let d1 = dec_digits(t.secs as nat);
    let d2 = dec_digits(t.nanos as nat);
    lemma_dec_digits_ok(t.secs as nat);
    lemma_dec_digits_ok(t.nanos as nat);
    let o1: int = lit_ts_open().len() as int;
    let o2: int = o1 + d1.len() as int;
    let o3: int = o2 + lit_nanos().len() as int;
    let o4: int = o3 + d2.len() as int;
    let o5: int = o4 + lit_ts_close().len() as int;
    assert(e.len() == o5);
    assert(e.subrange(0, o1) =~= lit_ts_open());
    assert(e.subrange(o1, o2) =~= d1);
    assert(e.subrange(o2, o3) =~= lit_nanos());
    assert(e.subrange(o3, o4) =~= d2);
    assert(e.subrange(o4, o5) =~= lit_ts_close());
    lemma_embed(s, i, e, 0, lit_ts_open());
    lemma_embed(s, i, e, o1, d1);
    lemma_embed(s, i, e, o2, lit_nanos());
    lemma_embed(s, i, e, o3, d2);
    lemma_embed(s, i, e, o4, lit_ts_close());
    lemma_dec_lit_at(s, i, lit_ts_open());
    assert(s[i + o2] == e[o2]);
    assert(e[o2] == lit_nanos()[0]);
    assert(!is_dec(s[i + o2]));
    lemma_dec_num_of_digits(s, i + o1, t.secs as nat);
    lemma_dec_lit_at(s, i + o2, lit_nanos());
    assert(s[i + o4] == e[o4]);
    assert(e[o4] == lit_ts_close()[0]);
    assert(!is_dec(s[i + o4]));
    lemma_dec_num_of_digits(s, i + o3, t.nanos as nat);
    lemma_dec_lit_at(s, i + o4, lit_ts_close());
    assert(dec_u64(s, i + o1) == Some((t.secs, i + o2)));
    assert(dec_nanos(s, i + o3) == Some((t.nanos, i + o4)));
}

/// The path/source/session/user data object written at `i` is read back
/// field for field.
#[verifier::rlimit(100)]
proof fn lemma_dec_enc_data_psu(s: Seq<u8>, i: int, path: Seq<u8>, src: SyncSource, sid: Id, uid: Id)
    requires
        0 <= i,
        i + enc_data_psu(path, src, sid, uid).len() <= s.len(),
        s.subrange(i, i + enc_data_psu(path, src, sid, uid).len()) == enc_data_psu(
            path,
            src,
            sid,
            uid,
        ),
    ensures
        dec_data_psu(s, i) == Some(((path, src, sid, uid), i + enc_data_psu(
            path,
            src,
            sid,
            uid,
        ).len())),
{
    let e = enc_data_psu(path, src, sid, uid);
    lemma_enc_id_len(sid);
    lemma_enc_id_len(uid);
    let pl: int = enc_path(path).len() as int;
    let a1: int = 18;
    let a3: int = a1 + pl + 1;
    let a4: int = a3 + 10;
    let a5: int = a4 + 8;
    let a6: int = a5 + 14;
    let a7: int = a6 + 36;
    let a8: int = a7 + 12;
    let a9: int = a8 + 36;
    let a10: int = a9 + 3;
    assert(e.len() == a10);
    assert(e.subrange(0, a1) =~= lit_data_path());
    assert(e.subrange(a1, a3) =~= enc_path(path) + seq![34u8]);
    assert(e.subrange(a3, a4) =~= lit_comma_source());
    assert(e.subrange(a4, a5) =~= enc_source(src));
    assert(e.subrange(a5, a6) =~= lit_comma_session());
    assert(e.subrange(a6, a7) =~= enc_id(sid));
    assert(e.subrange(a7, a8) =~= lit_quote_user());
    assert(e.subrange(a8, a9) =~= enc_id(uid));
    assert(e.subrange(a9, a10) =~= lit_close_data());
    lemma_embed(s, i, e, 0, lit_data_path());
    lemma_embed(s, i, e, a1, enc_path(path) + seq![34u8]);
    lemma_embed(s, i, e, a3, lit_comma_source());
    lemma_embed(s, i, e, a4, enc_source(src));
    lemma_embed(s, i, e, a5, lit_comma_session());
    lemma_embed(s, i, e, a6, enc_id(sid));
    lemma_embed(s, i, e, a7, lit_quote_user());
    lemma_embed(s, i, e, a8, enc_id(uid));
    lemma_embed(s, i, e, a9, lit_close_data());
    lemma_dec_lit_at(s, i, lit_data_path());
    lemma_dec_enc_path(s, i + a1, path);
    lemma_dec_lit_at(s, i + a3, lit_comma_source());
    lemma_dec_enc_source(s, i + a4, src);
    lemma_dec_lit_at(s, i + a5, lit_comma_session());
    lemma_dec_enc_id(s, i + a6, sid);
    lemma_dec_lit_at(s, i + a7, lit_quote_user());
    lemma_dec_enc_id(s, i + a8, uid);
    lemma_dec_lit_at(s, i + a9, lit_close_data());
}

/// The path/session/user data object written at `i` is read back field for
/// field.
#[verifier::rlimit(100)]
proof fn lemma_dec_enc_data_pu(s: Seq<u8>, i: int, path: Seq<u8>, sid: Id, uid: Id)
    requires
        0 <= i,
        i + enc_data_pu(path, sid, uid).len() <= s.len(),
        s.subrange(i, i + enc_data_pu(path, sid, uid).len()) == enc_data_pu(path, sid, uid),
    ensures
        dec_data_pu(s, i) == Some(((path, sid, uid), i + enc_data_pu(path, sid, uid).len())),
{
    let e = enc_data_pu(path, sid, uid);
    lemma_enc_id_len(sid);
    lemma_enc_id_len(uid);
    let pl: int = enc_path(path).len() as int;
    let a1: int = 18;
    let a3: int = a1 + pl + 1;
    let a4: int = a3 + 14;
    let a5: int = a4 + 36;
    let a6: int = a5 + 12;
    let a7: int = a6 + 36;
    let a8: int = a7 + 3;
    assert(e.len() == a8);
    assert(e.subrange(0, a1) =~= lit_data_path());
    assert(e.subrange(a1, a3) =~= enc_path(path) + seq![34u8]);
    assert(e.subrange(a3, a4) =~= lit_comma_session());
    assert(e.subrange(a4, a5) =~= enc_id(sid));
    assert(e.subrange(a5, a6) =~= lit_quote_user());
    assert(e.subrange(a6, a7) =~= enc_id(uid));
    assert(e.subrange(a7, a8) =~= lit_close_data());
    lemma_embed(s, i, e, 0, lit_data_path());
    lemma_embed(s, i, e, a1, enc_path(path) + seq![34u8]);
    lemma_embed(s, i, e, a3, lit_comma_session());
    lemma_embed(s, i, e, a4, enc_id(sid));
    lemma_embed(s, i, e, a5, lit_quote_user());
    lemma_embed(s, i, e, a6, enc_id(uid));
    lemma_embed(s, i, e, a7, lit_close_data());
    lemma_dec_lit_at(s, i, lit_data_path());
    lemma_dec_enc_path(s, i + a1, path);
    lemma_dec_lit_at(s, i + a3, lit_comma_session());
    lemma_dec_enc_id(s, i + a4, sid);
    lemma_dec_lit_at(s, i + a5, lit_quote_user());
    lemma_dec_enc_id(s, i + a6, uid);
    lemma_dec_lit_at(s, i + a7, lit_close_data());
}

/// The `FileChanged` data object written at `i` is read back field for
/// field.
#[verifier::rlimit(100)]
proof fn lemma_dec_enc_data_changed(
    s: Seq<u8>,
    i: int,
    path: Seq<u8>,
    ts: Timestamp,
    src: SyncSource,
    sid: Id,
    uid: Id,
)
    requires
        0 <= i,
        ts.wf(),
        i + (lit_data_path() + enc_path(path) + seq![34u8] + enc_timestamp(ts) + enc_source(src)
            + lit_comma_session() + enc_id(sid) + lit_quote_user() + enc_id(uid)
            + lit_close_data()).len() <= s.len(),
        s.subrange(
            i,
            i + (lit_data_path() + enc_path(path) + seq![34u8] + enc_timestamp(ts) + enc_source(
                src,
            ) + lit_comma_session() + enc_id(sid) + lit_quote_user() + enc_id(uid)
                + lit_close_data()).len(),
        ) == lit_data_path() + enc_path(path) + seq![34u8] + enc_timestamp(ts) + enc_source(src)
            + lit_comma_session() + enc_id(sid) + lit_quote_user() + enc_id(uid)
            + lit_close_data(),
    ensures
        dec_data_changed(s, i) == Some(((path, ts, src, sid, uid), i + (lit_data_path()
            + enc_path(path) + seq![34u8] + enc_timestamp(ts) + enc_source(src)
            + lit_comma_session() + enc_id(sid) + lit_quote_user() + enc_id(uid)
            + lit_close_data()).len())),
{
    let e = lit_data_path() + enc_path(path) + seq![34u8] + enc_timestamp(ts) + enc_source(src)
        + lit_comma_session() + enc_id(sid) + lit_quote_user() + enc_id(uid) + lit_close_data();
    lemma_enc_id_len(sid);
    lemma_enc_id_len(uid);
    let pl: int = enc_path(path).len() as int;
    let tl: int = enc_timestamp(ts).len() as int;
    let a1: int = 18;
    let a3: int = a1 + pl + 1;
    let a4: int = a3 + tl;
    let a5: int = a4 + 8;
    let a6: int = a5 + 14;
    let a7: int = a6 + 36;
    let a8: int = a7 + 12;
    let a9: int = a8 + 36;
    let a10: int = a9 + 3;
    assert(e.len() == a10);
    assert(e.subrange(0, a1) =~= lit_data_path());
    assert(e.subrange(a1, a3) =~= enc_path(path) + seq![34u8]);
    assert(e.subrange(a3, a4) =~= enc_timestamp(ts));
    assert(e.subrange(a4, a5) =~= enc_source(src));
    assert(e.subrange(a5, a6) =~= lit_comma_session());
    assert(e.subrange(a6, a7) =~= enc_id(sid));
    assert(e.subrange(a7, a8) =~= lit_quote_user());
    assert(e.subrange(a8, a9) =~= enc_id(uid));
    assert(e.subrange(a9, a10) =~= lit_close_data());
    lemma_embed(s, i, e, 0, lit_data_path());
    lemma_embed(s, i, e, a1, enc_path(path) + seq![34u8]);
    lemma_embed(s, i, e, a3, enc_timestamp(ts));
    lemma_embed(s, i, e, a4, enc_source(src));
    lemma_embed(s, i, e, a5, lit_comma_session());
    lemma_embed(s, i, e, a6, enc_id(sid));
    lemma_embed(s, i, e, a7, lit_quote_user());
    lemma_embed(s, i, e, a8, enc_id(uid));
    lemma_embed(s, i, e, a9, lit_close_data());
    lemma_dec_lit_at(s, i, lit_data_path());
    lemma_dec_enc_path(s, i + a1, path);
    lemma_dec_enc_timestamp(s, i + a3, ts);
    lemma_dec_enc_source(s, i + a4, src);
    lemma_dec_lit_at(s, i + a5, lit_comma_session());
    lemma_dec_enc_id(s, i + a6, sid);
    lemma_dec_lit_at(s, i + a7, lit_quote_user());
    lemma_dec_enc_id(s, i + a8, uid);
    lemma_dec_lit_at(s, i + a9, lit_close_data());
}

/// The `Init` body written at `i` is read back as its identity.
proof fn lemma_dec_enc_data_init(s: Seq<u8>, i: int, sid: Id)
    requires
        0 <= i,
        i + 62 <= s.len(),
        s.subrange(i, i + 62) == lit_init_rest() + enc_id(sid) + lit_close_data(),
    ensures
        dec_data_init(s, i) == Some((sid, i + 62)),
{
    let e = lit_init_rest() + enc_id(sid) + lit_close_data();
    lemma_enc_id_len(sid);
    assert(e.len() == 62);
    assert(e.subrange(0, 23) =~= lit_init_rest());
    assert(e.subrange(23, 59) =~= enc_id(sid));
    assert(e.subrange(59, 62) =~= lit_close_data());
    lemma_embed(s, i, e, 0, lit_init_rest());
    lemma_embed(s, i, e, 23, enc_id(sid));
    lemma_embed(s, i, e, 59, lit_close_data());
    lemma_dec_lit_at(s, i, lit_init_rest());
    lemma_dec_enc_id(s, i + 23, sid);
    lemma_dec_lit_at(s, i + 59, lit_close_data());
}

#[verifier::rlimit(100)]
proof fn lemma_msg_init(s: Seq<u8>, i: int, session_id: Id)
    requires
        0 <= i,
        (MessageView::Init { session_id }).wf(),
        i + enc_message((MessageView::Init { session_id })).len() <= s.len(),
        s.subrange(i, i + enc_message((MessageView::Init { session_id })).len()) == enc_message((MessageView::Init { session_id })),
    ensures
        dec_message(s, i) == Some(((MessageView::Init { session_id }), i + enc_message((MessageView::Init { session_id })).len())),
{
    let e = enc_message((MessageView::Init { session_id }));
    let el: int = e.len() as int;
    assert(e.subrange(0, 9) =~= lit_msg_open());
    lemma_embed(s, i, e, 0, lit_msg_open());
    lemma_dec_lit_at(s, i, lit_msg_open());
    assert(e.subrange(9, 13) =~= tag_init());
    lemma_embed(s, i, e, 9, tag_init());
    lemma_dec_lit_at(s, i + 9, tag_init());
    assert(e.subrange(13, el) =~= lit_init_rest() + enc_id(session_id) + lit_close_data());
    lemma_embed(s, i, e, 13, lit_init_rest() + enc_id(session_id) + lit_close_data());
    lemma_enc_id_len(session_id);
    lemma_dec_enc_data_init(s, i + 13, session_id);
}

#[verifier::rlimit(100)]
proof fn lemma_msg_file_created(s: Seq<u8>, i: int, path: Seq<u8>, source: SyncSource, session_id: Id, user_id: Id)
    requires
        0 <= i,
        (MessageView::FileCreated { path, source, session_id, user_id }).wf(),
        i + enc_message((MessageView::FileCreated { path, source, session_id, user_id })).len() <= s.len(),
        s.subrange(i, i + enc_message((MessageView::FileCreated { path, source, session_id, user_id })).len()) == enc_message((MessageView::FileCreated { path, source, session_id, user_id })),
    ensures
        dec_message(s, i) == Some(((MessageView::FileCreated { path, source, session_id, user_id }), i + enc_message((MessageView::FileCreated { path, source, session_id, user_id })).len())),
{
    let e = enc_message((MessageView::FileCreated { path, source, session_id, user_id }));
    let el: int = e.len() as int;
    assert(e.subrange(0, 9) =~= lit_msg_open());
    lemma_embed(s, i, e, 0, lit_msg_open());
    lemma_dec_lit_at(s, i, lit_msg_open());
    assert(s[i + 9] == e[9]);
    lemma_dec_lit_differs(s, i + 9, tag_init(), 0);
    assert(e.subrange(9, 20) =~= tag_file_created());
    lemma_embed(s, i, e, 9, tag_file_created());
    lemma_dec_lit_at(s, i + 9, tag_file_created());
    assert(e.subrange(20, el) =~= enc_data_psu(path, source, session_id, user_id));
    lemma_embed(s, i, e, 20, enc_data_psu(path, source, session_id, user_id));
    lemma_dec_enc_data_psu(s, i + 20, path, source, session_id, user_id);
}

#[verifier::rlimit(100)]
proof fn lemma_msg_folder_created(s: Seq<u8>, i: int, path: Seq<u8>, session_id: Id, user_id: Id)
    requires
        0 <= i,
        (MessageView::FolderCreated { path, session_id, user_id }).wf(),
        i + enc_message((MessageView::FolderCreated { path, session_id, user_id })).len() <= s.len(),
        s.subrange(i, i + enc_message((MessageView::FolderCreated { path, session_id, user_id })).len()) == enc_message((MessageView::FolderCreated { path, session_id, user_id })),
    ensures
        dec_message(s, i) == Some(((MessageView::FolderCreated { path, session_id, user_id }), i + enc_message((MessageView::FolderCreated { path, session_id, user_id })).len())),
{
    let e = enc_message((MessageView::FolderCreated { path, session_id, user_id }));
    let el: int = e.len() as int;
    assert(e.subrange(0, 9) =~= lit_msg_open());
    lemma_embed(s, i, e, 0, lit_msg_open());
    lemma_dec_lit_at(s, i, lit_msg_open());
    assert(s[i + 9] == e[9]);
    assert(s[i + 10] == e[10]);
    lemma_dec_lit_differs(s, i + 9, tag_init(), 0);
    lemma_dec_lit_differs(s, i + 9, tag_file_created(), 1);
    assert(e.subrange(9, 22) =~= tag_folder_created());
    lemma_embed(s, i, e, 9, tag_folder_created());
    lemma_dec_lit_at(s, i + 9, tag_folder_created());
    assert(e.subrange(22, el) =~= enc_data_pu(path, session_id, user_id));
    lemma_embed(s, i, e, 22, enc_data_pu(path, session_id, user_id));
    lemma_dec_enc_data_pu(s, i + 22, path, session_id, user_id);
}

#[verifier::rlimit(100)]
proof fn lemma_msg_file_changed(s: Seq<u8>, i: int, path: Seq<u8>, timestamp: Timestamp, source: SyncSource, session_id: Id, user_id: Id)
    requires
        0 <= i,
        (MessageView::FileChanged { path, timestamp, source, session_id, user_id }).wf(),
        i + enc_message((MessageView::FileChanged { path, timestamp, source, session_id, user_id })).len() <= s.len(),
        s.subrange(i, i + enc_message((MessageView::FileChanged { path, timestamp, source, session_id, user_id })).len()) == enc_message((MessageView::FileChanged { path, timestamp, source, session_id, user_id })),
    ensures
        dec_message(s, i) == Some(((MessageView::FileChanged { path, timestamp, source, session_id, user_id }), i + enc_message((MessageView::FileChanged { path, timestamp, source, session_id, user_id })).len())),
{
    let e = enc_message((MessageView::FileChanged { path, timestamp, source, session_id, user_id }));
    let el: int = e.len() as int;
    assert(e.subrange(0, 9) =~= lit_msg_open());
    lemma_embed(s, i, e, 0, lit_msg_open());
    lemma_dec_lit_at(s, i, lit_msg_open());
    assert(s[i + 9] == e[9]);
    assert(s[i + 10] == e[10]);
    assert(s[i + 14] == e[14]);
    lemma_dec_lit_differs(s, i + 9, tag_init(), 0);
    lemma_dec_lit_differs(s, i + 9, tag_file_created(), 5);
    lemma_dec_lit_differs(s, i + 9, tag_folder_created(), 1);
    assert(e.subrange(9, 20) =~= tag_file_changed());
    lemma_embed(s, i, e, 9, tag_file_changed());
    lemma_dec_lit_at(s, i + 9, tag_file_changed());
    assert(e.subrange(20, el) =~= lit_data_path() + enc_path(path) + seq![34u8] + enc_timestamp(timestamp) + enc_source(source)
        + lit_comma_session() + enc_id(session_id) + lit_quote_user() + enc_id(user_id)
        + lit_close_data());
    lemma_embed(s, i, e, 20, lit_data_path() + enc_path(path) + seq![34u8] + enc_timestamp(timestamp) + enc_source(source)
        + lit_comma_session() + enc_id(session_id) + lit_quote_user() + enc_id(user_id)
        + lit_close_data());
    lemma_dec_enc_data_changed(s, i + 20, path, timestamp, source, session_id, user_id);
}

#[verifier::rlimit(100)]
proof fn lemma_msg_file_deleted(s: Seq<u8>, i: int, path: Seq<u8>, source: SyncSource, session_id: Id, user_id: Id)
    requires
        0 <= i,
        (MessageView::FileDeleted { path, source, session_id, user_id }).wf(),
        i + enc_message((MessageView::FileDeleted { path, source, session_id, user_id })).len() <= s.len(),
        s.subrange(i, i + enc_message((MessageView::FileDeleted { path, source, session_id, user_id })).len()) == enc_message((MessageView::FileDeleted { path, source, session_id, user_id })),
    ensures
        dec_message(s, i) == Some(((MessageView::FileDeleted { path, source, session_id, user_id }), i + enc_message((MessageView::FileDeleted { path, source, session_id, user_id })).len())),
{
    let e = enc_message((MessageView::FileDeleted { path, source, session_id, user_id }));
    let el: int = e.len() as int;
    assert(e.subrange(0, 9) =~= lit_msg_open());
    lemma_embed(s, i, e, 0, lit_msg_open());
    lemma_dec_lit_at(s, i, lit_msg_open());
    assert(s[i + 9] == e[9]);
    assert(s[i + 10] == e[10]);
    assert(s[i + 13] == e[13]);
    lemma_dec_lit_differs(s, i + 9, tag_init(), 0);
    lemma_dec_lit_differs(s, i + 9, tag_file_created(), 4);
    lemma_dec_lit_differs(s, i + 9, tag_folder_created(), 1);
    lemma_dec_lit_differs(s, i + 9, tag_file_changed(), 4);
    assert(e.subrange(9, 20) =~= tag_file_deleted());
    lemma_embed(s, i, e, 9, tag_file_deleted());
    lemma_dec_lit_at(s, i + 9, tag_file_deleted());
    assert(e.subrange(20, el) =~= enc_data_psu(path, source, session_id, user_id));
    lemma_embed(s, i, e, 20, enc_data_psu(path, source, session_id, user_id));
    lemma_dec_enc_data_psu(s, i + 20, path, source, session_id, user_id);
}

#[verifier::rlimit(100)]
proof fn lemma_msg_folder_deleted(s: Seq<u8>, i: int, path: Seq<u8>, session_id: Id, user_id: Id)
    requires
        0 <= i,
        (MessageView::FolderDeleted { path, session_id, user_id }).wf(),
        i + enc_message((MessageView::FolderDeleted { path, session_id, user_id })).len() <= s.len(),
        s.subrange(i, i + enc_message((MessageView::FolderDeleted { path, session_id, user_id })).len()) == enc_message((MessageView::FolderDeleted { path, session_id, user_id })),
    ensures
        dec_message(s, i) == Some(((MessageView::FolderDeleted { path, session_id, user_id }), i + enc_message((MessageView::FolderDeleted { path, session_id, user_id })).len())),
{
    let e = enc_message((MessageView::FolderDeleted { path, session_id, user_id }));
    let el: int = e.len() as int;
    assert(e.subrange(0, 9) =~= lit_msg_open());
    lemma_embed(s, i, e, 0, lit_msg_open());
    lemma_dec_lit_at(s, i, lit_msg_open());
    assert(s[i + 9] == e[9]);
    assert(s[i + 10] == e[10]);
    assert(s[i + 15] == e[15]);
    lemma_dec_lit_differs(s, i + 9, tag_init(), 0);
    lemma_dec_lit_differs(s, i + 9, tag_file_created(), 1);
    lemma_dec_lit_differs(s, i + 9, tag_folder_created(), 6);
    lemma_dec_lit_differs(s, i + 9, tag_file_changed(), 1);
    lemma_dec_lit_differs(s, i + 9, tag_file_deleted(), 1);
    assert(e.subrange(9, 22) =~= tag_folder_deleted());
    lemma_embed(s, i, e, 9, tag_folder_deleted());
    lemma_dec_lit_at(s, i + 9, tag_folder_deleted());
    assert(e.subrange(22, el) =~= enc_data_pu(path, session_id, user_id));
    lemma_embed(s, i, e, 22, enc_data_pu(path, session_id, user_id));
    lemma_dec_enc_data_pu(s, i + 22, path, session_id, user_id);
}

#[verifier::rlimit(100)]
proof fn lemma_msg_object_created(s: Seq<u8>, i: int, path: Seq<u8>, source: SyncSource, session_id: Id, user_id: Id)
    requires
        0 <= i,
        (MessageView::ObjectCreated { path, source, session_id, user_id }).wf(),
        i + enc_message((MessageView::ObjectCreated { path, source, session_id, user_id })).len() <= s.len(),
        s.subrange(i, i + enc_message((MessageView::ObjectCreated { path, source, session_id, user_id })).len()) == enc_message((MessageView::ObjectCreated { path, source, session_id, user_id })),
    ensures
        dec_message(s, i) == Some(((MessageView::ObjectCreated { path, source, session_id, user_id }), i + enc_message((MessageView::ObjectCreated { path, source, session_id, user_id })).len())),
{
    let e = enc_message((MessageView::ObjectCreated { path, source, session_id, user_id }));
    let el: int = e.len() as int;
    assert(e.subrange(0, 9) =~= lit_msg_open());
    lemma_embed(s, i, e, 0, lit_msg_open());
    lemma_dec_lit_at(s, i, lit_msg_open());
    assert(s[i + 9] == e[9]);
    lemma_dec_lit_differs(s, i + 9, tag_init(), 0);
    lemma_dec_lit_differs(s, i + 9, tag_file_created(), 0);
    lemma_dec_lit_differs(s, i + 9, tag_folder_created(), 0);
    lemma_dec_lit_differs(s, i + 9, tag_file_changed(), 0);
    lemma_dec_lit_differs(s, i + 9, tag_file_deleted(), 0);
    lemma_dec_lit_differs(s, i + 9, tag_folder_deleted(), 0);
    assert(e.subrange(9, 22) =~= tag_object_created());
    lemma_embed(s, i, e, 9, tag_object_created());
    lemma_dec_lit_at(s, i + 9, tag_object_created());
    assert(e.subrange(22, el) =~= enc_data_psu(path, source, session_id, user_id));
    lemma_embed(s, i, e, 22, enc_data_psu(path, source, session_id, user_id));
    lemma_dec_enc_data_psu(s, i + 22, path, source, session_id, user_id);
}

#[verifier::rlimit(100)]
proof fn lemma_msg_object_deleted(s: Seq<u8>, i: int, path: Seq<u8>, source: SyncSource, session_id: Id, user_id: Id)
    requires
        0 <= i,
        (MessageView::ObjectDeleted { path, source, session_id, user_id }).wf(),
        i + enc_message((MessageView::ObjectDeleted { path, source, session_id, user_id })).len() <= s.len(),
        s.subrange(i, i + enc_message((MessageView::ObjectDeleted { path, source, session_id, user_id })).len()) == enc_message((MessageView::ObjectDeleted { path, source, session_id, user_id })),
    ensures
        dec_message(s, i) == Some(((MessageView::ObjectDeleted { path, source, session_id, user_id }), i + enc_message((MessageView::ObjectDeleted { path, source, session_id, user_id })).len())),
{
    let e = enc_message((MessageView::ObjectDeleted { path, source, session_id, user_id }));
    let el: int = e.len() as int;
    assert(e.subrange(0, 9) =~= lit_msg_open());
    lemma_embed(s, i, e, 0, lit_msg_open());
    lemma_dec_lit_at(s, i, lit_msg_open());
    assert(s[i + 9] == e[9]);
    assert(s[i + 15] == e[15]);
    lemma_dec_lit_differs(s, i + 9, tag_init(), 0);
    lemma_dec_lit_differs(s, i + 9, tag_file_created(), 0);
    lemma_dec_lit_differs(s, i + 9, tag_folder_created(), 0);
    lemma_dec_lit_differs(s, i + 9, tag_file_changed(), 0);
    lemma_dec_lit_differs(s, i + 9, tag_file_deleted(), 0);
    lemma_dec_lit_differs(s, i + 9, tag_folder_deleted(), 0);
    lemma_dec_lit_differs(s, i + 9, tag_object_created(), 6);
    assert(e.subrange(9, 22) =~= tag_object_deleted());
    lemma_embed(s, i, e, 9, tag_object_deleted());
    lemma_dec_lit_at(s, i + 9, tag_object_deleted());
    assert(e.subrange(22, el) =~= enc_data_psu(path, source, session_id, user_id));
    lemma_embed(s, i, e, 22, enc_data_psu(path, source, session_id, user_id));
    lemma_dec_enc_data_psu(s, i + 22, path, source, session_id, user_id);
}

#[verifier::rlimit(100)]
proof fn lemma_msg_ping(s: Seq<u8>, i: int)
    requires
        0 <= i,
        MessageView::Ping.wf(),
        i + enc_message(MessageView::Ping).len() <= s.len(),
        s.subrange(i, i + enc_message(MessageView::Ping).len()) == enc_message(MessageView::Ping),
    ensures
        dec_message(s, i) == Some((MessageView::Ping, i + enc_message(MessageView::Ping).len())),
{
    let e = enc_message(MessageView::Ping);
    let el: int = e.len() as int;
    assert(e.subrange(0, 9) =~= lit_msg_open());
    lemma_embed(s, i, e, 0, lit_msg_open());
    lemma_dec_lit_at(s, i, lit_msg_open());
    assert(s[i + 9] == e[9]);
    lemma_dec_lit_differs(s, i + 9, tag_init(), 0);
    lemma_dec_lit_differs(s, i + 9, tag_file_created(), 0);
    lemma_dec_lit_differs(s, i + 9, tag_folder_created(), 0);
    lemma_dec_lit_differs(s, i + 9, tag_file_changed(), 0);
    lemma_dec_lit_differs(s, i + 9, tag_file_deleted(), 0);
    lemma_dec_lit_differs(s, i + 9, tag_folder_deleted(), 0);
    lemma_dec_lit_differs(s, i + 9, tag_object_created(), 0);
    lemma_dec_lit_differs(s, i + 9, tag_object_deleted(), 0);
    assert(e.subrange(9, 13) =~= tag_ping());
    lemma_embed(s, i, e, 9, tag_ping());
    lemma_dec_lit_at(s, i + 9, tag_ping());
    assert(e.subrange(13, el) =~= lit_unit_close());
    lemma_embed(s, i, e, 13, lit_unit_close());
    lemma_dec_lit_at(s, i + 13, lit_unit_close());
}

#[verifier::rlimit(100)]
proof fn lemma_msg_pong(s: Seq<u8>, i: int)
    requires
        0 <= i,
        MessageView::Pong.wf(),
        i + enc_message(MessageView::Pong).len() <= s.len(),
        s.subrange(i, i + enc_message(MessageView::Pong).len()) == enc_message(MessageView::Pong),
    ensures
        dec_message(s, i) == Some((MessageView::Pong, i + enc_message(MessageView::Pong).len())),
{
    let e = enc_message(MessageView::Pong);
    let el: int = e.len() as int;
    assert(e.subrange(0, 9) =~= lit_msg_open());
    lemma_embed(s, i, e, 0, lit_msg_open());
    lemma_dec_lit_at(s, i, lit_msg_open());
    assert(s[i + 9] == e[9]);
    assert(s[i + 10] == e[10]);
    lemma_dec_lit_differs(s, i + 9, tag_init(), 0);
    lemma_dec_lit_differs(s, i + 9, tag_file_created(), 0);
    lemma_dec_lit_differs(s, i + 9, tag_folder_created(), 0);
    lemma_dec_lit_differs(s, i + 9, tag_file_changed(), 0);
    lemma_dec_lit_differs(s, i + 9, tag_file_deleted(), 0);
    lemma_dec_lit_differs(s, i + 9, tag_folder_deleted(), 0);
    lemma_dec_lit_differs(s, i + 9, tag_object_created(), 0);
    lemma_dec_lit_differs(s, i + 9, tag_object_deleted(), 0);
    lemma_dec_lit_differs(s, i + 9, tag_ping(), 1);
    assert(e.subrange(9, 13) =~= tag_pong());
    lemma_embed(s, i, e, 9, tag_pong());
    lemma_dec_lit_at(s, i + 9, tag_pong());
    assert(e.subrange(13, el) =~= lit_unit_close());
    lemma_embed(s, i, e, 13, lit_unit_close());
    lemma_dec_lit_at(s, i + 13, lit_unit_close());
}

/// A message written at `i` is read back as itself.
proof fn lemma_dec_enc_message(s: Seq<u8>, i: int, m: MessageView)
    requires
        0 <= i,
        m.wf(),
        i + enc_message(m).len() <= s.len(),
        s.subrange(i, i + enc_message(m).len()) == enc_message(m),
    ensures
        dec_message(s, i) == Some((m, i + enc_message(m).len())),
{
    match m {
        MessageView::Init { session_id } => lemma_msg_init(s, i, session_id),
        MessageView::FileCreated { path, source, session_id, user_id } => lemma_msg_file_created(
            s, i, path, source, session_id, user_id,
        ),
        MessageView::FolderCreated { path, session_id, user_id } => lemma_msg_folder_created(
            s, i, path, session_id, user_id,
        ),
        MessageView::FileChanged { path, timestamp, source, session_id, user_id } =>
            lemma_msg_file_changed(s, i, path, timestamp, source, session_id, user_id),
        MessageView::FileDeleted { path, source, session_id, user_id } => lemma_msg_file_deleted(
            s, i, path, source, session_id, user_id,
        ),
        MessageView::FolderDeleted { path, session_id, user_id } => lemma_msg_folder_deleted(
            s, i, path, session_id, user_id,
        ),
        MessageView::ObjectCreated { path, source, session_id, user_id } =>
            lemma_msg_object_created(s, i, path, source, session_id, user_id),
        MessageView::ObjectDeleted { path, source, session_id, user_id } =>
            lemma_msg_object_deleted(s, i, path, source, session_id, user_id),
        MessageView::Ping => lemma_msg_ping(s, i),
        MessageView::Pong => lemma_msg_pong(s, i),
    }
}

/// Decoding an encoded envelope yields a value equal to the original, for
/// every message variant and all field values: the delivery path loses no
/// information.
pub proof fn lemma_decode_encode(v: EnvelopeView)
    requires
        v.wf(),
    ensures
        dec_envelope(enc_envelope(v)) == Some(v),
{
    let s = enc_envelope(v);
    let ml: int = enc_message(v.message).len() as int;
    lemma_enc_id_len(v.sender_id);
    assert(s.len() == 62 + ml);
    assert(s.subrange(0, 62 + ml) =~= s);
    assert(s.subrange(0, 13) =~= lit_env_open());
    assert(s.subrange(13, 49) =~= enc_id(v.sender_id));
    assert(s.subrange(49, 61) =~= lit_env_msg());
    assert(s.subrange(61, 61 + ml) =~= enc_message(v.message));
    assert(s.subrange(61 + ml, 62 + ml) =~= seq![125u8]);
    lemma_dec_lit_at(s, 0, lit_env_open());
    lemma_dec_enc_id(s, 13, v.sender_id);
    lemma_dec_lit_at(s, 49, lit_env_msg());
    lemma_dec_enc_message(s, 61, v.message);
    lemma_dec_lit_at(s, 61 + ml, seq![125u8]);
    assert(EnvelopeView { sender_id: v.sender_id, message: v.message } =~= v);
}

} // verus!


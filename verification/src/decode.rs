//! The executable decoder: reads wire bytes back into an envelope,
//! returning exactly what `crate::codec::dec_envelope` gives, or a decode
//! error when that gives nothing.

use vstd::prelude::*;
use crate::codec::{lemma_dec_path_bounds, dec_data_changed, dec_data_init, dec_data_psu, dec_data_pu, dec_envelope,
    dec_id, dec_lit, dec_message, dec_nanos, dec_path, dec_source, dec_timestamp,
    dec_u64, lit_client, lit_close_data, lit_comma_session, lit_comma_source, lit_data_path,
    lit_env_msg, lit_env_open, lit_init_rest, lit_msg_open, lit_nanos, lit_quote_user, lit_server, lit_ts_close,
    lit_ts_open, lit_unit_close, tag_file_changed, tag_file_created, tag_file_deleted,
    tag_folder_created, tag_folder_deleted, tag_init, tag_object_created, tag_object_deleted,
    tag_ping, tag_pong};
use crate::ids::Id;
use crate::numerals::{lemma_digit_run_end_props, hex_seq_val, hex_val_of, is_hex, lemma_hex_seq_val_bound,
    lemma_pow16_32, lemma_pow16_mono, parse_dec_u64, pow16};
use crate::protocol::{SyncEnvelope, SyncMessage, SyncSource, Timestamp};

verus! {

/// Why an incoming payload was rejected: it is not a well-formed envelope
/// of this protocol.
#[derive(Clone, Copy, PartialEq, Eq, Structural, Debug)]
pub enum DecodeError {
    Malformed,
}

/// Reads the exact literal `lit` at position `i`.
fn parse_lit(s: &[u8], i: usize, lit: &[u8]) -> (r: Option<usize>)
    requires
        i <= s@.len(),
    ensures
        match dec_lit(s@, i as int, lit@) {
            Some(j) => r == Some(j as usize),
            None => r is None,
        },
{
    if lit.len() > s.len() - i {
        return None;
    }
    let mut k: usize = 0;
    while k < lit.len()
        invariant
            k <= lit@.len(),
            i + lit@.len() <= s@.len(),
            s@.len() <= usize::MAX,
            forall|t: int| 0 <= t < k ==> s@[i + t] == lit@[t],
        decreases lit@.len() - k,
    {
        if s[i + k] != lit[k] {
            proof {
                let sub = s@.subrange(i as int, i + lit@.len());
                assert(sub[k as int] == s@[i + k]);
            }
            return None;
        }
        k += 1;
    }
    proof {
        assert(s@.subrange(i as int, i + lit@.len()) =~= lit@);
    }
    Some(i + lit.len())
}

fn scan_lit_env_open(s: &[u8], i: usize) -> (r: Option<usize>)
    requires
        i <= s@.len(),
    ensures
        match dec_lit(s@, i as int, lit_env_open()) {
            Some(j) => r == Some(j as usize),
            None => r is None,
        },
{
    let lit: &[u8] = &[123u8, 34u8, 115u8, 101u8, 110u8, 100u8, 101u8, 114u8, 73u8, 100u8, 34u8, 58u8, 34u8];
    let r = parse_lit(s, i, lit);
    proof {
        assert(lit@ =~= lit_env_open());
    }
    r
}

fn scan_lit_env_msg(s: &[u8], i: usize) -> (r: Option<usize>)
    requires
        i <= s@.len(),
    ensures
        match dec_lit(s@, i as int, lit_env_msg()) {
            Some(j) => r == Some(j as usize),
            None => r is None,
        },
{
    let lit: &[u8] = &[34u8, 44u8, 34u8, 109u8, 101u8, 115u8, 115u8, 97u8, 103u8, 101u8, 34u8, 58u8];
    let r = parse_lit(s, i, lit);
    proof {
        assert(lit@ =~= lit_env_msg());
    }
    r
}

fn scan_lit_msg_open(s: &[u8], i: usize) -> (r: Option<usize>)
    requires
        i <= s@.len(),
    ensures
        match dec_lit(s@, i as int, lit_msg_open()) {
            Some(j) => r == Some(j as usize),
            None => r is None,
        },
{
    let lit: &[u8] = &[123u8, 34u8, 116u8, 121u8, 112u8, 101u8, 34u8, 58u8, 34u8];
    let r = parse_lit(s, i, lit);
    proof {
        assert(lit@ =~= lit_msg_open());
    }
    r
}

fn scan_lit_init_rest(s: &[u8], i: usize) -> (r: Option<usize>)
    requires
        i <= s@.len(),
    ensures
        match dec_lit(s@, i as int, lit_init_rest()) {
            Some(j) => r == Some(j as usize),
            None => r is None,
        },
{
    let lit: &[u8] = &[34u8, 44u8, 34u8, 100u8, 97u8, 116u8, 97u8, 34u8, 58u8, 123u8, 34u8, 115u8, 101u8, 115u8, 115u8, 105u8, 111u8, 110u8, 73u8, 100u8, 34u8, 58u8, 34u8];
    let r = parse_lit(s, i, lit);
    proof {
        assert(lit@ =~= lit_init_rest());
    }
    r
}

fn scan_lit_data_path(s: &[u8], i: usize) -> (r: Option<usize>)
    requires
        i <= s@.len(),
    ensures
        match dec_lit(s@, i as int, lit_data_path()) {
            Some(j) => r == Some(j as usize),
            None => r is None,
        },
{
    let lit: &[u8] = &[34u8, 44u8, 34u8, 100u8, 97u8, 116u8, 97u8, 34u8, 58u8, 123u8, 34u8, 112u8, 97u8, 116u8, 104u8, 34u8, 58u8, 34u8];
    let r = parse_lit(s, i, lit);
    proof {
        assert(lit@ =~= lit_data_path());
    }
    r
}

fn scan_lit_comma_source(s: &[u8], i: usize) -> (r: Option<usize>)
    requires
        i <= s@.len(),
    ensures
        match dec_lit(s@, i as int, lit_comma_source()) {
            Some(j) => r == Some(j as usize),
            None => r is None,
        },
{
    let lit: &[u8] = &[44u8, 34u8, 115u8, 111u8, 117u8, 114u8, 99u8, 101u8, 34u8, 58u8];
    let r = parse_lit(s, i, lit);
    proof {
        assert(lit@ =~= lit_comma_source());
    }
    r
}

fn scan_lit_comma_session(s: &[u8], i: usize) -> (r: Option<usize>)
    requires
        i <= s@.len(),
    ensures
        match dec_lit(s@, i as int, lit_comma_session()) {
            Some(j) => r == Some(j as usize),
            None => r is None,
        },
{
    let lit: &[u8] = &[44u8, 34u8, 115u8, 101u8, 115u8, 115u8, 105u8, 111u8, 110u8, 73u8, 100u8, 34u8, 58u8, 34u8];
    let r = parse_lit(s, i, lit);
    proof {
        assert(lit@ =~= lit_comma_session());
    }
    r
}

fn scan_lit_quote_user(s: &[u8], i: usize) -> (r: Option<usize>)
    requires
        i <= s@.len(),
    ensures
        match dec_lit(s@, i as int, lit_quote_user()) {
            Some(j) => r == Some(j as usize),
            None => r is None,
        },
{
    let lit: &[u8] = &[34u8, 44u8, 34u8, 117u8, 115u8, 101u8, 114u8, 73u8, 100u8, 34u8, 58u8, 34u8];
    let r = parse_lit(s, i, lit);
    proof {
        assert(lit@ =~= lit_quote_user());
    }
    r
}

fn scan_lit_close_data(s: &[u8], i: usize) -> (r: Option<usize>)
    requires
        i <= s@.len(),
    ensures
        match dec_lit(s@, i as int, lit_close_data()) {
            Some(j) => r == Some(j as usize),
            None => r is None,
        },
{
    let lit: &[u8] = &[34u8, 125u8, 125u8];
    let r = parse_lit(s, i, lit);
    proof {
        assert(lit@ =~= lit_close_data());
    }
    r
}

fn scan_lit_ts_open(s: &[u8], i: usize) -> (r: Option<usize>)
    requires
        i <= s@.len(),
    ensures
        match dec_lit(s@, i as int, lit_ts_open()) {
            Some(j) => r == Some(j as usize),
            None => r is None,
        },
{
    let lit: &[u8] = &[44u8, 34u8, 116u8, 105u8, 109u8, 101u8, 115u8, 116u8, 97u8, 109u8, 112u8, 34u8, 58u8, 123u8, 34u8, 115u8, 101u8, 99u8, 115u8, 95u8, 115u8, 105u8, 110u8, 99u8, 101u8, 95u8, 101u8, 112u8, 111u8, 99u8, 104u8, 34u8, 58u8];
    let r = parse_lit(s, i, lit);
    proof {
        assert(lit@ =~= lit_ts_open());
    }
    r
}

fn scan_lit_nanos(s: &[u8], i: usize) -> (r: Option<usize>)
    requires
        i <= s@.len(),
    ensures
        match dec_lit(s@, i as int, lit_nanos()) {
            Some(j) => r == Some(j as usize),
            None => r is None,
        },
{
    let lit: &[u8] = &[44u8, 34u8, 110u8, 97u8, 110u8, 111u8, 115u8, 95u8, 115u8, 105u8, 110u8, 99u8, 101u8, 95u8, 101u8, 112u8, 111u8, 99u8, 104u8, 34u8, 58u8];
    let r = parse_lit(s, i, lit);
    proof {
        assert(lit@ =~= lit_nanos());
    }
    r
}

fn scan_lit_ts_close(s: &[u8], i: usize) -> (r: Option<usize>)
    requires
        i <= s@.len(),
    ensures
        match dec_lit(s@, i as int, lit_ts_close()) {
            Some(j) => r == Some(j as usize),
            None => r is None,
        },
{
    let lit: &[u8] = &[125u8, 44u8, 34u8, 115u8, 111u8, 117u8, 114u8, 99u8, 101u8, 34u8, 58u8];
    let r = parse_lit(s, i, lit);
    proof {
        assert(lit@ =~= lit_ts_close());
    }
    r
}

fn scan_lit_client(s: &[u8], i: usize) -> (r: Option<usize>)
    requires
        i <= s@.len(),
    ensures
        match dec_lit(s@, i as int, lit_client()) {
            Some(j) => r == Some(j as usize),
            None => r is None,
        },
{
    let lit: &[u8] = &[34u8, 67u8, 108u8, 105u8, 101u8, 110u8, 116u8, 34u8];
    let r = parse_lit(s, i, lit);
    proof {
        assert(lit@ =~= lit_client());
    }
    r
}

fn scan_lit_server(s: &[u8], i: usize) -> (r: Option<usize>)
    requires
        i <= s@.len(),
    ensures
        match dec_lit(s@, i as int, lit_server()) {
            Some(j) => r == Some(j as usize),
            None => r is None,
        },
{
    let lit: &[u8] = &[34u8, 83u8, 101u8, 114u8, 118u8, 101u8, 114u8, 34u8];
    let r = parse_lit(s, i, lit);
    proof {
        assert(lit@ =~= lit_server());
    }
    r
}

fn scan_lit_unit_close(s: &[u8], i: usize) -> (r: Option<usize>)
    requires
        i <= s@.len(),
    ensures
        match dec_lit(s@, i as int, lit_unit_close()) {
            Some(j) => r == Some(j as usize),
            None => r is None,
        },
{
    let lit: &[u8] = &[34u8, 125u8];
    let r = parse_lit(s, i, lit);
    proof {
        assert(lit@ =~= lit_unit_close());
    }
    r
}

fn scan_tag_init(s: &[u8], i: usize) -> (r: Option<usize>)
    requires
        i <= s@.len(),
    ensures
        match dec_lit(s@, i as int, tag_init()) {
            Some(j) => r == Some(j as usize),
            None => r is None,
        },
{
    let lit: &[u8] = &[73u8, 110u8, 105u8, 116u8];
    let r = parse_lit(s, i, lit);
    proof {
        assert(lit@ =~= tag_init());
    }
    r
}

fn scan_tag_file_created(s: &[u8], i: usize) -> (r: Option<usize>)
    requires
        i <= s@.len(),
    ensures
        match dec_lit(s@, i as int, tag_file_created()) {
            Some(j) => r == Some(j as usize),
            None => r is None,
        },
{
    let lit: &[u8] = &[70u8, 105u8, 108u8, 101u8, 67u8, 114u8, 101u8, 97u8, 116u8, 101u8, 100u8];
    let r = parse_lit(s, i, lit);
    proof {
        assert(lit@ =~= tag_file_created());
    }
    r
}

fn scan_tag_folder_created(s: &[u8], i: usize) -> (r: Option<usize>)
    requires
        i <= s@.len(),
    ensures
        match dec_lit(s@, i as int, tag_folder_created()) {
            Some(j) => r == Some(j as usize),
            None => r is None,
        },
{
    let lit: &[u8] = &[70u8, 111u8, 108u8, 100u8, 101u8, 114u8, 67u8, 114u8, 101u8, 97u8, 116u8, 101u8, 100u8];
    let r = parse_lit(s, i, lit);
    proof {
        assert(lit@ =~= tag_folder_created());
    }
    r
}

fn scan_tag_file_changed(s: &[u8], i: usize) -> (r: Option<usize>)
    requires
        i <= s@.len(),
    ensures
        match dec_lit(s@, i as int, tag_file_changed()) {
            Some(j) => r == Some(j as usize),
            None => r is None,
        },
{
    let lit: &[u8] = &[70u8, 105u8, 108u8, 101u8, 67u8, 104u8, 97u8, 110u8, 103u8, 101u8, 100u8];
    let r = parse_lit(s, i, lit);
    proof {
        assert(lit@ =~= tag_file_changed());
    }
    r
}

fn scan_tag_file_deleted(s: &[u8], i: usize) -> (r: Option<usize>)
    requires
        i <= s@.len(),
    ensures
        match dec_lit(s@, i as int, tag_file_deleted()) {
            Some(j) => r == Some(j as usize),
            None => r is None,
        },
{
    let lit: &[u8] = &[70u8, 105u8, 108u8, 101u8, 68u8, 101u8, 108u8, 101u8, 116u8, 101u8, 100u8];
    let r = parse_lit(s, i, lit);
    proof {
        assert(lit@ =~= tag_file_deleted());
    }
    r
}

fn scan_tag_folder_deleted(s: &[u8], i: usize) -> (r: Option<usize>)
    requires
        i <= s@.len(),
    ensures
        match dec_lit(s@, i as int, tag_folder_deleted()) {
            Some(j) => r == Some(j as usize),
            None => r is None,
        },
{
    let lit: &[u8] = &[70u8, 111u8, 108u8, 100u8, 101u8, 114u8, 68u8, 101u8, 108u8, 101u8, 116u8, 101u8, 100u8];
    let r = parse_lit(s, i, lit);
    proof {
        assert(lit@ =~= tag_folder_deleted());
    }
    r
}

fn scan_tag_object_created(s: &[u8], i: usize) -> (r: Option<usize>)
    requires
        i <= s@.len(),
    ensures
        match dec_lit(s@, i as int, tag_object_created()) {
            Some(j) => r == Some(j as usize),
            None => r is None,
        },
{
    let lit: &[u8] = &[79u8, 98u8, 106u8, 101u8, 99u8, 116u8, 67u8, 114u8, 101u8, 97u8, 116u8, 101u8, 100u8];
    let r = parse_lit(s, i, lit);
    proof {
        assert(lit@ =~= tag_object_created());
    }
    r
}

fn scan_tag_object_deleted(s: &[u8], i: usize) -> (r: Option<usize>)
    requires
        i <= s@.len(),
    ensures
        match dec_lit(s@, i as int, tag_object_deleted()) {
            Some(j) => r == Some(j as usize),
            None => r is None,
        },
{
    let lit: &[u8] = &[79u8, 98u8, 106u8, 101u8, 99u8, 116u8, 68u8, 101u8, 108u8, 101u8, 116u8, 101u8, 100u8];
    let r = parse_lit(s, i, lit);
    proof {
        assert(lit@ =~= tag_object_deleted());
    }
    r
}

fn scan_tag_ping(s: &[u8], i: usize) -> (r: Option<usize>)
    requires
        i <= s@.len(),
    ensures
        match dec_lit(s@, i as int, tag_ping()) {
            Some(j) => r == Some(j as usize),
            None => r is None,
        },
{
    let lit: &[u8] = &[80u8, 105u8, 110u8, 103u8];
    let r = parse_lit(s, i, lit);
    proof {
        assert(lit@ =~= tag_ping());
    }
    r
}

fn scan_tag_pong(s: &[u8], i: usize) -> (r: Option<usize>)
    requires
        i <= s@.len(),
    ensures
        match dec_lit(s@, i as int, tag_pong()) {
            Some(j) => r == Some(j as usize),
            None => r is None,
        },
{
    let lit: &[u8] = &[80u8, 111u8, 110u8, 103u8];
    let r = parse_lit(s, i, lit);
    proof {
        assert(lit@ =~= tag_pong());
    }
    r
}

/// Reads a hyphenated hexadecimal identity of 36 bytes at position `i`.
pub(crate) fn parse_id(s: &[u8], i: usize) -> (r: Option<(Id, usize)>)
    requires
        i <= s@.len(),
    ensures
        match dec_id(s@, i as int) {
            Some((id, j)) => r == Some((id, j as usize)),
            None => r is None,
        },
{
    if s.len() - i < 36 {
        return None;
    }
    if s[i + 8] != 45 || s[i + 13] != 45 || s[i + 18] != 45 || s[i + 23] != 45 {
        return None;
    }
    let ghost ds = s@.subrange(i as int, i + 8) + s@.subrange(i + 9, i + 13) + s@.subrange(
        i + 14,
        i + 18,
    ) + s@.subrange(i + 19, i + 23) + s@.subrange(i + 24, i + 36);
    proof {
        assert(ds.len() == 32);
    }
    let mut acc: u128 = 0;
    let mut k: usize = 0;
    while k < 32
        invariant
            k <= 32,
            i + 36 <= s@.len(),
            s@.len() <= usize::MAX,
            ds.len() == 32,
            ds == s@.subrange(i as int, i + 8) + s@.subrange(i + 9, i + 13) + s@.subrange(
                i + 14,
                i + 18,
            ) + s@.subrange(i + 19, i + 23) + s@.subrange(i + 24, i + 36),
            forall|t: int| 0 <= t < k ==> is_hex(#[trigger] ds[t]),
            acc == hex_seq_val(ds.take(k as int)),
        decreases 32 - k,
    {
        let pos: usize = if k < 8 {
            i + k
        } else if k < 12 {
            i + k + 1
        } else if k < 16 {
            i + k + 2
        } else if k < 20 {
            i + k + 3
        } else {
            i + k + 4
        };
        proof {
            assert(ds[k as int] == s@[pos as int]);
        }
        let d = hex_val_of(s[pos]);
        if d == 255 {
            proof {
                assert(!is_hex(ds[k as int]));
            }
            return None;
        }
        proof {
            lemma_hex_seq_val_bound(ds.take(k as int));
            lemma_pow16_mono(k as nat, 31);
            lemma_pow16_32();
            assert(pow16(31) * 16 == pow16(32));
            assert(acc * 16 + d < pow16(32)) by (nonlinear_arith)
                requires
                    acc < pow16(31),
                    d < 16,
                    pow16(31) * 16 == pow16(32),
            ;
            assert(ds.take(k + 1).drop_last() =~= ds.take(k as int));
            assert(ds.take(k + 1).last() == ds[k as int]);
        }
        acc = acc * 16 + (d as u128);
        k += 1;
    }
    proof {
        assert(ds.take(32) =~= ds);
        lemma_hex_seq_val_bound(ds);
        lemma_pow16_32();
        assert(hex_seq_val(ds) as u128 == acc);
    }
    Some((Id(acc), i + 36))
}

/// Reads the body of a JSON string at position `i`, through its closing
/// quote.
fn parse_path(s: &[u8], i: usize) -> (r: Option<(Vec<u8>, usize)>)
    requires
        i <= s@.len(),
    ensures
        (match dec_path(s@, i as int) {
            Some((p, j)) => r matches Some(pr) && pr.0@ == p && pr.1 == j as usize,
            None => r is None,
        }),
        r matches Some(pr) ==> i <= pr.1 <= s@.len(),
        dec_path(s@, i as int) matches Some(pj) ==> i as int <= pj.1 <= s@.len(),
{
    let _ = s.len();  // pins the input's length into the usize range the position arithmetic needs
    proof {
        lemma_dec_path_bounds(s@, i as int);
    }
    let mut acc: Vec<u8> = Vec::new();
    let mut cur: usize = i;
    proof {
        match dec_path(s@, i as int) {
            Some((p2, _j)) => {
                assert(Seq::<u8>::empty() + p2 =~= p2);
            },
            None => {},
        }
    }
    loop
        invariant
            i <= cur <= s@.len(),
            s@.len() <= usize::MAX,
            (match dec_path(s@, cur as int) {
                Some((p2, j)) => dec_path(s@, i as int) == Some((acc@ + p2, j)),
                None => dec_path(s@, i as int) is None,
            }),
        decreases s@.len() - cur,
    {
        if cur >= s.len() {
            return None;
        }
        let b = s[cur];
        if b == 34 {
            proof {
                assert(acc@ + Seq::<u8>::empty() =~= acc@);
            }
            return Some((acc, cur + 1));
        } else if b == 92 {
            if s.len() - cur < 2 {
                return None;
            }
            let c = s[cur + 1];
            if c == 34 || c == 92 {
                proof {
                    match dec_path(s@, cur + 2) {
                        Some((p3, _j)) => {
                            assert(acc@.push(c) + p3 =~= acc@ + (seq![c] + p3));
                        },
                        None => {},
                    }
                }
                acc.push(c);
                cur = cur + 2;
            } else if c == 117 {
                if s.len() - cur < 6 {
                    return None;
                }
                if s[cur + 2] != 48 || s[cur + 3] != 48 {
                    return None;
                }
                let d1 = hex_val_of(s[cur + 4]);
                let d2 = hex_val_of(s[cur + 5]);
                if d1 == 255 || d2 == 255 {
                    return None;
                }
                let v = d1 * 16 + d2;
                if v >= 32 {
                    return None;
                }
                proof {
                    match dec_path(s@, cur + 6) {
                        Some((p3, _j)) => {
                            assert(acc@.push(v) + p3 =~= acc@ + (seq![v] + p3));
                        },
                        None => {},
                    }
                }
                acc.push(v);
                cur = cur + 6;
            } else {
                return None;
            }
        } else if b < 32 {
            return None;
        } else {
            proof {
                match dec_path(s@, cur + 1) {
                    Some((p3, _j)) => {
                        assert(acc@.push(b) + p3 =~= acc@ + (seq![b] + p3));
                    },
                    None => {},
                }
            }
            acc.push(b);
            cur = cur + 1;
        }
    }
}

/// Reads a decimal numeral that fits in a `u64`.
fn parse_u64(s: &[u8], i: usize) -> (r: Option<(u64, usize)>)
    requires
        i <= s@.len(),
    ensures
        match dec_u64(s@, i as int) {
            Some((v, j)) => r == Some((v, j as usize)),
            None => r is None,
        },
        r matches Some(pr) ==> i <= pr.1 <= s@.len(),
        dec_u64(s@, i as int) matches Some(pj) ==> i as int <= pj.1 <= s@.len(),
{
    proof {
        lemma_digit_run_end_props(s@, i as int);
    }
    parse_dec_u64(s, i)
}

/// Reads a nanosecond count: a decimal numeral below one billion.
fn parse_nanos(s: &[u8], i: usize) -> (r: Option<(u32, usize)>)
    requires
        i <= s@.len(),
    ensures
        match dec_nanos(s@, i as int) {
            Some((v, j)) => r == Some((v, j as usize)),
            None => r is None,
        },
        r matches Some(pr) ==> i <= pr.1 <= s@.len(),
        dec_nanos(s@, i as int) matches Some(pj) ==> i as int <= pj.1 <= s@.len(),
{
    proof {
        lemma_digit_run_end_props(s@, i as int);
    }
    match parse_dec_u64(s, i) {
        Some((v, j)) => if v < 1000000000 {
            Some((v as u32, j))
        } else {
            None
        },
        None => None,
    }
}

fn parse_source(s: &[u8], i: usize) -> (r: Option<(SyncSource, usize)>)
    requires
        i <= s@.len(),
    ensures
        match dec_source(s@, i as int) {
            Some((src, j)) => r == Some((src, j as usize)),
            None => r is None,
        },
{
    let _ = s.len();  // pins the input's length into the usize range the position arithmetic needs
    match scan_lit_client(s, i) {
        Some(j) => Some((SyncSource::Client, j)),
        None => match scan_lit_server(s, i) {
            Some(j) => Some((SyncSource::Server, j)),
            None => None,
        },
    }
}

fn parse_timestamp(s: &[u8], i: usize) -> (r: Option<(Timestamp, usize)>)
    requires
        i <= s@.len(),
    ensures
        match dec_timestamp(s@, i as int) {
            Some((t, j)) => r == Some((t, j as usize)),
            None => r is None,
        },
        r matches Some(pr) ==> i <= pr.1 <= s@.len(),
        dec_timestamp(s@, i as int) matches Some(pj) ==> i as int <= pj.1 <= s@.len(),
{
    let _ = s.len();  // pins the input's length into the usize range the position arithmetic needs
    let j1 = match scan_lit_ts_open(s, i) {
        Some(j) => j,
        None => {
            return None;
        },
    };
    let (secs, j2) = match parse_u64(s, j1) {
        Some(p) => p,
        None => {
            return None;
        },
    };
    let j3 = match scan_lit_nanos(s, j2) {
        Some(j) => j,
        None => {
            return None;
        },
    };
    let (nanos, j4) = match parse_nanos(s, j3) {
        Some(p) => p,
        None => {
            return None;
        },
    };
    let j5 = match scan_lit_ts_close(s, j4) {
        Some(j) => j,
        None => {
            return None;
        },
    };
    Some((Timestamp { secs, nanos }, j5))
}

/// Reads the data object of a variant carrying path, source and both
/// identities.
fn parse_data_psu(s: &[u8], i: usize) -> (r: Option<((Vec<u8>, SyncSource, Id, Id), usize)>)
    requires
        i <= s@.len(),
    ensures
        (match dec_data_psu(s@, i as int) {
            Some(((p, src, sid, uid), j)) => r matches Some(pr) && pr.0.0@ == p && pr.0.1 == src
                && pr.0.2 == sid && pr.0.3 == uid && pr.1 == j as usize,
            None => r is None,
        }),
        r matches Some(pr) ==> i <= pr.1 <= s@.len(),
        dec_data_psu(s@, i as int) matches Some(pj) ==> i as int <= pj.1 <= s@.len(),
{
    let _ = s.len();  // pins the input's length into the usize range the position arithmetic needs
    let j1 = match scan_lit_data_path(s, i) {
        Some(j) => j,
        None => {
            return None;
        },
    };
    let (p, j2) = match parse_path(s, j1) {
        Some(pr) => pr,
        None => {
            return None;
        },
    };
    let j3 = match scan_lit_comma_source(s, j2) {
        Some(j) => j,
        None => {
            return None;
        },
    };
    let (src, j4) = match parse_source(s, j3) {
        Some(pr) => pr,
        None => {
            return None;
        },
    };
    let j5 = match scan_lit_comma_session(s, j4) {
        Some(j) => j,
        None => {
            return None;
        },
    };
    let (sid, j6) = match parse_id(s, j5) {
        Some(pr) => pr,
        None => {
            return None;
        },
    };
    let j7 = match scan_lit_quote_user(s, j6) {
        Some(j) => j,
        None => {
            return None;
        },
    };
    let (uid, j8) = match parse_id(s, j7) {
        Some(pr) => pr,
        None => {
            return None;
        },
    };
    let j9 = match scan_lit_close_data(s, j8) {
        Some(j) => j,
        None => {
            return None;
        },
    };
    Some(((p, src, sid, uid), j9))
}

/// Reads the data object of a variant carrying path and both identities.
fn parse_data_pu(s: &[u8], i: usize) -> (r: Option<((Vec<u8>, Id, Id), usize)>)
    requires
        i <= s@.len(),
    ensures
        (match dec_data_pu(s@, i as int) {
            Some(((p, sid, uid), j)) => r matches Some(pr) && pr.0.0@ == p && pr.0.1 == sid
                && pr.0.2 == uid && pr.1 == j as usize,
            None => r is None,
        }),
        r matches Some(pr) ==> i <= pr.1 <= s@.len(),
        dec_data_pu(s@, i as int) matches Some(pj) ==> i as int <= pj.1 <= s@.len(),
{
    let _ = s.len();  // pins the input's length into the usize range the position arithmetic needs
    let j1 = match scan_lit_data_path(s, i) {
        Some(j) => j,
        None => {
            return None;
        },
    };
    let (p, j2) = match parse_path(s, j1) {
        Some(pr) => pr,
        None => {
            return None;
        },
    };
    let j3 = match scan_lit_comma_session(s, j2) {
        Some(j) => j,
        None => {
            return None;
        },
    };
    let (sid, j4) = match parse_id(s, j3) {
        Some(pr) => pr,
        None => {
            return None;
        },
    };
    let j5 = match scan_lit_quote_user(s, j4) {
        Some(j) => j,
        None => {
            return None;
        },
    };
    let (uid, j6) = match parse_id(s, j5) {
        Some(pr) => pr,
        None => {
            return None;
        },
    };
    let j7 = match scan_lit_close_data(s, j6) {
        Some(j) => j,
        None => {
            return None;
        },
    };
    Some(((p, sid, uid), j7))
}

/// Reads the data object of the `FileChanged` variant.
fn parse_data_changed(s: &[u8], i: usize) -> (r: Option<(
    (Vec<u8>, Timestamp, SyncSource, Id, Id),
    usize,
)>)
    requires
        i <= s@.len(),
    ensures
        (match dec_data_changed(s@, i as int) {
            Some(((p, ts, src, sid, uid), j)) => r matches Some(pr) && pr.0.0@ == p && pr.0.1 == ts
                && pr.0.2 == src && pr.0.3 == sid && pr.0.4 == uid && pr.1 == j as usize,
            None => r is None,
        }),
        r matches Some(pr) ==> i <= pr.1 <= s@.len(),
        dec_data_changed(s@, i as int) matches Some(pj) ==> i as int <= pj.1 <= s@.len(),
{
    let _ = s.len();  // pins the input's length into the usize range the position arithmetic needs
    let j1 = match scan_lit_data_path(s, i) {
        Some(j) => j,
        None => {
            return None;
        },
    };
    let (p, j2) = match parse_path(s, j1) {
        Some(pr) => pr,
        None => {
            return None;
        },
    };
    let (ts, j3) = match parse_timestamp(s, j2) {
        Some(pr) => pr,
        None => {
            return None;
        },
    };
    let (src, j4) = match parse_source(s, j3) {
        Some(pr) => pr,
        None => {
            return None;
        },
    };
    let j5 = match scan_lit_comma_session(s, j4) {
        Some(j) => j,
        None => {
            return None;
        },
    };
    let (sid, j6) = match parse_id(s, j5) {
        Some(pr) => pr,
        None => {
            return None;
        },
    };
    let j7 = match scan_lit_quote_user(s, j6) {
        Some(j) => j,
        None => {
            return None;
        },
    };
    let (uid, j8) = match parse_id(s, j7) {
        Some(pr) => pr,
        None => {
            return None;
        },
    };
    let j9 = match scan_lit_close_data(s, j8) {
        Some(j) => j,
        None => {
            return None;
        },
    };
    Some(((p, ts, src, sid, uid), j9))
}

/// Reads the body of the `Init` variant.
fn parse_data_init(s: &[u8], i: usize) -> (r: Option<(Id, usize)>)
    requires
        i <= s@.len(),
    ensures
        match dec_data_init(s@, i as int) {
            Some((sid, j)) => r == Some((sid, j as usize)),
            None => r is None,
        },
        r matches Some(pr) ==> i <= pr.1 <= s@.len(),
        dec_data_init(s@, i as int) matches Some(pj) ==> i as int <= pj.1 <= s@.len(),
{
    let _ = s.len();  // pins the input's length into the usize range the position arithmetic needs
    let j1 = match scan_lit_init_rest(s, i) {
        Some(j) => j,
        None => {
            return None;
        },
    };
    let (sid, j2) = match parse_id(s, j1) {
        Some(pr) => pr,
        None => {
            return None;
        },
    };
    let j3 = match scan_lit_close_data(s, j2) {
        Some(j) => j,
        None => {
            return None;
        },
    };
    Some((sid, j3))
}

/// Reads a message object at position `i`.
#[verifier::rlimit(100)]
fn parse_message(s: &[u8], i: usize) -> (r: Option<(SyncMessage, usize)>)
    requires
        i <= s@.len(),
    ensures
        (match dec_message(s@, i as int) {
            Some((m, j)) => r matches Some(pr) && pr.0@ == m && pr.1 == j as usize,
            None => r is None,
        }),
        r matches Some(pr) ==> i <= pr.1 <= s@.len(),
        dec_message(s@, i as int) matches Some(pj) ==> i as int <= pj.1 <= s@.len(),
{
    let _ = s.len();  // pins the input's length into the usize range the position arithmetic needs
    let i1 = match scan_lit_msg_open(s, i) {
        Some(j) => j,
        None => {
            return None;
        },
    };
    if let Some(k) = scan_tag_init(s, i1) {
        return match parse_data_init(s, k) {
            Some((sid, j)) => Some((SyncMessage::Init { session_id: sid }, j)),
            None => None,
        };
    }
    if let Some(k) = scan_tag_file_created(s, i1) {
        return match parse_data_psu(s, k) {
            Some(((p, src, sid, uid), j)) => Some((
                SyncMessage::FileCreated { path: p, source: src, session_id: sid, user_id: uid },
                j,
            )),
            None => None,
        };
    }
    if let Some(k) = scan_tag_folder_created(s, i1) {
        return match parse_data_pu(s, k) {
            Some(((p, sid, uid), j)) => Some((
                SyncMessage::FolderCreated { path: p, session_id: sid, user_id: uid },
                j,
            )),
            None => None,
        };
    }
    if let Some(k) = scan_tag_file_changed(s, i1) {
        return match parse_data_changed(s, k) {
            Some(((p, ts, src, sid, uid), j)) => Some((
                SyncMessage::FileChanged {
                    path: p,
                    timestamp: ts,
                    source: src,
                    session_id: sid,
                    user_id: uid,
                },
                j,
            )),
            None => None,
        };
    }
    if let Some(k) = scan_tag_file_deleted(s, i1) {
        return match parse_data_psu(s, k) {
            Some(((p, src, sid, uid), j)) => Some((
                SyncMessage::FileDeleted { path: p, source: src, session_id: sid, user_id: uid },
                j,
            )),
            None => None,
        };
    }
    if let Some(k) = scan_tag_folder_deleted(s, i1) {
        return match parse_data_pu(s, k) {
            Some(((p, sid, uid), j)) => Some((
                SyncMessage::FolderDeleted { path: p, session_id: sid, user_id: uid },
                j,
            )),
            None => None,
        };
    }
    if let Some(k) = scan_tag_object_created(s, i1) {
        return match parse_data_psu(s, k) {
            Some(((p, src, sid, uid), j)) => Some((
                SyncMessage::ObjectCreated { path: p, source: src, session_id: sid, user_id: uid },
                j,
            )),
            None => None,
        };
    }
    if let Some(k) = scan_tag_object_deleted(s, i1) {
        return match parse_data_psu(s, k) {
            Some(((p, src, sid, uid), j)) => Some((
                SyncMessage::ObjectDeleted { path: p, source: src, session_id: sid, user_id: uid },
                j,
            )),
            None => None,
        };
    }
    if let Some(k) = scan_tag_ping(s, i1) {
        return match scan_lit_unit_close(s, k) {
            Some(j) => Some((SyncMessage::Ping, j)),
            None => None,
        };
    }
    if let Some(k) = scan_tag_pong(s, i1) {
        return match scan_lit_unit_close(s, k) {
            Some(j) => Some((SyncMessage::Pong, j)),
            None => None,
        };
    }
    None
}

/// Reads one envelope from `s`.  Succeeds exactly when the whole of `s` is
/// a well-formed envelope object, and then returns the envelope that
/// `dec_envelope` gives; a malformed payload is rejected, never trusted.
pub fn decode_envelope(s: &[u8]) -> (r: Result<SyncEnvelope, DecodeError>)
    ensures
        match r {
            Ok(env) => dec_envelope(s@) == Some(env@),
            Err(_) => dec_envelope(s@) is None,
        },
{
    let _ = s.len();  // pins the input's length into the usize range the position arithmetic needs
    let j1 = match scan_lit_env_open(s, 0) {
        Some(j) => j,
        None => {
            return Err(DecodeError::Malformed);
        },
    };
    let (sender, j2) = match parse_id(s, j1) {
        Some(pr) => pr,
        None => {
            return Err(DecodeError::Malformed);
        },
    };
    let j3 = match scan_lit_env_msg(s, j2) {
        Some(j) => j,
        None => {
            return Err(DecodeError::Malformed);
        },
    };
    let (m, j4) = match parse_message(s, j3) {
        Some(pr) => pr,
        None => {
            return Err(DecodeError::Malformed);
        },
    };
    let closing: &[u8] = &[125u8];
    let j5 = match parse_lit(s, j4, closing) {
        Some(j) => j,
        None => {
            proof {
                assert(closing@ =~= seq![125u8]);
            }
            return Err(DecodeError::Malformed);
        },
    };
    proof {
        assert(closing@ =~= seq![125u8]);
    }
    if j5 != s.len() {
        return Err(DecodeError::Malformed);
    }
    Ok(SyncEnvelope { sender_id: sender, message: m })
}

} // verus!

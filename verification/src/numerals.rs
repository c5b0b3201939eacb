//! Textual numerals used by the wire format: fixed-width lowercase
//! hexadecimal (identities) and decimal (timestamps), with the lemmas that
//! reading a written numeral gives the value back.

use vstd::prelude::*;

verus! {

/// `16^n`.
pub open spec fn pow16(n: nat) -> nat
    decreases n,
{
    if n == 0 {
        1
    } else {
        16 * pow16((n - 1) as nat)
    }
}

pub proof fn lemma_pow16_32()
    ensures
        pow16(32) == 0x100000000000000000000000000000000,
        pow16(16) == 0x10000000000000000,
{
    reveal_with_fuel(pow16, 33);
}

pub proof fn lemma_pow16_mono(a: nat, b: nat)
    requires
        a <= b,
    ensures
        pow16(a) <= pow16(b),
    decreases b,
{
    if a < b {
        lemma_pow16_mono(a, (b - 1) as nat);
        assert(pow16(b) == 16 * pow16((b - 1) as nat));
    }
}

/// The lowercase hexadecimal character of a digit value below 16.
pub open spec fn hex_digit_char(d: u8) -> u8 {
    if d < 10 {
        (48 + d) as u8
    } else {
        (87 + d) as u8
    }
}

/// The digit value of a hexadecimal character, either case; 255 marks a
/// byte that is no hexadecimal digit.
pub open spec fn hex_val(b: u8) -> u8 {
    if 48 <= b <= 57 {
        (b - 48) as u8
    } else if 97 <= b <= 102 {
        (b - 87) as u8
    } else if 65 <= b <= 70 {
        (b - 55) as u8
    } else {
        255
    }
}

pub open spec fn is_hex(b: u8) -> bool {
    hex_val(b) != 255
}

/// The `n` lowest hexadecimal digits of `v`, most significant first.
pub open spec fn hex_digits(v: nat, n: nat) -> Seq<u8>
    decreases n,
{
    if n == 0 {
        Seq::empty()
    } else {
        hex_digits(v / 16, (n - 1) as nat).push(hex_digit_char((v % 16) as u8))
    }
}

/// The value that a sequence of hexadecimal digit characters denotes.
pub open spec fn hex_seq_val(s: Seq<u8>) -> nat
    decreases s.len(),
{
    if s.len() == 0 {
        0nat
    } else {
        (hex_seq_val(s.drop_last()) * 16 + hex_val(s.last())) as nat
    }
}

pub proof fn lemma_hex_digit_char_val(d: u8)
    requires
        d < 16,
    ensures
        is_hex(hex_digit_char(d)),
        hex_val(hex_digit_char(d)) == d,
{
}

pub proof fn lemma_hex_digits_len(v: nat, n: nat)
    ensures
        hex_digits(v, n).len() == n,
    decreases n,
{
    if n > 0 {
        lemma_hex_digits_len(v / 16, (n - 1) as nat);
    }
}

pub proof fn lemma_hex_digits_are_hex(v: nat, n: nat)
    ensures
        forall|k: int| 0 <= k < n ==> is_hex(#[trigger] hex_digits(v, n)[k]),
    decreases n,
{
    lemma_hex_digits_len(v, n);
    if n > 0 {
        lemma_hex_digits_are_hex(v / 16, (n - 1) as nat);
        lemma_hex_digits_len(v / 16, (n - 1) as nat);
        let s = hex_digits(v, n);
        let t = hex_digits(v / 16, (n - 1) as nat);
        assert forall|k: int| 0 <= k < n implies is_hex(s[k]) by {
            if k < n - 1 {
                assert(s[k] == t[k]);
            } else {
                lemma_hex_digit_char_val((v % 16) as u8);
            }
        }
    }
}

pub proof fn lemma_hex_seq_val_of_digits(v: nat, n: nat)
    requires
        v < pow16(n),
    ensures
        hex_seq_val(hex_digits(v, n)) == v,
    decreases n,
{
    if n == 0 {
    } else {
        assert(pow16(n) == 16 * pow16((n - 1) as nat));
        assert(v / 16 < pow16((n - 1) as nat)) by (nonlinear_arith)
            requires
                v < 16 * pow16((n - 1) as nat),
        ;
        lemma_hex_seq_val_of_digits(v / 16, (n - 1) as nat);
        lemma_hex_digits_len(v / 16, (n - 1) as nat);
        let s = hex_digits(v, n);
        assert(s.drop_last() =~= hex_digits(v / 16, (n - 1) as nat));
        lemma_hex_digit_char_val((v % 16) as u8);
    }
}

pub proof fn lemma_hex_seq_val_bound(s: Seq<u8>)
    requires
        forall|k: int| 0 <= k < s.len() ==> is_hex(#[trigger] s[k]),
    ensures
        hex_seq_val(s) < pow16(s.len() as nat),
    decreases s.len(),
{
    if s.len() > 0 {
        lemma_hex_seq_val_bound(s.drop_last());
        assert(hex_val(s.last()) < 16);
        assert(hex_seq_val(s.drop_last()) * 16 + 16 <= pow16((s.len() - 1) as nat) * 16) by (nonlinear_arith)
            requires
                hex_seq_val(s.drop_last()) < pow16((s.len() - 1) as nat),
        ;
    }
}

/// The decimal digit characters of `v`, most significant first, without
/// leading zeros.
pub open spec fn dec_digits(v: nat) -> Seq<u8>
    decreases v,
{
    if v < 10 {
        seq![(48 + v) as u8]
    } else {
        dec_digits(v / 10).push((48 + v % 10) as u8)
    }
}

pub open spec fn is_dec(b: u8) -> bool {
    48 <= b <= 57
}

/// The value that a sequence of decimal digit characters denotes.
pub open spec fn dec_seq_val(s: Seq<u8>) -> nat
    decreases s.len(),
{
    if s.len() == 0 {
        0nat
    } else {
        (dec_seq_val(s.drop_last()) * 10 + (s.last() - 48)) as nat
    }
}

pub proof fn lemma_dec_digits_ok(v: nat)
    ensures
        dec_digits(v).len() >= 1,
        forall|k: int| 0 <= k < dec_digits(v).len() ==> is_dec(#[trigger] dec_digits(v)[k]),
        dec_seq_val(dec_digits(v)) == v,
    decreases v,
{
    if v < 10 {
        let s = dec_digits(v);
        assert(s =~= seq![(48 + v) as u8]);
        assert(s.drop_last() =~= Seq::<u8>::empty());
        assert(dec_seq_val(Seq::<u8>::empty()) == 0);
        assert(dec_seq_val(s) == dec_seq_val(s.drop_last()) * 10 + (s.last() - 48));
        assert(s.last() == (48 + v) as u8);
    } else {
        lemma_dec_digits_ok(v / 10);
        let s = dec_digits(v);
        let t = dec_digits(v / 10);
        assert(s.drop_last() =~= t);
        assert(s.last() == (48 + v % 10) as u8);
        assert(dec_seq_val(s) == dec_seq_val(t) * 10 + (v % 10));
        assert(dec_seq_val(t) * 10 + v % 10 == v);
        assert forall|k: int| 0 <= k < s.len() implies is_dec(s[k]) by {
            if k < s.len() - 1 {
                assert(s[k] == t[k]);
            }
        }
    }
}

/// Where the run of decimal digits that starts at `i` ends.
pub open spec fn digit_run_end(s: Seq<u8>, i: int) -> int
    decreases s.len() - i,
{
    if 0 <= i < s.len() && is_dec(s[i]) {
        digit_run_end(s, i + 1)
    } else {
        i
    }
}

pub proof fn lemma_digit_run_end_props(s: Seq<u8>, i: int)
    requires
        0 <= i <= s.len(),
    ensures
        i <= digit_run_end(s, i) <= s.len(),
        forall|k: int| i <= k < digit_run_end(s, i) ==> is_dec(#[trigger] s[k]),
        digit_run_end(s, i) == s.len() || !is_dec(s[digit_run_end(s, i)]),
    decreases s.len() - i,
{
    if i < s.len() && is_dec(s[i]) {
        lemma_digit_run_end_props(s, i + 1);
    }
}

pub proof fn lemma_digit_run_end_at(s: Seq<u8>, i: int, j: int)
    requires
        0 <= i <= j <= s.len(),
        forall|k: int| i <= k < j ==> is_dec(#[trigger] s[k]),
        j == s.len() || !is_dec(s[j]),
    ensures
        digit_run_end(s, i) == j,
    decreases j - i,
{
    if i < j {
        lemma_digit_run_end_at(s, i + 1, j);
    }
}

/// Appending digit characters can only grow the denoted value.
pub proof fn lemma_dec_seq_val_append_mono(s: Seq<u8>, t: Seq<u8>)
    requires
        forall|k: int| 0 <= k < t.len() ==> is_dec(#[trigger] t[k]),
    ensures
        dec_seq_val(s + t) >= dec_seq_val(s),
    decreases t.len(),
{
    if t.len() == 0 {
        assert(s + t =~= s);
    } else {
        lemma_dec_seq_val_append_mono(s, t.drop_last());
        assert((s + t).drop_last() =~= s + t.drop_last());
        assert(dec_seq_val(s + t) == dec_seq_val(s + t.drop_last()) * 10 + ((s + t).last() - 48));
        assert(dec_seq_val(s + t.drop_last()) * 10 >= dec_seq_val(s + t.drop_last()));
    }
}

/// A decimal numeral read at position `i`: the value of the maximal digit
/// run, or nothing when no digit stands there.
pub open spec fn dec_num(s: Seq<u8>, i: int) -> Option<(nat, int)> {
    let j = digit_run_end(s, i);
    if 0 <= i && j == i {
        None
    } else if 0 <= i <= s.len() {
        Some((dec_seq_val(s.subrange(i, j)), j))
    } else {
        None
    }
}

/// Reading the written digits of `v` gives `v` back, provided no further
/// digit follows.
pub proof fn lemma_dec_num_of_digits(s: Seq<u8>, i: int, v: nat)
    requires
        0 <= i,
        i + dec_digits(v).len() <= s.len(),
        s.subrange(i, i + dec_digits(v).len()) == dec_digits(v),
        i + dec_digits(v).len() == s.len() || !is_dec(s[i + dec_digits(v).len()]),
    ensures
        dec_num(s, i) == Some((v, i + dec_digits(v).len())),
{
    lemma_dec_digits_ok(v);
    let n = dec_digits(v).len() as int;
    assert forall|k: int| i <= k < i + n implies is_dec(#[trigger] s[k]) by {
        assert(s[k] == dec_digits(v)[k - i]);
    }
    lemma_digit_run_end_at(s, i, i + n);
}

/// Executable form of [`hex_val`].
pub fn hex_val_of(b: u8) -> (r: u8)
    ensures
        r == hex_val(b),
{
    if 48 <= b && b <= 57 {
        b - 48
    } else if 97 <= b && b <= 102 {
        b - 87
    } else if 65 <= b && b <= 70 {
        b - 55
    } else {
        255
    }
}

/// Appends the `n` lowest hexadecimal digits of `v` to `out`.
pub fn push_hex_digits(out: &mut Vec<u8>, v: u128, n: usize)
    ensures
        final(out)@ == old(out)@ + hex_digits(v as nat, n as nat),
    decreases n,
{
    if n == 0 {
        proof {
            assert(out@ =~= out@ + hex_digits(v as nat, 0));
        }
    } else {
        push_hex_digits(out, v / 16, n - 1);
        let d: u8 = (v % 16) as u8;
        let c: u8 = if d < 10 {
            48 + d
        } else {
            87 + d
        };
        out.push(c);
        proof {
            assert(c == hex_digit_char((v as nat % 16) as u8));
            assert(old(out)@ + hex_digits(v as nat, n as nat) =~= (old(out)@ + hex_digits(
                v as nat / 16,
                (n - 1) as nat,
            )).push(hex_digit_char((v as nat % 16) as u8)));
        }
    }
}

/// Appends the decimal digits of `v` to `out`.
pub fn push_dec_digits(out: &mut Vec<u8>, v: u64)
    ensures
        final(out)@ == old(out)@ + dec_digits(v as nat),
    decreases v,
{
    if v < 10 {
        out.push(48 + v as u8);
        proof {
            assert(old(out)@ + dec_digits(v as nat) =~= old(out)@.push((48 + v as nat) as u8));
        }
    } else {
        push_dec_digits(out, v / 10);
        out.push(48 + (v % 10) as u8);
        proof {
            assert(old(out)@ + dec_digits(v as nat) =~= (old(out)@ + dec_digits(
                v as nat / 10,
            )).push((48 + v as nat % 10) as u8));
        }
    }
}

/// Reads a decimal numeral at position `i` as a `u64`; nothing when no
/// digit stands there or the value does not fit.
pub fn parse_dec_u64(s: &[u8], i: usize) -> (r: Option<(u64, usize)>)
    requires
        i <= s@.len(),
    ensures
        match dec_num(s@, i as int) {
            Option::None => r is None,
            Option::Some((v, j)) => if v < 0x10000000000000000 {
                r == Some((v as u64, j as usize))
            } else {
                r is None
            },
        },
        r matches Some(pr) ==> i <= pr.1 <= s@.len(),
{
    proof {
        lemma_digit_run_end_props(s@, i as int);
    }
    let ghost end = digit_run_end(s@, i as int);
    let mut j: usize = i;
    let mut acc: u64 = 0;
    let mut overflowed: bool = false;
    while j < s.len() && 48 <= s[j] && s[j] <= 57
        invariant
            i <= j <= s@.len(),
            end == digit_run_end(s@, i as int),
            i as int <= end <= s@.len(),
            forall|k: int| i <= k < end ==> is_dec(#[trigger] s@[k]),
            end == s@.len() || !is_dec(s@[end]),
            forall|k: int| i <= k < j ==> is_dec(#[trigger] s@[k]),
            j <= end,
            !overflowed ==> acc == dec_seq_val(s@.subrange(i as int, j as int)),
            overflowed ==> dec_seq_val(s@.subrange(i as int, j as int))
                >= 0x10000000000000000,
        decreases s@.len() - j,
    {
        let d: u64 = (s[j] - 48) as u64;
        proof {
            assert(is_dec(s@[j as int]));
            if j as int == end {
                assert(false);
            }
            let pre = s@.subrange(i as int, j as int);
            let cur = s@.subrange(i as int, j + 1);
            assert(cur.drop_last() =~= pre);
            assert(cur.last() == s@[j as int]);
            assert(dec_seq_val(cur) == dec_seq_val(pre) * 10 + (s@[j as int] - 48));
        }
        if !overflowed {
            match acc.checked_mul(10) {
                Some(m) => match m.checked_add(d) {
                    Some(a) => {
                        acc = a;
                    },
                    None => {
                        overflowed = true;
                    },
                },
                None => {
                    overflowed = true;
                },
            }
        } else {
            proof {
                let pre = s@.subrange(i as int, j as int);
                assert(dec_seq_val(pre) * 10 >= dec_seq_val(pre));
            }
        }
        j += 1;
    }
    proof {
        lemma_digit_run_end_at(s@, j as int, j as int);
        if (j as int) < s@.len() && is_dec(s@[j as int]) {
            assert(false);
        }
        lemma_digit_run_end_at(s@, i as int, j as int);
        assert(end == j as int);
    }
    if j == i {
        return Option::None;
    }
    if overflowed {
        return Option::None;
    }
    Option::Some((acc, j))
}

} // verus!

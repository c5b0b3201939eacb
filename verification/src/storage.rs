//! Decisions of the storage request handlers: where an object lives, how
//! a duplicate upload is handled, which status a request is answered
//! with, and which stored records a listing shows.
//!
//! The storage backend itself (put, get, delete, list) is an external
//! collaborator; the handlers around it perform the I/O and call in here
//! with plain values.

use vstd::prelude::*;
use crate::codec::enc_id;
use crate::database::FontRecord;
use crate::encode::push_id;
use crate::ids::Id;

verus! {

/// The object key a user's file is stored under: the user identity, a
/// slash, and the file's relative path.
pub fn object_key(user: Id, relative_path: &Vec<u8>) -> (r: Vec<u8>)
    ensures
        r@ == enc_id(user) + seq![47u8] + relative_path@,
{
    let mut out: Vec<u8> = Vec::new();
    push_id(&mut out, user);
    out.push(47);
    let mut k: usize = 0;
    while k < relative_path.len()
        invariant
            k <= relative_path@.len(),
            out@ == enc_id(user) + seq![47u8] + relative_path@.take(k as int),
        decreases relative_path@.len() - k,
    {
        out.push(relative_path[k]);
        proof {
            assert(enc_id(user) + seq![47u8] + relative_path@.take(k + 1) =~= (enc_id(user)
                + seq![47u8] + relative_path@.take(k as int)).push(relative_path@[k as int]));
        }
        k += 1;
    }
    proof {
        assert(relative_path@.take(relative_path@.len() as int) =~= relative_path@);
        assert(out@ =~= enc_id(user) + seq![47u8] + relative_path@);
    }
    out
}

/// What the storage backend said when asked whether an object exists.
#[derive(Clone, Copy, PartialEq, Eq, Structural, Debug)]
pub enum HeadOutcome {
    Found,
    NotFound,
    Error,
}

/// How an upload proceeds after the duplicate check.
#[derive(Clone, Copy, PartialEq, Eq, Structural, Debug)]
pub enum DuplicateAction {
    /// No stored record matches: store the file.
    Proceed,
    /// A record matches and its object exists: answer with the existing
    /// path, store nothing.
    ReportDuplicate,
    /// A record matches but its object is gone: remove the stale record,
    /// then store the file.
    CleanupAndProceed,
    /// The backend could not say: fail the upload.
    Fail,
}

/// The duplicate-handling decision of an upload: `existing_found` is
/// whether the metadata store already holds a record of this checksum and
/// key, and `head` is what the storage backend said of that record's
/// object — only consulted when a record was found.
pub fn duplicate_action(existing_found: bool, head: HeadOutcome) -> (r: DuplicateAction)
    ensures
        r == (if !existing_found {
            DuplicateAction::Proceed
        } else {
            match head {
                HeadOutcome::Found => DuplicateAction::ReportDuplicate,
                HeadOutcome::NotFound => DuplicateAction::CleanupAndProceed,
                HeadOutcome::Error => DuplicateAction::Fail,
            }
        }),
{
    if !existing_found {
        DuplicateAction::Proceed
    } else {
        match head {
            HeadOutcome::Found => DuplicateAction::ReportDuplicate,
            HeadOutcome::NotFound => DuplicateAction::CleanupAndProceed,
            HeadOutcome::Error => DuplicateAction::Fail,
        }
    }
}

/// The status a deletion is answered with: a missing object is 404, an
/// unreachable backend 500, a completed deletion 200, a failed one 500.
pub fn delete_status(head: HeadOutcome, delete_ok: bool) -> (r: u16)
    ensures
        r == (match head {
            HeadOutcome::NotFound => 404u16,
            HeadOutcome::Error => 500u16,
            HeadOutcome::Found => if delete_ok {
                200u16
            } else {
                500u16
            },
        }),
{
    match head {
        HeadOutcome::NotFound => 404,
        HeadOutcome::Error => 500,
        HeadOutcome::Found => if delete_ok {
            200
        } else {
            500
        },
    }
}

/// The status a failed download is answered with: 404 when the key does
/// not exist, 500 for any other backend failure.
pub fn get_font_status(no_such_key: bool) -> (r: u16)
    ensures
        r == (if no_such_key {
            404u16
        } else {
            500u16
        }),
{
    if no_such_key {
        404
    } else {
        500
    }
}

/// Whether a listing of object keys holds this path.
pub open spec fn key_listed(keys: Seq<Seq<char>>, path: Seq<char>) -> bool {
    exists|j: int| 0 <= j < keys.len() && keys[j] == path
}

/// The records whose stored object still exists, in their stored order.
pub open spec fn matched_records(fonts: Seq<FontRecord>, keys: Seq<Seq<char>>) -> Seq<FontRecord>
    decreases fonts.len(),
{
    if fonts.len() == 0 {
        fonts
    } else {
        let rest = matched_records(fonts.drop_first(), keys);
        if key_listed(keys, fonts[0].object_path@) {
            seq![fonts[0]] + rest
        } else {
            rest
        }
    }
}

proof fn lemma_matched_app(fonts1: Seq<FontRecord>, fonts2: Seq<FontRecord>, keys: Seq<Seq<char>>)
    ensures
        matched_records(fonts1 + fonts2, keys) == matched_records(fonts1, keys)
            + matched_records(fonts2, keys),
    decreases fonts1.len(),
{
    if fonts1.len() == 0 {
        assert(fonts1 + fonts2 =~= fonts2);
        assert(matched_records(fonts1, keys) + matched_records(fonts2, keys) =~= matched_records(
            fonts2,
            keys,
        ));
    } else {
        assert((fonts1 + fonts2).drop_first() =~= fonts1.drop_first() + fonts2);
        assert((fonts1 + fonts2)[0] == fonts1[0]);
        lemma_matched_app(fonts1.drop_first(), fonts2, keys);
        if key_listed(keys, fonts1[0].object_path@) {
            assert(seq![fonts1[0]] + (matched_records(fonts1.drop_first(), keys)
                + matched_records(fonts2, keys)) =~= (seq![fonts1[0]] + matched_records(
                fonts1.drop_first(),
                keys,
            )) + matched_records(fonts2, keys));
        }
    }
}

proof fn lemma_matched_one(f: FontRecord, keys: Seq<Seq<char>>)
    ensures
        matched_records(seq![f], keys) == if key_listed(keys, f.object_path@) {
            seq![f]
        } else {
            Seq::<FontRecord>::empty()
        },
{
    reveal_with_fuel(matched_records, 2);
    let s = seq![f];
    assert(s.drop_first() =~= Seq::<FontRecord>::empty());
    if key_listed(keys, f.object_path@) {
        assert(seq![f] + Seq::<FontRecord>::empty() =~= seq![f]);
    } else {
        assert(matched_records(s, keys) =~= Seq::<FontRecord>::empty());
    }
}

fn strings_equal(a: &String, b: &String) -> (r: bool)
    ensures
        r == (a@ == b@),
{
    a.eq(b)
}

/// Whether a listing of object keys holds this path.
fn key_contains(keys: &Vec<String>, path: &String) -> (r: bool)
    ensures
        r == key_listed(keys.deep_view(), path@),
{
    let mut j: usize = 0;
    while j < keys.len()
        invariant
            j <= keys@.len(),
            forall|t: int| 0 <= t < j ==> keys.deep_view()[t] != path@,
        decreases keys@.len() - j,
    {
        if strings_equal(&keys[j], path) {
            proof {
                assert(keys.deep_view()[j as int] == keys@[j as int]@);
            }
            return true;
        }
        proof {
            assert(keys.deep_view()[j as int] == keys@[j as int]@);
        }
        j += 1;
    }
    proof {
        if key_listed(keys.deep_view(), path@) {
            let w = choose|w: int| 0 <= w < keys.deep_view().len() && keys.deep_view()[w]
                == path@;
            assert(keys.deep_view()[w] != path@);
        }
    }
    false
}

/// The listing a user sees: the stored records whose object still exists
/// in storage, in their stored order.
pub fn match_records(fonts: Vec<FontRecord>, s3_keys: &Vec<String>) -> (r: Vec<FontRecord>)
    ensures
        r@ == matched_records(fonts@, s3_keys.deep_view()),
{
    let ghost orig = fonts@;
    let ghost keys = s3_keys.deep_view();
    let ghost mut p: Seq<FontRecord> = Seq::empty();
    let mut fonts = fonts;
    let mut kept: Vec<FontRecord> = Vec::new();
    proof {
        assert(orig =~= p + fonts@);
        assert(matched_records(p, keys) =~= Seq::<FontRecord>::empty());
        assert(kept@ =~= matched_records(p, keys));
    }
    while fonts.len() > 0
        invariant
            keys == s3_keys.deep_view(),
            orig == p + fonts@,
            kept@ == matched_records(p, keys),
        decreases fonts@.len(),
    {
        let ghost pre = fonts@;
        let f = fonts.remove(0);
        proof {
            assert(fonts@ =~= pre.drop_first());
            lemma_matched_app(p, seq![f], keys);
            lemma_matched_one(f, keys);
            assert(p + seq![f] =~= p.push(f));
            assert(orig =~= (p + seq![f]) + fonts@) by {
                assert(p + (seq![f] + pre.drop_first()) =~= (p + seq![f]) + pre.drop_first());
            }
            p = p.push(f);
        }
        if key_contains(s3_keys, &f.object_path) {
            let ghost kpre = kept@;
            kept.push(f);
            proof {
                assert(kept@ =~= matched_records(p, keys)) by {
                    assert(matched_records(p, keys) =~= kpre + seq![f]);
                    assert(kpre.push(f) =~= kpre + seq![f]);
                }
            }
        } else {
            proof {
                assert(kept@ =~= matched_records(p, keys)) by {
                    assert(matched_records(p, keys) =~= kept@ + Seq::<FontRecord>::empty());
                    assert(kept@ + Seq::<FontRecord>::empty() =~= kept@);
                }
            }
        }
    }
    proof {
        assert(fonts@ =~= Seq::<FontRecord>::empty());
        assert(orig =~= p) by {
            assert(p + Seq::<FontRecord>::empty() =~= p);
        }
    }
    kept
}

} // verus!

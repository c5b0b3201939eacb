//! Process-wide identities.
//!
//! Every session, every user and the server process itself are identified by
//! a 128-bit value.  On the wire an identity appears as the usual hyphenated
//! hexadecimal string of 36 characters; the codec in `crate::codec` encodes
//! and decodes that form.

use vstd::prelude::*;

verus! {

/// A 128-bit identity: a session, a user, or the reserved server identity.
#[derive(Clone, Copy, PartialEq, Eq, Structural, Hash, Debug)]
pub struct Id(pub u128);

impl Id {
    /// The nil identity, used as the fallback session hint when a client
    /// supplies none.
    pub fn nil() -> (r: Id)
        ensures
            r == (Id(0)),
    {
        Id(0)
    }
}

/// Relies on `uuid::Uuid::new_v4` to draw a fresh random identity.
/// Nothing is assumed of the value: the registry replaces any stale entry
/// that happens to carry the same identity.
#[verifier::external_body]
pub(crate) fn fresh_id() -> Id {
    Id(uuid::Uuid::new_v4().as_u128())
}

} // verus!

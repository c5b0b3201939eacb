//! The record shape of the relational metadata store.
//!
//! The store itself is an external collaborator; the hub hands it records
//! of this shape and receives them back as plain values.

use vstd::prelude::*;

verus! {

/// One stored font: its names, its object path in storage, and the
/// fingerprint of its bytes.
#[derive(Clone, Debug, PartialEq, Eq)]
pub struct FontRecord {
    pub font_family: String,
    pub font_subfamily: String,
    pub object_path: String,
    pub checksum: String,
}

} // verus!

//! Font metadata: selecting display names from a font's name table and
//! fingerprinting the font bytes.
//!
//! Parsing the font itself and decoding its name strings is the work of
//! an outside library; the records it yields are plain values, and the
//! selection rules on them — Windows platform first, Unicode encoding
//! before symbol encoding, typographic names before legacy ones — are
//! verified here.

use vstd::prelude::*;

verus! {

/// The platform a name record belongs to, as the font file declares it.
#[derive(Clone, Copy, PartialEq, Eq, Structural, Debug)]
pub enum Platform {
    Unicode,
    Macintosh,
    Iso,
    Windows,
    Custom,
}

/// One decoded record of a font's name table.
#[derive(Clone, Debug, PartialEq, Eq)]
pub struct NameRecord {
    pub name_id: u16,
    pub platform: Platform,
    pub encoding_id: u16,
    pub value: String,
}

/// The TrueType/OpenType name identifiers the hub reads.
pub const COPYRIGHT_NOTICE: u16 = 0;

pub const FAMILY: u16 = 1;

pub const SUBFAMILY: u16 = 2;

pub const MANUFACTURER: u16 = 8;

pub const DESIGNER: u16 = 9;

pub const LICENSE: u16 = 13;

pub const TYPOGRAPHIC_FAMILY: u16 = 16;

pub const TYPOGRAPHIC_SUBFAMILY: u16 = 17;

/// Whether a record carries the sought name on the Windows platform in
/// the given encoding.
pub open spec fn name_match(r: NameRecord, target: u16, enc: u16) -> bool {
    r.name_id == target && r.platform is Windows && r.encoding_id == enc
}

/// The position of the first matching record, or -1 when none matches.
pub open spec fn first_match(recs: Seq<NameRecord>, target: u16, enc: u16) -> int
    decreases recs.len(),
{
    if recs.len() == 0 {
        -1
    } else if name_match(recs[0], target, enc) {
        0
    } else {
        let r = first_match(recs.drop_first(), target, enc);
        if r == -1 {
            -1
        } else {
            r + 1
        }
    }
}

proof fn lemma_first_match_at(recs: Seq<NameRecord>, target: u16, enc: u16, i: int)
    requires
        0 <= i < recs.len(),
        name_match(recs[i], target, enc),
        forall|k: int| 0 <= k < i ==> !name_match(#[trigger] recs[k], target, enc),
    ensures
        first_match(recs, target, enc) == i,
    decreases recs.len(),
{
    if i > 0 {
        let tail = recs.drop_first();
        assert(tail[i - 1] == recs[i]);
        assert forall|k: int| 0 <= k < i - 1 implies !name_match(tail[k], target, enc) by {
            assert(recs[k + 1] == tail[k]);
        }
        lemma_first_match_at(tail, target, enc, i - 1);
    }
}

proof fn lemma_first_match_none(recs: Seq<NameRecord>, target: u16, enc: u16)
    requires
        forall|k: int| 0 <= k < recs.len() ==> !name_match(#[trigger] recs[k], target, enc),
    ensures
        first_match(recs, target, enc) == -1,
    decreases recs.len(),
{
    if recs.len() > 0 {
        let tail = recs.drop_first();
        assert forall|k: int| 0 <= k < tail.len() implies !name_match(tail[k], target, enc) by {
            assert(recs[k + 1] == tail[k]);
        }
        lemma_first_match_none(tail, target, enc);
    }
}

/// The name string the table yields for an identifier: the first record
/// on the Windows platform with Unicode encoding, else with symbol
/// encoding, else the empty string.
pub open spec fn selected_name(recs: Seq<NameRecord>, target: u16) -> Seq<char> {
    let i1 = first_match(recs, target, 1);
    if i1 != -1 {
        recs[i1].value@
    } else {
        let i0 = first_match(recs, target, 0);
        if i0 != -1 {
            recs[i0].value@
        } else {
            Seq::empty()
        }
    }
}

/// The family name: the typographic family where the font gives one, the
/// legacy family otherwise.
pub open spec fn family_name(recs: Seq<NameRecord>) -> Seq<char> {
    if selected_name(recs, TYPOGRAPHIC_FAMILY as u16).len() > 0 {
        selected_name(recs, TYPOGRAPHIC_FAMILY as u16)
    } else {
        selected_name(recs, FAMILY as u16)
    }
}

/// The subfamily name: the typographic subfamily where the font gives
/// one, the legacy subfamily otherwise.
pub open spec fn subfamily_name(recs: Seq<NameRecord>) -> Seq<char> {
    if selected_name(recs, TYPOGRAPHIC_SUBFAMILY as u16).len() > 0 {
        selected_name(recs, TYPOGRAPHIC_SUBFAMILY as u16)
    } else {
        selected_name(recs, SUBFAMILY as u16)
    }
}

/// Finds the first record of the sought name on the Windows platform in
/// the given encoding.
fn find_name(recs: &Vec<NameRecord>, target: u16, enc: u16) -> (r: Option<usize>)
    ensures
        (match r {
            Some(i) => i < recs@.len() && first_match(recs@, target, enc) == i as int,
            None => first_match(recs@, target, enc) == -1,
        }),
{
    let mut i: usize = 0;
    while i < recs.len()
        invariant
            i <= recs@.len(),
            forall|k: int| 0 <= k < i ==> !name_match(#[trigger] recs@[k], target, enc),
        decreases recs@.len() - i,
    {
        let c = &recs[i];
        if c.name_id == target && c.platform == Platform::Windows && c.encoding_id == enc {
            proof {
                lemma_first_match_at(recs@, target, enc, i as int);
            }
            return Some(i);
        }
        i += 1;
    }
    proof {
        lemma_first_match_none(recs@, target, enc);
    }
    None
}

/// Reads the name string for an identifier, as [`selected_name`] gives
/// it.
pub fn get_name_string(recs: &Vec<NameRecord>, target: u16) -> (r: String)
    ensures
        r@ == selected_name(recs@, target),
{
    match find_name(recs, target, 1) {
        Some(i) => recs[i].value.clone(),
        None => match find_name(recs, target, 0) {
            Some(i) => recs[i].value.clone(),
            None => String::new(),
        },
    }
}

/// The font's family name, typographic over legacy.
pub fn get_font_family(recs: &Vec<NameRecord>) -> (r: String)
    ensures
        r@ == family_name(recs@),
{
    let primary = get_name_string(recs, TYPOGRAPHIC_FAMILY);
    if !primary.as_str().is_empty() {
        primary
    } else {
        get_name_string(recs, FAMILY)
    }
}

/// The font's subfamily name, typographic over legacy.
pub fn get_font_subfamily(recs: &Vec<NameRecord>) -> (r: String)
    ensures
        r@ == subfamily_name(recs@),
{
    let primary = get_name_string(recs, TYPOGRAPHIC_SUBFAMILY);
    if !primary.as_str().is_empty() {
        primary
    } else {
        get_name_string(recs, SUBFAMILY)
    }
}

pub fn get_copyright_notice(recs: &Vec<NameRecord>) -> (r: String)
    ensures
        r@ == selected_name(recs@, COPYRIGHT_NOTICE as u16),
{
    get_name_string(recs, COPYRIGHT_NOTICE)
}

pub fn get_license(recs: &Vec<NameRecord>) -> (r: String)
    ensures
        r@ == selected_name(recs@, LICENSE as u16),
{
    get_name_string(recs, LICENSE)
}

pub fn get_foundry(recs: &Vec<NameRecord>) -> (r: String)
    ensures
        r@ == selected_name(recs@, MANUFACTURER as u16),
{
    get_name_string(recs, MANUFACTURER)
}

pub fn get_designer(recs: &Vec<NameRecord>) -> (r: String)
    ensures
        r@ == selected_name(recs@, DESIGNER as u16),
{
    get_name_string(recs, DESIGNER)
}

/// The lowercase hexadecimal BLAKE3 fingerprint of a byte string: 64
/// characters, a function of the bytes alone.
pub uninterp spec fn blake3_hex(data: Seq<u8>) -> Seq<char>;

/// Relies on `blake3::Hasher` (`new`, `update`, `finalize`) and on the
/// `Display` of `blake3::Hash`: the lowercase hexadecimal form of the
/// 32-byte digest, 64 characters, depending on the input bytes alone.
#[verifier::external_body]
pub fn calculate_checksum(data: &[u8]) -> (r: String)
    ensures
        r@ == blake3_hex(data@),
        r@.len() == 64,
{
    let mut hasher = blake3::Hasher::new();
    hasher.update(data);
    format!("{}", hasher.finalize())
}

/// The decoded name table of a font file: nothing when the file does not
/// parse as a font, the records (possibly none) otherwise.  A function of
/// the bytes alone.
pub uninterp spec fn name_records_of(data: Seq<u8>) -> Option<Seq<NameRecord>>;

/// Relies on `ttf_parser::Face::parse` and its name table iterator: the
/// record identifiers and decoded strings depend on the font bytes alone.
/// A face without a name table yields no records.
#[verifier::external_body]
fn font_name_records(data: &[u8]) -> (r: Option<Vec<NameRecord>>)
    ensures
        (match r {
            Some(v) => name_records_of(data@) == Some(v@),
            None => name_records_of(data@) is None,
        }),
{
    let face = match ttf_parser::Face::parse(data, 0) {
        Ok(f) => f,
        Err(_) => return None,
    };
    let mut out = Vec::new();
    if let Some(table) = face.tables().name {
        for rec in table.names.into_iter() {
            let (name_id, encoding_id) = (rec.name_id, rec.encoding_id);
            let (platform, value) = (platform_of(rec.platform_id), rec.to_string().unwrap_or_default());
            out.push(NameRecord { name_id, platform, encoding_id, value });
        }
    }
    Some(out)
}

#[verifier::external_type_specification]
#[verifier::external_body]
pub struct ExPlatformId(ttf_parser::PlatformId);

/// Relies on `ttf_parser::PlatformId` only to tell its variants apart.
#[verifier::external_body]
fn platform_of(p: ttf_parser::PlatformId) -> Platform {
    match p {
        ttf_parser::PlatformId::Unicode => Platform::Unicode,
        ttf_parser::PlatformId::Macintosh => Platform::Macintosh,
        ttf_parser::PlatformId::Iso => Platform::Iso,
        ttf_parser::PlatformId::Windows => Platform::Windows,
        ttf_parser::PlatformId::Custom => Platform::Custom,
    }
}

/// Why a font upload's bytes were rejected.
#[derive(Clone, Copy, PartialEq, Eq, Structural, Debug)]
pub enum MetadataError {
    InvalidFont,
}

/// The names and the fingerprint of an uploaded font: its family name,
/// subfamily name and BLAKE3 checksum; bytes that do not parse as a font
/// are rejected.
pub fn extract_metadata(data: &[u8]) -> (r: Result<Option<(String, String, String)>, MetadataError>)
    ensures
        (match name_records_of(data@) {
            Some(recs) => r matches Ok(o) && o matches Some(t) && t.0@ == family_name(recs)
                && t.1@ == subfamily_name(recs) && t.2@ == blake3_hex(data@),
            None => r == Err::<Option<(String, String, String)>, MetadataError>(
                MetadataError::InvalidFont,
            ),
        }),
{
    let checksum = calculate_checksum(data);
    let recs = match font_name_records(data) {
        Some(v) => v,
        None => {
            return Err(MetadataError::InvalidFont);
        },
    };
    let family = get_font_family(&recs);
    let subfamily = get_font_subfamily(&recs);
    Ok(Some((family, subfamily, checksum)))
}

} // verus!

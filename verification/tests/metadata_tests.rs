use fontsync::metadata::{
    calculate_checksum, extract_metadata, get_copyright_notice, get_designer, get_font_family,
    get_font_subfamily, get_foundry, get_license, get_name_string, MetadataError, NameRecord,
    Platform, FAMILY, SUBFAMILY, TYPOGRAPHIC_FAMILY,
};

fn rec(name_id: u16, platform: Platform, encoding_id: u16, value: &str) -> NameRecord {
    NameRecord { name_id, platform, encoding_id, value: value.to_string() }
}

#[test]
fn unicode_encoding_preferred() {
    let recs = vec![
        rec(FAMILY, Platform::Windows, 0, "Symbolic"),
        rec(FAMILY, Platform::Windows, 1, "Unicodish"),
    ];
    assert_eq!(get_name_string(&recs, FAMILY), "Unicodish".to_string());
}

#[test]
fn symbol_encoding_is_fallback() {
    let recs = vec![
        rec(FAMILY, Platform::Macintosh, 1, "MacName"),
        rec(FAMILY, Platform::Windows, 0, "Symbolic"),
    ];
    assert_eq!(get_name_string(&recs, FAMILY), "Symbolic".to_string());
}

#[test]
fn first_matching_record_wins() {
    let recs = vec![
        rec(FAMILY, Platform::Windows, 1, "First"),
        rec(FAMILY, Platform::Windows, 1, "Second"),
    ];
    assert_eq!(get_name_string(&recs, FAMILY), "First".to_string());
}

#[test]
fn missing_name_is_empty() {
    let recs = vec![rec(FAMILY, Platform::Unicode, 1, "NotWindows")];
    assert_eq!(get_name_string(&recs, FAMILY), String::new());
    assert_eq!(get_name_string(&Vec::new(), FAMILY), String::new());
}

#[test]
fn typographic_family_preferred() {
    let recs = vec![
        rec(FAMILY, Platform::Windows, 1, "Legacy"),
        rec(TYPOGRAPHIC_FAMILY, Platform::Windows, 1, "Typographic"),
    ];
    assert_eq!(get_font_family(&recs), "Typographic".to_string());
    let legacy_only = vec![rec(FAMILY, Platform::Windows, 1, "Legacy")];
    assert_eq!(get_font_family(&legacy_only), "Legacy".to_string());
}

#[test]
fn subfamily_and_other_names() {
    let recs = vec![
        rec(SUBFAMILY, Platform::Windows, 1, "Italic"),
        rec(0, Platform::Windows, 1, "(c) someone"),
        rec(13, Platform::Windows, 1, "OFL"),
        rec(8, Platform::Windows, 1, "A Foundry"),
        rec(9, Platform::Windows, 1, "A Designer"),
    ];
    assert_eq!(get_font_subfamily(&recs), "Italic".to_string());
    assert_eq!(get_copyright_notice(&recs), "(c) someone".to_string());
    assert_eq!(get_license(&recs), "OFL".to_string());
    assert_eq!(get_foundry(&recs), "A Foundry".to_string());
    assert_eq!(get_designer(&recs), "A Designer".to_string());
}

#[test]
fn checksum_of_empty_input() {
    let sum = calculate_checksum(&[]);
    assert_eq!(sum, "af1349b9f5f9a1a6a0404dea36dcc9499bcb25c9adc112b7cc9a93cae41f3262".to_string());
}

#[test]
fn checksum_is_a_function_of_the_bytes() {
    let a = calculate_checksum(b"some font bytes");
    let b = calculate_checksum(b"some font bytes");
    let c = calculate_checksum(b"other font bytes");
    assert_eq!(a, b);
    assert_ne!(a, c);
    assert_eq!(a.len(), 64);
    assert!(a.bytes().all(|ch| ch.is_ascii_hexdigit()));
}

#[test]
fn non_font_bytes_rejected() {
    assert_eq!(extract_metadata(b"definitely not a font"), Err(MetadataError::InvalidFont));
    assert_eq!(extract_metadata(&[]), Err(MetadataError::InvalidFont));
}

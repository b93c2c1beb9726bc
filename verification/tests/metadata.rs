use golem_cli::metadata::{
    append_component_name_section, append_module_name_section, component_names_section,
    decode_text, module_names_section, module_names_section_renamed, name_section_fits_of,
    names_rewrite_fits_of, normalize_licenses, normalize_url, AddMetadataField, MetadataValue,
};

#[test]
fn field_modes() {
    let keep: AddMetadataField<u8> = AddMetadataField::Keep;
    let clear: AddMetadataField<u8> = AddMetadataField::Clear;
    let set = AddMetadataField::Replace(1u8);
    assert!(keep.is_keep() && !keep.is_clear());
    assert!(clear.is_clear() && !clear.is_keep());
    assert!(!set.is_keep() && !set.is_clear());
}

#[test]
fn texts_decode_only_from_utf8() {
    assert_eq!(decode_text("héllo".as_bytes()), Some("héllo".to_string()));
    assert_eq!(decode_text(&[0xc3]), None);
}

#[test]
fn licenses_and_urls_are_normalized() {
    assert_eq!(normalize_licenses("MIT"), Some("MIT".to_string()));
    assert_eq!(normalize_licenses("MIT OR"), None);
    assert_eq!(normalize_url("https://example.com"), Some("https://example.com/".to_string()));
    assert_eq!(normalize_url("example"), None);
    assert_eq!(MetadataValue::url("HTTPS://Example.com/a").unwrap().as_str(), "https://example.com/a");
    assert!(MetadataValue::licenses("???").is_none());
    assert_eq!(MetadataValue::text("x").as_str(), "x");
    let mit = MetadataValue::licenses("MIT").unwrap();
    assert_eq!(mit.as_str(), "MIT");
    assert_eq!(mit.clone().as_str(), "MIT");
}

#[test]
fn name_only_sections() {
    let mut out = Vec::new();
    append_module_name_section("m", &mut out);
    assert_eq!(out, vec![0, 9, 4, b'n', b'a', b'm', b'e', 0, 2, 1, b'm']);
    let mut out = Vec::new();
    append_component_name_section("c", &mut out);
    let mut expected = vec![0u8, 19, 14];
    expected.extend_from_slice(b"component-name");
    expected.extend_from_slice(&[0, 2, 1, b'c']);
    assert_eq!(out, expected);
}

#[test]
fn name_sections_are_read_and_written_back() {
    let payload = [0u8, 2, 1, b'a'];
    let kept = module_names_section(&payload, 0).unwrap();
    assert_eq!(kept, vec![9, 4, b'n', b'a', b'm', b'e', 0, 2, 1, b'a']);
    let renamed = module_names_section_renamed(&payload, 0, "b").unwrap();
    assert_eq!(renamed, vec![9, 4, b'n', b'a', b'm', b'e', 0, 2, 1, b'b']);
    assert!(component_names_section(&[0, 9], 0).is_err());
}

#[test]
fn name_section_bounds() {
    assert!(name_section_fits_of("name", "demo"));
    assert!(name_section_fits_of("component-name", ""));
    let max: usize = 0xffff_ffff;
    // `name` takes five bytes with its length, `component-name` fifteen.
    assert!(names_rewrite_fits_of("name", max - 5, None));
    assert!(!names_rewrite_fits_of("name", max - 4, None));
    assert!(names_rewrite_fits_of("component-name", max - 15, None));
    assert!(!names_rewrite_fits_of("component-name", max - 14, None));
    // The subsection for "demo" takes seven bytes.
    assert!(names_rewrite_fits_of("name", max - 12, Some("demo")));
    assert!(!names_rewrite_fits_of("name", max - 11, Some("demo")));
    assert!(names_rewrite_fits_of("component-name", max - 22, Some("demo")));
    assert!(!names_rewrite_fits_of("component-name", max - 21, Some("demo")));
    assert!(!names_rewrite_fits_of("name", max + 1, None));
}

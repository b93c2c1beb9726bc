use golem_cli::encoding::{
    append_custom_section, append_raw_section, component_header, component_section_id,
    core_module_section_id, custom_fits, encode_byte_vec, encode_u32, extend_bytes, leb128_len,
    module_header, starts_with,
};

fn leb(v: u32) -> Vec<u8> {
    let mut out = Vec::new();
    encode_u32(v, &mut out);
    out
}

#[test]
fn leb128_encodings() {
    assert_eq!(leb(0), vec![0x00]);
    assert_eq!(leb(127), vec![0x7f]);
    assert_eq!(leb(128), vec![0x80, 0x01]);
    assert_eq!(leb(624485), vec![0xe5, 0x8e, 0x26]);
    assert_eq!(leb(u32::MAX), vec![0xff, 0xff, 0xff, 0xff, 0x0f]);
}

#[test]
fn leb128_encodings_are_distinct_and_end_on_a_clear_high_bit() {
    let values = [0u32, 1, 127, 128, 255, 256, 16383, 16384, 1 << 21, u32::MAX];
    for (i, a) in values.iter().enumerate() {
        let ea = leb(*a);
        assert!(!ea.is_empty() && ea.len() <= 5);
        assert!(ea[ea.len() - 1] < 0x80);
        assert!(ea[..ea.len() - 1].iter().all(|b| *b >= 0x80));
        for b in values.iter().skip(i + 1) {
            assert_ne!(ea, leb(*b));
        }
    }
}

#[test]
fn byte_vectors_are_length_prefixed() {
    let mut out = vec![9u8];
    encode_byte_vec(&[1, 2, 3], &mut out);
    assert_eq!(out, vec![9, 3, 1, 2, 3]);
}

#[test]
fn raw_sections() {
    let mut out = Vec::new();
    append_raw_section(10, &[0xaa; 130], &mut out);
    assert_eq!(&out[..3], &[10, 0x82, 0x01]);
    assert_eq!(out.len(), 133);
}

#[test]
fn custom_sections() {
    let mut out = Vec::new();
    append_custom_section("ab", &[7, 8], &mut out);
    assert_eq!(out, vec![0, 5, 2, b'a', b'b', 7, 8]);
}

#[test]
fn preambles_and_section_ids() {
    assert_eq!(module_header(), vec![0x00, 0x61, 0x73, 0x6d, 0x01, 0x00, 0x00, 0x00]);
    assert_eq!(component_header(), vec![0x00, 0x61, 0x73, 0x6d, 0x0d, 0x00, 0x01, 0x00]);
    assert_eq!(component_section_id(), 4);
    assert_eq!(core_module_section_id(), 1);
}

#[test]
fn prefixes_and_extension() {
    assert!(starts_with(&[1, 2, 3], &[1, 2]));
    assert!(starts_with(&[1, 2, 3], &[]));
    assert!(!starts_with(&[1, 2, 3], &[2]));
    assert!(!starts_with(&[1], &[1, 2]));
    let mut out = vec![1u8];
    extend_bytes(&mut out, &[2, 3]);
    assert_eq!(out, vec![1, 2, 3]);
}

#[test]
fn encoding_lengths() {
    assert_eq!(leb128_len(0), 1);
    assert_eq!(leb128_len(127), 1);
    assert_eq!(leb128_len(128), 2);
    assert_eq!(leb128_len(16_383), 2);
    assert_eq!(leb128_len(16_384), 3);
    assert_eq!(leb128_len(0xffff_ffff), 5);
    for v in [0u32, 1, 127, 128, 300, 16_384, 2_097_152, 0xffff_ffff] {
        assert_eq!(leb128_len(v as u64) as usize, leb(v).len());
    }
}

#[test]
fn custom_sections_fit_up_to_the_largest_size() {
    // "producers": one byte of length, nine of name.
    assert!(custom_fits(9, 0xffff_ffff - 10));
    assert!(!custom_fits(9, 0xffff_ffff - 9));
    assert!(custom_fits(0, 0xffff_ffff - 1));
    assert!(!custom_fits(0, 0xffff_ffff));
    assert!(!custom_fits(0x1_0000_0000, 0));
    // A name of 128 bytes takes two bytes of length.
    assert!(custom_fits(128, 0xffff_ffff - 130));
    assert!(!custom_fits(128, 0xffff_ffff - 129));
}

use golem_cli::metadata::{AddMetadata, AddMetadataField, MetadataValue};
use golem_cli::payload::WasmPayload;
use golem_cli::producers::Producers;
use golem_cli::rewrite::{rewrite_payloads, rewrite_wasm, RewriteError};

const MODULE_HEADER: [u8; 8] = [0x00, 0x61, 0x73, 0x6d, 0x01, 0x00, 0x00, 0x00];
const COMPONENT_HEADER: [u8; 8] = [0x00, 0x61, 0x73, 0x6d, 0x0d, 0x00, 0x01, 0x00];
const TYPE_SECTION: [u8; 6] = [0x01, 0x04, 0x01, 0x60, 0x00, 0x00];

fn leb(mut n: usize) -> Vec<u8> {
    let mut out = Vec::new();
    loop {
        let byte = (n & 0x7f) as u8;
        n >>= 7;
        if n == 0 {
            out.push(byte);
            return out;
        }
        out.push(byte | 0x80);
    }
}

fn string(s: &[u8]) -> Vec<u8> {
    let mut out = leb(s.len());
    out.extend_from_slice(s);
    out
}

fn custom(name: &str, payload: &[u8]) -> Vec<u8> {
    let mut contents = string(name.as_bytes());
    contents.extend_from_slice(payload);
    let mut out = vec![0u8];
    out.extend(leb(contents.len()));
    out.extend(contents);
    out
}

fn module(sections: &[&[u8]]) -> Vec<u8> {
    let mut out = MODULE_HEADER.to_vec();
    for s in sections {
        out.extend_from_slice(s);
    }
    out
}

fn component(sections: &[&[u8]]) -> Vec<u8> {
    let mut out = COMPONENT_HEADER.to_vec();
    for s in sections {
        out.extend_from_slice(s);
    }
    out
}

fn name_payload(name: &str) -> Vec<u8> {
    let mut out = vec![0u8];
    out.extend(string(&string(name.as_bytes())));
    out
}

fn producers_payload(fields: &[(&str, &[(&str, &str)])]) -> Vec<u8> {
    let mut out = leb(fields.len());
    for (name, values) in fields {
        out.extend(string(name.as_bytes()));
        out.extend(leb(values.len()));
        for (n, v) in values.iter() {
            out.extend(string(n.as_bytes()));
            out.extend(string(v.as_bytes()));
        }
    }
    out
}

fn some_parse_error() -> wasmparser::BinaryReaderError {
    wasmparser::Parser::new(0)
        .parse_all(&[1u8, 2, 3, 4, 5, 6, 7, 8])
        .find_map(|p| p.err())
        .unwrap()
}

fn text(s: &str) -> AddMetadataField<MetadataValue> {
    AddMetadataField::Replace(MetadataValue::text(s))
}

#[test]
fn bare_module_is_unchanged() {
    let input = module(&[]);
    let out = rewrite_wasm(&AddMetadata::keep_all(), &Producers::empty(), &input).unwrap();
    assert_eq!(out, input);
}

#[test]
fn other_sections_are_copied() {
    let input = module(&[&TYPE_SECTION]);
    let out = rewrite_wasm(&AddMetadata::keep_all(), &Producers::empty(), &input).unwrap();
    assert_eq!(out, input);
}

#[test]
fn producers_are_appended_when_missing() {
    let input = module(&[&TYPE_SECTION]);
    let mut add = Producers::empty();
    add.add("language", "Rust", "");
    let out = rewrite_wasm(&AddMetadata::keep_all(), &add, &input).unwrap();
    let expected = module(&[
        &TYPE_SECTION,
        &custom("producers", &producers_payload(&[("language", &[("Rust", "")])])),
    ]);
    assert_eq!(out, expected);
}

#[test]
fn producers_are_merged_in_place() {
    let existing = custom(
        "producers",
        &producers_payload(&[
            ("language", &[("C", ""), ("Rust", "")]),
            ("processed-by", &[("clang", "14")]),
        ]),
    );
    let input = module(&[&existing, &TYPE_SECTION]);
    let mut add = Producers::empty();
    add.add("processed-by", "clang", "15");
    add.add("sdk", "wasi", "1");
    let out = rewrite_wasm(&AddMetadata::keep_all(), &add, &input).unwrap();
    let merged = custom(
        "producers",
        &producers_payload(&[
            ("language", &[("C", ""), ("Rust", "")]),
            ("processed-by", &[("clang", "15")]),
            ("sdk", &[("wasi", "1")]),
        ]),
    );
    assert_eq!(out, module(&[&merged, &TYPE_SECTION]));
}

#[test]
fn malformed_producers_are_refused() {
    let input = module(&[&custom("producers", &[0x01])]);
    let r = rewrite_wasm(&AddMetadata::keep_all(), &Producers::empty(), &input);
    assert!(matches!(r, Err(RewriteError::InvalidProducers(_))));
}

#[test]
fn module_name_is_appended_when_missing() {
    let input = module(&[&TYPE_SECTION]);
    let mut meta = AddMetadata::keep_all();
    meta.name = AddMetadataField::Replace("hello".to_string());
    let out = rewrite_wasm(&meta, &Producers::empty(), &input).unwrap();
    assert_eq!(out, module(&[&TYPE_SECTION, &custom("name", &name_payload("hello"))]));
}

#[test]
fn component_name_is_appended_when_missing() {
    let input = component(&[]);
    let mut meta = AddMetadata::keep_all();
    meta.name = AddMetadataField::Replace("comp".to_string());
    let out = rewrite_wasm(&meta, &Producers::empty(), &input).unwrap();
    assert_eq!(out, component(&[&custom("component-name", &name_payload("comp"))]));
}

#[test]
fn module_name_is_replaced() {
    let input = module(&[&custom("name", &name_payload("old"))]);
    let mut meta = AddMetadata::keep_all();
    meta.name = AddMetadataField::Replace("new".to_string());
    let out = rewrite_wasm(&meta, &Producers::empty(), &input).unwrap();
    assert_eq!(out, module(&[&custom("name", &name_payload("new"))]));
}

#[test]
fn module_name_is_kept_and_not_cleared() {
    let input = module(&[&custom("name", &name_payload("old"))]);
    let out = rewrite_wasm(&AddMetadata::keep_all(), &Producers::empty(), &input).unwrap();
    assert_eq!(out, input);
    let mut meta = AddMetadata::keep_all();
    meta.name = AddMetadataField::Clear;
    let out = rewrite_wasm(&meta, &Producers::empty(), &input).unwrap();
    assert_eq!(out, input);
}

#[test]
fn component_name_is_replaced() {
    let input = component(&[&custom("component-name", &name_payload("old"))]);
    let mut meta = AddMetadata::keep_all();
    meta.name = AddMetadataField::Replace("new".to_string());
    let out = rewrite_wasm(&meta, &Producers::empty(), &input).unwrap();
    assert_eq!(out, component(&[&custom("component-name", &name_payload("new"))]));
}

#[test]
fn malformed_name_section_is_refused() {
    let input = module(&[&custom("name", &[0x00, 0x05, 0x01])]);
    let r = rewrite_wasm(&AddMetadata::keep_all(), &Producers::empty(), &input);
    assert!(matches!(r, Err(RewriteError::InvalidNames(_))));
}

#[test]
fn nested_module_is_rewrapped_and_its_custom_sections_kept() {
    let inner = module(&[&custom("producers", &producers_payload(&[("language", &[("C", "")])]))]);
    let mut nested = vec![0x01u8];
    nested.extend(leb(inner.len()));
    nested.extend(&inner);
    let input = component(&[&nested]);
    let mut add = Producers::empty();
    add.add("language", "Rust", "");
    let out = rewrite_wasm(&AddMetadata::keep_all(), &add, &input).unwrap();
    let expected = component(&[
        &nested,
        &custom("producers", &producers_payload(&[("language", &[("Rust", "")])])),
    ]);
    assert_eq!(out, expected);
}

#[test]
fn nested_component_is_rewrapped() {
    let inner = component(&[]);
    let mut nested = vec![0x04u8];
    nested.extend(leb(inner.len()));
    nested.extend(&inner);
    let input = component(&[&nested]);
    let out = rewrite_wasm(&AddMetadata::keep_all(), &Producers::empty(), &input).unwrap();
    assert_eq!(out, input);
}

#[test]
fn cleared_description_is_dropped() {
    let input = module(&[&custom("description", b"old"), &TYPE_SECTION]);
    let mut meta = AddMetadata::keep_all();
    meta.description = AddMetadataField::Clear;
    let out = rewrite_wasm(&meta, &Producers::empty(), &input).unwrap();
    assert_eq!(out, module(&[&TYPE_SECTION]));
}

#[test]
fn kept_description_is_written_back() {
    let input = module(&[&custom("description", b"a tool")]);
    let out = rewrite_wasm(&AddMetadata::keep_all(), &Producers::empty(), &input).unwrap();
    assert_eq!(out, input);
}

#[test]
fn kept_description_must_be_utf8() {
    let input = module(&[&custom("description", &[0xff, 0xfe])]);
    let r = rewrite_wasm(&AddMetadata::keep_all(), &Producers::empty(), &input);
    assert!(matches!(r, Err(RewriteError::NotUtf8)));
}

#[test]
fn replaced_description_is_copied_and_appended() {
    let input = module(&[&custom("description", b"old")]);
    let mut meta = AddMetadata::keep_all();
    meta.description = text("new");
    let out = rewrite_wasm(&meta, &Producers::empty(), &input).unwrap();
    assert_eq!(out, module(&[&custom("description", b"old"), &custom("description", b"new")]));
}

#[test]
fn kept_author_section_is_refused() {
    let input = module(&[&custom("author", b"me")]);
    let r = rewrite_wasm(&AddMetadata::keep_all(), &Producers::empty(), &input);
    assert!(matches!(r, Err(RewriteError::MisnamedSection)));
}

#[test]
fn cleared_author_section_is_dropped() {
    let input = module(&[&custom("author", b"me")]);
    let mut meta = AddMetadata::keep_all();
    meta.authors = AddMetadataField::Clear;
    let out = rewrite_wasm(&meta, &Producers::empty(), &input).unwrap();
    assert_eq!(out, module(&[]));
}

#[test]
fn authors_section_is_not_recognized() {
    let input = module(&[&custom("authors", b"me")]);
    let mut meta = AddMetadata::keep_all();
    meta.authors = AddMetadataField::Clear;
    let out = rewrite_wasm(&meta, &Producers::empty(), &input).unwrap();
    assert_eq!(out, input);
}

#[test]
fn kept_licenses_are_normalized_or_refused() {
    let input = module(&[&custom("licenses", b"MIT OR Apache-2.0")]);
    let out = rewrite_wasm(&AddMetadata::keep_all(), &Producers::empty(), &input).unwrap();
    assert_eq!(out, input);
    let bad = module(&[&custom("licenses", b"not a license (")]);
    let r = rewrite_wasm(&AddMetadata::keep_all(), &Producers::empty(), &bad);
    assert!(matches!(r, Err(RewriteError::InvalidLicenses)));
}

#[test]
fn kept_source_is_normalized_or_refused() {
    let input = module(&[&custom("source", b"https://example.com")]);
    let out = rewrite_wasm(&AddMetadata::keep_all(), &Producers::empty(), &input).unwrap();
    assert_eq!(out, module(&[&custom("source", b"https://example.com/")]));
    let bad = module(&[&custom("source", b"not a url")]);
    let r = rewrite_wasm(&AddMetadata::keep_all(), &Producers::empty(), &bad);
    assert!(matches!(r, Err(RewriteError::InvalidUrl)));
}

#[test]
fn homepage_and_revision_follow_source() {
    let input = module(&[&custom("homepage", b"https://a.dev/"), &custom("revision", b"abc")]);
    let mut meta = AddMetadata::keep_all();
    meta.source = AddMetadataField::Clear;
    let out = rewrite_wasm(&meta, &Producers::empty(), &input).unwrap();
    assert_eq!(out, module(&[]));
    let mut meta = AddMetadata::keep_all();
    meta.homepage = AddMetadataField::Clear;
    meta.revision = AddMetadataField::Clear;
    let out = rewrite_wasm(&meta, &Producers::empty(), &input).unwrap();
    assert_eq!(out, input);
}

#[test]
fn new_values_are_appended_in_field_order() {
    let input = module(&[]);
    let mut meta = AddMetadata::keep_all();
    meta.version = text("1.0.0");
    meta.authors = text("Nori");
    meta.revision = text("abc");
    meta.licenses = AddMetadataField::Replace(MetadataValue::licenses("MIT").unwrap());
    let out = rewrite_wasm(&meta, &Producers::empty(), &input).unwrap();
    let expected = module(&[
        &custom("authors", b"Nori"),
        &custom("licenses", b"MIT"),
        &custom("revision", b"abc"),
        &custom("version", b"1.0.0"),
    ]);
    assert_eq!(out, expected);
}

#[test]
fn garbage_is_refused() {
    let r = rewrite_wasm(&AddMetadata::keep_all(), &Producers::empty(), &[1, 2, 3, 4, 5, 6, 7, 8]);
    assert!(matches!(r, Err(RewriteError::InvalidWasm(_))));
}

#[test]
fn truncated_section_is_refused() {
    let input = module(&[&[0x01, 0x09, 0x01]]);
    let r = rewrite_wasm(&AddMetadata::keep_all(), &Producers::empty(), &input);
    assert!(matches!(r, Err(RewriteError::InvalidWasm(_))));
}

#[test]
fn payloads_outside_the_input_are_refused() {
    let input = module(&[]);
    let payloads = vec![
        WasmPayload::Version { component: false },
        WasmPayload::Section { id: 1, start: 4, end: 20 },
        WasmPayload::End,
    ];
    let r = rewrite_payloads(&AddMetadata::keep_all(), &Producers::empty(), &input, &payloads, None);
    assert!(matches!(r, Err(RewriteError::OutOfBounds)));
}

#[test]
fn parse_error_after_payloads_is_reported() {
    let input = module(&[]);
    let payloads = vec![WasmPayload::Version { component: false }];
    let r = rewrite_payloads(
        &AddMetadata::keep_all(),
        &Producers::empty(),
        &input,
        &payloads,
        Some(some_parse_error()),
    );
    match r {
        Err(RewriteError::InvalidWasm(e)) => assert_eq!(e.message(), some_parse_error().message()),
        _ => panic!("expected a parse error"),
    }
}

#[test]
fn payloads_after_the_end_are_ignored() {
    let input = module(&[]);
    let payloads = vec![
        WasmPayload::Version { component: false },
        WasmPayload::End,
        WasmPayload::Section { id: 1, start: 4, end: 20 },
    ];
    let r = rewrite_payloads(
        &AddMetadata::keep_all(),
        &Producers::empty(),
        &input,
        &payloads,
        Some(some_parse_error()),
    );
    assert_eq!(r.ok(), Some(MODULE_HEADER.to_vec()));
}

#[test]
fn second_pass_with_kept_fields_changes_nothing() {
    let input = module(&[&custom("description", b"old"), &TYPE_SECTION, &custom("version", b"1")]);
    let mut meta = AddMetadata::keep_all();
    meta.name = AddMetadataField::Replace("demo".to_string());
    meta.version = AddMetadataField::Clear;
    let mut add = Producers::empty();
    add.add("language", "Rust", "");
    let first = rewrite_wasm(&meta, &add, &input).unwrap();
    let mut again = AddMetadata::keep_all();
    again.version = AddMetadataField::Clear;
    let second = rewrite_wasm(&again, &Producers::empty(), &first).unwrap();
    assert_eq!(second, first);
    let expected = module(&[
        &custom("description", b"old"),
        &TYPE_SECTION,
        &custom("name", &name_payload("demo")),
        &custom("producers", &producers_payload(&[("language", &[("Rust", "")])])),
    ]);
    assert_eq!(first, expected);
}

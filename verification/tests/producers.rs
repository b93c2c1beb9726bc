use golem_cli::producers::{decode_producers, Producers};

fn contents(p: &Producers) -> Vec<u8> {
    let mut out = Vec::new();
    assert!(p.append_section(&mut out));
    out
}

fn section(payload: &[u8]) -> Vec<u8> {
    let mut contents = vec![9u8];
    contents.extend_from_slice(b"producers");
    contents.extend_from_slice(payload);
    let mut out = vec![0u8, contents.len() as u8];
    out.extend(contents);
    out
}

#[test]
fn empty_producers_have_no_fields() {
    let p = Producers::empty();
    assert!(p.is_empty());
    assert!(p.well_formed());
    assert_eq!(contents(&p), section(&[0]));
}

#[test]
fn add_records_a_new_field_and_value() {
    let mut p = Producers::empty();
    p.add("language", "Rust", "");
    assert!(!p.is_empty());
    let mut payload = vec![1u8, 8];
    payload.extend_from_slice(b"language");
    payload.extend_from_slice(&[1, 4]);
    payload.extend_from_slice(b"Rust");
    payload.push(0);
    assert_eq!(contents(&p), section(&payload));
}

#[test]
fn add_replaces_a_version_in_place() {
    let mut p = Producers::empty();
    p.add("sdk", "a", "1");
    p.add("sdk", "b", "2");
    p.add("sdk", "a", "3");
    let mut q = Producers::empty();
    q.add("sdk", "a", "3");
    q.add("sdk", "b", "2");
    assert_eq!(contents(&p), contents(&q));
}

#[test]
fn merge_prefers_the_other_versions() {
    let mut p = Producers::empty();
    p.add("processed-by", "clang", "14");
    p.add("language", "C", "");
    let mut other = Producers::empty();
    other.add("processed-by", "clang", "15");
    other.add("sdk", "wasi", "1");
    p.merge(&other);
    let mut expected = Producers::empty();
    expected.add("processed-by", "clang", "15");
    expected.add("language", "C", "");
    expected.add("sdk", "wasi", "1");
    assert_eq!(contents(&p), contents(&expected));
}

#[test]
fn merge_into_empty_gives_the_same_contents() {
    let mut other = Producers::empty();
    other.add("language", "Rust", "");
    other.add("processed-by", "rustc", "1.80");
    let mut p = Producers::empty();
    p.merge(&other);
    assert_eq!(contents(&p), contents(&other));
}

#[test]
fn merging_twice_changes_nothing() {
    let mut p = Producers::empty();
    p.add("language", "C", "");
    let mut other = Producers::empty();
    other.add("language", "Rust", "");
    p.merge(&other);
    let once = contents(&p);
    p.merge(&other);
    assert_eq!(contents(&p), once);
}

#[test]
fn decoding_reads_fields_in_order() {
    let mut payload = vec![2u8, 3];
    payload.extend_from_slice(b"sdk");
    payload.extend_from_slice(&[1, 1, b'x', 1, b'1']);
    payload.push(8);
    payload.extend_from_slice(b"language");
    payload.extend_from_slice(&[1, 1, b'C', 0]);
    let p = decode_producers(&payload, 0).unwrap();
    let mut expected = Producers::empty();
    expected.add("sdk", "x", "1");
    expected.add("language", "C", "");
    assert_eq!(contents(&p), contents(&expected));
}

#[test]
fn decoding_refuses_a_truncated_payload() {
    assert!(decode_producers(&[1], 0).is_err());
}

//! The section structure of a WebAssembly binary as the rewriter sees it:
//! one entry per payload that `wasmparser` reports, with the byte ranges of
//! the sections in the input.
use vstd::prelude::*;
use wasmparser::{BinaryReaderError, CustomSectionReader, Encoding, KnownCustom, Payload};

verus! {

/// One payload of a parsed binary. Ranges are offsets into the input.
#[derive(Debug, Clone)]
pub enum WasmPayload {
    /// The preamble; `component` tells a component from a core module.
    Version { component: bool },
    /// The start of a nested module or component section; the nested
    /// binary's own payloads follow, up to its `End`.
    Nested,
    /// The end of a binary, nested or outermost.
    End,
    /// A custom section called `name`, whose contents span `start..end` and
    /// whose payload (after the name) starts at `data_offset`.
    /// `producers` is set where the section is a well-formed `producers` section.
    Custom { name: String, producers: bool, start: u64, end: u64, data_offset: u64 },
    /// Any other section, with identifier `id` and contents `start..end`.
    Section { id: u8, start: u64, end: u64 },
    /// A payload that is part of a section already reported (a code entry).
    Other,
}

#[verifier::external_type_specification]
#[verifier::external_body]
pub struct ExPayload<'a>(Payload<'a>);

#[verifier::external_type_specification]
#[verifier::external_body]
pub struct ExCustomSectionReader<'a>(CustomSectionReader<'a>);

#[verifier::external_type_specification]
#[verifier::external_body]
pub struct ExBinaryReaderError(BinaryReaderError);

/// The payloads that `wasmparser` reports for `input`, in order, and
/// whether an error ends the walk.
pub uninterp spec fn parsed_payloads(input: Seq<u8>) -> (Seq<WasmPayload>, bool);

/// Turns a custom section reader into its entry: name, whether it reads as
/// a producers section, and its ranges.
#[verifier::external_body]
fn custom_payload(c: &CustomSectionReader<'_>) -> WasmPayload {
    let range = c.range();
    WasmPayload::Custom {
        name: c.name().to_string(),
        producers: matches!(c.as_known(), KnownCustom::Producers(_)),
        start: range.start,
        end: range.end,
        data_offset: c.data_offset(),
    }
}

/// Turns a `wasmparser` payload into its entry, one variant each; other
/// sections by `Payload::as_section`.
#[verifier::external_body]
fn payload_entry(p: &Payload<'_>) -> WasmPayload {
    match p {
        Payload::Version { encoding, .. } => WasmPayload::Version { component: matches!(encoding, Encoding::Component) },
        Payload::ModuleSection { .. } | Payload::ComponentSection { .. } => WasmPayload::Nested,
        Payload::End(_) => WasmPayload::End,
        Payload::CustomSection(c) => custom_payload(c),
        _ => match p.as_section() {
            Some((id, r)) => WasmPayload::Section { id, start: r.start, end: r.end },
            None => WasmPayload::Other,
        },
    }
}

/// Walks `input` with `wasmparser::Parser::new(0).parse_all`, which reports
/// nested modules and components inline and stops at the first error.
/// Returns the entries of the payloads before the error, and the error.
/// The entries, and whether there is an error, are named, not stated; the
/// error itself is not stated.
#[verifier::external_body]
pub fn parse_payloads(input: &[u8]) -> (r: (Vec<WasmPayload>, Option<BinaryReaderError>))
    ensures
        r.0@ == parsed_payloads(input@).0,
        r.1 is Some <==> parsed_payloads(input@).1,
{
    let mut entries = Vec::new();
    for p in wasmparser::Parser::new(0).parse_all(input) {
        match p {
            Ok(p) => entries.push(payload_entry(&p)),
            Err(e) => return (entries, Some(e)),
        }
    }
    (entries, None)
}

} // verus!

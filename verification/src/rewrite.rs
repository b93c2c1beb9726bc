//! Rewriting the metadata of a WebAssembly module or component.
//!
//! The rewriter walks the payloads of the binary. Sections of nested
//! modules and components, and all sections that are not metadata, are
//! copied unchanged (nested binaries are re-wrapped in sections of their
//! own). Metadata sections of the outermost binary are rewritten as the
//! requested changes say; values that were set and found nowhere are
//! appended at the end.
use vstd::prelude::*;
use vstd::utf8::{decode_utf8, encode_utf8, valid_utf8};
use vstd::slice::slice_subrange;
use crate::encoding::{
    MAX_LEN, section_bytes, custom_section_bytes, custom_section_fits, component_header_bytes,
    module_header_bytes, append_raw_section, append_custom_section, encode_byte_vec, extend_bytes,
    starts_with, component_header, module_header, component_section_id, core_module_section_id,
    custom_fits,
};
use crate::metadata::{
    AddMetadata, AddMetadataField, MetadataValue, TextField, TextCheck, section_name,
    recognized_name, text_check, existing_mode, new_value, checked_text, name_subsection,
    name_section_fits, names_rewrite_fits, name_section_fits_of, names_rewrite_fits_of,
    rewritten_module_names, rewritten_component_names, section_name_of,
    recognized_name_of, text_check_of, decode_text, normalize_licenses, normalize_url,
    module_names_section, module_names_section_renamed, component_names_section,
    component_names_section_renamed, append_module_name_section, append_component_name_section,
};
use crate::payload::{WasmPayload, parsed_payloads, parse_payloads};
use crate::producers::{
    Producers, ProducersView, decoded_producers, merge_spec, producers_section, decode_producers,
};

verus! {

/// Why a rewrite fails, without the texts of outside errors.
pub enum Failure {
    InvalidWasm,
    InvalidProducers,
    InvalidNames,
    MisnamedSection,
    NotUtf8,
    InvalidLicenses,
    InvalidUrl,
    OutOfBounds,
    TooLarge,
}

/// The state of the walk: the bytes written so far for the binary being
/// walked, those of the enclosing binaries, and what has been found.
pub struct RewriteState {
    pub output: Seq<u8>,
    pub stack: Seq<Seq<u8>>,
    pub producers_found: bool,
    pub names_found: bool,
    pub done: bool,
}

/// The state before the first payload.
pub open spec fn initial_state() -> RewriteState {
    RewriteState {
        output: Seq::empty(),
        stack: Seq::empty(),
        producers_found: false,
        names_found: false,
        done: false,
    }
}

/// Whether `s` begins with `prefix`.
pub open spec fn begins_with(s: Seq<u8>, prefix: Seq<u8>) -> bool {
    prefix.len() <= s.len() && s.subrange(0, prefix.len() as int) == prefix
}

/// The identifier under which a nested binary is wrapped: a component
/// section where it begins with a component preamble, a core module section otherwise.
pub open spec fn nested_section_id(bytes: Seq<u8>) -> u8 {
    if begins_with(bytes, component_header_bytes()) {
        4
    } else {
        1
    }
}

/// The bytes of `input` from `start` to `end`.
pub open spec fn slice(input: Seq<u8>, start: u64, end: u64) -> Seq<u8> {
    input.subrange(start as int, end as int)
}

/// `st` with `bytes` written.
pub open spec fn emit(st: RewriteState, bytes: Seq<u8>) -> RewriteState {
    RewriteState { output: st.output + bytes, ..st }
}

/// `st` with a section copied unchanged.
pub open spec fn pass_through(st: RewriteState, id: u8, data: Seq<u8>) -> Result<RewriteState, Failure> {
    if data.len() > MAX_LEN {
        Err(Failure::TooLarge)
    } else {
        Ok(emit(st, section_bytes(id, data)))
    }
}

/// `st` with a custom section written.
pub open spec fn emit_custom(st: RewriteState, name: Seq<char>, data: Seq<u8>) -> Result<RewriteState, Failure> {
    if custom_section_fits(name, data) {
        Ok(emit(st, custom_section_bytes(name, data)))
    } else {
        Err(Failure::TooLarge)
    }
}

/// The new name to give, where the name is replaced.
pub open spec fn replaced_name(meta: AddMetadata) -> Option<Seq<char>> {
    match meta.name {
        AddMetadataField::Replace(n) => Some(n@),
        _ => None,
    }
}

/// An existing section for `k` that is kept: checked and written back
/// under its proper name.
pub open spec fn keep_text(st: RewriteState, k: TextField, data: Seq<u8>) -> Result<RewriteState, Failure> {
    if recognized_name(k) != section_name(k) {
        Err(Failure::MisnamedSection)
    } else if !valid_utf8(data) {
        Err(Failure::NotUtf8)
    } else {
        match checked_text(text_check(k), decode_utf8(data)) {
            None => Err(
                match text_check(k) {
                    TextCheck::License => Failure::InvalidLicenses,
                    _ => Failure::InvalidUrl,
                },
            ),
            Some(t) => emit_custom(st, section_name(k), encode_utf8(t)),
        }
    }
}

/// An existing section for `k` at the outermost level.
pub open spec fn existing_text(
    meta: AddMetadata,
    st: RewriteState,
    k: TextField,
    section: Seq<u8>,
    data: Seq<u8>,
) -> Result<RewriteState, Failure> {
    match existing_mode(meta, k) {
        AddMetadataField::Keep => keep_text(st, k, data),
        AddMetadataField::Clear => Ok(st),
        AddMetadataField::Replace(_) => pass_through(st, 0, section),
    }
}

/// The descriptive field whose existing section is called `name`, if any.
pub open spec fn text_field_named(name: Seq<char>) -> Option<TextField> {
    if name == recognized_name(TextField::Authors) {
        Some(TextField::Authors)
    } else if name == recognized_name(TextField::Description) {
        Some(TextField::Description)
    } else if name == recognized_name(TextField::Licenses) {
        Some(TextField::Licenses)
    } else if name == recognized_name(TextField::Source) {
        Some(TextField::Source)
    } else if name == recognized_name(TextField::Homepage) {
        Some(TextField::Homepage)
    } else if name == recognized_name(TextField::Revision) {
        Some(TextField::Revision)
    } else if name == recognized_name(TextField::Version) {
        Some(TextField::Version)
    } else {
        None
    }
}

/// A custom section of the outermost binary, called `name`, with contents
/// `section` and payload `data` at `offset`.
pub open spec fn top_custom(
    meta: AddMetadata,
    add: ProducersView,
    st: RewriteState,
    name: Seq<char>,
    producers: bool,
    section: Seq<u8>,
    data: Seq<u8>,
    offset: u64,
) -> Result<RewriteState, Failure> {
    if producers {
        match decoded_producers(data, offset) {
            None => Err(Failure::InvalidProducers),
            Some(existing) => match producers_section(merge_spec(existing, add)) {
                None => Err(Failure::TooLarge),
                Some(b) => Ok(RewriteState { producers_found: true, ..emit(st, b) }),
            },
        }
    } else if name == "name"@ {
        if !names_rewrite_fits("name"@, data.len(), replaced_name(meta)) {
            Err(Failure::TooLarge)
        } else {
            match rewritten_module_names(data, offset, replaced_name(meta)) {
                None => Err(Failure::InvalidNames),
                Some(b) => Ok(RewriteState { names_found: true, ..emit(st, seq![0u8] + b) }),
            }
        }
    } else if name == "component-name"@ {
        if !names_rewrite_fits("component-name"@, data.len(), replaced_name(meta)) {
            Err(Failure::TooLarge)
        } else {
            match rewritten_component_names(data, offset, replaced_name(meta)) {
                None => Err(Failure::InvalidNames),
                Some(b) => Ok(RewriteState { names_found: true, ..emit(st, seq![0u8] + b) }),
            }
        }
    } else {
        match text_field_named(name) {
            Some(k) => existing_text(meta, st, k, section, data),
            None => pass_through(st, 0, section),
        }
    }
}

/// One step of the walk.
#[verifier::opaque]
pub open spec fn step(
    meta: AddMetadata,
    add: ProducersView,
    input: Seq<u8>,
    st: RewriteState,
    p: WasmPayload,
) -> Result<RewriteState, Failure> {
    match p {
        WasmPayload::Version { component } => Ok(
            emit(st, if component { component_header_bytes() } else { module_header_bytes() }),
        ),
        WasmPayload::Nested => Ok(
            RewriteState { output: Seq::empty(), stack: st.stack.push(st.output), ..st },
        ),
        WasmPayload::End => if st.stack.len() == 0 {
            Ok(RewriteState { done: true, ..st })
        } else if st.output.len() > MAX_LEN {
            Err(Failure::TooLarge)
        } else {
            Ok(
                RewriteState {
                    output: st.stack.last() + section_bytes(nested_section_id(st.output), st.output),
                    stack: st.stack.drop_last(),
                    ..st
                },
            )
        },
        WasmPayload::Custom { name, producers, start, end, data_offset } => if !(start <= end
            && end <= input.len()) {
            Err(Failure::OutOfBounds)
        } else if st.stack.len() != 0 {
            pass_through(st, 0, slice(input, start, end))
        } else if !(start <= data_offset && data_offset <= end) {
            Err(Failure::OutOfBounds)
        } else {
            top_custom(
                meta,
                add,
                st,
                name@,
                producers,
                slice(input, start, end),
                slice(input, data_offset, end),
                data_offset,
            )
        },
        WasmPayload::Section { id, start, end } => if !(start <= end && end <= input.len()) {
            Err(Failure::OutOfBounds)
        } else {
            pass_through(st, id, slice(input, start, end))
        },
        WasmPayload::Other => Ok(st),
    }
}

/// The state after the walk over `ps`; payloads after the outermost end are ignored.
pub open spec fn run(meta: AddMetadata, add: ProducersView, input: Seq<u8>, ps: Seq<WasmPayload>) -> Result<
    RewriteState,
    Failure,
>
    decreases ps.len(),
{
    if ps.len() == 0 {
        Ok(initial_state())
    } else {
        match run(meta, add, input, ps.drop_last()) {
            Err(f) => Err(f),
            Ok(st) => if st.done {
                Ok(st)
            } else {
                step(meta, add, input, st, ps.last())
            },
        }
    }
}

/// `out` with the section for a new value of `k` appended, where one is set.
pub open spec fn append_new_text(out: Result<Seq<u8>, Failure>, meta: AddMetadata, k: TextField) -> Result<
    Seq<u8>,
    Failure,
> {
    match out {
        Err(f) => Err(f),
        Ok(o) => match new_value(meta, k) {
            AddMetadataField::Replace(v) => if custom_section_fits(section_name(k), encode_utf8(v@)) {
                Ok(o + custom_section_bytes(section_name(k), encode_utf8(v@)))
            } else {
                Err(Failure::TooLarge)
            },
            _ => Ok(o),
        },
    }
}

/// The name section appended where a name is set and the binary had none.
pub open spec fn appended_names(meta: AddMetadata, st: RewriteState) -> Result<Seq<u8>, Failure> {
    match meta.name {
        AddMetadataField::Replace(n) => if st.names_found {
            Ok(st.output)
        } else if begins_with(st.output, component_header_bytes()) {
            if name_section_fits("component-name"@, n@) {
                Ok(st.output + custom_section_bytes("component-name"@, name_subsection(n@)))
            } else {
                Err(Failure::TooLarge)
            }
        } else if name_section_fits("name"@, n@) {
            Ok(st.output + custom_section_bytes("name"@, name_subsection(n@)))
        } else {
            Err(Failure::TooLarge)
        },
        _ => Ok(st.output),
    }
}

/// The producers section appended where there are producers to add and the binary had none.
pub open spec fn appended_producers(out: Result<Seq<u8>, Failure>, add: ProducersView, st: RewriteState) -> Result<
    Seq<u8>,
    Failure,
> {
    match out {
        Err(f) => Err(f),
        Ok(o) => if !st.producers_found && add.len() != 0 {
            match producers_section(merge_spec(Seq::empty(), add)) {
                None => Err(Failure::TooLarge),
                Some(b) => Ok(o + b),
            }
        } else {
            Ok(o)
        },
    }
}

/// What is appended after the walk: the name, the producers, then every
/// descriptive value that is set, in field order.
#[verifier::opaque]
pub open spec fn finish(meta: AddMetadata, add: ProducersView, st: RewriteState) -> Result<Seq<u8>, Failure> {
    let r = appended_producers(appended_names(meta, st), add, st);
    let r = append_new_text(r, meta, TextField::Authors);
    let r = append_new_text(r, meta, TextField::Description);
    let r = append_new_text(r, meta, TextField::Licenses);
    let r = append_new_text(r, meta, TextField::Source);
    let r = append_new_text(r, meta, TextField::Homepage);
    let r = append_new_text(r, meta, TextField::Revision);
    append_new_text(r, meta, TextField::Version)
}

/// The rewritten binary, given the payloads of `input` and whether the
/// walk over them ended on an error.
pub open spec fn rewrite_spec(
    meta: AddMetadata,
    add: ProducersView,
    input: Seq<u8>,
    ps: Seq<WasmPayload>,
    parse_failed: bool,
) -> Result<Seq<u8>, Failure> {
    match run(meta, add, input, ps) {
        Err(f) => Err(f),
        Ok(st) => if !st.done && parse_failed {
            Err(Failure::InvalidWasm)
        } else {
            finish(meta, add, st)
        },
    }
}


/// Why a rewrite failed.
#[derive(Debug)]
pub enum RewriteError {
    /// The binary is malformed; the parser's error.
    InvalidWasm(wasmparser::BinaryReaderError),
    /// The producers section is malformed; the reader's error.
    InvalidProducers(anyhow::Error),
    /// A name section is malformed or cannot be written back; the error.
    InvalidNames(anyhow::Error),
    /// A kept section is not called what its reader expects.
    MisnamedSection,
    /// A kept descriptive section is not UTF-8.
    NotUtf8,
    /// A kept `licenses` section is not an SPDX expression.
    InvalidLicenses,
    /// A kept `source` or `homepage` section is not a URL.
    InvalidUrl,
    /// A section lies outside the input.
    OutOfBounds,
    /// Something to write exceeds the lengths that the binary format
    /// records, or an existing name section, with the new name where one is
    /// set, could be written back larger than they allow (see
    /// `names_rewrite_fits`).
    TooLarge,
}

impl RewriteError {
    pub open spec fn failure(&self) -> Failure {
        match self {
            RewriteError::InvalidWasm(_) => Failure::InvalidWasm,
            RewriteError::InvalidProducers(_) => Failure::InvalidProducers,
            RewriteError::InvalidNames(_) => Failure::InvalidNames,
            RewriteError::MisnamedSection => Failure::MisnamedSection,
            RewriteError::NotUtf8 => Failure::NotUtf8,
            RewriteError::InvalidLicenses => Failure::InvalidLicenses,
            RewriteError::InvalidUrl => Failure::InvalidUrl,
            RewriteError::OutOfBounds => Failure::OutOfBounds,
            RewriteError::TooLarge => Failure::TooLarge,
        }
    }
}

/// The walk in progress.
struct Walk {
    output: Vec<u8>,
    stack: Vec<Vec<u8>>,
    producers_found: bool,
    names_found: bool,
    done: bool,
}

impl Walk {
    spec fn view(&self) -> RewriteState {
        RewriteState {
            output: self.output@,
            stack: self.stack@.map_values(|v: Vec<u8>| v@),
            producers_found: self.producers_found,
            names_found: self.names_found,
            done: self.done,
        }
    }
}

/// The outcome of a step, against what the specification says of it.
pub open spec fn step_matches(r: Result<(), RewriteError>, spec: Result<RewriteState, Failure>, after: RewriteState) -> bool {
    match r {
        Ok(_) => spec == Ok::<RewriteState, Failure>(after),
        Err(e) => spec == Err::<RewriteState, Failure>(e.failure()),
    }
}

/// The error, if any, is not one of the parser's.
pub open spec fn not_parse_error<T>(r: Result<T, RewriteError>) -> bool {
    !(r matches Err(RewriteError::InvalidWasm(_)))
}

/// The new name to give, where the name is replaced.
fn replaced_name_of(meta: &AddMetadata) -> (r: Option<&str>)
    ensures
        match r {
            Some(n) => replaced_name(*meta) == Some(n@),
            None => replaced_name(*meta) is None,
        },
{
    match &meta.name {
        AddMetadataField::Replace(n) => Some(n.as_str()),
        _ => None,
    }
}

/// Whether `name` is `lit`.
fn name_is(name: &String, lit: &str) -> (r: bool)
    ensures
        r == (name@ == lit@),
{
    *name == lit.to_owned()
}

fn pass_through_exec(w: &mut Walk, id: u8, data: &[u8]) -> (r: Result<(), RewriteError>)
    ensures
        not_parse_error(r),
        step_matches(r, pass_through(old(w).view(), id, data@), final(w).view()),
{
    if (data.len() as u64) > MAX_LEN {
        return Err(RewriteError::TooLarge);
    }
    append_raw_section(id, data, &mut w.output);
    Ok(())
}

fn emit_custom_exec(w: &mut Walk, name: &str, data: &[u8]) -> (r: Result<(), RewriteError>)
    ensures
        not_parse_error(r),
        step_matches(r, emit_custom(old(w).view(), name@, data@), final(w).view()),
{
    if !custom_fits(name.as_bytes().len(), data.len()) {
        return Err(RewriteError::TooLarge);
    }
    append_custom_section(name, data, &mut w.output);
    Ok(())
}

fn keep_text_exec(w: &mut Walk, k: TextField, data: &[u8]) -> (r: Result<(), RewriteError>)
    ensures
        not_parse_error(r),
        step_matches(r, keep_text(old(w).view(), k, data@), final(w).view()),
{
    if let TextField::Authors = k {
        proof {
            reveal_strlit("author");
            reveal_strlit("authors");
            assert("author"@.len() != "authors"@.len());
        }
        return Err(RewriteError::MisnamedSection);
    }
    let text = match decode_text(data) {
        Some(t) => t,
        None => return Err(RewriteError::NotUtf8),
    };
    match text_check_of(k) {
        TextCheck::Plain => emit_custom_exec(w, section_name_of(k), text.as_str().as_bytes()),
        TextCheck::License => match normalize_licenses(text.as_str()) {
            Some(t) => emit_custom_exec(w, section_name_of(k), t.as_str().as_bytes()),
            None => Err(RewriteError::InvalidLicenses),
        },
        TextCheck::Url => match normalize_url(text.as_str()) {
            Some(t) => emit_custom_exec(w, section_name_of(k), t.as_str().as_bytes()),
            None => Err(RewriteError::InvalidUrl),
        },
    }
}

fn existing_text_exec(meta: &AddMetadata, w: &mut Walk, k: TextField, section: &[u8], data: &[u8]) -> (r:
    Result<(), RewriteError>)
    ensures
        not_parse_error(r),
        step_matches(r, existing_text(*meta, old(w).view(), k, section@, data@), final(w).view()),
{
    match meta.existing_mode_of(k) {
        AddMetadataField::Keep => keep_text_exec(w, k, data),
        AddMetadataField::Clear => Ok(()),
        AddMetadataField::Replace(_) => pass_through_exec(w, 0, section),
    }
}

fn text_field_named_exec(name: &String) -> (r: Option<TextField>)
    ensures
        r == text_field_named(name@),
{
    if name_is(name, recognized_name_of(TextField::Authors)) {
        Some(TextField::Authors)
    } else if name_is(name, recognized_name_of(TextField::Description)) {
        Some(TextField::Description)
    } else if name_is(name, recognized_name_of(TextField::Licenses)) {
        Some(TextField::Licenses)
    } else if name_is(name, recognized_name_of(TextField::Source)) {
        Some(TextField::Source)
    } else if name_is(name, recognized_name_of(TextField::Homepage)) {
        Some(TextField::Homepage)
    } else if name_is(name, recognized_name_of(TextField::Revision)) {
        Some(TextField::Revision)
    } else if name_is(name, recognized_name_of(TextField::Version)) {
        Some(TextField::Version)
    } else {
        None
    }
}

fn append_written_names(w: &mut Walk, written: Result<Vec<u8>, anyhow::Error>) -> (r: Result<(), RewriteError>)
    ensures
        not_parse_error(r),
        written is Err ==> r is Err && r->Err_0.failure() == Failure::InvalidNames,
        written matches Ok(b) ==> r is Ok && final(w).view() == (RewriteState {
            names_found: true,
            ..emit(old(w).view(), seq![0u8] + b@)
        }),
{
    match written {
        Ok(b) => {
            w.output.push(0u8);
            extend_bytes(&mut w.output, b.as_slice());
            w.names_found = true;
            assert(w.view().output =~= old(w).view().output + (seq![0u8] + b@));
            Ok(())
        },
        Err(m) => Err(RewriteError::InvalidNames(m)),
    }
}

fn top_custom_exec(
    meta: &AddMetadata,
    add: &Producers,
    w: &mut Walk,
    name: &String,
    producers: bool,
    section: &[u8],
    data: &[u8],
    offset: u64,
) -> (r: Result<(), RewriteError>)
    ensures
        not_parse_error(r),
        step_matches(
            r,
            top_custom(*meta, add@, old(w).view(), name@, producers, section@, data@, offset),
            final(w).view(),
        ),
{
    if producers {
        match decode_producers(data, offset) {
            Ok(mut existing) => {
                existing.merge(add);
                if existing.append_section(&mut w.output) {
                    w.producers_found = true;
                    Ok(())
                } else {
                    Err(RewriteError::TooLarge)
                }
            },
            Err(m) => Err(RewriteError::InvalidProducers(m)),
        }
    } else if name_is(name, "name") {
        if !names_rewrite_fits_of("name", data.len(), replaced_name_of(meta)) {
            return Err(RewriteError::TooLarge);
        }
        let written = match &meta.name {
            AddMetadataField::Replace(n) => module_names_section_renamed(data, offset, n.as_str()),
            _ => module_names_section(data, offset),
        };
        append_written_names(w, written)
    } else if name_is(name, "component-name") {
        if !names_rewrite_fits_of("component-name", data.len(), replaced_name_of(meta)) {
            return Err(RewriteError::TooLarge);
        }
        let written = match &meta.name {
            AddMetadataField::Replace(n) => component_names_section_renamed(data, offset, n.as_str()),
            _ => component_names_section(data, offset),
        };
        append_written_names(w, written)
    } else {
        match text_field_named_exec(name) {
            Some(k) => existing_text_exec(meta, w, k, section, data),
            None => pass_through_exec(w, 0, section),
        }
    }
}

fn step_exec(meta: &AddMetadata, add: &Producers, input: &[u8], w: &mut Walk, p: &WasmPayload) -> (r: Result<
    (),
    RewriteError,
>)
    ensures
        not_parse_error(r),
        step_matches(r, step(*meta, add@, input@, old(w).view(), *p), final(w).view()),
{
    reveal(step);
    match p {
        WasmPayload::Version { component } => {
            let header = if *component { component_header() } else { module_header() };
            extend_bytes(&mut w.output, header.as_slice());
            Ok(())
        },
        WasmPayload::Nested => {
            let mut enclosing: Vec<u8> = Vec::new();
            std::mem::swap(&mut enclosing, &mut w.output);
            w.stack.push(enclosing);
            assert(w.view().stack =~= old(w).view().stack.push(old(w).view().output));
            Ok(())
        },
        WasmPayload::End => {
            if w.stack.len() == 0 {
                w.done = true;
                return Ok(());
            }
            if (w.output.len() as u64) > MAX_LEN {
                return Err(RewriteError::TooLarge);
            }
            let ghost before = w.view();
            let mut parent = match w.stack.pop() {
                Some(parent) => parent,
                None => return Err(RewriteError::OutOfBounds),
            };
            assert(w.view().stack =~= before.stack.drop_last());
            assert(parent@ == before.stack.last());
            let header = component_header();
            let id: u8 = if starts_with(w.output.as_slice(), header.as_slice()) {
                component_section_id()
            } else {
                core_module_section_id()
            };
            parent.push(id);
            encode_byte_vec(w.output.as_slice(), &mut parent);
            assert(parent@ =~= before.stack.last() + section_bytes(nested_section_id(before.output), before.output));
            w.output = parent;
            Ok(())
        },
        WasmPayload::Custom { name, producers, start, end, data_offset } => {
            if !(*start <= *end && *end <= input.len() as u64) {
                return Err(RewriteError::OutOfBounds);
            }
            let section = slice_subrange(input, *start as usize, *end as usize);
            if w.stack.len() != 0 {
                return pass_through_exec(w, 0, section);
            }
            if !(*start <= *data_offset && *data_offset <= *end) {
                return Err(RewriteError::OutOfBounds);
            }
            let data = slice_subrange(input, *data_offset as usize, *end as usize);
            top_custom_exec(meta, add, w, name, *producers, section, data, *data_offset)
        },
        WasmPayload::Section { id, start, end } => {
            if !(*start <= *end && *end <= input.len() as u64) {
                return Err(RewriteError::OutOfBounds);
            }
            let section = slice_subrange(input, *start as usize, *end as usize);
            pass_through_exec(w, *id, section)
        },
        WasmPayload::Other => Ok(()),
    }
}

fn append_new_text_exec(out: &mut Vec<u8>, meta: &AddMetadata, k: TextField) -> (r: Result<(), RewriteError>)
    ensures
        not_parse_error(r),
        match r {
            Ok(_) => append_new_text(Ok(old(out)@), *meta, k) == Ok::<Seq<u8>, Failure>(final(out)@),
            Err(e) => append_new_text(Ok(old(out)@), *meta, k) == Err::<Seq<u8>, Failure>(e.failure()),
        },
{
    match meta.new_value_of(k) {
        AddMetadataField::Replace(v) => {
            let name = section_name_of(k);
            let data = v.as_str().as_bytes();
            if !custom_fits(name.as_bytes().len(), data.len()) {
                return Err(RewriteError::TooLarge);
            }
            append_custom_section(name, data, out);
            Ok(())
        },
        _ => Ok(()),
    }
}

/// Appends what the walk leaves to add: the name, the producers, the new
/// descriptive values.
fn finish_exec(meta: &AddMetadata, add: &Producers, w: Walk) -> (r: Result<Vec<u8>, RewriteError>)
    ensures
        not_parse_error(r),
        match r {
            Ok(b) => finish(*meta, add@, w.view()) == Ok::<Seq<u8>, Failure>(b@),
            Err(e) => finish(*meta, add@, w.view()) == Err::<Seq<u8>, Failure>(e.failure()),
        },
{
    reveal(finish);
    let ghost st = w.view();
    let mut out = w.output;
    if let AddMetadataField::Replace(n) = &meta.name {
        if !w.names_found {
            let header = component_header();
            if starts_with(out.as_slice(), header.as_slice()) {
                if !name_section_fits_of("component-name", n.as_str()) {
                    return Err(RewriteError::TooLarge);
                }
                append_component_name_section(n.as_str(), &mut out);
            } else {
                if !name_section_fits_of("name", n.as_str()) {
                    return Err(RewriteError::TooLarge);
                }
                append_module_name_section(n.as_str(), &mut out);
            }
        }
    }
    assert(appended_names(*meta, st) == Ok::<Seq<u8>, Failure>(out@));
    if !w.producers_found && !add.is_empty() {
        let mut fresh = Producers::empty();
        fresh.merge(add);
        if !fresh.append_section(&mut out) {
            return Err(RewriteError::TooLarge);
        }
    }
    let ghost r0 = appended_producers(appended_names(*meta, st), add@, st);
    assert(r0 == Ok::<Seq<u8>, Failure>(out@));
    append_new_text_exec(&mut out, meta, TextField::Authors)?;
    append_new_text_exec(&mut out, meta, TextField::Description)?;
    append_new_text_exec(&mut out, meta, TextField::Licenses)?;
    append_new_text_exec(&mut out, meta, TextField::Source)?;
    append_new_text_exec(&mut out, meta, TextField::Homepage)?;
    append_new_text_exec(&mut out, meta, TextField::Revision)?;
    append_new_text_exec(&mut out, meta, TextField::Version)?;
    Ok(out)
}

/// Rewrites the metadata of `input`, given the payloads that the parser
/// reports for it and the text of the error that ended the walk, if any.
pub fn rewrite_payloads(
    metadata: &AddMetadata,
    add_producers: &Producers,
    input: &[u8],
    payloads: &Vec<WasmPayload>,
    parse_error: Option<wasmparser::BinaryReaderError>,
) -> (r: Result<Vec<u8>, RewriteError>)
    ensures
        match r {
            Ok(b) => rewrite_spec(*metadata, add_producers@, input@, payloads@, parse_error is Some) == Ok::<
                Seq<u8>,
                Failure,
            >(b@),
            Err(e) => rewrite_spec(*metadata, add_producers@, input@, payloads@, parse_error is Some)
                == Err::<Seq<u8>, Failure>(e.failure()),
        },
        r matches Err(RewriteError::InvalidWasm(m)) ==> parse_error == Some(m),
{
    let mut w = Walk {
        output: Vec::new(),
        stack: Vec::new(),
        producers_found: false,
        names_found: false,
        done: false,
    };
    assert(w.view().stack =~= Seq::<Seq<u8>>::empty());
    assert(w.view().output =~= Seq::<u8>::empty());
    assert(w.view() == initial_state());
    let mut i: usize = 0;
    while i < payloads.len()
        invariant
            i <= payloads@.len(),
            !w.done,
            run(*metadata, add_producers@, input@, payloads@.take(i as int)) == Ok::<RewriteState, Failure>(w.view()),
        decreases payloads@.len() - i,
    {
        let ghost prefix = payloads@.take(i + 1);
        assert(prefix.drop_last() =~= payloads@.take(i as int));
        match step_exec(metadata, add_producers, input, &mut w, &payloads[i]) {
            Ok(_) => {},
            Err(e) => {
                proof {
                    lemma_run_stops(*metadata, add_producers@, input@, payloads@, i + 1);
                }
                return Err(e);
            },
        }
        i = i + 1;
        if w.done {
            proof {
                lemma_run_stops(*metadata, add_producers@, input@, payloads@, i as int);
            }
            return finish_exec(metadata, add_producers, w);
        }
    }
    assert(payloads@.take(i as int) =~= payloads@);
    if let Some(m) = parse_error {
        return Err(RewriteError::InvalidWasm(m));
    }
    finish_exec(metadata, add_producers, w)
}

/// Once the walk has failed or reached the outermost end, later payloads change nothing.
proof fn lemma_run_stops(meta: AddMetadata, add: ProducersView, input: Seq<u8>, ps: Seq<WasmPayload>, n: int)
    requires
        0 <= n <= ps.len(),
        run(meta, add, input, ps.take(n)) is Err || run(meta, add, input, ps.take(n))->Ok_0.done,
    ensures
        run(meta, add, input, ps) == run(meta, add, input, ps.take(n)),
    decreases ps.len() - n,
{
    if n < ps.len() {
        assert(ps.take(n + 1).drop_last() =~= ps.take(n));
        lemma_run_stops(meta, add, input, ps, n + 1);
    } else {
        assert(ps.take(n) =~= ps);
    }
}

/// Rewrites the metadata of the WebAssembly module or component `input`:
/// parses it, then rewrites it as `metadata` says, merging `add_producers`
/// into its producers section.
pub fn rewrite_wasm(metadata: &AddMetadata, add_producers: &Producers, input: &[u8]) -> (r: Result<
    Vec<u8>,
    RewriteError,
>)
    ensures
        match r {
            Ok(b) => rewrite_spec(
                *metadata,
                add_producers@,
                input@,
                parsed_payloads(input@).0,
                parsed_payloads(input@).1,
            ) == Ok::<Seq<u8>, Failure>(b@),
            Err(e) => rewrite_spec(
                *metadata,
                add_producers@,
                input@,
                parsed_payloads(input@).0,
                parsed_payloads(input@).1,
            ) == Err::<Seq<u8>, Failure>(e.failure()),
        },
{
    let (payloads, parse_error) = parse_payloads(input);
    rewrite_payloads(metadata, add_producers, input, &payloads, parse_error)
}

} // verus!

//! Laws of the rewriter: what it leaves alone, what it drops, and what it
//! puts where.
use vstd::prelude::*;
use vstd::utf8::{decode_utf8, decode_utf8_encode_utf8, encode_utf8, valid_utf8};
use crate::encoding::{
    section_bytes, custom_section_bytes, custom_section_fits, MAX_LEN, component_header_bytes,
    module_header_bytes,
};
use crate::metadata::{
    AddMetadata, AddMetadataField, TextField, TextCheck, section_name, recognized_name, text_check,
    existing_mode, new_value, name_section_fits, name_subsection, MetadataValue, spdx_normal_form,
    url_normal_form, names_rewrite_fits, rewritten_module_names, rewritten_component_names,
};
use crate::payload::WasmPayload;
use crate::producers::{
    ProducersView, producers_wf, decoded_producers, merge_spec, producers_section, lookup,
};
use crate::producers_laws::{law_merge_precedence, law_merge_into_empty};
use crate::rewrite::{
    RewriteState, Failure, step, run, finish, rewrite_spec, emit, emit_custom, keep_text, slice,
    begins_with, text_field_named, append_new_text, appended_producers, appended_names,
    initial_state,
};

verus! {

/// A section that is not a custom section is copied unchanged, at any
/// depth, whatever the requested changes.
pub proof fn law_other_sections_copied(
    meta: AddMetadata,
    add: ProducersView,
    input: Seq<u8>,
    st: RewriteState,
    id: u8,
    start: u64,
    end: u64,
)
    requires
        start <= end <= input.len(),
        end - start <= MAX_LEN,
    ensures
        step(meta, add, input, st, WasmPayload::Section { id, start, end }) == Ok::<RewriteState, Failure>(
            emit(st, section_bytes(id, slice(input, start, end))),
        ),
{
    reveal(step);
}

/// A custom section inside a nested module or component is copied
/// unchanged, whatever it is called and whatever the requested changes.
pub proof fn law_nested_custom_copied(
    meta: AddMetadata,
    add: ProducersView,
    input: Seq<u8>,
    st: RewriteState,
    name: String,
    producers: bool,
    start: u64,
    end: u64,
    data_offset: u64,
)
    requires
        st.stack.len() > 0,
        start <= end <= input.len(),
        end - start <= MAX_LEN,
    ensures
        step(meta, add, input, st, WasmPayload::Custom { name, producers, start, end, data_offset })
            == Ok::<RewriteState, Failure>(emit(st, section_bytes(0, slice(input, start, end)))),
{
    reveal(step);
}

/// The name of an existing section for `k` is none of the name sections'
/// and is recognised as `k`.
proof fn lemma_recognized(k: TextField, name: Seq<char>)
    requires
        name == recognized_name(k),
    ensures
        name != "name"@,
        name != "component-name"@,
        text_field_named(name) == Some(k),
{
    reveal_strlit("name");
    reveal_strlit("component-name");
    reveal_strlit("author");
    reveal_strlit("authors");
    reveal_strlit("description");
    reveal_strlit("licenses");
    reveal_strlit("source");
    reveal_strlit("homepage");
    reveal_strlit("revision");
    reveal_strlit("version");
    assert(name != "name"@ && name != "component-name"@) by {
        match k {
            TextField::Authors => assert(name[0] != "name"@[0] && name.len() != "component-name"@.len()),
            TextField::Description => assert(name.len() != "name"@.len() && name.len() != "component-name"@.len()),
            TextField::Licenses => assert(name.len() != "name"@.len() && name.len() != "component-name"@.len()),
            TextField::Source => assert(name.len() != "name"@.len() && name.len() != "component-name"@.len()),
            TextField::Homepage => assert(name.len() != "name"@.len() && name.len() != "component-name"@.len()),
            TextField::Revision => assert(name.len() != "name"@.len() && name.len() != "component-name"@.len()),
            TextField::Version => assert(name.len() != "name"@.len() && name.len() != "component-name"@.len()),
        }
    }
    assert(text_field_named(name) == Some(k)) by {
        match k {
            TextField::Authors => {},
            TextField::Description => assert(name[0] != "author"@[0]),
            TextField::Licenses => assert(name[0] != "author"@[0] && name[0] != "description"@[0]),
            TextField::Source => assert(name[0] != "author"@[0] && name[0] != "description"@[0]
                && name[0] != "licenses"@[0]),
            TextField::Homepage => assert(name[0] != "author"@[0] && name[0] != "description"@[0]
                && name[0] != "licenses"@[0] && name[0] != "source"@[0]),
            TextField::Revision => assert(name[0] != "author"@[0] && name[0] != "description"@[0]
                && name[0] != "licenses"@[0] && name[0] != "source"@[0] && name[0] != "homepage"@[0]),
            TextField::Version => assert(name[0] != "author"@[0] && name[0] != "description"@[0]
                && name[0] != "licenses"@[0] && name[0] != "source"@[0] && name[0] != "homepage"@[0]
                && name[0] != "revision"@[0]),
        }
    }
}

/// An outermost section for a descriptive field that is to be cleared is dropped.
pub proof fn law_cleared_section_dropped(
    meta: AddMetadata,
    add: ProducersView,
    input: Seq<u8>,
    st: RewriteState,
    k: TextField,
    name: String,
    start: u64,
    end: u64,
    data_offset: u64,
)
    requires
        st.stack.len() == 0,
        name@ == recognized_name(k),
        existing_mode(meta, k) is Clear,
        start <= data_offset <= end <= input.len(),
    ensures
        step(meta, add, input, st, WasmPayload::Custom { name, producers: false, start, end, data_offset })
            == Ok::<RewriteState, Failure>(st),
{
    reveal(step);
    lemma_recognized(k, name@);
}

/// Keeping a plain descriptive section (description, revision, version)
/// whose payload is UTF-8 writes the same payload back under the same name.
pub proof fn law_kept_text_unchanged(st: RewriteState, k: TextField, data: Seq<u8>)
    requires
        text_check(k) is Plain,
        !(k is Authors),
        valid_utf8(data),
    ensures
        keep_text(st, k, data) == emit_custom(st, section_name(k), data),
{
    decode_utf8_encode_utf8(data);
}


/// Starting a nested binary sets aside what was written for the binary
/// that encloses it, on top of what is set aside for the binaries around
/// that one, and begins the nested binary with nothing written.
pub proof fn law_nested_starts_empty(meta: AddMetadata, add: ProducersView, input: Seq<u8>, st: RewriteState)
    ensures
        step(meta, add, input, st, WasmPayload::Nested) == Ok::<RewriteState, Failure>(
            RewriteState { output: Seq::empty(), stack: st.stack.push(st.output), ..st },
        ),
{
    reveal(step);
}

/// Ending a nested binary, at any depth, wraps what was written for it
/// into a section of the binary that immediately encloses it (a component
/// section where it begins with a component preamble, a core module
/// section otherwise), and writing goes on in that binary.
pub proof fn law_end_wraps_into_enclosing(meta: AddMetadata, add: ProducersView, input: Seq<u8>, st: RewriteState)
    requires
        st.stack.len() > 0,
        st.output.len() <= MAX_LEN,
    ensures
        step(meta, add, input, st, WasmPayload::End) == Ok::<RewriteState, Failure>(
            RewriteState {
                output: st.stack.last() + section_bytes(
                    if st.output.len() >= 8 && st.output.subrange(0, 8) == component_header_bytes() {
                        4u8
                    } else {
                        1u8
                    },
                    st.output,
                ),
                stack: st.stack.drop_last(),
                ..st
            },
        ),
{
    reveal(step);
}

/// Ending the outermost binary ends the walk and writes nothing.
pub proof fn law_outermost_end(meta: AddMetadata, add: ProducersView, input: Seq<u8>, st: RewriteState)
    requires
        st.stack.len() == 0,
    ensures
        step(meta, add, input, st, WasmPayload::End) == Ok::<RewriteState, Failure>(
            RewriteState { done: true, ..st },
        ),
{
    reveal(step);
}

/// A section copied as it stands, as a custom section.
pub open spec fn copied_as_is(st: RewriteState, section: Seq<u8>) -> Result<RewriteState, Failure> {
    if section.len() <= MAX_LEN {
        Ok(emit(st, section_bytes(0, section)))
    } else {
        Err(Failure::TooLarge)
    }
}

/// A kept section whose UTF-8 payload is written back as it is, under `name`.
pub open spec fn written_back(st: RewriteState, name: Seq<char>, data: Seq<u8>) -> Result<RewriteState, Failure> {
    if !valid_utf8(data) {
        Err(Failure::NotUtf8)
    } else if custom_section_fits(name, data) {
        Ok(emit(st, custom_section_bytes(name, data)))
    } else {
        Err(Failure::TooLarge)
    }
}

/// A kept section whose UTF-8 payload is written back in its normal form
/// `normal` under `name`, or refused with `refused` where it has none.
pub open spec fn written_normalized(
    st: RewriteState,
    name: Seq<char>,
    data: Seq<u8>,
    normal: Option<Seq<char>>,
    refused: Failure,
) -> Result<RewriteState, Failure> {
    if !valid_utf8(data) {
        Err(Failure::NotUtf8)
    } else {
        match normal {
            None => Err(refused),
            Some(t) => if custom_section_fits(name, encode_utf8(t)) {
                Ok(emit(st, custom_section_bytes(name, encode_utf8(t))))
            } else {
                Err(Failure::TooLarge)
            },
        }
    }
}

/// What becomes of an existing section under `mode`: dropped where it is
/// cleared, copied as it stands where a new value is set (the new value is
/// appended at the end), and `kept` where it is kept.
pub open spec fn existing_outcome(
    mode: AddMetadataField<MetadataValue>,
    st: RewriteState,
    section: Seq<u8>,
    kept: Result<RewriteState, Failure>,
) -> Result<RewriteState, Failure> {
    match mode {
        AddMetadataField::Clear => Ok(st),
        AddMetadataField::Replace(_) => copied_as_is(st, section),
        AddMetadataField::Keep => kept,
    }
}

/// What becomes of each existing descriptive section of the outermost
/// binary, by its name: `author` follows the authors field and cannot be
/// kept; `description` and `version` follow their own fields; `licenses`
/// follows its own field and is kept in its SPDX normal form; `source`,
/// `homepage` and `revision` all follow the source field, the first two
/// kept in their URL normal form. Kept description, revision and version
/// payloads are written back as they are.
pub proof fn law_existing_sections(
    meta: AddMetadata,
    add: ProducersView,
    input: Seq<u8>,
    st: RewriteState,
    name: String,
    start: u64,
    end: u64,
    data_offset: u64,
)
    requires
        st.stack.len() == 0,
        start <= data_offset <= end <= input.len(),
    ensures
        ({
            let r = step(meta, add, input, st, WasmPayload::Custom { name, producers: false, start, end, data_offset });
            let section = slice(input, start, end);
            let data = slice(input, data_offset, end);
            &&& name@ == "author"@ ==> r == existing_outcome(
                meta.authors,
                st,
                section,
                Err(Failure::MisnamedSection),
            )
            &&& name@ == "description"@ ==> r == existing_outcome(
                meta.description,
                st,
                section,
                written_back(st, "description"@, data),
            )
            &&& name@ == "licenses"@ ==> r == existing_outcome(
                meta.licenses,
                st,
                section,
                written_normalized(st, "licenses"@, data, spdx_normal_form(decode_utf8(data)), Failure::InvalidLicenses),
            )
            &&& name@ == "source"@ ==> r == existing_outcome(
                meta.source,
                st,
                section,
                written_normalized(st, "source"@, data, url_normal_form(decode_utf8(data)), Failure::InvalidUrl),
            )
            &&& name@ == "homepage"@ ==> r == existing_outcome(
                meta.source,
                st,
                section,
                written_normalized(st, "homepage"@, data, url_normal_form(decode_utf8(data)), Failure::InvalidUrl),
            )
            &&& name@ == "revision"@ ==> r == existing_outcome(
                meta.source,
                st,
                section,
                written_back(st, "revision"@, data),
            )
            &&& name@ == "version"@ ==> r == existing_outcome(
                meta.version,
                st,
                section,
                written_back(st, "version"@, data),
            )
        }),
{
    reveal(step);
    reveal_strlit("author");
    reveal_strlit("authors");
    let data = slice(input, data_offset, end);
    if valid_utf8(data) {
        decode_utf8_encode_utf8(data);
    }
    if name@ == "author"@ {
        lemma_recognized(TextField::Authors, name@);
        assert("author"@.len() != "authors"@.len());
    }
    if name@ == "description"@ {
        lemma_recognized(TextField::Description, name@);
    }
    if name@ == "licenses"@ {
        lemma_recognized(TextField::Licenses, name@);
    }
    if name@ == "source"@ {
        lemma_recognized(TextField::Source, name@);
    }
    if name@ == "homepage"@ {
        lemma_recognized(TextField::Homepage, name@);
    }
    if name@ == "revision"@ {
        lemma_recognized(TextField::Revision, name@);
    }
    if name@ == "version"@ {
        lemma_recognized(TextField::Version, name@);
    }
}

/// The existing name section of the outermost binary is read and written
/// back as a custom section, with the name that is set put in, and marks
/// the name as found: `name` through the module names, `component-name`
/// through the component names. Keeping and clearing the name alike leave
/// the section's own name as it was.
pub proof fn law_name_sections_rewritten(
    meta: AddMetadata,
    add: ProducersView,
    input: Seq<u8>,
    st: RewriteState,
    name: String,
    start: u64,
    end: u64,
    data_offset: u64,
)
    requires
        st.stack.len() == 0,
        start <= data_offset <= end <= input.len(),
    ensures
        ({
            let r = step(meta, add, input, st, WasmPayload::Custom { name, producers: false, start, end, data_offset });
            let data = slice(input, data_offset, end);
            let new_name = match meta.name {
                AddMetadataField::Replace(n) => Some(n@),
                _ => None,
            };
            &&& name@ == "name"@ ==> r == if !names_rewrite_fits("name"@, data.len(), new_name) {
                Err(Failure::TooLarge)
            } else {
                match rewritten_module_names(data, data_offset, new_name) {
                    None => Err(Failure::InvalidNames),
                    Some(b) => Ok(RewriteState { names_found: true, ..emit(st, seq![0u8] + b) }),
                }
            }
            &&& name@ == "component-name"@ ==> r == if !names_rewrite_fits("component-name"@, data.len(), new_name) {
                Err(Failure::TooLarge)
            } else {
                match rewritten_component_names(data, data_offset, new_name) {
                    None => Err(Failure::InvalidNames),
                    Some(b) => Ok(RewriteState { names_found: true, ..emit(st, seq![0u8] + b) }),
                }
            }
        }),
{
    reveal(step);
    reveal_strlit("name");
    reveal_strlit("component-name");
    assert("name"@.len() != "component-name"@.len());
}

/// An outermost custom section that is not a producers section and whose
/// name is none that the rewriter acts on is copied as it stands, whatever
/// the requested changes.
pub proof fn law_unrecognized_custom_copied(
    meta: AddMetadata,
    add: ProducersView,
    input: Seq<u8>,
    st: RewriteState,
    name: String,
    start: u64,
    end: u64,
    data_offset: u64,
)
    requires
        st.stack.len() == 0,
        start <= data_offset <= end <= input.len(),
        name@ != "name"@,
        name@ != "component-name"@,
        name@ != "author"@,
        name@ != "description"@,
        name@ != "licenses"@,
        name@ != "source"@,
        name@ != "homepage"@,
        name@ != "revision"@,
        name@ != "version"@,
    ensures
        step(meta, add, input, st, WasmPayload::Custom { name, producers: false, start, end, data_offset })
            == copied_as_is(st, slice(input, start, end)),
{
    reveal(step);
}

/// The bytes of the outermost binary written so far.
pub open spec fn outermost(st: RewriteState) -> Seq<u8> {
    if st.stack.len() > 0 {
        st.stack[0]
    } else {
        st.output
    }
}

/// The preamble of a component or of a core module.
pub open spec fn preamble(component: bool) -> Seq<u8> {
    if component {
        component_header_bytes()
    } else {
        module_header_bytes()
    }
}

proof fn lemma_begins_with_append(s: Seq<u8>, t: Seq<u8>, h: Seq<u8>)
    requires
        begins_with(s, h),
    ensures
        begins_with(s + t, h),
{
    assert((s + t).subrange(0, h.len() as int) =~= s.subrange(0, h.len() as int));
}

/// A step that is not the start or end of a nested binary only appends to
/// the current output, or fails.
proof fn lemma_step_appends(
    meta: AddMetadata,
    add: ProducersView,
    input: Seq<u8>,
    st: RewriteState,
    p: WasmPayload,
)
    requires
        !(p is Nested),
        !(p is End),
        step(meta, add, input, st, p) is Ok,
    ensures
        ({
            let st2 = step(meta, add, input, st, p)->Ok_0;
            &&& st2.stack == st.stack
            &&& st2.output.len() >= st.output.len()
            &&& st2.output.subrange(0, st.output.len() as int) == st.output
        }),
{
    reveal(step);
    assert forall|x: Seq<u8>| #[trigger] (st.output + x).subrange(0, st.output.len() as int) == st.output by {
        assert((st.output + x).subrange(0, st.output.len() as int) =~= st.output);
    }
    assert(st.output.subrange(0, st.output.len() as int) =~= st.output);
}

proof fn lemma_run_keeps_preamble(
    meta: AddMetadata,
    add: ProducersView,
    input: Seq<u8>,
    ps: Seq<WasmPayload>,
    component: bool,
)
    requires
        ps.len() > 0,
        ps[0] == (WasmPayload::Version { component }),
        run(meta, add, input, ps) is Ok,
    ensures
        begins_with(outermost(run(meta, add, input, ps)->Ok_0), preamble(component)),
        run(meta, add, input, ps)->Ok_0.done ==> run(meta, add, input, ps)->Ok_0.stack.len() == 0,
    decreases ps.len(),
{
    reveal(step);
    if ps.len() == 1 {
        assert(ps.drop_last().len() == 0);
        assert(Seq::<u8>::empty() + preamble(component) =~= preamble(component));
        assert(preamble(component).subrange(0, 8) =~= preamble(component));
    } else {
        let prev = ps.drop_last();
        assert(prev[0] == ps[0]);
        lemma_run_keeps_preamble(meta, add, input, prev, component);
        let st = run(meta, add, input, prev)->Ok_0;
        let h = preamble(component);
        if !st.done {
            let p = ps.last();
            let st2 = step(meta, add, input, st, p)->Ok_0;
            match p {
                WasmPayload::Nested => {
                    if st.stack.len() > 0 {
                        assert(st2.stack[0] == st.stack[0]);
                    } else {
                        assert(st2.stack[0] == st.output);
                    }
                },
                WasmPayload::End => {
                    if st.stack.len() > 1 {
                        assert(st2.stack[0] == st.stack[0]);
                    } else if st.stack.len() == 1 {
                        lemma_begins_with_append(st.stack.last(), section_bytes(
                            crate::rewrite::nested_section_id(st.output),
                            st.output,
                        ), h);
                    }
                },
                _ => {
                    lemma_step_appends(meta, add, input, st, p);
                    if st.stack.len() == 0 {
                        assert(st2.output =~= st.output + st2.output.subrange(
                            st.output.len() as int,
                            st2.output.len() as int,
                        ));
                        lemma_begins_with_append(st.output, st2.output.subrange(
                            st.output.len() as int,
                            st2.output.len() as int,
                        ), h);
                    }
                },
            }
        }
    }
}

/// `out` begins with `prefix` and whatever is appended to it keeps that so.
proof fn lemma_appends_keep_prefix(meta: AddMetadata, k: TextField, out: Result<Seq<u8>, Failure>, h: Seq<u8>)
    requires
        out matches Ok(o) && begins_with(o, h),
        append_new_text(out, meta, k) is Ok,
    ensures
        begins_with(append_new_text(out, meta, k)->Ok_0, h),
{
    let o = out->Ok_0;
    match new_value(meta, k) {
        AddMetadataField::Replace(v) => {
            lemma_begins_with_append(o, custom_section_bytes(section_name(k), encode_utf8(v@)), h);
        },
        _ => {},
    }
}

/// A rewritten binary begins with the preamble of the binary it was made
/// from, component or core module, once the walk has come back out of
/// every nested binary.
pub proof fn law_preamble_kept(
    meta: AddMetadata,
    add: ProducersView,
    input: Seq<u8>,
    ps: Seq<WasmPayload>,
    parse_failed: bool,
    component: bool,
)
    requires
        ps.len() > 0,
        ps[0] == (WasmPayload::Version { component }),
        run(meta, add, input, ps) matches Ok(st) && st.stack.len() == 0,
        rewrite_spec(meta, add, input, ps, parse_failed) is Ok,
    ensures
        begins_with(rewrite_spec(meta, add, input, ps, parse_failed)->Ok_0, preamble(component)),
{
    reveal(finish);
    lemma_run_keeps_preamble(meta, add, input, ps, component);
    let st = run(meta, add, input, ps)->Ok_0;
    let h = preamble(component);
    let r0 = appended_names(meta, st);
    match meta.name {
        AddMetadataField::Replace(n) => {
            if !st.names_found && r0 is Ok {
                lemma_begins_with_append(st.output, r0->Ok_0.subrange(st.output.len() as int, r0->Ok_0.len() as int), h);
                assert(r0->Ok_0 =~= st.output + r0->Ok_0.subrange(st.output.len() as int, r0->Ok_0.len() as int));
            }
        },
        _ => {},
    }
    let r1 = appended_producers(r0, add, st);
    if r1 is Ok && r0 is Ok && r1 != r0 {
        let o = r0->Ok_0;
        let b = r1->Ok_0.subrange(o.len() as int, r1->Ok_0.len() as int);
        assert(r1->Ok_0 =~= o + b);
        lemma_begins_with_append(o, b, h);
    }
    let r2 = append_new_text(r1, meta, TextField::Authors);
    lemma_appends_keep_prefix(meta, TextField::Authors, r1, h);
    let r3 = append_new_text(r2, meta, TextField::Description);
    lemma_appends_keep_prefix(meta, TextField::Description, r2, h);
    let r4 = append_new_text(r3, meta, TextField::Licenses);
    lemma_appends_keep_prefix(meta, TextField::Licenses, r3, h);
    let r5 = append_new_text(r4, meta, TextField::Source);
    lemma_appends_keep_prefix(meta, TextField::Source, r4, h);
    let r6 = append_new_text(r5, meta, TextField::Homepage);
    lemma_appends_keep_prefix(meta, TextField::Homepage, r5, h);
    let r7 = append_new_text(r6, meta, TextField::Revision);
    lemma_appends_keep_prefix(meta, TextField::Revision, r6, h);
    lemma_appends_keep_prefix(meta, TextField::Version, r7, h);
}

/// The section for a value of `k` that is set, or nothing.
pub open spec fn new_text_section(meta: AddMetadata, k: TextField) -> Seq<u8> {
    match new_value(meta, k) {
        AddMetadataField::Replace(v) => custom_section_bytes(section_name(k), encode_utf8(v@)),
        _ => Seq::empty(),
    }
}

/// The custom section called `name` for `field` where a new value is set, or nothing.
pub open spec fn set_value_section(field: AddMetadataField<MetadataValue>, name: Seq<char>) -> Seq<u8> {
    match field {
        AddMetadataField::Replace(v) => custom_section_bytes(name, encode_utf8(v@)),
        _ => Seq::empty(),
    }
}

/// The sections for all descriptive values that are set, each from its
/// own field and under its own name, in field order.
pub open spec fn new_text_sections(meta: AddMetadata) -> Seq<u8> {
    set_value_section(meta.authors, "authors"@) + set_value_section(meta.description, "description"@)
        + set_value_section(meta.licenses, "licenses"@) + set_value_section(meta.source, "source"@)
        + set_value_section(meta.homepage, "homepage"@) + set_value_section(meta.revision, "revision"@)
        + set_value_section(meta.version, "version"@)
}

proof fn lemma_append_new_text(out: Result<Seq<u8>, Failure>, meta: AddMetadata, k: TextField)
    ensures
        append_new_text(out, meta, k) is Ok ==> out is Ok && append_new_text(out, meta, k)->Ok_0 == out->Ok_0
            + new_text_section(meta, k),
{
    match new_value(meta, k) {
        AddMetadataField::Replace(v) => {},
        _ => {
            if out is Ok {
                assert(out->Ok_0 + Seq::<u8>::empty() =~= out->Ok_0);
            }
        },
    }
}

/// The section appended for each field is that of the field of the same name.
proof fn lemma_new_text_section_fields(meta: AddMetadata)
    ensures
        new_text_section(meta, TextField::Authors) == set_value_section(meta.authors, "authors"@),
        new_text_section(meta, TextField::Description) == set_value_section(meta.description, "description"@),
        new_text_section(meta, TextField::Licenses) == set_value_section(meta.licenses, "licenses"@),
        new_text_section(meta, TextField::Source) == set_value_section(meta.source, "source"@),
        new_text_section(meta, TextField::Homepage) == set_value_section(meta.homepage, "homepage"@),
        new_text_section(meta, TextField::Revision) == set_value_section(meta.revision, "revision"@),
        new_text_section(meta, TextField::Version) == set_value_section(meta.version, "version"@),
{
}

/// A rewritten binary ends with a section for every descriptive value
/// that is set (authors, description, licenses, source, homepage,
/// revision, version, in that order), after everything else.
pub proof fn law_new_values_last(
    meta: AddMetadata,
    add: ProducersView,
    input: Seq<u8>,
    ps: Seq<WasmPayload>,
    parse_failed: bool,
)
    requires
        rewrite_spec(meta, add, input, ps, parse_failed) is Ok,
    ensures
        ({
            let b = rewrite_spec(meta, add, input, ps, parse_failed)->Ok_0;
            let st = run(meta, add, input, ps)->Ok_0;
            let tail = new_text_sections(meta);
            &&& b.len() >= tail.len()
            &&& b.subrange(b.len() - tail.len(), b.len() as int) == tail
            &&& appended_producers(appended_names(meta, st), add, st) matches Ok(o) && b == o + tail
        }),
{
    reveal(finish);
    let st = run(meta, add, input, ps)->Ok_0;
    let r1 = appended_producers(appended_names(meta, st), add, st);
    let o = r1->Ok_0;
    let b = rewrite_spec(meta, add, input, ps, parse_failed)->Ok_0;
    let tail = new_text_sections(meta);
    let r2 = append_new_text(r1, meta, TextField::Authors);
    let r3 = append_new_text(r2, meta, TextField::Description);
    let r4 = append_new_text(r3, meta, TextField::Licenses);
    let r5 = append_new_text(r4, meta, TextField::Source);
    let r6 = append_new_text(r5, meta, TextField::Homepage);
    let r7 = append_new_text(r6, meta, TextField::Revision);
    let r8 = append_new_text(r7, meta, TextField::Version);
    assert(r8 == Ok::<Seq<u8>, Failure>(b));
    lemma_append_new_text(r1, meta, TextField::Authors);
    lemma_append_new_text(r2, meta, TextField::Description);
    lemma_append_new_text(r3, meta, TextField::Licenses);
    lemma_append_new_text(r4, meta, TextField::Source);
    lemma_append_new_text(r5, meta, TextField::Homepage);
    lemma_append_new_text(r6, meta, TextField::Revision);
    lemma_append_new_text(r7, meta, TextField::Version);
    lemma_new_text_section_fields(meta);
    assert(b =~= o + tail);
    assert(b.subrange(b.len() - tail.len(), b.len() as int) =~= tail);
}

/// Where no value is set, neither the name nor any descriptive field, and
/// there are no producers to add, nothing is appended after the walk: the
/// rewritten binary is what the walk wrote.
pub proof fn law_nothing_appended(
    meta: AddMetadata,
    add: ProducersView,
    input: Seq<u8>,
    ps: Seq<WasmPayload>,
    parse_failed: bool,
)
    requires
        !(meta.name is Replace),
        !(meta.authors is Replace),
        !(meta.description is Replace),
        !(meta.licenses is Replace),
        !(meta.source is Replace),
        !(meta.homepage is Replace),
        !(meta.revision is Replace),
        !(meta.version is Replace),
        add.len() == 0,
    ensures
        rewrite_spec(meta, add, input, ps, parse_failed) == match run(meta, add, input, ps) {
            Err(f) => Err(f),
            Ok(st) => if !st.done && parse_failed {
                Err(Failure::InvalidWasm)
            } else {
                Ok::<Seq<u8>, Failure>(st.output)
            },
        },
{
    reveal(finish);
}

/// An outermost producers section is replaced by one in which every entry
/// of the producers to add reads as given, and every other entry as before.
pub proof fn law_producers_merged(
    meta: AddMetadata,
    add: ProducersView,
    input: Seq<u8>,
    st: RewriteState,
    name: String,
    start: u64,
    end: u64,
    data_offset: u64,
)
    requires
        producers_wf(add),
        st.stack.len() == 0,
        start <= data_offset <= end <= input.len(),
        step(meta, add, input, st, WasmPayload::Custom { name, producers: true, start, end, data_offset }) is Ok,
    ensures
        ({
            let st2 = step(
                meta,
                add,
                input,
                st,
                WasmPayload::Custom { name, producers: true, start, end, data_offset },
            )->Ok_0;
            let existing = decoded_producers(slice(input, data_offset, end), data_offset)->Some_0;
            let merged = merge_spec(existing, add);
            &&& st2.producers_found
            &&& st2.output == st.output + producers_section(merged)->Some_0
            &&& producers_wf(existing) ==> forall|f: Seq<char>, n: Seq<char>|
                #[trigger] lookup(merged, f, n) == (match lookup(add, f, n) {
                    Some(v) => Some(v),
                    None => lookup(existing, f, n),
                })
        }),
{
    reveal(step);
    let existing = decoded_producers(slice(input, data_offset, end), data_offset)->Some_0;
    if producers_wf(existing) {
        law_merge_precedence(existing, add);
    }
}

/// Where the binary had no producers section and there are producers to
/// add, whose fields all hold values, their section is appended as given.
pub proof fn law_producers_appended(out: Seq<u8>, add: ProducersView, st: RewriteState)
    requires
        !st.producers_found,
        add.len() != 0,
        producers_wf(add),
        forall|i: int| 0 <= i < add.len() ==> (#[trigger] add[i]).1.len() > 0,
        producers_section(add) is Some,
    ensures
        appended_producers(Ok(out), add, st) == Ok::<Seq<u8>, Failure>(out + producers_section(add)->Some_0),
{
    law_merge_into_empty(add);
}

/// Where a name is set and the outermost binary had no name section, a
/// name section holding just that name is appended: `component-name` for
/// a component, `name` for a core module.
pub proof fn law_name_appended(meta: AddMetadata, st: RewriteState, n: String)
    requires
        meta.name == AddMetadataField::<String>::Replace(n),
        !st.names_found,
        name_section_fits(
            if begins_with(st.output, component_header_bytes()) {
                "component-name"@
            } else {
                "name"@
            },
            n@,
        ),
    ensures
        appended_names(meta, st) == Ok::<Seq<u8>, Failure>(
            st.output + if begins_with(st.output, component_header_bytes()) {
                custom_section_bytes("component-name"@, name_subsection(n@))
            } else {
                custom_section_bytes("name"@, name_subsection(n@))
            },
        ),
{
}

/// The walk ends on the outermost binary: once it has reached the
/// outermost end, no enclosing binary is pending, so what is appended
/// afterwards goes to the outermost module or component.
pub proof fn law_end_is_outermost(meta: AddMetadata, add: ProducersView, input: Seq<u8>, ps: Seq<WasmPayload>)
    requires
        run(meta, add, input, ps) matches Ok(st) && st.done,
    ensures
        run(meta, add, input, ps)->Ok_0.stack.len() == 0,
    decreases ps.len(),
{
    reveal(step);
    if ps.len() > 0 {
        let prev = run(meta, add, input, ps.drop_last());
        if prev matches Ok(st) && st.done {
            law_end_is_outermost(meta, add, input, ps.drop_last());
        }
    }
}

} // verus!

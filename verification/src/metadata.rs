//! What to do with each piece of metadata: the module or component name and
//! the descriptive custom sections (authors, description, licenses, source,
//! homepage, revision, version).
use vstd::prelude::*;
use vstd::utf8::{decode_utf8, encode_utf8, valid_utf8};
use crate::encoding::{
    MAX_LEN, custom_section_bytes, custom_section_fits, custom_fits_len, length_prefixed, leb128_len,
    custom_fits,
};

verus! {

/// How to change one field of the metadata.
#[derive(Debug, Clone)]
pub enum AddMetadataField<T> {
    /// Keep the value the binary already has.
    Keep,
    /// Remove the value the binary has.
    Clear,
    /// Set the field to a new value.
    Replace(T),
}

impl<T> AddMetadataField<T> {
    /// Whether the field is to be cleared.
    pub fn is_clear(&self) -> (r: bool)
        ensures
            r == (*self is Clear),
    {
        match self {
            AddMetadataField::Clear => true,
            _ => false,
        }
    }

    /// Whether the field is to be kept.
    pub fn is_keep(&self) -> (r: bool)
        ensures
            r == (*self is Keep),
    {
        match self {
            AddMetadataField::Keep => true,
            _ => false,
        }
    }
}

/// The text of a descriptive metadata section, as it is written, with the
/// way it was checked when it was made: a license value is an SPDX
/// expression and a source or homepage value a URL, each in its normal form.
#[derive(Debug)]
pub struct MetadataValue {
    text: String,
    check: TextCheck,
}

impl Clone for MetadataValue {
    fn clone(&self) -> (r: Self)
        ensures
            r@ == self@,
            r.check() == self.check(),
    {
        proof {
            use_type_invariant(self);
        }
        MetadataValue { text: self.text.clone(), check: self.check }
    }
}

impl View for MetadataValue {
    type V = Seq<char>;

    closed spec fn view(&self) -> Seq<char> {
        self.text@
    }
}

/// The changes to make to a binary's metadata.
#[derive(Debug, Clone)]
pub struct AddMetadata {
    /// The module or component name, in the `name` or `component-name` section.
    pub name: AddMetadataField<String>,
    pub authors: AddMetadataField<MetadataValue>,
    pub description: AddMetadataField<MetadataValue>,
    pub licenses: AddMetadataField<MetadataValue>,
    pub source: AddMetadataField<MetadataValue>,
    pub homepage: AddMetadataField<MetadataValue>,
    pub revision: AddMetadataField<MetadataValue>,
    pub version: AddMetadataField<MetadataValue>,
}

impl AddMetadata {
    /// Keep everything.
    pub fn keep_all() -> (m: AddMetadata)
        ensures
            m.name is Keep,
            m.authors is Keep,
            m.description is Keep,
            m.licenses is Keep,
            m.source is Keep,
            m.homepage is Keep,
            m.revision is Keep,
            m.version is Keep,
    {
        AddMetadata {
            name: AddMetadataField::Keep,
            authors: AddMetadataField::Keep,
            description: AddMetadataField::Keep,
            licenses: AddMetadataField::Keep,
            source: AddMetadataField::Keep,
            homepage: AddMetadataField::Keep,
            revision: AddMetadataField::Keep,
            version: AddMetadataField::Keep,
        }
    }
}

/// The descriptive metadata sections, in the order in which new values are appended.
#[derive(Clone, Copy)]
pub enum TextField {
    Authors,
    Description,
    Licenses,
    Source,
    Homepage,
    Revision,
    Version,
}

/// How the text of a section is checked and rewritten when it is kept.
#[derive(Clone, Copy, Debug)]
pub enum TextCheck {
    /// Any text.
    Plain,
    /// An SPDX license expression, written back in its normal form.
    License,
    /// A URL, written back in its normal form.
    Url,
}

/// The name under which the section for `k` is written.
pub open spec fn section_name(k: TextField) -> Seq<char> {
    match k {
        TextField::Authors => "authors"@,
        TextField::Description => "description"@,
        TextField::Licenses => "licenses"@,
        TextField::Source => "source"@,
        TextField::Homepage => "homepage"@,
        TextField::Revision => "revision"@,
        TextField::Version => "version"@,
    }
}

/// The name of an existing custom section that the rewriter treats as `k`.
/// For authors it is `author`, which differs from the name the section is
/// written under.
pub open spec fn recognized_name(k: TextField) -> Seq<char> {
    match k {
        TextField::Authors => "author"@,
        _ => section_name(k),
    }
}

/// How the text of `k` is checked.
pub open spec fn text_check(k: TextField) -> TextCheck {
    match k {
        TextField::Licenses => TextCheck::License,
        TextField::Source => TextCheck::Url,
        TextField::Homepage => TextCheck::Url,
        _ => TextCheck::Plain,
    }
}

/// The field of `meta` that says what to do with an existing section for
/// `k`. Homepage and revision sections follow the `source` field.
pub open spec fn existing_mode(meta: AddMetadata, k: TextField) -> AddMetadataField<MetadataValue> {
    match k {
        TextField::Authors => meta.authors,
        TextField::Description => meta.description,
        TextField::Licenses => meta.licenses,
        TextField::Source => meta.source,
        TextField::Homepage => meta.source,
        TextField::Revision => meta.source,
        TextField::Version => meta.version,
    }
}

/// The field of `meta` whose new value, if replaced, is appended for `k`.
pub open spec fn new_value(meta: AddMetadata, k: TextField) -> AddMetadataField<MetadataValue> {
    match k {
        TextField::Authors => meta.authors,
        TextField::Description => meta.description,
        TextField::Licenses => meta.licenses,
        TextField::Source => meta.source,
        TextField::Homepage => meta.homepage,
        TextField::Revision => meta.revision,
        TextField::Version => meta.version,
    }
}

/// The normal form of an SPDX license expression, `None` where the text is not one.
pub uninterp spec fn spdx_normal_form(text: Seq<char>) -> Option<Seq<char>>;

/// The normal form of a URL, `None` where the text is not one.
pub uninterp spec fn url_normal_form(text: Seq<char>) -> Option<Seq<char>>;

/// The text written back for a kept section of kind `check`, `None` where
/// the text is refused.
pub open spec fn checked_text(check: TextCheck, text: Seq<char>) -> Option<Seq<char>> {
    match check {
        TextCheck::Plain => Some(text),
        TextCheck::License => spdx_normal_form(text),
        TextCheck::Url => url_normal_form(text),
    }
}

/// The `name` subsection that holds only a module or component name.
pub open spec fn name_subsection(name: Seq<char>) -> Seq<u8> {
    seq![0u8] + length_prefixed(length_prefixed(encode_utf8(name)))
}

/// A custom section called `section` that holds only the name `name` can be written.
pub open spec fn name_section_fits(section: Seq<char>, name: Seq<char>) -> bool {
    encode_utf8(name).len() <= MAX_LEN && custom_section_fits(section, name_subsection(name))
}

/// An existing section called `section` whose payload takes `data_len`
/// bytes can be written back, with a subsection for `name` put in first
/// where it is given. Every subsection is written back in no more bytes than
/// it took in the payload, and a payload that is minimally encoded and holds
/// no name of its own takes exactly that many: this is the least bound that
/// the payload's length and the name decide.
pub open spec fn names_rewrite_fits(section: Seq<char>, data_len: nat, name: Option<Seq<char>>) -> bool {
    match name {
        Some(n) => encode_utf8(n).len() <= MAX_LEN && custom_fits_len(
            encode_utf8(section).len(),
            data_len + name_subsection(n).len(),
        ),
        None => custom_fits_len(encode_utf8(section).len(), data_len),
    }
}

/// The length of the subsection that holds only the name `name`, where
/// it and the name's length fit in the lengths that the binary format
/// records.
fn name_subsection_len(name: &str) -> (r: Option<u64>)
    ensures
        match r {
            Some(l) => l == name_subsection(name@).len() && l <= MAX_LEN && encode_utf8(name@).len()
                <= MAX_LEN,
            None => !(encode_utf8(name@).len() <= MAX_LEN && name_subsection(name@).len() <= MAX_LEN),
        },
{
    let n: usize = name.as_bytes().len();
    if (n as u64) > MAX_LEN {
        return None;
    }
    let inner: u64 = leb128_len(n as u64) + (n as u64);
    proof {
        assert(length_prefixed(encode_utf8(name@)).len() == inner);
    }
    if inner > MAX_LEN {
        proof {
            assert(name_subsection(name@).len() > inner);
        }
        return None;
    }
    let sub: u64 = 1 + leb128_len(inner) + inner;
    proof {
        assert(name_subsection(name@).len() == sub);
    }
    if sub > MAX_LEN {
        return None;
    }
    Some(sub)
}

/// Whether a custom section called `section` that holds only the name
/// `name` can be written.
pub fn name_section_fits_of(section: &str, name: &str) -> (r: bool)
    ensures
        r == name_section_fits(section@, name@),
{
    match name_subsection_len(name) {
        None => false,
        Some(sub) => custom_fits(section.as_bytes().len(), sub as usize),
    }
}

/// Whether an existing section called `section` whose payload takes
/// `data_len` bytes can be written back, with `name` put in where it is given.
pub fn names_rewrite_fits_of(section: &str, data_len: usize, name: Option<&str>) -> (r: bool)
    ensures
        r == names_rewrite_fits(
            section@,
            data_len as nat,
            match name {
                Some(n) => Some(n@),
                None => None,
            },
        ),
{
    match name {
        None => custom_fits(section.as_bytes().len(), data_len),
        Some(n) => match name_subsection_len(n) {
            None => false,
            Some(sub) => {
                if (data_len as u64) > MAX_LEN || (data_len as u64) + sub > MAX_LEN {
                    return false;
                }
                custom_fits(section.as_bytes().len(), ((data_len as u64) + sub) as usize)
            },
        },
    }
}

/// The existing `name` section of a module, with the offset of its payload,
/// written back with the module name replaced where `name` is given;
/// `None` where the section is malformed or cannot be written back.
pub uninterp spec fn rewritten_module_names(data: Seq<u8>, offset: u64, name: Option<Seq<char>>) -> Option<Seq<u8>>;

/// The same for the `component-name` section of a component.
pub uninterp spec fn rewritten_component_names(data: Seq<u8>, offset: u64, name: Option<Seq<char>>) -> Option<Seq<u8>>;

/// Decodes bytes as UTF-8 text.
/// Calls `String::from_utf8`, which fails exactly on bytes that are not UTF-8.
#[verifier::external_body]
pub fn decode_text(data: &[u8]) -> (r: Option<String>)
    ensures
        r is Some <==> valid_utf8(data@),
        r matches Some(s) ==> s@ == decode_utf8(data@),
{
    String::from_utf8(data.to_vec()).ok()
}

/// The normal form of an SPDX license expression.
/// Calls `wasm_metadata::Licenses::new`, which parses the text with
/// `spdx::Expression::parse`, and prints the result back with `to_string`.
/// Which texts are accepted and how they print is named, not stated.
#[verifier::external_body]
pub fn normalize_licenses(text: &str) -> (r: Option<String>)
    ensures
        r is Some <==> spdx_normal_form(text@) is Some,
        r matches Some(t) ==> t@ == spdx_normal_form(text@).unwrap(),
{
    wasm_metadata::Licenses::new(text).ok().map(|l| l.to_string())
}

/// The normal form of a URL.
/// Calls `wasm_metadata::Source::new`, which parses the text with
/// `url::Url::parse`, and prints the result back with `to_string`.
/// `wasm_metadata::Homepage::new` does the same. Which texts are accepted
/// and how they print is named, not stated.
#[verifier::external_body]
pub fn normalize_url(text: &str) -> (r: Option<String>)
    ensures
        r is Some <==> url_normal_form(text@) is Some,
        r matches Some(t) ==> t@ == url_normal_form(text@).unwrap(),
{
    wasm_metadata::Source::new(text).ok().map(|s| s.to_string())
}

/// Reads the `name` section payload found at `offset` and writes it back
/// as a custom section without its leading identifier byte.
/// Calls `wasm_metadata::ModuleNames::from_bytes`, then `raw_custom_section`,
/// which puts the module name subsection first and re-encodes the other
/// subsections. The bytes are named, not stated; nor is the error. The
/// encoder panics on a length above `u32::MAX`; `requires` bounds the
/// payload so that no length written can exceed it.
#[verifier::external_body]
pub fn module_names_section(data: &[u8], offset: u64) -> (r: Result<Vec<u8>, anyhow::Error>)
    requires
        names_rewrite_fits("name"@, data@.len(), None),
    ensures
        r is Ok <==> rewritten_module_names(data@, offset, None) is Some,
        r matches Ok(b) ==> b@ == rewritten_module_names(data@, offset, None).unwrap(),
{
    let names = wasm_metadata::ModuleNames::from_bytes(data, offset)?;
    names.raw_custom_section()
}

/// As `module_names_section`, with the module name set to `name` by
/// `wasm_metadata::ModuleNames::set_name` before it is written back.
/// `requires` bounds the payload and the new name together, so that the
/// encoder, which panics on a length above `u32::MAX`, is never asked to
/// write one.
#[verifier::external_body]
pub fn module_names_section_renamed(data: &[u8], offset: u64, name: &str) -> (r: Result<Vec<u8>, anyhow::Error>)
    requires
        names_rewrite_fits("name"@, data@.len(), Some(name@)),
    ensures
        r is Ok <==> rewritten_module_names(data@, offset, Some(name@)) is Some,
        r matches Ok(b) ==> b@ == rewritten_module_names(data@, offset, Some(name@)).unwrap(),
{
    let mut names = wasm_metadata::ModuleNames::from_bytes(data, offset)?;
    names.set_name(name);
    names.raw_custom_section()
}

/// Reads the `component-name` section payload found at `offset` and writes
/// it back as a custom section without its leading identifier byte.
/// Calls `wasm_metadata::ComponentNames::from_bytes`, then
/// `raw_custom_section`. The bytes are named, not stated; nor is the error.
/// As for `module_names_section`, `requires` keeps every length written
/// within `u32::MAX`.
#[verifier::external_body]
pub fn component_names_section(data: &[u8], offset: u64) -> (r: Result<Vec<u8>, anyhow::Error>)
    requires
        names_rewrite_fits("component-name"@, data@.len(), None),
    ensures
        r is Ok <==> rewritten_component_names(data@, offset, None) is Some,
        r matches Ok(b) ==> b@ == rewritten_component_names(data@, offset, None).unwrap(),
{
    let names = wasm_metadata::ComponentNames::from_bytes(data, offset)?;
    names.raw_custom_section()
}

/// As `component_names_section`, with the component name set to `name` by
/// `wasm_metadata::ComponentNames::set_name` before it is written back.
/// `requires` bounds the payload and the new name together, so that the
/// encoder, which panics on a length above `u32::MAX`, is never asked to
/// write one.
#[verifier::external_body]
pub fn component_names_section_renamed(data: &[u8], offset: u64, name: &str) -> (r: Result<Vec<u8>, anyhow::Error>)
    requires
        names_rewrite_fits("component-name"@, data@.len(), Some(name@)),
    ensures
        r is Ok <==> rewritten_component_names(data@, offset, Some(name@)) is Some,
        r matches Ok(b) ==> b@ == rewritten_component_names(data@, offset, Some(name@)).unwrap(),
{
    let mut names = wasm_metadata::ComponentNames::from_bytes(data, offset)?;
    names.set_name(name);
    names.raw_custom_section()
}

/// Appends a `name` section that holds only the module name `name`.
/// Calls `wasm_encoder::NameSection::module` on a new section, then
/// `wasm_encoder::Section::append_to`: subsection 0 with the name as a
/// string, inside a custom section called `name`.
#[verifier::external_body]
pub fn append_module_name_section(name: &str, out: &mut Vec<u8>)
    requires
        name_section_fits("name"@, name@),
    ensures
        final(out)@ == old(out)@ + custom_section_bytes("name"@, name_subsection(name@)),
{
    let mut section = wasm_encoder::NameSection::new();
    section.module(name);
    wasm_encoder::Section::append_to(&section, out);
}

/// Appends a `component-name` section that holds only the component name `name`.
/// Calls `wasm_encoder::ComponentNameSection::component` on a new section,
/// then `wasm_encoder::ComponentSection::append_to_component`: subsection 0
/// with the name as a string, inside a custom section called `component-name`.
#[verifier::external_body]
pub fn append_component_name_section(name: &str, out: &mut Vec<u8>)
    requires
        name_section_fits("component-name"@, name@),
    ensures
        final(out)@ == old(out)@ + custom_section_bytes("component-name"@, name_subsection(name@)),
{
    let mut section = wasm_encoder::ComponentNameSection::new();
    section.component(name);
    wasm_encoder::ComponentSection::append_to_component(&section, out);
}

/// The name under which the section for `k` is written.
pub fn section_name_of(k: TextField) -> (r: &'static str)
    ensures
        r@ == section_name(k),
{
    match k {
        TextField::Authors => "authors",
        TextField::Description => "description",
        TextField::Licenses => "licenses",
        TextField::Source => "source",
        TextField::Homepage => "homepage",
        TextField::Revision => "revision",
        TextField::Version => "version",
    }
}

/// The name of an existing section that is treated as `k`.
pub fn recognized_name_of(k: TextField) -> (r: &'static str)
    ensures
        r@ == recognized_name(k),
{
    match k {
        TextField::Authors => "author",
        _ => section_name_of(k),
    }
}

/// How the text of `k` is checked.
pub fn text_check_of(k: TextField) -> (r: TextCheck)
    ensures
        r == text_check(k),
{
    match k {
        TextField::Licenses => TextCheck::License,
        TextField::Source => TextCheck::Url,
        TextField::Homepage => TextCheck::Url,
        _ => TextCheck::Plain,
    }
}

impl AddMetadata {
    /// The field that says what to do with an existing section for `k`.
    pub fn existing_mode_of(&self, k: TextField) -> (r: &AddMetadataField<MetadataValue>)
        ensures
            *r == existing_mode(*self, k),
    {
        match k {
            TextField::Authors => &self.authors,
            TextField::Description => &self.description,
            TextField::Licenses => &self.licenses,
            TextField::Source => &self.source,
            TextField::Homepage => &self.source,
            TextField::Revision => &self.source,
            TextField::Version => &self.version,
        }
    }

    /// The field whose new value, if set, is appended for `k`.
    pub fn new_value_of(&self, k: TextField) -> (r: &AddMetadataField<MetadataValue>)
        ensures
            *r == new_value(*self, k),
    {
        match k {
            TextField::Authors => &self.authors,
            TextField::Description => &self.description,
            TextField::Licenses => &self.licenses,
            TextField::Source => &self.source,
            TextField::Homepage => &self.homepage,
            TextField::Revision => &self.revision,
            TextField::Version => &self.version,
        }
    }
}

/// `text` is what `check` makes of some text: any text where nothing is
/// checked, else a normal form.
pub open spec fn is_checked_form(check: TextCheck, text: Seq<char>) -> bool {
    match check {
        TextCheck::Plain => true,
        TextCheck::License => exists|s: Seq<char>| #[trigger] spdx_normal_form(s) == Some(text),
        TextCheck::Url => exists|s: Seq<char>| #[trigger] url_normal_form(s) == Some(text),
    }
}

impl MetadataValue {
    /// How the value was checked when it was made.
    pub closed spec fn check(&self) -> TextCheck {
        self.check
    }

    /// Every value holds what its check makes of some text.
    #[verifier::type_invariant]
    spec fn checked(self) -> bool {
        is_checked_form(self.check, self.text@)
    }

    /// A value written as it is given (authors, description, revision, version).
    pub fn text(text: &str) -> (v: MetadataValue)
        ensures
            v@ == text@,
            v.check() == TextCheck::Plain,
    {
        MetadataValue { text: text.to_owned(), check: TextCheck::Plain }
    }

    /// A license value: an SPDX expression, kept in its normal form.
    pub fn licenses(text: &str) -> (v: Option<MetadataValue>)
        ensures
            v is Some <==> spdx_normal_form(text@) is Some,
            v matches Some(m) ==> m@ == spdx_normal_form(text@).unwrap() && m.check() == TextCheck::License,
    {
        match normalize_licenses(text) {
            Some(t) => {
                proof {
                    assert(spdx_normal_form(text@) == Some(t@));
                }
                Some(MetadataValue { text: t, check: TextCheck::License })
            },
            None => None,
        }
    }

    /// A source or homepage value: a URL, kept in its normal form.
    pub fn url(text: &str) -> (v: Option<MetadataValue>)
        ensures
            v is Some <==> url_normal_form(text@) is Some,
            v matches Some(m) ==> m@ == url_normal_form(text@).unwrap() && m.check() == TextCheck::Url,
    {
        match normalize_url(text) {
            Some(t) => {
                proof {
                    assert(url_normal_form(text@) == Some(t@));
                }
                Some(MetadataValue { text: t, check: TextCheck::Url })
            },
            None => None,
        }
    }

    /// The text of the value, which is what its check makes of some text.
    pub fn as_str(&self) -> (r: &str)
        ensures
            r@ == self@,
            is_checked_form(self.check(), r@),
    {
        proof {
            use_type_invariant(self);
        }
        self.text.as_str()
    }
}

} // verus!

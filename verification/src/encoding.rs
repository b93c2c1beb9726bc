//! Byte-level encodings of the WebAssembly binary format used by the
//! rewriter: unsigned LEB128 integers, length-prefixed byte vectors and
//! sections.
use vstd::prelude::*;
use vstd::utf8::encode_utf8;

verus! {

/// The largest length that the binary format can record (a `u32`).
pub const MAX_LEN: u64 = 0xffff_ffff;

/// The unsigned LEB128 encoding of `n`: seven bits per byte, least
/// significant group first, high bit set on every byte but the last.
pub open spec fn leb128(n: nat) -> Seq<u8>
    decreases n,
{
    if n < 128 {
        seq![n as u8]
    } else {
        seq![((n % 128) + 128) as u8] + leb128(n / 128)
    }
}

/// A vector of bytes as the binary format writes it: its length, then the bytes.
pub open spec fn length_prefixed(data: Seq<u8>) -> Seq<u8> {
    leb128(data.len()) + data
}

/// A section with identifier `id` and contents `data`.
pub open spec fn section_bytes(id: u8, data: Seq<u8>) -> Seq<u8> {
    seq![id] + length_prefixed(data)
}

/// A custom section (identifier 0) called `name` with payload `data`.
pub open spec fn custom_section_bytes(name: Seq<char>, data: Seq<u8>) -> Seq<u8> {
    section_bytes(0, length_prefixed(encode_utf8(name)) + data)
}

/// A custom section whose name takes `name_len` bytes and whose payload
/// takes `data_len` bytes can be written: the name's length and the
/// section's size fit in the lengths that the binary format records.
pub open spec fn custom_fits_len(name_len: nat, data_len: nat) -> bool {
    name_len <= MAX_LEN && leb128(name_len).len() + name_len + data_len <= MAX_LEN
}

/// A custom section called `name` holding `data` can be written.
pub open spec fn custom_section_fits(name: Seq<char>, data: Seq<u8>) -> bool {
    custom_fits_len(encode_utf8(name).len(), data.len())
}

/// The preamble of a WebAssembly component.
pub open spec fn component_header_bytes() -> Seq<u8> {
    seq![0x00u8, 0x61u8, 0x73u8, 0x6du8, 0x0du8, 0x00u8, 0x01u8, 0x00u8]
}

/// The preamble of a core WebAssembly module.
pub open spec fn module_header_bytes() -> Seq<u8> {
    seq![0x00u8, 0x61u8, 0x73u8, 0x6du8, 0x01u8, 0x00u8, 0x00u8, 0x00u8]
}

/// `128` to the power `k`.
pub open spec fn pow128(k: nat) -> nat
    decreases k,
{
    if k == 0 {
        1
    } else {
        128 * pow128((k - 1) as nat)
    }
}

proof fn lemma_leb128_len_below(n: nat, k: nat)
    requires
        1 <= k,
        n < pow128(k),
    ensures
        leb128(n).len() <= k,
    decreases k,
{
    if n >= 128 {
        if k == 1 {
            assert(pow128(1) == 128 * pow128(0));
        } else {
            assert(n / 128 < pow128((k - 1) as nat)) by (nonlinear_arith)
                requires
                    n < pow128(k),
                    pow128(k) == 128 * pow128((k - 1) as nat),
            ;
            lemma_leb128_len_below(n / 128, (k - 1) as nat);
        }
    }
}

/// The encoding of a number below 2^32 takes one to five bytes.
pub proof fn lemma_leb128_len(n: nat)
    ensures
        1 <= leb128(n).len(),
        n <= MAX_LEN ==> leb128(n).len() <= 5,
        n < 128 <==> leb128(n).len() == 1,
    decreases n,
{
    if n >= 128 {
        lemma_leb128_len(n / 128);
    }
    if n <= MAX_LEN {
        reveal_with_fuel(pow128, 6);
        assert(pow128(5) == 34359738368);
        lemma_leb128_len_below(n, 5);
    }
}

/// Only the last byte of an encoding has its high bit clear: this is what
/// lets a reader find where the number ends.
pub proof fn lemma_leb128_continuation_bits(n: nat)
    ensures
        leb128(n).last() < 128,
        forall|i: int| 0 <= i < leb128(n).len() - 1 ==> #[trigger] leb128(n)[i] >= 128,
    decreases n,
{
    if n >= 128 {
        lemma_leb128_continuation_bits(n / 128);
        let rest = leb128(n / 128);
        assert(leb128(n) == seq![((n % 128) + 128) as u8] + rest);
        assert forall|i: int| 0 <= i < leb128(n).len() - 1 implies #[trigger] leb128(n)[i] >= 128 by {
            if i > 0 {
                assert(leb128(n)[i] == rest[i - 1]);
            }
        }
    }
}

/// Distinct numbers have distinct encodings.
pub proof fn lemma_leb128_injective(m: nat, n: nat)
    requires
        leb128(m) == leb128(n),
    ensures
        m == n,
    decreases m,
{
    lemma_leb128_len(m);
    lemma_leb128_len(n);
    if m >= 128 && n >= 128 {
        assert(leb128(m)[0] == ((m % 128) + 128) as u8);
        assert(leb128(n)[0] == ((n % 128) + 128) as u8);
        assert(((m % 128) + 128) as u8 == (m % 128) + 128);
        assert(m % 128 == n % 128);
        assert(leb128(m / 128) == leb128(m).drop_first());
        assert(leb128(n / 128) == leb128(n).drop_first());
        lemma_leb128_injective(m / 128, n / 128);
        assert(m == 128 * (m / 128) + m % 128) by (nonlinear_arith);
        assert(n == 128 * (n / 128) + n % 128) by (nonlinear_arith);
    } else if m < 128 && n < 128 {
        assert(leb128(m)[0] == m as u8);
        assert(leb128(n)[0] == n as u8);
        assert(m as u8 == m);
        assert(n as u8 == n);
    }
}

/// The number of bytes that the encoding of `n` takes.
pub fn leb128_len(n: u64) -> (r: u64)
    requires
        n <= MAX_LEN,
    ensures
        r == leb128(n as nat).len(),
        1 <= r <= 5,
{
    proof {
        lemma_leb128_len(n as nat);
    }
    let mut v: u64 = n;
    let mut count: u64 = 1;
    while v >= 128
        invariant
            1 <= count <= 5,
            v <= n,
            count + leb128(v as nat).len() == leb128(n as nat).len() + 1,
            leb128(n as nat).len() <= 5,
        decreases v,
    {
        proof {
            lemma_leb128_len((v / 128) as nat);
        }
        v = v / 128;
        count = count + 1;
    }
    count
}

/// Whether a custom section with a name of `name_len` bytes and a payload
/// of `data_len` bytes can be written.
pub fn custom_fits(name_len: usize, data_len: usize) -> (r: bool)
    ensures
        r == custom_fits_len(name_len as nat, data_len as nat),
{
    if (name_len as u64) > MAX_LEN || (data_len as u64) > MAX_LEN {
        return false;
    }
    let l = leb128_len(name_len as u64);
    l + (name_len as u64) + (data_len as u64) <= MAX_LEN
}

/// Appends the LEB128 encoding of `v` to `sink`.
/// Calls `<u32 as wasm_encoder::Encode>::encode`, which writes the minimal
/// unsigned LEB128 encoding of the value.
#[verifier::external_body]
pub fn encode_u32(v: u32, sink: &mut Vec<u8>)
    ensures
        final(sink)@ == old(sink)@ + leb128(v as nat),
{
    wasm_encoder::Encode::encode(&v, sink);
}

/// Appends `data` to `sink` with its length in front.
/// Calls `<[u8] as wasm_encoder::Encode>::encode`: the length as LEB128,
/// then the bytes. It panics on a length above `u32::MAX`, which
/// `requires` leaves out.
#[verifier::external_body]
pub fn encode_byte_vec(data: &[u8], sink: &mut Vec<u8>)
    requires
        data@.len() <= MAX_LEN,
    ensures
        final(sink)@ == old(sink)@ + length_prefixed(data@),
{
    wasm_encoder::Encode::encode(data, sink);
}

/// Appends a section with identifier `id` and contents `data`.
/// Calls `wasm_encoder::Section::append_to` on a `wasm_encoder::RawSection`:
/// the identifier byte, then the contents as a length-prefixed vector.
#[verifier::external_body]
pub fn append_raw_section(id: u8, data: &[u8], sink: &mut Vec<u8>)
    requires
        data@.len() <= MAX_LEN,
    ensures
        final(sink)@ == old(sink)@ + section_bytes(id, data@),
{
    wasm_encoder::Section::append_to(&wasm_encoder::RawSection { id, data }, sink);
}

/// Appends a custom section called `name` with payload `data`.
/// Calls `wasm_encoder::Section::append_to` on a `wasm_encoder::CustomSection`:
/// byte 0, the total size, the name as a length-prefixed string, then the
/// payload. It panics where the size exceeds `u32::MAX`, which `requires`
/// leaves out.
#[verifier::external_body]
pub fn append_custom_section(name: &str, data: &[u8], sink: &mut Vec<u8>)
    requires
        custom_section_fits(name@, data@),
    ensures
        final(sink)@ == old(sink)@ + custom_section_bytes(name@, data@),
{
    let section = wasm_encoder::CustomSection { name: name.into(), data: data.into() };
    wasm_encoder::Section::append_to(&section, sink);
}

/// The preamble of a component, `wasm_encoder::Component::HEADER`.
#[verifier::external_body]
pub fn component_header() -> (h: Vec<u8>)
    ensures
        h@ == component_header_bytes(),
{
    wasm_encoder::Component::HEADER.to_vec()
}

/// The preamble of a core module, `wasm_encoder::Module::HEADER`.
#[verifier::external_body]
pub fn module_header() -> (h: Vec<u8>)
    ensures
        h@ == module_header_bytes(),
{
    wasm_encoder::Module::HEADER.to_vec()
}

/// The identifier of a nested component section,
/// `wasm_encoder::ComponentSectionId::Component` (4).
#[verifier::external_body]
pub fn component_section_id() -> (id: u8)
    ensures
        id == 4,
{
    wasm_encoder::ComponentSectionId::Component.into()
}

/// The identifier of a nested core module section,
/// `wasm_encoder::ComponentSectionId::CoreModule` (1).
#[verifier::external_body]
pub fn core_module_section_id() -> (id: u8)
    ensures
        id == 1,
{
    wasm_encoder::ComponentSectionId::CoreModule.into()
}

/// Appends the bytes of `data` to `out`.
pub fn extend_bytes(out: &mut Vec<u8>, data: &[u8])
    ensures
        final(out)@ == old(out)@ + data@,
{
    let mut i: usize = 0;
    while i < data.len()
        invariant
            i <= data@.len(),
            out@ == old(out)@ + data@.subrange(0, i as int),
        decreases data@.len() - i,
    {
        out.push(data[i]);
        i = i + 1;
        assert(data@.subrange(0, i as int) == data@.subrange(0, i - 1) + seq![data@[i - 1]]);
    }
    assert(data@.subrange(0, i as int) == data@);
}

/// Whether `bytes` begins with `prefix`.
pub fn starts_with(bytes: &[u8], prefix: &[u8]) -> (r: bool)
    ensures
        r == (prefix@.len() <= bytes@.len() && bytes@.subrange(0, prefix@.len() as int) == prefix@),
{
    if prefix.len() > bytes.len() {
        return false;
    }
    let mut i: usize = 0;
    while i < prefix.len()
        invariant
            prefix@.len() <= bytes@.len(),
            i <= prefix@.len(),
            bytes@.subrange(0, i as int) == prefix@.subrange(0, i as int),
        decreases prefix@.len() - i,
    {
        if bytes[i] != prefix[i] {
            assert(bytes@.subrange(0, prefix@.len() as int)[i as int] != prefix@[i as int]);
            return false;
        }
        i = i + 1;
        assert(bytes@.subrange(0, i as int) == bytes@.subrange(0, i - 1) + seq![bytes@[i - 1]]);
        assert(prefix@.subrange(0, i as int) == prefix@.subrange(0, i - 1) + seq![prefix@[i - 1]]);
    }
    assert(prefix@.subrange(0, i as int) == prefix@);
    true
}

} // verus!

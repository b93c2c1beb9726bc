//! The producers section: which languages, tools and SDKs produced a
//! binary, as fields of name/version pairs.
//!
//! Fields and the values within a field keep the order in which they were
//! first added; adding a name that is already there replaces its version in
//! place.
use vstd::prelude::*;
use vstd::utf8::encode_utf8;
use crate::encoding::{
    MAX_LEN, leb128, length_prefixed, custom_section_bytes, custom_section_fits, encode_u32,
    encode_byte_vec, append_custom_section, custom_fits,
};

verus! {

/// The name/version pairs of one field, in order.
pub type ValuesView = Seq<(Seq<char>, Seq<char>)>;

/// The fields of a producers section, in order, each with its values.
pub type ProducersView = Seq<(Seq<char>, ValuesView)>;

/// No two entries of `s` share a key.
pub open spec fn keys_distinct<V>(s: Seq<(Seq<char>, V)>) -> bool {
    forall|i: int, j: int| 0 <= i < j < s.len() ==> #[trigger] s[i].0 != #[trigger] s[j].0
}

/// Some entry of `s` has key `k`.
pub open spec fn has_key<V>(s: Seq<(Seq<char>, V)>, k: Seq<char>) -> bool {
    exists|i: int| 0 <= i < s.len() && #[trigger] s[i].0 == k
}

/// The position of the entry with key `k`.
pub open spec fn key_index<V>(s: Seq<(Seq<char>, V)>, k: Seq<char>) -> int {
    choose|i: int| 0 <= i < s.len() && #[trigger] s[i].0 == k
}

/// `s` with `k` bound to `v`: in place where `k` is already a key, at the end otherwise.
pub open spec fn insert_entry<V>(s: Seq<(Seq<char>, V)>, k: Seq<char>, v: V) -> Seq<(Seq<char>, V)> {
    if has_key(s, k) {
        s.update(key_index(s, k), (k, v))
    } else {
        s.push((k, v))
    }
}

/// The values of field `field`, or none where there is no such field.
pub open spec fn field_values(p: ProducersView, field: Seq<char>) -> ValuesView {
    if has_key(p, field) {
        p[key_index(p, field)].1
    } else {
        Seq::empty()
    }
}

/// The version recorded for `name` in field `field`, if any.
pub open spec fn lookup(p: ProducersView, field: Seq<char>, name: Seq<char>) -> Option<Seq<char>> {
    let vs = field_values(p, field);
    if has_key(vs, name) {
        Some(vs[key_index(vs, name)].1)
    } else {
        None
    }
}

/// Field names are distinct, and so are the value names within each field.
pub open spec fn producers_wf(p: ProducersView) -> bool {
    &&& keys_distinct(p)
    &&& forall|i: int| 0 <= i < p.len() ==> keys_distinct(#[trigger] p[i].1)
}

/// `p` after recording `name` at `version` in field `field`.
pub open spec fn add_spec(p: ProducersView, field: Seq<char>, name: Seq<char>, version: Seq<char>) -> ProducersView {
    insert_entry(p, field, insert_entry(field_values(p, field), name, version))
}

/// The (field, name, version) entries of one field, in order.
pub open spec fn field_triples(f: (Seq<char>, ValuesView)) -> Seq<(Seq<char>, Seq<char>, Seq<char>)> {
    f.1.map_values(|nv: (Seq<char>, Seq<char>)| (f.0, nv.0, nv.1))
}

/// All (field, name, version) entries of `p`, field by field.
pub open spec fn triples(p: ProducersView) -> Seq<(Seq<char>, Seq<char>, Seq<char>)>
    decreases p.len(),
{
    if p.len() == 0 {
        Seq::empty()
    } else {
        triples(p.drop_last()) + field_triples(p.last())
    }
}

/// `p` after adding each entry of `ts` in turn.
pub open spec fn add_all(p: ProducersView, ts: Seq<(Seq<char>, Seq<char>, Seq<char>)>) -> ProducersView
    decreases ts.len(),
{
    if ts.len() == 0 {
        p
    } else {
        let q = add_all(p, ts.drop_last());
        add_spec(q, ts.last().0, ts.last().1, ts.last().2)
    }
}

/// `p` after taking in every entry of `other`, whose versions win.
pub open spec fn merge_spec(p: ProducersView, other: ProducersView) -> ProducersView {
    add_all(p, triples(other))
}

/// The encoding of the values of one field: each name and version as a string.
pub open spec fn values_bytes(vs: ValuesView) -> Seq<u8>
    decreases vs.len(),
{
    if vs.len() == 0 {
        Seq::empty()
    } else {
        values_bytes(vs.drop_last()) + length_prefixed(encode_utf8(vs.last().0)) + length_prefixed(
            encode_utf8(vs.last().1),
        )
    }
}

/// The encoding of one field: its name, the number of values, the values.
pub open spec fn field_bytes(f: (Seq<char>, ValuesView)) -> Seq<u8> {
    length_prefixed(encode_utf8(f.0)) + leb128(f.1.len()) + values_bytes(f.1)
}

/// The encoding of all fields, one after the other.
pub open spec fn fields_bytes(p: ProducersView) -> Seq<u8>
    decreases p.len(),
{
    if p.len() == 0 {
        Seq::empty()
    } else {
        fields_bytes(p.drop_last()) + field_bytes(p.last())
    }
}

/// The payload of the `producers` custom section: the number of fields, then the fields.
pub open spec fn producers_payload(p: ProducersView) -> Seq<u8> {
    leb128(p.len()) + fields_bytes(p)
}

/// Every count and string of `p` fits in the lengths that the binary format records.
pub open spec fn producers_encodable(p: ProducersView) -> bool {
    &&& p.len() <= MAX_LEN
    &&& forall|i: int|
        0 <= i < p.len() ==> {
            &&& encode_utf8(#[trigger] p[i].0).len() <= MAX_LEN
            &&& p[i].1.len() <= MAX_LEN
            &&& forall|j: int|
                0 <= j < p[i].1.len() ==> {
                    &&& encode_utf8(#[trigger] p[i].1[j].0).len() <= MAX_LEN
                    &&& encode_utf8(p[i].1[j].1).len() <= MAX_LEN
                }
        }
}

/// The complete `producers` custom section for `p`, where it can be written.
pub open spec fn producers_section(p: ProducersView) -> Option<Seq<u8>> {
    if producers_encodable(p) && custom_section_fits("producers"@, producers_payload(p)) {
        Some(custom_section_bytes("producers"@, producers_payload(p)))
    } else {
        None
    }
}

/// The decoded contents of a producers section payload, with the offset of
/// the payload in its binary; `None` where the payload is malformed.
pub uninterp spec fn decoded_producers(data: Seq<u8>, offset: u64) -> Option<ProducersView>;

/// One field of a producers section: its name and its name/version pairs.
#[derive(Debug)]
pub struct ProducersField {
    pub name: String,
    pub values: Vec<(String, String)>,
}

impl ProducersField {
    pub open spec fn view(&self) -> (Seq<char>, ValuesView) {
        (self.name@, self.values@.map_values(|nv: (String, String)| (nv.0@, nv.1@)))
    }
}

/// The contents of a producers section.
#[derive(Debug)]
pub struct Producers {
    fields: Vec<ProducersField>,
}

impl View for Producers {
    type V = ProducersView;

    closed spec fn view(&self) -> ProducersView {
        self.fields@.map_values(|f: ProducersField| f.view())
    }
}

pub proof fn lemma_key_index<V>(s: Seq<(Seq<char>, V)>, i: int)
    requires
        keys_distinct(s),
        0 <= i < s.len(),
    ensures
        has_key(s, s[i].0),
        key_index(s, s[i].0) == i,
{
    assert(s[i].0 == s[i].0);
    let j = key_index(s, s[i].0);
    if j != i {
        if j < i {
            assert(s[j].0 != s[i].0);
        } else {
            assert(s[i].0 != s[j].0);
        }
    }
}

pub proof fn lemma_insert_entry_distinct<V>(s: Seq<(Seq<char>, V)>, k: Seq<char>, v: V)
    requires
        keys_distinct(s),
    ensures
        keys_distinct(insert_entry(s, k, v)),
        has_key(insert_entry(s, k, v), k),
        insert_entry(s, k, v)[key_index(insert_entry(s, k, v), k)] == (k, v),
        forall|k2: Seq<char>| k2 != k ==> (has_key(insert_entry(s, k, v), k2) <==> has_key(s, k2)),
        forall|k2: Seq<char>|
            k2 != k && has_key(s, k2) ==> insert_entry(s, k, v)[key_index(insert_entry(s, k, v), k2)]
                == s[key_index(s, k2)],
{
    let t = insert_entry(s, k, v);
    if has_key(s, k) {
        let i = key_index(s, k);
        assert forall|a: int, b: int| 0 <= a < b < t.len() implies #[trigger] t[a].0 != #[trigger] t[b].0 by {
            if a != i && b != i {
                assert(s[a].0 != s[b].0);
            } else if a == i {
                assert(s[a].0 != s[b].0);
            } else {
                assert(s[a].0 != s[b].0);
            }
        }
        assert(t[i].0 == k);
        lemma_key_index(t, i);
        assert forall|k2: Seq<char>| k2 != k implies (has_key(t, k2) <==> has_key(s, k2)) by {
            if has_key(s, k2) {
                let j = key_index(s, k2);
                assert(t[j].0 == k2);
            }
            if has_key(t, k2) {
                let j = key_index(t, k2);
                assert(s[j].0 == k2);
            }
        }
        assert forall|k2: Seq<char>| k2 != k && has_key(s, k2) implies t[key_index(t, k2)] == s[key_index(
            s,
            k2,
        )] by {
            let j = key_index(s, k2);
            assert(t[j].0 == k2);
            lemma_key_index(t, j);
        }
    } else {
        assert forall|a: int, b: int| 0 <= a < b < t.len() implies #[trigger] t[a].0 != #[trigger] t[b].0 by {
            if b == s.len() {
                if s[a].0 == k {
                    assert(has_key(s, k));
                }
            } else {
                assert(s[a].0 != s[b].0);
            }
        }
        lemma_key_index(t, s.len() as int);
        assert forall|k2: Seq<char>| k2 != k implies (has_key(t, k2) <==> has_key(s, k2)) by {
            if has_key(s, k2) {
                let j = key_index(s, k2);
                assert(t[j].0 == k2);
            }
            if has_key(t, k2) {
                let j = key_index(t, k2);
                assert(s[j].0 == k2);
            }
        }
        assert forall|k2: Seq<char>| k2 != k && has_key(s, k2) implies t[key_index(t, k2)] == s[key_index(
            s,
            k2,
        )] by {
            let j = key_index(s, k2);
            assert(t[j].0 == k2);
            lemma_key_index(s, j);
            lemma_key_index(t, j);
        }
    }
}

/// The name/version pairs of `v` as text.
pub open spec fn values_view(v: Seq<(String, String)>) -> ValuesView {
    v.map_values(|nv: (String, String)| (nv.0@, nv.1@))
}

/// The position of the value called `name`, if any.
fn find_value(values: &Vec<(String, String)>, name: &String) -> (r: Option<usize>)
    requires
        keys_distinct(values_view(values@)),
    ensures
        r is None ==> !has_key(values_view(values@), name@),
        r matches Some(i) ==> i < values@.len() && key_index(values_view(values@), name@) == i
            && has_key(values_view(values@), name@),
{
    let mut i: usize = 0;
    while i < values.len()
        invariant
            i <= values@.len(),
            keys_distinct(values_view(values@)),
            forall|j: int| 0 <= j < i ==> values_view(values@)[j].0 != name@,
        decreases values@.len() - i,
    {
        if values[i].0 == *name {
            proof {
                lemma_key_index(values_view(values@), i as int);
            }
            return Some(i);
        }
        i = i + 1;
    }
    proof {
        if has_key(values_view(values@), name@) {
            let j = key_index(values_view(values@), name@);
            assert(values_view(values@)[j].0 == name@);
        }
    }
    None
}

/// Binds `name` to `version` among `values`, in place where it is already there.
fn insert_value(values: &mut Vec<(String, String)>, name: String, version: String)
    requires
        keys_distinct(values_view(old(values)@)),
    ensures
        values_view(final(values)@) == insert_entry(values_view(old(values)@), name@, version@),
        keys_distinct(values_view(final(values)@)),
{
    proof {
        lemma_insert_entry_distinct(values_view(values@), name@, version@);
    }
    match find_value(values, &name) {
        Some(i) => {
            values.set(i, (name, version));
            assert(values_view(values@) =~= insert_entry(values_view(old(values)@), name@, version@));
        },
        None => {
            values.push((name, version));
            assert(values_view(values@) =~= insert_entry(values_view(old(values)@), name@, version@));
        },
    }
}

/// The position of the field called `name`, if any.
fn find_field(fields: &Vec<ProducersField>, name: &String) -> (r: Option<usize>)
    requires
        keys_distinct(fields@.map_values(|f: ProducersField| f.view())),
    ensures
        r is None ==> !has_key(fields@.map_values(|f: ProducersField| f.view()), name@),
        r matches Some(i) ==> i < fields@.len() && key_index(
            fields@.map_values(|f: ProducersField| f.view()),
            name@,
        ) == i && has_key(fields@.map_values(|f: ProducersField| f.view()), name@),
{
    let ghost v = fields@.map_values(|f: ProducersField| f.view());
    let mut i: usize = 0;
    while i < fields.len()
        invariant
            i <= fields@.len(),
            v == fields@.map_values(|f: ProducersField| f.view()),
            keys_distinct(v),
            forall|j: int| 0 <= j < i ==> v[j].0 != name@,
        decreases fields@.len() - i,
    {
        if fields[i].name == *name {
            proof {
                lemma_key_index(v, i as int);
            }
            return Some(i);
        }
        i = i + 1;
    }
    proof {
        if has_key(v, name@) {
            let j = key_index(v, name@);
            assert(v[j].0 == name@);
        }
    }
    None
}

impl Producers {
    #[verifier::type_invariant]
    spec fn inv(self) -> bool {
        producers_wf(self@)
    }

    /// A producers section with no fields.
    pub fn empty() -> (p: Self)
        ensures
            p@ == Seq::<(Seq<char>, ValuesView)>::empty(),
    {
        let p = Producers { fields: Vec::new() };
        assert(p@ =~= Seq::<(Seq<char>, ValuesView)>::empty());
        p
    }

    /// Whether the section has no fields.
    pub fn is_empty(&self) -> (r: bool)
        ensures
            r == (self@.len() == 0),
    {
        self.fields.len() == 0
    }

    /// Field names are distinct, and value names within each field.
    pub fn well_formed(&self) -> (r: bool)
        ensures
            r,
            producers_wf(self@),
    {
        proof {
            use_type_invariant(self);
        }
        true
    }

    /// Records `name` at `version` in field `field`: a new field goes last,
    /// a new name goes last in its field, a known name gets the new version in place.
    pub fn add(&mut self, field: &str, name: &str, version: &str)
        ensures
            final(self)@ == add_spec(old(self)@, field@, name@, version@),
            producers_wf(final(self)@),
    {
        proof {
            use_type_invariant(&*self);
        }
        let field = field.to_owned();
        let name = name.to_owned();
        let version = version.to_owned();
        let ghost p = self@;
        let mut fields: Vec<ProducersField> = Vec::new();
        std::mem::swap(&mut fields, &mut self.fields);
        assert(fields@.map_values(|f: ProducersField| f.view()) == p);
        proof {
            lemma_insert_entry_distinct(p, field@, insert_entry(field_values(p, field@), name@, version@));
        }
        match find_field(&fields, &field) {
            Some(i) => {
                let ghost vs = fields@[i as int].view().1;
                assert(vs == p[i as int].1);
                let f = &mut fields[i];
                insert_value(&mut f.values, name, version);
                assert(fields@.map_values(|f: ProducersField| f.view()) =~= add_spec(p, field@, name@, version@));
            },
            None => {
                let mut values: Vec<(String, String)> = Vec::new();
                values.push((name, version));
                fields.push(ProducersField { name: field, values });
                assert(values_view(values@) =~= insert_entry(Seq::empty(), name@, version@));
                assert(fields@.map_values(|f: ProducersField| f.view()) =~= add_spec(p, field@, name@, version@));
            },
        }
        proof {
            let q = add_spec(p, field@, name@, version@);
            assert forall|i: int| 0 <= i < q.len() implies keys_distinct(#[trigger] q[i].1) by {
                if q[i].0 != field@ {
                    lemma_key_index(q, i);
                    lemma_key_index(p, key_index(p, q[i].0));
                }
            }
        }
        self.fields = fields;
    }

    /// Takes in every entry of `other`, field by field, value by value; the
    /// versions of `other` win.
    pub fn merge(&mut self, other: &Self)
        ensures
            final(self)@ == merge_spec(old(self)@, other@),
            producers_wf(final(self)@),
    {
        proof {
            use_type_invariant(&*self);
        }
        let ghost p0 = self@;
        let mut i: usize = 0;
        while i < other.fields.len()
            invariant
                i <= other@.len(),
                self@ == add_all(p0, triples(other@.take(i as int))),
                producers_wf(self@),
            decreases other@.len() - i,
        {
            let f = &other.fields[i];
            let ghost done = triples(other@.take(i as int));
            let ghost ft = field_triples(other@[i as int]);
            let mut j: usize = 0;
            while j < f.values.len()
                invariant
                    j <= f.values@.len(),
                    i < other@.len(),
                    f.view() == other@[i as int],
                    ft == field_triples(other@[i as int]),
                    ft.len() == f.values@.len(),
                    self@ == add_all(p0, done + ft.take(j as int)),
                    producers_wf(self@),
                decreases f.values@.len() - j,
            {
                self.add(f.name.as_str(), f.values[j].0.as_str(), f.values[j].1.as_str());
                proof {
                    let nxt = done + ft.take(j + 1);
                    assert(nxt.drop_last() =~= done + ft.take(j as int));
                    assert(nxt.last() == ft[j as int]);
                    assert(ft[j as int] == (f.name@, f.values@[j as int].0@, f.values@[j as int].1@));
                }
                j = j + 1;
            }
            assert(other@.take(i + 1).drop_last() =~= other@.take(i as int));
            assert(done + ft.take(j as int) =~= triples(other@.take(i + 1)));
            i = i + 1;
        }
        assert(other@.take(i as int) =~= other@);
    }
}

/// Whether a name and version fit the lengths of the binary format.
pub open spec fn value_encodable(nv: (Seq<char>, Seq<char>)) -> bool {
    &&& encode_utf8(nv.0).len() <= MAX_LEN
    &&& encode_utf8(nv.1).len() <= MAX_LEN
}

/// Whether one field's strings and counts fit the lengths of the binary format.
pub open spec fn field_encodable(f: (Seq<char>, ValuesView)) -> bool {
    &&& encode_utf8(f.0).len() <= MAX_LEN
    &&& f.1.len() <= MAX_LEN
    &&& forall|j: int| 0 <= j < f.1.len() ==> value_encodable(#[trigger] f.1[j])
}

/// Appends the encoding of one field to `data`, where it can be encoded.
fn encode_field(f: &ProducersField, data: &mut Vec<u8>) -> (ok: bool)
    ensures
        ok == field_encodable(f.view()),
        ok ==> final(data)@ == old(data)@ + field_bytes(f.view()),
{
    let name = f.name.as_str().as_bytes();
    if (name.len() as u64) > MAX_LEN || (f.values.len() as u64) > MAX_LEN {
        return false;
    }
    encode_byte_vec(name, data);
    encode_u32(f.values.len() as u32, data);
    let ghost start = data@;
    let ghost vs = f.view().1;
    let mut j: usize = 0;
    while j < f.values.len()
        invariant
            j <= f.values@.len(),
            vs == f.view().1,
            vs.len() == f.values@.len(),
            data@ == start + values_bytes(vs.take(j as int)),
            forall|k: int| 0 <= k < j ==> value_encodable(#[trigger] vs[k]),
        decreases f.values@.len() - j,
    {
        let n = f.values[j].0.as_str().as_bytes();
        let v = f.values[j].1.as_str().as_bytes();
        proof {
            assert(vs[j as int] == (f.values@[j as int].0@, f.values@[j as int].1@));
            assert(n@ == encode_utf8(vs[j as int].0));
            assert(v@ == encode_utf8(vs[j as int].1));
        }
        if (n.len() as u64) > MAX_LEN || (v.len() as u64) > MAX_LEN {
            proof {
                assert(!value_encodable(vs[j as int]));
            }
            return false;
        }
        encode_byte_vec(n, data);
        encode_byte_vec(v, data);
        proof {
            assert(value_encodable(vs[j as int]));
            assert(vs.take(j + 1).drop_last() =~= vs.take(j as int));
            assert(vs[j as int] == (f.values@[j as int].0@, f.values@[j as int].1@));
        }
        j = j + 1;
    }
    assert(vs.take(j as int) =~= vs);
    true
}

impl Producers {
    /// Appends the `producers` custom section for these contents to `out`,
    /// where every count and string fits the binary format; otherwise leaves
    /// `out` as it was.
    pub fn append_section(&self, out: &mut Vec<u8>) -> (ok: bool)
        ensures
            ok == producers_section(self@) is Some,
            ok ==> final(out)@ == old(out)@ + producers_section(self@).unwrap(),
            !ok ==> final(out)@ == old(out)@,
    {
        let ghost p = self@;
        if (self.fields.len() as u64) > MAX_LEN {
            return false;
        }
        let mut data: Vec<u8> = Vec::new();
        encode_u32(self.fields.len() as u32, &mut data);
        let mut i: usize = 0;
        while i < self.fields.len()
            invariant
                i <= self.fields@.len(),
                p == self@,
                p.len() == self.fields@.len(),
                p.len() <= MAX_LEN,
                data@ == leb128(p.len()) + fields_bytes(p.take(i as int)),
                forall|k: int| 0 <= k < i ==> field_encodable(#[trigger] p[k]),
            decreases self.fields@.len() - i,
        {
            if !encode_field(&self.fields[i], &mut data) {
                proof {
                    assert(!field_encodable(p[i as int]));
                }
                return false;
            }
            proof {
                assert(p.take(i + 1).drop_last() =~= p.take(i as int));
            }
            i = i + 1;
        }
        proof {
            assert(p.take(i as int) =~= p);
            assert forall|k: int| 0 <= k < p.len() implies {
                &&& encode_utf8(#[trigger] p[k].0).len() <= MAX_LEN
                &&& p[k].1.len() <= MAX_LEN
                &&& forall|j: int|
                    0 <= j < p[k].1.len() ==> {
                        &&& encode_utf8(#[trigger] p[k].1[j].0).len() <= MAX_LEN
                        &&& encode_utf8(p[k].1[j].1).len() <= MAX_LEN
                    }
            } by {
                assert(field_encodable(p[k]));
                assert forall|j: int| 0 <= j < p[k].1.len() implies {
                    &&& encode_utf8(#[trigger] p[k].1[j].0).len() <= MAX_LEN
                    &&& encode_utf8(p[k].1[j].1).len() <= MAX_LEN
                } by {
                    assert(value_encodable(p[k].1[j]));
                }
            }
        }
        let name = "producers";
        if !custom_fits(name.as_bytes().len(), data.len()) {
            return false;
        }
        append_custom_section(name, data.as_slice(), out);
        true
    }
}

#[verifier::external_type_specification]
#[verifier::external_body]
pub struct ExAnyhowError(anyhow::Error);

/// Decodes the payload of a producers section found at `offset` in a binary.
/// Calls `wasm_metadata::Producers::from_bytes`, which reads the section with
/// `wasmparser::ProducersSectionReader` into index maps, and hands its
/// entries out in order. What it decodes is named, not stated; that field
/// names, and value names within a field, come out distinct is the index
/// maps' property. The error is not stated.
#[verifier::external_body]
pub fn decode_producers(data: &[u8], offset: u64) -> (r: Result<Producers, anyhow::Error>)
    ensures
        r is Ok <==> decoded_producers(data@, offset) is Some,
        r matches Ok(p) ==> p@ == decoded_producers(data@, offset).unwrap() && producers_wf(p@),
{
    let p = wasm_metadata::Producers::from_bytes(data, offset)?;
    let fields = p.iter().map(|(name, f)| ProducersField {
        name: name.clone(),
        values: f.iter().map(|(n, v)| (n.clone(), v.clone())).collect(),
    });
    Ok(Producers { fields: fields.collect() })
}

} // verus!

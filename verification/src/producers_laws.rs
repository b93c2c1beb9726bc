//! Laws of the producers section: what adding and merging record.
use vstd::prelude::*;
use crate::producers::{
    ValuesView, ProducersView, keys_distinct, has_key, key_index, insert_entry, field_values, lookup,
    producers_wf, add_spec, field_triples, triples, add_all, merge_spec, lemma_key_index,
    lemma_insert_entry_distinct,
};

verus! {

/// The version that the last entry of `ts` for (`field`, `name`) gives, if any.
pub open spec fn last_version(ts: Seq<(Seq<char>, Seq<char>, Seq<char>)>, field: Seq<char>, name: Seq<char>) -> Option<
    Seq<char>,
>
    decreases ts.len(),
{
    if ts.len() == 0 {
        None
    } else if ts.last().0 == field && ts.last().1 == name {
        Some(ts.last().2)
    } else {
        last_version(ts.drop_last(), field, name)
    }
}

proof fn lemma_field_values_distinct(p: ProducersView, f: Seq<char>)
    requires
        producers_wf(p),
    ensures
        keys_distinct(field_values(p, f)),
{
    if has_key(p, f) {
        let i = key_index(p, f);
        assert(keys_distinct(p[i].1));
    }
}

/// After adding `version` for `name` in `field`, that is the version
/// recorded there; every other entry reads as before; the contents stay
/// well formed.
pub proof fn law_add_records(p: ProducersView, field: Seq<char>, name: Seq<char>, version: Seq<char>)
    requires
        producers_wf(p),
    ensures
        producers_wf(add_spec(p, field, name, version)),
        lookup(add_spec(p, field, name, version), field, name) == Some(version),
        forall|f: Seq<char>, n: Seq<char>|
            !(f == field && n == name) ==> #[trigger] lookup(add_spec(p, field, name, version), f, n)
                == lookup(p, f, n),
{
    let vs = field_values(p, field);
    lemma_field_values_distinct(p, field);
    let x = insert_entry(vs, name, version);
    lemma_insert_entry_distinct(vs, name, version);
    lemma_insert_entry_distinct(p, field, x);
    let q = add_spec(p, field, name, version);
    assert(field_values(q, field) == x);
    assert forall|i: int| 0 <= i < q.len() implies keys_distinct(#[trigger] q[i].1) by {
        if q[i].0 != field {
            lemma_key_index(q, i);
            lemma_key_index(p, key_index(p, q[i].0));
        } else {
            lemma_key_index(q, i);
        }
    }
    assert forall|f: Seq<char>, n: Seq<char>|
        !(f == field && n == name) implies #[trigger] lookup(q, f, n) == lookup(p, f, n) by {
        if f != field {
            if has_key(p, f) {
                assert(field_values(q, f) == field_values(p, f));
            } else {
                assert(!has_key(q, f));
            }
        } else {
            assert(field_values(q, f) == x);
        }
    }
}

/// Adding a run of entries: each (field, name) reads as its last entry in
/// the run gives it, or as before where the run has none.
pub proof fn law_add_all(p: ProducersView, ts: Seq<(Seq<char>, Seq<char>, Seq<char>)>)
    requires
        producers_wf(p),
    ensures
        producers_wf(add_all(p, ts)),
        forall|f: Seq<char>, n: Seq<char>|
            #[trigger] lookup(add_all(p, ts), f, n) == (match last_version(ts, f, n) {
                Some(v) => Some(v),
                None => lookup(p, f, n),
            }),
    decreases ts.len(),
{
    if ts.len() > 0 {
        law_add_all(p, ts.drop_last());
        let q = add_all(p, ts.drop_last());
        law_add_records(q, ts.last().0, ts.last().1, ts.last().2);
        assert forall|f: Seq<char>, n: Seq<char>|
            #[trigger] lookup(add_all(p, ts), f, n) == (match last_version(ts, f, n) {
                Some(v) => Some(v),
                None => lookup(p, f, n),
            }) by {
            assert(lookup(q, f, n) == (match last_version(ts.drop_last(), f, n) {
                Some(v) => Some(v),
                None => lookup(p, f, n),
            }));
        }
    }
}

proof fn lemma_last_version_concat(
    a: Seq<(Seq<char>, Seq<char>, Seq<char>)>,
    b: Seq<(Seq<char>, Seq<char>, Seq<char>)>,
    f: Seq<char>,
    n: Seq<char>,
)
    ensures
        last_version(a + b, f, n) == (match last_version(b, f, n) {
            Some(v) => Some(v),
            None => last_version(a, f, n),
        }),
    decreases b.len(),
{
    if b.len() == 0 {
        assert(a + b =~= a);
    } else {
        assert((a + b).drop_last() =~= a + b.drop_last());
        lemma_last_version_concat(a, b.drop_last(), f, n);
    }
}

proof fn lemma_last_version_field(fld: (Seq<char>, ValuesView), f: Seq<char>, n: Seq<char>)
    requires
        keys_distinct(fld.1),
    ensures
        last_version(field_triples(fld), f, n) == (if fld.0 == f && has_key(fld.1, n) {
            Some(fld.1[key_index(fld.1, n)].1)
        } else {
            None
        }),
    decreases fld.1.len(),
{
    let vs = fld.1;
    if vs.len() > 0 {
        let shorter = (fld.0, vs.drop_last());
        assert(field_triples(fld).drop_last() =~= field_triples(shorter));
        assert(keys_distinct(vs.drop_last()));
        lemma_last_version_field(shorter, f, n);
        let last = vs.len() - 1;
        if fld.0 == f && vs[last].0 == n {
            lemma_key_index(vs, last);
        } else if fld.0 == f {
            if has_key(vs, n) {
                let j = key_index(vs, n);
                assert(j != last);
                lemma_key_index(vs.drop_last(), j);
                assert(vs.drop_last()[j].0 == n);
            }
            if has_key(vs.drop_last(), n) {
                let j = key_index(vs.drop_last(), n);
                assert(vs[j].0 == n);
                lemma_key_index(vs, j);
            }
        }
    }
}

/// The entries of well-formed contents, read back in order, give the
/// contents' own versions.
proof fn lemma_last_version_triples(o: ProducersView, f: Seq<char>, n: Seq<char>)
    requires
        producers_wf(o),
    ensures
        last_version(triples(o), f, n) == lookup(o, f, n),
    decreases o.len(),
{
    if o.len() > 0 {
        let o2 = o.drop_last();
        let last = o.len() - 1;
        assert(producers_wf(o2)) by {
            assert forall|i: int| 0 <= i < o2.len() implies keys_distinct(#[trigger] o2[i].1) by {
                assert(keys_distinct(o[i].1));
            }
        }
        lemma_last_version_triples(o2, f, n);
        lemma_last_version_concat(triples(o2), field_triples(o.last()), f, n);
        assert(keys_distinct(o[last].1));
        lemma_last_version_field(o.last(), f, n);
        if o[last].0 == f {
            lemma_key_index(o, last);
            if has_key(o2, f) {
                let j = key_index(o2, f);
                assert(o[j].0 == f);
            }
        } else {
            if has_key(o, f) {
                let j = key_index(o, f);
                assert(j != last);
                assert(o2[j].0 == f);
                lemma_key_index(o2, j);
                lemma_key_index(o, j);
            }
            if has_key(o2, f) {
                let j = key_index(o2, f);
                assert(o[j].0 == f);
                lemma_key_index(o, j);
                lemma_key_index(o2, j);
            }
        }
    }
}

/// Merging `other` into `p`: every (field, name) of `other` reads as
/// `other` has it, whatever `p` had; the rest reads as in `p`.
pub proof fn law_merge_precedence(p: ProducersView, other: ProducersView)
    requires
        producers_wf(p),
        producers_wf(other),
    ensures
        producers_wf(merge_spec(p, other)),
        forall|f: Seq<char>, n: Seq<char>|
            #[trigger] lookup(merge_spec(p, other), f, n) == (match lookup(other, f, n) {
                Some(v) => Some(v),
                None => lookup(p, f, n),
            }),
{
    law_add_all(p, triples(other));
    assert forall|f: Seq<char>, n: Seq<char>|
        #[trigger] lookup(merge_spec(p, other), f, n) == (match lookup(other, f, n) {
            Some(v) => Some(v),
            None => lookup(p, f, n),
        }) by {
        lemma_last_version_triples(other, f, n);
    }
}


proof fn lemma_add_all_concat(
    p: ProducersView,
    a: Seq<(Seq<char>, Seq<char>, Seq<char>)>,
    b: Seq<(Seq<char>, Seq<char>, Seq<char>)>,
)
    ensures
        add_all(p, a + b) == add_all(add_all(p, a), b),
    decreases b.len(),
{
    if b.len() == 0 {
        assert(a + b =~= a);
    } else {
        assert((a + b).drop_last() =~= a + b.drop_last());
        lemma_add_all_concat(p, a, b.drop_last());
    }
}

/// Adding the entries of a new field, whose names are distinct, puts the
/// field at the end as it is.
proof fn lemma_add_new_field(p: ProducersView, fld: (Seq<char>, ValuesView))
    requires
        keys_distinct(p),
        !has_key(p, fld.0),
        keys_distinct(fld.1),
        fld.1.len() > 0,
    ensures
        add_all(p, field_triples(fld)) == p.push(fld),
    decreases fld.1.len(),
{
    let vs = fld.1;
    let shorter = (fld.0, vs.drop_last());
    assert(field_triples(fld).drop_last() =~= field_triples(shorter));
    let last = vs.len() - 1;
    let ft = field_triples(fld);
    assert(ft.last() == (fld.0, vs[last].0, vs[last].1));
    if vs.len() == 1 {
        assert(field_triples(shorter) =~= Seq::<(Seq<char>, Seq<char>, Seq<char>)>::empty());
        assert(field_values(p, fld.0) == Seq::<(Seq<char>, Seq<char>)>::empty());
        assert(insert_entry(Seq::<(Seq<char>, Seq<char>)>::empty(), vs[0].0, vs[0].1) =~= vs);
        assert(add_all(p, ft.drop_last()) == p);
        assert(add_all(p, ft) == add_spec(p, fld.0, vs[0].0, vs[0].1));
    } else {
        assert(keys_distinct(vs.drop_last()));
        lemma_add_new_field(p, shorter);
        let q = p.push(shorter);
        assert forall|a: int, b: int| 0 <= a < b < q.len() implies #[trigger] q[a].0 != #[trigger] q[b].0 by {
            if b == p.len() {
                if p[a].0 == fld.0 {
                    assert(has_key(p, fld.0));
                }
            } else {
                assert(p[a].0 != p[b].0);
            }
        }
        lemma_key_index(q, p.len() as int);
        assert(add_all(p, ft) == add_spec(q, fld.0, vs[last].0, vs[last].1));
        assert(field_values(q, fld.0) == vs.drop_last());
        if has_key(vs.drop_last(), vs[last].0) {
            let j = key_index(vs.drop_last(), vs[last].0);
            assert(vs[j].0 == vs[last].0);
        }
        assert(insert_entry(vs.drop_last(), vs[last].0, vs[last].1) =~= vs);
        assert(q.update(p.len() as int, (fld.0, vs)) =~= p.push(fld));
    }
}

/// Merging contents whose fields all hold values into empty contents
/// gives those contents back: same fields, same order.
pub proof fn law_merge_into_empty(other: ProducersView)
    requires
        producers_wf(other),
        forall|i: int| 0 <= i < other.len() ==> (#[trigger] other[i]).1.len() > 0,
    ensures
        merge_spec(Seq::empty(), other) == other,
    decreases other.len(),
{
    if other.len() > 0 {
        let o2 = other.drop_last();
        let last = other.len() - 1;
        assert(producers_wf(o2)) by {
            assert forall|i: int| 0 <= i < o2.len() implies keys_distinct(#[trigger] o2[i].1) by {
                assert(keys_distinct(other[i].1));
            }
        }
        assert forall|i: int| 0 <= i < o2.len() implies (#[trigger] o2[i]).1.len() > 0 by {
            assert(other[i].1.len() > 0);
        }
        law_merge_into_empty(o2);
        assert(merge_spec(Seq::empty(), other) == add_all(Seq::empty(), triples(o2) + field_triples(other.last())));
        lemma_add_all_concat(Seq::empty(), triples(o2), field_triples(other.last()));
        if has_key(o2, other[last].0) {
            let j = key_index(o2, other[last].0);
            assert(other[j].0 == other[last].0);
        }
        assert(keys_distinct(other[last].1));
        lemma_add_new_field(o2, other.last());
        assert(o2.push(other.last()) =~= other);
    }
}


/// Every entry of well-formed contents reads back as recorded.
proof fn lemma_triples_recorded(o: ProducersView)
    requires
        producers_wf(o),
    ensures
        forall|i: int|
            0 <= i < triples(o).len() ==> has_key(o, (#[trigger] triples(o)[i]).0) && lookup(
                o,
                triples(o)[i].0,
                triples(o)[i].1,
            ) == Some(triples(o)[i].2),
    decreases o.len(),
{
    if o.len() > 0 {
        let o2 = o.drop_last();
        let last = o.len() - 1;
        assert(producers_wf(o2)) by {
            assert forall|i: int| 0 <= i < o2.len() implies keys_distinct(#[trigger] o2[i].1) by {
                assert(keys_distinct(o[i].1));
            }
        }
        lemma_triples_recorded(o2);
        let a = triples(o2);
        let b = field_triples(o.last());
        assert(triples(o) == a + b);
        lemma_key_index(o, last);
        assert(keys_distinct(o[last].1));
        assert forall|i: int|
            0 <= i < triples(o).len() implies has_key(o, (#[trigger] triples(o)[i]).0) && lookup(
                o,
                triples(o)[i].0,
                triples(o)[i].1,
            ) == Some(triples(o)[i].2) by {
            let t = triples(o)[i];
            if i < a.len() {
                assert(t == a[i]);
                let j = key_index(o2, t.0);
                assert(o[j].0 == t.0);
                lemma_key_index(o2, j);
                lemma_key_index(o, j);
                assert(field_values(o, t.0) == field_values(o2, t.0));
            } else {
                let k = i - a.len();
                let vs = o[last].1;
                assert(t == b[k]);
                assert(t == (o[last].0, vs[k].0, vs[k].1));
                lemma_key_index(vs, k);
            }
        }
    }
}

/// Adding entries that are already recorded changes nothing.
proof fn lemma_add_all_recorded(q: ProducersView, ts: Seq<(Seq<char>, Seq<char>, Seq<char>)>)
    requires
        producers_wf(q),
        forall|i: int| 0 <= i < ts.len() ==> lookup(q, (#[trigger] ts[i]).0, ts[i].1) == Some(ts[i].2),
    ensures
        add_all(q, ts) == q,
    decreases ts.len(),
{
    if ts.len() > 0 {
        let t = ts.last();
        assert(lookup(q, ts[ts.len() - 1].0, ts[ts.len() - 1].1) == Some(ts[ts.len() - 1].2));
        assert forall|i: int| 0 <= i < ts.drop_last().len() implies lookup(
            q,
            (#[trigger] ts.drop_last()[i]).0,
            ts.drop_last()[i].1,
        ) == Some(ts.drop_last()[i].2) by {
            assert(ts.drop_last()[i] == ts[i]);
        }
        lemma_add_all_recorded(q, ts.drop_last());
        let vs = field_values(q, t.0);
        lemma_field_values_distinct(q, t.0);
        let j = key_index(vs, t.1);
        assert(vs[j] == (t.1, t.2));
        assert(vs.update(j, (t.1, t.2)) =~= vs);
        let i = key_index(q, t.0);
        assert(q.update(i, (t.0, vs)) =~= q);
    }
}

/// Merging the same contents a second time changes nothing.
pub proof fn law_merge_idempotent(p: ProducersView, other: ProducersView)
    requires
        producers_wf(p),
        producers_wf(other),
    ensures
        merge_spec(merge_spec(p, other), other) == merge_spec(p, other),
{
    let m = merge_spec(p, other);
    law_merge_precedence(p, other);
    lemma_triples_recorded(other);
    let ts = triples(other);
    assert forall|i: int| 0 <= i < ts.len() implies lookup(m, (#[trigger] ts[i]).0, ts[i].1) == Some(ts[i].2) by {
        assert(lookup(other, ts[i].0, ts[i].1) == Some(ts[i].2));
    }
    lemma_add_all_recorded(m, ts);
}

} // verus!

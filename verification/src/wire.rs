//! The wire value tree and the merge engine.
//!
//! A wire value is the loosely-typed tree handed to the external wallet:
//! strings, numbers, booleans, null, byte sequences, and ordered-key objects.
//! The merge engine combines two objects; a null value in the source deletes
//! the key in the target, which is the only mechanism by which absent optional
//! fields are suppressed.
use vstd::prelude::*;

verus! {

/// A loosely-typed wire value. Objects keep their entries in insertion order;
/// a byte sequence is a leaf of its own, serialized at the boundary as an
/// array of numbers.
pub enum WireValue {
    Null,
    Bool(bool),
    Num(u64),
    Str(String),
    Bytes(Vec<u8>),
    Obj(Vec<(String, WireValue)>),
}

/// The mathematical model of a wire value.
pub enum WireModel {
    Null,
    Bool(bool),
    Num(u64),
    Str(Seq<char>),
    Bytes(Seq<u8>),
    Obj(Seq<(Seq<char>, WireModel)>),
}

/// Model of a wire value.
pub open spec fn wv_view(v: WireValue) -> WireModel
    decreases v,
{
    match v {
        WireValue::Null => WireModel::Null,
        WireValue::Bool(b) => WireModel::Bool(b),
        WireValue::Num(n) => WireModel::Num(n),
        WireValue::Str(s) => WireModel::Str(s@),
        WireValue::Bytes(bs) => WireModel::Bytes(bs@),
        WireValue::Obj(es) => WireModel::Obj(entries_view(es@)),
    }
}

/// Model of an object's entry list.
pub open spec fn entries_view(es: Seq<(String, WireValue)>) -> Seq<(Seq<char>, WireModel)>
    decreases es,
{
    if es.len() == 0 {
        Seq::empty()
    } else {
        entries_view(es.drop_last()).push((es.last().0@, wv_view(es.last().1)))
    }
}

impl View for WireValue {
    type V = WireModel;

    open spec fn view(&self) -> WireModel {
        wv_view(*self)
    }
}

impl WireValue {
    /// Whether this value is the null leaf.
    pub fn is_null(&self) -> (r: bool)
        ensures
            r == (self@ is Null),
    {
        match self {
            WireValue::Null => true,
            _ => false,
        }
    }
}

/// The model of an entry list is its pointwise model.
pub broadcast proof fn lemma_entries_view(es: Seq<(String, WireValue)>)
    ensures
        (#[trigger] entries_view(es)).len() == es.len(),
        forall|i: int| 0 <= i < es.len() ==> entries_view(es)[i] == (es[i].0@, es[i].1@),
    decreases es.len(),
{
    if es.len() > 0 {
        lemma_entries_view(es.drop_last());
        assert forall|i: int| 0 <= i < es.len() implies entries_view(es)[i] == (
            es[i].0@,
            es[i].1@,
        ) by {
            if i < es.len() - 1 {
                assert(es.drop_last()[i] == es[i]);
            }
        }
    }
}

/// Whether an entry list holds the key `k`.
pub open spec fn has_key(es: Seq<(Seq<char>, WireModel)>, k: Seq<char>) -> bool {
    exists|i: int| 0 <= i < es.len() && es[i].0 == k
}

/// The value at the first entry whose key is `k` (null if there is none).
pub open spec fn lookup_val(es: Seq<(Seq<char>, WireModel)>, k: Seq<char>) -> WireModel
    decreases es.len(),
{
    if es.len() == 0 {
        WireModel::Null
    } else if es[0].0 == k {
        es[0].1
    } else {
        lookup_val(es.drop_first(), k)
    }
}

/// The entry list without any entry whose key is `k`.
pub open spec fn remove_key(es: Seq<(Seq<char>, WireModel)>, k: Seq<char>) -> Seq<
    (Seq<char>, WireModel),
>
    decreases es.len(),
{
    if es.len() == 0 {
        Seq::empty()
    } else if es[0].0 == k {
        remove_key(es.drop_first(), k)
    } else {
        seq![es[0]] + remove_key(es.drop_first(), k)
    }
}

/// The entry list with the first entry whose key is `k` replaced by `(k, v)`.
pub open spec fn update_key(es: Seq<(Seq<char>, WireModel)>, k: Seq<char>, v: WireModel) -> Seq<
    (Seq<char>, WireModel),
>
    decreases es.len(),
{
    if es.len() == 0 {
        Seq::empty()
    } else if es[0].0 == k {
        seq![(k, v)] + es.drop_first()
    } else {
        seq![es[0]] + update_key(es.drop_first(), k, v)
    }
}

/// The effect of one source entry on a target entry list: a null value
/// deletes the key; otherwise the value is merged into the existing entry,
/// or the entry is appended when the key is new.
pub open spec fn apply_entry(ae: Seq<(Seq<char>, WireModel)>, e: (Seq<char>, WireModel)) -> Seq<
    (Seq<char>, WireModel),
>
    decreases e,
{
    if e.1 is Null {
        remove_key(ae, e.0)
    } else if has_key(ae, e.0) {
        update_key(ae, e.0, merge_model(lookup_val(ae, e.0), e.1))
    } else {
        ae.push(e)
    }
}

/// The source entries applied to the target entry list, first to last.
pub open spec fn merge_entries(
    ae: Seq<(Seq<char>, WireModel)>,
    be: Seq<(Seq<char>, WireModel)>,
) -> Seq<(Seq<char>, WireModel)>
    decreases be,
{
    if be.len() == 0 {
        ae
    } else {
        merge_entries(apply_entry(ae, be[0]), be.drop_first())
    }
}

/// The merge of two wire values: when both are objects, the source's entries
/// are applied to the target one by one; otherwise the source replaces the
/// target wholesale.
pub open spec fn merge_model(a: WireModel, b: WireModel) -> WireModel
    decreases b,
{
    match (a, b) {
        (WireModel::Obj(ae), WireModel::Obj(be)) => WireModel::Obj(merge_entries(ae, be)),
        _ => b,
    }
}

/// Merges `source` into `target` in place.
pub fn merge(target: &mut WireValue, source: WireValue)
    ensures
        final(target)@ == merge_model(old(target)@, source@),
{
    let mut taken = WireValue::Null;
    core::mem::swap(target, &mut taken);
    let merged = merge_owned(taken, source);
    *target = merged;
}

/// Merges `b` into `a`, returning the combined value.
pub fn merge_owned(a: WireValue, b: WireValue) -> (r: WireValue)
    ensures
        r@ == merge_model(a@, b@),
    decreases b,
{
    match (a, b) {
        (WireValue::Obj(ae), WireValue::Obj(be)) => WireValue::Obj(merge_entries_exec(ae, be)),
        (_, b2) => b2,
    }
}

/// Applies the source entries `be` to the target entries `ae`, first to last.
fn merge_entries_exec(ae: Vec<(String, WireValue)>, be: Vec<(String, WireValue)>) -> (r: Vec<
    (String, WireValue),
>)
    ensures
        entries_view(r@) == merge_entries(entries_view(ae@), entries_view(be@)),
    decreases be@,
{
    broadcast use lemma_entries_view;

    if be.len() == 0 {
        proof {
            assert(entries_view(be@) =~= Seq::<(Seq<char>, WireModel)>::empty());
        }
        return ae;
    }
    let ghost ea0 = entries_view(ae@);
    let ghost eb0 = entries_view(be@);
    let ghost aes0 = ae@;
    let ghost bes0 = be@;
    let mut ae = ae;
    let mut be = be;
    let (k, v) = be.remove(0);
    proof {
        assert(be@ =~= bes0.drop_first());
    }
    let ghost e0 = (k@, v@);
    proof {
        assert(eb0[0] == e0);
        assert(entries_view(be@) =~= eb0.drop_first());
    }
    let source_is_null = v.is_null();
    let ae2: Vec<(String, WireValue)>;
    if source_is_null {
        ae2 = obj_remove_key(ae, &k);
        proof {
            assert(entries_view(ae2@) == apply_entry(ea0, e0));
        }
    } else {
        match obj_find(&ae, &k) {
            Some(i) => {
                let ghost aes1 = ae@;
                let (k0, oldv) = ae.remove(i);
                let merged = merge_owned(oldv, v);
                ae.insert(i, (k0, merged));
                ae2 = ae;
                proof {
                    assert(ae2@ =~= aes1.update(i as int, (k0, merged)));
                    assert(has_key(ea0, e0.0)) by {
                        assert(ea0[i as int].0 == e0.0);
                    }
                    lemma_lookup_at_index(ea0, e0.0, i as int);
                    lemma_update_key_at_index(ea0, e0.0, merge_model(wv_view(oldv), e0.1), i as int);
                    assert(entries_view(ae2@) =~= update_key(
                        ea0,
                        e0.0,
                        merge_model(lookup_val(ea0, e0.0), e0.1),
                    ));
                    assert(entries_view(ae2@) == apply_entry(ea0, e0));
                }
            },
            None => {
                ae.push((k, v));
                ae2 = ae;
                proof {
                    assert(ae2@.drop_last() =~= aes0);
                    assert(entries_view(ae2@) =~= ea0.push(e0));
                    assert(entries_view(ae2@) == apply_entry(ea0, e0));
                }
            },
        }
    }
    let r = merge_entries_exec(ae2, be);
    proof {
        assert(merge_entries(ea0, eb0) == merge_entries(apply_entry(ea0, e0), eb0.drop_first()));
    }
    r
}

/// Removes every entry whose key is `k`.
fn obj_remove_key(es: Vec<(String, WireValue)>, k: &String) -> (r: Vec<(String, WireValue)>)
    ensures
        entries_view(r@) == remove_key(entries_view(es@), k@),
    decreases es@.len(),
{
    broadcast use lemma_entries_view;

    if es.len() == 0 {
        proof {
            assert(entries_view(es@) =~= Seq::<(Seq<char>, WireModel)>::empty());
        }
        return es;
    }
    let ghost ev0 = entries_view(es@);
    let ghost ses0 = es@;
    let mut es = es;
    let (k0, v0) = es.remove(0);
    proof {
        assert(es@ =~= ses0.drop_first());
        assert(entries_view(es@) =~= ev0.drop_first());
        assert(ev0[0] == (k0@, v0@));
    }
    let rest = obj_remove_key(es, k);
    if k0 == *k {
        rest
    } else {
        let mut rest = rest;
        rest.insert(0, (k0, v0));
        proof {
            assert(entries_view(rest@) =~= seq![(k0@, v0@)] + remove_key(ev0.drop_first(), k@));
        }
        rest
    }
}

/// The position of the first entry whose key is `k`, if any.
fn obj_find(es: &Vec<(String, WireValue)>, k: &String) -> (r: Option<usize>)
    ensures
        match r {
            Some(i) => i < es@.len() && es@[i as int].0@ == k@ && (forall|j: int|
                0 <= j < i ==> es@[j].0@ != k@),
            None => !has_key(entries_view(es@), k@),
        },
{
    broadcast use lemma_entries_view;

    let mut i: usize = 0;
    while i < es.len()
        invariant
            i <= es@.len(),
            forall|j: int| 0 <= j < i ==> es@[j].0@ != k@,
        decreases es@.len() - i,
    {
        if es[i].0 == *k {
            return Some(i);
        }
        i = i + 1;
    }
    proof {
        assert forall|j: int| 0 <= j < entries_view(es@).len() implies entries_view(es@)[j].0
            != k@ by {
            assert(entries_view(es@)[j] == (es@[j].0@, es@[j].1@));
        }
    }
    None
}

/// The value looked up by key is the one at the first index holding that key.
proof fn lemma_lookup_at_index(es: Seq<(Seq<char>, WireModel)>, k: Seq<char>, i: int)
    requires
        0 <= i < es.len(),
        es[i].0 == k,
        forall|j: int| 0 <= j < i ==> es[j].0 != k,
    ensures
        lookup_val(es, k) == es[i].1,
    decreases i,
{
    if i > 0 {
        lemma_lookup_at_index(es.drop_first(), k, i - 1);
    }
}

/// Updating by key rewrites the entry at the first index holding that key.
proof fn lemma_update_key_at_index(
    es: Seq<(Seq<char>, WireModel)>,
    k: Seq<char>,
    v: WireModel,
    i: int,
)
    requires
        0 <= i < es.len(),
        es[i].0 == k,
        forall|j: int| 0 <= j < i ==> es[j].0 != k,
    ensures
        update_key(es, k, v) =~= es.update(i, (k, v)),
    decreases i,
{
    if i == 0 {
        assert(update_key(es, k, v) =~= es.update(0, (k, v)));
    } else {
        lemma_update_key_at_index(es.drop_first(), k, v, i - 1);
        assert(update_key(es, k, v) =~= es.update(i, (k, v)));
    }
}

} // verus!

verus! {

/// Whether an entry list's keys are pairwise distinct.
pub open spec fn distinct_keys(es: Seq<(Seq<char>, WireModel)>) -> bool {
    forall|i: int, j: int| 0 <= i < j < es.len() ==> es[i].0 != es[j].0
}

/// A key that no entry holds looks up to null.
pub proof fn lemma_lookup_absent(es: Seq<(Seq<char>, WireModel)>, k: Seq<char>)
    requires
        !has_key(es, k),
    ensures
        lookup_val(es, k) == WireModel::Null,
    decreases es.len(),
{
    if es.len() > 0 {
        assert(es[0].0 != k);
        assert(!has_key(es.drop_first(), k)) by {
            if has_key(es.drop_first(), k) {
                let j = choose|j: int| 0 <= j < es.drop_first().len() && es.drop_first()[j].0 == k;
                assert(es[j + 1].0 == k);
            }
        }
        lemma_lookup_absent(es.drop_first(), k);
    }
}

/// Removing a key that no entry holds changes nothing.
pub proof fn lemma_remove_key_absent(es: Seq<(Seq<char>, WireModel)>, k: Seq<char>)
    requires
        !has_key(es, k),
    ensures
        remove_key(es, k) == es,
    decreases es.len(),
{
    if es.len() > 0 {
        assert(es[0].0 != k);
        assert(!has_key(es.drop_first(), k)) by {
            if has_key(es.drop_first(), k) {
                let j = choose|j: int| 0 <= j < es.drop_first().len() && es.drop_first()[j].0 == k;
                assert(es[j + 1].0 == k);
            }
        }
        lemma_remove_key_absent(es.drop_first(), k);
        assert(seq![es[0]] + es.drop_first() =~= es);
    }
}

/// What a push does to the keys and to one key's value.
pub proof fn lemma_lookup_push(
    es: Seq<(Seq<char>, WireModel)>,
    e: (Seq<char>, WireModel),
    k: Seq<char>,
)
    ensures
        has_key(es.push(e), k) == (has_key(es, k) || e.0 == k),
        lookup_val(es.push(e), k) == (if has_key(es, k) {
            lookup_val(es, k)
        } else if e.0 == k {
            e.1
        } else {
            WireModel::Null
        }),
    decreases es.len(),
{
    assert(has_key(es.push(e), k) == (has_key(es, k) || e.0 == k)) by {
        if has_key(es, k) {
            let i = choose|i: int| 0 <= i < es.len() && es[i].0 == k;
            assert(es.push(e)[i].0 == k);
        }
        if e.0 == k {
            assert(es.push(e)[es.len() as int].0 == k);
        }
        if has_key(es.push(e), k) && !has_key(es, k) {
            let i = choose|i: int| 0 <= i < es.push(e).len() && es.push(e)[i].0 == k;
            if i < es.len() {
                assert(es[i].0 == k);
            }
        }
    }
    if es.len() == 0 {
        assert(es.push(e)[0] == e);
        assert(es.push(e).drop_first() =~= Seq::<(Seq<char>, WireModel)>::empty());
    } else {
        assert(es.push(e)[0] == es[0]);
        assert(es.push(e).drop_first() =~= es.drop_first().push(e));
        lemma_lookup_push(es.drop_first(), e, k);
        if es[0].0 != k {
            assert(has_key(es, k) == has_key(es.drop_first(), k)) by {
                if has_key(es, k) {
                    let i = choose|i: int| 0 <= i < es.len() && es[i].0 == k;
                    assert(es.drop_first()[i - 1].0 == k);
                }
                if has_key(es.drop_first(), k) {
                    let j = choose|j: int|
                        0 <= j < es.drop_first().len() && es.drop_first()[j].0 == k;
                    assert(es[j + 1].0 == k);
                }
            }
        } else {
            assert(has_key(es, k)) by {
                assert(es[0].0 == k);
            }
        }
    }
}

/// What removing one key does to the others.
pub proof fn lemma_remove_key_lookup(
    es: Seq<(Seq<char>, WireModel)>,
    k: Seq<char>,
    k2: Seq<char>,
)
    ensures
        !has_key(remove_key(es, k), k),
        k2 != k ==> has_key(remove_key(es, k), k2) == has_key(es, k2),
        k2 != k ==> lookup_val(remove_key(es, k), k2) == lookup_val(es, k2),
    decreases es.len(),
{
    if es.len() == 0 {
    } else {
        lemma_remove_key_lookup(es.drop_first(), k, k2);
        assert(has_key(es.drop_first(), k2) ==> has_key(es, k2)) by {
            if has_key(es.drop_first(), k2) {
                let j = choose|j: int| 0 <= j < es.drop_first().len() && es.drop_first()[j].0 == k2;
                assert(es[j + 1].0 == k2);
            }
        }
        if es[0].0 == k {
            assert(remove_key(es, k) == remove_key(es.drop_first(), k));
            if k2 != k && has_key(es, k2) && !has_key(es.drop_first(), k2) {
                let i = choose|i: int| 0 <= i < es.len() && es[i].0 == k2;
                assert(i > 0 ==> es.drop_first()[i - 1].0 == k2);
                assert(false);
            }
        } else {
            let r = seq![es[0]] + remove_key(es.drop_first(), k);
            assert(remove_key(es, k) == r);
            assert(r[0] == es[0]);
            assert(r.drop_first() =~= remove_key(es.drop_first(), k));
            assert(!has_key(r, k)) by {
                if has_key(r, k) {
                    let i = choose|i: int| 0 <= i < r.len() && r[i].0 == k;
                    if i > 0 {
                        assert(r.drop_first()[i - 1].0 == k);
                    }
                }
            }
            if k2 != k {
                assert(has_key(r, k2) == has_key(es, k2)) by {
                    if has_key(es, k2) {
                        let i = choose|i: int| 0 <= i < es.len() && es[i].0 == k2;
                        if i == 0 {
                            assert(r[0].0 == k2);
                        } else {
                            assert(es.drop_first()[i - 1].0 == k2);
                            let j = choose|j: int|
                                0 <= j < r.drop_first().len() && r.drop_first()[j].0 == k2;
                            assert(r[j + 1].0 == k2);
                        }
                    }
                    if has_key(r, k2) {
                        let i = choose|i: int| 0 <= i < r.len() && r[i].0 == k2;
                        if i == 0 {
                            assert(es[0].0 == k2);
                        } else {
                            assert(r.drop_first()[i - 1].0 == k2);
                            let j = choose|j: int|
                                0 <= j < es.drop_first().len() && es.drop_first()[j].0 == k2;
                            assert(es[j + 1].0 == k2);
                        }
                    }
                }
            }
        }
    }
}

/// What updating one key's value does to the keys and to lookups.
pub proof fn lemma_update_key_lookup(
    es: Seq<(Seq<char>, WireModel)>,
    k: Seq<char>,
    v: WireModel,
    k2: Seq<char>,
)
    requires
        has_key(es, k),
    ensures
        has_key(update_key(es, k, v), k2) == has_key(es, k2),
        k2 == k ==> lookup_val(update_key(es, k, v), k2) == v,
        k2 != k ==> lookup_val(update_key(es, k, v), k2) == lookup_val(es, k2),
    decreases es.len(),
{
    let r = update_key(es, k, v);
    if es[0].0 == k {
        assert(r == seq![(k, v)] + es.drop_first());
        assert(r[0] == (k, v));
        assert(r.drop_first() =~= es.drop_first());
        assert(r.len() == es.len());
        assert forall|i: int| 0 <= i < es.len() implies r[i].0 == es[i].0 by {
            if i > 0 {
                assert(r[i] == es.drop_first()[i - 1]);
            }
        }
        assert(has_key(r, k2) == has_key(es, k2)) by {
            if has_key(es, k2) {
                let i = choose|i: int| 0 <= i < es.len() && es[i].0 == k2;
                assert(r[i].0 == k2);
            }
            if has_key(r, k2) {
                let i = choose|i: int| 0 <= i < r.len() && r[i].0 == k2;
                assert(es[i].0 == k2);
            }
        }
    } else {
        assert(has_key(es.drop_first(), k)) by {
            let i = choose|i: int| 0 <= i < es.len() && es[i].0 == k;
            assert(es.drop_first()[i - 1].0 == k);
        }
        lemma_update_key_lookup(es.drop_first(), k, v, k2);
        assert(r == seq![es[0]] + update_key(es.drop_first(), k, v));
        assert(r[0] == es[0]);
        assert(r.drop_first() =~= update_key(es.drop_first(), k, v));
        assert(has_key(r, k2) == has_key(es, k2)) by {
            if has_key(es, k2) {
                let i = choose|i: int| 0 <= i < es.len() && es[i].0 == k2;
                if i == 0 {
                    assert(r[0].0 == k2);
                } else {
                    assert(es.drop_first()[i - 1].0 == k2);
                    let j = choose|j: int|
                        0 <= j < update_key(es.drop_first(), k, v).len() && update_key(
                            es.drop_first(),
                            k,
                            v,
                        )[j].0 == k2;
                    assert(r[j + 1].0 == k2);
                }
            }
            if has_key(r, k2) {
                let i = choose|i: int| 0 <= i < r.len() && r[i].0 == k2;
                if i == 0 {
                    assert(es[0].0 == k2);
                } else {
                    assert(r.drop_first()[i - 1].0 == k2);
                    let j = choose|j: int|
                        0 <= j < es.drop_first().len() && es.drop_first()[j].0 == k2;
                    assert(es[j + 1].0 == k2);
                }
            }
        }
    }
}

} // verus!

verus! {

/// How one merge step and the remaining source entries see one key.
proof fn lemma_apply_entry_other_key(
    ae: Seq<(Seq<char>, WireModel)>,
    e: (Seq<char>, WireModel),
    k: Seq<char>,
)
    requires
        e.0 != k,
    ensures
        has_key(apply_entry(ae, e), k) == has_key(ae, k),
        lookup_val(apply_entry(ae, e), k) == lookup_val(ae, k),
{
    if e.1 is Null {
        lemma_remove_key_lookup(ae, e.0, k);
    } else if has_key(ae, e.0) {
        lemma_update_key_lookup(ae, e.0, merge_model(lookup_val(ae, e.0), e.1), k);
    } else {
        lemma_lookup_push(ae, e, k);
        if !has_key(ae, k) {
            lemma_lookup_absent(ae, k);
        }
    }
}

/// What the merge of two objects holds under each key: a key the source does
/// not mention keeps the target's entry; a null source value deletes the key;
/// a non-null source value is merged into the target's entry, or stands
/// alone where the target had none.
pub proof fn lemma_merge_entries_lookup(
    ae: Seq<(Seq<char>, WireModel)>,
    be: Seq<(Seq<char>, WireModel)>,
    k: Seq<char>,
)
    requires
        distinct_keys(be),
    ensures
        !has_key(be, k) ==> has_key(merge_entries(ae, be), k) == has_key(ae, k) && lookup_val(
            merge_entries(ae, be),
            k,
        ) == lookup_val(ae, k),
        has_key(be, k) && lookup_val(be, k) is Null ==> !has_key(merge_entries(ae, be), k),
        has_key(be, k) && !(lookup_val(be, k) is Null) && has_key(ae, k) ==> has_key(
            merge_entries(ae, be),
            k,
        ) && lookup_val(merge_entries(ae, be), k) == merge_model(
            lookup_val(ae, k),
            lookup_val(be, k),
        ),
        has_key(be, k) && !(lookup_val(be, k) is Null) && !has_key(ae, k) ==> has_key(
            merge_entries(ae, be),
            k,
        ) && lookup_val(merge_entries(ae, be), k) == lookup_val(be, k),
    decreases be.len(),
{
    if be.len() == 0 {
    } else {
        let e = be[0];
        let rest = be.drop_first();
        let ae2 = apply_entry(ae, e);
        assert(distinct_keys(rest)) by {
            assert forall|i: int, j: int| 0 <= i < j < rest.len() implies rest[i].0 != rest[j].0 by {
                assert(rest[i] == be[i + 1]);
                assert(rest[j] == be[j + 1]);
            }
        }
        lemma_merge_entries_lookup(ae2, rest, k);
        assert(merge_entries(ae, be) == merge_entries(ae2, rest));
        if e.0 == k {
            assert(lookup_val(be, k) == e.1);
            assert(!has_key(rest, k)) by {
                if has_key(rest, k) {
                    let j = choose|j: int| 0 <= j < rest.len() && rest[j].0 == k;
                    assert(be[j + 1].0 == k);
                    assert(be[0].0 == be[j + 1].0);
                }
            }
            assert(has_key(be, k)) by {
                assert(be[0].0 == k);
            }
            if e.1 is Null {
                lemma_remove_key_lookup(ae, k, k);
            } else if has_key(ae, k) {
                lemma_update_key_lookup(ae, k, merge_model(lookup_val(ae, k), e.1), k);
            } else {
                lemma_lookup_push(ae, e, k);
            }
        } else {
            lemma_apply_entry_other_key(ae, e, k);
            assert(rest =~= be.drop_first());
            assert(lookup_val(be, k) == lookup_val(rest, k));
            assert(has_key(be, k) == has_key(rest, k)) by {
                if has_key(be, k) {
                    let i = choose|i: int| 0 <= i < be.len() && be[i].0 == k;
                    assert(i > 0);
                    assert(rest[i - 1].0 == k);
                }
                if has_key(rest, k) {
                    let j = choose|j: int| 0 <= j < rest.len() && rest[j].0 == k;
                    assert(be[j + 1].0 == k);
                }
            }
        }
    }
}

/// Merging an empty object into an object leaves it unchanged.
pub proof fn lemma_merge_empty_identity(a: WireModel)
    requires
        a is Obj,
    ensures
        merge_model(a, WireModel::Obj(Seq::empty())) == a,
{
    match a {
        WireModel::Obj(ae) => {
            assert(merge_entries(ae, Seq::empty()) == ae);
        },
        _ => {},
    }
}

/// Merging an object holding one null-valued key removes that key from an
/// object: every entry under it disappears, and an object without the key is
/// left unchanged.
pub proof fn lemma_merge_null_removes(a: WireModel, k: Seq<char>)
    requires
        a is Obj,
    ensures
        match (a, merge_model(a, WireModel::Obj(seq![(k, WireModel::Null)]))) {
            (WireModel::Obj(ae), WireModel::Obj(re)) => re == remove_key(ae, k) && (!has_key(
                ae,
                k,
            ) ==> re == ae),
            _ => false,
        },
{
    match a {
        WireModel::Obj(ae) => {
            let be = seq![(k, WireModel::Null)];
            assert(be[0] == (k, WireModel::Null));
            assert(be.drop_first() =~= Seq::<(Seq<char>, WireModel)>::empty());
            assert(apply_entry(ae, be[0]) == remove_key(ae, k));
            assert(merge_entries(ae, be) == merge_entries(remove_key(ae, k), be.drop_first()));
            if !has_key(ae, k) {
                lemma_remove_key_absent(ae, k);
            }
        },
        _ => {},
    }
}

} // verus!

verus! {

/// Whether no entry maps its key to the null leaf.
pub open spec fn no_null_values(es: Seq<(Seq<char>, WireModel)>) -> bool {
    forall|i: int| 0 <= i < es.len() ==> !((#[trigger] es[i]).1 is Null)
}

/// Pushing a non-null value keeps an entry list null-free.
pub proof fn lemma_no_null_push(es: Seq<(Seq<char>, WireModel)>, e: (Seq<char>, WireModel))
    requires
        no_null_values(es),
        !(e.1 is Null),
    ensures
        no_null_values(es.push(e)),
{
    assert forall|i: int| 0 <= i < es.push(e).len() implies !((#[trigger] es.push(e)[i]).1
        is Null) by {
        if i < es.len() {
            assert(es.push(e)[i] == es[i]);
        }
    }
}

/// Removing a key keeps an entry list null-free.
proof fn lemma_remove_key_no_null(es: Seq<(Seq<char>, WireModel)>, k: Seq<char>)
    requires
        no_null_values(es),
    ensures
        no_null_values(remove_key(es, k)),
    decreases es.len(),
{
    if es.len() > 0 {
        assert(no_null_values(es.drop_first())) by {
            assert forall|i: int| 0 <= i < es.drop_first().len() implies !((#[trigger] es.drop_first()[i]).1 is Null) by {
                assert(es.drop_first()[i] == es[i + 1]);
            }
        }
        lemma_remove_key_no_null(es.drop_first(), k);
        if es[0].0 != k {
            let r = seq![es[0]] + remove_key(es.drop_first(), k);
            assert forall|i: int| 0 <= i < r.len() implies !((#[trigger] r[i]).1 is Null) by {
                if i > 0 {
                    assert(r[i] == remove_key(es.drop_first(), k)[i - 1]);
                }
            }
        }
    }
}

/// Updating a key to a non-null value keeps an entry list null-free.
proof fn lemma_update_key_no_null(es: Seq<(Seq<char>, WireModel)>, k: Seq<char>, v: WireModel)
    requires
        no_null_values(es),
        !(v is Null),
    ensures
        no_null_values(update_key(es, k, v)),
    decreases es.len(),
{
    if es.len() > 0 {
        assert(no_null_values(es.drop_first())) by {
            assert forall|i: int| 0 <= i < es.drop_first().len() implies !((#[trigger] es.drop_first()[i]).1 is Null) by {
                assert(es.drop_first()[i] == es[i + 1]);
            }
        }
        lemma_update_key_no_null(es.drop_first(), k, v);
        if es[0].0 == k {
            let r = seq![(k, v)] + es.drop_first();
            assert forall|i: int| 0 <= i < r.len() implies !((#[trigger] r[i]).1 is Null) by {
                if i > 0 {
                    assert(r[i] == es.drop_first()[i - 1]);
                }
            }
        } else {
            let r = seq![es[0]] + update_key(es.drop_first(), k, v);
            assert forall|i: int| 0 <= i < r.len() implies !((#[trigger] r[i]).1 is Null) by {
                if i > 0 {
                    assert(r[i] == update_key(es.drop_first(), k, v)[i - 1]);
                }
            }
        }
    }
}

/// Merging any source entries into a null-free target yields a null-free
/// result: null source values only delete, and a non-null source value
/// merges to a non-null value.
pub proof fn lemma_merge_entries_no_null(
    ae: Seq<(Seq<char>, WireModel)>,
    be: Seq<(Seq<char>, WireModel)>,
)
    requires
        no_null_values(ae),
    ensures
        no_null_values(merge_entries(ae, be)),
    decreases be.len(),
{
    if be.len() > 0 {
        let e = be[0];
        if e.1 is Null {
            lemma_remove_key_no_null(ae, e.0);
        } else if has_key(ae, e.0) {
            assert(!(merge_model(lookup_val(ae, e.0), e.1) is Null));
            lemma_update_key_no_null(ae, e.0, merge_model(lookup_val(ae, e.0), e.1));
        } else {
            lemma_no_null_push(ae, e);
        }
        lemma_merge_entries_no_null(apply_entry(ae, e), be.drop_first());
    }
}

} // verus!

verus! {

impl WireValue {
    /// The value under `k`, when this is an object holding that key.
    pub fn obj_get(&self, k: &str) -> (r: Option<&WireValue>)
        ensures
            match r {
                Some(v) => self@ is Obj && has_key(self@->Obj_0, k@) && v@ == lookup_val(
                    self@->Obj_0,
                    k@,
                ),
                None => !(self@ is Obj) || !has_key(self@->Obj_0, k@),
            },
    {
        broadcast use lemma_entries_view;

        let ks = k.to_owned();
        match self {
            WireValue::Obj(es) => {
                let mut i: usize = 0;
                while i < es.len()
                    invariant
                        i <= es@.len(),
                        ks@ == k@,
                        self@ == WireModel::Obj(entries_view(es@)),
                        forall|j: int| 0 <= j < i ==> es@[j].0@ != k@,
                    decreases es@.len() - i,
                {
                    if es[i].0 == ks {
                        proof {
                            let ev = entries_view(es@);
                            lemma_entries_view(es@);
                            assert(ev[i as int].0 == k@);
                            assert forall|j: int| 0 <= j < i implies ev[j].0 != k@ by {
                                assert(ev[j] == (es@[j].0@, es@[j].1@));
                            }
                            lemma_lookup_at_index(ev, k@, i as int);
                            assert(has_key(ev, k@)) by {
                                assert(ev[i as int].0 == k@);
                            }
                        }
                        return Some(&es[i].1);
                    }
                    i = i + 1;
                }
                proof {
                    let ev = entries_view(es@);
                    assert forall|j: int| 0 <= j < ev.len() implies ev[j].0 != k@ by {
                        assert(ev[j] == (es@[j].0@, es@[j].1@));
                    }
                }
                None
            },
            _ => None,
        }
    }

    /// The number this leaf holds, if it is one.
    pub fn as_num(&self) -> (r: Option<u64>)
        ensures
            match r {
                Some(n) => self@ == WireModel::Num(n),
                None => !(self@ is Num),
            },
    {
        match self {
            WireValue::Num(n) => Some(*n),
            _ => None,
        }
    }

    /// The boolean this leaf holds, if it is one.
    pub fn as_bool(&self) -> (r: Option<bool>)
        ensures
            match r {
                Some(b) => self@ == WireModel::Bool(b),
                None => !(self@ is Bool),
            },
    {
        match self {
            WireValue::Bool(b) => Some(*b),
            _ => None,
        }
    }

    /// The string this leaf holds, if it is one.
    pub fn as_str(&self) -> (r: Option<&String>)
        ensures
            match r {
                Some(s) => self@ == WireModel::Str(s@),
                None => !(self@ is Str),
            },
    {
        match self {
            WireValue::Str(s) => Some(s),
            _ => None,
        }
    }

    /// The byte sequence this leaf holds, if it is one.
    pub fn as_bytes(&self) -> (r: Option<&Vec<u8>>)
        ensures
            match r {
                Some(bs) => self@ == WireModel::Bytes(bs@),
                None => !(self@ is Bytes),
            },
    {
        match self {
            WireValue::Bytes(bs) => Some(bs),
            _ => None,
        }
    }
}

} // verus!

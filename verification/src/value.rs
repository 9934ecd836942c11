//! The generic value tree handed to the template renderer.

use vstd::prelude::*;

verus! {

/// A number in the generic value tree.
///
/// The renderer works with one numeric kind; the tree keeps the exact source
/// form instead (a signed integer, or the raw text of a real number), so the
/// boundary that feeds the renderer can widen it without loss on this side.
#[derive(Debug, PartialEq)]
pub enum Number {
    Int(i64),
    Real(String),
}

/// A node of the generic value tree: the closed set of kinds the renderer
/// accepts. An object is a list of key/value entries with pairwise distinct
/// keys, in a deterministic order.
#[derive(Debug, PartialEq)]
pub enum Value {
    Bool(bool),
    Number(Number),
    Str(String),
    Array(Vec<Value>),
    Object(Vec<(String, Value)>),
}

/// The mathematical model of a `Number`.
pub enum NumberView {
    Int(int),
    Real(Seq<char>),
}

/// The mathematical model of a `Value`.
pub enum ValueView {
    Bool(bool),
    Number(NumberView),
    Str(Seq<char>),
    Array(Seq<ValueView>),
    Object(Seq<(Seq<char>, ValueView)>),
}

pub open spec fn number_view(n: Number) -> NumberView {
    match n {
        Number::Int(i) => NumberView::Int(i as int),
        Number::Real(s) => NumberView::Real(s@),
    }
}

impl View for Number {
    type V = NumberView;

    open spec fn view(&self) -> NumberView {
        number_view(*self)
    }
}

pub open spec fn value_view(v: Value) -> ValueView
    decreases v,
{
    match v {
        Value::Bool(b) => ValueView::Bool(b),
        Value::Number(n) => ValueView::Number(number_view(n)),
        Value::Str(s) => ValueView::Str(s@),
        Value::Array(elems) => ValueView::Array(values_view(elems@)),
        Value::Object(entries) => ValueView::Object(entries_view(entries@)),
    }
}

pub open spec fn values_view(s: Seq<Value>) -> Seq<ValueView>
    decreases s,
{
    if s.len() == 0 {
        Seq::empty()
    } else {
        seq![value_view(s[0])] + values_view(s.subrange(1, s.len() as int))
    }
}

pub open spec fn entries_view(s: Seq<(String, Value)>) -> Seq<(Seq<char>, ValueView)>
    decreases s,
{
    if s.len() == 0 {
        Seq::empty()
    } else {
        seq![(s[0].0@, value_view(s[0].1))] + entries_view(s.subrange(1, s.len() as int))
    }
}

impl View for Value {
    type V = ValueView;

    open spec fn view(&self) -> ValueView {
        value_view(*self)
    }
}

pub proof fn lemma_entries_view(s: Seq<(String, Value)>)
    ensures
        entries_view(s).len() == s.len(),
        forall|i: int|
            0 <= i < s.len() ==> entries_view(s)[i] == ((#[trigger] s[i]).0@, value_view(s[i].1)),
    decreases s.len(),
{
    if s.len() > 0 {
        let sub = s.subrange(1, s.len() as int);
        lemma_entries_view(sub);
        assert forall|i: int| 0 <= i < s.len() implies entries_view(s)[i] == (
            (#[trigger] s[i]).0@,
            value_view(s[i].1),
        ) by {
            if i > 0 {
                assert(sub[i - 1] == s[i]);
                assert(entries_view(s)[i] == entries_view(sub)[i - 1]);
            }
        }
    }
}

/// The keys of an object's entries are pairwise distinct.
pub open spec fn distinct_keys(s: Seq<(Seq<char>, ValueView)>) -> bool {
    forall|i: int, j: int| 0 <= i < j < s.len() ==> (#[trigger] s[i]).0 != (#[trigger] s[j]).0
}

/// Every object reachable in the tree has pairwise distinct keys.
pub open spec fn wf_value(v: ValueView) -> bool
    decreases v,
{
    match v {
        ValueView::Bool(_) => true,
        ValueView::Number(_) => true,
        ValueView::Str(_) => true,
        ValueView::Array(elems) => forall|i: int|
            0 <= i < elems.len() ==> wf_value(#[trigger] elems[i]),
        ValueView::Object(entries) => distinct_keys(entries) && forall|i: int|
            0 <= i < entries.len() ==> wf_value((#[trigger] entries[i]).1),
    }
}

/// The entries of `s` with key `key` taken out, order otherwise kept.
pub open spec fn obj_remove(s: Seq<(Seq<char>, ValueView)>, key: Seq<char>) -> Seq<
    (Seq<char>, ValueView),
>
    decreases s.len(),
{
    if s.len() == 0 {
        Seq::empty()
    } else if s[0].0 == key {
        obj_remove(s.subrange(1, s.len() as int), key)
    } else {
        seq![s[0]] + obj_remove(s.subrange(1, s.len() as int), key)
    }
}

/// Insertion with last-write-wins semantics: any earlier entry under `key`
/// is dropped and the new entry goes to the end.
pub open spec fn obj_insert(
    s: Seq<(Seq<char>, ValueView)>,
    key: Seq<char>,
    val: ValueView,
) -> Seq<(Seq<char>, ValueView)> {
    obj_remove(s, key).push((key, val))
}

/// The value under `key`, if any (the first entry wins; under
/// `distinct_keys` there is at most one).
pub open spec fn obj_lookup(s: Seq<(Seq<char>, ValueView)>, key: Seq<char>) -> Option<ValueView>
    decreases s.len(),
{
    if s.len() == 0 {
        None
    } else if s[0].0 == key {
        Some(s[0].1)
    } else {
        obj_lookup(s.subrange(1, s.len() as int), key)
    }
}

pub proof fn lemma_obj_remove(s: Seq<(Seq<char>, ValueView)>, key: Seq<char>)
    ensures
        forall|i: int|
            0 <= i < obj_remove(s, key).len() ==> (#[trigger] obj_remove(s, key)[i]).0 != key,
        obj_lookup(obj_remove(s, key), key) is None,
        forall|k: Seq<char>| k != key ==> #[trigger] obj_lookup(obj_remove(s, key), k)
            == obj_lookup(s, k),
        distinct_keys(s) ==> distinct_keys(obj_remove(s, key)),
    decreases s.len(),
{
    if s.len() > 0 {
        let sub = s.subrange(1, s.len() as int);
        lemma_obj_remove(sub, key);
        if distinct_keys(s) {
            assert(distinct_keys(sub)) by {
                assert(forall|i: int, j: int|
                    0 <= i < j < sub.len() ==> (#[trigger] sub[i]).0 != (#[trigger] sub[j]).0
                        && sub[i] == s[i + 1] && sub[j] == s[j + 1]);
            }
        }
        if s[0].0 != key {
            let r = seq![s[0]] + obj_remove(sub, key);
            assert(obj_remove(s, key) == r);
            assert(r[0] == s[0]);
            assert(r.subrange(1, r.len() as int) =~= obj_remove(sub, key));
            assert forall|k: Seq<char>| k != key implies #[trigger] obj_lookup(r, k) == obj_lookup(
                s,
                k,
            ) by {
                if s[0].0 != k {
                    assert(obj_lookup(r, k) == obj_lookup(obj_remove(sub, key), k));
                    assert(obj_lookup(s, k) == obj_lookup(sub, k));
                }
            }
            if distinct_keys(s) {
                assert forall|i: int, j: int| 0 <= i < j < r.len() implies (#[trigger] r[i]).0 != (
                #[trigger] r[j]).0 by {
                    if i == 0 {
                        assert(obj_remove(sub, key).contains(r[j])) by {
                            assert(obj_remove(sub, key)[j - 1] == r[j]);
                        }
                        lemma_obj_remove_membership(sub, key, r[j]);
                        let m = choose|m: int| 0 <= m < sub.len() && sub[m] == r[j];
                        assert(s[m + 1] == sub[m]);
                    }
                }
            }
        } else {
            assert(obj_remove(s, key) == obj_remove(sub, key));
            assert forall|k: Seq<char>| k != key implies #[trigger] obj_lookup(
                obj_remove(s, key),
                k,
            ) == obj_lookup(s, k) by {
                assert(obj_lookup(s, k) == obj_lookup(sub, k));
            }
        }
    }
}

/// Every entry of the filtered object came from the original object.
pub proof fn lemma_obj_remove_membership(
    s: Seq<(Seq<char>, ValueView)>,
    key: Seq<char>,
    entry: (Seq<char>, ValueView),
)
    requires
        obj_remove(s, key).contains(entry),
    ensures
        s.contains(entry),
    decreases s.len(),
{
    if s.len() > 0 {
        let sub = s.subrange(1, s.len() as int);
        if s[0].0 == key {
            lemma_obj_remove_membership(sub, key, entry);
            let i = choose|i: int| 0 <= i < sub.len() && sub[i] == entry;
            assert(s[i + 1] == entry);
        } else {
            let r = seq![s[0]] + obj_remove(sub, key);
            let i = choose|i: int| 0 <= i < r.len() && r[i] == entry;
            if i == 0 {
                assert(s[0] == entry);
            } else {
                assert(obj_remove(sub, key)[i - 1] == entry);
                lemma_obj_remove_membership(sub, key, entry);
                let j = choose|j: int| 0 <= j < sub.len() && sub[j] == entry;
                assert(s[j + 1] == entry);
            }
        }
    }
}

/// Inserting keeps the keys distinct, the inserted key maps to the inserted
/// value, and every other key keeps its previous binding.
pub proof fn lemma_obj_insert(s: Seq<(Seq<char>, ValueView)>, key: Seq<char>, val: ValueView)
    ensures
        distinct_keys(s) ==> distinct_keys(obj_insert(s, key, val)),
        obj_lookup(obj_insert(s, key, val), key) == Some(val),
        forall|k: Seq<char>| k != key ==> #[trigger] obj_lookup(obj_insert(s, key, val), k)
            == obj_lookup(s, k),
{
    lemma_obj_remove(s, key);
    let r = obj_remove(s, key);
    lemma_obj_lookup_append_entry(r, key, val);
}

/// Inserting a well-formed value among well-formed entries leaves every
/// entry's value well formed.
pub proof fn lemma_obj_insert_wf(s: Seq<(Seq<char>, ValueView)>, key: Seq<char>, val: ValueView)
    requires
        forall|i: int| 0 <= i < s.len() ==> wf_value((#[trigger] s[i]).1),
        wf_value(val),
    ensures
        forall|i: int| 0 <= i < obj_insert(s, key, val).len() ==> wf_value(
            (#[trigger] obj_insert(s, key, val)[i]).1,
        ),
{
    let r = obj_remove(s, key);
    let p = obj_insert(s, key, val);
    assert forall|i: int| 0 <= i < p.len() implies wf_value((#[trigger] p[i]).1) by {
        if i < r.len() {
            assert(p[i] == r[i]);
            assert(r.contains(r[i]));
            lemma_obj_remove_membership(s, key, r[i]);
            let j = choose|j: int| 0 <= j < s.len() && s[j] == r[i];
            assert(wf_value(s[j].1));
        } else {
            assert(p[i] == (key, val));
        }
    }
}

/// Removes every entry under `key`, keeping the order of the rest.
pub fn obj_remove_entries(entries: Vec<(String, Value)>, key: &String) -> (r: Vec<(String, Value)>)
    ensures
        entries_view(r@) == obj_remove(entries_view(entries@), key@),
    decreases entries.len(),
{
    if entries.len() == 0 {
        entries
    } else {
        let ghost s0 = entries@;
        let ghost ev = entries_view(s0);
        let ghost tailseq = s0.subrange(1, s0.len() as int);
        let mut rest = entries;
        let head = rest.remove(0);
        proof {
            assert(rest@ =~= tailseq);
            assert(ev == seq![(s0[0].0@, value_view(s0[0].1))] + entries_view(tailseq));
            assert(ev[0] == (s0[0].0@, value_view(s0[0].1)));
            assert(ev.subrange(1, ev.len() as int) =~= entries_view(tailseq));
        }
        let is_key = head.0 == *key;
        let tail_out = obj_remove_entries(rest, key);
        if is_key {
            tail_out
        } else {
            let mut out = tail_out;
            let ghost pre = out@;
            out.insert(0, head);
            proof {
                assert(out@[0] == head);
                assert(out@.subrange(1, out@.len() as int) =~= pre);
                assert(entries_view(out@) == seq![(head.0@, value_view(head.1))] + entries_view(
                    pre,
                ));
            }
            out
        }
    }
}

/// Inserts `(key, val)` with last-write-wins semantics: earlier entries
/// under `key` are dropped and the new entry goes to the end.
pub fn obj_insert_entries(entries: Vec<(String, Value)>, key: String, val: Value) -> (r: Vec<
    (String, Value),
>)
    ensures
        entries_view(r@) == obj_insert(entries_view(entries@), key@, val@),
{
    let ghost keyv = key@;
    let ghost valv = value_view(val);
    let mut out = obj_remove_entries(entries, &key);
    let ghost pre = out@;
    let ghost removed = entries_view(pre);
    proof {
        lemma_entries_view(pre);
    }
    out.push((key, val));
    proof {
        lemma_entries_view(out@);
        assert forall|i: int| 0 <= i < out@.len() implies entries_view(out@)[i] == removed.push(
            (keyv, valv),
        )[i] by {
            if i < pre.len() {
                assert(out@[i] == pre[i]);
            } else {
                assert(out@[i] == out@.last());
                assert(out@[i].0@ == keyv && value_view(out@[i].1) == valv);
            }
        }
        assert(entries_view(out@) =~= removed.push((keyv, valv)));
    }
    out
}

proof fn lemma_obj_lookup_append_entry(
    r: Seq<(Seq<char>, ValueView)>,
    key: Seq<char>,
    val: ValueView,
)
    requires
        forall|i: int| 0 <= i < r.len() ==> (#[trigger] r[i]).0 != key,
    ensures
        obj_lookup(r.push((key, val)), key) == Some(val),
        forall|k: Seq<char>| k != key ==> #[trigger] obj_lookup(r.push((key, val)), k)
            == obj_lookup(r, k),
    decreases r.len(),
{
    let p = r.push((key, val));
    if r.len() == 0 {
        assert(p[0] == (key, val));
        assert(p.subrange(1, p.len() as int) =~= Seq::<(Seq<char>, ValueView)>::empty());
        assert(obj_lookup(Seq::<(Seq<char>, ValueView)>::empty(), key) is None);
        assert(obj_lookup(p, key) == Some(val));
        assert forall|k: Seq<char>| k != key implies #[trigger] obj_lookup(p, k) == obj_lookup(
            r,
            k,
        ) by {
            assert(obj_lookup(p, k) == obj_lookup(Seq::<(Seq<char>, ValueView)>::empty(), k));
            assert(obj_lookup(r, k) is None);
        }
    } else {
        let sub = r.subrange(1, r.len() as int);
        lemma_obj_lookup_append_entry(sub, key, val);
        assert(p.subrange(1, p.len() as int) =~= sub.push((key, val)));
        assert(p[0] == r[0]);
        assert(r[0].0 != key);
        assert(obj_lookup(p, key) == obj_lookup(sub.push((key, val)), key));
        assert forall|k: Seq<char>| k != key implies #[trigger] obj_lookup(p, k) == obj_lookup(
            r,
            k,
        ) by {
            if r[0].0 != k {
                assert(obj_lookup(p, k) == obj_lookup(sub.push((key, val)), k));
                assert(obj_lookup(r, k) == obj_lookup(sub, k));
            }
        }
    }
}

} // verus!

//! The scalar/composite converter: one parsed YAML node becomes one generic
//! value, or a typed conversion error.

use vstd::prelude::*;
use crate::node::SourceNode;
use crate::node::NodeView;
use crate::node::node_pairs_view;
use crate::node::nodes_view;
use crate::node::supported;
use crate::node::lemma_node_pairs_view;
use crate::node::lemma_nodes_view;
use crate::value::Number;
use crate::value::NumberView;
use crate::value::Value;
use crate::value::ValueView;
use crate::value::distinct_keys;
use crate::value::entries_view;
use crate::value::lemma_obj_insert;
use crate::value::lemma_obj_insert_wf;
use crate::value::obj_insert;
use crate::value::wf_value;
use crate::value::obj_insert_entries;
use crate::value::values_view;
use crate::error::Error;
use crate::error::ErrorView;

verus! {

/// What conversion yields for one source node.
///
/// The kinds are tried in a fixed precedence: boolean, real number, mapping,
/// integer, string, sequence; everything else is unsupported. A mapping's
/// keys must be string nodes; its entries are folded left to right with
/// last-write-wins on duplicate keys. A child failure short-circuits.
pub open spec fn convert_node(n: NodeView) -> Result<ValueView, ErrorView>
    decreases n,
{
    match n {
        NodeView::Boolean(b) => Ok(ValueView::Bool(b)),
        NodeView::Real(s) => Ok(ValueView::Number(NumberView::Real(s))),
        NodeView::Mapping(pairs) => match convert_pairs(pairs, Seq::empty()) {
            Ok(entries) => Ok(ValueView::Object(entries)),
            Err(e) => Err(e),
        },
        NodeView::Integer(i) => Ok(ValueView::Number(NumberView::Int(i))),
        NodeView::Str(s) => Ok(ValueView::Str(s)),
        NodeView::Sequence(elems) => match convert_list(elems) {
            Ok(values) => Ok(ValueView::Array(values)),
            Err(e) => Err(e),
        },
        NodeView::Null => Err(ErrorView::Unsupported(n)),
        NodeView::Other => Err(ErrorView::Unsupported(n)),
    }
}

/// Converts a sequence's elements in order; the first failure wins.
pub open spec fn convert_list(s: Seq<NodeView>) -> Result<Seq<ValueView>, ErrorView>
    decreases s,
{
    if s.len() == 0 {
        Ok(Seq::empty())
    } else {
        match convert_node(s[0]) {
            Err(e) => Err(e),
            Ok(v) => match convert_list(s.subrange(1, s.len() as int)) {
                Err(e) => Err(e),
                Ok(rest) => Ok(seq![v] + rest),
            },
        }
    }
}

/// Folds a mapping's pairs into an object, left to right. A non-string key
/// fails before its value is looked at; a value failure short-circuits.
pub open spec fn convert_pairs(
    pairs: Seq<(NodeView, NodeView)>,
    acc: Seq<(Seq<char>, ValueView)>,
) -> Result<Seq<(Seq<char>, ValueView)>, ErrorView>
    decreases pairs,
{
    if pairs.len() == 0 {
        Ok(acc)
    } else {
        match pairs[0].0 {
            NodeView::Str(key) => match convert_node(pairs[0].1) {
                Err(e) => Err(e),
                Ok(v) => convert_pairs(
                    pairs.subrange(1, pairs.len() as int),
                    obj_insert(acc, key, v),
                ),
            },
            _ => Err(ErrorView::NonStringKey(pairs[0].0)),
        }
    }
}

/// Converts one parsed YAML node into a generic value, or reports the first
/// offending node. Pure: the result is exactly `convert_node` of the input's
/// model, so equal trees convert to equal results.
pub fn convert(node: SourceNode) -> (r: Result<Value, Error>)
    ensures
        match convert_node(node@) {
            Ok(v) => r matches Ok(val) && val@ == v,
            Err(e) => r matches Err(err) && err@ == e,
        },
    decreases node@,
{
    match node {
        SourceNode::Null => Err(Error::Unsupported(SourceNode::Null)),
        SourceNode::Boolean(b) => Ok(Value::Bool(b)),
        SourceNode::Integer(i) => Ok(Value::Number(Number::Int(i))),
        SourceNode::Real(s) => Ok(Value::Number(Number::Real(s))),
        SourceNode::Str(s) => Ok(Value::Str(s)),
        SourceNode::Sequence(elems) => {
            proof {
                assert(node@ == NodeView::Sequence(nodes_view(elems@)));
            }
            match convert_elements(elems) {
                Ok(values) => Ok(Value::Array(values)),
                Err(e) => Err(e),
            }
        },
        SourceNode::Mapping(pairs) => {
            proof {
                assert(node@ == NodeView::Mapping(node_pairs_view(pairs@)));
                assert(entries_view(Seq::<(String, Value)>::empty()) =~= Seq::<
                    (Seq<char>, ValueView),
                >::empty());
            }
            match convert_entries(pairs, Vec::new()) {
                Ok(entries) => Ok(Value::Object(entries)),
                Err(e) => Err(e),
            }
        },
        SourceNode::Other => Err(Error::Unsupported(SourceNode::Other)),
    }
}

/// Converts each element of a sequence in order; the first failure wins.
fn convert_elements(elems: Vec<SourceNode>) -> (r: Result<Vec<Value>, Error>)
    ensures
        match convert_list(nodes_view(elems@)) {
            Ok(vs) => r matches Ok(out) && values_view(out@) == vs,
            Err(e) => r matches Err(err) && err@ == e,
        },
    decreases nodes_view(elems@),
{
    let ghost s0 = nodes_view(elems@);
    if elems.len() == 0 {
        proof {
            lemma_nodes_view(elems@);
        }
        Ok(Vec::new())
    } else {
        let mut rest = elems;
        let first = rest.remove(0);
        proof {
            lemma_nodes_view(rest@);
            assert(rest@ =~= elems@.subrange(1, elems@.len() as int));
            lemma_nodes_view(elems@);
            assert(first@ == s0[0]);
            assert(nodes_view(rest@) =~= s0.subrange(1, s0.len() as int));
        }
        match convert(first) {
            Err(e) => Err(e),
            Ok(val) => match convert_elements(rest) {
                Err(e) => Err(e),
                Ok(tail) => {
                    let mut out = tail;
                    let ghost pre = out@;
                    out.insert(0, val);
                    proof {
                        assert(out@[0] == val);
                        assert(out@.subrange(1, out@.len() as int) =~= pre);
                        assert(values_view(out@) == seq![val@] + values_view(pre));
                    }
                    Ok(out)
                },
            },
        }
    }
}

/// Folds a mapping's pairs into object entries, left to right, with
/// last-write-wins on duplicate keys.
fn convert_entries(pairs: Vec<(SourceNode, SourceNode)>, acc: Vec<(String, Value)>) -> (r: Result<
    Vec<(String, Value)>,
    Error,
>)
    ensures
        match convert_pairs(node_pairs_view(pairs@), entries_view(acc@)) {
            Ok(es) => r matches Ok(out) && entries_view(out@) == es,
            Err(e) => r matches Err(err) && err@ == e,
        },
    decreases node_pairs_view(pairs@),
{
    let ghost p0 = node_pairs_view(pairs@);
    if pairs.len() == 0 {
        proof {
            lemma_node_pairs_view(pairs@);
        }
        Ok(acc)
    } else {
        let mut rest = pairs;
        let (key_node, value_node) = rest.remove(0);
        proof {
            lemma_node_pairs_view(rest@);
            assert(rest@ =~= pairs@.subrange(1, pairs@.len() as int));
            lemma_node_pairs_view(pairs@);
            assert(key_node@ == p0[0].0 && value_node@ == p0[0].1);
            assert(node_pairs_view(rest@) =~= p0.subrange(1, p0.len() as int));
        }
        match key_node {
            SourceNode::Str(key) => match convert(value_node) {
                Err(e) => Err(e),
                Ok(val) => {
                    let next = obj_insert_entries(acc, key, val);
                    convert_entries(rest, next)
                },
            },
            other => Err(Error::NonStringKey(other)),
        }
    }
}

/// Conversion is total on supported trees: every mapping tree whose keys are
/// all strings and whose nodes all belong to the convertible set converts
/// without error, however it is nested.
pub proof fn lemma_convert_total(n: NodeView)
    requires
        supported(n),
    ensures
        convert_node(n) is Ok,
    decreases n,
{
    match n {
        NodeView::Sequence(elems) => {
            lemma_convert_list_total(elems);
        },
        NodeView::Mapping(pairs) => {
            lemma_convert_pairs_total(pairs, Seq::empty());
        },
        _ => {},
    }
}

proof fn lemma_convert_list_total(s: Seq<NodeView>)
    requires
        forall|i: int| 0 <= i < s.len() ==> supported(#[trigger] s[i]),
    ensures
        convert_list(s) is Ok,
    decreases s,
{
    if s.len() > 0 {
        lemma_convert_total(s[0]);
        let sub = s.subrange(1, s.len() as int);
        lemma_convert_list_total(sub);
    }
}

proof fn lemma_convert_pairs_total(s: Seq<(NodeView, NodeView)>, acc: Seq<(Seq<char>, ValueView)>)
    requires
        forall|i: int| 0 <= i < s.len() ==> (#[trigger] s[i]).0 is Str && supported(s[i].1),
    ensures
        convert_pairs(s, acc) is Ok,
    decreases s,
{
    if s.len() > 0 {
        lemma_convert_total(s[0].1);
        let sub = s.subrange(1, s.len() as int);
        lemma_convert_pairs_total(sub, obj_insert(acc, s[0].0->Str_0, convert_node(s[0].1)->Ok_0));
    }
}

/// Every value a successful conversion yields is well formed: each object
/// in it, at whatever depth, has pairwise distinct keys — the mapping fold
/// inserts with last-write-wins, which never leaves two entries under one
/// key.
pub proof fn lemma_convert_wf(n: NodeView)
    requires
        convert_node(n) is Ok,
    ensures
        wf_value(convert_node(n)->Ok_0),
    decreases n,
{
    match n {
        NodeView::Sequence(elems) => {
            lemma_convert_list_wf(elems);
        },
        NodeView::Mapping(pairs) => {
            lemma_convert_pairs_wf(pairs, Seq::empty());
        },
        _ => {},
    }
}

proof fn lemma_convert_list_wf(s: Seq<NodeView>)
    requires
        convert_list(s) is Ok,
    ensures
        ({
            let vs = convert_list(s)->Ok_0;
            forall|i: int| 0 <= i < vs.len() ==> wf_value(#[trigger] vs[i])
        }),
    decreases s,
{
    if s.len() > 0 {
        lemma_convert_wf(s[0]);
        let sub = s.subrange(1, s.len() as int);
        lemma_convert_list_wf(sub);
        let vs = convert_list(s)->Ok_0;
        let rest = convert_list(sub)->Ok_0;
        assert forall|i: int| 0 <= i < vs.len() implies wf_value(#[trigger] vs[i]) by {
            if i > 0 {
                assert(vs[i] == rest[i - 1]);
            }
        }
    }
}

proof fn lemma_convert_pairs_wf(s: Seq<(NodeView, NodeView)>, acc: Seq<(Seq<char>, ValueView)>)
    requires
        convert_pairs(s, acc) is Ok,
        distinct_keys(acc),
        forall|i: int| 0 <= i < acc.len() ==> wf_value((#[trigger] acc[i]).1),
    ensures
        ({
            let es = convert_pairs(s, acc)->Ok_0;
            distinct_keys(es) && forall|i: int| 0 <= i < es.len() ==> wf_value(
                (#[trigger] es[i]).1,
            )
        }),
    decreases s,
{
    if s.len() > 0 {
        match s[0].0 {
            NodeView::Str(key) => {
                lemma_convert_wf(s[0].1);
                let v = convert_node(s[0].1)->Ok_0;
                lemma_obj_insert(acc, key, v);
                lemma_obj_insert_wf(acc, key, v);
                lemma_convert_pairs_wf(s.subrange(1, s.len() as int), obj_insert(acc, key, v));
            },
            _ => {},
        }
    }
}

/// A converted mapping has pairwise distinct keys at its root: the fold
/// inserts with last-write-wins, which never leaves two entries under one
/// key.
pub proof fn lemma_convert_pairs_distinct(
    s: Seq<(NodeView, NodeView)>,
    acc: Seq<(Seq<char>, ValueView)>,
)
    requires
        distinct_keys(acc),
        convert_pairs(s, acc) is Ok,
    ensures
        distinct_keys(convert_pairs(s, acc)->Ok_0),
    decreases s,
{
    if s.len() > 0 {
        match s[0].0 {
            NodeView::Str(key) => {
                let v = convert_node(s[0].1)->Ok_0;
                lemma_obj_insert(acc, key, v);
                lemma_convert_pairs_distinct(s.subrange(1, s.len() as int), obj_insert(acc, key, v));
            },
            _ => {},
        }
    }
}

} // verus!

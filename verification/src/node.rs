//! The source side of the conversion pipeline: one parsed YAML value.

use vstd::prelude::*;

verus! {

/// One parsed YAML value, as handed to the conversion pipeline.
///
/// Scalars carry their value directly; a real number keeps the raw token the
/// scanner saw (the parser stores reals as text). `Other` stands for anything
/// the parser produced that the pipeline cannot use (an unresolved alias, a
/// bad value).
#[derive(Debug, PartialEq)]
pub enum SourceNode {
    Null,
    Boolean(bool),
    Integer(i64),
    Real(String),
    Str(String),
    Sequence(Vec<SourceNode>),
    Mapping(Vec<(SourceNode, SourceNode)>),
    Other,
}

/// The mathematical model of a `SourceNode`.
pub enum NodeView {
    Null,
    Boolean(bool),
    Integer(int),
    Real(Seq<char>),
    Str(Seq<char>),
    Sequence(Seq<NodeView>),
    Mapping(Seq<(NodeView, NodeView)>),
    Other,
}

pub open spec fn node_view(n: SourceNode) -> NodeView
    decreases n,
{
    match n {
        SourceNode::Null => NodeView::Null,
        SourceNode::Boolean(b) => NodeView::Boolean(b),
        SourceNode::Integer(i) => NodeView::Integer(i as int),
        SourceNode::Real(s) => NodeView::Real(s@),
        SourceNode::Str(s) => NodeView::Str(s@),
        SourceNode::Sequence(v) => NodeView::Sequence(nodes_view(v@)),
        SourceNode::Mapping(v) => NodeView::Mapping(node_pairs_view(v@)),
        SourceNode::Other => NodeView::Other,
    }
}

pub open spec fn nodes_view(s: Seq<SourceNode>) -> Seq<NodeView>
    decreases s,
{
    if s.len() == 0 {
        Seq::empty()
    } else {
        seq![node_view(s[0])] + nodes_view(s.subrange(1, s.len() as int))
    }
}

pub open spec fn node_pairs_view(s: Seq<(SourceNode, SourceNode)>) -> Seq<(NodeView, NodeView)>
    decreases s,
{
    if s.len() == 0 {
        Seq::empty()
    } else {
        seq![(node_view(s[0].0), node_view(s[0].1))] + node_pairs_view(
            s.subrange(1, s.len() as int),
        )
    }
}

pub proof fn lemma_nodes_view(s: Seq<SourceNode>)
    ensures
        nodes_view(s).len() == s.len(),
        forall|i: int| 0 <= i < s.len() ==> nodes_view(s)[i] == node_view(#[trigger] s[i]),
    decreases s.len(),
{
    if s.len() > 0 {
        let sub = s.subrange(1, s.len() as int);
        lemma_nodes_view(sub);
        assert forall|i: int| 0 <= i < s.len() implies nodes_view(s)[i] == node_view(
            #[trigger] s[i],
        ) by {
            if i > 0 {
                assert(sub[i - 1] == s[i]);
                assert(nodes_view(s)[i] == nodes_view(sub)[i - 1]);
            }
        }
    }
}

pub proof fn lemma_node_pairs_view(s: Seq<(SourceNode, SourceNode)>)
    ensures
        node_pairs_view(s).len() == s.len(),
        forall|i: int|
            0 <= i < s.len() ==> node_pairs_view(s)[i] == (
                node_view(#[trigger] s[i].0),
                node_view(s[i].1),
            ),
    decreases s.len(),
{
    if s.len() > 0 {
        let sub = s.subrange(1, s.len() as int);
        lemma_node_pairs_view(sub);
        assert forall|i: int| 0 <= i < s.len() implies node_pairs_view(s)[i] == (
            node_view(#[trigger] s[i].0),
            node_view(s[i].1),
        ) by {
            if i > 0 {
                assert(sub[i - 1] == s[i]);
                assert(node_pairs_view(s)[i] == node_pairs_view(sub)[i - 1]);
            }
        }
    }
}

impl View for SourceNode {
    type V = NodeView;

    open spec fn view(&self) -> NodeView {
        node_view(*self)
    }
}

/// A source tree is supported when every mapping key is a string and every
/// node belongs to the closed set of convertible kinds: booleans, integers,
/// reals, strings, sequences and mappings.
pub open spec fn supported(n: NodeView) -> bool
    decreases n,
{
    match n {
        NodeView::Null => false,
        NodeView::Boolean(_) => true,
        NodeView::Integer(_) => true,
        NodeView::Real(_) => true,
        NodeView::Str(_) => true,
        NodeView::Sequence(elems) => forall|i: int|
            0 <= i < elems.len() ==> supported(#[trigger] elems[i]),
        NodeView::Mapping(pairs) => forall|i: int|
            0 <= i < pairs.len() ==> (#[trigger] pairs[i]).0 is Str && supported(pairs[i].1),
        NodeView::Other => false,
    }
}

} // verus!

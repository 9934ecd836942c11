//! The document loader: raw text to a single validated root mapping.

use vstd::prelude::*;
use crate::node::SourceNode;
use crate::node::NodeView;
use crate::node::nodes_view;
use crate::node::lemma_nodes_view;
use crate::error::Error;
use crate::error::ErrorView;

verus! {

/// What the YAML parser yields for given text: the parsed documents, or the
/// scanner's diagnostic. Parsing reads nothing but the text, so the outcome
/// is a function of its characters alone.
pub uninterp spec fn yaml_documents(text: Seq<char>) -> Result<Seq<NodeView>, Seq<char>>;

/// The outside parser's node type, declared so that the conversion out of it
/// can be named; the library never looks inside such a value.
#[verifier::external_type_specification]
#[verifier::external_body]
pub struct ExYaml(yaml_rust::Yaml);

/// Carries one `yaml_rust::Yaml` value over into the library's source node,
/// one arm per variant, moving the fields; an alias or bad value becomes
/// `Other`. Relies on `yaml_rust::Yaml` only for its variants.
#[verifier::external_body]
fn node_of_yaml(y: yaml_rust::Yaml) -> SourceNode {
    match y {
        yaml_rust::Yaml::Real(s) => SourceNode::Real(s),
        yaml_rust::Yaml::Integer(i) => SourceNode::Integer(i),
        yaml_rust::Yaml::String(s) => SourceNode::Str(s),
        yaml_rust::Yaml::Boolean(b) => SourceNode::Boolean(b),
        yaml_rust::Yaml::Array(v) => SourceNode::Sequence(
            v.into_iter().map(node_of_yaml).collect(),
        ),
        yaml_rust::Yaml::Hash(h) => SourceNode::Mapping(
            h.into_iter().map(|(k, v)| (node_of_yaml(k), node_of_yaml(v))).collect(),
        ),
        yaml_rust::Yaml::Alias(_) => SourceNode::Other,
        yaml_rust::Yaml::Null => SourceNode::Null,
        yaml_rust::Yaml::BadValue => SourceNode::Other,
    }
}

/// Relies on `yaml_rust::YamlLoader::load_from_str`: it parses the text into
/// the sequence of YAML documents it holds (resolving anchors and aliases),
/// or reports a scan error, and it reads nothing but the text.
#[verifier::external_body]
fn parse_documents(text: &str) -> (r: Result<Vec<SourceNode>, String>)
    ensures
        match r {
            Ok(docs) => yaml_documents(text@) == Ok::<Seq<NodeView>, Seq<char>>(nodes_view(docs@)),
            Err(e) => yaml_documents(text@) == Err::<Seq<NodeView>, Seq<char>>(e@),
        },
{
    match yaml_rust::YamlLoader::load_from_str(text) {
        Ok(docs) => Ok(docs.into_iter().map(node_of_yaml).collect()),
        Err(e) => Err(e.to_string()),
    }
}

/// Parses `text` and enforces the loader's structural invariants: the text
/// holds exactly one YAML document, and that document's root is a mapping.
/// The root is returned unvalidated below its top level; deep validation
/// happens during conversion.
pub fn load(text: &str) -> (r: Result<SourceNode, Error>)
    ensures
        match yaml_documents(text@) {
            Err(msg) => r matches Err(e) && e@ == ErrorView::InvalidSyntax(msg),
            Ok(docs) => {
                if docs.len() == 0 {
                    r matches Err(e) && e@ == ErrorView::Empty
                } else if docs.len() > 1 {
                    r matches Err(e) && e@ == ErrorView::MultipleDocuments(docs.len() as int)
                } else if !(docs[0] is Mapping) {
                    r matches Err(e) && e@ == ErrorView::RootNotMapping(docs[0])
                } else {
                    r matches Ok(root) && root@ == docs[0]
                }
            },
        },
{
    match parse_documents(text) {
        Err(msg) => Err(Error::InvalidSyntax(msg)),
        Ok(docs) => {
            let ghost d0 = docs@;
            proof {
                lemma_nodes_view(d0);
            }
            if docs.len() == 0 {
                Err(Error::Empty)
            } else if docs.len() > 1 {
                Err(Error::MultipleDocuments(docs.len()))
            } else {
                let mut docs = docs;
                let root = docs.remove(0);
                proof {
                    assert(root@ == nodes_view(d0)[0]);
                }
                match &root {
                    SourceNode::Mapping(_) => Ok(root),
                    _ => Err(Error::RootNotMapping(root)),
                }
            }
        },
    }
}

} // verus!

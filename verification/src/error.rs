//! The failure taxonomy of the ingestion pipeline.

use vstd::prelude::*;
use crate::node::SourceNode;
use crate::node::NodeView;
use crate::node::node_view;

verus! {

/// The mathematical model of an `Error`.
pub enum ErrorView {
    InvalidSyntax(Seq<char>),
    Empty,
    MultipleDocuments(int),
    RootNotMapping(NodeView),
    NonStringKey(NodeView),
    Unsupported(NodeView),
}

/// What can go wrong between raw configuration text and the assembled
/// context. Every failure is typed; none of the library's functions panics.
#[derive(Debug, PartialEq)]
pub enum Error {
    /// The text is not valid YAML; carries the scanner's diagnostic.
    InvalidSyntax(String),
    /// The text holds no YAML document at all.
    Empty,
    /// The text holds more than one document; carries how many.
    MultipleDocuments(usize),
    /// The single document's root is not a mapping; carries the root.
    RootNotMapping(SourceNode),
    /// A mapping key is not a string; carries the offending key.
    NonStringKey(SourceNode),
    /// A value outside the closed convertible set; carries the node.
    Unsupported(SourceNode),
}

impl View for Error {
    type V = ErrorView;

    open spec fn view(&self) -> ErrorView {
        match *self {
            Error::InvalidSyntax(s) => ErrorView::InvalidSyntax(s@),
            Error::Empty => ErrorView::Empty,
            Error::MultipleDocuments(n) => ErrorView::MultipleDocuments(n as int),
            Error::RootNotMapping(n) => ErrorView::RootNotMapping(node_view(n)),
            Error::NonStringKey(n) => ErrorView::NonStringKey(node_view(n)),
            Error::Unsupported(n) => ErrorView::Unsupported(node_view(n)),
        }
    }
}

} // verus!

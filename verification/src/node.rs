use crate::uri::Uri;
use vstd::prelude::*;

verus! {

/// A node of an RDF graph.
#[derive(Debug, PartialEq, Eq)]
pub enum Node {
    /// A resource named by a URI.
    UriNode { uri: Uri },
    /// A literal, with the URI of its datatype or with its language tag, or with neither.
    LiteralNode { literal: String, data_type: Option<Uri>, language: Option<String> },
    /// An anonymous resource, known by a label inside one document.
    BlankNode { id: String },
}

/// What a node says, with every text as a sequence of characters.
pub enum NodeView {
    UriNode { uri: Seq<char> },
    LiteralNode { literal: Seq<char>, data_type: Option<Seq<char>>, language: Option<Seq<char>> },
    BlankNode { id: Seq<char> },
}

impl NodeView {
    /// A literal has a datatype or a language or neither, never both.
    pub open spec fn wf(self) -> bool {
        self matches NodeView::LiteralNode { data_type, language, .. } ==> !(data_type is Some
            && language is Some)
    }

    /// A subject is a URI or a blank node.
    pub open spec fn is_subject(self) -> bool {
        self is UriNode || self is BlankNode
    }

    /// A predicate is a URI.
    pub open spec fn is_predicate(self) -> bool {
        self is UriNode
    }

    /// An object is any node that is well formed.
    pub open spec fn is_object(self) -> bool {
        self.wf()
    }
}

impl View for Node {
    type V = NodeView;

    open spec fn view(&self) -> NodeView {
        match self {
            Node::UriNode { uri } => NodeView::UriNode { uri: uri@ },
            Node::LiteralNode { literal, data_type, language } => NodeView::LiteralNode {
                literal: literal@,
                data_type: match data_type {
                    Some(uri) => Some(uri@),
                    None => None,
                },
                language: match language {
                    Some(tag) => Some(tag@),
                    None => None,
                },
            },
            Node::BlankNode { id } => NodeView::BlankNode { id: id@ },
        }
    }
}

impl Clone for Node {
    fn clone(&self) -> (copy: Node)
        ensures
            copy@ == self@,
    {
        match self {
            Node::UriNode { uri } => Node::UriNode { uri: uri.clone() },
            Node::LiteralNode { literal, data_type, language } => Node::LiteralNode {
                literal: literal.clone(),
                data_type: match data_type {
                    Some(uri) => Some(uri.clone()),
                    None => None,
                },
                language: match language {
                    Some(tag) => Some(tag.clone()),
                    None => None,
                },
            },
            Node::BlankNode { id } => Node::BlankNode { id: id.clone() },
        }
    }
}

} // verus!

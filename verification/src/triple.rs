use crate::node::{Node, NodeView};
use vstd::prelude::*;

verus! {

/// A statement: subject, predicate and object. It does not change once built.
#[derive(Debug, PartialEq, Eq)]
pub struct Triple {
    subject: Node,
    predicate: Node,
    object: Node,
}

/// What a triple says.
pub struct TripleView {
    pub subject: NodeView,
    pub predicate: NodeView,
    pub object: NodeView,
}

impl TripleView {
    /// Each node is of a kind that its position admits.
    pub open spec fn wf(self) -> bool {
        &&& self.subject.is_subject()
        &&& self.predicate.is_predicate()
        &&& self.object.is_object()
    }
}

/// Whether `longer` is `shorter` with more triples behind it, all of them
/// with nodes of the kinds that their places admit.
pub open spec fn extends_well(longer: Seq<TripleView>, shorter: Seq<TripleView>) -> bool {
    &&& shorter.len() <= longer.len()
    &&& longer.take(shorter.len() as int) == shorter
    &&& forall|i: int| shorter.len() <= i < longer.len() ==> (#[trigger] longer[i]).wf()
}

/// What each of the triples says, in their order.
pub open spec fn views(triples: Seq<Triple>) -> Seq<TripleView> {
    Seq::new(triples.len(), |i: int| triples[i]@)
}

impl View for Triple {
    type V = TripleView;

    closed spec fn view(&self) -> TripleView {
        TripleView { subject: self.subject@, predicate: self.predicate@, object: self.object@ }
    }
}

impl Clone for Triple {
    fn clone(&self) -> (copy: Triple)
        ensures
            copy@ == self@,
    {
        Triple {
            subject: self.subject.clone(),
            predicate: self.predicate.clone(),
            object: self.object.clone(),
        }
    }
}

impl Triple {
    /// The triple of the three nodes. Each must be of a kind that its position
    /// admits: whoever builds a triple has seen to that before.
    pub fn new(subject: &Node, predicate: &Node, object: &Node) -> (triple: Triple)
        requires
            subject@.is_subject(),
            predicate@.is_predicate(),
            object@.is_object(),
        ensures
            triple@ == (TripleView { subject: subject@, predicate: predicate@, object: object@ }),
            triple@.wf(),
    {
        Triple { subject: subject.clone(), predicate: predicate.clone(), object: object.clone() }
    }

    /// The subject.
    pub fn subject(&self) -> (node: &Node)
        ensures
            node@ == self@.subject,
    {
        &self.subject
    }

    /// The predicate.
    pub fn predicate(&self) -> (node: &Node)
        ensures
            node@ == self@.predicate,
    {
        &self.predicate
    }

    /// The object.
    pub fn object(&self) -> (node: &Node)
        ensures
            node@ == self@.object,
    {
        &self.object
    }
}

} // verus!

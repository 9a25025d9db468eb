use crate::error::{Error, ErrorType, ErrorView};
use crate::namespace::Namespace;
use crate::triple::{Triple, TripleView, views};
use crate::uri::Uri;
use vstd::prelude::*;

verus! {

/// A collection of triples, with the base URI and the namespaces that the
/// document they came from declared.
#[derive(Debug)]
pub struct Graph {
    base_uri: Option<Uri>,
    triples: Vec<Triple>,
    namespaces: Vec<Namespace>,
}

/// What a graph holds: the base URI, the triples in the order in which they
/// were added, and for each declared prefix the URI that it stands for.
pub struct GraphView {
    pub base_uri: Option<Seq<char>>,
    pub triples: Seq<TripleView>,
    pub namespaces: Map<Seq<char>, Seq<char>>,
}

impl GraphView {
    /// The graph without triples and namespaces.
    pub open spec fn empty(base_uri: Option<Seq<char>>) -> GraphView {
        GraphView { base_uri, triples: Seq::empty(), namespaces: Map::empty() }
    }

    /// This graph with one more triple at its end.
    pub open spec fn add_triple(self, triple: TripleView) -> GraphView {
        GraphView { triples: self.triples.push(triple), ..self }
    }

    /// This graph with `triples` at its end.
    pub open spec fn add_triples(self, triples: Seq<TripleView>) -> GraphView {
        GraphView { triples: self.triples + triples, ..self }
    }

    /// This graph with another base URI.
    pub open spec fn set_base_uri(self, uri: Seq<char>) -> GraphView {
        GraphView { base_uri: Some(uri), ..self }
    }

    /// This graph with `prefix` standing for `uri`, whatever it stood for before.
    pub open spec fn add_namespace(self, prefix: Seq<char>, uri: Seq<char>) -> GraphView {
        GraphView { namespaces: self.namespaces.insert(prefix, uri), ..self }
    }

    /// The URI that `prefix` stands for, if it was declared.
    pub open spec fn namespace_uri(self, prefix: Seq<char>) -> Option<Seq<char>> {
        if self.namespaces.dom().contains(prefix) {
            Some(self.namespaces[prefix])
        } else {
            None
        }
    }
}

/// The failure of a lookup of a prefix that was never declared.
pub open spec fn undefined_prefix() -> ErrorView {
    ErrorView {
        kind: ErrorType::UndefinedPrefix,
        text: "No namespace is declared for the prefix."@,
    }
}

/// The table that a list of declarations stands for: of two declarations of
/// one prefix the later counts.
pub open spec fn declared(entries: Seq<Namespace>) -> Map<Seq<char>, Seq<char>>
    decreases entries.len(),
{
    if entries.len() == 0 {
        Map::empty()
    } else {
        declared(entries.drop_last()).insert(
            entries.last().prefix_view(),
            entries.last().uri_view(),
        )
    }
}

impl View for Graph {
    type V = GraphView;

    closed spec fn view(&self) -> GraphView {
        GraphView {
            base_uri: match self.base_uri {
                Some(uri) => Some(uri@),
                None => None,
            },
            triples: views(self.triples@),
            namespaces: declared(self.namespaces@),
        }
    }
}

impl Graph {
    /// A graph without triples and namespaces.
    pub fn new(base_uri: Option<Uri>) -> (graph: Graph)
        ensures
            graph@ == GraphView::empty(
                match base_uri {
                    Some(uri) => Some(uri@),
                    None => None,
                },
            ),
    {
        let graph = Graph { base_uri, triples: Vec::new(), namespaces: Vec::new() };
        assert(graph@.triples =~= Seq::empty());
        graph
    }

    /// The number of triples.
    pub fn count(&self) -> (n: usize)
        ensures
            n == self@.triples.len(),
    {
        self.triples.len()
    }

    /// Whether the graph holds no triple.
    pub fn is_empty(&self) -> (b: bool)
        ensures
            b == (self@.triples.len() == 0),
    {
        self.triples.len() == 0
    }

    /// The base URI, if one was set.
    pub fn base_uri(&self) -> (uri: &Option<Uri>)
        ensures
            *uri matches Some(u) ==> self@.base_uri == Some(u@),
            *uri is None ==> self@.base_uri is None,
    {
        &self.base_uri
    }

    /// The triples, in the order in which they were added.
    pub fn triples(&self) -> (triples: &Vec<Triple>)
        ensures
            views(triples@) == self@.triples,
    {
        &self.triples
    }

    /// Sets the base URI.
    pub fn set_base_uri(&mut self, uri: &Uri)
        ensures
            final(self)@ == old(self)@.set_base_uri(uri@),
    {
        self.base_uri = Some(uri.clone());
        assert(self@.triples =~= old(self)@.triples);
    }

    /// Adds a triple at the end.
    pub fn add_triple(&mut self, triple: &Triple)
        ensures
            final(self)@ == old(self)@.add_triple(triple@),
    {
        self.triples.push(triple.clone());
        assert(self@.triples =~= old(self)@.triples.push(triple@));
    }

    /// Adds the triples at the end, in their order.
    pub fn add_triples(&mut self, triples: &[Triple])
        ensures
            final(self)@ == old(self)@.add_triples(views(triples@)),
    {
        let ghost added = views(triples@);
        let mut i: usize = 0;
        assert(old(self)@.triples + added.take(0) =~= old(self)@.triples);
        while i < triples.len()
            invariant
                0 <= i <= triples.len(),
                added == views(triples@),
                self@ == old(self)@.add_triples(added.take(i as int)),
            decreases triples.len() - i,
        {
            let ghost before = self@;
            self.add_triple(&triples[i]);
            assert(before.triples.push(triples@[i as int]@) =~= old(self)@.triples + added.take(
                i + 1,
            ));
            i += 1;
        }
        assert(added.take(triples@.len() as int) =~= added);
    }

    /// Lets the prefix of `namespace` stand for its URI from now on.
    pub fn add_namespace(&mut self, namespace: &Namespace)
        ensures
            final(self)@ == old(self)@.add_namespace(
                namespace.prefix_view(),
                namespace.uri_view(),
            ),
    {
        let ghost before = self.namespaces@;
        self.namespaces.push(namespace.clone());
        assert(self.namespaces@.drop_last() =~= before);
        assert(self@.triples =~= old(self)@.triples);
    }

    /// The URI that `prefix` stands for. Fails with `UndefinedPrefix` when the
    /// prefix was never declared.
    pub fn get_namespace_uri_by_prefix(&self, prefix: &String) -> (found: Result<&Uri, Error>)
        ensures
            match self@.namespace_uri(prefix@) {
                Some(uri) => found matches Ok(u) && u@ == uri,
                None => found matches Err(e) && e@ == undefined_prefix(),
            },
    {
        let mut i: usize = self.namespaces.len();
        assert(self.namespaces@.take(i as int) =~= self.namespaces@);
        while i > 0
            invariant
                0 <= i <= self.namespaces.len(),
                self@.namespace_uri(prefix@) == (GraphView {
                    namespaces: declared(self.namespaces@.take(i as int)),
                    ..self@
                }).namespace_uri(prefix@),
            decreases i,
        {
            i -= 1;
            let entry = &self.namespaces[i];
            assert(self.namespaces@.take(i + 1).drop_last() =~= self.namespaces@.take(i as int));
            if *entry.prefix() == *prefix {
                return Ok(entry.uri());
            }
        }
        Err(Error::new(ErrorType::UndefinedPrefix, "No namespace is declared for the prefix."))
    }
}

} // verus!

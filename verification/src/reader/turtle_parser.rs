use crate::error::{Error, ErrorType, ErrorView};
use crate::graph::{Graph, GraphView};
use crate::namespace::Namespace;
use crate::node::Node;
use crate::reader::lexer::grammar::Syntax;
use crate::reader::lexer::rdf_lexer::{RdfLexer, SourceView, lemma_get_advances};
use crate::reader::lexer::token::Token;
use crate::reader::lexer::turtle_lexer::TurtleLexer;
use crate::reader::rdf_parser::{RdfParser, fail_at_delimiter, fail_inside_statement, told};
use crate::reader::text::decode_text;
use crate::reader::turtle_syntax::{
    continued, document, lemma_pair_advances, lemma_statement_advances, object_node,
    predicate_node, predicate_with_object, resolved, slashed, statement, subject_node,
};
use crate::triple::{Triple, TripleView, views};
use crate::uri::Uri;
use vstd::prelude::*;

verus! {

/// Writes `/` for every `:` of `path`.
pub fn slash_path(path: &str) -> (out: String)
    ensures
        out@ == slashed(path@),
{
    let mut out = String::new();
    assert(slashed(path@.take(0)) =~= Seq::<char>::empty());
    for c in it: path.chars()
        invariant
            it.seq() == path@,
            out@ == slashed(it.seq().take(it.index() as int)),
    {
        assert(slashed(path@.take(it.index() + 1)) =~= slashed(path@.take(it.index() as int)).push(
            if c == ':' {
                '/'
            } else {
                c
            },
        ));
        if c == ':' {
            out.push('/');
        } else {
            out.push(c);
        }
    }
    assert(path@.take(path@.len() as int) =~= path@);
    out
}

/// The node that the qualified name of `prefix` and `path` stands for in `graph`.
pub fn resolve(graph: &Graph, prefix: &String, path: &String) -> (r: Result<Node, Error>)
    ensures
        told(r) == resolved(graph@, prefix@, path@),
        r matches Ok(node) ==> node@ is UriNode,
{
    match graph.get_namespace_uri_by_prefix(prefix) {
        Ok(namespace_uri) => {
            let mut uri = namespace_uri.clone();
            let resource_path = slash_path(path.as_str());
            uri.append_resource_path(resource_path.as_str());
            Ok(Node::UriNode { uri })
        },
        Err(e) => Err(e),
    }
}

/// RDF parser to generate an RDF graph from Turtle syntax.
#[derive(Debug)]
pub struct TurtleParser {
    lexer: TurtleLexer,
}

impl RdfParser for TurtleParser {
    closed spec fn wf(&self) -> bool {
        self.lexer.wf()
    }

    closed spec fn source(&self) -> SourceView {
        self.lexer.source()
    }

    proof fn lemma_stands_in_text(&self) {
        self.lexer.lemma_stands_in_text();
    }

    open spec fn decoded(source: SourceView) -> (Result<GraphView, ErrorView>, SourceView) {
        document(source, GraphView::empty(None))
    }

    /// Generates an RDF graph from the Turtle text that the parser was made with.
    ///
    /// Fails on input that is not Turtle, on a qualified name whose prefix
    /// no directive before it declares, and where a node is of a kind that
    /// its place in the statement does not admit.
    fn decode(&mut self) -> (r: Result<Graph, Error>)
        ensures
            (told(r), final(self).source()) == document(
                old(self).source(),
                GraphView::empty(None),
            ),
    {
        let mut graph = Graph::new(None);
        loop
            invariant
                self.wf(),
                document(self.source(), graph@) == document(
                    old(self).source(),
                    GraphView::empty(None),
                ),
            decreases self.source().left(),
        {
            proof {
                self.lemma_stands_in_text();
                lemma_get_advances(self.source(), Syntax::Turtle);
                lemma_statement_advances(graph@, self.source());
            }
            match self.lexer.peek_next_token() {
                Ok(Token::Comment(_)) => {
                    let _ = self.lexer.get_next_token();
                },
                Ok(Token::EndOfInput) => {
                    return Ok(graph);
                },
                Ok(Token::BaseDirective(base_uri)) => {
                    let _ = self.lexer.get_next_token();
                    graph.set_base_uri(&Uri::new(base_uri));
                },
                Ok(Token::PrefixDirective(prefix, uri)) => {
                    let _ = self.lexer.get_next_token();
                    graph.add_namespace(&Namespace::new(prefix, Uri::new(uri)));
                },
                Ok(Token::Uri(_)) | Ok(Token::BlankNode(_)) | Ok(Token::QName(_, _)) => {
                    match self.read_triples(&graph) {
                        Ok(triples) => graph.add_triples(triples.as_slice()),
                        Err(e) => {
                            return Err(e);
                        },
                    }
                },
                Ok(_) => {
                    return Err(
                        Error::new(
                            ErrorType::InvalidToken,
                            "Invalid token while parsing Turtle syntax.",
                        ),
                    );
                },
                Err(e) => {
                    match *e.error_type() {
                        ErrorType::EndOfInput => {
                            return Ok(graph);
                        },
                        _ => {
                            return Err(e);
                        },
                    }
                },
            }
        }
    }
}

impl TurtleParser {
    /// Constructor of `TurtleParser` from input string.
    pub fn from_string(input: String) -> (parser: TurtleParser)
        ensures
            parser.wf(),
            parser.source() == SourceView::start(input@),
    {
        TurtleParser { lexer: TurtleLexer::new(input.as_str()) }
    }

    /// Constructor of `TurtleParser` from the bytes that an input source
    /// gave. Fails with `InvalidByteEncoding` where they are not UTF-8.
    pub fn from_reader(input: Vec<u8>) -> (made: Result<TurtleParser, Error>)
        ensures
            match made {
                Ok(parser) => vstd::utf8::valid_utf8(input@) && parser.wf() && parser.source()
                    == SourceView::start(vstd::utf8::decode_utf8(input@)),
                Err(e) => !vstd::utf8::valid_utf8(input@) && e@ == (ErrorView {
                    kind: ErrorType::InvalidByteEncoding,
                    text: "The input is not UTF-8."@,
                }),
            },
    {
        match decode_text(input) {
            Some(text) => Ok(TurtleParser::from_string(text)),
            None => Err(Error::new(ErrorType::InvalidByteEncoding, "The input is not UTF-8.")),
        }
    }

    /// Creates the triples of one statement from the parsed tokens.
    pub fn read_triples(&mut self, graph: &Graph) -> (r: Result<Vec<Triple>, Error>)
        requires
            old(self).wf(),
        ensures
            final(self).wf(),
            final(self).source() == statement(graph@, old(self).source()).1,
            match statement(graph@, old(self).source()).0 {
                Ok(triples) => r matches Ok(read) && views(read@) == triples,
                Err(error) => r matches Err(e) && e@ == error,
            },
    {
        let mut triples: Vec<Triple> = Vec::new();
        let subject = self.read_subject(graph)?;
        let (first_predicate, object) = self.read_predicate_with_object(graph)?;
        triples.push(Triple::new(&subject, &first_predicate, &object));
        let mut predicate = first_predicate;
        assert(views(triples@) =~= seq![
            TripleView { subject: subject@, predicate: predicate@, object: object@ },
        ]);
        loop
            invariant
                self.wf(),
                subject@.is_subject(),
                predicate@.is_predicate(),
                continued(graph@, self.source(), subject@, predicate@, views(triples@))
                    == statement(graph@, old(self).source()),
            decreases self.source().left(),
        {
            proof {
                self.lemma_stands_in_text();
                lemma_get_advances(self.source(), Syntax::Turtle);
                let behind = self.source().get(Syntax::Turtle).1;
                lemma_get_advances(behind, Syntax::Turtle);
                lemma_pair_advances(graph@, behind);
            }
            let ghost before = views(triples@);
            match self.lexer.get_next_token() {
                Ok(Token::TripleDelimiter) => {
                    return Ok(triples);
                },
                Ok(Token::PredicateListDelimiter) => {
                    let (next_predicate, object) = self.read_predicate_with_object(graph)?;
                    triples.push(Triple::new(&subject, &next_predicate, &object));
                    predicate = next_predicate;
                    assert(views(triples@) =~= before.push(
                        TripleView { subject: subject@, predicate: predicate@, object: object@ },
                    ));
                },
                Ok(Token::ObjectListDelimiter) => {
                    let object = self.read_object(graph)?;
                    triples.push(Triple::new(&subject, &predicate, &object));
                    assert(views(triples@) =~= before.push(
                        TripleView { subject: subject@, predicate: predicate@, object: object@ },
                    ));
                },
                Ok(_) => {
                    return Err(
                        Error::new(
                            ErrorType::InvalidReaderInput,
                            "Invalid token while parsing Turtle triples.",
                        ),
                    );
                },
                Err(e) => {
                    return Err(fail_at_delimiter(e, "Invalid token while parsing Turtle triples."));
                },
            }
        }
    }

    /// Get the next token and check if it is a valid subject and create a new subject node.
    pub fn read_subject(&mut self, graph: &Graph) -> (r: Result<Node, Error>)
        requires
            old(self).wf(),
        ensures
            final(self).wf(),
            final(self).source() == old(self).source().get(Syntax::Turtle).1,
            told(r) == subject_node(graph@, old(self).source().get(Syntax::Turtle).0),
            r matches Ok(node) ==> node@.is_subject(),
    {
        match self.lexer.get_next_token() {
            Ok(Token::BlankNode(id)) => Ok(Node::BlankNode { id }),
            Ok(Token::QName(prefix, path)) => resolve(graph, &prefix, &path),
            Ok(Token::Uri(uri)) => Ok(Node::UriNode { uri: Uri::new(uri) }),
            Ok(_) => Err(Error::new(ErrorType::InvalidToken, "Invalid token for Turtle subject.")),
            Err(e) => Err(fail_inside_statement(e, "Invalid token for Turtle subject.")),
        }
    }

    /// Get the next token and check if it is a valid predicate and create a new predicate node.
    pub fn read_predicate(&mut self, graph: &Graph) -> (r: Result<Node, Error>)
        requires
            old(self).wf(),
        ensures
            final(self).wf(),
            final(self).source() == old(self).source().get(Syntax::Turtle).1,
            told(r) == predicate_node(graph@, old(self).source().get(Syntax::Turtle).0),
            r matches Ok(node) ==> node@.is_predicate(),
    {
        match self.lexer.get_next_token() {
            Ok(Token::Uri(uri)) => Ok(Node::UriNode { uri: Uri::new(uri) }),
            Ok(Token::QName(prefix, path)) => resolve(graph, &prefix, &path),
            Ok(_) => Err(
                Error::new(ErrorType::InvalidToken, "Invalid token for Turtle predicate."),
            ),
            Err(e) => Err(fail_inside_statement(e, "Invalid token for Turtle predicate.")),
        }
    }

    /// Reads a predicate and the object that follows it.
    pub fn read_predicate_with_object(&mut self, graph: &Graph) -> (r: Result<(Node, Node), Error>)
        requires
            old(self).wf(),
        ensures
            final(self).wf(),
            final(self).source() == predicate_with_object(graph@, old(self).source()).1,
            match predicate_with_object(graph@, old(self).source()).0 {
                Ok((predicate, object)) => r matches Ok(pair) && pair.0@ == predicate && pair.1@
                    == object && predicate.is_predicate() && object.is_object(),
                Err(error) => r matches Err(e) && e@ == error,
            },
    {
        let predicate = self.read_predicate(graph)?;
        let object = self.read_object(graph)?;
        Ok((predicate, object))
    }

    /// Get the next token and check if it is a valid object and create a new object node.
    pub fn read_object(&mut self, graph: &Graph) -> (r: Result<Node, Error>)
        requires
            old(self).wf(),
        ensures
            final(self).wf(),
            final(self).source() == old(self).source().get(Syntax::Turtle).1,
            told(r) == object_node(graph@, old(self).source().get(Syntax::Turtle).0),
            r matches Ok(node) ==> node@.is_object(),
    {
        match self.lexer.get_next_token() {
            Ok(Token::BlankNode(id)) => Ok(Node::BlankNode { id }),
            Ok(Token::Uri(uri)) => Ok(Node::UriNode { uri: Uri::new(uri) }),
            Ok(Token::QName(prefix, path)) => resolve(graph, &prefix, &path),
            Ok(Token::LiteralWithLanguageSpecification(literal, lang)) => Ok(
                Node::LiteralNode { literal, data_type: None, language: Some(lang) },
            ),
            Ok(Token::LiteralWithUrlDatatype(literal, datatype)) => Ok(
                Node::LiteralNode {
                    literal,
                    data_type: Some(Uri::new(datatype)),
                    language: None,
                },
            ),
            Ok(Token::Literal(literal)) => Ok(
                Node::LiteralNode { literal, data_type: None, language: None },
            ),
            Ok(_) => Err(Error::new(ErrorType::InvalidToken, "Invalid token for Turtle object.")),
            Err(e) => Err(fail_inside_statement(e, "Invalid token for Turtle object.")),
        }
    }
}

} // verus!

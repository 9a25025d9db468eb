use crate::error::{Error, ErrorType, ErrorView};
use crate::graph::{Graph, GraphView};
use crate::node::Node;
use crate::reader::lexer::grammar::Syntax;
use crate::reader::lexer::n_triples_lexer::NTriplesLexer;
use crate::reader::lexer::rdf_lexer::{RdfLexer, SourceView, lemma_get_advances};
use crate::reader::lexer::token::Token;
use crate::reader::n_triples_syntax::{
    document, lemma_statement_advances, object_node, predicate_node, statement, subject_node,
};
use crate::reader::rdf_parser::{RdfParser, fail_at_delimiter, fail_inside_statement, told};
use crate::reader::text::decode_text;
use crate::triple::Triple;
use crate::uri::Uri;
use vstd::prelude::*;

verus! {

/// RDF parser to generate an RDF graph from N-Triples syntax.
#[derive(Debug)]
pub struct NTriplesParser {
    lexer: NTriplesLexer,
}

impl RdfParser for NTriplesParser {
    closed spec fn wf(&self) -> bool {
        self.lexer.wf()
    }

    closed spec fn source(&self) -> SourceView {
        self.lexer.source()
    }

    proof fn lemma_stands_in_text(&self) {
        self.lexer.lemma_stands_in_text();
    }

    open spec fn decoded(source: SourceView) -> (Result<GraphView, ErrorView>, SourceView) {
        document(source, GraphView::empty(None))
    }

    /// Generates an RDF graph from the N-Triples text that the parser was made with.
    ///
    /// Fails on input that is not N-Triples, and where a node is of a kind
    /// that its place in the statement does not admit.
    fn decode(&mut self) -> (r: Result<Graph, Error>)
        ensures
            (told(r), final(self).source()) == document(
                old(self).source(),
                GraphView::empty(None),
            ),
    {
        let mut graph = Graph::new(None);
        loop
            invariant
                self.wf(),
                document(self.source(), graph@) == document(
                    old(self).source(),
                    GraphView::empty(None),
                ),
            decreases self.source().left(),
        {
            proof {
                self.lemma_stands_in_text();
                lemma_get_advances(self.source(), Syntax::NTriples);
                lemma_statement_advances(self.source());
            }
            match self.lexer.peek_next_token() {
                Ok(Token::Comment(_)) => {
                    let _ = self.lexer.get_next_token();
                },
                Ok(Token::EndOfInput) => {
                    return Ok(graph);
                },
                Ok(_) => {
                    match self.read_triple() {
                        Ok(triple) => graph.add_triple(&triple),
                        Err(e) => {
                            return Err(e);
                        },
                    }
                },
                Err(e) => {
                    match *e.error_type() {
                        ErrorType::EndOfInput => {
                            return Ok(graph);
                        },
                        _ => {
                            return Err(e);
                        },
                    }
                },
            }
        }
    }
}

impl NTriplesParser {
    /// Constructor of `NTriplesParser` from input string.
    pub fn from_string(input: String) -> (parser: NTriplesParser)
        ensures
            parser.wf(),
            parser.source() == SourceView::start(input@),
    {
        NTriplesParser { lexer: NTriplesLexer::new(input.as_str()) }
    }

    /// Constructor of `NTriplesParser` from the bytes that an input source
    /// gave. Fails with `InvalidByteEncoding` where they are not UTF-8.
    pub fn from_reader(input: Vec<u8>) -> (made: Result<NTriplesParser, Error>)
        ensures
            match made {
                Ok(parser) => vstd::utf8::valid_utf8(input@) && parser.wf() && parser.source()
                    == SourceView::start(vstd::utf8::decode_utf8(input@)),
                Err(e) => !vstd::utf8::valid_utf8(input@) && e@ == (ErrorView {
                    kind: ErrorType::InvalidByteEncoding,
                    text: "The input is not UTF-8."@,
                }),
            },
    {
        match decode_text(input) {
            Some(text) => Ok(NTriplesParser::from_string(text)),
            None => Err(Error::new(ErrorType::InvalidByteEncoding, "The input is not UTF-8.")),
        }
    }

    /// Creates a triple from the parsed tokens.
    pub fn read_triple(&mut self) -> (r: Result<Triple, Error>)
        requires
            old(self).wf(),
        ensures
            final(self).wf(),
            (told(r), final(self).source()) == statement(old(self).source()),
            r matches Ok(triple) ==> triple@.wf(),
    {
        let subject = self.read_subject()?;
        let predicate = self.read_predicate()?;
        let object = self.read_object()?;
        match self.lexer.get_next_token() {
            Ok(Token::TripleDelimiter) => {},
            Ok(_) => {
                return Err(Error::new(ErrorType::InvalidReaderInput, "Expected triple delimiter."));
            },
            Err(e) => {
                return Err(fail_at_delimiter(e, "Expected triple delimiter."));
            },
        }
        Ok(Triple::new(&subject, &predicate, &object))
    }

    /// Get the next token and check if it is a valid subject and create a new subject node.
    pub fn read_subject(&mut self) -> (r: Result<Node, Error>)
        requires
            old(self).wf(),
        ensures
            final(self).wf(),
            final(self).source() == old(self).source().get(Syntax::NTriples).1,
            told(r) == subject_node(old(self).source().get(Syntax::NTriples).0),
            r matches Ok(node) ==> node@.is_subject(),
    {
        match self.lexer.get_next_token() {
            Ok(Token::BlankNode(id)) => Ok(Node::BlankNode { id }),
            Ok(Token::Uri(uri)) => Ok(Node::UriNode { uri: Uri::new(uri) }),
            Ok(_) => Err(Error::new(ErrorType::InvalidToken, "Invalid token for NTriples subject.")),
            Err(e) => Err(fail_inside_statement(e, "Invalid token for NTriples subject.")),
        }
    }

    /// Get the next token and check if it is a valid predicate and create a new predicate node.
    pub fn read_predicate(&mut self) -> (r: Result<Node, Error>)
        requires
            old(self).wf(),
        ensures
            final(self).wf(),
            final(self).source() == old(self).source().get(Syntax::NTriples).1,
            told(r) == predicate_node(old(self).source().get(Syntax::NTriples).0),
            r matches Ok(node) ==> node@.is_predicate(),
    {
        match self.lexer.get_next_token() {
            Ok(Token::Uri(uri)) => Ok(Node::UriNode { uri: Uri::new(uri) }),
            Ok(_) => Err(
                Error::new(ErrorType::InvalidToken, "Invalid token for NTriples predicate."),
            ),
            Err(e) => Err(fail_inside_statement(e, "Invalid token for NTriples predicate.")),
        }
    }

    /// Get the next token and check if it is a valid object and create a new object node.
    pub fn read_object(&mut self) -> (r: Result<Node, Error>)
        requires
            old(self).wf(),
        ensures
            final(self).wf(),
            final(self).source() == old(self).source().get(Syntax::NTriples).1,
            told(r) == object_node(old(self).source().get(Syntax::NTriples).0),
            r matches Ok(node) ==> node@.is_object(),
    {
        match self.lexer.get_next_token() {
            Ok(Token::BlankNode(id)) => Ok(Node::BlankNode { id }),
            Ok(Token::Uri(uri)) => Ok(Node::UriNode { uri: Uri::new(uri) }),
            Ok(Token::LiteralWithLanguageSpecification(literal, lang)) => Ok(
                Node::LiteralNode { literal, data_type: None, language: Some(lang) },
            ),
            Ok(Token::LiteralWithUrlDatatype(literal, datatype)) => Ok(
                Node::LiteralNode {
                    literal,
                    data_type: Some(Uri::new(datatype)),
                    language: None,
                },
            ),
            Ok(Token::Literal(literal)) => Ok(
                Node::LiteralNode { literal, data_type: None, language: None },
            ),
            Ok(_) => Err(Error::new(ErrorType::InvalidToken, "Invalid token for NTriples object.")),
            Err(e) => Err(fail_inside_statement(e, "Invalid token for NTriples object.")),
        }
    }
}

} // verus!

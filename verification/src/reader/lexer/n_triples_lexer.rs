use crate::error::Error;
use crate::reader::lexer::grammar::Syntax;
use crate::reader::lexer::rdf_lexer::{RdfLexer, SourceView, said};
use crate::reader::lexer::stream::TokenStream;
use crate::reader::lexer::token::Token;
use vstd::prelude::*;

verus! {

/// The lexer of N-Triples: URIs, blank nodes, literals, `.` and comments.
#[derive(Debug)]
pub struct NTriplesLexer {
    stream: TokenStream,
}

impl RdfLexer for NTriplesLexer {
    open spec fn syntax() -> Syntax {
        Syntax::NTriples
    }

    closed spec fn wf(&self) -> bool {
        self.stream.wf() && self.stream.syntax() == Syntax::NTriples
    }

    closed spec fn source(&self) -> SourceView {
        self.stream.source()
    }

    proof fn lemma_stands_in_text(&self) {
        self.stream.lemma_stands_in_text();
    }

    fn new(input: &str) -> (lexer: NTriplesLexer)
        ensures
            lexer.source() == SourceView::start(input@),
    {
        NTriplesLexer { stream: TokenStream::new(Syntax::NTriples, input) }
    }

    fn get_next_token(&mut self) -> (r: Result<Token, Error>)
        ensures
            (said(r), final(self).source()) == old(self).source().get(Syntax::NTriples),
    {
        self.stream.get_next_token()
    }

    fn peek_next_token(&mut self) -> (r: Result<Token, Error>)
        ensures
            (said(r), final(self).source()) == old(self).source().peek(Syntax::NTriples),
    {
        self.stream.peek_next_token()
    }
}

} // verus!

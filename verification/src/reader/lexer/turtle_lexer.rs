use crate::error::Error;
use crate::reader::lexer::grammar::Syntax;
use crate::reader::lexer::rdf_lexer::{RdfLexer, SourceView, said};
use crate::reader::lexer::stream::TokenStream;
use crate::reader::lexer::token::Token;
use vstd::prelude::*;

verus! {

/// The lexer of Turtle: what N-Triples has, and directives, qualified names,
/// the keyword `a` and the punctuation of lists and collections.
#[derive(Debug)]
pub struct TurtleLexer {
    stream: TokenStream,
}

impl RdfLexer for TurtleLexer {
    open spec fn syntax() -> Syntax {
        Syntax::Turtle
    }

    closed spec fn wf(&self) -> bool {
        self.stream.wf() && self.stream.syntax() == Syntax::Turtle
    }

    closed spec fn source(&self) -> SourceView {
        self.stream.source()
    }

    proof fn lemma_stands_in_text(&self) {
        self.stream.lemma_stands_in_text();
    }

    fn new(input: &str) -> (lexer: TurtleLexer)
        ensures
            lexer.source() == SourceView::start(input@),
    {
        TurtleLexer { stream: TokenStream::new(Syntax::Turtle, input) }
    }

    fn get_next_token(&mut self) -> (r: Result<Token, Error>)
        ensures
            (said(r), final(self).source()) == old(self).source().get(Syntax::Turtle),
    {
        self.stream.get_next_token()
    }

    fn peek_next_token(&mut self) -> (r: Result<Token, Error>)
        ensures
            (said(r), final(self).source()) == old(self).source().peek(Syntax::Turtle),
    {
        self.stream.peek_next_token()
    }
}

} // verus!

//! The state that both lexers keep: the characters, the place of the next
//! token, and at most one token that was read ahead.

use crate::error::{Error, ErrorType};
use crate::reader::lexer::grammar::{Syntax, lemma_token_advances, token_at};
use crate::reader::lexer::rdf_lexer::{SourceView, said};
use crate::reader::lexer::scan::to_chars;
use crate::reader::lexer::token::Token;
use crate::reader::lexer::tokenizer::{agrees, lex_at};
use vstd::prelude::*;

verus! {

/// A cursor over the characters of a text that reads tokens of one syntax.
#[derive(Debug)]
pub struct TokenStream {
    syntax: Syntax,
    chars: Vec<char>,
    /// The index at which the next token is looked for.
    position: usize,
    /// Whether the token that ends the input has been handed out.
    exhausted: bool,
    /// The token at `position`, if it was read ahead, and the index behind it.
    peeked: Option<(Token, usize)>,
}

impl TokenStream {
    pub closed spec fn wf(&self) -> bool {
        &&& self.position <= self.chars.len()
        &&& self.exhausted ==> self.position == self.chars.len() && self.peeked is None
        &&& self.peeked matches Some((token, next)) ==> agrees(
            Ok((token, next)),
            token_at(self.syntax, self.chars@, self.position as int),
            self.chars@.len(),
        )
    }

    pub closed spec fn syntax(&self) -> Syntax {
        self.syntax
    }

    pub closed spec fn source(&self) -> SourceView {
        SourceView {
            input: self.chars@,
            cursor: self.position + if self.exhausted {
                1int
            } else {
                0int
            },
        }
    }

    /// A well-formed stream stands at a place of its text.
    pub proof fn lemma_stands_in_text(&self)
        requires
            self.wf(),
        ensures
            self.source().wf(),
    {
    }

    /// A stream at the start of `input`.
    pub fn new(syntax: Syntax, input: &str) -> (stream: TokenStream)
        ensures
            stream.wf(),
            stream.syntax() == syntax,
            stream.source() == SourceView::start(input@),
    {
        TokenStream { syntax, chars: to_chars(input), position: 0, exhausted: false, peeked: None }
    }

    /// Hands out the next token and moves behind it.
    pub fn get_next_token(&mut self) -> (r: Result<Token, Error>)
        requires
            old(self).wf(),
        ensures
            final(self).wf(),
            final(self).syntax() == old(self).syntax(),
            (said(r), final(self).source()) == old(self).source().get(old(self).syntax()),
    {
        if self.exhausted {
            return Err(Error::new(ErrorType::EndOfInput, "The input has been read to its end."));
        }
        proof {
            lemma_token_advances(self.syntax, self.chars@, self.position as int);
        }
        let read = match self.peeked.take() {
            Some(read) => Ok(read),
            None => lex_at(self.syntax, &self.chars, self.position),
        };
        match read {
            Ok((token, next)) => {
                self.position = next;
                if let Token::EndOfInput = token {
                    self.exhausted = true;
                }
                Ok(token)
            },
            Err(e) => Err(e),
        }
    }

    /// Hands out the next token and stays before it.
    pub fn peek_next_token(&mut self) -> (r: Result<Token, Error>)
        requires
            old(self).wf(),
        ensures
            final(self).wf(),
            final(self).syntax() == old(self).syntax(),
            (said(r), final(self).source()) == old(self).source().peek(old(self).syntax()),
    {
        if self.exhausted {
            return Err(Error::new(ErrorType::EndOfInput, "The input has been read to its end."));
        }
        if let Some((token, _)) = &self.peeked {
            return Ok(token.clone());
        }
        match lex_at(self.syntax, &self.chars, self.position) {
            Ok((token, next)) => {
                let copy = token.clone();
                self.peeked = Some((token, next));
                Ok(copy)
            },
            Err(e) => Err(e),
        }
    }
}

} // verus!

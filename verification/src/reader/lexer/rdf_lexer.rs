//! What every lexer offers: a look at the next token, and the next token itself.

use crate::error::{Error, ErrorView};
use crate::reader::lexer::grammar::{Lexed, Syntax, lemma_token_advances, next_token};
use crate::reader::lexer::token::{Token, TokenView};
use vstd::prelude::*;

verus! {

/// Where a lexer stands: the text it reads and the place of its next token.
/// The place behind the token that ends the input is one beyond the text.
pub struct SourceView {
    pub input: Seq<char>,
    pub cursor: int,
}

/// What a request hands to the caller: the token, or the failure.
pub open spec fn handed(lexed: Lexed) -> Result<TokenView, ErrorView> {
    match lexed {
        Lexed::Found { token, .. } => Ok(token),
        Lexed::Failed { error } => Err(error),
    }
}

/// What a result says: the token, or the failure with its kind and message.
pub open spec fn said(r: Result<Token, Error>) -> Result<TokenView, ErrorView> {
    match r {
        Ok(token) => Ok(token@),
        Err(e) => Err(e@),
    }
}

impl SourceView {
    /// The start of `input`.
    pub open spec fn start(input: Seq<char>) -> SourceView {
        SourceView { input, cursor: 0 }
    }

    /// The cursor stands in the text, at its end, or behind the token that ends it.
    pub open spec fn wf(self) -> bool {
        0 <= self.cursor <= self.input.len() + 1
    }

    /// What the grammar finds at the cursor.
    pub open spec fn lexed(self, syntax: Syntax) -> Lexed {
        next_token(syntax, self.input, self.cursor)
    }

    /// The same text with the cursor at `cursor`.
    pub open spec fn at(self, cursor: int) -> SourceView {
        SourceView { cursor, ..self }
    }

    /// A look at the next token: what comes back, and where the lexer stands then.
    pub open spec fn peek(self, syntax: Syntax) -> (Result<TokenView, ErrorView>, SourceView) {
        (handed(self.lexed(syntax)), self)
    }

    /// A request for the next token: what comes back, and where the lexer
    /// stands then. It stands behind the token, or where it stood if there is none.
    pub open spec fn get(self, syntax: Syntax) -> (Result<TokenView, ErrorView>, SourceView) {
        (
            handed(self.lexed(syntax)),
            match self.lexed(syntax) {
                Lexed::Found { next, .. } => self.at(next),
                Lexed::Failed { .. } => self,
            },
        )
    }

    /// How much is left to read: it shrinks with every token.
    pub open spec fn left(self) -> int {
        self.input.len() + 1 - self.cursor
    }
}

/// A lexer turns a text into tokens, one at a time, and lets its caller look
/// at the next token before taking it.
pub trait RdfLexer: Sized {
    /// The syntax that the lexer reads.
    spec fn syntax() -> Syntax;

    /// The lexer's own invariant.
    spec fn wf(&self) -> bool;

    /// Where the lexer stands.
    spec fn source(&self) -> SourceView;

    /// A well-formed lexer stands at a place of its text.
    proof fn lemma_stands_in_text(&self)
        requires
            self.wf(),
        ensures
            self.source().wf(),
    ;

    /// A lexer at the start of `input`.
    fn new(input: &str) -> (lexer: Self)
        ensures
            lexer.wf(),
            lexer.source() == SourceView::start(input@),
    ;

    /// Hands out the next token and moves behind it.
    fn get_next_token(&mut self) -> (r: Result<Token, Error>)
        requires
            old(self).wf(),
        ensures
            final(self).wf(),
            (said(r), final(self).source()) == old(self).source().get(Self::syntax()),
    ;

    /// Hands out the next token and stays before it.
    fn peek_next_token(&mut self) -> (r: Result<Token, Error>)
        requires
            old(self).wf(),
        ensures
            final(self).wf(),
            (said(r), final(self).source()) == old(self).source().peek(Self::syntax()),
    ;
}

/// Looking at the next token changes nothing: a second look hands out the
/// same token, and so does the request that follows.
pub proof fn lemma_peek_is_idempotent(source: SourceView, syntax: Syntax)
    ensures
        source.peek(syntax).1 == source,
        source.peek(syntax).1.peek(syntax) == source.peek(syntax),
        source.peek(syntax).1.get(syntax).0 == source.peek(syntax).0,
{
}

/// A request that hands out a token leaves less to read, and the lexer stays
/// well formed whatever it hands out.
pub proof fn lemma_get_advances(source: SourceView, syntax: Syntax)
    requires
        source.wf(),
    ensures
        source.get(syntax).1.wf(),
        source.get(syntax).1.input == source.input,
        source.get(syntax).0 is Ok ==> source.get(syntax).1.left() < source.left(),
        source.get(syntax).0 is Err ==> source.get(syntax).1 == source,
{
    if source.cursor <= source.input.len() {
        lemma_token_advances(syntax, source.input, source.cursor);
    }
}

/// Whether the lexer, asked again and again from `source` on, hands out
/// `tokens` one after the other.
pub open spec fn yields(source: SourceView, syntax: Syntax, tokens: Seq<TokenView>) -> bool
    decreases tokens.len(),
{
    tokens.len() > 0 ==> {
        &&& source.get(syntax).0 == Ok::<TokenView, ErrorView>(tokens[0])
        &&& yields(source.get(syntax).1, syntax, tokens.drop_first())
    }
}

/// Where the lexer stands after `n` requests from `source` on.
pub open spec fn behind(source: SourceView, syntax: Syntax, n: nat) -> SourceView
    decreases n,
{
    if n == 0 {
        source
    } else {
        behind(source.get(syntax).1, syntax, (n - 1) as nat)
    }
}

/// However often it is asked, a lexer stays well formed.
pub proof fn lemma_behind_wf(source: SourceView, syntax: Syntax, n: nat)
    requires
        source.wf(),
    ensures
        behind(source, syntax, n).wf(),
    decreases n,
{
    if n > 0 {
        lemma_get_advances(source, syntax);
        lemma_behind_wf(source.get(syntax).1, syntax, (n - 1) as nat);
    }
}

/// A lexer hands out two runs of tokens in a row exactly if it hands out the
/// first, and then, from behind the first, the second.
pub proof fn lemma_yields_concat(
    source: SourceView,
    syntax: Syntax,
    first: Seq<TokenView>,
    second: Seq<TokenView>,
)
    ensures
        yields(source, syntax, first + second) <==> yields(source, syntax, first) && yields(
            behind(source, syntax, first.len()),
            syntax,
            second,
        ),
    decreases first.len(),
{
    if first.len() == 0 {
        assert(first + second =~= second);
    } else {
        assert((first + second).drop_first() =~= first.drop_first() + second);
        lemma_yields_concat(source.get(syntax).1, syntax, first.drop_first(), second);
    }
}

/// The first of the tokens that a lexer hands out is the one that a look
/// ahead shows and that a request brings.
pub proof fn lemma_yields_first(source: SourceView, syntax: Syntax, tokens: Seq<TokenView>)
    requires
        yields(source, syntax, tokens),
        tokens.len() > 0,
    ensures
        source.peek(syntax).0 == Ok::<TokenView, ErrorView>(tokens[0]),
        source.get(syntax).0 == Ok::<TokenView, ErrorView>(tokens[0]),
        yields(source.get(syntax).1, syntax, tokens.drop_first()),
        behind(source, syntax, tokens.len()) == behind(
            source.get(syntax).1,
            syntax,
            tokens.drop_first().len(),
        ),
{
}

/// Asking `m` times and then `n` times leaves a lexer where asking `m + n`
/// times leaves it.
pub proof fn lemma_behind_add(source: SourceView, syntax: Syntax, m: nat, n: nat)
    ensures
        behind(source, syntax, m + n) == behind(behind(source, syntax, m), syntax, n),
    decreases m,
{
    if m > 0 {
        lemma_behind_add(source.get(syntax).1, syntax, (m - 1) as nat, n);
    }
}

} // verus!

//! What every parser offers: one pass over its input that ends in a graph or
//! in the first failure.

use crate::error::{Error, ErrorType, ErrorView};
use crate::graph::{Graph, GraphView};
use crate::reader::lexer::rdf_lexer::SourceView;
use vstd::prelude::*;

verus! {

/// What a result says: the view of the value, or the failure with its kind
/// and message.
pub open spec fn told<T: View>(r: Result<T, Error>) -> Result<T::V, ErrorView> {
    match r {
        Ok(value) => Ok(value@),
        Err(e) => Err(e@),
    }
}

/// The failure that a statement ends in when the lexer fails with `error` in
/// the middle of it. Inside a statement the end of the input is a token of
/// the wrong kind like any other, and the failure says so with `message`;
/// every other failure of the lexer stays what it is, kind and message.
pub open spec fn inside_statement(error: ErrorView, message: Seq<char>) -> ErrorView {
    if error.kind is EndOfInput {
        ErrorView { kind: ErrorType::InvalidToken, text: message }
    } else {
        error
    }
}

/// The same for the place where a statement's delimiter is due: there the end
/// of the input is a missing delimiter.
pub open spec fn at_delimiter(error: ErrorView, message: Seq<char>) -> ErrorView {
    if error.kind is EndOfInput {
        ErrorView { kind: ErrorType::InvalidReaderInput, text: message }
    } else {
        error
    }
}

/// The failure that a statement ends in when the lexer fails with `e` in the
/// middle of it.
pub fn fail_inside_statement(e: Error, message: &str) -> (failure: Error)
    ensures
        failure@ == inside_statement(e@, message@),
{
    match *e.error_type() {
        ErrorType::EndOfInput => Error::new(ErrorType::InvalidToken, message),
        _ => e,
    }
}

/// The failure that a statement ends in when the lexer fails with `e` where
/// the statement's delimiter is due.
pub fn fail_at_delimiter(e: Error, message: &str) -> (failure: Error)
    ensures
        failure@ == at_delimiter(e@, message@),
{
    match *e.error_type() {
        ErrorType::EndOfInput => Error::new(ErrorType::InvalidReaderInput, message),
        _ => e,
    }
}

/// A parser reads a whole document into a graph.
pub trait RdfParser: Sized {
    /// The parser's own invariant.
    spec fn wf(&self) -> bool;

    /// Where the parser's lexer stands.
    spec fn source(&self) -> SourceView;

    /// A well-formed parser stands at a place of its text.
    proof fn lemma_stands_in_text(&self)
        requires
            self.wf(),
        ensures
            self.source().wf(),
    ;

    /// What the grammar makes of the text from `source` on: the graph or the
    /// first failure, and the place where reading stopped.
    spec fn decoded(source: SourceView) -> (Result<GraphView, ErrorView>, SourceView);

    /// Reads the input to its end and returns the graph of its statements, or
    /// the first failure. Nothing is kept of a document that fails.
    fn decode(&mut self) -> (r: Result<Graph, Error>)
        requires
            old(self).wf(),
        ensures
            final(self).wf(),
            (told(r), final(self).source()) == Self::decoded(old(self).source()),
    ;
}

} // verus!

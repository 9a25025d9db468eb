use vstd::prelude::*;

verus! {

/// The kinds of failure that reading RDF text can end in.
#[derive(Debug, Clone, Copy, PartialEq, Eq, Structural)]
pub enum ErrorType {
    /// The input was exhausted before the request and nothing is left to hand out.
    EndOfInput,
    /// A token of the wrong kind stands in a position of the grammar.
    InvalidToken,
    /// The statement as a whole breaks the syntax, for instance by a missing delimiter.
    InvalidReaderInput,
    /// The characters starting at offset `at` form no token.
    MalformedInput { at: usize },
    /// The bytes handed to a constructor are not UTF-8.
    InvalidByteEncoding,
    /// A qualified name uses a prefix that no directive has declared.
    UndefinedPrefix,
}

/// A failure: its kind, and a sentence for the human reader.
#[derive(Debug)]
pub struct Error {
    error_type: ErrorType,
    message: String,
}

/// What an error says: its kind and its message.
pub struct ErrorView {
    pub kind: ErrorType,
    pub text: Seq<char>,
}

impl View for Error {
    type V = ErrorView;

    open spec fn view(&self) -> ErrorView {
        ErrorView { kind: self.kind(), text: self.text() }
    }
}

impl Error {
    pub closed spec fn kind(&self) -> ErrorType {
        self.error_type
    }

    pub closed spec fn text(&self) -> Seq<char> {
        self.message@
    }

    /// Builds an error of the given kind with the given message.
    pub fn new(error_type: ErrorType, message: &str) -> (e: Error)
        ensures
            e@ == (ErrorView { kind: error_type, text: message@ }),
    {
        Error { error_type, message: message.to_owned() }
    }

    /// The kind of this error.
    pub fn error_type(&self) -> (kind: &ErrorType)
        ensures
            *kind == self@.kind,
    {
        &self.error_type
    }

    /// The message of this error.
    pub fn to_string(&self) -> (s: String)
        ensures
            s@ == self@.text,
    {
        self.message.clone()
    }
}

} // verus!

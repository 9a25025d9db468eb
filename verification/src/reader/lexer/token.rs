use vstd::prelude::*;

verus! {

/// Tokens are produced by the RDF lexers.
#[derive(Debug, PartialEq, Eq)]
pub enum Token {
    /// The text of a comment, without the `#` and the blanks after it.
    Comment(String),
    /// A plain literal.
    Literal(String),
    /// A literal and the URI of its datatype.
    LiteralWithUrlDatatype(String, String),
    /// A literal, then prefix and path of the qualified name of its datatype.
    LiteralWithQNameDatatype(String, String, String),
    /// A literal and its language tag.
    LiteralWithLanguageSpecification(String, String),
    /// An absolute URI.
    Uri(String),
    /// The label of a blank node.
    BlankNode(String),
    /// `.`
    TripleDelimiter,
    /// A prefix directive: the prefix and the URI it stands for.
    PrefixDirective(String, String),
    /// A base directive: the base URI.
    BaseDirective(String),
    /// A qualified name: prefix and path.
    QName(String, String),
    /// A prefix with its colon and nothing behind it.
    Prefix(String),
    /// The keyword `a`.
    KeywordA,
    /// `;`
    PredicateListDelimiter,
    /// `,`
    ObjectListDelimiter,
    /// `(`
    CollectionStart,
    /// `)`
    CollectionEnd,
    /// `[`
    UnlabeledBlankNodeStart,
    /// `]`
    UnlabeledBlankNodeEnd,
    /// The end of the input.
    EndOfInput,
}

/// What a token says, with every text as a sequence of characters.
pub enum TokenView {
    Comment(Seq<char>),
    Literal(Seq<char>),
    LiteralWithUrlDatatype(Seq<char>, Seq<char>),
    LiteralWithQNameDatatype(Seq<char>, Seq<char>, Seq<char>),
    LiteralWithLanguageSpecification(Seq<char>, Seq<char>),
    Uri(Seq<char>),
    BlankNode(Seq<char>),
    TripleDelimiter,
    PrefixDirective(Seq<char>, Seq<char>),
    BaseDirective(Seq<char>),
    QName(Seq<char>, Seq<char>),
    Prefix(Seq<char>),
    KeywordA,
    PredicateListDelimiter,
    ObjectListDelimiter,
    CollectionStart,
    CollectionEnd,
    UnlabeledBlankNodeStart,
    UnlabeledBlankNodeEnd,
    EndOfInput,
}

impl View for Token {
    type V = TokenView;

    open spec fn view(&self) -> TokenView {
        match self {
            Token::Comment(text) => TokenView::Comment(text@),
            Token::Literal(text) => TokenView::Literal(text@),
            Token::LiteralWithUrlDatatype(text, uri) => TokenView::LiteralWithUrlDatatype(
                text@,
                uri@,
            ),
            Token::LiteralWithQNameDatatype(text, prefix, path) => {
                TokenView::LiteralWithQNameDatatype(text@, prefix@, path@)
            },
            Token::LiteralWithLanguageSpecification(text, language) => {
                TokenView::LiteralWithLanguageSpecification(text@, language@)
            },
            Token::Uri(uri) => TokenView::Uri(uri@),
            Token::BlankNode(label) => TokenView::BlankNode(label@),
            Token::TripleDelimiter => TokenView::TripleDelimiter,
            Token::PrefixDirective(prefix, uri) => TokenView::PrefixDirective(prefix@, uri@),
            Token::BaseDirective(uri) => TokenView::BaseDirective(uri@),
            Token::QName(prefix, path) => TokenView::QName(prefix@, path@),
            Token::Prefix(prefix) => TokenView::Prefix(prefix@),
            Token::KeywordA => TokenView::KeywordA,
            Token::PredicateListDelimiter => TokenView::PredicateListDelimiter,
            Token::ObjectListDelimiter => TokenView::ObjectListDelimiter,
            Token::CollectionStart => TokenView::CollectionStart,
            Token::CollectionEnd => TokenView::CollectionEnd,
            Token::UnlabeledBlankNodeStart => TokenView::UnlabeledBlankNodeStart,
            Token::UnlabeledBlankNodeEnd => TokenView::UnlabeledBlankNodeEnd,
            Token::EndOfInput => TokenView::EndOfInput,
        }
    }
}

impl Clone for Token {
    /// A copy that says the same.
    fn clone(&self) -> (copy: Token)
        ensures
            copy@ == self@,
    {
        match self {
            Token::Comment(text) => Token::Comment(text.clone()),
            Token::Literal(text) => Token::Literal(text.clone()),
            Token::LiteralWithUrlDatatype(text, uri) => Token::LiteralWithUrlDatatype(
                text.clone(),
                uri.clone(),
            ),
            Token::LiteralWithQNameDatatype(text, prefix, path) => {
                Token::LiteralWithQNameDatatype(text.clone(), prefix.clone(), path.clone())
            },
            Token::LiteralWithLanguageSpecification(text, language) => {
                Token::LiteralWithLanguageSpecification(text.clone(), language.clone())
            },
            Token::Uri(uri) => Token::Uri(uri.clone()),
            Token::BlankNode(label) => Token::BlankNode(label.clone()),
            Token::TripleDelimiter => Token::TripleDelimiter,
            Token::PrefixDirective(prefix, uri) => Token::PrefixDirective(
                prefix.clone(),
                uri.clone(),
            ),
            Token::BaseDirective(uri) => Token::BaseDirective(uri.clone()),
            Token::QName(prefix, path) => Token::QName(prefix.clone(), path.clone()),
            Token::Prefix(prefix) => Token::Prefix(prefix.clone()),
            Token::KeywordA => Token::KeywordA,
            Token::PredicateListDelimiter => Token::PredicateListDelimiter,
            Token::ObjectListDelimiter => Token::ObjectListDelimiter,
            Token::CollectionStart => Token::CollectionStart,
            Token::CollectionEnd => Token::CollectionEnd,
            Token::UnlabeledBlankNodeStart => Token::UnlabeledBlankNodeStart,
            Token::UnlabeledBlankNodeEnd => Token::UnlabeledBlankNodeEnd,
            Token::EndOfInput => Token::EndOfInput,
        }
    }
}

} // verus!

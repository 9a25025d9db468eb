//! The lexical grammar of N-Triples and Turtle: which token a text holds at a
//! given place, and where the text goes on behind it.

use crate::error::{ErrorType, ErrorView};
use crate::reader::lexer::scan::{
    CharClass, in_class, is_name_char, is_whitespace, lemma_literal_body, lemma_run_end,
    literal_body, run_end,
};
use crate::reader::lexer::token::TokenView;
use vstd::prelude::*;

verus! {

/// The two serializations that the lexers read.
#[derive(Debug, Clone, Copy, PartialEq, Eq, Structural)]
pub enum Syntax {
    NTriples,
    Turtle,
}

/// What a request for a token ends in.
pub enum Lexed {
    /// A token, and the place behind it.
    Found { token: TokenView, next: int },
    /// No token, and the failure that says why.
    Failed { error: ErrorView },
}

/// The failure of a lexer on the characters that begin at index `at`, with
/// the sentence that says what is wrong with them.
pub open spec fn malformed(at: int, text: Seq<char>) -> Lexed {
    Lexed::Failed {
        error: ErrorView { kind: ErrorType::MalformedInput { at: at as usize }, text },
    }
}

/// The failure of a request behind the token that ends the input.
pub open spec fn nothing_left() -> ErrorView {
    ErrorView { kind: ErrorType::EndOfInput, text: "The input has been read to its end."@ }
}

/// The URI between `<` at index `p` and the next `>`, and the index behind that `>`.
pub open spec fn delimited_uri(s: Seq<char>, p: int) -> Option<(Seq<char>, int)> {
    let e = run_end(s, p + 1, CharClass::UriBody);
    if 0 <= p < s.len() && s[p] == '<' && e < s.len() && s[e] == '>' {
        Some((s.subrange(p + 1, e), e + 1))
    } else {
        None
    }
}

/// The comment that `#` at index `p` begins: it runs to the end of the line.
pub open spec fn comment_at(s: Seq<char>, p: int) -> Lexed {
    let b = run_end(s, p + 1, CharClass::Indent);
    let e = run_end(s, b, CharClass::CommentBody);
    Lexed::Found { token: TokenView::Comment(s.subrange(b, e)), next: e }
}

/// The URI token that `<` at index `p` begins.
pub open spec fn uri_at(s: Seq<char>, p: int) -> Lexed {
    match delimited_uri(s, p) {
        Some((uri, next)) => Lexed::Found { token: TokenView::Uri(uri), next },
        None => malformed(p, "A URI must end in '>' and hold no blank."@),
    }
}

/// The blank node that `_:` at index `p` begins: its label is the longest run
/// of name characters, and is not empty.
pub open spec fn blank_node_at(s: Seq<char>, p: int) -> Lexed {
    let e = run_end(s, p + 2, CharClass::Name);
    if e > p + 2 {
        Lexed::Found { token: TokenView::BlankNode(s.subrange(p + 2, e)), next: e }
    } else {
        malformed(p, "A blank node needs a label."@)
    }
}

/// The literal whose opening quote stands at index `p`, whose text is `text`
/// and whose datatype begins at index `k`, behind `^^`: a URI between `<` and
/// `>`, or in Turtle a qualified name.
pub open spec fn datatype_at(syntax: Syntax, s: Seq<char>, p: int, text: Seq<char>, k: int) -> Lexed {
    let e = run_end(s, k, CharClass::Name);
    let l = run_end(s, e + 1, CharClass::LocalName);
    if k < s.len() && s[k] == '<' {
        match delimited_uri(s, k) {
            Some((uri, next)) => Lexed::Found {
                token: TokenView::LiteralWithUrlDatatype(text, uri),
                next,
            },
            None => malformed(p, "The datatype of a literal must end in '>'."@),
        }
    } else if syntax is Turtle && e < s.len() && s[e] == ':' && l > e + 1 {
        Lexed::Found {
            token: TokenView::LiteralWithQNameDatatype(
                text,
                s.subrange(k, e),
                s.subrange(e + 1, l),
            ),
            next: l,
        }
    } else {
        malformed(p, "A literal needs a datatype behind '^^'."@)
    }
}

/// The literal whose opening quote stands at index `p`, with the language tag
/// or the datatype that follows its closing quote at once.
pub open spec fn literal_at(syntax: Syntax, s: Seq<char>, p: int) -> Lexed {
    match literal_body(s, p + 1) {
        None => malformed(p, "A literal must close on its line and escape with care."@),
        Some((text, q)) => {
            let e = run_end(s, q + 1, CharClass::Language);
            if q < s.len() && s[q] == '@' {
                if e > q + 1 {
                    Lexed::Found {
                        token: TokenView::LiteralWithLanguageSpecification(
                            text,
                            s.subrange(q + 1, e),
                        ),
                        next: e,
                    }
                } else {
                    malformed(p, "A literal needs a language tag behind '@'."@)
                }
            } else if q < s.len() && s[q] == '^' {
                if q + 1 < s.len() && s[q + 1] == '^' {
                    datatype_at(syntax, s, p, text, q + 2)
                } else {
                    malformed(p, "A literal needs '^^' before its datatype."@)
                }
            } else {
                Lexed::Found { token: TokenView::Literal(text), next: q }
            }
        },
    }
}

/// The token that a single character of Turtle's punctuation is.
pub open spec fn punctuation(c: char) -> Option<TokenView> {
    if c == ';' {
        Some(TokenView::PredicateListDelimiter)
    } else if c == ',' {
        Some(TokenView::ObjectListDelimiter)
    } else if c == '(' {
        Some(TokenView::CollectionStart)
    } else if c == ')' {
        Some(TokenView::CollectionEnd)
    } else if c == '[' {
        Some(TokenView::UnlabeledBlankNodeStart)
    } else if c == ']' {
        Some(TokenView::UnlabeledBlankNodeEnd)
    } else {
        None
    }
}

/// Whether `c` is the letter `lower`, or with `any_case` its capital `upper`.
pub open spec fn is_letter(c: char, lower: char, upper: char, any_case: bool) -> bool {
    c == lower || (any_case && c == upper)
}

/// Whether `word` spells `prefix`.
pub open spec fn is_prefix_word(word: Seq<char>, any_case: bool) -> bool {
    &&& word.len() == 6
    &&& is_letter(word[0], 'p', 'P', any_case)
    &&& is_letter(word[1], 'r', 'R', any_case)
    &&& is_letter(word[2], 'e', 'E', any_case)
    &&& is_letter(word[3], 'f', 'F', any_case)
    &&& is_letter(word[4], 'i', 'I', any_case)
    &&& is_letter(word[5], 'x', 'X', any_case)
}

/// Whether `word` spells `base`.
pub open spec fn is_base_word(word: Seq<char>, any_case: bool) -> bool {
    &&& word.len() == 4
    &&& is_letter(word[0], 'b', 'B', any_case)
    &&& is_letter(word[1], 'a', 'A', any_case)
    &&& is_letter(word[2], 's', 'S', any_case)
    &&& is_letter(word[3], 'e', 'E', any_case)
}

/// How a directive that began at index `p` ends, once its last part has been
/// read up to index `q`: a directive written with `@` needs a `.`, one
/// written as a bare keyword ends where it stands.
pub open spec fn directive_end(s: Seq<char>, p: int, token: TokenView, q: int, dotted: bool) -> Lexed {
    let d = run_end(s, q, CharClass::Whitespace);
    if !dotted {
        Lexed::Found { token, next: q }
    } else if d < s.len() && s[d] == '.' {
        Lexed::Found { token, next: d + 1 }
    } else {
        malformed(p, "A directive written with '@' must end in '.'."@)
    }
}

/// The prefix directive that began at index `p` and whose keyword ends at
/// index `k`: a prefix, which may be empty, with its colon, then a URI.
pub open spec fn prefix_directive_at(s: Seq<char>, p: int, k: int, dotted: bool) -> Lexed {
    let a = run_end(s, k, CharClass::Whitespace);
    let e = run_end(s, a, CharClass::Name);
    let u = run_end(s, e + 1, CharClass::Whitespace);
    if e < s.len() && s[e] == ':' {
        match delimited_uri(s, u) {
            Some((uri, q)) => directive_end(
                s,
                p,
                TokenView::PrefixDirective(s.subrange(a, e), uri),
                q,
                dotted,
            ),
            None => malformed(p, "A prefix directive needs a URI between '<' and '>'."@),
        }
    } else {
        malformed(p, "A prefix directive needs a prefix that ends in ':'."@)
    }
}

/// The base directive that began at index `p` and whose keyword ends at index `k`.
pub open spec fn base_directive_at(s: Seq<char>, p: int, k: int, dotted: bool) -> Lexed {
    let u = run_end(s, k, CharClass::Whitespace);
    match delimited_uri(s, u) {
        Some((uri, q)) => directive_end(s, p, TokenView::BaseDirective(uri), q, dotted),
        None => malformed(p, "A base directive needs a URI between '<' and '>'."@),
    }
}

/// The directive that `@` at index `p` begins.
pub open spec fn at_directive_at(s: Seq<char>, p: int) -> Lexed {
    let e = run_end(s, p + 1, CharClass::Name);
    let word = s.subrange(p + 1, e);
    if is_prefix_word(word, false) {
        prefix_directive_at(s, p, e, true)
    } else if is_base_word(word, false) {
        base_directive_at(s, p, e, true)
    } else {
        malformed(p, "Only 'prefix' and 'base' may follow '@'."@)
    }
}

/// The token that a name at index `p` begins. With a colon behind it the
/// name is a prefix: alone, or of a qualified name whose path is the longest
/// run that follows the colon. Without a colon it is a keyword.
pub open spec fn name_at(s: Seq<char>, p: int) -> Lexed {
    let e = run_end(s, p, CharClass::Name);
    let l = run_end(s, e + 1, CharClass::LocalName);
    let word = s.subrange(p, e);
    if e < s.len() && s[e] == ':' {
        if l > e + 1 {
            Lexed::Found { token: TokenView::QName(word, s.subrange(e + 1, l)), next: l }
        } else {
            Lexed::Found { token: TokenView::Prefix(word), next: e + 1 }
        }
    } else if word.len() == 1 && word[0] == 'a' {
        Lexed::Found { token: TokenView::KeywordA, next: e }
    } else if is_prefix_word(word, true) {
        prefix_directive_at(s, p, e, false)
    } else if is_base_word(word, true) {
        base_directive_at(s, p, e, false)
    } else {
        malformed(p, "A name must be a keyword or have a ':' behind it."@)
    }
}

/// The tokens that only Turtle has, for a character at index `p` that begins
/// none of the others.
pub open spec fn turtle_token_at(s: Seq<char>, p: int) -> Lexed {
    let c = s[p];
    if punctuation(c) is Some {
        Lexed::Found { token: punctuation(c)->0, next: p + 1 }
    } else if c == '@' {
        at_directive_at(s, p)
    } else if c == ':' || is_name_char(c) {
        name_at(s, p)
    } else {
        malformed(p, "No Turtle token begins with this character."@)
    }
}

/// The token that stands at index `from` or behind the whitespace there. The
/// end of the input is a token too, which stands behind the last character:
/// the place behind it is one further.
pub open spec fn token_at(syntax: Syntax, s: Seq<char>, from: int) -> Lexed {
    let p = run_end(s, from, CharClass::Whitespace);
    if p >= s.len() {
        Lexed::Found { token: TokenView::EndOfInput, next: s.len() as int + 1 }
    } else if s[p] == '#' {
        comment_at(s, p)
    } else if s[p] == '"' {
        literal_at(syntax, s, p)
    } else if s[p] == '<' {
        uri_at(s, p)
    } else if s[p] == '.' {
        Lexed::Found { token: TokenView::TripleDelimiter, next: p + 1 }
    } else if s[p] == '_' && p + 1 < s.len() && s[p + 1] == ':' {
        blank_node_at(s, p)
    } else if syntax is Turtle {
        turtle_token_at(s, p)
    } else {
        malformed(p, "No N-Triples token begins with this character."@)
    }
}

/// What a lexer that stands at `cursor` hands out next. Behind the token that
/// ends the input nothing is left, and the request fails with `EndOfInput`.
pub open spec fn next_token(syntax: Syntax, s: Seq<char>, cursor: int) -> Lexed {
    if 0 <= cursor <= s.len() {
        token_at(syntax, s, cursor)
    } else {
        Lexed::Failed { error: nothing_left() }
    }
}

/// A URI between `<` and `>` ends inside the input, behind its `<`.
pub proof fn lemma_delimited_uri(s: Seq<char>, p: int)
    requires
        0 <= p <= s.len(),
    ensures
        delimited_uri(s, p) matches Some((_, next)) ==> p + 1 < next <= s.len(),
{
    if p < s.len() {
        lemma_run_end(s, p + 1, CharClass::UriBody);
    }
}

/// Every token takes at least one character, and none but the end of the
/// input reaches beyond the last one.
pub proof fn lemma_token_advances(syntax: Syntax, s: Seq<char>, cursor: int)
    requires
        0 <= cursor <= s.len(),
    ensures
        next_token(syntax, s, cursor) matches Lexed::Found { token, next } ==> {
            &&& cursor < next <= s.len() + 1
            &&& token is EndOfInput <==> next == s.len() + 1
        },
{
    let p = run_end(s, cursor, CharClass::Whitespace);
    lemma_run_end(s, cursor, CharClass::Whitespace);
    if p < s.len() {
        lemma_run_end(s, p + 1, CharClass::Indent);
        lemma_run_end(s, run_end(s, p + 1, CharClass::Indent), CharClass::CommentBody);
        lemma_delimited_uri(s, p);
        lemma_literal_body(s, p + 1);
        if let Some((text, q)) = literal_body(s, p + 1) {
            if q < s.len() {
                lemma_run_end(s, q + 1, CharClass::Language);
                if q + 1 < s.len() {
                    lemma_delimited_uri(s, q + 2);
                    lemma_run_end(s, q + 2, CharClass::Name);
                    let e = run_end(s, q + 2, CharClass::Name);
                    if e < s.len() {
                        lemma_run_end(s, e + 1, CharClass::LocalName);
                    }
                }
            }
        }
        if p + 1 < s.len() {
            lemma_run_end(s, p + 2, CharClass::Name);
        }
        lemma_run_end(s, p, CharClass::Name);
        let e = run_end(s, p, CharClass::Name);
        if e < s.len() {
            lemma_run_end(s, e + 1, CharClass::LocalName);
        }
        lemma_directive_advances(s, p, e);
        lemma_run_end(s, p + 1, CharClass::Name);
        lemma_directive_advances(s, p, run_end(s, p + 1, CharClass::Name));
    }
}

/// A directive ends inside the input, behind its keyword.
pub proof fn lemma_directive_advances(s: Seq<char>, p: int, k: int)
    requires
        0 <= p <= k <= s.len(),
    ensures
        forall|dotted: bool| #[trigger]
            prefix_directive_at(s, p, k, dotted) matches Lexed::Found { next, .. } ==> k < next
                <= s.len(),
        forall|dotted: bool| #[trigger]
            base_directive_at(s, p, k, dotted) matches Lexed::Found { next, .. } ==> k < next
                <= s.len(),
{
    lemma_run_end(s, k, CharClass::Whitespace);
    let a = run_end(s, k, CharClass::Whitespace);
    lemma_run_end(s, a, CharClass::Name);
    let e = run_end(s, a, CharClass::Name);
    lemma_delimited_uri(s, a);
    if let Some((_, q)) = delimited_uri(s, a) {
        lemma_run_end(s, q, CharClass::Whitespace);
    }
    if e < s.len() {
        lemma_run_end(s, e + 1, CharClass::Whitespace);
        let u = run_end(s, e + 1, CharClass::Whitespace);
        lemma_delimited_uri(s, u);
        if let Some((_, q)) = delimited_uri(s, u) {
            lemma_run_end(s, q, CharClass::Whitespace);
        }
    }
}

/// Whether a token is one of those that N-Triples has.
pub open spec fn is_n_triples_token(token: TokenView) -> bool {
    ||| token is Comment
    ||| token is Literal
    ||| token is LiteralWithUrlDatatype
    ||| token is LiteralWithLanguageSpecification
    ||| token is Uri
    ||| token is BlankNode
    ||| token is TripleDelimiter
    ||| token is EndOfInput
}

/// The lexer of N-Triples knows no qualified names, directives, keywords or
/// punctuation of lists: where it finds a token, it is one of its own few.
pub proof fn lemma_n_triples_tokens(s: Seq<char>, cursor: int)
    ensures
        next_token(Syntax::NTriples, s, cursor) matches Lexed::Found { token, .. }
            ==> is_n_triples_token(token),
{
}

/// Turtle reads every token of N-Triples as N-Triples does.
pub proof fn lemma_turtle_extends_n_triples(s: Seq<char>, cursor: int)
    ensures
        next_token(Syntax::NTriples, s, cursor) is Found ==> next_token(Syntax::Turtle, s, cursor)
            == next_token(Syntax::NTriples, s, cursor),
{
}

/// A URI token says what stands in the text between `<` and the next `>`:
/// only whitespace precedes the `<`, and nothing in between is a character
/// that a URI cannot hold.
pub proof fn lemma_uri_token(syntax: Syntax, s: Seq<char>, cursor: int)
    requires
        0 <= cursor <= s.len(),
    ensures
        next_token(syntax, s, cursor) matches Lexed::Found { token: TokenView::Uri(uri), next }
            ==> {
            let open = next - uri.len() - 2;
            &&& cursor <= open < next <= s.len()
            &&& forall|i: int| cursor <= i < open ==> is_whitespace(#[trigger] s[i])
            &&& s[open] == '<'
            &&& s[next - 1] == '>'
            &&& uri == s.subrange(open + 1, next - 1)
            &&& forall|i: int| 0 <= i < uri.len() ==> in_class(CharClass::UriBody, #[trigger] uri[i])
        },
{
    let p = run_end(s, cursor, CharClass::Whitespace);
    lemma_run_end(s, cursor, CharClass::Whitespace);
    if p < s.len() {
        lemma_run_end(s, p + 1, CharClass::UriBody);
    }
}

/// A blank node token says what stands in the text behind `_:`: a label that
/// is not empty, holds only name characters, and ends where the text ends or
/// goes on with another character.
pub proof fn lemma_blank_node_token(syntax: Syntax, s: Seq<char>, cursor: int)
    requires
        0 <= cursor <= s.len(),
    ensures
        next_token(syntax, s, cursor) matches Lexed::Found {
            token: TokenView::BlankNode(label),
            next,
        } ==> {
            let start = next - label.len();
            &&& label.len() > 0
            &&& cursor + 2 <= start < next <= s.len()
            &&& forall|i: int| cursor <= i < start - 2 ==> is_whitespace(#[trigger] s[i])
            &&& s[start - 2] == '_'
            &&& s[start - 1] == ':'
            &&& label == s.subrange(start, next)
            &&& forall|i: int| 0 <= i < label.len() ==> is_name_char(#[trigger] label[i])
            &&& next < s.len() ==> !is_name_char(s[next])
        },
{
    let p = run_end(s, cursor, CharClass::Whitespace);
    lemma_run_end(s, cursor, CharClass::Whitespace);
    if p + 1 < s.len() {
        lemma_run_end(s, p + 2, CharClass::Name);
    }
}

/// A qualified name says what stands in the text on both sides of its first
/// colon: before it the prefix, of name characters only, behind it the path,
/// which is not empty and ends where the text ends or goes on with a
/// character that no path holds.
pub proof fn lemma_qname_token(s: Seq<char>, cursor: int)
    requires
        0 <= cursor <= s.len(),
    ensures
        next_token(Syntax::Turtle, s, cursor) matches Lexed::Found {
            token: TokenView::QName(prefix, path),
            next,
        } ==> {
            let colon = next - path.len() - 1;
            let start = colon - prefix.len();
            &&& path.len() > 0
            &&& cursor <= start <= colon < next <= s.len()
            &&& forall|i: int| cursor <= i < start ==> is_whitespace(#[trigger] s[i])
            &&& prefix == s.subrange(start, colon)
            &&& forall|i: int| 0 <= i < prefix.len() ==> is_name_char(#[trigger] prefix[i])
            &&& s[colon] == ':'
            &&& path == s.subrange(colon + 1, next)
            &&& forall|i: int|
                0 <= i < path.len() ==> in_class(CharClass::LocalName, #[trigger] path[i])
            &&& next < s.len() ==> !in_class(CharClass::LocalName, s[next])
        },
{
    let p = run_end(s, cursor, CharClass::Whitespace);
    lemma_run_end(s, cursor, CharClass::Whitespace);
    if p < s.len() {
        lemma_run_end(s, p, CharClass::Name);
        let e = run_end(s, p, CharClass::Name);
        if e < s.len() {
            lemma_run_end(s, e + 1, CharClass::LocalName);
        }
        lemma_run_end(s, p + 1, CharClass::Name);
        lemma_directive_advances(s, p, e);
        lemma_directive_advances(s, p, run_end(s, p + 1, CharClass::Name));
    }
}

} // verus!

//! Reading one token from a vector of characters, as the lexical grammar has it.

use crate::error::{Error, ErrorType, ErrorView};
use crate::reader::lexer::grammar::{
    Lexed, Syntax, at_directive_at, base_directive_at, blank_node_at, comment_at, datatype_at,
    delimited_uri, directive_end, is_base_word, is_letter, is_prefix_word, literal_at, name_at,
    prefix_directive_at, punctuation, token_at, turtle_token_at, uri_at,
};
use crate::reader::lexer::scan::{CharClass, belongs, copy_range, read_literal_body, scan_run};
use crate::reader::lexer::token::Token;
use vstd::prelude::*;

verus! {

/// Whether what the code read is what the grammar finds. The code, which
/// counts in `usize`, stays at the last index when it finds the end of the input.
pub open spec fn agrees(r: Result<(Token, usize), Error>, lexed: Lexed, len: nat) -> bool {
    match lexed {
        Lexed::Found { token, next } => r matches Ok((t, n)) && t@ == token && n == (if token
            is EndOfInput {
            len as int
        } else {
            next
        }),
        Lexed::Failed { error } => r matches Err(e) && e@ == error,
    }
}

fn malformed_at(p: usize, message: &str) -> (r: Result<(Token, usize), Error>)
    ensures
        r matches Err(e) && e@ == (ErrorView {
            kind: ErrorType::MalformedInput { at: p },
            text: message@,
        }),
{
    Err(Error::new(ErrorType::MalformedInput { at: p }, message))
}

fn read_delimited_uri(chars: &Vec<char>, p: usize) -> (r: Option<(String, usize)>)
    requires
        p <= chars.len(),
    ensures
        match delimited_uri(chars@, p as int) {
            Some((uri, next)) => r matches Some((u, n)) && u@ == uri && n == next,
            None => r is None,
        },
{
    if p < chars.len() && chars[p] == '<' {
        let e = scan_run(chars, p + 1, CharClass::UriBody);
        if e < chars.len() && chars[e] == '>' {
            return Some((copy_range(chars, p + 1, e), e + 1));
        }
    }
    None
}

fn read_comment(chars: &Vec<char>, p: usize) -> (r: Result<(Token, usize), Error>)
    requires
        p < chars.len(),
    ensures
        agrees(r, comment_at(chars@, p as int), chars@.len()),
{
    let b = scan_run(chars, p + 1, CharClass::Indent);
    let e = scan_run(chars, b, CharClass::CommentBody);
    Ok((Token::Comment(copy_range(chars, b, e)), e))
}

fn read_uri(chars: &Vec<char>, p: usize) -> (r: Result<(Token, usize), Error>)
    requires
        p < chars.len(),
    ensures
        agrees(r, uri_at(chars@, p as int), chars@.len()),
{
    match read_delimited_uri(chars, p) {
        Some((uri, next)) => Ok((Token::Uri(uri), next)),
        None => malformed_at(p, "A URI must end in '>' and hold no blank."),
    }
}

fn read_blank_node(chars: &Vec<char>, p: usize) -> (r: Result<(Token, usize), Error>)
    requires
        p + 1 < chars.len(),
    ensures
        agrees(r, blank_node_at(chars@, p as int), chars@.len()),
{
    let e = scan_run(chars, p + 2, CharClass::Name);
    if e > p + 2 {
        Ok((Token::BlankNode(copy_range(chars, p + 2, e)), e))
    } else {
        malformed_at(p, "A blank node needs a label.")
    }
}

fn read_datatype(syntax: Syntax, chars: &Vec<char>, p: usize, text: String, k: usize) -> (r: Result<
    (Token, usize),
    Error,
>)
    requires
        p < k <= chars.len(),
    ensures
        agrees(r, datatype_at(syntax, chars@, p as int, text@, k as int), chars@.len()),
{
    if k < chars.len() && chars[k] == '<' {
        return match read_delimited_uri(chars, k) {
            Some((uri, next)) => Ok((Token::LiteralWithUrlDatatype(text, uri), next)),
            None => malformed_at(p, "The datatype of a literal must end in '>'."),
        };
    }
    if let Syntax::Turtle = syntax {
        let e = scan_run(chars, k, CharClass::Name);
        if e < chars.len() && chars[e] == ':' {
            let l = scan_run(chars, e + 1, CharClass::LocalName);
            if l > e + 1 {
                let prefix = copy_range(chars, k, e);
                let path = copy_range(chars, e + 1, l);
                return Ok((Token::LiteralWithQNameDatatype(text, prefix, path), l));
            }
        }
    }
    malformed_at(p, "A literal needs a datatype behind '^^'.")
}

fn read_literal(syntax: Syntax, chars: &Vec<char>, p: usize) -> (r: Result<(Token, usize), Error>)
    requires
        p < chars.len(),
    ensures
        agrees(r, literal_at(syntax, chars@, p as int), chars@.len()),
{
    proof {
        crate::reader::lexer::scan::lemma_literal_body(chars@, p + 1);
    }
    match read_literal_body(chars, p + 1) {
        None => malformed_at(p, "A literal must close on its line and escape with care."),
        Some((text, q)) => {
            if q < chars.len() && chars[q] == '@' {
                let e = scan_run(chars, q + 1, CharClass::Language);
                if e > q + 1 {
                    let language = copy_range(chars, q + 1, e);
                    Ok((Token::LiteralWithLanguageSpecification(text, language), e))
                } else {
                    malformed_at(p, "A literal needs a language tag behind '@'.")
                }
            } else if q < chars.len() && chars[q] == '^' {
                if q + 1 < chars.len() && chars[q + 1] == '^' {
                    read_datatype(syntax, chars, p, text, q + 2)
                } else {
                    malformed_at(p, "A literal needs '^^' before its datatype.")
                }
            } else {
                Ok((Token::Literal(text), q))
            }
        },
    }
}

fn punctuation_token(c: char) -> (r: Option<Token>)
    ensures
        match punctuation(c) {
            Some(token) => r matches Some(t) && t@ == token,
            None => r is None,
        },
{
    if c == ';' {
        Some(Token::PredicateListDelimiter)
    } else if c == ',' {
        Some(Token::ObjectListDelimiter)
    } else if c == '(' {
        Some(Token::CollectionStart)
    } else if c == ')' {
        Some(Token::CollectionEnd)
    } else if c == '[' {
        Some(Token::UnlabeledBlankNodeStart)
    } else if c == ']' {
        Some(Token::UnlabeledBlankNodeEnd)
    } else {
        None
    }
}

fn letter(c: char, lower: char, upper: char, any_case: bool) -> (b: bool)
    ensures
        b == is_letter(c, lower, upper, any_case),
{
    c == lower || (any_case && c == upper)
}

fn spells_prefix(chars: &Vec<char>, from: usize, to: usize, any_case: bool) -> (b: bool)
    requires
        from <= to <= chars.len(),
    ensures
        b == is_prefix_word(chars@.subrange(from as int, to as int), any_case),
{
    to - from == 6 && letter(chars[from], 'p', 'P', any_case) && letter(
        chars[from + 1],
        'r',
        'R',
        any_case,
    ) && letter(chars[from + 2], 'e', 'E', any_case) && letter(
        chars[from + 3],
        'f',
        'F',
        any_case,
    ) && letter(chars[from + 4], 'i', 'I', any_case) && letter(
        chars[from + 5],
        'x',
        'X',
        any_case,
    )
}

fn spells_base(chars: &Vec<char>, from: usize, to: usize, any_case: bool) -> (b: bool)
    requires
        from <= to <= chars.len(),
    ensures
        b == is_base_word(chars@.subrange(from as int, to as int), any_case),
{
    to - from == 4 && letter(chars[from], 'b', 'B', any_case) && letter(
        chars[from + 1],
        'a',
        'A',
        any_case,
    ) && letter(chars[from + 2], 's', 'S', any_case) && letter(
        chars[from + 3],
        'e',
        'E',
        any_case,
    )
}

fn read_directive_end(chars: &Vec<char>, p: usize, token: Token, q: usize, dotted: bool) -> (r:
    Result<(Token, usize), Error>)
    requires
        q <= chars.len(),
        !(token@ is EndOfInput),
    ensures
        agrees(r, directive_end(chars@, p as int, token@, q as int, dotted), chars@.len()),
{
    if !dotted {
        return Ok((token, q));
    }
    let d = scan_run(chars, q, CharClass::Whitespace);
    if d < chars.len() && chars[d] == '.' {
        Ok((token, d + 1))
    } else {
        malformed_at(p, "A directive written with '@' must end in '.'.")
    }
}

fn read_prefix_directive(chars: &Vec<char>, p: usize, k: usize, dotted: bool) -> (r: Result<
    (Token, usize),
    Error,
>)
    requires
        k <= chars.len(),
    ensures
        agrees(r, prefix_directive_at(chars@, p as int, k as int, dotted), chars@.len()),
{
    let a = scan_run(chars, k, CharClass::Whitespace);
    let e = scan_run(chars, a, CharClass::Name);
    if e < chars.len() && chars[e] == ':' {
        let u = scan_run(chars, e + 1, CharClass::Whitespace);
        match read_delimited_uri(chars, u) {
            Some((uri, q)) => {
                proof {
                    crate::reader::lexer::grammar::lemma_delimited_uri(chars@, u as int);
                }
                let prefix = copy_range(chars, a, e);
                read_directive_end(chars, p, Token::PrefixDirective(prefix, uri), q, dotted)
            },
            None => malformed_at(p, "A prefix directive needs a URI between '<' and '>'."),
        }
    } else {
        malformed_at(p, "A prefix directive needs a prefix that ends in ':'.")
    }
}

fn read_base_directive(chars: &Vec<char>, p: usize, k: usize, dotted: bool) -> (r: Result<
    (Token, usize),
    Error,
>)
    requires
        k <= chars.len(),
    ensures
        agrees(r, base_directive_at(chars@, p as int, k as int, dotted), chars@.len()),
{
    let u = scan_run(chars, k, CharClass::Whitespace);
    match read_delimited_uri(chars, u) {
        Some((uri, q)) => {
            proof {
                crate::reader::lexer::grammar::lemma_delimited_uri(chars@, u as int);
            }
            read_directive_end(chars, p, Token::BaseDirective(uri), q, dotted)
        },
        None => malformed_at(p, "A base directive needs a URI between '<' and '>'."),
    }
}

fn read_at_directive(chars: &Vec<char>, p: usize) -> (r: Result<(Token, usize), Error>)
    requires
        p < chars.len(),
    ensures
        agrees(r, at_directive_at(chars@, p as int), chars@.len()),
{
    let e = scan_run(chars, p + 1, CharClass::Name);
    if spells_prefix(chars, p + 1, e, false) {
        read_prefix_directive(chars, p, e, true)
    } else if spells_base(chars, p + 1, e, false) {
        read_base_directive(chars, p, e, true)
    } else {
        malformed_at(p, "Only 'prefix' and 'base' may follow '@'.")
    }
}

fn read_name(chars: &Vec<char>, p: usize) -> (r: Result<(Token, usize), Error>)
    requires
        p < chars.len(),
    ensures
        agrees(r, name_at(chars@, p as int), chars@.len()),
{
    let e = scan_run(chars, p, CharClass::Name);
    if e < chars.len() && chars[e] == ':' {
        let l = scan_run(chars, e + 1, CharClass::LocalName);
        let prefix = copy_range(chars, p, e);
        if l > e + 1 {
            Ok((Token::QName(prefix, copy_range(chars, e + 1, l)), l))
        } else {
            Ok((Token::Prefix(prefix), e + 1))
        }
    } else if e - p == 1 && chars[p] == 'a' {
        Ok((Token::KeywordA, e))
    } else if spells_prefix(chars, p, e, true) {
        read_prefix_directive(chars, p, e, false)
    } else if spells_base(chars, p, e, true) {
        read_base_directive(chars, p, e, false)
    } else {
        malformed_at(p, "A name must be a keyword or have a ':' behind it.")
    }
}

fn read_turtle_token(chars: &Vec<char>, p: usize) -> (r: Result<(Token, usize), Error>)
    requires
        p < chars.len(),
    ensures
        agrees(r, turtle_token_at(chars@, p as int), chars@.len()),
{
    let c = chars[p];
    match punctuation_token(c) {
        Some(token) => Ok((token, p + 1)),
        None => {
            if c == '@' {
                read_at_directive(chars, p)
            } else if c == ':' || belongs(CharClass::Name, c) {
                read_name(chars, p)
            } else {
                malformed_at(p, "No Turtle token begins with this character.")
            }
        },
    }
}

/// Reads the token that stands at index `from` or behind the whitespace there.
pub fn lex_at(syntax: Syntax, chars: &Vec<char>, from: usize) -> (r: Result<(Token, usize), Error>)
    requires
        from <= chars.len(),
    ensures
        agrees(r, token_at(syntax, chars@, from as int), chars@.len()),
{
    let p = scan_run(chars, from, CharClass::Whitespace);
    if p >= chars.len() {
        return Ok((Token::EndOfInput, p));
    }
    let c = chars[p];
    if c == '#' {
        read_comment(chars, p)
    } else if c == '"' {
        read_literal(syntax, chars, p)
    } else if c == '<' {
        read_uri(chars, p)
    } else if c == '.' {
        Ok((Token::TripleDelimiter, p + 1))
    } else if c == '_' && p + 1 < chars.len() && chars[p + 1] == ':' {
        read_blank_node(chars, p)
    } else {
        match syntax {
            Syntax::Turtle => read_turtle_token(chars, p),
            Syntax::NTriples => malformed_at(p, "No N-Triples token begins with this character."),
        }
    }
}

} // verus!

use rdf::error::ErrorType;
use rdf::reader::lexer::rdf_lexer::RdfLexer;
use rdf::reader::lexer::token::Token;
use rdf::reader::lexer::turtle_lexer::TurtleLexer;

fn text(s: &str) -> String {
    s.to_string()
}

fn all_tokens(input: &str) -> Vec<Token> {
    let mut lexer = TurtleLexer::new(input);
    let mut tokens = Vec::new();
    loop {
        let token = lexer.get_next_token().unwrap();
        let done = token == Token::EndOfInput;
        tokens.push(token);
        if done {
            return tokens;
        }
    }
}

#[test]
fn turtle_lexer_reads_prefix_directives() {
    assert_eq!(
        all_tokens("@prefix ex: <http://example.org/> .\nPREFIX foaf: <http://xmlns.com/foaf/0.1/>\nprefix : <http://d/>"),
        vec![
            Token::PrefixDirective(text("ex"), text("http://example.org/")),
            Token::PrefixDirective(text("foaf"), text("http://xmlns.com/foaf/0.1/")),
            Token::PrefixDirective(text(""), text("http://d/")),
            Token::EndOfInput,
        ]
    );
}

#[test]
fn turtle_lexer_reads_base_directives() {
    assert_eq!(
        all_tokens("@base <http://example.org/> .\nBaSe <http://other.org/> <http://a>"),
        vec![
            Token::BaseDirective(text("http://example.org/")),
            Token::BaseDirective(text("http://other.org/")),
            Token::Uri(text("http://a")),
            Token::EndOfInput,
        ]
    );
}

#[test]
fn turtle_lexer_reads_names() {
    assert_eq!(
        all_tokens("ex:name a ex: :local a:b ex:a:b _:b1"),
        vec![
            Token::QName(text("ex"), text("name")),
            Token::KeywordA,
            Token::Prefix(text("ex")),
            Token::QName(text(""), text("local")),
            Token::QName(text("a"), text("b")),
            Token::QName(text("ex"), text("a:b")),
            Token::BlankNode(text("b1")),
            Token::EndOfInput,
        ]
    );
}

#[test]
fn turtle_lexer_reads_punctuation() {
    assert_eq!(
        all_tokens("; , ( ) [ ] ."),
        vec![
            Token::PredicateListDelimiter,
            Token::ObjectListDelimiter,
            Token::CollectionStart,
            Token::CollectionEnd,
            Token::UnlabeledBlankNodeStart,
            Token::UnlabeledBlankNodeEnd,
            Token::TripleDelimiter,
            Token::EndOfInput,
        ]
    );
}

#[test]
fn turtle_lexer_reads_literal_forms() {
    assert_eq!(
        all_tokens("\"1\"^^xsd:integer \"2\"^^<http://x#int> \"drei\"@de \"4\" # four\n"),
        vec![
            Token::LiteralWithQNameDatatype(text("1"), text("xsd"), text("integer")),
            Token::LiteralWithUrlDatatype(text("2"), text("http://x#int")),
            Token::LiteralWithLanguageSpecification(text("drei"), text("de")),
            Token::Literal(text("4")),
            Token::Comment(text("four")),
            Token::EndOfInput,
        ]
    );
}

#[test]
fn turtle_lexer_reads_text_beyond_ascii() {
    assert_eq!(
        all_tokens("ex:caf\u{e9} \"na\u{ef}ve \u{1F600}\""),
        vec![
            Token::QName(text("ex"), text("caf\u{e9}")),
            Token::Literal(text("na\u{ef}ve \u{1F600}")),
            Token::EndOfInput,
        ]
    );
}

#[test]
fn turtle_lexer_peek_then_get_is_the_same_token() {
    let mut lexer = TurtleLexer::new("@prefix ex: <http://e/> . ex:a");
    let peeked = lexer.peek_next_token().unwrap();
    let peeked_again = lexer.peek_next_token().unwrap();
    let got = lexer.get_next_token().unwrap();
    assert_eq!(peeked, Token::PrefixDirective(text("ex"), text("http://e/")));
    assert_eq!(peeked, peeked_again);
    assert_eq!(peeked, got);
    assert_eq!(lexer.get_next_token().unwrap(), Token::QName(text("ex"), text("a")));
}

#[test]
fn turtle_lexer_stays_where_it_failed() {
    let mut lexer = TurtleLexer::new("ex:a %");
    assert_eq!(lexer.get_next_token().unwrap(), Token::QName(text("ex"), text("a")));
    for _ in 0..2 {
        match lexer.peek_next_token() {
            Ok(token) => panic!("'%' begins no token, but got {:?}", token),
            Err(e) => assert_eq!(*e.error_type(), ErrorType::MalformedInput { at: 5 }),
        }
    }
    match lexer.get_next_token() {
        Ok(token) => panic!("'%' begins no token, but got {:?}", token),
        Err(e) => assert_eq!(*e.error_type(), ErrorType::MalformedInput { at: 5 }),
    }
}

#[test]
fn turtle_lexer_rejects_malformed_input() {
    for (input, at) in [
        ("@prefix ex: <http://e/>", 0usize),
        ("@prefix ex <http://e/> .", 0),
        ("@prefix ex: .", 0),
        ("@PREFIX ex: <http://e/> .", 0),
        ("@base .", 0),
        ("  @other <http://e/> .", 2),
        ("BASE", 0),
        ("name", 0),
        ("\"a\"^^", 0),
        ("\"a\"^^ex:", 0),
        ("{", 0),
    ] {
        let mut lexer = TurtleLexer::new(input);
        match lexer.get_next_token() {
            Ok(token) => panic!("{:?} is no token, but got {:?}", input, token),
            Err(e) => assert_eq!(*e.error_type(), ErrorType::MalformedInput { at }),
        }
    }
}

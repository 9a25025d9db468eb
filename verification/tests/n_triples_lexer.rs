use rdf::error::ErrorType;
use rdf::reader::lexer::n_triples_lexer::NTriplesLexer;
use rdf::reader::lexer::rdf_lexer::RdfLexer;
use rdf::reader::lexer::token::Token;

fn text(s: &str) -> String {
    s.to_string()
}

#[test]
fn n_triples_lexer_reads_comments() {
    let mut lexer = NTriplesLexer::new("# Hello World!\n# Foo");
    assert_eq!(lexer.get_next_token().unwrap(), Token::Comment(text("Hello World!")));
    assert_eq!(lexer.get_next_token().unwrap(), Token::Comment(text("Foo")));
    assert_eq!(lexer.get_next_token().unwrap(), Token::EndOfInput);
}

#[test]
fn n_triples_lexer_reads_a_statement() {
    let mut lexer = NTriplesLexer::new("<http://a> _:b1 \"c\" .");
    assert_eq!(lexer.get_next_token().unwrap(), Token::Uri(text("http://a")));
    assert_eq!(lexer.get_next_token().unwrap(), Token::BlankNode(text("b1")));
    assert_eq!(lexer.get_next_token().unwrap(), Token::Literal(text("c")));
    assert_eq!(lexer.get_next_token().unwrap(), Token::TripleDelimiter);
    assert_eq!(lexer.get_next_token().unwrap(), Token::EndOfInput);
}

#[test]
fn n_triples_lexer_reads_literal_forms() {
    let mut lexer = NTriplesLexer::new("\"a\"@en-US \"1\"^^<http://x#int> \"q\\\"t\\n\\\\\"");
    assert_eq!(
        lexer.get_next_token().unwrap(),
        Token::LiteralWithLanguageSpecification(text("a"), text("en-US"))
    );
    assert_eq!(
        lexer.get_next_token().unwrap(),
        Token::LiteralWithUrlDatatype(text("1"), text("http://x#int"))
    );
    assert_eq!(lexer.get_next_token().unwrap(), Token::Literal(text("q\"t\n\\")));
}

#[test]
fn n_triples_lexer_end_of_input_then_error() {
    let mut lexer = NTriplesLexer::new("  ");
    assert_eq!(lexer.peek_next_token().unwrap(), Token::EndOfInput);
    assert_eq!(lexer.get_next_token().unwrap(), Token::EndOfInput);
    match lexer.get_next_token() {
        Ok(token) => panic!("nothing is left, but got {:?}", token),
        Err(e) => assert_eq!(*e.error_type(), ErrorType::EndOfInput),
    }
    match lexer.peek_next_token() {
        Ok(token) => panic!("nothing is left, but got {:?}", token),
        Err(e) => assert_eq!(*e.error_type(), ErrorType::EndOfInput),
    }
}

#[test]
fn n_triples_lexer_peek_is_idempotent() {
    let mut lexer = NTriplesLexer::new("<http://a> .");
    let first = lexer.peek_next_token().unwrap();
    let second = lexer.peek_next_token().unwrap();
    assert_eq!(first, second);
    assert_eq!(lexer.get_next_token().unwrap(), first);
    assert_eq!(lexer.peek_next_token().unwrap(), Token::TripleDelimiter);
    assert_eq!(lexer.get_next_token().unwrap(), Token::TripleDelimiter);
}

#[test]
fn n_triples_lexer_rejects_malformed_input() {
    for (input, at) in [
        ("\"open", 0usize),
        ("  \"bad \\q escape\"", 2),
        ("<http://a", 0),
        ("<http://a b>", 0),
        ("_: .", 0),
        ("ex:name", 0),
        (" ;", 1),
        ("\"a\"^<http://x>", 0),
        ("\"a\"^^ex:int", 0),
        ("\"a\"@ .", 0),
        ("\"two\nlines\"", 0),
    ] {
        let mut lexer = NTriplesLexer::new(input);
        match lexer.get_next_token() {
            Ok(token) => panic!("{:?} is no token, but got {:?}", input, token),
            Err(e) => assert_eq!(*e.error_type(), ErrorType::MalformedInput { at }),
        }
    }
}

use rdf::error::ErrorType;
use rdf::node::Node;
use rdf::reader::lexer::n_triples_lexer::NTriplesLexer;
use rdf::reader::lexer::rdf_lexer::RdfLexer;
use rdf::reader::n_triples_parser::NTriplesParser;
use rdf::reader::rdf_parser::RdfParser;
use rdf::uri::Uri;

#[test]
fn test_read_n_triples_from_string() {
    let input = "<http://www.w3.org/2001/sw/RDFCore/ntriples/> <http://www.w3.org/1999/02/22-rdf-syntax-ns#type> <http://xmlns.com/foaf/0.1/Document> .
                 <http://www.w3.org/2001/sw/RDFCore/ntriples/> <http://purl.org/dc/terms/title> \"N-Triples\"@en-US .
                 <http://www.w3.org/2001/sw/RDFCore/ntriples/> <http://xmlns.com/foaf/0.1/maker> _:art .
                 _:art <http://xmlns.com/foaf/0.1/name> \"Art Barstow\" .";

    let mut reader = NTriplesParser::from_string(input.to_string());

    match reader.decode() {
        Ok(graph) => assert_eq!(graph.count(), 4),
        Err(e) => {
            println!("Err {}", e.to_string());
            assert!(false)
        }
    }
}

#[test]
fn n_triples_plain_literal_statement() {
    let mut reader = NTriplesParser::from_string("<http://a> <http://b> \"c\" .".to_string());
    let graph = reader.decode().unwrap();
    assert_eq!(graph.count(), 1);
    let triple = &graph.triples()[0];
    assert_eq!(*triple.subject(), Node::UriNode { uri: Uri::new("http://a".to_string()) });
    assert_eq!(*triple.predicate(), Node::UriNode { uri: Uri::new("http://b".to_string()) });
    assert_eq!(
        *triple.object(),
        Node::LiteralNode { literal: "c".to_string(), data_type: None, language: None }
    );
}

#[test]
fn n_triples_language_literal_statement() {
    let mut reader = NTriplesParser::from_string("<http://a> <http://b> \"c\"@en .".to_string());
    let graph = reader.decode().unwrap();
    assert_eq!(graph.count(), 1);
    assert_eq!(
        *graph.triples()[0].object(),
        Node::LiteralNode {
            literal: "c".to_string(),
            data_type: None,
            language: Some("en".to_string())
        }
    );
}

#[test]
fn n_triples_truncated_after_subject_is_a_syntax_error() {
    let mut reader = NTriplesParser::from_string("<http://a>".to_string());
    match reader.decode() {
        Ok(_) => panic!("a lone subject is no statement"),
        Err(e) => assert_eq!(*e.error_type(), ErrorType::InvalidToken),
    }
}

#[test]
fn n_triples_empty_input_is_an_empty_graph() {
    for input in ["", "   \n\t ", "# only a comment", "  # one\n# two\n\n"] {
        let mut reader = NTriplesParser::from_string(input.to_string());
        let graph = reader.decode().unwrap();
        assert_eq!(graph.count(), 0);
        assert!(graph.is_empty());
    }
}

fn n_triples_failure(input: &str) -> ErrorType {
    match NTriplesParser::from_string(input.to_string()).decode() {
        Ok(graph) => panic!("{:?} should fail, but gave {} triples", input, graph.count()),
        Err(e) => *e.error_type(),
    }
}

#[test]
fn n_triples_k_statements_give_k_triples() {
    let mut input = String::new();
    for k in 0..20 {
        let mut reader = NTriplesParser::from_string(input.clone());
        let graph = reader.decode().unwrap();
        assert_eq!(graph.count(), k);
        for (i, triple) in graph.triples().iter().enumerate() {
            assert_eq!(
                *triple.subject(),
                Node::UriNode { uri: Uri::new(format!("http://s/{}", i)) }
            );
            assert_eq!(*triple.predicate(), Node::UriNode { uri: Uri::new("http://p".to_string()) });
            assert_eq!(*triple.object(), Node::BlankNode { id: format!("o{}", i) });
        }
        input.push_str(&format!("# statement {}\n<http://s/{}> <http://p> _:o{} .\n", k, k, k));
    }
}

#[test]
fn n_triples_datatype_literal_statement() {
    let mut reader = NTriplesParser::from_string(
        "_:s <http://p> \"1\"^^<http://www.w3.org/2001/XMLSchema#integer> .".to_string(),
    );
    let graph = reader.decode().unwrap();
    assert_eq!(*graph.triples()[0].subject(), Node::BlankNode { id: "s".to_string() });
    assert_eq!(
        *graph.triples()[0].object(),
        Node::LiteralNode {
            literal: "1".to_string(),
            data_type: Some(Uri::new("http://www.w3.org/2001/XMLSchema#integer".to_string())),
            language: None
        }
    );
}

#[test]
fn n_triples_wrong_tokens_fail_with_invalid_token() {
    assert_eq!(n_triples_failure("\"s\" <http://p> <http://o> ."), ErrorType::InvalidToken);
    assert_eq!(n_triples_failure(". <http://p> <http://o> ."), ErrorType::InvalidToken);
    assert_eq!(n_triples_failure("<http://s> _:p <http://o> ."), ErrorType::InvalidToken);
    assert_eq!(n_triples_failure("<http://s> <http://p> . ."), ErrorType::InvalidToken);
    assert_eq!(n_triples_failure("<http://s> <http://p>"), ErrorType::InvalidToken);
    assert_eq!(n_triples_failure("<http://s> # c\n <http://p> <http://o> ."), ErrorType::InvalidToken);
}

#[test]
fn n_triples_missing_delimiter_fails_with_invalid_reader_input() {
    assert_eq!(n_triples_failure("<http://s> <http://p> <http://o>"), ErrorType::InvalidReaderInput);
    assert_eq!(
        n_triples_failure("<http://s> <http://p> <http://o> <http://s> <http://p> <http://o> ."),
        ErrorType::InvalidReaderInput
    );
}

#[test]
fn n_triples_lexical_errors_come_through_unchanged() {
    assert_eq!(n_triples_failure("ex:s <http://p> <http://o> ."), ErrorType::MalformedInput { at: 0 });
    assert_eq!(
        n_triples_failure("<http://s> <http://p> \"open ."),
        ErrorType::MalformedInput { at: 22 }
    );
    assert_eq!(
        n_triples_failure("<http://s> <http://p> <http://o> ; "),
        ErrorType::MalformedInput { at: 33 }
    );
    assert_eq!(
        n_triples_failure("<http://s> <http://p> <http://o> .\n<http://s"),
        ErrorType::MalformedInput { at: 35 }
    );
}

#[test]
fn n_triples_nothing_is_kept_of_a_document_that_fails() {
    let mut reader = NTriplesParser::from_string(
        "<http://s> <http://p> <http://o> .\n<http://s> <http://p> .".to_string(),
    );
    assert!(reader.decode().is_err());
}

#[test]
fn n_triples_from_reader_decodes_utf8() {
    let bytes = "<http://s> <http://p> \"\u{4f60}\u{597d}\" .".as_bytes().to_vec();
    let mut reader = NTriplesParser::from_reader(bytes).unwrap();
    let graph = reader.decode().unwrap();
    assert_eq!(
        *graph.triples()[0].object(),
        Node::LiteralNode { literal: "\u{4f60}\u{597d}".to_string(), data_type: None, language: None }
    );
}

#[test]
fn n_triples_from_reader_rejects_bytes_that_are_not_utf8() {
    match NTriplesParser::from_reader(vec![0xc3, 0x28]) {
        Ok(_) => panic!("0xc3 0x28 is not UTF-8"),
        Err(e) => assert_eq!(*e.error_type(), ErrorType::InvalidByteEncoding),
    }
}

#[test]
fn n_triples_lexer_failure_reaches_the_caller_with_its_message() {
    let mut lexer = NTriplesLexer::new("\"open");
    let from_lexer = lexer.get_next_token().unwrap_err();
    let mut reader = NTriplesParser::from_string("<http://s> <http://p> \"open".to_string());
    let from_decode = reader.decode().unwrap_err();
    assert_eq!(*from_decode.error_type(), ErrorType::MalformedInput { at: 22 });
    assert_eq!(from_decode.to_string(), from_lexer.to_string());
    assert_eq!(from_decode.to_string(), "A literal must close on its line and escape with care.");
}

#[test]
fn n_triples_failures_of_the_parser_say_which_place_failed() {
    let message = |input: &str| {
        NTriplesParser::from_string(input.to_string()).decode().unwrap_err().to_string()
    };
    assert_eq!(message(". ."), "Invalid token for NTriples subject.");
    assert_eq!(message("<http://s> _:p ."), "Invalid token for NTriples predicate.");
    assert_eq!(message("<http://s>"), "Invalid token for NTriples predicate.");
    assert_eq!(message("<http://s> <http://p> ."), "Invalid token for NTriples object.");
    assert_eq!(message("<http://s> <http://p> _:o"), "Expected triple delimiter.");
}

#[test]
fn n_triples_read_triple_reads_one_statement() {
    let mut reader =
        NTriplesParser::from_string("_:s <http://p> \"o\" . <http://rest>".to_string());
    let triple = reader.read_triple().unwrap();
    assert_eq!(*triple.subject(), Node::BlankNode { id: "s".to_string() });
    assert_eq!(reader.read_subject().unwrap(), Node::UriNode { uri: Uri::new("http://rest".to_string()) });
    assert_eq!(*reader.read_predicate().unwrap_err().error_type(), ErrorType::InvalidToken);
}

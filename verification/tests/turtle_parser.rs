use rdf::error::ErrorType;
use rdf::graph::Graph;
use rdf::node::Node;
use rdf::reader::rdf_parser::RdfParser;
use rdf::reader::turtle_parser::{resolve, slash_path, TurtleParser};
use rdf::namespace::Namespace;
use rdf::triple::Triple;
use rdf::uri::Uri;

fn uri(s: &str) -> Node {
    Node::UriNode { uri: Uri::new(s.to_string()) }
}

fn plain(s: &str) -> Node {
    Node::LiteralNode { literal: s.to_string(), data_type: None, language: None }
}

fn decode(input: &str) -> Graph {
    TurtleParser::from_string(input.to_string()).decode().unwrap()
}

fn failure(input: &str) -> ErrorType {
    match TurtleParser::from_string(input.to_string()).decode() {
        Ok(graph) => panic!("{:?} should fail, but gave {} triples", input, graph.count()),
        Err(e) => *e.error_type(),
    }
}

fn spo(triple: &Triple) -> (Node, Node, Node) {
    (triple.subject().clone(), triple.predicate().clone(), triple.object().clone())
}

#[test]
fn turtle_predicate_list_shares_the_subject() {
    let graph = decode("<http://s> <http://knows> \"a\" ; <http://likes> \"b\" ; <http://sees> <http://o> .");
    assert_eq!(graph.count(), 3);
    let triples = graph.triples();
    assert_eq!(spo(&triples[0]), (uri("http://s"), uri("http://knows"), plain("a")));
    assert_eq!(spo(&triples[1]), (uri("http://s"), uri("http://likes"), plain("b")));
    assert_eq!(spo(&triples[2]), (uri("http://s"), uri("http://sees"), uri("http://o")));
}

#[test]
fn turtle_object_list_shares_subject_and_predicate() {
    let graph = decode("_:s <http://p> \"a\" , \"b\"@en , _:o , <http://o> .");
    assert_eq!(graph.count(), 4);
    let triples = graph.triples();
    let subject = Node::BlankNode { id: "s".to_string() };
    assert_eq!(spo(&triples[0]), (subject.clone(), uri("http://p"), plain("a")));
    assert_eq!(
        spo(&triples[1]),
        (
            subject.clone(),
            uri("http://p"),
            Node::LiteralNode {
                literal: "b".to_string(),
                data_type: None,
                language: Some("en".to_string())
            }
        )
    );
    assert_eq!(
        spo(&triples[2]),
        (subject.clone(), uri("http://p"), Node::BlankNode { id: "o".to_string() })
    );
    assert_eq!(spo(&triples[3]), (subject, uri("http://p"), uri("http://o")));
}

#[test]
fn turtle_object_list_follows_the_latest_predicate() {
    let graph = decode("<http://s> <http://knows> \"a\" ; <http://likes> \"b\" , \"c\" .");
    assert_eq!(graph.count(), 3);
    assert_eq!(spo(&graph.triples()[2]), (uri("http://s"), uri("http://likes"), plain("c")));
}

#[test]
fn turtle_qname_resolves_against_declared_prefix() {
    let graph = decode(
        "@prefix ex: <http://example.org/> .\nex:name ex:knows ex:other .\n<http://s> ex:p \"1\"^^<http://www.w3.org/2001/XMLSchema#integer> .",
    );
    assert_eq!(graph.count(), 2);
    assert_eq!(
        spo(&graph.triples()[0]),
        (
            uri("http://example.org/name"),
            uri("http://example.org/knows"),
            uri("http://example.org/other")
        )
    );
    assert_eq!(
        *graph.triples()[1].object(),
        Node::LiteralNode {
            literal: "1".to_string(),
            data_type: Some(Uri::new("http://www.w3.org/2001/XMLSchema#integer".to_string())),
            language: None
        }
    );
    assert_eq!(
        graph.get_namespace_uri_by_prefix(&"ex".to_string()).unwrap().to_string(),
        "http://example.org/"
    );
}

#[test]
fn turtle_qname_path_colons_become_slashes() {
    let graph = decode("PREFIX ex: <http://example.org/>\nex:a:b <http://p> ex:c .");
    assert_eq!(*graph.triples()[0].subject(), uri("http://example.org/a/b"));
    assert_eq!(slash_path("a:b:c"), "a/b/c");
    assert_eq!(slash_path("plain"), "plain");
}

#[test]
fn turtle_undeclared_prefix_aborts_the_decode() {
    assert_eq!(failure("ex:name <http://p> \"o\" ."), ErrorType::UndefinedPrefix);
    assert_eq!(failure("<http://s> ex:p \"o\" ."), ErrorType::UndefinedPrefix);
    assert_eq!(
        failure("<http://s> <http://p> \"first\" .\n<http://s> <http://p> ex:o ."),
        ErrorType::UndefinedPrefix
    );
    assert_eq!(
        failure("@prefix ex: <http://e/> .\nex:s ex:p other:o ."),
        ErrorType::UndefinedPrefix
    );
}

#[test]
fn turtle_later_declaration_of_a_prefix_counts() {
    let graph = decode(
        "@prefix ex: <http://one/> .\nex:a ex:p ex:o .\n@prefix ex: <http://two/> .\nex:a ex:p ex:o .",
    );
    assert_eq!(*graph.triples()[0].subject(), uri("http://one/a"));
    assert_eq!(*graph.triples()[1].subject(), uri("http://two/a"));
}

#[test]
fn turtle_base_directive_sets_the_base_uri() {
    let graph = decode("@base <http://example.org/> .\n# nothing else");
    assert_eq!(graph.count(), 0);
    assert_eq!(*graph.base_uri(), Some(Uri::new("http://example.org/".to_string())));
    let graph = decode("");
    assert_eq!(*graph.base_uri(), None);
}

#[test]
fn turtle_empty_input_is_an_empty_graph() {
    for input in ["", " \n ", "# c\n  # d"] {
        assert_eq!(decode(input).count(), 0);
    }
}

#[test]
fn turtle_wrong_tokens_fail_with_invalid_token() {
    // a token that begins no statement
    assert_eq!(failure("\"literal\" <http://p> <http://o> ."), ErrorType::InvalidToken);
    assert_eq!(failure("; <http://p> <http://o> ."), ErrorType::InvalidToken);
    assert_eq!(failure("a <http://p> <http://o> ."), ErrorType::InvalidToken);
    // a literal where a predicate is due
    assert_eq!(failure("<http://s> \"p\" <http://o> ."), ErrorType::InvalidToken);
    // the keyword and a literal typed by a qualified name are not read as nodes
    assert_eq!(failure("<http://s> a <http://o> ."), ErrorType::InvalidToken);
    assert_eq!(
        failure("@prefix x: <http://x/> . <http://s> <http://p> \"1\"^^x:int ."),
        ErrorType::InvalidToken
    );
    // the input ends inside the statement
    assert_eq!(failure("<http://s>"), ErrorType::InvalidToken);
    assert_eq!(failure("<http://s> <http://p>"), ErrorType::InvalidToken);
    assert_eq!(failure("<http://s> <http://p> \"o\" ;"), ErrorType::InvalidToken);
    assert_eq!(failure("<http://s> <http://p> \"o\" ,"), ErrorType::InvalidToken);
}

#[test]
fn turtle_missing_delimiter_fails_with_invalid_reader_input() {
    assert_eq!(failure("<http://s> <http://p> \"o\""), ErrorType::InvalidReaderInput);
    assert_eq!(failure("<http://s> <http://p> \"o\" <http://x> ."), ErrorType::InvalidReaderInput);
    assert_eq!(failure("<http://s> <http://p> \"o\" ; <http://p> \"o\" ("), ErrorType::InvalidReaderInput);
}

#[test]
fn turtle_lexical_errors_come_through_unchanged() {
    assert_eq!(failure("  %"), ErrorType::MalformedInput { at: 2 });
    assert_eq!(failure("<http://s> <http://p> \"open"), ErrorType::MalformedInput { at: 22 });
    assert_eq!(failure("<http://s> <http://p> \"o\" ?"), ErrorType::MalformedInput { at: 26 });
}

#[test]
fn turtle_from_reader_decodes_utf8() {
    let bytes = "@prefix ex: <http://e/> .\nex:s ex:p \"gr\u{fc}\u{df}e\" .".as_bytes().to_vec();
    let mut parser = TurtleParser::from_reader(bytes).unwrap();
    let graph = parser.decode().unwrap();
    assert_eq!(graph.count(), 1);
    assert_eq!(*graph.triples()[0].object(), plain("gr\u{fc}\u{df}e"));
}

#[test]
fn turtle_from_reader_rejects_bytes_that_are_not_utf8() {
    match TurtleParser::from_reader(vec![b'<', 0xff, b'>']) {
        Ok(_) => panic!("0xff is never part of UTF-8"),
        Err(e) => assert_eq!(*e.error_type(), ErrorType::InvalidByteEncoding),
    }
}

#[test]
fn turtle_resolve_looks_the_prefix_up() {
    let mut graph = Graph::new(None);
    graph.add_namespace(&Namespace::new("ex".to_string(), Uri::new("http://e/".to_string())));
    assert_eq!(
        resolve(&graph, &"ex".to_string(), &"a:b".to_string()).unwrap(),
        uri("http://e/a/b")
    );
    match resolve(&graph, &"other".to_string(), &"a".to_string()) {
        Ok(node) => panic!("'other' was never declared, but stands for {:?}", node),
        Err(e) => assert_eq!(*e.error_type(), ErrorType::UndefinedPrefix),
    }
}

#[test]
fn turtle_decode_twice_finds_the_end_again() {
    let mut parser = TurtleParser::from_string("<http://s> <http://p> <http://o> .".to_string());
    assert_eq!(parser.decode().unwrap().count(), 1);
    assert_eq!(parser.decode().unwrap().count(), 0);
}

#[test]
fn turtle_failures_carry_their_message() {
    let message =
        |input: &str| TurtleParser::from_string(input.to_string()).decode().unwrap_err().to_string();
    assert_eq!(message("ex:s <http://p> <http://o> ."), "No namespace is declared for the prefix.");
    assert_eq!(message("<http://s> <http://p> <http://o"), "A URI must end in '>' and hold no blank.");
    assert_eq!(message("<http://s> <http://p> \"o\" ("), "Invalid token while parsing Turtle triples.");
    assert_eq!(message(") ."), "Invalid token while parsing Turtle syntax.");
    assert_eq!(message("<http://s> \"p\""), "Invalid token for Turtle predicate.");
    assert_eq!(message("@prefix ex <http://e/> ."), "A prefix directive needs a prefix that ends in ':'.");
}

#[test]
fn turtle_read_triples_reads_one_statement() {
    let graph = Graph::new(None);
    let mut parser = TurtleParser::from_string(
        "<http://s> <http://knows> _:a ; <http://likes> _:b , _:c . <http://rest>".to_string(),
    );
    let triples = parser.read_triples(&graph).unwrap();
    assert_eq!(triples.len(), 3);
    for triple in &triples {
        assert_eq!(*triple.subject(), uri("http://s"));
    }
    assert_eq!(*triples[2].predicate(), uri("http://likes"));
    assert_eq!(parser.read_subject(&graph).unwrap(), uri("http://rest"));
}

use rdf::error::{Error, ErrorType};
use rdf::graph::Graph;
use rdf::namespace::Namespace;
use rdf::node::Node;
use rdf::triple::Triple;
use rdf::uri::Uri;

fn uri(s: &str) -> Uri {
    Uri::new(s.to_string())
}

fn triple(n: usize) -> Triple {
    Triple::new(
        &Node::UriNode { uri: uri("http://s") },
        &Node::UriNode { uri: uri("http://p") },
        &Node::BlankNode { id: format!("o{}", n) },
    )
}

#[test]
fn graph_counts_the_triples_it_was_given() {
    let mut graph = Graph::new(Some(uri("http://base/")));
    assert_eq!(graph.count(), 0);
    assert!(graph.is_empty());
    assert_eq!(*graph.base_uri(), Some(uri("http://base/")));
    graph.add_triple(&triple(0));
    graph.add_triple(&triple(0));
    assert_eq!(graph.count(), 2);
    graph.add_triples(&vec![triple(1), triple(2), triple(3)]);
    assert_eq!(graph.count(), 5);
    assert!(!graph.is_empty());
    assert_eq!(*graph.triples()[4].object(), Node::BlankNode { id: "o3".to_string() });
    assert_eq!(graph.triples()[1], triple(0));
    graph.add_triples(&Vec::new());
    assert_eq!(graph.count(), 5);
}

#[test]
fn graph_looks_prefixes_up() {
    let mut graph = Graph::new(None);
    assert_eq!(*graph.base_uri(), None);
    match graph.get_namespace_uri_by_prefix(&"ex".to_string()) {
        Ok(found) => panic!("nothing was declared, but found {:?}", found),
        Err(e) => assert_eq!(*e.error_type(), ErrorType::UndefinedPrefix),
    }
    graph.add_namespace(&Namespace::new("ex".to_string(), uri("http://one/")));
    graph.add_namespace(&Namespace::new("".to_string(), uri("http://empty/")));
    assert_eq!(*graph.get_namespace_uri_by_prefix(&"ex".to_string()).unwrap(), uri("http://one/"));
    assert_eq!(*graph.get_namespace_uri_by_prefix(&"".to_string()).unwrap(), uri("http://empty/"));
    graph.add_namespace(&Namespace::new("ex".to_string(), uri("http://two/")));
    assert_eq!(*graph.get_namespace_uri_by_prefix(&"ex".to_string()).unwrap(), uri("http://two/"));
    assert!(graph.get_namespace_uri_by_prefix(&"e".to_string()).is_err());
    graph.set_base_uri(&uri("http://base/"));
    assert_eq!(*graph.base_uri(), Some(uri("http://base/")));
}

#[test]
fn uri_appends_a_resource_path() {
    let mut u = uri("http://example.org/");
    u.append_resource_path("name");
    assert_eq!(u.to_string(), "http://example.org/name");
    u.append_resource_path("");
    assert_eq!(u, uri("http://example.org/name"));
}

#[test]
fn namespace_keeps_prefix_and_uri() {
    let namespace = Namespace::new("ex".to_string(), uri("http://e/"));
    assert_eq!(namespace.prefix(), "ex");
    assert_eq!(*namespace.uri(), uri("http://e/"));
    assert_eq!(namespace.clone(), namespace);
}

#[test]
fn triple_keeps_its_nodes() {
    let subject = Node::BlankNode { id: "s".to_string() };
    let predicate = Node::UriNode { uri: uri("http://p") };
    let object = Node::LiteralNode {
        literal: "o".to_string(),
        data_type: Some(uri("http://t")),
        language: None,
    };
    let t = Triple::new(&subject, &predicate, &object);
    assert_eq!(*t.subject(), subject);
    assert_eq!(*t.predicate(), predicate);
    assert_eq!(*t.object(), object);
    assert_eq!(t.clone(), t);
}

#[test]
fn error_keeps_kind_and_message() {
    let e = Error::new(ErrorType::InvalidReaderInput, "Expected triple delimiter.");
    assert_eq!(*e.error_type(), ErrorType::InvalidReaderInput);
    assert_eq!(e.to_string(), "Expected triple delimiter.");
}

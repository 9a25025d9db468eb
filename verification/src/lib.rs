//! RDF text front end: lexers and parsers that turn N-Triples and Turtle
//! documents into an in-memory graph of triples.

pub mod error;
pub mod graph;
pub mod namespace;
pub mod node;
pub mod reader;
pub mod specs;
pub mod triple;
pub mod uri;

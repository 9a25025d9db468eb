//! Reading RDF text: tokens, lexers and parsers.

pub mod lexer;
pub mod n_triples_parser;
pub mod n_triples_syntax;
pub mod rdf_parser;
mod text;
pub mod turtle_parser;
pub mod turtle_syntax;

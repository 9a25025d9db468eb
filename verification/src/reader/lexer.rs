//! Lexers: from characters to tokens.

pub mod grammar;
pub mod n_triples_lexer;
pub mod rdf_lexer;
pub mod scan;
pub mod stream;
pub mod token;
pub mod tokenizer;
pub mod turtle_lexer;

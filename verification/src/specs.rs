//! Vocabularies that RDF documents refer to.

pub mod xml_specs;

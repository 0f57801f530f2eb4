//! A SPARQL query evaluator over an encoded RDF quad store: it interprets a
//! planned algebra tree and yields bindings, triples or a boolean.

pub mod bnodes;
pub mod dataset;
pub mod decode;
pub mod expression;
pub mod functions;
pub mod interpreter;
pub mod join_laws;
pub mod joins;
pub mod laws;
pub mod lexical;
pub mod memory;
pub mod numeric;
pub mod plan;
pub mod query;
pub mod rdf;
pub mod rows;
pub mod sort;
pub mod term;
pub mod tuple;
pub mod values;

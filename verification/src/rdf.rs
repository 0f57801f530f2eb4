//! RDF terms and triples in their decoded form, with their texts, and the
//! results of queries.

use vstd::prelude::*;
use crate::term::EvaluationError;

verus! {

/// The IRI of `xsd:string`.
pub const XSD_STRING: &'static str = "http://www.w3.org/2001/XMLSchema#string";

/// The IRI of `xsd:boolean`.
pub const XSD_BOOLEAN: &'static str = "http://www.w3.org/2001/XMLSchema#boolean";

/// The IRI of `xsd:float`.
pub const XSD_FLOAT: &'static str = "http://www.w3.org/2001/XMLSchema#float";

/// The IRI of `xsd:double`.
pub const XSD_DOUBLE: &'static str = "http://www.w3.org/2001/XMLSchema#double";

/// The IRI of `xsd:integer`.
pub const XSD_INTEGER: &'static str = "http://www.w3.org/2001/XMLSchema#integer";

/// The IRI of `xsd:decimal`.
pub const XSD_DECIMAL: &'static str = "http://www.w3.org/2001/XMLSchema#decimal";

/// The IRI of `xsd:dateTime`.
pub const XSD_DATE_TIME: &'static str = "http://www.w3.org/2001/XMLSchema#dateTime";

/// An RDF term.
#[derive(Clone, PartialEq, Eq, Debug, Hash)]
pub enum Term {
    NamedNode { iri: String },
    BlankNode { id: u128 },
    SimpleLiteral { value: String },
    LangStringLiteral { value: String, language: String },
    TypedLiteral { value: String, datatype: String },
}

/// The mathematical form of a term.
pub enum TermModel {
    NamedNode { iri: Seq<char> },
    BlankNode { id: u128 },
    SimpleLiteral { value: Seq<char> },
    LangStringLiteral { value: Seq<char>, language: Seq<char> },
    TypedLiteral { value: Seq<char>, datatype: Seq<char> },
}

impl View for Term {
    type V = TermModel;

    open spec fn view(&self) -> TermModel {
        match *self {
            Term::NamedNode { iri } => TermModel::NamedNode { iri: iri@ },
            Term::BlankNode { id } => TermModel::BlankNode { id },
            Term::SimpleLiteral { value } => TermModel::SimpleLiteral { value: value@ },
            Term::LangStringLiteral { value, language } => TermModel::LangStringLiteral {
                value: value@,
                language: language@,
            },
            Term::TypedLiteral { value, datatype } => TermModel::TypedLiteral {
                value: value@,
                datatype: datatype@,
            },
        }
    }
}

/// An RDF triple. Its subject is a named node or a blank node and its
/// predicate is a named node.
#[derive(Clone, PartialEq, Eq, Debug, Hash)]
pub struct Triple {
    pub subject: Term,
    pub predicate: Term,
    pub object: Term,
}

/// The mathematical form of a triple.
pub struct TripleModel {
    pub subject: TermModel,
    pub predicate: TermModel,
    pub object: TermModel,
}

impl TripleModel {
    /// The subject is a named node or a blank node and the predicate is a
    /// named node.
    pub open spec fn wf(self) -> bool {
        &&& self.subject is NamedNode || self.subject is BlankNode
        &&& self.predicate is NamedNode
    }
}

impl View for Triple {
    type V = TripleModel;

    open spec fn view(&self) -> TripleModel {
        TripleModel {
            subject: self.subject@,
            predicate: self.predicate@,
            object: self.object@,
        }
    }
}

/// A variable of a query.
#[derive(Clone, PartialEq, Eq, Debug, Hash)]
pub struct Variable {
    pub name: String,
}

impl View for Variable {
    type V = Seq<char>;

    open spec fn view(&self) -> Seq<char> {
        self.name@
    }
}

/// The names of a list of variables.
pub open spec fn variable_names(variables: Seq<Variable>) -> Seq<Seq<char>> {
    Seq::new(variables.len(), |i: int| variables[i]@)
}

/// The solutions of a SELECT: the variables, and for each row the terms
/// bound to them, in their order.
#[derive(Debug)]
pub struct Bindings {
    pub variables: Vec<Variable>,
    pub rows: Vec<Result<Vec<Option<Term>>, EvaluationError>>,
}

/// The result of a query.
#[derive(Debug)]
pub enum QueryResult {
    Bindings(Bindings),
    Boolean(bool),
    Graph(Vec<Result<Triple, EvaluationError>>),
}

/// The mathematical form of a decoded row.
pub open spec fn solution_model(row: Result<Vec<Option<Term>>, EvaluationError>) -> Result<
    Seq<Option<TermModel>>,
    EvaluationError,
> {
    match row {
        Ok(terms) => Ok(
            Seq::new(
                terms@.len(),
                |i: int|
                    match terms@[i] {
                        Some(term) => Some(term@),
                        None => None,
                    },
            ),
        ),
        Err(error) => Err(error),
    }
}

/// The mathematical form of a stream of decoded rows.
pub open spec fn solutions_model(rows: Seq<Result<Vec<Option<Term>>, EvaluationError>>) -> Seq<
    Result<Seq<Option<TermModel>>, EvaluationError>,
> {
    Seq::new(rows.len(), |i: int| solution_model(rows[i]))
}

/// The mathematical form of a stream of triples.
pub open spec fn triples_model(triples: Seq<Result<Triple, EvaluationError>>) -> Seq<
    Result<TripleModel, EvaluationError>,
> {
    Seq::new(
        triples.len(),
        |i: int|
            match triples[i] {
                Ok(triple) => Ok(triple@),
                Err(error) => Err(error),
            },
    )
}

} // verus!

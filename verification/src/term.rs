//! Encoded RDF terms: small copyable values that stand for IRIs, blank nodes and
//! literals, with dictionary ids in place of strings.

use vstd::prelude::*;

verus! {

/// Dictionary id of the empty string.
pub const EMPTY_STRING_ID: u64 = 0;

/// Dictionary id of the IRI of `rdf:langString`.
pub const RDF_LANG_STRING_ID: u64 = 1;

/// Dictionary id of the IRI of `xsd:string`.
pub const XSD_STRING_ID: u64 = 2;

/// Dictionary id of the IRI of `xsd:boolean`.
pub const XSD_BOOLEAN_ID: u64 = 3;

/// Dictionary id of the IRI of `xsd:float`.
pub const XSD_FLOAT_ID: u64 = 4;

/// Dictionary id of the IRI of `xsd:double`.
pub const XSD_DOUBLE_ID: u64 = 5;

/// Dictionary id of the IRI of `xsd:integer`.
pub const XSD_INTEGER_ID: u64 = 6;

/// Dictionary id of the IRI of `xsd:decimal`.
pub const XSD_DECIMAL_ID: u64 = 7;

/// Dictionary id of the IRI of `xsd:dateTime`.
pub const XSD_DATE_TIME_ID: u64 = 8;

/// Largest scale (number of fractional digits) of a decimal.
pub const DECIMAL_MAX_SCALE: u32 = 28;

/// One more than the largest magnitude of a decimal's mantissa: 2^96.
pub const DECIMAL_MANTISSA_LIMIT: i128 = 0x1_0000_0000_0000_0000_0000_0000;

/// A fixed-point decimal: `mantissa / 10^scale`.
#[derive(Clone, Copy, PartialEq, Eq, Structural, Debug, Hash)]
pub struct DecimalValue {
    pub mantissa: i128,
    pub scale: u32,
}

impl DecimalValue {
    /// The mantissa fits in 96 bits and the scale is at most 28.
    pub open spec fn wf(self) -> bool {
        &&& -DECIMAL_MANTISSA_LIMIT < self.mantissa < DECIMAL_MANTISSA_LIMIT
        &&& self.scale <= DECIMAL_MAX_SCALE
    }

    /// Tests `wf`.
    pub fn is_wf(&self) -> (r: bool)
        ensures
            r == self.wf(),
    {
        -DECIMAL_MANTISSA_LIMIT < self.mantissa && self.mantissa < DECIMAL_MANTISSA_LIMIT
            && self.scale <= DECIMAL_MAX_SCALE
    }
}

/// A point in time with the offset of its time zone: seconds and nanoseconds
/// since the Unix epoch in UTC, and the zone's offset east of UTC in seconds.
#[derive(Clone, Copy, PartialEq, Eq, Structural, Debug, Hash)]
pub struct DateTimeValue {
    pub seconds: i64,
    pub nanos: u32,
    pub offset: i32,
}

/// A date and time without time zone: seconds and nanoseconds since
/// 1970-01-01T00:00:00 on its own calendar.
#[derive(Clone, Copy, PartialEq, Eq, Structural, Debug, Hash)]
pub struct NaiveDateTimeValue {
    pub seconds: i64,
    pub nanos: u32,
}

/// An RDF term in its encoded form. Two terms are the same term exactly when
/// they are equal as values: ids are compared, not the strings they name, and
/// the two floating-point variants hold IEEE-754 bit patterns.
#[derive(Clone, Copy, PartialEq, Eq, Structural, Debug, Hash)]
pub enum EncodedTerm {
    DefaultGraph,
    NamedNode { iri_id: u64 },
    BlankNode(u128),
    SimpleLiteral { value_id: u64 },
    StringLiteral { value_id: u64 },
    LangStringLiteral { value_id: u64, language_id: u64 },
    TypedLiteral { value_id: u64, datatype_id: u64 },
    BooleanLiteral(bool),
    /// An `xsd:float`, as the bits of an IEEE-754 binary32.
    FloatLiteral(u32),
    /// An `xsd:double`, as the bits of an IEEE-754 binary64.
    DoubleLiteral(u64),
    IntegerLiteral(i128),
    DecimalLiteral(DecimalValue),
    DateTime(DateTimeValue),
    NaiveDateTime(NaiveDateTimeValue),
}

/// The empty simple literal.
pub open spec fn empty_simple_literal() -> EncodedTerm {
    EncodedTerm::SimpleLiteral { value_id: EMPTY_STRING_ID }
}

impl EncodedTerm {
    /// The term is a named node.
    pub open spec fn spec_is_named_node(&self) -> bool {
        self is NamedNode
    }

    /// The term is a blank node.
    pub open spec fn spec_is_blank_node(&self) -> bool {
        self is BlankNode
    }

    /// The term is a literal: neither the default graph nor a node.
    pub open spec fn spec_is_literal(&self) -> bool {
        !(self is DefaultGraph) && !(self is NamedNode) && !(self is BlankNode)
    }

    /// The term is a number of one of the four families.
    pub open spec fn spec_is_numeric(&self) -> bool {
        self is FloatLiteral || self is DoubleLiteral || self is IntegerLiteral
            || self is DecimalLiteral
    }

    /// The datatype IRI of a literal, as a named node; none for other terms.
    pub open spec fn spec_datatype(&self) -> Option<EncodedTerm> {
        match *self {
            EncodedTerm::DefaultGraph => None,
            EncodedTerm::NamedNode { .. } => None,
            EncodedTerm::BlankNode(_) => None,
            EncodedTerm::SimpleLiteral { .. } => Some(
                EncodedTerm::NamedNode { iri_id: XSD_STRING_ID },
            ),
            EncodedTerm::StringLiteral { .. } => Some(
                EncodedTerm::NamedNode { iri_id: XSD_STRING_ID },
            ),
            EncodedTerm::LangStringLiteral { .. } => Some(
                EncodedTerm::NamedNode { iri_id: RDF_LANG_STRING_ID },
            ),
            EncodedTerm::TypedLiteral { datatype_id, .. } => Some(
                EncodedTerm::NamedNode { iri_id: datatype_id },
            ),
            EncodedTerm::BooleanLiteral(_) => Some(
                EncodedTerm::NamedNode { iri_id: XSD_BOOLEAN_ID },
            ),
            EncodedTerm::FloatLiteral(_) => Some(EncodedTerm::NamedNode { iri_id: XSD_FLOAT_ID }),
            EncodedTerm::DoubleLiteral(_) => Some(
                EncodedTerm::NamedNode { iri_id: XSD_DOUBLE_ID },
            ),
            EncodedTerm::IntegerLiteral(_) => Some(
                EncodedTerm::NamedNode { iri_id: XSD_INTEGER_ID },
            ),
            EncodedTerm::DecimalLiteral(_) => Some(
                EncodedTerm::NamedNode { iri_id: XSD_DECIMAL_ID },
            ),
            EncodedTerm::DateTime(_) => Some(EncodedTerm::NamedNode { iri_id: XSD_DATE_TIME_ID }),
            EncodedTerm::NaiveDateTime(_) => Some(
                EncodedTerm::NamedNode { iri_id: XSD_DATE_TIME_ID },
            ),
        }
    }

    /// Whether the term is a named node.
    #[verifier::when_used_as_spec(spec_is_named_node)]
    pub fn is_named_node(&self) -> (r: bool)
        ensures
            r == self.spec_is_named_node(),
    {
        match self {
            EncodedTerm::NamedNode { .. } => true,
            _ => false,
        }
    }

    /// Whether the term is a blank node.
    #[verifier::when_used_as_spec(spec_is_blank_node)]
    pub fn is_blank_node(&self) -> (r: bool)
        ensures
            r == self.spec_is_blank_node(),
    {
        match self {
            EncodedTerm::BlankNode(_) => true,
            _ => false,
        }
    }

    /// Whether the term is a literal.
    #[verifier::when_used_as_spec(spec_is_literal)]
    pub fn is_literal(&self) -> (r: bool)
        ensures
            r == self.spec_is_literal(),
    {
        match self {
            EncodedTerm::DefaultGraph => false,
            EncodedTerm::NamedNode { .. } => false,
            EncodedTerm::BlankNode(_) => false,
            _ => true,
        }
    }

    /// Whether the term is a number.
    #[verifier::when_used_as_spec(spec_is_numeric)]
    pub fn is_numeric(&self) -> (r: bool)
        ensures
            r == self.spec_is_numeric(),
    {
        match self {
            EncodedTerm::FloatLiteral(_) => true,
            EncodedTerm::DoubleLiteral(_) => true,
            EncodedTerm::IntegerLiteral(_) => true,
            EncodedTerm::DecimalLiteral(_) => true,
            _ => false,
        }
    }

    /// The datatype IRI of a literal, as a named node.
    #[verifier::when_used_as_spec(spec_datatype)]
    pub fn datatype(&self) -> (r: Option<EncodedTerm>)
        ensures
            r == self.spec_datatype(),
    {
        match self {
            EncodedTerm::DefaultGraph => None,
            EncodedTerm::NamedNode { .. } => None,
            EncodedTerm::BlankNode(_) => None,
            EncodedTerm::SimpleLiteral { .. } => Some(
                EncodedTerm::NamedNode { iri_id: XSD_STRING_ID },
            ),
            EncodedTerm::StringLiteral { .. } => Some(
                EncodedTerm::NamedNode { iri_id: XSD_STRING_ID },
            ),
            EncodedTerm::LangStringLiteral { .. } => Some(
                EncodedTerm::NamedNode { iri_id: RDF_LANG_STRING_ID },
            ),
            EncodedTerm::TypedLiteral { datatype_id, .. } => Some(
                EncodedTerm::NamedNode { iri_id: *datatype_id },
            ),
            EncodedTerm::BooleanLiteral(_) => Some(
                EncodedTerm::NamedNode { iri_id: XSD_BOOLEAN_ID },
            ),
            EncodedTerm::FloatLiteral(_) => Some(EncodedTerm::NamedNode { iri_id: XSD_FLOAT_ID }),
            EncodedTerm::DoubleLiteral(_) => Some(
                EncodedTerm::NamedNode { iri_id: XSD_DOUBLE_ID },
            ),
            EncodedTerm::IntegerLiteral(_) => Some(
                EncodedTerm::NamedNode { iri_id: XSD_INTEGER_ID },
            ),
            EncodedTerm::DecimalLiteral(_) => Some(
                EncodedTerm::NamedNode { iri_id: XSD_DECIMAL_ID },
            ),
            EncodedTerm::DateTime(_) => Some(EncodedTerm::NamedNode { iri_id: XSD_DATE_TIME_ID }),
            EncodedTerm::NaiveDateTime(_) => Some(
                EncodedTerm::NamedNode { iri_id: XSD_DATE_TIME_ID },
            ),
        }
    }
}

/// The term of a boolean.
pub open spec fn bool_term(b: bool) -> EncodedTerm {
    EncodedTerm::BooleanLiteral(b)
}

/// A quad in encoded form. `graph_name` is `DefaultGraph` for the default graph.
#[derive(Clone, Copy, PartialEq, Eq, Structural, Debug, Hash)]
pub struct EncodedQuad {
    pub subject: EncodedTerm,
    pub predicate: EncodedTerm,
    pub object: EncodedTerm,
    pub graph_name: EncodedTerm,
}

/// A row of bindings: slot `i` holds the term bound to variable `i`, or none.
pub type EncodedTuple = Vec<Option<EncodedTerm>>;

/// Why an evaluation step failed. These travel inside the stream of rows and
/// are handed on as they are.
#[derive(Clone, Copy, PartialEq, Eq, Structural, Debug, Hash)]
pub enum EvaluationError {
    /// The dataset view reported a failure, with a code of its own.
    Store { code: u64 },
    /// A term that had to be decoded has no decoded form of the kind asked for.
    NotDecodable,
    /// The plan or the template names a slot that no row can have.
    InvalidPlan,
}

/// One element of an operator's output: a row of bindings or an error.
pub type Row = Result<EncodedTuple, EvaluationError>;

/// The mathematical form of a row: the sequence of its slots, or the error.
pub open spec fn row_model(row: Row) -> Result<Seq<Option<EncodedTerm>>, EvaluationError> {
    match row {
        Ok(tuple) => Ok(tuple@),
        Err(error) => Err(error),
    }
}

/// The mathematical form of a stream of rows.
pub open spec fn rows_model(rows: Seq<Row>) -> Seq<Result<Seq<Option<EncodedTerm>>, EvaluationError>> {
    Seq::new(rows.len(), |i: int| row_model(rows[i]))
}

} // verus!

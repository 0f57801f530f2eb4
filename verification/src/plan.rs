//! The physical plan that the evaluator interprets: operators, expressions and
//! the templates of CONSTRUCT.

use vstd::prelude::*;
use crate::term::EncodedTerm;
use crate::term::EncodedTuple;

verus! {

/// How one position of a quad pattern takes part in a match.
#[derive(Clone, Copy, PartialEq, Eq, Structural, Debug, Hash)]
pub enum PatternValue {
    Constant(EncodedTerm),
    Variable(usize),
}

impl PatternValue {
    /// The position holds a variable.
    pub open spec fn spec_is_var(&self) -> bool {
        self is Variable
    }

    /// Whether the position holds a variable.
    #[verifier::when_used_as_spec(spec_is_var)]
    pub fn is_var(&self) -> (r: bool)
        ensures
            r == self.spec_is_var(),
    {
        match self {
            PatternValue::Constant(_) => false,
            PatternValue::Variable(_) => true,
        }
    }
}

/// An operator of the plan.
#[derive(Debug)]
pub enum PlanNode {
    Init,
    StaticBindings { tuples: Vec<EncodedTuple> },
    QuadPatternJoin {
        child: Box<PlanNode>,
        subject: PatternValue,
        predicate: PatternValue,
        object: PatternValue,
        graph_name: PatternValue,
    },
    Join { left: Box<PlanNode>, right: Box<PlanNode> },
    LeftJoin { left: Box<PlanNode>, right: Box<PlanNode>, possible_problem_vars: Vec<usize> },
    Filter { child: Box<PlanNode>, expression: PlanExpression },
    Union { entry: Box<PlanNode>, children: Vec<PlanNode> },
    Extend { child: Box<PlanNode>, position: usize, expression: PlanExpression },
    Sort { child: Box<PlanNode>, by: Vec<Comparator> },
    HashDeduplicate { child: Box<PlanNode> },
    Skip { child: Box<PlanNode>, count: usize },
    Limit { child: Box<PlanNode>, count: usize },
    Project { child: Box<PlanNode>, mapping: Vec<usize> },
}

/// An expression of the plan, evaluated against one row.
#[derive(Debug)]
pub enum PlanExpression {
    Constant(EncodedTerm),
    Variable(usize),
    Or(Box<PlanExpression>, Box<PlanExpression>),
    And(Box<PlanExpression>, Box<PlanExpression>),
    Equal(Box<PlanExpression>, Box<PlanExpression>),
    NotEqual(Box<PlanExpression>, Box<PlanExpression>),
    Greater(Box<PlanExpression>, Box<PlanExpression>),
    GreaterOrEq(Box<PlanExpression>, Box<PlanExpression>),
    Lower(Box<PlanExpression>, Box<PlanExpression>),
    LowerOrEq(Box<PlanExpression>, Box<PlanExpression>),
    In(Box<PlanExpression>, Vec<PlanExpression>),
    Add(Box<PlanExpression>, Box<PlanExpression>),
    Sub(Box<PlanExpression>, Box<PlanExpression>),
    Mul(Box<PlanExpression>, Box<PlanExpression>),
    Div(Box<PlanExpression>, Box<PlanExpression>),
    UnaryPlus(Box<PlanExpression>),
    UnaryMinus(Box<PlanExpression>),
    UnaryNot(Box<PlanExpression>),
    Str(Box<PlanExpression>),
    Lang(Box<PlanExpression>),
    Datatype(Box<PlanExpression>),
    Bound(usize),
    IRI(Box<PlanExpression>),
    BNode(Option<Box<PlanExpression>>),
    UUID,
    StrUUID,
    Coalesce(Vec<PlanExpression>),
    If(Box<PlanExpression>, Box<PlanExpression>, Box<PlanExpression>),
    StrLang(Box<PlanExpression>, Box<PlanExpression>),
    SameTerm(Box<PlanExpression>, Box<PlanExpression>),
    IsIRI(Box<PlanExpression>),
    IsBlank(Box<PlanExpression>),
    IsLiteral(Box<PlanExpression>),
    IsNumeric(Box<PlanExpression>),
    LangMatches(Box<PlanExpression>, Box<PlanExpression>),
    Regex(Box<PlanExpression>, Box<PlanExpression>, Option<Box<PlanExpression>>),
    BooleanCast(Box<PlanExpression>),
    DoubleCast(Box<PlanExpression>),
    FloatCast(Box<PlanExpression>),
    IntegerCast(Box<PlanExpression>),
    DecimalCast(Box<PlanExpression>),
    DateTimeCast(Box<PlanExpression>),
    StringCast(Box<PlanExpression>),
}

/// One key of a sort, with its direction.
#[derive(Debug)]
pub enum Comparator {
    Asc(PlanExpression),
    Desc(PlanExpression),
}

/// How one position of a CONSTRUCT template gets its term.
#[derive(Clone, Copy, PartialEq, Eq, Structural, Debug, Hash)]
pub enum TripleTemplateValue {
    Constant(EncodedTerm),
    /// A blank node made anew for each row; positions with the same index
    /// share it within a row.
    BlankNode(usize),
    Variable(usize),
}

/// A triple of a CONSTRUCT template.
#[derive(Clone, Copy, PartialEq, Eq, Structural, Debug, Hash)]
pub struct TripleTemplate {
    pub subject: TripleTemplateValue,
    pub predicate: TripleTemplateValue,
    pub object: TripleTemplateValue,
}

} // verus!

//! What the evaluator consumes from its surroundings: a read view of the quad
//! store with its string dictionary, and floating-point arithmetic.

use vstd::prelude::*;
use crate::term::DecimalValue;
use crate::term::EncodedQuad;
use crate::term::EncodedTerm;
use crate::term::EvaluationError;
use crate::term::EMPTY_STRING_ID;

verus! {

/// Whether `quad` fits a pattern in which a position that is none matches
/// any term and a position that holds a term matches that term only.
pub open spec fn quad_matches(
    subject: Option<EncodedTerm>,
    predicate: Option<EncodedTerm>,
    object: Option<EncodedTerm>,
    graph_name: Option<EncodedTerm>,
    quad: EncodedQuad,
) -> bool {
    &&& subject matches Some(s) ==> quad.subject == s
    &&& predicate matches Some(p) ==> quad.predicate == p
    &&& object matches Some(o) ==> quad.object == o
    &&& graph_name matches Some(g) ==> quad.graph_name == g
}

/// `answer` is what the dataset answered to the pattern.
pub open spec fn pattern_answered<S: DatasetView>(
    view: &S,
    subject: Option<EncodedTerm>,
    predicate: Option<EncodedTerm>,
    object: Option<EncodedTerm>,
    graph_name: Option<EncodedTerm>,
    answer: Seq<Result<EncodedQuad, EvaluationError>>,
) -> bool {
    exists|given: Vec<Result<EncodedQuad, EvaluationError>>| #[trigger]
        call_ensures(S::quads_for_pattern, (view, subject, predicate, object, graph_name), given)
            && given@ == answer
}

/// What the answer to a pattern is: what the dataset answered, which is
/// what an answer may be.
pub open spec fn pattern_answer<S: DatasetView>(
    view: &S,
    subject: Option<EncodedTerm>,
    predicate: Option<EncodedTerm>,
    object: Option<EncodedTerm>,
    graph_name: Option<EncodedTerm>,
    answer: Seq<Result<EncodedQuad, EvaluationError>>,
) -> bool {
    pattern_answered(view, subject, predicate, object, graph_name, answer) && pattern_fits(
        view,
        subject,
        predicate,
        object,
        graph_name,
        answer,
    )
}

/// What an answer to a pattern may be: every quad in it is in the dataset
/// and fits the pattern, and an answer without error holds every such quad.
pub open spec fn pattern_fits<S: DatasetView>(
    view: &S,
    subject: Option<EncodedTerm>,
    predicate: Option<EncodedTerm>,
    object: Option<EncodedTerm>,
    graph_name: Option<EncodedTerm>,
    answer: Seq<Result<EncodedQuad, EvaluationError>>,
) -> bool {
    &&& forall|i: int|
        0 <= i < answer.len() ==> (#[trigger] answer[i] matches Ok(quad) ==> view.holds(quad)
            && quad_matches(subject, predicate, object, graph_name, quad))
    &&& (forall|i: int| 0 <= i < answer.len() ==> (#[trigger] answer[i]) is Ok) ==> forall|
        quad: EncodedQuad,
    |
        #[trigger] view.holds(quad) && quad_matches(subject, predicate, object, graph_name, quad)
            ==> answer.contains(Ok(quad))
}

/// The dictionary keeps the empty text under `EMPTY_STRING_ID` and under
/// no other id. The evaluator tells an empty literal by that id, without a
/// lookup; where this holds, that is to ask whether the text is empty.
pub open spec fn keeps_empty_text<S: DatasetView>(view: &S) -> bool {
    forall|id: u64|
        #![trigger view.text(id)]
        view.text(id) == Some(Seq::<char>::empty()) <==> id == EMPTY_STRING_ID
}

/// What a lookup of `id` may give: a failure, or the text that `id` names.
pub open spec fn lookup_outcome<S: DatasetView>(
    view: &S,
    id: u64,
    outcome: Option<Seq<char>>,
) -> bool {
    outcome matches Some(text) ==> view.text(id) == Some(text)
}

/// What interning `text` may give: a failure, or an id that names `text`.
pub open spec fn intern_outcome<S: DatasetView>(
    view: &S,
    text: Seq<char>,
    outcome: Option<u64>,
) -> bool {
    outcome matches Some(id) ==> view.text(id) == Some(text)
}

/// A read view of a quad store and its string dictionary, shared by the
/// operators of one query.
///
/// An implementation owes the evaluator what the clauses below say: ids are
/// stable while the view lives, so an id never names two texts, and a
/// pattern's answer holds quads of the dataset that fit the pattern. Any call
/// may fail; the evaluator hands such a failure on as it is.
pub trait DatasetView: Sized {
    /// The text that `id` names in the dictionary, now or once it is
    /// interned; none if `id` never names a text.
    spec fn text(&self, id: u64) -> Option<Seq<char>>;

    /// Whether the dataset holds `quad`.
    spec fn holds(&self, quad: EncodedQuad) -> bool;

    /// The quads that fit the pattern, in the store's order. A position that
    /// is none matches any term; a graph name that is none matches every
    /// graph, the default graph too.
    fn quads_for_pattern(
        &self,
        subject: Option<EncodedTerm>,
        predicate: Option<EncodedTerm>,
        object: Option<EncodedTerm>,
        graph_name: Option<EncodedTerm>,
    ) -> (answer: Vec<Result<EncodedQuad, EvaluationError>>)
        ensures
            forall|i: int|
                #![trigger answer@[i]]
                0 <= i < answer@.len() ==> (answer@[i] matches Ok(quad) ==> self.holds(quad)
                    && quad_matches(subject, predicate, object, graph_name, quad)),
            (forall|i: int| #![trigger answer@[i]] 0 <= i < answer@.len() ==> answer@[i] is Ok)
                ==> forall|quad: EncodedQuad|
                #![trigger self.holds(quad)]
                self.holds(quad) && quad_matches(subject, predicate, object, graph_name, quad)
                    ==> answer@.contains(Ok(quad)),
    ;

    /// The text that `id` names.
    fn get_str(&self, id: u64) -> (text: Result<String, EvaluationError>)
        ensures
            text matches Ok(s) ==> self.text(id) == Some(s@),
    ;

    /// An id that names `value`: the text is interned if the dictionary
    /// lacks it and can take it.
    fn insert_str(&self, value: &str) -> (id: Result<u64, EvaluationError>)
        ensures
            id matches Ok(i) ==> self.text(i) == Some(value@),
    ;
}

/// The four operations of arithmetic.
#[derive(Clone, Copy, PartialEq, Eq, Structural, Debug, Hash)]
pub enum ArithmeticOperator {
    Add,
    Sub,
    Mul,
    Div,
}

/// IEEE-754 arithmetic on bit patterns, supplied by the embedding program.
///
/// The evaluator decides which operation applies to which operands and what
/// becomes of the result; it assumes nothing about the bits that come back.
/// `single` is binary32 and `double` is binary64.
pub trait FloatArithmetic {
    /// The result of an operation on two `single` values.
    fn single_operation(&self, operator: ArithmeticOperator, left: u32, right: u32) -> u32;

    /// The result of an operation on two `double` values.
    fn double_operation(&self, operator: ArithmeticOperator, left: u64, right: u64) -> u64;

    /// A `single` value as a `double`.
    fn single_to_double(&self, value: u32) -> Option<u64>;

    /// A `double` value as a `single`.
    fn double_to_single(&self, value: u64) -> Option<u32>;

    /// An integer as a `single`.
    fn integer_to_single(&self, value: i128) -> Option<u32>;

    /// An integer as a `double`.
    fn integer_to_double(&self, value: i128) -> Option<u64>;

    /// A decimal as a `single`.
    fn decimal_to_single(&self, value: DecimalValue) -> Option<u32>;

    /// A decimal as a `double`.
    fn decimal_to_double(&self, value: DecimalValue) -> Option<u64>;

    /// The integer part of a `single` value.
    fn single_to_integer(&self, value: u32) -> Option<i128>;

    /// The integer part of a `double` value.
    fn double_to_integer(&self, value: u64) -> Option<i128>;

    /// A `single` value as a decimal.
    fn single_to_decimal(&self, value: u32) -> Option<DecimalValue>;

    /// A `double` value as a decimal.
    fn double_to_decimal(&self, value: u64) -> Option<DecimalValue>;

    /// The `single` value that a text stands for.
    fn parse_single(&self, text: &str) -> Option<u32>;

    /// The `double` value that a text stands for.
    fn parse_double(&self, text: &str) -> Option<u64>;

    /// The text of a `single` value.
    fn single_to_string(&self, value: u32) -> String;

    /// The text of a `double` value.
    fn double_to_string(&self, value: u64) -> String;
}

} // verus!

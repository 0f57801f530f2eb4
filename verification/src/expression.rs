//! The evaluation of an expression against one row.

use vstd::prelude::*;
use crate::bnodes::blank_node_for;
use crate::bnodes::label_node;
use crate::bnodes::with_label;
use crate::bnodes::BlankNodeMap;
use crate::dataset::DatasetView;
use crate::dataset::FloatArithmetic;
use crate::functions::and_value;
use crate::functions::binary_applied;
use crate::functions::or_value;
use crate::functions::regex_answer;
use crate::functions::regex_result;
use crate::functions::str_uuid_answer;
use crate::functions::uuid_answer;
use crate::functions::str_uuid_outcome;
use crate::functions::unary_applied;
use crate::functions::uuid_outcome;
use crate::functions::BinaryFunction;
use crate::functions::UnaryFunction;
use crate::lexical::random_uuid;
use crate::plan::PlanExpression;
use crate::term::bool_term;
use crate::term::EncodedTerm;
use crate::term::EncodedTuple;
use crate::tuple::get_tuple_value;
use crate::tuple::has_tuple_value;
use crate::tuple::tuple_value;
use crate::values::boolean_of;
use crate::values::equality_answer;
use crate::values::equality_outcome;
use crate::values::string_value_id;
use crate::values::SimpleEvaluator;

verus! {

/// What evaluating `expression` against `tuple` may give.
///
/// `r` is the result: a term, or none for an error or an unbound variable.
/// `before` and `after` are the blank nodes of the labels of this
/// evaluation before and after it: `BNode` with an argument gives a label
/// the blank node that it has, or a new one that it then keeps.
///
/// The result is fixed by the expression and the row, but for this: a
/// lookup or an interning in the dictionary may fail, which gives an
/// error; new blank nodes and UUIDs are random; and floating-point
/// results are what `floats` answered for the operands.
pub open spec fn expression_result<S: DatasetView, F: FloatArithmetic>(
    view: &S,
    floats: &F,
    before: Map<u64, u128>,
    expression: PlanExpression,
    tuple: Seq<Option<EncodedTerm>>,
    r: Option<EncodedTerm>,
    after: Map<u64, u128>,
) -> bool
    decreases expression,
{
    match expression {
        PlanExpression::Constant(term) => r == Some(term) && after == before,
        PlanExpression::Variable(v) => r == tuple_value(v as int, tuple) && after == before,
        PlanExpression::Bound(v) => r == Some(bool_term(tuple_value(v as int, tuple) is Some))
            && after == before,
        PlanExpression::Or(a, b) => exists|x: Option<EncodedTerm>, middle: Map<u64, u128>|
            #![trigger evaluated(x, middle)]
            evaluated(x, middle)
                && expression_result(view, floats, before, *a, tuple, x, middle)
                && if boolean_of(x) == Some(
                true,
            ) {
                r == Some(bool_term(true)) && after == middle
            } else {
                exists|y: Option<EncodedTerm>|
                    #![trigger evaluated(y, after)]
                    evaluated(y, after)
                        && expression_result(view, floats, middle, *b, tuple, y, after)
                        && r == or_value(x, y)
            },
        PlanExpression::And(a, b) => exists|x: Option<EncodedTerm>, middle: Map<u64, u128>|
            #![trigger evaluated(x, middle)]
            evaluated(x, middle)
                && expression_result(view, floats, before, *a, tuple, x, middle)
                && if boolean_of(x) == Some(
                false,
            ) {
                r == Some(bool_term(false)) && after == middle
            } else {
                exists|y: Option<EncodedTerm>|
                    #![trigger evaluated(y, after)]
                    evaluated(y, after)
                        && expression_result(view, floats, middle, *b, tuple, y, after)
                        && r == and_value(x, y)
            },
        PlanExpression::If(c, a, b) => exists|x: Option<EncodedTerm>, middle: Map<u64, u128>|
            #![trigger evaluated(x, middle)]
            evaluated(x, middle)
                && expression_result(view, floats, before, *c, tuple, x, middle)
                && match boolean_of(x) {
                Some(true) => expression_result(view, floats, middle, *a, tuple, r, after),
                Some(false) => expression_result(view, floats, middle, *b, tuple, r, after),
                None => r is None && after == middle,
            },
        PlanExpression::Coalesce(list) => coalesce_result(view, floats, before, list@, 0, tuple, r, after),
        PlanExpression::In(e, list) => exists|x: Option<EncodedTerm>, middle: Map<u64, u128>|
            #![trigger evaluated(x, middle)]
            evaluated(x, middle)
                && expression_result(view, floats, before, *e, tuple, x, middle)
                && match x {
                Some(needed) => in_result(view, floats, middle, needed, list@, 0, false, tuple, r, after),
                None => r is None && after == middle,
            },
        PlanExpression::BNode(None) => r matches Some(EncodedTerm::BlankNode(_)) && after
            == before,
        PlanExpression::BNode(Some(a)) => exists|x: Option<EncodedTerm>, middle: Map<u64, u128>|
            #![trigger evaluated(x, middle)]
            evaluated(x, middle)
                && expression_result(view, floats, before, *a, tuple, x, middle)
                && labelled_node_result(
                middle,
                x,
                r,
                after,
            ),
        PlanExpression::UUID => uuid_outcome(view, r) && uuid_answer(view, r) && after == before,
        PlanExpression::StrUUID => str_uuid_outcome(view, r) && str_uuid_answer(view, r) && after
            == before,
        PlanExpression::Regex(text, pattern, None) => exists|
            p: Option<EncodedTerm>,
            middle: Map<u64, u128>,
            t: Option<EncodedTerm>,
        |
            #![trigger evaluated(p, middle), evaluated(t, after)]
            evaluated(p, middle)
                && evaluated(t, after)
                && expression_result(view, floats, before, *pattern, tuple, p, middle)
                && expression_result(
                view,
                floats,
                middle,
                *text,
                tuple,
                t,
                after,
            ) && regex_result(view, t, p, None, r) && regex_answer(view, t, p, None, r),
        PlanExpression::Regex(text, pattern, Some(flags)) => exists|
            p: Option<EncodedTerm>,
            first: Map<u64, u128>,
            f: Option<EncodedTerm>,
            second: Map<u64, u128>,
            t: Option<EncodedTerm>,
        |
            #![trigger evaluated(p, first), evaluated(f, second), evaluated(t, after)]
            evaluated(p, first)
                && evaluated(f, second)
                && evaluated(t, after)
                && expression_result(view, floats, before, *pattern, tuple, p, first)
                && expression_result(
                view,
                floats,
                first,
                *flags,
                tuple,
                f,
                second,
            ) && expression_result(view, floats, second, *text, tuple, t, after) && regex_result(
                view,
                t,
                p,
                Some(f),
                r,
            ) && regex_answer(view, t, p, Some(f), r),
        PlanExpression::UnaryPlus(a) => exists|x: Option<EncodedTerm>|
            #![trigger evaluated(x, after)]
            evaluated(x, after)
                && expression_result(view, floats, before, *a, tuple, x, after)
                && unary_applied(view, floats, UnaryFunction::UnaryPlus, x, r),
        PlanExpression::UnaryMinus(a) => exists|x: Option<EncodedTerm>|
            #![trigger evaluated(x, after)]
            evaluated(x, after)
                && expression_result(view, floats, before, *a, tuple, x, after)
                && unary_applied(view, floats, UnaryFunction::UnaryMinus, x, r),
        PlanExpression::UnaryNot(a) => exists|x: Option<EncodedTerm>|
            #![trigger evaluated(x, after)]
            evaluated(x, after)
                && expression_result(view, floats, before, *a, tuple, x, after)
                && unary_applied(view, floats, UnaryFunction::UnaryNot, x, r),
        PlanExpression::Str(a) => exists|x: Option<EncodedTerm>|
            #![trigger evaluated(x, after)]
            evaluated(x, after)
                && expression_result(view, floats, before, *a, tuple, x, after)
                && unary_applied(view, floats, UnaryFunction::Str, x, r),
        PlanExpression::Lang(a) => exists|x: Option<EncodedTerm>|
            #![trigger evaluated(x, after)]
            evaluated(x, after)
                && expression_result(view, floats, before, *a, tuple, x, after)
                && unary_applied(view, floats, UnaryFunction::Lang, x, r),
        PlanExpression::Datatype(a) => exists|x: Option<EncodedTerm>|
            #![trigger evaluated(x, after)]
            evaluated(x, after)
                && expression_result(view, floats, before, *a, tuple, x, after)
                && unary_applied(view, floats, UnaryFunction::Datatype, x, r),
        PlanExpression::IRI(a) => exists|x: Option<EncodedTerm>|
            #![trigger evaluated(x, after)]
            evaluated(x, after)
                && expression_result(view, floats, before, *a, tuple, x, after)
                && unary_applied(view, floats, UnaryFunction::IRI, x, r),
        PlanExpression::IsIRI(a) => exists|x: Option<EncodedTerm>|
            #![trigger evaluated(x, after)]
            evaluated(x, after)
                && expression_result(view, floats, before, *a, tuple, x, after)
                && unary_applied(view, floats, UnaryFunction::IsIRI, x, r),
        PlanExpression::IsBlank(a) => exists|x: Option<EncodedTerm>|
            #![trigger evaluated(x, after)]
            evaluated(x, after)
                && expression_result(view, floats, before, *a, tuple, x, after)
                && unary_applied(view, floats, UnaryFunction::IsBlank, x, r),
        PlanExpression::IsLiteral(a) => exists|x: Option<EncodedTerm>|
            #![trigger evaluated(x, after)]
            evaluated(x, after)
                && expression_result(view, floats, before, *a, tuple, x, after)
                && unary_applied(view, floats, UnaryFunction::IsLiteral, x, r),
        PlanExpression::IsNumeric(a) => exists|x: Option<EncodedTerm>|
            #![trigger evaluated(x, after)]
            evaluated(x, after)
                && expression_result(view, floats, before, *a, tuple, x, after)
                && unary_applied(view, floats, UnaryFunction::IsNumeric, x, r),
        PlanExpression::BooleanCast(a) => exists|x: Option<EncodedTerm>|
            #![trigger evaluated(x, after)]
            evaluated(x, after)
                && expression_result(view, floats, before, *a, tuple, x, after)
                && unary_applied(view, floats, UnaryFunction::BooleanCast, x, r),
        PlanExpression::DoubleCast(a) => exists|x: Option<EncodedTerm>|
            #![trigger evaluated(x, after)]
            evaluated(x, after)
                && expression_result(view, floats, before, *a, tuple, x, after)
                && unary_applied(view, floats, UnaryFunction::DoubleCast, x, r),
        PlanExpression::FloatCast(a) => exists|x: Option<EncodedTerm>|
            #![trigger evaluated(x, after)]
            evaluated(x, after)
                && expression_result(view, floats, before, *a, tuple, x, after)
                && unary_applied(view, floats, UnaryFunction::FloatCast, x, r),
        PlanExpression::IntegerCast(a) => exists|x: Option<EncodedTerm>|
            #![trigger evaluated(x, after)]
            evaluated(x, after)
                && expression_result(view, floats, before, *a, tuple, x, after)
                && unary_applied(view, floats, UnaryFunction::IntegerCast, x, r),
        PlanExpression::DecimalCast(a) => exists|x: Option<EncodedTerm>|
            #![trigger evaluated(x, after)]
            evaluated(x, after)
                && expression_result(view, floats, before, *a, tuple, x, after)
                && unary_applied(view, floats, UnaryFunction::DecimalCast, x, r),
        PlanExpression::DateTimeCast(a) => exists|x: Option<EncodedTerm>|
            #![trigger evaluated(x, after)]
            evaluated(x, after)
                && expression_result(view, floats, before, *a, tuple, x, after)
                && unary_applied(view, floats, UnaryFunction::DateTimeCast, x, r),
        PlanExpression::StringCast(a) => exists|x: Option<EncodedTerm>|
            #![trigger evaluated(x, after)]
            evaluated(x, after)
                && expression_result(view, floats, before, *a, tuple, x, after)
                && unary_applied(view, floats, UnaryFunction::StringCast, x, r),
        PlanExpression::Equal(a, b) => exists|
            x: Option<EncodedTerm>,
            middle: Map<u64, u128>,
            y: Option<EncodedTerm>,
        |
            #![trigger evaluated(x, middle), evaluated(y, after)]
            evaluated(x, middle)
                && evaluated(y, after)
                && expression_result(view, floats, before, *a, tuple, x, middle)
                && expression_result(
                view,
                floats,
                middle,
                *b,
                tuple,
                y,
                after,
            ) && binary_applied(view, floats, BinaryFunction::Equal, x, y, r),
        PlanExpression::NotEqual(a, b) => exists|
            x: Option<EncodedTerm>,
            middle: Map<u64, u128>,
            y: Option<EncodedTerm>,
        |
            #![trigger evaluated(x, middle), evaluated(y, after)]
            evaluated(x, middle)
                && evaluated(y, after)
                && expression_result(view, floats, before, *a, tuple, x, middle)
                && expression_result(
                view,
                floats,
                middle,
                *b,
                tuple,
                y,
                after,
            ) && binary_applied(view, floats, BinaryFunction::NotEqual, x, y, r),
        PlanExpression::Greater(a, b) => exists|
            x: Option<EncodedTerm>,
            middle: Map<u64, u128>,
            y: Option<EncodedTerm>,
        |
            #![trigger evaluated(x, middle), evaluated(y, after)]
            evaluated(x, middle)
                && evaluated(y, after)
                && expression_result(view, floats, before, *a, tuple, x, middle)
                && expression_result(
                view,
                floats,
                middle,
                *b,
                tuple,
                y,
                after,
            ) && binary_applied(view, floats, BinaryFunction::Greater, x, y, r),
        PlanExpression::GreaterOrEq(a, b) => exists|
            x: Option<EncodedTerm>,
            middle: Map<u64, u128>,
            y: Option<EncodedTerm>,
        |
            #![trigger evaluated(x, middle), evaluated(y, after)]
            evaluated(x, middle)
                && evaluated(y, after)
                && expression_result(view, floats, before, *a, tuple, x, middle)
                && expression_result(
                view,
                floats,
                middle,
                *b,
                tuple,
                y,
                after,
            ) && binary_applied(view, floats, BinaryFunction::GreaterOrEq, x, y, r),
        PlanExpression::Lower(a, b) => exists|
            x: Option<EncodedTerm>,
            middle: Map<u64, u128>,
            y: Option<EncodedTerm>,
        |
            #![trigger evaluated(x, middle), evaluated(y, after)]
            evaluated(x, middle)
                && evaluated(y, after)
                && expression_result(view, floats, before, *a, tuple, x, middle)
                && expression_result(
                view,
                floats,
                middle,
                *b,
                tuple,
                y,
                after,
            ) && binary_applied(view, floats, BinaryFunction::Lower, x, y, r),
        PlanExpression::LowerOrEq(a, b) => exists|
            x: Option<EncodedTerm>,
            middle: Map<u64, u128>,
            y: Option<EncodedTerm>,
        |
            #![trigger evaluated(x, middle), evaluated(y, after)]
            evaluated(x, middle)
                && evaluated(y, after)
                && expression_result(view, floats, before, *a, tuple, x, middle)
                && expression_result(
                view,
                floats,
                middle,
                *b,
                tuple,
                y,
                after,
            ) && binary_applied(view, floats, BinaryFunction::LowerOrEq, x, y, r),
        PlanExpression::Add(a, b) => exists|
            x: Option<EncodedTerm>,
            middle: Map<u64, u128>,
            y: Option<EncodedTerm>,
        |
            #![trigger evaluated(x, middle), evaluated(y, after)]
            evaluated(x, middle)
                && evaluated(y, after)
                && expression_result(view, floats, before, *a, tuple, x, middle)
                && expression_result(
                view,
                floats,
                middle,
                *b,
                tuple,
                y,
                after,
            ) && binary_applied(view, floats, BinaryFunction::Add, x, y, r),
        PlanExpression::Sub(a, b) => exists|
            x: Option<EncodedTerm>,
            middle: Map<u64, u128>,
            y: Option<EncodedTerm>,
        |
            #![trigger evaluated(x, middle), evaluated(y, after)]
            evaluated(x, middle)
                && evaluated(y, after)
                && expression_result(view, floats, before, *a, tuple, x, middle)
                && expression_result(
                view,
                floats,
                middle,
                *b,
                tuple,
                y,
                after,
            ) && binary_applied(view, floats, BinaryFunction::Sub, x, y, r),
        PlanExpression::Mul(a, b) => exists|
            x: Option<EncodedTerm>,
            middle: Map<u64, u128>,
            y: Option<EncodedTerm>,
        |
            #![trigger evaluated(x, middle), evaluated(y, after)]
            evaluated(x, middle)
                && evaluated(y, after)
                && expression_result(view, floats, before, *a, tuple, x, middle)
                && expression_result(
                view,
                floats,
                middle,
                *b,
                tuple,
                y,
                after,
            ) && binary_applied(view, floats, BinaryFunction::Mul, x, y, r),
        PlanExpression::Div(a, b) => exists|
            x: Option<EncodedTerm>,
            middle: Map<u64, u128>,
            y: Option<EncodedTerm>,
        |
            #![trigger evaluated(x, middle), evaluated(y, after)]
            evaluated(x, middle)
                && evaluated(y, after)
                && expression_result(view, floats, before, *a, tuple, x, middle)
                && expression_result(
                view,
                floats,
                middle,
                *b,
                tuple,
                y,
                after,
            ) && binary_applied(view, floats, BinaryFunction::Div, x, y, r),
        PlanExpression::StrLang(a, b) => exists|
            x: Option<EncodedTerm>,
            middle: Map<u64, u128>,
            y: Option<EncodedTerm>,
        |
            #![trigger evaluated(x, middle), evaluated(y, after)]
            evaluated(x, middle)
                && evaluated(y, after)
                && expression_result(view, floats, before, *a, tuple, x, middle)
                && expression_result(
                view,
                floats,
                middle,
                *b,
                tuple,
                y,
                after,
            ) && binary_applied(view, floats, BinaryFunction::StrLang, x, y, r),
        PlanExpression::SameTerm(a, b) => exists|
            x: Option<EncodedTerm>,
            middle: Map<u64, u128>,
            y: Option<EncodedTerm>,
        |
            #![trigger evaluated(x, middle), evaluated(y, after)]
            evaluated(x, middle)
                && evaluated(y, after)
                && expression_result(view, floats, before, *a, tuple, x, middle)
                && expression_result(
                view,
                floats,
                middle,
                *b,
                tuple,
                y,
                after,
            ) && binary_applied(view, floats, BinaryFunction::SameTerm, x, y, r),
        PlanExpression::LangMatches(a, b) => exists|
            x: Option<EncodedTerm>,
            middle: Map<u64, u128>,
            y: Option<EncodedTerm>,
        |
            #![trigger evaluated(x, middle), evaluated(y, after)]
            evaluated(x, middle)
                && evaluated(y, after)
                && expression_result(view, floats, before, *a, tuple, x, middle)
                && expression_result(
                view,
                floats,
                middle,
                *b,
                tuple,
                y,
                after,
            ) && binary_applied(view, floats, BinaryFunction::LangMatches, x, y, r),
    }
}

/// Names a result and the blank nodes after it. It holds of all of them:
/// the quantifiers of `expression_result` are instantiated by it.
pub open spec fn evaluated(r: Option<EncodedTerm>, after: Map<u64, u128>) -> bool {
    true
}

/// What `BNode` with an argument may give from the result of its
/// argument: the blank node of the label that a simple or `xsd:string`
/// literal names. A label without blank node gets a new one.
pub open spec fn labelled_node_result(
    before: Map<u64, u128>,
    x: Option<EncodedTerm>,
    r: Option<EncodedTerm>,
    after: Map<u64, u128>,
) -> bool {
    match x {
        Some(term) => match string_value_id(term) {
            Some(label) => exists|fresh: u128|
                r == Some(EncodedTerm::BlankNode(#[trigger] label_node(before, label, fresh)))
                    && after == with_label(before, label, fresh),
            None => r is None && after == before,
        },
        None => r is None && after == before,
    }
}

/// What `Coalesce` may give from its argument `from` on: the first result
/// that is defined, and an error if there is none.
pub open spec fn coalesce_result<S: DatasetView, F: FloatArithmetic>(
    view: &S,
    floats: &F,
    before: Map<u64, u128>,
    list: Seq<PlanExpression>,
    from: int,
    tuple: Seq<Option<EncodedTerm>>,
    r: Option<EncodedTerm>,
    after: Map<u64, u128>,
) -> bool
    decreases list, list.len() - from,
{
    if from < 0 || from >= list.len() {
        r is None && after == before
    } else {
        exists|x: Option<EncodedTerm>, middle: Map<u64, u128>|
            #![trigger evaluated(x, middle)]
            evaluated(x, middle)
                && expression_result(view, floats, before, list[from], tuple, x, middle)
                && if x is Some {
                r == x && after == middle
            } else {
                coalesce_result(view, floats, middle, list, from + 1, tuple, r, after)
            }
    }
}

/// What `In` may give from the member `from` of its list on, where
/// `needed` is sought and `error` says whether a member before was
/// undefined: true at the first member equal to `needed`; if there is
/// none, an error if a member was undefined and false otherwise.
pub open spec fn in_result<S: DatasetView, F: FloatArithmetic>(
    view: &S,
    floats: &F,
    before: Map<u64, u128>,
    needed: EncodedTerm,
    list: Seq<PlanExpression>,
    from: int,
    error: bool,
    tuple: Seq<Option<EncodedTerm>>,
    r: Option<EncodedTerm>,
    after: Map<u64, u128>,
) -> bool
    decreases list, list.len() - from,
{
    if from < 0 || from >= list.len() {
        r == (if error {
            None
        } else {
            Some(bool_term(false))
        }) && after == before
    } else {
        exists|x: Option<EncodedTerm>, middle: Map<u64, u128>|
            #![trigger evaluated(x, middle)]
            evaluated(x, middle)
                && expression_result(view, floats, before, list[from], tuple, x, middle)
                && match x {
                Some(possible) => exists|equal: bool| #[trigger]
                    equality_outcome(view, needed, possible, equal) && equality_answer(view, floats, needed, possible, equal) && if equal {
                        r == Some(bool_term(true)) && after == middle
                    } else {
                        in_result(view, floats, middle, needed, list, from + 1, error, tuple, r, after)
                    },
                None => in_result(view, floats, middle, needed, list, from + 1, true, tuple, r, after),
            }
    }
}

impl<S: DatasetView, F: FloatArithmetic> SimpleEvaluator<S, F> {
    /// Evaluates `expression` against `tuple`, with the labels of blank
    /// nodes that the evaluation has met so far in `bnodes`.
    pub fn eval_expression_with(
        &self,
        expression: &PlanExpression,
        tuple: &EncodedTuple,
        bnodes: &mut BlankNodeMap,
    ) -> (r: Option<EncodedTerm>)
        ensures
            expression_result(
                &self.dataset,
                &self.floats,
                old(bnodes)@,
                *expression,
                tuple@,
                r,
                final(bnodes)@,
            ),
            evaluated(r, final(bnodes)@),
        decreases expression, 0nat,
    {
        match expression {
            PlanExpression::Constant(term) => Some(*term),
            PlanExpression::Variable(v) => get_tuple_value(*v, tuple),
            PlanExpression::Bound(v) => Some(
                EncodedTerm::BooleanLiteral(has_tuple_value(*v, tuple)),
            ),
            PlanExpression::Or(a, b) => {
                let x = self.eval_expression_with(a, tuple, bnodes);
                let left = match x {
                    Some(term) => self.to_bool(term),
                    None => None,
                };
                match left {
                    Some(true) => Some(EncodedTerm::BooleanLiteral(true)),
                    Some(false) => self.eval_expression_with(b, tuple, bnodes),
                    None => {
                        let y = self.eval_expression_with(b, tuple, bnodes);
                        let right = match y {
                            Some(term) => self.to_bool(term),
                            None => None,
                        };
                        match right {
                            Some(true) => Some(EncodedTerm::BooleanLiteral(true)),
                            _ => None,
                        }
                    },
                }
            },
            PlanExpression::And(a, b) => {
                let x = self.eval_expression_with(a, tuple, bnodes);
                let left = match x {
                    Some(term) => self.to_bool(term),
                    None => None,
                };
                match left {
                    Some(true) => self.eval_expression_with(b, tuple, bnodes),
                    Some(false) => Some(EncodedTerm::BooleanLiteral(false)),
                    None => {
                        let y = self.eval_expression_with(b, tuple, bnodes);
                        let right = match y {
                            Some(term) => self.to_bool(term),
                            None => None,
                        };
                        match right {
                            Some(false) => Some(EncodedTerm::BooleanLiteral(false)),
                            _ => None,
                        }
                    },
                }
            },
            PlanExpression::If(c, a, b) => {
                let x = self.eval_expression_with(c, tuple, bnodes);
                let condition = match x {
                    Some(term) => self.to_bool(term),
                    None => None,
                };
                match condition {
                    Some(true) => self.eval_expression_with(a, tuple, bnodes),
                    Some(false) => self.eval_expression_with(b, tuple, bnodes),
                    None => None,
                }
            },
            PlanExpression::Coalesce(list) => self.eval_coalesce(list, 0, tuple, bnodes),
            PlanExpression::In(e, list) => {
                let x = self.eval_expression_with(e, tuple, bnodes);
                match x {
                    Some(needed) => self.eval_in(needed, list, 0, false, tuple, bnodes),
                    None => None,
                }
            },
            PlanExpression::BNode(None) => Some(EncodedTerm::BlankNode(random_uuid())),
            PlanExpression::BNode(Some(a)) => {
                let x = self.eval_expression_with(a, tuple, bnodes);
                let label = match x {
                    Some(EncodedTerm::SimpleLiteral { value_id }) => Some(value_id),
                    Some(EncodedTerm::StringLiteral { value_id }) => Some(value_id),
                    _ => None,
                };
                match label {
                    Some(label) => {
                        let fresh = random_uuid();
                        Some(EncodedTerm::BlankNode(blank_node_for(bnodes, label, fresh)))
                    },
                    None => None,
                }
            },
            PlanExpression::UUID => self.new_uuid_node(),
            PlanExpression::StrUUID => self.new_uuid_literal(),
            PlanExpression::Regex(text, pattern, None) => {
                let p = self.eval_expression_with(pattern, tuple, bnodes);
                let t = self.eval_expression_with(text, tuple, bnodes);
                self.apply_regex(t, p, None)
            },
            PlanExpression::Regex(text, pattern, Some(flags)) => {
                let p = self.eval_expression_with(pattern, tuple, bnodes);
                let f = self.eval_expression_with(flags, tuple, bnodes);
                let t = self.eval_expression_with(text, tuple, bnodes);
                self.apply_regex(t, p, Some(f))
            },
            PlanExpression::UnaryPlus(a) => {
                let x = self.eval_expression_with(a, tuple, bnodes);
                self.apply_unary(UnaryFunction::UnaryPlus, x)
            },
            PlanExpression::UnaryMinus(a) => {
                let x = self.eval_expression_with(a, tuple, bnodes);
                self.apply_unary(UnaryFunction::UnaryMinus, x)
            },
            PlanExpression::UnaryNot(a) => {
                let x = self.eval_expression_with(a, tuple, bnodes);
                self.apply_unary(UnaryFunction::UnaryNot, x)
            },
            PlanExpression::Str(a) => {
                let x = self.eval_expression_with(a, tuple, bnodes);
                self.apply_unary(UnaryFunction::Str, x)
            },
            PlanExpression::Lang(a) => {
                let x = self.eval_expression_with(a, tuple, bnodes);
                self.apply_unary(UnaryFunction::Lang, x)
            },
            PlanExpression::Datatype(a) => {
                let x = self.eval_expression_with(a, tuple, bnodes);
                self.apply_unary(UnaryFunction::Datatype, x)
            },
            PlanExpression::IRI(a) => {
                let x = self.eval_expression_with(a, tuple, bnodes);
                self.apply_unary(UnaryFunction::IRI, x)
            },
            PlanExpression::IsIRI(a) => {
                let x = self.eval_expression_with(a, tuple, bnodes);
                self.apply_unary(UnaryFunction::IsIRI, x)
            },
            PlanExpression::IsBlank(a) => {
                let x = self.eval_expression_with(a, tuple, bnodes);
                self.apply_unary(UnaryFunction::IsBlank, x)
            },
            PlanExpression::IsLiteral(a) => {
                let x = self.eval_expression_with(a, tuple, bnodes);
                self.apply_unary(UnaryFunction::IsLiteral, x)
            },
            PlanExpression::IsNumeric(a) => {
                let x = self.eval_expression_with(a, tuple, bnodes);
                self.apply_unary(UnaryFunction::IsNumeric, x)
            },
            PlanExpression::BooleanCast(a) => {
                let x = self.eval_expression_with(a, tuple, bnodes);
                self.apply_unary(UnaryFunction::BooleanCast, x)
            },
            PlanExpression::DoubleCast(a) => {
                let x = self.eval_expression_with(a, tuple, bnodes);
                self.apply_unary(UnaryFunction::DoubleCast, x)
            },
            PlanExpression::FloatCast(a) => {
                let x = self.eval_expression_with(a, tuple, bnodes);
                self.apply_unary(UnaryFunction::FloatCast, x)
            },
            PlanExpression::IntegerCast(a) => {
                let x = self.eval_expression_with(a, tuple, bnodes);
                self.apply_unary(UnaryFunction::IntegerCast, x)
            },
            PlanExpression::DecimalCast(a) => {
                let x = self.eval_expression_with(a, tuple, bnodes);
                self.apply_unary(UnaryFunction::DecimalCast, x)
            },
            PlanExpression::DateTimeCast(a) => {
                let x = self.eval_expression_with(a, tuple, bnodes);
                self.apply_unary(UnaryFunction::DateTimeCast, x)
            },
            PlanExpression::StringCast(a) => {
                let x = self.eval_expression_with(a, tuple, bnodes);
                self.apply_unary(UnaryFunction::StringCast, x)
            },
            PlanExpression::Equal(a, b) => {
                let x = self.eval_expression_with(a, tuple, bnodes);
                let y = self.eval_expression_with(b, tuple, bnodes);
                self.apply_binary(BinaryFunction::Equal, x, y)
            },
            PlanExpression::NotEqual(a, b) => {
                let x = self.eval_expression_with(a, tuple, bnodes);
                let y = self.eval_expression_with(b, tuple, bnodes);
                self.apply_binary(BinaryFunction::NotEqual, x, y)
            },
            PlanExpression::Greater(a, b) => {
                let x = self.eval_expression_with(a, tuple, bnodes);
                let y = self.eval_expression_with(b, tuple, bnodes);
                self.apply_binary(BinaryFunction::Greater, x, y)
            },
            PlanExpression::GreaterOrEq(a, b) => {
                let x = self.eval_expression_with(a, tuple, bnodes);
                let y = self.eval_expression_with(b, tuple, bnodes);
                self.apply_binary(BinaryFunction::GreaterOrEq, x, y)
            },
            PlanExpression::Lower(a, b) => {
                let x = self.eval_expression_with(a, tuple, bnodes);
                let y = self.eval_expression_with(b, tuple, bnodes);
                self.apply_binary(BinaryFunction::Lower, x, y)
            },
            PlanExpression::LowerOrEq(a, b) => {
                let x = self.eval_expression_with(a, tuple, bnodes);
                let y = self.eval_expression_with(b, tuple, bnodes);
                self.apply_binary(BinaryFunction::LowerOrEq, x, y)
            },
            PlanExpression::Add(a, b) => {
                let x = self.eval_expression_with(a, tuple, bnodes);
                let y = self.eval_expression_with(b, tuple, bnodes);
                self.apply_binary(BinaryFunction::Add, x, y)
            },
            PlanExpression::Sub(a, b) => {
                let x = self.eval_expression_with(a, tuple, bnodes);
                let y = self.eval_expression_with(b, tuple, bnodes);
                self.apply_binary(BinaryFunction::Sub, x, y)
            },
            PlanExpression::Mul(a, b) => {
                let x = self.eval_expression_with(a, tuple, bnodes);
                let y = self.eval_expression_with(b, tuple, bnodes);
                self.apply_binary(BinaryFunction::Mul, x, y)
            },
            PlanExpression::Div(a, b) => {
                let x = self.eval_expression_with(a, tuple, bnodes);
                let y = self.eval_expression_with(b, tuple, bnodes);
                self.apply_binary(BinaryFunction::Div, x, y)
            },
            PlanExpression::StrLang(a, b) => {
                let x = self.eval_expression_with(a, tuple, bnodes);
                let y = self.eval_expression_with(b, tuple, bnodes);
                self.apply_binary(BinaryFunction::StrLang, x, y)
            },
            PlanExpression::SameTerm(a, b) => {
                let x = self.eval_expression_with(a, tuple, bnodes);
                let y = self.eval_expression_with(b, tuple, bnodes);
                self.apply_binary(BinaryFunction::SameTerm, x, y)
            },
            PlanExpression::LangMatches(a, b) => {
                let x = self.eval_expression_with(a, tuple, bnodes);
                let y = self.eval_expression_with(b, tuple, bnodes);
                self.apply_binary(BinaryFunction::LangMatches, x, y)
            },
        }
    }

    /// `Coalesce` over the arguments from `from` on.
    fn eval_coalesce(
        &self,
        list: &Vec<PlanExpression>,
        from: usize,
        tuple: &EncodedTuple,
        bnodes: &mut BlankNodeMap,
    ) -> (r: Option<EncodedTerm>)
        ensures
            coalesce_result(
                &self.dataset,
                &self.floats,
                old(bnodes)@,
                list@,
                from as int,
                tuple@,
                r,
                final(bnodes)@,
            ),
        decreases list, list.len() - from,
    {
        if from >= list.len() {
            None
        } else {
            let x = self.eval_expression_with(&list[from], tuple, bnodes);
            if x.is_some() {
                x
            } else {
                self.eval_coalesce(list, from + 1, tuple, bnodes)
            }
        }
    }

    /// `In` over the members of the list from `from` on.
    fn eval_in(
        &self,
        needed: EncodedTerm,
        list: &Vec<PlanExpression>,
        from: usize,
        error: bool,
        tuple: &EncodedTuple,
        bnodes: &mut BlankNodeMap,
    ) -> (r: Option<EncodedTerm>)
        ensures
            in_result(
                &self.dataset,
                &self.floats,
                old(bnodes)@,
                needed,
                list@,
                from as int,
                error,
                tuple@,
                r,
                final(bnodes)@,
            ),
        decreases list, list.len() - from,
    {
        if from >= list.len() {
            if error {
                None
            } else {
                Some(EncodedTerm::BooleanLiteral(false))
            }
        } else {
            let x = self.eval_expression_with(&list[from], tuple, bnodes);
            match x {
                Some(possible) => {
                    if self.equals(needed, possible) {
                        Some(EncodedTerm::BooleanLiteral(true))
                    } else {
                        self.eval_in(needed, list, from + 1, error, tuple, bnodes)
                    }
                },
                None => self.eval_in(needed, list, from + 1, true, tuple, bnodes),
            }
        }
    }

    /// Evaluates `expression` against `tuple`. The labels of blank nodes
    /// hold for this evaluation alone.
    pub fn eval_expression(&self, expression: &PlanExpression, tuple: &EncodedTuple) -> (r: Option<
        EncodedTerm,
    >)
        ensures
            expression_value(&self.dataset, &self.floats, *expression, tuple@, r),
    {
        let mut bnodes = BlankNodeMap::new();
        self.eval_expression_with(expression, tuple, &mut bnodes)
    }
}

/// What evaluating `expression` against `tuple` may give, with no label
/// of a blank node met before.
pub open spec fn expression_value<S: DatasetView, F: FloatArithmetic>(
    view: &S,
    floats: &F,
    expression: PlanExpression,
    tuple: Seq<Option<EncodedTerm>>,
    r: Option<EncodedTerm>,
) -> bool {
    exists|after: Map<u64, u128>| #[trigger]
        expression_result(view, floats, Map::<u64, u128>::empty(), expression, tuple, r, after)
}

} // verus!

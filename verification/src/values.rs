//! What the operators of expressions do to terms: the effective boolean
//! value, the order of literals, numeric promotion and arithmetic, and the
//! passage between terms and texts.

use vstd::prelude::*;
use crate::dataset::intern_outcome;
use crate::dataset::lookup_outcome;
use crate::dataset::ArithmeticOperator;
use crate::dataset::keeps_empty_text;
use crate::dataset::DatasetView;
use crate::dataset::FloatArithmetic;
use crate::lexical::compare_text;
use crate::lexical::date_time_text;
use crate::lexical::date_time_to_string;
use crate::lexical::integer_text;
use crate::lexical::integer_to_string;
use crate::lexical::naive_date_time_text;
use crate::lexical::naive_date_time_to_string;
use crate::lexical::text_order;
use crate::numeric::decimal_arithmetic;
use crate::numeric::decimal_compare;
use crate::numeric::decimal_from_integer;
use crate::numeric::decimal_of_integer;
use crate::numeric::decimal_operation;
use crate::numeric::decimal_order;
use crate::numeric::decimal_text;
use crate::numeric::decimal_to_string;
use crate::numeric::double_compare;
use crate::numeric::double_is_zero;
use crate::numeric::double_order;
use crate::numeric::double_zero;
use crate::numeric::int_order;
use crate::numeric::integer_arithmetic;
use crate::numeric::integer_compare;
use crate::numeric::integer_operation;
use crate::numeric::single_compare;
use crate::numeric::single_is_zero;
use crate::numeric::single_order;
use crate::numeric::single_zero;
use crate::numeric::Comparison;
use crate::term::DecimalValue;
use crate::term::EncodedTerm;
use crate::term::EvaluationError;
use crate::term::EMPTY_STRING_ID;

verus! {

/// An evaluator of plans over a dataset view. Floating-point arithmetic is
/// done by `floats`.
pub struct SimpleEvaluator<S: DatasetView, F: FloatArithmetic> {
    pub dataset: S,
    pub floats: F,
}

/// Two numbers of one family, after promotion.
#[derive(Clone, Copy, PartialEq, Eq, Structural, Debug, Hash)]
pub enum NumericBinaryOperands {
    Float(u32, u32),
    Double(u64, u64),
    Integer(i128, i128),
    Decimal(DecimalValue, DecimalValue),
}

/// The family of a pair of operands.
#[derive(Clone, Copy, PartialEq, Eq, Structural, Debug, Hash)]
pub enum NumericFamily {
    Float,
    Double,
    Integer,
    Decimal,
}

/// The text of an optional string.
pub open spec fn text_of(s: Option<String>) -> Option<Seq<char>> {
    match s {
        Some(s) => Some(s@),
        None => None,
    }
}

/// The effective boolean value of a term: a boolean is itself, a simple or
/// `xsd:string` literal is true unless it has the id of the empty text, a
/// number is true unless it is zero. Other terms have none. Where the
/// dictionary keeps the empty text under that id alone
/// (`keeps_empty_text`), a literal is true if and only if its text is not
/// empty.
pub open spec fn effective_boolean_value(term: EncodedTerm) -> Option<bool> {
    match term {
        EncodedTerm::BooleanLiteral(value) => Some(value),
        EncodedTerm::SimpleLiteral { value_id } => Some(value_id != EMPTY_STRING_ID),
        EncodedTerm::StringLiteral { value_id } => Some(value_id != EMPTY_STRING_ID),
        EncodedTerm::FloatLiteral(bits) => Some(!single_is_zero(bits)),
        EncodedTerm::DoubleLiteral(bits) => Some(!double_is_zero(bits)),
        EncodedTerm::IntegerLiteral(value) => Some(value != 0),
        EncodedTerm::DecimalLiteral(value) => Some(value.mantissa != 0),
        _ => None,
    }
}

/// The effective boolean value of the result of an expression; an
/// undefined result has none.
pub open spec fn boolean_of(value: Option<EncodedTerm>) -> Option<bool> {
    match value {
        Some(term) => effective_boolean_value(term),
        None => None,
    }
}

/// The dictionary id of a simple or `xsd:string` literal.
pub open spec fn string_value_id(term: EncodedTerm) -> Option<u64> {
    match term {
        EncodedTerm::SimpleLiteral { value_id } => Some(value_id),
        EncodedTerm::StringLiteral { value_id } => Some(value_id),
        _ => None,
    }
}

/// What a lookup gives: the text that `get_str` answered for `id`, none
/// where it answered with an error.
pub open spec fn lookup_answer<S: DatasetView>(view: &S, id: u64, r: Option<String>) -> bool {
    exists|answer: Result<String, EvaluationError>| #[trigger]
        call_ensures(S::get_str, (view, id), answer) && r == match answer {
            Ok(text) => Some(text),
            Err(_) => None,
        }
}

/// What interning gives: the id that `insert_str` answered for `text`,
/// none where it answered with an error.
pub open spec fn intern_answer<S: DatasetView>(view: &S, text: &str, r: Option<u64>) -> bool {
    exists|answer: Result<u64, EvaluationError>| #[trigger]
        call_ensures(S::insert_str, (view, text), answer) && r == match answer {
            Ok(id) => Some(id),
            Err(_) => None,
        }
}

/// What comparing the texts of two ids gives: the order of the two texts
/// that the lookups gave, none if one of them failed.
pub open spec fn string_order_answer<S: DatasetView>(
    view: &S,
    a: u64,
    b: u64,
    r: Option<Comparison>,
) -> bool {
    exists|first: Option<String>, second: Option<String>|
        #![trigger lookup_answer(view, a, first), lookup_answer(view, b, second)]
        lookup_answer(view, a, first) && lookup_answer(view, b, second) && r == match (
            first,
            second,
        ) {
            (Some(x), Some(y)) => Some(text_order(x@, y@)),
            _ => None,
        }
}

/// What comparing the texts of two ids may give: none if a lookup failed,
/// else the order of the two texts.
pub open spec fn string_order_outcome<S: DatasetView>(
    view: &S,
    a: u64,
    b: u64,
    r: Option<Comparison>,
) -> bool {
    r matches Some(c) ==> (view.text(a) matches Some(ta) && (view.text(b) matches Some(tb) && c
        == text_order(ta, tb)))
}

/// The order of two numbers of one family: the IEEE-754 order of two
/// `float`s or two `double`s, which have none if one is a NaN, the order of
/// two integers, and the order of two decimals by value.
pub open spec fn operands_order(operands: NumericBinaryOperands) -> Option<Comparison> {
    match operands {
        NumericBinaryOperands::Float(x, y) => single_order(x, y),
        NumericBinaryOperands::Double(x, y) => double_order(x, y),
        NumericBinaryOperands::Integer(x, y) => Some(int_order(x as int, y as int)),
        NumericBinaryOperands::Decimal(x, y) => Some(decimal_order(x, y)),
    }
}

/// What comparing two numbers may give: they are promoted to the family
/// in which they meet and compared there. Terms that are not both numbers
/// and numbers that cannot be promoted are not comparable.
pub open spec fn numeric_order_outcome(a: EncodedTerm, b: EncodedTerm, r: Option<Comparison>) -> bool {
    exists|operands: Option<NumericBinaryOperands>| #[trigger]
        operands_outcome(a, b, operands) && r == match operands {
            Some(pair) => operands_order(pair),
            None => None,
        }
}

/// What comparing two numbers gives, with every conversion to `float` or
/// `double` what `floats` answered for the operand.
pub open spec fn numeric_order_answer<F: FloatArithmetic>(
    floats: &F,
    a: EncodedTerm,
    b: EncodedTerm,
    r: Option<Comparison>,
) -> bool {
    exists|operands: Option<NumericBinaryOperands>| #[trigger]
        operands_answer(floats, a, b, operands) && r == match operands {
            Some(pair) => operands_order(pair),
            None => None,
        }
}

/// What comparing two terms by value may give. Two string-typed literals
/// compare by their texts, two numbers as `numeric_order_outcome` says;
/// all other pairs are not comparable.
pub open spec fn literal_order_outcome<S: DatasetView>(
    view: &S,
    a: EncodedTerm,
    b: EncodedTerm,
    r: Option<Comparison>,
) -> bool {
    match string_value_id(a) {
        Some(x) => match string_value_id(b) {
            Some(y) => string_order_outcome(view, x, y, r),
            None => r is None,
        },
        None => numeric_order_outcome(a, b, r),
    }
}

/// What comparing two terms by value gives, with every conversion to
/// `float` or `double` what `floats` answered for the operand.
pub open spec fn literal_order_answer<S: DatasetView, F: FloatArithmetic>(
    view: &S,
    floats: &F,
    a: EncodedTerm,
    b: EncodedTerm,
    r: Option<Comparison>,
) -> bool {
    match string_value_id(a) {
        Some(x) => match string_value_id(b) {
            Some(y) => string_order_answer(view, x, y, r),
            None => r is None,
        },
        None => numeric_order_answer(floats, a, b, r),
    }
}

/// Equality of two terms, given the outcome of comparing them by value:
/// they are the same term, or they compare as equal.
pub open spec fn equal_terms(a: EncodedTerm, b: EncodedTerm, order: Option<Comparison>) -> bool {
    a == b || order == Some(Comparison::Equal)
}

/// What testing two terms for equality may give: true for the same term,
/// and for other terms whether comparing them by value gave equal.
pub open spec fn equality_outcome<S: DatasetView>(
    view: &S,
    a: EncodedTerm,
    b: EncodedTerm,
    r: bool,
) -> bool {
    if a == b {
        r
    } else {
        exists|order: Option<Comparison>|
            #[trigger] literal_order_outcome(view, a, b, order) && r == equal_terms(a, b, order)
    }
}

/// What testing two terms for equality gives, with every conversion to
/// `float` or `double` what `floats` answered for the operand.
pub open spec fn equality_answer<S: DatasetView, F: FloatArithmetic>(
    view: &S,
    floats: &F,
    a: EncodedTerm,
    b: EncodedTerm,
    r: bool,
) -> bool {
    if a == b {
        r
    } else {
        exists|order: Option<Comparison>|
            #[trigger] literal_order_answer(view, floats, a, b, order) && r == equal_terms(
                a,
                b,
                order,
            )
    }
}

/// The family in which two numbers meet.
///
/// | left \ right | float | double | integer | decimal |
/// |---|---|---|---|---|
/// | float | float | double | float | float |
/// | double | double | double | double | double |
/// | integer | float | double | integer | decimal |
/// | decimal | float | double | decimal | decimal |
pub open spec fn promoted_family(a: EncodedTerm, b: EncodedTerm) -> Option<NumericFamily> {
    match a {
        EncodedTerm::FloatLiteral(_) => match b {
            EncodedTerm::FloatLiteral(_) => Some(NumericFamily::Float),
            EncodedTerm::DoubleLiteral(_) => Some(NumericFamily::Double),
            EncodedTerm::IntegerLiteral(_) => Some(NumericFamily::Float),
            EncodedTerm::DecimalLiteral(_) => Some(NumericFamily::Float),
            _ => None,
        },
        EncodedTerm::DoubleLiteral(_) => match b {
            EncodedTerm::FloatLiteral(_) => Some(NumericFamily::Double),
            EncodedTerm::DoubleLiteral(_) => Some(NumericFamily::Double),
            EncodedTerm::IntegerLiteral(_) => Some(NumericFamily::Double),
            EncodedTerm::DecimalLiteral(_) => Some(NumericFamily::Double),
            _ => None,
        },
        EncodedTerm::IntegerLiteral(_) => match b {
            EncodedTerm::FloatLiteral(_) => Some(NumericFamily::Float),
            EncodedTerm::DoubleLiteral(_) => Some(NumericFamily::Double),
            EncodedTerm::IntegerLiteral(_) => Some(NumericFamily::Integer),
            EncodedTerm::DecimalLiteral(_) => Some(NumericFamily::Decimal),
            _ => None,
        },
        EncodedTerm::DecimalLiteral(_) => match b {
            EncodedTerm::FloatLiteral(_) => Some(NumericFamily::Float),
            EncodedTerm::DoubleLiteral(_) => Some(NumericFamily::Double),
            EncodedTerm::IntegerLiteral(_) => Some(NumericFamily::Decimal),
            EncodedTerm::DecimalLiteral(_) => Some(NumericFamily::Decimal),
            _ => None,
        },
        _ => None,
    }
}

/// The family of a pair of promoted operands.
pub open spec fn family_of(operands: NumericBinaryOperands) -> NumericFamily {
    match operands {
        NumericBinaryOperands::Float(_, _) => NumericFamily::Float,
        NumericBinaryOperands::Double(_, _) => NumericFamily::Double,
        NumericBinaryOperands::Integer(_, _) => NumericFamily::Integer,
        NumericBinaryOperands::Decimal(_, _) => NumericFamily::Decimal,
    }
}

/// The left operand of a promoted pair, as a term.
pub open spec fn left_operand(operands: NumericBinaryOperands) -> EncodedTerm {
    match operands {
        NumericBinaryOperands::Float(x, _) => EncodedTerm::FloatLiteral(x),
        NumericBinaryOperands::Double(x, _) => EncodedTerm::DoubleLiteral(x),
        NumericBinaryOperands::Integer(x, _) => EncodedTerm::IntegerLiteral(x),
        NumericBinaryOperands::Decimal(x, _) => EncodedTerm::DecimalLiteral(x),
    }
}

/// The right operand of a promoted pair, as a term.
pub open spec fn right_operand(operands: NumericBinaryOperands) -> EncodedTerm {
    match operands {
        NumericBinaryOperands::Float(_, y) => EncodedTerm::FloatLiteral(y),
        NumericBinaryOperands::Double(_, y) => EncodedTerm::DoubleLiteral(y),
        NumericBinaryOperands::Integer(_, y) => EncodedTerm::IntegerLiteral(y),
        NumericBinaryOperands::Decimal(_, y) => EncodedTerm::DecimalLiteral(y),
    }
}

/// What a term becomes in a family, where that is exact: itself in its own
/// family, and an integer's decimal among decimals. A conversion to `float`
/// or `double` is left to the arithmetic supplied and has no exact form.
pub open spec fn exact_promotion(term: EncodedTerm, family: NumericFamily) -> Option<
    Option<EncodedTerm>,
> {
    match (term, family) {
        (EncodedTerm::FloatLiteral(_), NumericFamily::Float) => Some(Some(term)),
        (EncodedTerm::DoubleLiteral(_), NumericFamily::Double) => Some(Some(term)),
        (EncodedTerm::IntegerLiteral(_), NumericFamily::Integer) => Some(Some(term)),
        (EncodedTerm::DecimalLiteral(d), NumericFamily::Decimal) => Some(
            if d.wf() {
                Some(term)
            } else {
                None
            },
        ),
        (EncodedTerm::IntegerLiteral(v), NumericFamily::Decimal) => Some(
            match decimal_of_integer(v) {
                Some(d) => Some(EncodedTerm::DecimalLiteral(d)),
                None => None,
            },
        ),
        _ => None,
    }
}

/// The family of a number.
pub open spec fn term_family(term: EncodedTerm) -> Option<NumericFamily> {
    match term {
        EncodedTerm::FloatLiteral(_) => Some(NumericFamily::Float),
        EncodedTerm::DoubleLiteral(_) => Some(NumericFamily::Double),
        EncodedTerm::IntegerLiteral(_) => Some(NumericFamily::Integer),
        EncodedTerm::DecimalLiteral(_) => Some(NumericFamily::Decimal),
        _ => None,
    }
}

/// The `float` of bits, if there are any.
pub open spec fn single_term(bits: Option<u32>) -> Option<EncodedTerm> {
    match bits {
        Some(bits) => Some(EncodedTerm::FloatLiteral(bits)),
        None => None,
    }
}

/// The `double` of bits, if there are any.
pub open spec fn double_term(bits: Option<u64>) -> Option<EncodedTerm> {
    match bits {
        Some(bits) => Some(EncodedTerm::DoubleLiteral(bits)),
        None => None,
    }
}

/// `r` is what `floats` answered when it was asked for the number `term`
/// as a `float` or a `double`: the term of the bits that it gave, or
/// none where it gave none.
pub open spec fn conversion_answer<F: FloatArithmetic>(
    floats: &F,
    term: EncodedTerm,
    family: NumericFamily,
    r: Option<EncodedTerm>,
) -> bool {
    match (term, family) {
        (EncodedTerm::FloatLiteral(x), NumericFamily::Double) => exists|c: Option<u64>| #[trigger]
            call_ensures(F::single_to_double, (floats, x), c) && r == double_term(c),
        (EncodedTerm::DoubleLiteral(x), NumericFamily::Float) => exists|c: Option<u32>| #[trigger]
            call_ensures(F::double_to_single, (floats, x), c) && r == single_term(c),
        (EncodedTerm::IntegerLiteral(x), NumericFamily::Float) => exists|c: Option<u32>| #[trigger]
            call_ensures(F::integer_to_single, (floats, x), c) && r == single_term(c),
        (EncodedTerm::IntegerLiteral(x), NumericFamily::Double) => exists|c: Option<u64>| #[trigger]
            call_ensures(F::integer_to_double, (floats, x), c) && r == double_term(c),
        (EncodedTerm::DecimalLiteral(x), NumericFamily::Float) => exists|c: Option<u32>| #[trigger]
            call_ensures(F::decimal_to_single, (floats, x), c) && r == single_term(c),
        (EncodedTerm::DecimalLiteral(x), NumericFamily::Double) => exists|c: Option<u64>| #[trigger]
            call_ensures(F::decimal_to_double, (floats, x), c) && r == double_term(c),
        _ => r is None,
    }
}

/// What a number may become in a family: what `exact_promotion` says
/// where the promotion is exact, and else some number of the family or
/// nothing.
pub open spec fn promotion_outcome(
    term: EncodedTerm,
    family: NumericFamily,
    r: Option<EncodedTerm>,
) -> bool {
    match exact_promotion(term, family) {
        Some(exact) => r == exact,
        None => r matches Some(promoted) ==> term_family(promoted) == Some(family),
    }
}

/// What a number becomes in a family: what `exact_promotion` says where
/// the promotion is exact, and else what `floats` answered for it.
pub open spec fn promotion_answer<F: FloatArithmetic>(
    floats: &F,
    term: EncodedTerm,
    family: NumericFamily,
    r: Option<EncodedTerm>,
) -> bool {
    match exact_promotion(term, family) {
        Some(exact) => r == exact,
        None => conversion_answer(floats, term, family, r),
    }
}

/// The pair of two numbers of one family; none if one of them is missing
/// or they are of two families.
pub open spec fn paired(left: Option<EncodedTerm>, right: Option<EncodedTerm>) -> Option<
    NumericBinaryOperands,
> {
    match (left, right) {
        (Some(EncodedTerm::FloatLiteral(x)), Some(EncodedTerm::FloatLiteral(y))) => Some(
            NumericBinaryOperands::Float(x, y),
        ),
        (Some(EncodedTerm::DoubleLiteral(x)), Some(EncodedTerm::DoubleLiteral(y))) => Some(
            NumericBinaryOperands::Double(x, y),
        ),
        (Some(EncodedTerm::IntegerLiteral(x)), Some(EncodedTerm::IntegerLiteral(y))) => Some(
            NumericBinaryOperands::Integer(x, y),
        ),
        (Some(EncodedTerm::DecimalLiteral(x)), Some(EncodedTerm::DecimalLiteral(y))) => Some(
            NumericBinaryOperands::Decimal(x, y),
        ),
        _ => None,
    }
}

/// What promoting two terms to a common family may give: the pair of what
/// the two become in the family of the table, each in its place. Two
/// terms that are not both numbers give none, and so does a pair with an
/// operand that cannot be promoted.
pub open spec fn operands_outcome(
    a: EncodedTerm,
    b: EncodedTerm,
    r: Option<NumericBinaryOperands>,
) -> bool {
    match promoted_family(a, b) {
        None => r is None,
        Some(family) => exists|left: Option<EncodedTerm>, right: Option<EncodedTerm>|
            #![trigger paired(left, right)]
            promotion_outcome(a, family, left) && promotion_outcome(b, family, right) && r
                == paired(left, right),
    }
}

/// What promoting two terms to a common family gives, with every
/// conversion to `float` or `double` what `floats` answered for the
/// operand.
pub open spec fn operands_answer<F: FloatArithmetic>(
    floats: &F,
    a: EncodedTerm,
    b: EncodedTerm,
    r: Option<NumericBinaryOperands>,
) -> bool {
    match promoted_family(a, b) {
        None => r is None,
        Some(family) => exists|left: Option<EncodedTerm>, right: Option<EncodedTerm>|
            #![trigger paired(left, right)]
            promotion_answer(floats, a, family, left) && promotion_answer(
                floats,
                b,
                family,
                right,
            ) && r == paired(left, right),
    }
}

/// What an operation on a promoted pair may give. On integers it is exact:
/// the result where it fits, none on overflow and on division by zero.
/// On decimals it is what `rust_decimal` computes. On the floating-point
/// families the result is of that family, with whatever bits the
/// arithmetic supplied.
pub open spec fn arithmetic_outcome(
    operator: ArithmeticOperator,
    operands: NumericBinaryOperands,
    r: Option<EncodedTerm>,
) -> bool {
    match operands {
        NumericBinaryOperands::Float(_, _) => r matches Some(EncodedTerm::FloatLiteral(_)),
        NumericBinaryOperands::Double(_, _) => r matches Some(EncodedTerm::DoubleLiteral(_)),
        NumericBinaryOperands::Integer(x, y) => r == match integer_arithmetic(operator, x, y) {
            Some(v) => Some(EncodedTerm::IntegerLiteral(v)),
            None => None,
        },
        NumericBinaryOperands::Decimal(x, y) => r == match decimal_arithmetic(operator, x, y) {
            Some(v) => Some(EncodedTerm::DecimalLiteral(v)),
            None => None,
        },
    }
}

/// What an operation on a promoted pair gives, with the result on the
/// floating-point families what `floats` answered for the two operands.
pub open spec fn arithmetic_answer<F: FloatArithmetic>(
    floats: &F,
    operator: ArithmeticOperator,
    operands: NumericBinaryOperands,
    r: Option<EncodedTerm>,
) -> bool {
    match operands {
        NumericBinaryOperands::Float(x, y) => exists|c: u32| #[trigger]
            call_ensures(F::single_operation, (floats, operator, x, y), c) && r == Some(
                EncodedTerm::FloatLiteral(c),
            ),
        NumericBinaryOperands::Double(x, y) => exists|c: u64| #[trigger]
            call_ensures(F::double_operation, (floats, operator, x, y), c) && r == Some(
                EncodedTerm::DoubleLiteral(c),
            ),
        _ => arithmetic_outcome(operator, operands, r),
    }
}

/// `r` is the id that interning gave for a text that reads `text`.
pub open spec fn interned<S: DatasetView>(view: &S, text: Seq<char>, r: Option<u64>) -> bool {
    exists|handed: &str| #[trigger] intern_answer(view, handed, r) && handed@ == text
}

/// What the id of a term's text is where a text is made and interned: the
/// id that interning gave for the text of the boolean, number or date.
/// The text of a `float` or a `double` is what `floats` answered for its
/// bits.
pub open spec fn string_id_answer<S: DatasetView, F: FloatArithmetic>(
    view: &S,
    floats: &F,
    term: EncodedTerm,
    r: Option<u64>,
) -> bool {
    match term {
        EncodedTerm::BooleanLiteral(value) => interned(
            view,
            if value {
                "true"@
            } else {
                "false"@
            },
            r,
        ),
        EncodedTerm::FloatLiteral(bits) => exists|text: String| #[trigger]
            call_ensures(F::single_to_string, (floats, bits), text) && interned(view, text@, r),
        EncodedTerm::DoubleLiteral(bits) => exists|text: String| #[trigger]
            call_ensures(F::double_to_string, (floats, bits), text) && interned(view, text@, r),
        EncodedTerm::IntegerLiteral(value) => interned(view, integer_text(value), r),
        EncodedTerm::DecimalLiteral(value) => value.wf() ==> interned(
            view,
            decimal_text(value),
            r,
        ),
        EncodedTerm::DateTime(value) => date_time_text(value) matches Some(text) ==> interned(
            view,
            text,
            r,
        ),
        EncodedTerm::NaiveDateTime(value) => naive_date_time_text(value) matches Some(text)
            ==> interned(view, text, r),
        _ => true,
    }
}

/// What the id of a term's text may be. A named node and a literal with a
/// lexical form have the id they hold. A boolean, a number or a date is
/// written out and interned, which may fail; the texts of the
/// floating-point families are whatever the arithmetic supplied. The
/// default graph and blank nodes have no text.
pub open spec fn string_id_outcome<S: DatasetView>(
    view: &S,
    term: EncodedTerm,
    r: Option<u64>,
) -> bool {
    match term {
        EncodedTerm::DefaultGraph => r is None,
        EncodedTerm::NamedNode { iri_id } => r == Some(iri_id),
        EncodedTerm::BlankNode(_) => r is None,
        EncodedTerm::SimpleLiteral { value_id } => r == Some(value_id),
        EncodedTerm::StringLiteral { value_id } => r == Some(value_id),
        EncodedTerm::LangStringLiteral { value_id, .. } => r == Some(value_id),
        EncodedTerm::TypedLiteral { value_id, .. } => r == Some(value_id),
        EncodedTerm::BooleanLiteral(value) => intern_outcome(
            view,
            if value {
                "true"@
            } else {
                "false"@
            },
            r,
        ),
        EncodedTerm::FloatLiteral(_) => r matches Some(id) ==> view.text(id) is Some,
        EncodedTerm::DoubleLiteral(_) => r matches Some(id) ==> view.text(id) is Some,
        EncodedTerm::IntegerLiteral(value) => intern_outcome(view, integer_text(value), r),
        EncodedTerm::DecimalLiteral(value) => if value.wf() {
            intern_outcome(view, decimal_text(value), r)
        } else {
            r is None
        },
        EncodedTerm::DateTime(value) => match date_time_text(value) {
            Some(text) => intern_outcome(view, text, r),
            None => r is None,
        },
        EncodedTerm::NaiveDateTime(value) => match naive_date_time_text(value) {
            Some(text) => intern_outcome(view, text, r),
            None => r is None,
        },
    }
}

/// What the text of a simple literal may be; other terms have none.
pub open spec fn simple_string_outcome<S: DatasetView>(
    view: &S,
    term: EncodedTerm,
    r: Option<Seq<char>>,
) -> bool {
    match term {
        EncodedTerm::SimpleLiteral { value_id } => lookup_outcome(view, value_id, r),
        _ => r is None,
    }
}

/// The id of a simple literal's text; other terms have none.
pub open spec fn simple_string_id(term: EncodedTerm) -> Option<u64> {
    match term {
        EncodedTerm::SimpleLiteral { value_id } => Some(value_id),
        _ => None,
    }
}

/// What the text of a simple, `xsd:string` or language-tagged literal may
/// be; other terms have none.
pub open spec fn string_outcome<S: DatasetView>(
    view: &S,
    term: EncodedTerm,
    r: Option<Seq<char>>,
) -> bool {
    match term {
        EncodedTerm::SimpleLiteral { value_id } => lookup_outcome(view, value_id, r),
        EncodedTerm::StringLiteral { value_id } => lookup_outcome(view, value_id, r),
        EncodedTerm::LangStringLiteral { value_id, .. } => lookup_outcome(view, value_id, r),
        _ => r is None,
    }
}

/// What the text of a simple literal is: what the lookup of its id gave;
/// other terms have none.
pub open spec fn simple_string_answer<S: DatasetView>(
    view: &S,
    term: EncodedTerm,
    r: Option<String>,
) -> bool {
    match term {
        EncodedTerm::SimpleLiteral { value_id } => lookup_answer(view, value_id, r),
        _ => r is None,
    }
}

/// What the text of a simple, `xsd:string` or language-tagged literal is:
/// what the lookup of its id gave; other terms have none.
pub open spec fn string_answer<S: DatasetView>(
    view: &S,
    term: EncodedTerm,
    r: Option<String>,
) -> bool {
    match term {
        EncodedTerm::SimpleLiteral { value_id } => lookup_answer(view, value_id, r),
        EncodedTerm::StringLiteral { value_id } => lookup_answer(view, value_id, r),
        EncodedTerm::LangStringLiteral { value_id, .. } => lookup_answer(view, value_id, r),
        _ => r is None,
    }
}

/// The effective boolean value of the result of an expression.
pub fn effective_boolean(value: Option<EncodedTerm>) -> (r: Option<bool>)
    ensures
        r == boolean_of(value),
{
    match value {
        Some(EncodedTerm::BooleanLiteral(value)) => Some(value),
        Some(EncodedTerm::SimpleLiteral { value_id }) => Some(value_id != EMPTY_STRING_ID),
        Some(EncodedTerm::StringLiteral { value_id }) => Some(value_id != EMPTY_STRING_ID),
        Some(EncodedTerm::FloatLiteral(bits)) => Some(!single_zero(bits)),
        Some(EncodedTerm::DoubleLiteral(bits)) => Some(!double_zero(bits)),
        Some(EncodedTerm::IntegerLiteral(value)) => Some(value != 0),
        Some(EncodedTerm::DecimalLiteral(value)) => Some(value.mantissa != 0),
        _ => None,
    }
}

/// The family in which two numbers meet.
pub fn numeric_family(a: EncodedTerm, b: EncodedTerm) -> (r: Option<NumericFamily>)
    ensures
        r == promoted_family(a, b),
{
    match a {
        EncodedTerm::FloatLiteral(_) => match b {
            EncodedTerm::FloatLiteral(_) => Some(NumericFamily::Float),
            EncodedTerm::DoubleLiteral(_) => Some(NumericFamily::Double),
            EncodedTerm::IntegerLiteral(_) => Some(NumericFamily::Float),
            EncodedTerm::DecimalLiteral(_) => Some(NumericFamily::Float),
            _ => None,
        },
        EncodedTerm::DoubleLiteral(_) => match b {
            EncodedTerm::FloatLiteral(_) => Some(NumericFamily::Double),
            EncodedTerm::DoubleLiteral(_) => Some(NumericFamily::Double),
            EncodedTerm::IntegerLiteral(_) => Some(NumericFamily::Double),
            EncodedTerm::DecimalLiteral(_) => Some(NumericFamily::Double),
            _ => None,
        },
        EncodedTerm::IntegerLiteral(_) => match b {
            EncodedTerm::FloatLiteral(_) => Some(NumericFamily::Float),
            EncodedTerm::DoubleLiteral(_) => Some(NumericFamily::Double),
            EncodedTerm::IntegerLiteral(_) => Some(NumericFamily::Integer),
            EncodedTerm::DecimalLiteral(_) => Some(NumericFamily::Decimal),
            _ => None,
        },
        EncodedTerm::DecimalLiteral(_) => match b {
            EncodedTerm::FloatLiteral(_) => Some(NumericFamily::Float),
            EncodedTerm::DoubleLiteral(_) => Some(NumericFamily::Double),
            EncodedTerm::IntegerLiteral(_) => Some(NumericFamily::Decimal),
            EncodedTerm::DecimalLiteral(_) => Some(NumericFamily::Decimal),
            _ => None,
        },
        _ => None,
    }
}

/// The pair of two numbers of one family.
pub fn pair_operands(left: Option<EncodedTerm>, right: Option<EncodedTerm>) -> (r: Option<
    NumericBinaryOperands,
>)
    ensures
        r == paired(left, right),
{
    match (left, right) {
        (Some(EncodedTerm::FloatLiteral(x)), Some(EncodedTerm::FloatLiteral(y))) => Some(
            NumericBinaryOperands::Float(x, y),
        ),
        (Some(EncodedTerm::DoubleLiteral(x)), Some(EncodedTerm::DoubleLiteral(y))) => Some(
            NumericBinaryOperands::Double(x, y),
        ),
        (Some(EncodedTerm::IntegerLiteral(x)), Some(EncodedTerm::IntegerLiteral(y))) => Some(
            NumericBinaryOperands::Integer(x, y),
        ),
        (Some(EncodedTerm::DecimalLiteral(x)), Some(EncodedTerm::DecimalLiteral(y))) => Some(
            NumericBinaryOperands::Decimal(x, y),
        ),
        _ => None,
    }
}

/// Compares two numbers of one family.
pub fn order_of_operands(operands: NumericBinaryOperands) -> (r: Option<Comparison>)
    requires
        operands matches NumericBinaryOperands::Decimal(x, y) ==> x.wf() && y.wf(),
    ensures
        r == operands_order(operands),
{
    match operands {
        NumericBinaryOperands::Float(x, y) => single_compare(x, y),
        NumericBinaryOperands::Double(x, y) => double_compare(x, y),
        NumericBinaryOperands::Integer(x, y) => Some(integer_compare(x, y)),
        NumericBinaryOperands::Decimal(x, y) => Some(decimal_compare(x, y)),
    }
}

impl<S: DatasetView, F: FloatArithmetic> SimpleEvaluator<S, F> {
    /// An evaluator over `dataset` whose floating-point arithmetic is done by
    /// `floats`.
    pub fn new(dataset: S, floats: F) -> (evaluator: Self)
        ensures
            evaluator.dataset == dataset,
            evaluator.floats == floats,
    {
        SimpleEvaluator { dataset, floats }
    }

    /// The text of `id`, none where the lookup fails.
    pub fn lookup(&self, id: u64) -> (r: Option<String>)
        ensures
            lookup_answer(&self.dataset, id, r),
            lookup_outcome(&self.dataset, id, text_of(r)),
    {
        match self.dataset.get_str(id) {
            Ok(s) => Some(s),
            Err(_) => None,
        }
    }

    /// An id for `text`, none where interning fails.
    pub fn intern(&self, text: &str) -> (r: Option<u64>)
        ensures
            intern_answer(&self.dataset, text, r),
            intern_outcome(&self.dataset, text@, r),
    {
        match self.dataset.insert_str(text) {
            Ok(id) => Some(id),
            Err(_) => None,
        }
    }

    /// The effective boolean value of a term.
    pub fn to_bool(&self, term: EncodedTerm) -> (r: Option<bool>)
        ensures
            r == effective_boolean_value(term),
            keeps_empty_text(&self.dataset) ==> match string_value_id(term) {
                Some(id) => self.dataset.text(id) matches Some(text) ==> r == Some(text.len() > 0),
                None => true,
            },
    {
        proof {
            if let Some(id) = string_value_id(term) {
                if let Some(text) = self.dataset.text(id) {
                    if text.len() == 0 {
                        assert(text =~= Seq::<char>::empty());
                    }
                }
            }
        }
        effective_boolean(Some(term))
    }

    /// The id of the text of a term; the text of a boolean, a number or a
    /// date is interned.
    pub fn to_string_id(&self, term: EncodedTerm) -> (r: Option<u64>)
        ensures
            string_id_outcome(&self.dataset, term, r),
            string_id_answer(&self.dataset, &self.floats, term, r),
    {
        match term {
            EncodedTerm::DefaultGraph => None,
            EncodedTerm::NamedNode { iri_id } => Some(iri_id),
            EncodedTerm::BlankNode(_) => None,
            EncodedTerm::SimpleLiteral { value_id } => Some(value_id),
            EncodedTerm::StringLiteral { value_id } => Some(value_id),
            EncodedTerm::LangStringLiteral { value_id, .. } => Some(value_id),
            EncodedTerm::TypedLiteral { value_id, .. } => Some(value_id),
            EncodedTerm::BooleanLiteral(value) => self.intern(
                if value {
                    "true"
                } else {
                    "false"
                },
            ),
            EncodedTerm::FloatLiteral(bits) => {
                let text = self.floats.single_to_string(bits);
                self.intern(text.as_str())
            },
            EncodedTerm::DoubleLiteral(bits) => {
                let text = self.floats.double_to_string(bits);
                self.intern(text.as_str())
            },
            EncodedTerm::IntegerLiteral(value) => {
                let text = integer_to_string(value);
                self.intern(text.as_str())
            },
            EncodedTerm::DecimalLiteral(value) => {
                if value.is_wf() {
                    let text = decimal_to_string(value);
                    self.intern(text.as_str())
                } else {
                    None
                }
            },
            EncodedTerm::DateTime(value) => match date_time_to_string(value) {
                Some(text) => self.intern(text.as_str()),
                None => None,
            },
            EncodedTerm::NaiveDateTime(value) => match naive_date_time_to_string(value) {
                Some(text) => self.intern(text.as_str()),
                None => None,
            },
        }
    }

    /// The text of a simple literal.
    pub fn to_simple_string(&self, term: EncodedTerm) -> (r: Option<String>)
        ensures
            simple_string_answer(&self.dataset, term, r),
            simple_string_outcome(&self.dataset, term, text_of(r)),
    {
        match term {
            EncodedTerm::SimpleLiteral { value_id } => self.lookup(value_id),
            _ => None,
        }
    }

    /// The id of the text of a simple literal.
    pub fn to_simple_string_id(&self, term: EncodedTerm) -> (r: Option<u64>)
        ensures
            r == simple_string_id(term),
    {
        match term {
            EncodedTerm::SimpleLiteral { value_id } => Some(value_id),
            _ => None,
        }
    }

    /// The text of a simple, `xsd:string` or language-tagged literal.
    pub fn to_string(&self, term: EncodedTerm) -> (r: Option<String>)
        ensures
            string_answer(&self.dataset, term, r),
            string_outcome(&self.dataset, term, text_of(r)),
    {
        match term {
            EncodedTerm::SimpleLiteral { value_id } => self.lookup(value_id),
            EncodedTerm::StringLiteral { value_id } => self.lookup(value_id),
            EncodedTerm::LangStringLiteral { value_id, .. } => self.lookup(value_id),
            _ => None,
        }
    }

    /// Compares the texts of two ids.
    pub fn compare_str_ids(&self, a: u64, b: u64) -> (r: Option<Comparison>)
        ensures
            string_order_answer(&self.dataset, a, b, r),
            string_order_outcome(&self.dataset, a, b, r),
    {
        let a_text = self.lookup(a);
        let b_text = self.lookup(b);
        match (a_text, b_text) {
            (Some(a_text), Some(b_text)) => Some(
                compare_text(a_text.as_str(), b_text.as_str()),
            ),
            _ => None,
        }
    }

    /// What a number becomes in a family. A conversion to `float` or
    /// `double` is asked of the arithmetic supplied.
    pub fn promote(&self, term: EncodedTerm, family: NumericFamily) -> (r: Option<EncodedTerm>)
        ensures
            promotion_answer(&self.floats, term, family, r),
            promotion_outcome(term, family, r),
            r matches Some(EncodedTerm::DecimalLiteral(d)) ==> d.wf(),
    {
        match (term, family) {
            (EncodedTerm::FloatLiteral(_), NumericFamily::Float) => Some(term),
            (EncodedTerm::DoubleLiteral(_), NumericFamily::Double) => Some(term),
            (EncodedTerm::IntegerLiteral(_), NumericFamily::Integer) => Some(term),
            (EncodedTerm::DecimalLiteral(d), NumericFamily::Decimal) => if d.is_wf() {
                Some(term)
            } else {
                None
            },
            (EncodedTerm::IntegerLiteral(v), NumericFamily::Decimal) => match decimal_from_integer(
                v,
            ) {
                Some(d) => Some(EncodedTerm::DecimalLiteral(d)),
                None => None,
            },
            (EncodedTerm::FloatLiteral(x), NumericFamily::Double) => {
                match self.floats.single_to_double(x) {
                    Some(c) => Some(EncodedTerm::DoubleLiteral(c)),
                    None => None,
                }
            },
            (EncodedTerm::DoubleLiteral(x), NumericFamily::Float) => {
                match self.floats.double_to_single(x) {
                    Some(c) => Some(EncodedTerm::FloatLiteral(c)),
                    None => None,
                }
            },
            (EncodedTerm::IntegerLiteral(x), NumericFamily::Float) => {
                match self.floats.integer_to_single(x) {
                    Some(c) => Some(EncodedTerm::FloatLiteral(c)),
                    None => None,
                }
            },
            (EncodedTerm::IntegerLiteral(x), NumericFamily::Double) => {
                match self.floats.integer_to_double(x) {
                    Some(c) => Some(EncodedTerm::DoubleLiteral(c)),
                    None => None,
                }
            },
            (EncodedTerm::DecimalLiteral(x), NumericFamily::Float) => {
                match self.floats.decimal_to_single(x) {
                    Some(c) => Some(EncodedTerm::FloatLiteral(c)),
                    None => None,
                }
            },
            (EncodedTerm::DecimalLiteral(x), NumericFamily::Double) => {
                match self.floats.decimal_to_double(x) {
                    Some(c) => Some(EncodedTerm::DoubleLiteral(c)),
                    None => None,
                }
            },
            _ => None,
        }
    }

    /// Compares two numbers.
    pub fn compare_numbers(&self, a: EncodedTerm, b: EncodedTerm) -> (r: Option<Comparison>)
        ensures
            numeric_order_answer(&self.floats, a, b, r),
            numeric_order_outcome(a, b, r),
    {
        match self.parse_numeric_operands(a, b) {
            Some(pair) => order_of_operands(pair),
            None => None,
        }
    }

    /// Compares two terms by value.
    pub fn partial_cmp_literals(&self, a: EncodedTerm, b: EncodedTerm) -> (r: Option<
        Comparison,
    >)
        ensures
            literal_order_answer(&self.dataset, &self.floats, a, b, r),
            literal_order_outcome(&self.dataset, a, b, r),
    {
        match a {
            EncodedTerm::SimpleLiteral { value_id: x } => match b {
                EncodedTerm::SimpleLiteral { value_id: y } => self.compare_str_ids(x, y),
                EncodedTerm::StringLiteral { value_id: y } => self.compare_str_ids(x, y),
                _ => None,
            },
            EncodedTerm::StringLiteral { value_id: x } => match b {
                EncodedTerm::SimpleLiteral { value_id: y } => self.compare_str_ids(x, y),
                EncodedTerm::StringLiteral { value_id: y } => self.compare_str_ids(x, y),
                _ => None,
            },
            _ => self.compare_numbers(a, b),
        }
    }

    /// Whether two terms are equal: the same term, or equal by value.
    pub fn equals(&self, a: EncodedTerm, b: EncodedTerm) -> (r: bool)
        ensures
            equality_answer(&self.dataset, &self.floats, a, b, r),
            equality_outcome(&self.dataset, a, b, r),
    {
        if a == b {
            true
        } else {
            let order = self.partial_cmp_literals(a, b);
            match order {
                Some(Comparison::Equal) => true,
                _ => false,
            }
        }
    }

    /// Whether two terms are unequal: not the same term, and not equal by
    /// value.
    pub fn not_equals(&self, a: EncodedTerm, b: EncodedTerm) -> (r: bool)
        ensures
            equality_answer(&self.dataset, &self.floats, a, b, !r),
            equality_outcome(&self.dataset, a, b, !r),
    {
        !self.equals(a, b)
    }

    /// Promotes two numbers to the family in which they meet.
    pub fn parse_numeric_operands(&self, a: EncodedTerm, b: EncodedTerm) -> (r: Option<
        NumericBinaryOperands,
    >)
        ensures
            operands_answer(&self.floats, a, b, r),
            operands_outcome(a, b, r),
            r matches Some(NumericBinaryOperands::Decimal(x, y)) ==> x.wf() && y.wf(),
    {
        match numeric_family(a, b) {
            Some(family) => {
                let left = self.promote(a, family);
                let right = self.promote(b, family);
                pair_operands(left, right)
            },
            None => None,
        }
    }

    /// Applies an operation to a promoted pair.
    pub fn apply_arithmetic(
        &self,
        operator: ArithmeticOperator,
        operands: NumericBinaryOperands,
    ) -> (r: Option<EncodedTerm>)
        requires
            operands matches NumericBinaryOperands::Decimal(x, y) ==> x.wf() && y.wf(),
        ensures
            arithmetic_answer(&self.floats, operator, operands, r),
            arithmetic_outcome(operator, operands, r),
    {
        match operands {
            NumericBinaryOperands::Float(x, y) => Some(
                EncodedTerm::FloatLiteral(self.floats.single_operation(operator, x, y)),
            ),
            NumericBinaryOperands::Double(x, y) => Some(
                EncodedTerm::DoubleLiteral(self.floats.double_operation(operator, x, y)),
            ),
            NumericBinaryOperands::Integer(x, y) => match integer_operation(operator, x, y) {
                Some(v) => Some(EncodedTerm::IntegerLiteral(v)),
                None => None,
            },
            NumericBinaryOperands::Decimal(x, y) => match decimal_operation(operator, x, y) {
                Some(v) => Some(EncodedTerm::DecimalLiteral(v)),
                None => None,
            },
        }
    }
}

} // verus!

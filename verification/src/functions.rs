//! The functions of expressions, applied to terms that are already
//! evaluated: logic, comparison, arithmetic, term inspection and casts.

use vstd::prelude::*;
use crate::dataset::lookup_outcome;
use crate::dataset::ArithmeticOperator;
use crate::dataset::DatasetView;
use crate::dataset::FloatArithmetic;
use crate::lexical::check_language_range;
use crate::lexical::date_time_parsed;
use crate::lexical::integer_parsed;
use crate::lexical::language_range_checked;
use crate::lexical::language_range_matched;
use crate::lexical::match_language_range;
use crate::lexical::match_regex;
use crate::lexical::naive_date_time_parsed;
use crate::lexical::parse_date_time;
use crate::lexical::parse_integer;
use crate::lexical::parse_naive_date_time;
use crate::lexical::random_uuid;
use crate::lexical::regex_matched;
use crate::lexical::text_is;
use crate::lexical::uuid_simple_text;
use crate::lexical::uuid_to_simple;
use crate::lexical::uuid_to_urn;
use crate::lexical::uuid_urn_text;
use crate::numeric::check_decimal;
use crate::numeric::checked_decimal;
use crate::numeric::decimal_from_integer;
use crate::numeric::decimal_negated;
use crate::numeric::decimal_negation;
use crate::numeric::decimal_of_integer;
use crate::numeric::decimal_parsed;
use crate::numeric::decimal_to_integer;
use crate::numeric::double_negated;
use crate::numeric::double_negation;
use crate::numeric::integer_negated;
use crate::numeric::integer_negation;
use crate::numeric::integer_of_decimal;
use crate::numeric::parse_decimal;
use crate::numeric::single_negated;
use crate::numeric::single_negation;
use crate::numeric::Comparison;
use crate::term::bool_term;
use crate::term::empty_simple_literal;
use crate::term::DecimalValue;
use crate::term::EncodedTerm;
use crate::term::EMPTY_STRING_ID;
use crate::values::arithmetic_answer;
use crate::values::arithmetic_outcome;
use crate::values::interned;
use crate::values::lookup_answer;
use crate::values::simple_string_answer;
use crate::values::string_answer;
use crate::values::string_id_answer;
use crate::values::literal_order_answer;
use crate::values::operands_answer;
use crate::values::promotion_answer;
use crate::values::single_term;
use crate::values::double_term;
use crate::values::NumericFamily;
use crate::values::boolean_of;
use crate::values::effective_boolean_value;
use crate::values::literal_order_outcome;
use crate::values::operands_outcome;
use crate::values::simple_string_id;
use crate::values::simple_string_outcome;
use crate::values::string_id_outcome;
use crate::values::string_outcome;
use crate::values::text_of;
use crate::values::NumericBinaryOperands;
use crate::values::SimpleEvaluator;

verus! {

/// The memory that a compiled regular expression may take, in bytes.
pub const REGEX_SIZE_LIMIT: usize = 1_000_000;

/// The form of a date and time without zone: `YYYY-MM-DDThh:mm:ss`.
pub const NAIVE_DATE_TIME_FORMAT: &'static str = "%Y-%m-%dT%H:%M:%S";

/// The bits of the binary32 value 1.
pub const SINGLE_ONE: u32 = 0x3f80_0000;

/// The bits of the binary64 value 1.
pub const DOUBLE_ONE: u64 = 0x3ff0_0000_0000_0000;

/// The functions of one argument that need their argument defined.
#[derive(Clone, Copy, PartialEq, Eq, Structural, Debug, Hash)]
pub enum UnaryFunction {
    UnaryPlus,
    UnaryMinus,
    UnaryNot,
    Str,
    Lang,
    Datatype,
    IRI,
    IsIRI,
    IsBlank,
    IsLiteral,
    IsNumeric,
    BooleanCast,
    DoubleCast,
    FloatCast,
    IntegerCast,
    DecimalCast,
    DateTimeCast,
    StringCast,
}

/// The functions of two arguments that need both arguments defined.
#[derive(Clone, Copy, PartialEq, Eq, Structural, Debug, Hash)]
pub enum BinaryFunction {
    Equal,
    NotEqual,
    Greater,
    GreaterOrEq,
    Lower,
    LowerOrEq,
    Add,
    Sub,
    Mul,
    Div,
    StrLang,
    SameTerm,
    LangMatches,
}

/// The term of an optional boolean.
pub open spec fn boolean_result(value: Option<bool>) -> Option<EncodedTerm> {
    match value {
        Some(b) => Some(bool_term(b)),
        None => None,
    }
}

/// Disjunction in three-valued logic, from the results of the two sides:
/// true if the left side is true; the right side's value if the left side
/// is false; and where the left side is in error, true if the right side is
/// true and else an error.
pub open spec fn or_value(left: Option<EncodedTerm>, right: Option<EncodedTerm>) -> Option<
    EncodedTerm,
> {
    match boolean_of(left) {
        Some(true) => Some(bool_term(true)),
        Some(false) => right,
        None => if boolean_of(right) == Some(true) {
            Some(bool_term(true))
        } else {
            None
        },
    }
}

/// Conjunction in three-valued logic: false if the left side is false; the
/// right side's value if the left side is true; and where the left side is
/// in error, false if the right side is false and else an error.
pub open spec fn and_value(left: Option<EncodedTerm>, right: Option<EncodedTerm>) -> Option<
    EncodedTerm,
> {
    match boolean_of(left) {
        Some(true) => right,
        Some(false) => Some(bool_term(false)),
        None => if boolean_of(right) == Some(false) {
            Some(bool_term(false))
        } else {
            None
        },
    }
}

/// What a comparison operator makes of the order of its operands.
pub open spec fn order_test(function: BinaryFunction, order: Comparison) -> bool {
    match function {
        BinaryFunction::Greater => order == Comparison::Greater,
        BinaryFunction::GreaterOrEq => order != Comparison::Less,
        BinaryFunction::Lower => order == Comparison::Less,
        BinaryFunction::LowerOrEq => order != Comparison::Greater,
        BinaryFunction::Equal => order == Comparison::Equal,
        _ => order != Comparison::Equal,
    }
}

/// What an equality or comparison operator may give. `Equal` and
/// `NotEqual` on the same term need no comparison. Otherwise the terms are
/// compared by value, and terms that cannot be compared give an error.
pub open spec fn comparison_outcome<S: DatasetView>(
    view: &S,
    function: BinaryFunction,
    a: EncodedTerm,
    b: EncodedTerm,
    r: Option<EncodedTerm>,
) -> bool {
    if a == b && function == BinaryFunction::Equal {
        r == Some(bool_term(true))
    } else if a == b && function == BinaryFunction::NotEqual {
        r == Some(bool_term(false))
    } else {
        exists|order: Option<Comparison>|
            #[trigger] literal_order_outcome(view, a, b, order) && r == match order {
                Some(c) => Some(bool_term(order_test(function, c))),
                None => None,
            }
    }
}

/// The operation of an arithmetic operator.
pub open spec fn operator_of(function: BinaryFunction) -> ArithmeticOperator {
    match function {
        BinaryFunction::Add => ArithmeticOperator::Add,
        BinaryFunction::Sub => ArithmeticOperator::Sub,
        BinaryFunction::Mul => ArithmeticOperator::Mul,
        _ => ArithmeticOperator::Div,
    }
}

/// What an arithmetic operator may give: its operands are promoted to a
/// common family and the operation is applied there.
pub open spec fn binary_arithmetic_outcome(
    operator: ArithmeticOperator,
    a: EncodedTerm,
    b: EncodedTerm,
    r: Option<EncodedTerm>,
) -> bool {
    exists|operands: Option<NumericBinaryOperands>|
        #[trigger] operands_outcome(a, b, operands) && match operands {
            Some(pair) => arithmetic_outcome(operator, pair, r),
            None => r is None,
        }
}

/// A language-tagged literal from the simple literals of its lexical form
/// and its tag.
pub open spec fn str_lang_value(a: EncodedTerm, b: EncodedTerm) -> Option<EncodedTerm> {
    match (simple_string_id(a), simple_string_id(b)) {
        (Some(value_id), Some(language_id)) => Some(
            EncodedTerm::LangStringLiteral { value_id, language_id },
        ),
        _ => None,
    }
}

/// Whether a language tag matches a range, from their texts: the range `*`
/// matches every tag but the empty one; another range must be a language
/// range, and matches as `language_tags` says.
pub open spec fn lang_matches_value(tag: Option<Seq<char>>, range: Option<Seq<char>>) -> Option<
    EncodedTerm,
> {
    match (tag, range) {
        (Some(tag), Some(range)) => if range == "*"@ {
            Some(bool_term(tag.len() != 0))
        } else {
            match language_range_checked(range) {
                Some(true) => boolean_result(language_range_matched(range, tag)),
                _ => None,
            }
        },
        _ => None,
    }
}

/// What `LangMatches` may give: both operands must be simple literals
/// whose texts can be looked up.
pub open spec fn lang_matches_outcome<S: DatasetView>(
    view: &S,
    a: EncodedTerm,
    b: EncodedTerm,
    r: Option<EncodedTerm>,
) -> bool {
    exists|tag: Option<Seq<char>>, range: Option<Seq<char>>|
        #![trigger simple_string_outcome(view, a, tag), simple_string_outcome(view, b, range)]
        simple_string_outcome(view, a, tag) && simple_string_outcome(view, b, range) && r
            == lang_matches_value(tag, range)
}

/// What a function of two defined arguments may give.
pub open spec fn binary_outcome<S: DatasetView>(
    view: &S,
    function: BinaryFunction,
    a: EncodedTerm,
    b: EncodedTerm,
    r: Option<EncodedTerm>,
) -> bool {
    match function {
        BinaryFunction::Equal => comparison_outcome(view, function, a, b, r),
        BinaryFunction::NotEqual => comparison_outcome(view, function, a, b, r),
        BinaryFunction::Greater => comparison_outcome(view, function, a, b, r),
        BinaryFunction::GreaterOrEq => comparison_outcome(view, function, a, b, r),
        BinaryFunction::Lower => comparison_outcome(view, function, a, b, r),
        BinaryFunction::LowerOrEq => comparison_outcome(view, function, a, b, r),
        BinaryFunction::Add => binary_arithmetic_outcome(operator_of(function), a, b, r),
        BinaryFunction::Sub => binary_arithmetic_outcome(operator_of(function), a, b, r),
        BinaryFunction::Mul => binary_arithmetic_outcome(operator_of(function), a, b, r),
        BinaryFunction::Div => binary_arithmetic_outcome(operator_of(function), a, b, r),
        BinaryFunction::StrLang => r == str_lang_value(a, b),
        BinaryFunction::SameTerm => r == Some(bool_term(a == b)),
        BinaryFunction::LangMatches => lang_matches_outcome(view, a, b, r),
    }
}

/// What a function of two arguments may give from the results of its
/// arguments: an error if either is undefined.
pub open spec fn binary_result<S: DatasetView>(
    view: &S,
    function: BinaryFunction,
    a: Option<EncodedTerm>,
    b: Option<EncodedTerm>,
    r: Option<EncodedTerm>,
) -> bool {
    match (a, b) {
        (Some(a), Some(b)) => binary_outcome(view, function, a, b, r),
        _ => r is None,
    }
}

/// A number unchanged; other terms give an error.
pub open spec fn unary_plus_value(a: EncodedTerm) -> Option<EncodedTerm> {
    if a.is_numeric() {
        Some(a)
    } else {
        None
    }
}

/// The negation of a number; other terms give an error, and so does an
/// integer whose negation does not fit and a decimal that is not well
/// formed.
pub open spec fn unary_minus_value(a: EncodedTerm) -> Option<EncodedTerm> {
    match a {
        EncodedTerm::FloatLiteral(x) => Some(EncodedTerm::FloatLiteral(single_negation(x))),
        EncodedTerm::DoubleLiteral(x) => Some(EncodedTerm::DoubleLiteral(double_negation(x))),
        EncodedTerm::IntegerLiteral(x) => match integer_negation(x) {
            Some(v) => Some(EncodedTerm::IntegerLiteral(v)),
            None => None,
        },
        EncodedTerm::DecimalLiteral(x) => if x.wf() {
            Some(EncodedTerm::DecimalLiteral(decimal_negation(x)))
        } else {
            None
        },
        _ => None,
    }
}

/// The language tag of a literal as a simple literal: the tag of a
/// language-tagged literal, the empty string for another literal; other
/// terms give an error.
pub open spec fn lang_value(a: EncodedTerm) -> Option<EncodedTerm> {
    match a {
        EncodedTerm::LangStringLiteral { language_id, .. } => Some(
            EncodedTerm::SimpleLiteral { value_id: language_id },
        ),
        _ => if a.is_literal() {
            Some(empty_simple_literal())
        } else {
            None
        },
    }
}

/// A named node unchanged, or the named node whose IRI is the text of a
/// simple or `xsd:string` literal; other terms give an error.
pub open spec fn iri_value(a: EncodedTerm) -> Option<EncodedTerm> {
    match a {
        EncodedTerm::NamedNode { iri_id } => Some(EncodedTerm::NamedNode { iri_id }),
        EncodedTerm::SimpleLiteral { value_id } => Some(
            EncodedTerm::NamedNode { iri_id: value_id },
        ),
        EncodedTerm::StringLiteral { value_id } => Some(
            EncodedTerm::NamedNode { iri_id: value_id },
        ),
        _ => None,
    }
}

/// What `Str` and the cast to `xsd:string` may give: a literal, simple or
/// `xsd:string`, whose text is the term's.
pub open spec fn str_outcome<S: DatasetView>(
    view: &S,
    typed: bool,
    a: EncodedTerm,
    r: Option<EncodedTerm>,
) -> bool {
    exists|id: Option<u64>| #[trigger]
        string_id_outcome(view, a, id) && r == match id {
            Some(value_id) => Some(
                if typed {
                    EncodedTerm::StringLiteral { value_id }
                } else {
                    EncodedTerm::SimpleLiteral { value_id }
                },
            ),
            None => None,
        }
}

/// The boolean that a text stands for.
pub open spec fn boolean_parsed(text: Seq<char>) -> Option<bool> {
    if text == "true"@ || text == "1"@ {
        Some(true)
    } else if text == "false"@ || text == "0"@ {
        Some(false)
    } else {
        None
    }
}

/// The date that a text stands for: a point in time with offset if the
/// text is one in RFC 3339, else a date and time without zone of the form
/// `NAIVE_DATE_TIME_FORMAT`.
pub open spec fn date_parsed(text: Seq<char>) -> Option<EncodedTerm> {
    match date_time_parsed(text) {
        Some(v) => Some(EncodedTerm::DateTime(v)),
        None => match naive_date_time_parsed(text, NAIVE_DATE_TIME_FORMAT@) {
            Some(v) => Some(EncodedTerm::NaiveDateTime(v)),
            None => None,
        },
    }
}

/// What a cast of a text gives, for the casts whose reading of a text is
/// exact.
pub open spec fn exact_cast_of_text(function: UnaryFunction, text: Seq<char>) -> Option<
    EncodedTerm,
> {
    match function {
        UnaryFunction::BooleanCast => boolean_result(boolean_parsed(text)),
        UnaryFunction::IntegerCast => match integer_parsed(text) {
            Some(v) => Some(EncodedTerm::IntegerLiteral(v)),
            None => None,
        },
        UnaryFunction::DecimalCast => match checked_decimal(decimal_parsed(text)) {
            Some(v) => Some(EncodedTerm::DecimalLiteral(v)),
            None => None,
        },
        UnaryFunction::DateTimeCast => date_parsed(text),
        _ => None,
    }
}

/// Whether a term is of the family that a numeric cast leads to.
pub open spec fn in_family_of(function: UnaryFunction, term: EncodedTerm) -> bool {
    match function {
        UnaryFunction::DoubleCast => term is DoubleLiteral,
        UnaryFunction::FloatCast => term is FloatLiteral,
        UnaryFunction::IntegerCast => term is IntegerLiteral,
        UnaryFunction::DecimalCast => term matches EncodedTerm::DecimalLiteral(d) && d.wf(),
        _ => false,
    }
}

/// What a cast may give whose result is left to the floating-point
/// arithmetic supplied: an error, or some term of the target family.
pub open spec fn supplied_cast(function: UnaryFunction, r: Option<EncodedTerm>) -> bool {
    r matches Some(term) ==> in_family_of(function, term)
}

/// What the cast of a boolean to a number gives: one or zero.
pub open spec fn cast_of_boolean(function: UnaryFunction, value: bool) -> Option<EncodedTerm> {
    match function {
        UnaryFunction::BooleanCast => Some(bool_term(value)),
        UnaryFunction::DoubleCast => Some(
            EncodedTerm::DoubleLiteral(
                if value {
                    DOUBLE_ONE
                } else {
                    0
                },
            ),
        ),
        UnaryFunction::FloatCast => Some(
            EncodedTerm::FloatLiteral(
                if value {
                    SINGLE_ONE
                } else {
                    0
                },
            ),
        ),
        UnaryFunction::IntegerCast => Some(
            EncodedTerm::IntegerLiteral(
                if value {
                    1
                } else {
                    0
                },
            ),
        ),
        UnaryFunction::DecimalCast => Some(
            EncodedTerm::DecimalLiteral(
                DecimalValue {
                    mantissa: if value {
                        1
                    } else {
                        0
                    },
                    scale: 0,
                },
            ),
        ),
        _ => None,
    }
}

/// What a cast may give.
///
/// A term of the target type passes unchanged. A boolean becomes one or
/// zero. Between integers and decimals the cast is exact: an integer
/// becomes its decimal if it fits, a decimal its integer part. A simple or
/// `xsd:string` literal is looked up and read by the target's grammar.
/// Where a `float` or a `double` is the source or the target of a
/// conversion, or a text is read as one, the result is left to the
/// arithmetic supplied. All other terms give an error.
pub open spec fn cast_outcome<S: DatasetView>(
    view: &S,
    function: UnaryFunction,
    a: EncodedTerm,
    r: Option<EncodedTerm>,
) -> bool {
    match a {
        EncodedTerm::BooleanLiteral(value) => r == cast_of_boolean(function, value),
        EncodedTerm::SimpleLiteral { value_id } => cast_of_text_outcome(
            view,
            function,
            value_id,
            r,
        ),
        EncodedTerm::StringLiteral { value_id } => cast_of_text_outcome(
            view,
            function,
            value_id,
            r,
        ),
        EncodedTerm::FloatLiteral(_) => match function {
            UnaryFunction::FloatCast => r == Some(a),
            UnaryFunction::DoubleCast => supplied_cast(function, r),
            UnaryFunction::IntegerCast => supplied_cast(function, r),
            UnaryFunction::DecimalCast => supplied_cast(function, r),
            _ => r is None,
        },
        EncodedTerm::DoubleLiteral(_) => match function {
            UnaryFunction::DoubleCast => r == Some(a),
            UnaryFunction::FloatCast => supplied_cast(function, r),
            UnaryFunction::IntegerCast => supplied_cast(function, r),
            UnaryFunction::DecimalCast => supplied_cast(function, r),
            _ => r is None,
        },
        EncodedTerm::IntegerLiteral(value) => match function {
            UnaryFunction::IntegerCast => r == Some(a),
            UnaryFunction::DecimalCast => r == match decimal_of_integer(value) {
                Some(d) => Some(EncodedTerm::DecimalLiteral(d)),
                None => None,
            },
            UnaryFunction::FloatCast => supplied_cast(function, r),
            UnaryFunction::DoubleCast => supplied_cast(function, r),
            _ => r is None,
        },
        EncodedTerm::DecimalLiteral(value) => match function {
            UnaryFunction::DecimalCast => r == Some(a),
            UnaryFunction::IntegerCast => r == if value.wf() {
                Some(EncodedTerm::IntegerLiteral(integer_of_decimal(value)))
            } else {
                None
            },
            UnaryFunction::FloatCast => supplied_cast(function, r),
            UnaryFunction::DoubleCast => supplied_cast(function, r),
            _ => r is None,
        },
        EncodedTerm::DateTime(_) => r == if function == UnaryFunction::DateTimeCast {
            Some(a)
        } else {
            None
        },
        EncodedTerm::NaiveDateTime(_) => r == if function == UnaryFunction::DateTimeCast {
            Some(a)
        } else {
            None
        },
        _ => r is None,
    }
}

/// What the cast of a literal's text may give: an error where the lookup
/// fails, else what the target's grammar reads.
pub open spec fn cast_of_text_outcome<S: DatasetView>(
    view: &S,
    function: UnaryFunction,
    value_id: u64,
    r: Option<EncodedTerm>,
) -> bool {
    exists|text: Option<Seq<char>>| #[trigger]
        lookup_outcome(view, value_id, text) && match text {
            Some(text) => match function {
                UnaryFunction::FloatCast => supplied_cast(function, r),
                UnaryFunction::DoubleCast => supplied_cast(function, r),
                _ => r == exact_cast_of_text(function, text),
            },
            None => r is None,
        }
}

/// What a function of one defined argument may give.
pub open spec fn unary_outcome<S: DatasetView>(
    view: &S,
    function: UnaryFunction,
    a: EncodedTerm,
    r: Option<EncodedTerm>,
) -> bool {
    match function {
        UnaryFunction::UnaryPlus => r == unary_plus_value(a),
        UnaryFunction::UnaryMinus => r == unary_minus_value(a),
        UnaryFunction::UnaryNot => r == boolean_result(
            match effective_boolean_value(a) {
                Some(b) => Some(!b),
                None => None,
            },
        ),
        UnaryFunction::Str => str_outcome(view, false, a, r),
        UnaryFunction::StringCast => str_outcome(view, true, a, r),
        UnaryFunction::Lang => r == lang_value(a),
        UnaryFunction::Datatype => r == a.datatype(),
        UnaryFunction::IRI => r == iri_value(a),
        UnaryFunction::IsIRI => r == Some(bool_term(a.is_named_node())),
        UnaryFunction::IsBlank => r == Some(bool_term(a.is_blank_node())),
        UnaryFunction::IsLiteral => r == Some(bool_term(a.is_literal())),
        UnaryFunction::IsNumeric => r == Some(bool_term(a.is_numeric())),
        UnaryFunction::BooleanCast => cast_outcome(view, function, a, r),
        UnaryFunction::DoubleCast => cast_outcome(view, function, a, r),
        UnaryFunction::FloatCast => cast_outcome(view, function, a, r),
        UnaryFunction::IntegerCast => cast_outcome(view, function, a, r),
        UnaryFunction::DecimalCast => cast_outcome(view, function, a, r),
        UnaryFunction::DateTimeCast => cast_outcome(view, function, a, r),
    }
}

/// What a function of one argument may give from the result of its
/// argument: an error if that is undefined.
pub open spec fn unary_result<S: DatasetView>(
    view: &S,
    function: UnaryFunction,
    a: Option<EncodedTerm>,
    r: Option<EncodedTerm>,
) -> bool {
    match a {
        Some(a) => unary_outcome(view, function, a, r),
        None => r is None,
    }
}

/// Whether a regular expression matches a text, from the texts of the
/// pattern, of the flags if there are any, and of the text. Of the flags,
/// `s` lets the dot match a line break, `m` makes the anchors match at
/// lines, `i` ignores case and `x` ignores white space in the pattern;
/// other letters say nothing. A pattern that does not compile within
/// `REGEX_SIZE_LIMIT` gives an error.
pub open spec fn regex_value(pattern: Seq<char>, flags: Seq<char>, text: Seq<char>) -> Option<
    EncodedTerm,
> {
    boolean_result(
        regex_matched(
            pattern,
            REGEX_SIZE_LIMIT,
            flags.contains('s'),
            flags.contains('m'),
            flags.contains('i'),
            flags.contains('x'),
            text,
        ),
    )
}

/// What `Regex` may give from the results of its arguments. The pattern
/// and the flags must be simple literals, the text a simple, `xsd:string`
/// or language-tagged literal, and their texts must be found.
pub open spec fn regex_result<S: DatasetView>(
    view: &S,
    text: Option<EncodedTerm>,
    pattern: Option<EncodedTerm>,
    flags: Option<Option<EncodedTerm>>,
    r: Option<EncodedTerm>,
) -> bool {
    match (pattern, text) {
        (Some(pattern), Some(text)) => exists|
            pattern_text: Option<Seq<char>>,
            flags_text: Option<Seq<char>>,
            text_text: Option<Seq<char>>,
        |
            #![trigger simple_string_outcome(view, pattern, pattern_text), flags_outcome(view, flags, flags_text), string_outcome(view, text, text_text)]
            simple_string_outcome(view, pattern, pattern_text) && flags_outcome(
                view,
                flags,
                flags_text,
            ) && string_outcome(view, text, text_text) && r == match (
                pattern_text,
                flags_text,
                text_text,
            ) {
                (Some(p), Some(f), Some(t)) => regex_value(p, f, t),
                _ => None,
            },
        _ => r is None,
    }
}

/// What the text of the flags of `Regex` may be: empty where there is no
/// flags argument, else the text of the simple literal that it gave.
pub open spec fn flags_outcome<S: DatasetView>(
    view: &S,
    flags: Option<Option<EncodedTerm>>,
    r: Option<Seq<char>>,
) -> bool {
    match flags {
        None => r == Some(Seq::<char>::empty()),
        Some(None) => r is None,
        Some(Some(term)) => simple_string_outcome(view, term, r),
    }
}

/// What `UUID` may give: an error, or a named node whose IRI is the URN
/// of some UUID.
pub open spec fn uuid_outcome<S: DatasetView>(view: &S, r: Option<EncodedTerm>) -> bool {
    r matches Some(term) ==> (term matches EncodedTerm::NamedNode { iri_id } && exists|v: u128|
        view.text(iri_id) == Some(#[trigger] uuid_urn_text(v)))
}

/// What `StrUUID` may give: an error, or a simple literal whose text is
/// the 32 hexadecimal digits of some UUID.
pub open spec fn str_uuid_outcome<S: DatasetView>(view: &S, r: Option<EncodedTerm>) -> bool {
    r matches Some(term) ==> (term matches EncodedTerm::SimpleLiteral { value_id } && exists|
        v: u128,
    |
        view.text(value_id) == Some(#[trigger] uuid_simple_text(v)))
}

/// What an equality or comparison operator gives, with every conversion
/// to `float` or `double` what `floats` answered for the operand.
pub open spec fn comparison_answer<S: DatasetView, F: FloatArithmetic>(
    view: &S,
    floats: &F,
    function: BinaryFunction,
    a: EncodedTerm,
    b: EncodedTerm,
    r: Option<EncodedTerm>,
) -> bool {
    if a == b && function == BinaryFunction::Equal {
        r == Some(bool_term(true))
    } else if a == b && function == BinaryFunction::NotEqual {
        r == Some(bool_term(false))
    } else {
        exists|order: Option<Comparison>|
            #[trigger] literal_order_answer(view, floats, a, b, order) && r == match order {
                Some(c) => Some(bool_term(order_test(function, c))),
                None => None,
            }
    }
}

/// What an arithmetic operator gives, with every conversion and every
/// floating-point result what `floats` answered for the operands.
pub open spec fn binary_arithmetic_answer<F: FloatArithmetic>(
    floats: &F,
    operator: ArithmeticOperator,
    a: EncodedTerm,
    b: EncodedTerm,
    r: Option<EncodedTerm>,
) -> bool {
    exists|operands: Option<NumericBinaryOperands>|
        #[trigger] operands_answer(floats, a, b, operands) && match operands {
            Some(pair) => arithmetic_answer(floats, operator, pair, r),
            None => r is None,
        }
}

/// What a function of two arguments gives from the results of its
/// arguments, with what `floats` answered where it was asked.
pub open spec fn binary_answer<S: DatasetView, F: FloatArithmetic>(
    view: &S,
    floats: &F,
    function: BinaryFunction,
    a: Option<EncodedTerm>,
    b: Option<EncodedTerm>,
    r: Option<EncodedTerm>,
) -> bool {
    match (a, b) {
        (Some(a), Some(b)) => match function {
            BinaryFunction::Equal => comparison_answer(view, floats, function, a, b, r),
            BinaryFunction::NotEqual => comparison_answer(view, floats, function, a, b, r),
            BinaryFunction::Greater => comparison_answer(view, floats, function, a, b, r),
            BinaryFunction::GreaterOrEq => comparison_answer(view, floats, function, a, b, r),
            BinaryFunction::Lower => comparison_answer(view, floats, function, a, b, r),
            BinaryFunction::LowerOrEq => comparison_answer(view, floats, function, a, b, r),
            BinaryFunction::Add => binary_arithmetic_answer(floats, operator_of(function), a, b, r),
            BinaryFunction::Sub => binary_arithmetic_answer(floats, operator_of(function), a, b, r),
            BinaryFunction::Mul => binary_arithmetic_answer(floats, operator_of(function), a, b, r),
            BinaryFunction::Div => binary_arithmetic_answer(floats, operator_of(function), a, b, r),
            BinaryFunction::LangMatches => lang_matches_answer(view, a, b, r),
            _ => binary_outcome(view, function, a, b, r),
        },
        _ => r is None,
    }
}

/// The term of an integer, if there is one.
pub open spec fn integer_term(value: Option<i128>) -> Option<EncodedTerm> {
    match value {
        Some(value) => Some(EncodedTerm::IntegerLiteral(value)),
        None => None,
    }
}

/// The term of a decimal, if there is one.
pub open spec fn decimal_term(value: Option<DecimalValue>) -> Option<EncodedTerm> {
    match value {
        Some(value) => Some(EncodedTerm::DecimalLiteral(value)),
        None => None,
    }
}

/// What the cast of a number gives where `floats` is asked: a cast to
/// `float` or `double` is the promotion to that family; the cast of a
/// `float` or a `double` to an integer or a decimal is what `floats`
/// answered for its bits, a decimal kept only if it is well formed.
pub open spec fn number_cast_answer<F: FloatArithmetic>(
    floats: &F,
    function: UnaryFunction,
    a: EncodedTerm,
    r: Option<EncodedTerm>,
) -> bool {
    match function {
        UnaryFunction::FloatCast => promotion_answer(floats, a, NumericFamily::Float, r),
        UnaryFunction::DoubleCast => promotion_answer(floats, a, NumericFamily::Double, r),
        UnaryFunction::IntegerCast => match a {
            EncodedTerm::FloatLiteral(x) => exists|c: Option<i128>| #[trigger]
                call_ensures(F::single_to_integer, (floats, x), c) && r == integer_term(c),
            EncodedTerm::DoubleLiteral(x) => exists|c: Option<i128>| #[trigger]
                call_ensures(F::double_to_integer, (floats, x), c) && r == integer_term(c),
            _ => true,
        },
        UnaryFunction::DecimalCast => match a {
            EncodedTerm::FloatLiteral(x) => exists|c: Option<DecimalValue>| #[trigger]
                call_ensures(F::single_to_decimal, (floats, x), c) && r == decimal_term(
                    checked_decimal(c),
                ),
            EncodedTerm::DoubleLiteral(x) => exists|c: Option<DecimalValue>| #[trigger]
                call_ensures(F::double_to_decimal, (floats, x), c) && r == decimal_term(
                    checked_decimal(c),
                ),
            _ => true,
        },
        _ => true,
    }
}

/// What the cast of a literal's text gives: an error where the lookup of
/// the text failed; else what the target's grammar reads in the text that
/// the lookup gave, and for `float` and `double` what `floats` answered
/// for that text.
pub open spec fn text_cast_answer<S: DatasetView, F: FloatArithmetic>(
    view: &S,
    floats: &F,
    function: UnaryFunction,
    value_id: u64,
    r: Option<EncodedTerm>,
) -> bool {
    exists|text: Option<String>| #[trigger]
        lookup_answer(view, value_id, text) && match text {
            Some(text) => match function {
                UnaryFunction::FloatCast => exists|handed: &str, c: Option<u32>| #[trigger]
                    call_ensures(F::parse_single, (floats, handed), c) && handed@ == text@ && r
                        == single_term(c),
                UnaryFunction::DoubleCast => exists|handed: &str, c: Option<u64>| #[trigger]
                    call_ensures(F::parse_double, (floats, handed), c) && handed@ == text@ && r
                        == double_term(c),
                _ => r == exact_cast_of_text(function, text@),
            },
            None => r is None,
        }
}

/// What a cast gives, with what `floats` answered where it was asked.
pub open spec fn cast_answer<S: DatasetView, F: FloatArithmetic>(
    view: &S,
    floats: &F,
    function: UnaryFunction,
    a: EncodedTerm,
    r: Option<EncodedTerm>,
) -> bool {
    match a {
        EncodedTerm::SimpleLiteral { value_id } => text_cast_answer(
            view,
            floats,
            function,
            value_id,
            r,
        ),
        EncodedTerm::StringLiteral { value_id } => text_cast_answer(
            view,
            floats,
            function,
            value_id,
            r,
        ),
        _ => a.is_numeric() ==> number_cast_answer(floats, function, a, r),
    }
}

/// What `Str` and the cast to `xsd:string` give, with the text of a
/// `float` or a `double` what `floats` answered for its bits.
pub open spec fn str_answer<S: DatasetView, F: FloatArithmetic>(
    view: &S,
    floats: &F,
    typed: bool,
    a: EncodedTerm,
    r: Option<EncodedTerm>,
) -> bool {
    exists|id: Option<u64>| #[trigger]
        string_id_answer(view, floats, a, id) && string_id_outcome(view, a, id) && r
            == match id {
            Some(value_id) => Some(
                if typed {
                    EncodedTerm::StringLiteral { value_id }
                } else {
                    EncodedTerm::SimpleLiteral { value_id }
                },
            ),
            None => None,
        }
}

/// What a function of one argument gives from the result of its
/// argument, with what `floats` answered where it was asked.
pub open spec fn unary_answer<S: DatasetView, F: FloatArithmetic>(
    view: &S,
    floats: &F,
    function: UnaryFunction,
    a: Option<EncodedTerm>,
    r: Option<EncodedTerm>,
) -> bool {
    match a {
        Some(a) => match function {
            UnaryFunction::Str => str_answer(view, floats, false, a, r),
            UnaryFunction::StringCast => str_answer(view, floats, true, a, r),
            UnaryFunction::BooleanCast => cast_answer(view, floats, function, a, r),
            UnaryFunction::DoubleCast => cast_answer(view, floats, function, a, r),
            UnaryFunction::FloatCast => cast_answer(view, floats, function, a, r),
            UnaryFunction::IntegerCast => cast_answer(view, floats, function, a, r),
            UnaryFunction::DecimalCast => cast_answer(view, floats, function, a, r),
            UnaryFunction::DateTimeCast => cast_answer(view, floats, function, a, r),
            _ => unary_outcome(view, function, a, r),
        },
        None => r is None,
    }
}

/// What `LangMatches` gives: what `lang_matches_value` says of the texts
/// that the lookups of the two operands gave.
pub open spec fn lang_matches_answer<S: DatasetView>(
    view: &S,
    a: EncodedTerm,
    b: EncodedTerm,
    r: Option<EncodedTerm>,
) -> bool {
    exists|tag: Option<String>, range: Option<String>|
        #![trigger simple_string_answer(view, a, tag), simple_string_answer(view, b, range)]
        simple_string_answer(view, a, tag) && simple_string_answer(view, b, range) && r
            == lang_matches_value(text_of(tag), text_of(range))
}

/// What the text of the flags of `Regex` is: empty where there is no
/// flags argument, else what the lookup of the simple literal gave.
pub open spec fn flags_answer<S: DatasetView>(
    view: &S,
    flags: Option<Option<EncodedTerm>>,
    r: Option<String>,
) -> bool {
    match flags {
        None => r matches Some(text) && text@ == Seq::<char>::empty(),
        Some(None) => r is None,
        Some(Some(term)) => simple_string_answer(view, term, r),
    }
}

/// What `Regex` gives from the results of its arguments: what
/// `regex_value` says of the texts that the lookups gave, and an error if
/// an argument is undefined or a lookup failed.
pub open spec fn regex_answer<S: DatasetView>(
    view: &S,
    text: Option<EncodedTerm>,
    pattern: Option<EncodedTerm>,
    flags: Option<Option<EncodedTerm>>,
    r: Option<EncodedTerm>,
) -> bool {
    match (pattern, text) {
        (Some(pattern), Some(text)) => exists|
            pattern_text: Option<String>,
            flags_text: Option<String>,
            text_text: Option<String>,
        |
            #![trigger simple_string_answer(view, pattern, pattern_text), flags_answer(view, flags, flags_text), string_answer(view, text, text_text)]
            simple_string_answer(view, pattern, pattern_text) && flags_answer(
                view,
                flags,
                flags_text,
            ) && string_answer(view, text, text_text) && r == match (
                pattern_text,
                flags_text,
                text_text,
            ) {
                (Some(p), Some(f), Some(t)) => regex_value(p@, f@, t@),
                _ => None,
            },
        _ => r is None,
    }
}

/// What `UUID` gives: the named node of the id that interning gave for
/// the URN of some UUID, and an error where interning failed.
pub open spec fn uuid_answer<S: DatasetView>(view: &S, r: Option<EncodedTerm>) -> bool {
    exists|value: u128, id: Option<u64>|
        #![trigger interned(view, uuid_urn_text(value), id)]
        interned(view, uuid_urn_text(value), id) && r == match id {
            Some(iri_id) => Some(EncodedTerm::NamedNode { iri_id }),
            None => None,
        }
}

/// What `StrUUID` gives: the simple literal of the id that interning gave
/// for the 32 hexadecimal digits of some UUID, and an error where
/// interning failed.
pub open spec fn str_uuid_answer<S: DatasetView>(view: &S, r: Option<EncodedTerm>) -> bool {
    exists|value: u128, id: Option<u64>|
        #![trigger interned(view, uuid_simple_text(value), id)]
        interned(view, uuid_simple_text(value), id) && r == match id {
            Some(value_id) => Some(EncodedTerm::SimpleLiteral { value_id }),
            None => None,
        }
}

/// What a function of one argument gives from the result of its
/// argument: what `unary_result` says, with what `floats` answered where
/// it was asked.
pub open spec fn unary_applied<S: DatasetView, F: FloatArithmetic>(
    view: &S,
    floats: &F,
    function: UnaryFunction,
    a: Option<EncodedTerm>,
    r: Option<EncodedTerm>,
) -> bool {
    unary_result(view, function, a, r) && unary_answer(view, floats, function, a, r)
}

/// What a function of two arguments gives from the results of its
/// arguments: what `binary_result` says, with what `floats` answered
/// where it was asked.
pub open spec fn binary_applied<S: DatasetView, F: FloatArithmetic>(
    view: &S,
    floats: &F,
    function: BinaryFunction,
    a: Option<EncodedTerm>,
    b: Option<EncodedTerm>,
    r: Option<EncodedTerm>,
) -> bool {
    binary_result(view, function, a, b, r) && binary_answer(view, floats, function, a, b, r)
}

/// Whether the language tag `tag` matches the range `range`.
pub fn lang_matches_texts(tag: &str, range: &str) -> (r: Option<EncodedTerm>)
    ensures
        r == lang_matches_value(Some(tag@), Some(range@)),
{
    if text_is(range, "*") {
        Some(EncodedTerm::BooleanLiteral(!tag.is_empty()))
    } else {
        match check_language_range(range) {
            Some(true) => match match_language_range(range, tag) {
                Some(matched) => Some(EncodedTerm::BooleanLiteral(matched)),
                None => None,
            },
            _ => None,
        }
    }
}

/// What a cast reads from a text, for the casts to boolean, integer,
/// decimal and date; the other casts read nothing here.
pub fn cast_of_text(function: UnaryFunction, text: &str) -> (r: Option<EncodedTerm>)
    ensures
        r == exact_cast_of_text(function, text@),
{
    match function {
        UnaryFunction::BooleanCast => {
            if text_is(text, "true") || text_is(text, "1") {
                Some(EncodedTerm::BooleanLiteral(true))
            } else if text_is(text, "false") || text_is(text, "0") {
                Some(EncodedTerm::BooleanLiteral(false))
            } else {
                None
            }
        },
        UnaryFunction::IntegerCast => match parse_integer(text) {
            Some(v) => Some(EncodedTerm::IntegerLiteral(v)),
            None => None,
        },
        UnaryFunction::DecimalCast => match parse_decimal(text) {
            Some(v) => Some(EncodedTerm::DecimalLiteral(v)),
            None => None,
        },
        UnaryFunction::DateTimeCast => match parse_date_time(text) {
            Some(v) => Some(EncodedTerm::DateTime(v)),
            None => match parse_naive_date_time(text, NAIVE_DATE_TIME_FORMAT) {
                Some(v) => Some(EncodedTerm::NaiveDateTime(v)),
                None => None,
            },
        },
        _ => None,
    }
}

/// Whether `flag` is among the letters of `flags`.
pub fn has_flag(flags: &str, flag: char) -> (r: bool)
    ensures
        r == flags@.contains(flag),
{
    let n = flags.unicode_len();
    let mut i: usize = 0;
    while i < n
        invariant
            i <= n,
            n == flags@.len(),
            forall|j: int| 0 <= j < i ==> flags@[j] != flag,
        decreases n - i,
    {
        if flags.get_char(i) == flag {
            return true;
        }
        i = i + 1;
    }
    false
}

/// Whether the regular expression `pattern` under the flags `flags`
/// matches somewhere in `text`.
pub fn regex_on_texts(pattern: &str, flags: &str, text: &str) -> (r: Option<EncodedTerm>)
    ensures
        r == regex_value(pattern@, flags@, text@),
{
    let dot_matches_new_line = has_flag(flags, 's');
    let multi_line = has_flag(flags, 'm');
    let case_insensitive = has_flag(flags, 'i');
    let ignore_whitespace = has_flag(flags, 'x');
    match match_regex(
        pattern,
        REGEX_SIZE_LIMIT,
        dot_matches_new_line,
        multi_line,
        case_insensitive,
        ignore_whitespace,
        text,
    ) {
        Some(found) => Some(EncodedTerm::BooleanLiteral(found)),
        None => None,
    }
}

impl<S: DatasetView, F: FloatArithmetic> SimpleEvaluator<S, F> {
    /// Applies an equality or comparison operator.
    pub fn apply_comparison(&self, function: BinaryFunction, a: EncodedTerm, b: EncodedTerm) -> (r:
        Option<EncodedTerm>)
        ensures
            comparison_answer(&self.dataset, &self.floats, function, a, b, r),
            comparison_outcome(&self.dataset, function, a, b, r),
    {
        if a == b && function == BinaryFunction::Equal {
            return Some(EncodedTerm::BooleanLiteral(true));
        }
        if a == b && function == BinaryFunction::NotEqual {
            return Some(EncodedTerm::BooleanLiteral(false));
        }
        match self.partial_cmp_literals(a, b) {
            Some(order) => {
                let test = match function {
                    BinaryFunction::Greater => order == Comparison::Greater,
                    BinaryFunction::GreaterOrEq => order != Comparison::Less,
                    BinaryFunction::Lower => order == Comparison::Less,
                    BinaryFunction::LowerOrEq => order != Comparison::Greater,
                    BinaryFunction::Equal => order == Comparison::Equal,
                    _ => order != Comparison::Equal,
                };
                Some(EncodedTerm::BooleanLiteral(test))
            },
            None => None,
        }
    }

    /// Applies an arithmetic operator.
    pub fn apply_binary_arithmetic(
        &self,
        operator: ArithmeticOperator,
        a: EncodedTerm,
        b: EncodedTerm,
    ) -> (r: Option<EncodedTerm>)
        ensures
            binary_arithmetic_answer(&self.floats, operator, a, b, r),
            binary_arithmetic_outcome(operator, a, b, r),
    {
        match self.parse_numeric_operands(a, b) {
            Some(pair) => self.apply_arithmetic(operator, pair),
            None => None,
        }
    }

    /// Applies `LangMatches` to a tag and a range.
    pub fn apply_lang_matches(&self, a: EncodedTerm, b: EncodedTerm) -> (r: Option<EncodedTerm>)
        ensures
            lang_matches_answer(&self.dataset, a, b, r),
            lang_matches_outcome(&self.dataset, a, b, r),
    {
        let tag = self.to_simple_string(a);
        let range = self.to_simple_string(b);
        match (tag, range) {
            (Some(tag), Some(range)) => lang_matches_texts(tag.as_str(), range.as_str()),
            _ => None,
        }
    }

    /// Applies a function of two arguments to the results of its arguments.
    pub fn apply_binary(
        &self,
        function: BinaryFunction,
        a: Option<EncodedTerm>,
        b: Option<EncodedTerm>,
    ) -> (r: Option<EncodedTerm>)
        ensures
            binary_applied(&self.dataset, &self.floats, function, a, b, r),
    {
        let (a, b) = match (a, b) {
            (Some(a), Some(b)) => (a, b),
            _ => {
                return None;
            },
        };
        match function {
            BinaryFunction::Equal => self.apply_comparison(function, a, b),
            BinaryFunction::NotEqual => self.apply_comparison(function, a, b),
            BinaryFunction::Greater => self.apply_comparison(function, a, b),
            BinaryFunction::GreaterOrEq => self.apply_comparison(function, a, b),
            BinaryFunction::Lower => self.apply_comparison(function, a, b),
            BinaryFunction::LowerOrEq => self.apply_comparison(function, a, b),
            BinaryFunction::Add => self.apply_binary_arithmetic(ArithmeticOperator::Add, a, b),
            BinaryFunction::Sub => self.apply_binary_arithmetic(ArithmeticOperator::Sub, a, b),
            BinaryFunction::Mul => self.apply_binary_arithmetic(ArithmeticOperator::Mul, a, b),
            BinaryFunction::Div => self.apply_binary_arithmetic(ArithmeticOperator::Div, a, b),
            BinaryFunction::StrLang => match (
                self.to_simple_string_id(a),
                self.to_simple_string_id(b),
            ) {
                (Some(value_id), Some(language_id)) => Some(
                    EncodedTerm::LangStringLiteral { value_id, language_id },
                ),
                _ => None,
            },
            BinaryFunction::SameTerm => Some(EncodedTerm::BooleanLiteral(a == b)),
            BinaryFunction::LangMatches => self.apply_lang_matches(a, b),
        }
    }

    /// `Str`, and with `typed` the cast to `xsd:string`.
    pub fn apply_str(&self, typed: bool, a: EncodedTerm) -> (r: Option<EncodedTerm>)
        ensures
            str_answer(&self.dataset, &self.floats, typed, a, r),
            str_outcome(&self.dataset, typed, a, r),
    {
        match self.to_string_id(a) {
            Some(value_id) => Some(
                if typed {
                    EncodedTerm::StringLiteral { value_id }
                } else {
                    EncodedTerm::SimpleLiteral { value_id }
                },
            ),
            None => None,
        }
    }

    /// A cast of the text of a literal.
    fn cast_text(&self, function: UnaryFunction, value_id: u64) -> (r: Option<EncodedTerm>)
        ensures
            text_cast_answer(&self.dataset, &self.floats, function, value_id, r),
            cast_of_text_outcome(&self.dataset, function, value_id, r),
    {
        let text = match self.lookup(value_id) {
            Some(text) => text,
            None => {
                return None;
            },
        };
        match function {
            UnaryFunction::DoubleCast => match self.floats.parse_double(text.as_str()) {
                Some(bits) => Some(EncodedTerm::DoubleLiteral(bits)),
                None => None,
            },
            UnaryFunction::FloatCast => match self.floats.parse_single(text.as_str()) {
                Some(bits) => Some(EncodedTerm::FloatLiteral(bits)),
                None => None,
            },
            _ => cast_of_text(function, text.as_str()),
        }
    }

    /// A cast of a number.
    fn cast_number(&self, function: UnaryFunction, a: EncodedTerm) -> (r: Option<EncodedTerm>)
        requires
            a.is_numeric(),
        ensures
            number_cast_answer(&self.floats, function, a, r),
            cast_outcome(&self.dataset, function, a, r),
    {
        match a {
            EncodedTerm::FloatLiteral(x) => match function {
                UnaryFunction::FloatCast => Some(a),
                UnaryFunction::DoubleCast => match self.floats.single_to_double(x) {
                    Some(v) => Some(EncodedTerm::DoubleLiteral(v)),
                    None => None,
                },
                UnaryFunction::IntegerCast => match self.floats.single_to_integer(x) {
                    Some(v) => Some(EncodedTerm::IntegerLiteral(v)),
                    None => None,
                },
                UnaryFunction::DecimalCast => match check_decimal(
                    self.floats.single_to_decimal(x),
                ) {
                    Some(v) => Some(EncodedTerm::DecimalLiteral(v)),
                    None => None,
                },
                _ => None,
            },
            EncodedTerm::DoubleLiteral(x) => match function {
                UnaryFunction::DoubleCast => Some(a),
                UnaryFunction::FloatCast => match self.floats.double_to_single(x) {
                    Some(v) => Some(EncodedTerm::FloatLiteral(v)),
                    None => None,
                },
                UnaryFunction::IntegerCast => match self.floats.double_to_integer(x) {
                    Some(v) => Some(EncodedTerm::IntegerLiteral(v)),
                    None => None,
                },
                UnaryFunction::DecimalCast => match check_decimal(
                    self.floats.double_to_decimal(x),
                ) {
                    Some(v) => Some(EncodedTerm::DecimalLiteral(v)),
                    None => None,
                },
                _ => None,
            },
            EncodedTerm::IntegerLiteral(x) => match function {
                UnaryFunction::IntegerCast => Some(a),
                UnaryFunction::DecimalCast => match decimal_from_integer(x) {
                    Some(d) => Some(EncodedTerm::DecimalLiteral(d)),
                    None => None,
                },
                UnaryFunction::FloatCast => match self.floats.integer_to_single(x) {
                    Some(v) => Some(EncodedTerm::FloatLiteral(v)),
                    None => None,
                },
                UnaryFunction::DoubleCast => match self.floats.integer_to_double(x) {
                    Some(v) => Some(EncodedTerm::DoubleLiteral(v)),
                    None => None,
                },
                _ => None,
            },
            EncodedTerm::DecimalLiteral(x) => match function {
                UnaryFunction::DecimalCast => Some(a),
                UnaryFunction::IntegerCast => if x.is_wf() {
                    Some(EncodedTerm::IntegerLiteral(decimal_to_integer(x)))
                } else {
                    None
                },
                UnaryFunction::FloatCast => match self.floats.decimal_to_single(x) {
                    Some(v) => Some(EncodedTerm::FloatLiteral(v)),
                    None => None,
                },
                UnaryFunction::DoubleCast => match self.floats.decimal_to_double(x) {
                    Some(v) => Some(EncodedTerm::DoubleLiteral(v)),
                    None => None,
                },
                _ => None,
            },
            _ => None,
        }
    }

    /// Applies a cast.
    pub fn apply_cast(&self, function: UnaryFunction, a: EncodedTerm) -> (r: Option<EncodedTerm>)
        ensures
            cast_answer(&self.dataset, &self.floats, function, a, r),
            cast_outcome(&self.dataset, function, a, r),
    {
        match a {
            EncodedTerm::BooleanLiteral(value) => match function {
                UnaryFunction::BooleanCast => Some(a),
                UnaryFunction::DoubleCast => Some(
                    EncodedTerm::DoubleLiteral(
                        if value {
                            DOUBLE_ONE
                        } else {
                            0
                        },
                    ),
                ),
                UnaryFunction::FloatCast => Some(
                    EncodedTerm::FloatLiteral(
                        if value {
                            SINGLE_ONE
                        } else {
                            0
                        },
                    ),
                ),
                UnaryFunction::IntegerCast => Some(
                    EncodedTerm::IntegerLiteral(
                        if value {
                            1
                        } else {
                            0
                        },
                    ),
                ),
                UnaryFunction::DecimalCast => Some(
                    EncodedTerm::DecimalLiteral(
                        DecimalValue {
                            mantissa: if value {
                                1
                            } else {
                                0
                            },
                            scale: 0,
                        },
                    ),
                ),
                _ => None,
            },
            EncodedTerm::SimpleLiteral { value_id } => self.cast_text(function, value_id),
            EncodedTerm::StringLiteral { value_id } => self.cast_text(function, value_id),
            EncodedTerm::FloatLiteral(_) => self.cast_number(function, a),
            EncodedTerm::DoubleLiteral(_) => self.cast_number(function, a),
            EncodedTerm::IntegerLiteral(_) => self.cast_number(function, a),
            EncodedTerm::DecimalLiteral(_) => self.cast_number(function, a),
            EncodedTerm::DateTime(_) => match function {
                UnaryFunction::DateTimeCast => Some(a),
                _ => None,
            },
            EncodedTerm::NaiveDateTime(_) => match function {
                UnaryFunction::DateTimeCast => Some(a),
                _ => None,
            },
            _ => None,
        }
    }

    /// The negation of a number.
    pub fn apply_unary_minus(&self, a: EncodedTerm) -> (r: Option<EncodedTerm>)
        ensures
            r == unary_minus_value(a),
    {
        match a {
            EncodedTerm::FloatLiteral(x) => Some(EncodedTerm::FloatLiteral(single_negated(x))),
            EncodedTerm::DoubleLiteral(x) => Some(EncodedTerm::DoubleLiteral(double_negated(x))),
            EncodedTerm::IntegerLiteral(x) => match integer_negated(x) {
                Some(v) => Some(EncodedTerm::IntegerLiteral(v)),
                None => None,
            },
            EncodedTerm::DecimalLiteral(x) => if x.is_wf() {
                Some(EncodedTerm::DecimalLiteral(decimal_negated(x)))
            } else {
                None
            },
            _ => None,
        }
    }

    /// Applies a function of one argument to the result of its argument.
    pub fn apply_unary(&self, function: UnaryFunction, a: Option<EncodedTerm>) -> (r: Option<
        EncodedTerm,
    >)
        ensures
            unary_applied(&self.dataset, &self.floats, function, a, r),
    {
        let a = match a {
            Some(a) => a,
            None => {
                return None;
            },
        };
        match function {
            UnaryFunction::UnaryPlus => if a.is_numeric() {
                Some(a)
            } else {
                None
            },
            UnaryFunction::UnaryMinus => self.apply_unary_minus(a),
            UnaryFunction::UnaryNot => match self.to_bool(a) {
                Some(b) => Some(EncodedTerm::BooleanLiteral(!b)),
                None => None,
            },
            UnaryFunction::Str => self.apply_str(false, a),
            UnaryFunction::StringCast => self.apply_str(true, a),
            UnaryFunction::Lang => match a {
                EncodedTerm::LangStringLiteral { language_id, .. } => Some(
                    EncodedTerm::SimpleLiteral { value_id: language_id },
                ),
                _ => if a.is_literal() {
                    Some(EncodedTerm::SimpleLiteral { value_id: EMPTY_STRING_ID })
                } else {
                    None
                },
            },
            UnaryFunction::Datatype => a.datatype(),
            UnaryFunction::IRI => match a {
                EncodedTerm::NamedNode { iri_id } => Some(EncodedTerm::NamedNode { iri_id }),
                EncodedTerm::SimpleLiteral { value_id } => Some(
                    EncodedTerm::NamedNode { iri_id: value_id },
                ),
                EncodedTerm::StringLiteral { value_id } => Some(
                    EncodedTerm::NamedNode { iri_id: value_id },
                ),
                _ => None,
            },
            UnaryFunction::IsIRI => Some(EncodedTerm::BooleanLiteral(a.is_named_node())),
            UnaryFunction::IsBlank => Some(EncodedTerm::BooleanLiteral(a.is_blank_node())),
            UnaryFunction::IsLiteral => Some(EncodedTerm::BooleanLiteral(a.is_literal())),
            UnaryFunction::IsNumeric => Some(EncodedTerm::BooleanLiteral(a.is_numeric())),
            UnaryFunction::BooleanCast => self.apply_cast(function, a),
            UnaryFunction::DoubleCast => self.apply_cast(function, a),
            UnaryFunction::FloatCast => self.apply_cast(function, a),
            UnaryFunction::IntegerCast => self.apply_cast(function, a),
            UnaryFunction::DecimalCast => self.apply_cast(function, a),
            UnaryFunction::DateTimeCast => self.apply_cast(function, a),
        }
    }

    /// Applies `Regex` to the results of its arguments; `flags` is none
    /// where the expression has no flags argument.
    pub fn apply_regex(
        &self,
        text: Option<EncodedTerm>,
        pattern: Option<EncodedTerm>,
        flags: Option<Option<EncodedTerm>>,
    ) -> (r: Option<EncodedTerm>)
        ensures
            regex_answer(&self.dataset, text, pattern, flags, r),
            regex_result(&self.dataset, text, pattern, flags, r),
    {
        let (pattern, text) = match (pattern, text) {
            (Some(pattern), Some(text)) => (pattern, text),
            _ => {
                return None;
            },
        };
        let pattern_text = self.to_simple_string(pattern);
        let flags_text = match flags {
            None => Some("".to_owned()),
            Some(None) => None,
            Some(Some(term)) => self.to_simple_string(term),
        };
        proof {
            reveal_strlit("");
            assert(flags is None ==> text_of(flags_text) == Some(Seq::<char>::empty())) by {
                if flags is None {
                    assert(flags_text->0@ =~= Seq::<char>::empty());
                }
            }
        }
        let text_text = self.to_string(text);
        proof {
            assert(simple_string_answer(&self.dataset, pattern, pattern_text));
            assert(flags_answer(&self.dataset, flags, flags_text));
            assert(string_answer(&self.dataset, text, text_text));
            assert(simple_string_outcome(&self.dataset, pattern, text_of(pattern_text)));
            assert(flags_outcome(&self.dataset, flags, text_of(flags_text)));
            assert(string_outcome(&self.dataset, text, text_of(text_text)));
        }
        match (pattern_text, flags_text, text_text) {
            (Some(p), Some(f), Some(t)) => regex_on_texts(p.as_str(), f.as_str(), t.as_str()),
            _ => None,
        }
    }

    /// `UUID`: a named node for a new random UUID.
    pub fn new_uuid_node(&self) -> (r: Option<EncodedTerm>)
        ensures
            uuid_answer(&self.dataset, r),
            uuid_outcome(&self.dataset, r),
    {
        let value = random_uuid();
        let text = uuid_to_urn(value);
        let id = self.intern(text.as_str());
        assert(interned(&self.dataset, uuid_urn_text(value), id));
        match id {
            Some(iri_id) => Some(EncodedTerm::NamedNode { iri_id }),
            None => None,
        }
    }

    /// `StrUUID`: a simple literal for a new random UUID.
    pub fn new_uuid_literal(&self) -> (r: Option<EncodedTerm>)
        ensures
            str_uuid_answer(&self.dataset, r),
            str_uuid_outcome(&self.dataset, r),
    {
        let value = random_uuid();
        let text = uuid_to_simple(value);
        let id = self.intern(text.as_str());
        assert(interned(&self.dataset, uuid_simple_text(value), id));
        match id {
            Some(value_id) => Some(EncodedTerm::SimpleLiteral { value_id }),
            None => None,
        }
    }
}

} // verus!

use num_traits::FromPrimitive;
use num_traits::ToPrimitive;
use rust_decimal::Decimal;
use sparql_eval::dataset::ArithmeticOperator;
use sparql_eval::dataset::DatasetView;
use sparql_eval::dataset::FloatArithmetic;
use sparql_eval::term::DecimalValue;
use sparql_eval::term::EncodedQuad;
use sparql_eval::term::EncodedTerm;
use sparql_eval::term::EvaluationError;
use sparql_eval::values::SimpleEvaluator;
use std::cell::RefCell;

/// A dataset in memory whose dictionary takes new texts while it is read.
/// A lookup of `failing_id` fails, and so does every pattern if
/// `failing_patterns` is set.
struct GrowingDataset {
    strings: RefCell<Vec<String>>,
    quads: Vec<EncodedQuad>,
    failing_id: Option<u64>,
    failing_patterns: bool,
}

impl GrowingDataset {
    fn new() -> Self {
        let strings = vec![
            "".to_string(),
            "http://www.w3.org/1999/02/22-rdf-syntax-ns#langString".to_string(),
            "http://www.w3.org/2001/XMLSchema#string".to_string(),
            "http://www.w3.org/2001/XMLSchema#boolean".to_string(),
            "http://www.w3.org/2001/XMLSchema#float".to_string(),
            "http://www.w3.org/2001/XMLSchema#double".to_string(),
            "http://www.w3.org/2001/XMLSchema#integer".to_string(),
            "http://www.w3.org/2001/XMLSchema#decimal".to_string(),
            "http://www.w3.org/2001/XMLSchema#dateTime".to_string(),
        ];
        GrowingDataset {
            strings: RefCell::new(strings),
            quads: Vec::new(),
            failing_id: None,
            failing_patterns: false,
        }
    }

    fn id(&self, text: &str) -> u64 {
        self.insert_str(text).unwrap()
    }

    fn text_of(&self, id: u64) -> String {
        self.get_str(id).unwrap()
    }

    fn add(&mut self, subject: EncodedTerm, predicate: EncodedTerm, object: EncodedTerm) {
        self.quads.push(EncodedQuad {
            subject,
            predicate,
            object,
            graph_name: EncodedTerm::DefaultGraph,
        });
    }
}

fn fits(pattern: Option<EncodedTerm>, term: EncodedTerm) -> bool {
    match pattern {
        Some(wanted) => wanted == term,
        None => true,
    }
}

impl DatasetView for GrowingDataset {
    fn text(&self, _: u64) -> Option<vstd::seq::Seq<char>> {
        unreachable!()
    }

    fn holds(&self, _: EncodedQuad) -> bool {
        unreachable!()
    }

    fn quads_for_pattern(
        &self,
        subject: Option<EncodedTerm>,
        predicate: Option<EncodedTerm>,
        object: Option<EncodedTerm>,
        graph_name: Option<EncodedTerm>,
    ) -> Vec<Result<EncodedQuad, EvaluationError>> {
        if self.failing_patterns {
            return vec![Err(EvaluationError::Store { code: 7 })];
        }
        let mut answer = Vec::new();
        for quad in &self.quads {
            if fits(subject, quad.subject)
                && fits(predicate, quad.predicate)
                && fits(object, quad.object)
                && fits(graph_name, quad.graph_name)
            {
                answer.push(Ok(*quad));
            }
        }
        answer
    }

    fn get_str(&self, id: u64) -> Result<String, EvaluationError> {
        if self.failing_id == Some(id) {
            return Err(EvaluationError::Store { code: 3 });
        }
        match self.strings.borrow().get(id as usize) {
            Some(text) => Ok(text.clone()),
            None => Err(EvaluationError::Store { code: 4 }),
        }
    }

    fn insert_str(&self, value: &str) -> Result<u64, EvaluationError> {
        let mut strings = self.strings.borrow_mut();
        for (id, text) in strings.iter().enumerate() {
            if text == value {
                return Ok(id as u64);
            }
        }
        strings.push(value.to_string());
        Ok((strings.len() - 1) as u64)
    }
}

/// IEEE-754 arithmetic by the machine's floating point.
struct MachineFloats;

fn decimal_of(value: DecimalValue) -> Option<Decimal> {
    Decimal::try_from_i128_with_scale(value.mantissa, value.scale).ok()
}

fn value_of(decimal: Decimal) -> DecimalValue {
    DecimalValue { mantissa: decimal.mantissa(), scale: decimal.scale() }
}

impl FloatArithmetic for MachineFloats {
    fn single_operation(&self, operator: ArithmeticOperator, left: u32, right: u32) -> u32 {
        let (a, b) = (f32::from_bits(left), f32::from_bits(right));
        let result = match operator {
            ArithmeticOperator::Add => a + b,
            ArithmeticOperator::Sub => a - b,
            ArithmeticOperator::Mul => a * b,
            ArithmeticOperator::Div => a / b,
        };
        result.to_bits()
    }

    fn double_operation(&self, operator: ArithmeticOperator, left: u64, right: u64) -> u64 {
        let (a, b) = (f64::from_bits(left), f64::from_bits(right));
        let result = match operator {
            ArithmeticOperator::Add => a + b,
            ArithmeticOperator::Sub => a - b,
            ArithmeticOperator::Mul => a * b,
            ArithmeticOperator::Div => a / b,
        };
        result.to_bits()
    }

    fn single_to_double(&self, value: u32) -> Option<u64> {
        f32::from_bits(value).to_f64().map(f64::to_bits)
    }

    fn double_to_single(&self, value: u64) -> Option<u32> {
        f64::from_bits(value).to_f32().map(f32::to_bits)
    }

    fn integer_to_single(&self, value: i128) -> Option<u32> {
        value.to_f32().map(f32::to_bits)
    }

    fn integer_to_double(&self, value: i128) -> Option<u64> {
        value.to_f64().map(f64::to_bits)
    }

    fn decimal_to_single(&self, value: DecimalValue) -> Option<u32> {
        decimal_of(value)?.to_f32().map(f32::to_bits)
    }

    fn decimal_to_double(&self, value: DecimalValue) -> Option<u64> {
        decimal_of(value)?.to_f64().map(f64::to_bits)
    }

    fn single_to_integer(&self, value: u32) -> Option<i128> {
        f32::from_bits(value).to_i128()
    }

    fn double_to_integer(&self, value: u64) -> Option<i128> {
        f64::from_bits(value).to_i128()
    }

    fn single_to_decimal(&self, value: u32) -> Option<DecimalValue> {
        Decimal::from_f32(f32::from_bits(value)).map(value_of)
    }

    fn double_to_decimal(&self, value: u64) -> Option<DecimalValue> {
        Decimal::from_f64(f64::from_bits(value)).map(value_of)
    }

    fn parse_single(&self, text: &str) -> Option<u32> {
        text.parse::<f32>().ok().map(f32::to_bits)
    }

    fn parse_double(&self, text: &str) -> Option<u64> {
        text.parse::<f64>().ok().map(f64::to_bits)
    }

    fn single_to_string(&self, value: u32) -> String {
        f32::from_bits(value).to_string()
    }

    fn double_to_string(&self, value: u64) -> String {
        f64::from_bits(value).to_string()
    }
}

fn evaluator(dataset: GrowingDataset) -> SimpleEvaluator<GrowingDataset, MachineFloats> {
    SimpleEvaluator::new(dataset, MachineFloats)
}

fn integer(value: i128) -> EncodedTerm {
    EncodedTerm::IntegerLiteral(value)
}

fn boolean(value: bool) -> EncodedTerm {
    EncodedTerm::BooleanLiteral(value)
}

fn decimal(mantissa: i128, scale: u32) -> EncodedTerm {
    EncodedTerm::DecimalLiteral(DecimalValue { mantissa, scale })
}

fn float(value: f32) -> EncodedTerm {
    EncodedTerm::FloatLiteral(value.to_bits())
}

fn double(value: f64) -> EncodedTerm {
    EncodedTerm::DoubleLiteral(value.to_bits())
}
use sparql_eval::functions::cast_of_text;
use sparql_eval::functions::lang_matches_texts;
use sparql_eval::functions::regex_on_texts;
use sparql_eval::functions::UnaryFunction;
use sparql_eval::numeric::Comparison;
use sparql_eval::plan::PlanExpression;
use sparql_eval::values::numeric_family;
use sparql_eval::values::order_of_operands;
use sparql_eval::values::pair_operands;
use sparql_eval::values::NumericBinaryOperands;
use sparql_eval::values::NumericFamily;
use sparql_eval::term::DateTimeValue;
use sparql_eval::term::NaiveDateTimeValue;
use sparql_eval::term::EMPTY_STRING_ID;
use sparql_eval::term::XSD_INTEGER_ID;
use sparql_eval::term::XSD_STRING_ID;

type Evaluator = SimpleEvaluator<GrowingDataset, MachineFloats>;

fn simple(evaluator: &Evaluator, text: &str) -> EncodedTerm {
    EncodedTerm::SimpleLiteral { value_id: evaluator.dataset.id(text) }
}

fn string(evaluator: &Evaluator, text: &str) -> EncodedTerm {
    EncodedTerm::StringLiteral { value_id: evaluator.dataset.id(text) }
}

fn named(evaluator: &Evaluator, iri: &str) -> EncodedTerm {
    EncodedTerm::NamedNode { iri_id: evaluator.dataset.id(iri) }
}

fn constant(term: EncodedTerm) -> Box<PlanExpression> {
    Box::new(PlanExpression::Constant(term))
}

fn variable(slot: usize) -> Box<PlanExpression> {
    Box::new(PlanExpression::Variable(slot))
}

fn eval(evaluator: &Evaluator, expression: PlanExpression) -> Option<EncodedTerm> {
    evaluator.eval_expression(&expression, &vec![])
}

fn text_of_literal(evaluator: &Evaluator, term: Option<EncodedTerm>) -> String {
    match term {
        Some(EncodedTerm::SimpleLiteral { value_id }) => evaluator.dataset.text_of(value_id),
        Some(EncodedTerm::StringLiteral { value_id }) => evaluator.dataset.text_of(value_id),
        other => panic!("not a literal with a text: {:?}", other),
    }
}

#[test]
fn constant_and_variable() {
    let evaluator = evaluator(GrowingDataset::new());
    let tuple = vec![None, Some(integer(7))];
    assert_eq!(evaluator.eval_expression(&PlanExpression::Constant(integer(1)), &tuple), Some(integer(1)));
    assert_eq!(evaluator.eval_expression(&PlanExpression::Variable(1), &tuple), Some(integer(7)));
    assert_eq!(evaluator.eval_expression(&PlanExpression::Variable(0), &tuple), None);
    assert_eq!(evaluator.eval_expression(&PlanExpression::Variable(9), &tuple), None);
    assert_eq!(evaluator.eval_expression(&PlanExpression::Bound(1), &tuple), Some(boolean(true)));
    assert_eq!(evaluator.eval_expression(&PlanExpression::Bound(0), &tuple), Some(boolean(false)));
    assert_eq!(evaluator.eval_expression(&PlanExpression::Bound(9), &tuple), Some(boolean(false)));
}

#[test]
fn or_is_true_if_the_left_side_is_true() {
    let evaluator = evaluator(GrowingDataset::new());
    for right in vec![boolean(true), boolean(false), integer(0), EncodedTerm::BlankNode(1)] {
        assert_eq!(
            eval(&evaluator, PlanExpression::Or(constant(boolean(true)), constant(right))),
            Some(boolean(true))
        );
    }
    assert_eq!(
        eval(&evaluator, PlanExpression::Or(constant(boolean(true)), variable(0))),
        Some(boolean(true))
    );
}

#[test]
fn or_in_three_valued_logic() {
    let evaluator = evaluator(GrowingDataset::new());
    let error = EncodedTerm::BlankNode(1);
    assert_eq!(
        eval(&evaluator, PlanExpression::Or(constant(boolean(false)), constant(boolean(false)))),
        Some(boolean(false))
    );
    assert_eq!(
        eval(&evaluator, PlanExpression::Or(constant(boolean(false)), constant(integer(5)))),
        Some(integer(5))
    );
    assert_eq!(eval(&evaluator, PlanExpression::Or(constant(boolean(false)), variable(0))), None);
    assert_eq!(
        eval(&evaluator, PlanExpression::Or(constant(error), constant(boolean(true)))),
        Some(boolean(true))
    );
    assert_eq!(
        eval(&evaluator, PlanExpression::Or(variable(0), constant(boolean(true)))),
        Some(boolean(true))
    );
    assert_eq!(eval(&evaluator, PlanExpression::Or(constant(error), constant(boolean(false)))), None);
    assert_eq!(eval(&evaluator, PlanExpression::Or(variable(0), variable(1))), None);
}

#[test]
fn and_is_false_if_the_left_side_is_false() {
    let evaluator = evaluator(GrowingDataset::new());
    for right in vec![boolean(true), boolean(false), integer(3), EncodedTerm::BlankNode(1)] {
        assert_eq!(
            eval(&evaluator, PlanExpression::And(constant(boolean(false)), constant(right))),
            Some(boolean(false))
        );
    }
    assert_eq!(
        eval(&evaluator, PlanExpression::And(constant(boolean(false)), variable(0))),
        Some(boolean(false))
    );
}

#[test]
fn and_in_three_valued_logic() {
    let evaluator = evaluator(GrowingDataset::new());
    let error = EncodedTerm::BlankNode(1);
    assert_eq!(
        eval(&evaluator, PlanExpression::And(constant(boolean(true)), constant(boolean(true)))),
        Some(boolean(true))
    );
    assert_eq!(eval(&evaluator, PlanExpression::And(constant(boolean(true)), variable(0))), None);
    assert_eq!(
        eval(&evaluator, PlanExpression::And(constant(error), constant(boolean(false)))),
        Some(boolean(false))
    );
    assert_eq!(
        eval(&evaluator, PlanExpression::And(variable(0), constant(boolean(false)))),
        Some(boolean(false))
    );
    assert_eq!(eval(&evaluator, PlanExpression::And(constant(error), constant(boolean(true)))), None);
}

#[test]
fn unary_not() {
    let evaluator = evaluator(GrowingDataset::new());
    assert_eq!(eval(&evaluator, PlanExpression::UnaryNot(constant(boolean(true)))), Some(boolean(false)));
    assert_eq!(eval(&evaluator, PlanExpression::UnaryNot(constant(integer(0)))), Some(boolean(true)));
    assert_eq!(eval(&evaluator, PlanExpression::UnaryNot(constant(EncodedTerm::BlankNode(1)))), None);
    assert_eq!(eval(&evaluator, PlanExpression::UnaryNot(variable(0))), None);
}

#[test]
fn effective_boolean_value() {
    let evaluator = evaluator(GrowingDataset::new());
    assert_eq!(evaluator.to_bool(boolean(true)), Some(true));
    assert_eq!(evaluator.to_bool(boolean(false)), Some(false));
    assert_eq!(evaluator.to_bool(EncodedTerm::SimpleLiteral { value_id: EMPTY_STRING_ID }), Some(false));
    assert_eq!(evaluator.to_bool(simple(&evaluator, "a")), Some(true));
    assert_eq!(evaluator.to_bool(EncodedTerm::StringLiteral { value_id: EMPTY_STRING_ID }), Some(false));
    assert_eq!(evaluator.to_bool(string(&evaluator, "a")), Some(true));
    assert_eq!(evaluator.to_bool(integer(0)), Some(false));
    assert_eq!(evaluator.to_bool(integer(-4)), Some(true));
    assert_eq!(evaluator.to_bool(decimal(0, 3)), Some(false));
    assert_eq!(evaluator.to_bool(decimal(1, 3)), Some(true));
    assert_eq!(evaluator.to_bool(float(0.0)), Some(false));
    assert_eq!(evaluator.to_bool(float(-0.0)), Some(false));
    assert_eq!(evaluator.to_bool(float(0.5)), Some(true));
    assert_eq!(evaluator.to_bool(double(0.0)), Some(false));
    assert_eq!(evaluator.to_bool(double(-0.0)), Some(false));
    assert_eq!(evaluator.to_bool(double(-2.0)), Some(true));
    assert_eq!(evaluator.to_bool(EncodedTerm::BlankNode(1)), None);
    assert_eq!(evaluator.to_bool(named(&evaluator, "http://example.com/a")), None);
    assert_eq!(evaluator.to_bool(EncodedTerm::DefaultGraph), None);
}

#[test]
fn equality_of_terms() {
    let evaluator = evaluator(GrowingDataset::new());
    let a = simple(&evaluator, "a");
    let a_string = string(&evaluator, "a");
    let b = simple(&evaluator, "b");
    assert_eq!(eval(&evaluator, PlanExpression::Equal(constant(a), constant(a))), Some(boolean(true)));
    assert_eq!(eval(&evaluator, PlanExpression::Equal(constant(a), constant(a_string))), Some(boolean(true)));
    assert_eq!(eval(&evaluator, PlanExpression::Equal(constant(a), constant(b))), Some(boolean(false)));
    assert_eq!(eval(&evaluator, PlanExpression::Equal(constant(integer(1)), constant(decimal(10, 1)))), Some(boolean(true)));
    assert_eq!(eval(&evaluator, PlanExpression::Equal(constant(integer(1)), constant(double(1.0)))), Some(boolean(true)));
    assert_eq!(eval(&evaluator, PlanExpression::Equal(constant(a), constant(integer(1)))), None);
    assert_eq!(
        eval(&evaluator, PlanExpression::Equal(constant(EncodedTerm::BlankNode(1)), constant(EncodedTerm::BlankNode(2)))),
        None
    );
    assert_eq!(
        eval(&evaluator, PlanExpression::Equal(constant(EncodedTerm::BlankNode(1)), constant(EncodedTerm::BlankNode(1)))),
        Some(boolean(true))
    );
    assert_eq!(eval(&evaluator, PlanExpression::Equal(constant(a), variable(0))), None);
    assert_eq!(eval(&evaluator, PlanExpression::NotEqual(constant(a), constant(b))), Some(boolean(true)));
    assert_eq!(eval(&evaluator, PlanExpression::NotEqual(constant(a), constant(a))), Some(boolean(false)));
    assert_eq!(eval(&evaluator, PlanExpression::NotEqual(constant(a), constant(integer(1)))), None);
    assert!(evaluator.equals(integer(2), decimal(200, 2)));
    assert!(!evaluator.equals(integer(2), a));
    assert!(evaluator.not_equals(integer(2), a));
    assert!(!evaluator.not_equals(a, a_string));
}

#[test]
fn same_term_compares_terms_not_values() {
    let evaluator = evaluator(GrowingDataset::new());
    let a = simple(&evaluator, "a");
    let a_string = string(&evaluator, "a");
    assert_eq!(eval(&evaluator, PlanExpression::SameTerm(constant(a), constant(a))), Some(boolean(true)));
    assert_eq!(eval(&evaluator, PlanExpression::SameTerm(constant(a), constant(a_string))), Some(boolean(false)));
    assert_eq!(
        eval(&evaluator, PlanExpression::SameTerm(constant(integer(1)), constant(decimal(1, 0)))),
        Some(boolean(false))
    );
    assert_eq!(eval(&evaluator, PlanExpression::SameTerm(constant(a), variable(0))), None);
}

#[test]
fn comparisons() {
    let evaluator = evaluator(GrowingDataset::new());
    let a = simple(&evaluator, "a");
    let b = string(&evaluator, "b");
    assert_eq!(eval(&evaluator, PlanExpression::Greater(constant(integer(3)), constant(integer(2)))), Some(boolean(true)));
    assert_eq!(eval(&evaluator, PlanExpression::Greater(constant(integer(2)), constant(integer(2)))), Some(boolean(false)));
    assert_eq!(eval(&evaluator, PlanExpression::GreaterOrEq(constant(integer(2)), constant(integer(2)))), Some(boolean(true)));
    assert_eq!(eval(&evaluator, PlanExpression::GreaterOrEq(constant(integer(1)), constant(integer(2)))), Some(boolean(false)));
    assert_eq!(eval(&evaluator, PlanExpression::Lower(constant(a), constant(b))), Some(boolean(true)));
    assert_eq!(eval(&evaluator, PlanExpression::Lower(constant(b), constant(a))), Some(boolean(false)));
    assert_eq!(eval(&evaluator, PlanExpression::LowerOrEq(constant(a), constant(a))), Some(boolean(true)));
    assert_eq!(eval(&evaluator, PlanExpression::LowerOrEq(constant(b), constant(a))), Some(boolean(false)));
    assert_eq!(eval(&evaluator, PlanExpression::Greater(constant(decimal(25, 1)), constant(integer(2)))), Some(boolean(true)));
    assert_eq!(eval(&evaluator, PlanExpression::Lower(constant(integer(2)), constant(decimal(25, 1)))), Some(boolean(true)));
    assert_eq!(eval(&evaluator, PlanExpression::Greater(constant(decimal(150, 2)), constant(decimal(7, 1)))), Some(boolean(true)));
    assert_eq!(eval(&evaluator, PlanExpression::Lower(constant(float(1.5)), constant(float(2.5)))), Some(boolean(true)));
    assert_eq!(eval(&evaluator, PlanExpression::Lower(constant(float(-1.5)), constant(float(-2.5)))), Some(boolean(false)));
    assert_eq!(eval(&evaluator, PlanExpression::Lower(constant(double(-1.0)), constant(double(0.0)))), Some(boolean(true)));
    assert_eq!(eval(&evaluator, PlanExpression::LowerOrEq(constant(double(-0.0)), constant(double(0.0)))), Some(boolean(true)));
    assert_eq!(eval(&evaluator, PlanExpression::GreaterOrEq(constant(double(-0.0)), constant(double(0.0)))), Some(boolean(true)));
    assert_eq!(eval(&evaluator, PlanExpression::Lower(constant(float(f32::NAN)), constant(float(1.0)))), None);
    assert_eq!(eval(&evaluator, PlanExpression::Greater(constant(double(2.5)), constant(integer(2)))), Some(boolean(true)));
    assert_eq!(eval(&evaluator, PlanExpression::Greater(constant(integer(3)), constant(float(2.5)))), Some(boolean(true)));
    assert_eq!(eval(&evaluator, PlanExpression::Greater(constant(float(2.5)), constant(double(2.0)))), Some(boolean(true)));
    assert_eq!(eval(&evaluator, PlanExpression::Greater(constant(a), constant(integer(2)))), None);
    assert_eq!(eval(&evaluator, PlanExpression::Greater(constant(boolean(true)), constant(boolean(false)))), None);
    assert_eq!(eval(&evaluator, PlanExpression::Greater(variable(0), constant(integer(2)))), None);
}

#[test]
fn comparison_of_texts_is_by_bytes() {
    let evaluator = evaluator(GrowingDataset::new());
    let upper = simple(&evaluator, "Z");
    let lower = simple(&evaluator, "a");
    let accented = simple(&evaluator, "\u{e9}");
    let prefix = simple(&evaluator, "ab");
    let longer = simple(&evaluator, "abc");
    assert_eq!(eval(&evaluator, PlanExpression::Lower(constant(upper), constant(lower))), Some(boolean(true)));
    assert_eq!(eval(&evaluator, PlanExpression::Lower(constant(lower), constant(accented))), Some(boolean(true)));
    assert_eq!(eval(&evaluator, PlanExpression::Lower(constant(prefix), constant(longer))), Some(boolean(true)));
    assert_eq!(eval(&evaluator, PlanExpression::Greater(constant(longer), constant(prefix))), Some(boolean(true)));
}

#[test]
fn a_failed_lookup_makes_a_comparison_an_error() {
    let mut dataset = GrowingDataset::new();
    let a = dataset.id("a");
    let b = dataset.id("b");
    dataset.failing_id = Some(b);
    let evaluator = evaluator(dataset);
    assert_eq!(evaluator.compare_str_ids(a, b), None);
    assert_eq!(
        eval(
            &evaluator,
            PlanExpression::Lower(
                constant(EncodedTerm::SimpleLiteral { value_id: a }),
                constant(EncodedTerm::SimpleLiteral { value_id: b })
            )
        ),
        None
    );
}

#[test]
fn in_list() {
    let evaluator = evaluator(GrowingDataset::new());
    let list = || vec![PlanExpression::Constant(integer(1)), PlanExpression::Constant(integer(2))];
    assert_eq!(eval(&evaluator, PlanExpression::In(constant(integer(2)), list())), Some(boolean(true)));
    assert_eq!(eval(&evaluator, PlanExpression::In(constant(decimal(20, 1)), list())), Some(boolean(true)));
    assert_eq!(eval(&evaluator, PlanExpression::In(constant(integer(3)), list())), Some(boolean(false)));
    assert_eq!(eval(&evaluator, PlanExpression::In(constant(integer(3)), vec![])), Some(boolean(false)));
    assert_eq!(eval(&evaluator, PlanExpression::In(variable(0), list())), None);
    let with_error = || vec![PlanExpression::Variable(0), PlanExpression::Constant(integer(2))];
    assert_eq!(eval(&evaluator, PlanExpression::In(constant(integer(2)), with_error())), Some(boolean(true)));
    assert_eq!(eval(&evaluator, PlanExpression::In(constant(integer(3)), with_error())), None);
}

#[test]
fn integer_arithmetic() {
    let evaluator = evaluator(GrowingDataset::new());
    assert_eq!(eval(&evaluator, PlanExpression::Add(constant(integer(2)), constant(integer(3)))), Some(integer(5)));
    assert_eq!(eval(&evaluator, PlanExpression::Sub(constant(integer(2)), constant(integer(3)))), Some(integer(-1)));
    assert_eq!(eval(&evaluator, PlanExpression::Mul(constant(integer(-2)), constant(integer(3)))), Some(integer(-6)));
    assert_eq!(eval(&evaluator, PlanExpression::Div(constant(integer(7)), constant(integer(2)))), Some(integer(3)));
    assert_eq!(eval(&evaluator, PlanExpression::Div(constant(integer(-7)), constant(integer(2)))), Some(integer(-3)));
    assert_eq!(eval(&evaluator, PlanExpression::Div(constant(integer(7)), constant(integer(-2)))), Some(integer(-3)));
    assert_eq!(eval(&evaluator, PlanExpression::Div(constant(integer(-7)), constant(integer(-2)))), Some(integer(3)));
    assert_eq!(eval(&evaluator, PlanExpression::Div(constant(integer(7)), constant(integer(0)))), None);
    assert_eq!(eval(&evaluator, PlanExpression::Add(constant(integer(i128::MAX)), constant(integer(1)))), None);
    assert_eq!(eval(&evaluator, PlanExpression::Sub(constant(integer(i128::MIN)), constant(integer(1)))), None);
    assert_eq!(eval(&evaluator, PlanExpression::Mul(constant(integer(i128::MAX)), constant(integer(2)))), None);
    assert_eq!(eval(&evaluator, PlanExpression::Div(constant(integer(i128::MIN)), constant(integer(-1)))), None);
    assert_eq!(eval(&evaluator, PlanExpression::Add(constant(integer(2)), variable(0))), None);
    assert_eq!(eval(&evaluator, PlanExpression::Add(constant(integer(2)), constant(boolean(true)))), None);
}

#[test]
fn decimal_arithmetic() {
    let evaluator = evaluator(GrowingDataset::new());
    assert_eq!(
        eval(&evaluator, PlanExpression::Add(constant(decimal(15, 1)), constant(decimal(25, 1)))),
        Some(decimal(40, 1))
    );
    assert_eq!(
        eval(&evaluator, PlanExpression::Sub(constant(decimal(15, 1)), constant(decimal(25, 2)))),
        Some(decimal(125, 2))
    );
    assert_eq!(
        eval(&evaluator, PlanExpression::Mul(constant(decimal(15, 1)), constant(decimal(2, 0)))),
        Some(decimal(30, 1))
    );
    assert_eq!(
        eval(
            &evaluator,
            PlanExpression::Equal(
                Box::new(PlanExpression::Div(constant(decimal(3, 0)), constant(decimal(2, 0)))),
                constant(decimal(15, 1))
            )
        ),
        Some(boolean(true))
    );
    assert_eq!(
        eval(
            &evaluator,
            PlanExpression::Equal(
                Box::new(PlanExpression::Div(constant(decimal(10, 1)), constant(decimal(4, 0)))),
                constant(decimal(25, 2))
            )
        ),
        Some(boolean(true))
    );
    assert_eq!(eval(&evaluator, PlanExpression::Div(constant(decimal(3, 0)), constant(decimal(0, 0)))), None);
    assert_eq!(
        eval(&evaluator, PlanExpression::Add(constant(decimal(1, 0)), constant(decimal(1, 40)))),
        None
    );
}

#[test]
fn numeric_promotion() {
    let evaluator = evaluator(GrowingDataset::new());
    let add = |a: EncodedTerm, b: EncodedTerm| eval(&evaluator, PlanExpression::Add(constant(a), constant(b)));
    assert_eq!(add(float(1.5), float(2.0)), Some(float(3.5)));
    assert_eq!(add(float(1.5), double(2.0)), Some(double(3.5)));
    assert_eq!(add(float(1.5), integer(2)), Some(float(3.5)));
    assert_eq!(add(float(1.5), decimal(20, 1)), Some(float(3.5)));
    assert_eq!(add(double(1.5), float(2.0)), Some(double(3.5)));
    assert_eq!(add(double(1.5), double(2.0)), Some(double(3.5)));
    assert_eq!(add(double(1.5), integer(2)), Some(double(3.5)));
    assert_eq!(add(double(1.5), decimal(20, 1)), Some(double(3.5)));
    assert_eq!(add(integer(1), float(2.5)), Some(float(3.5)));
    assert_eq!(add(integer(1), double(2.5)), Some(double(3.5)));
    assert_eq!(add(integer(1), integer(2)), Some(integer(3)));
    assert_eq!(add(integer(1), decimal(25, 1)), Some(decimal(35, 1)));
    assert_eq!(add(decimal(15, 1), float(2.0)), Some(float(3.5)));
    assert_eq!(add(decimal(15, 1), double(2.0)), Some(double(3.5)));
    assert_eq!(add(decimal(15, 1), integer(2)), Some(decimal(35, 1)));
    assert_eq!(add(decimal(15, 1), decimal(20, 1)), Some(decimal(35, 1)));
    assert_eq!(add(simple(&evaluator, "1"), integer(2)), None);
}

#[test]
fn floating_point_division_by_zero_is_no_error() {
    let evaluator = evaluator(GrowingDataset::new());
    assert_eq!(
        eval(&evaluator, PlanExpression::Div(constant(float(1.0)), constant(float(0.0)))),
        Some(float(f32::INFINITY))
    );
    assert_eq!(
        eval(&evaluator, PlanExpression::Div(constant(double(-1.0)), constant(double(0.0)))),
        Some(double(f64::NEG_INFINITY))
    );
    match eval(&evaluator, PlanExpression::Div(constant(double(0.0)), constant(double(0.0)))) {
        Some(EncodedTerm::DoubleLiteral(bits)) => assert!(f64::from_bits(bits).is_nan()),
        other => panic!("not a double: {:?}", other),
    }
}

#[test]
fn unary_plus_and_minus() {
    let evaluator = evaluator(GrowingDataset::new());
    assert_eq!(eval(&evaluator, PlanExpression::UnaryPlus(constant(integer(3)))), Some(integer(3)));
    assert_eq!(eval(&evaluator, PlanExpression::UnaryPlus(constant(float(1.5)))), Some(float(1.5)));
    assert_eq!(eval(&evaluator, PlanExpression::UnaryPlus(constant(boolean(true)))), None);
    assert_eq!(eval(&evaluator, PlanExpression::UnaryMinus(constant(integer(3)))), Some(integer(-3)));
    assert_eq!(eval(&evaluator, PlanExpression::UnaryMinus(constant(integer(i128::MIN)))), None);
    assert_eq!(eval(&evaluator, PlanExpression::UnaryMinus(constant(decimal(15, 1)))), Some(decimal(-15, 1)));
    assert_eq!(eval(&evaluator, PlanExpression::UnaryMinus(constant(float(1.5)))), Some(float(-1.5)));
    assert_eq!(eval(&evaluator, PlanExpression::UnaryMinus(constant(double(-2.0)))), Some(double(2.0)));
    assert_eq!(eval(&evaluator, PlanExpression::UnaryMinus(constant(double(0.0)))), Some(double(-0.0)));
    assert_eq!(eval(&evaluator, PlanExpression::UnaryMinus(constant(simple(&evaluator, "1")))), None);
}

#[test]
fn str_gives_the_text_of_a_term() {
    let evaluator = evaluator(GrowingDataset::new());
    let iri = named(&evaluator, "http://example.com/a");
    assert_eq!(text_of_literal(&evaluator, eval(&evaluator, PlanExpression::Str(constant(iri)))), "http://example.com/a");
    assert_eq!(text_of_literal(&evaluator, eval(&evaluator, PlanExpression::Str(constant(boolean(true))))), "true");
    assert_eq!(text_of_literal(&evaluator, eval(&evaluator, PlanExpression::Str(constant(boolean(false))))), "false");
    assert_eq!(text_of_literal(&evaluator, eval(&evaluator, PlanExpression::Str(constant(integer(-42))))), "-42");
    assert_eq!(text_of_literal(&evaluator, eval(&evaluator, PlanExpression::Str(constant(decimal(-125, 2))))), "-1.25");
    assert_eq!(text_of_literal(&evaluator, eval(&evaluator, PlanExpression::Str(constant(float(1.5))))), "1.5");
    assert_eq!(text_of_literal(&evaluator, eval(&evaluator, PlanExpression::Str(constant(double(-2.25))))), "-2.25");
    let date = EncodedTerm::DateTime(DateTimeValue { seconds: 86400, nanos: 0, offset: 3600 });
    assert_eq!(
        text_of_literal(&evaluator, eval(&evaluator, PlanExpression::Str(constant(date)))),
        "1970-01-02 01:00:00 +01:00"
    );
    let naive = EncodedTerm::NaiveDateTime(NaiveDateTimeValue { seconds: 86400, nanos: 0 });
    assert_eq!(
        text_of_literal(&evaluator, eval(&evaluator, PlanExpression::Str(constant(naive)))),
        "1970-01-02 00:00:00"
    );
    let lang = EncodedTerm::LangStringLiteral {
        value_id: evaluator.dataset.id("chat"),
        language_id: evaluator.dataset.id("fr"),
    };
    assert_eq!(
        eval(&evaluator, PlanExpression::Str(constant(lang))),
        Some(simple(&evaluator, "chat"))
    );
    assert_eq!(eval(&evaluator, PlanExpression::Str(constant(EncodedTerm::BlankNode(1)))), None);
    assert_eq!(eval(&evaluator, PlanExpression::Str(constant(EncodedTerm::DefaultGraph))), None);
    assert_eq!(eval(&evaluator, PlanExpression::Str(variable(0))), None);
    let impossible = EncodedTerm::DateTime(DateTimeValue { seconds: i64::MAX, nanos: 0, offset: 0 });
    assert_eq!(eval(&evaluator, PlanExpression::Str(constant(impossible))), None);
}

#[test]
fn str_of_iri_of_a_simple_literal_is_the_literal() {
    let evaluator = evaluator(GrowingDataset::new());
    let literal = simple(&evaluator, "http://example.com/a");
    assert_eq!(
        eval(&evaluator, PlanExpression::Str(Box::new(PlanExpression::IRI(constant(literal))))),
        Some(literal)
    );
}

#[test]
fn numeric_cast_of_string_cast_gives_the_number_back() {
    let evaluator = evaluator(GrowingDataset::new());
    let through_string = |term: EncodedTerm| Box::new(PlanExpression::StringCast(constant(term)));
    for value in vec![0, 1, -1, 42, i128::MAX, i128::MIN] {
        assert_eq!(
            eval(&evaluator, PlanExpression::IntegerCast(through_string(integer(value)))),
            Some(integer(value))
        );
    }
    assert_eq!(
        eval(&evaluator, PlanExpression::DecimalCast(through_string(decimal(-125, 2)))),
        Some(decimal(-125, 2))
    );
    assert_eq!(
        eval(&evaluator, PlanExpression::FloatCast(through_string(float(1.5)))),
        Some(float(1.5))
    );
    assert_eq!(
        eval(&evaluator, PlanExpression::DoubleCast(through_string(double(-0.1)))),
        Some(double(-0.1))
    );
}

#[test]
fn lang_datatype_and_iri() {
    let evaluator = evaluator(GrowingDataset::new());
    let lang = EncodedTerm::LangStringLiteral {
        value_id: evaluator.dataset.id("chat"),
        language_id: evaluator.dataset.id("fr"),
    };
    let iri = named(&evaluator, "http://example.com/a");
    assert_eq!(eval(&evaluator, PlanExpression::Lang(constant(lang))), Some(simple(&evaluator, "fr")));
    assert_eq!(
        eval(&evaluator, PlanExpression::Lang(constant(integer(1)))),
        Some(EncodedTerm::SimpleLiteral { value_id: EMPTY_STRING_ID })
    );
    assert_eq!(eval(&evaluator, PlanExpression::Lang(constant(iri))), None);
    assert_eq!(
        eval(&evaluator, PlanExpression::Datatype(constant(integer(1)))),
        Some(EncodedTerm::NamedNode { iri_id: XSD_INTEGER_ID })
    );
    assert_eq!(
        eval(&evaluator, PlanExpression::Datatype(constant(simple(&evaluator, "a")))),
        Some(EncodedTerm::NamedNode { iri_id: XSD_STRING_ID })
    );
    let typed = EncodedTerm::TypedLiteral { value_id: 20, datatype_id: 21 };
    assert_eq!(
        eval(&evaluator, PlanExpression::Datatype(constant(typed))),
        Some(EncodedTerm::NamedNode { iri_id: 21 })
    );
    assert_eq!(eval(&evaluator, PlanExpression::Datatype(constant(iri))), None);
    assert_eq!(eval(&evaluator, PlanExpression::IRI(constant(iri))), Some(iri));
    assert_eq!(
        eval(&evaluator, PlanExpression::IRI(constant(string(&evaluator, "http://example.com/a")))),
        Some(iri)
    );
    assert_eq!(eval(&evaluator, PlanExpression::IRI(constant(integer(1)))), None);
}

#[test]
fn term_tests() {
    let evaluator = evaluator(GrowingDataset::new());
    let iri = named(&evaluator, "http://example.com/a");
    let blank = EncodedTerm::BlankNode(5);
    assert_eq!(eval(&evaluator, PlanExpression::IsIRI(constant(iri))), Some(boolean(true)));
    assert_eq!(eval(&evaluator, PlanExpression::IsIRI(constant(blank))), Some(boolean(false)));
    assert_eq!(eval(&evaluator, PlanExpression::IsBlank(constant(blank))), Some(boolean(true)));
    assert_eq!(eval(&evaluator, PlanExpression::IsBlank(constant(integer(1)))), Some(boolean(false)));
    assert_eq!(eval(&evaluator, PlanExpression::IsLiteral(constant(integer(1)))), Some(boolean(true)));
    assert_eq!(eval(&evaluator, PlanExpression::IsLiteral(constant(iri))), Some(boolean(false)));
    assert_eq!(eval(&evaluator, PlanExpression::IsNumeric(constant(decimal(1, 0)))), Some(boolean(true)));
    assert_eq!(eval(&evaluator, PlanExpression::IsNumeric(constant(float(1.0)))), Some(boolean(true)));
    assert_eq!(eval(&evaluator, PlanExpression::IsNumeric(constant(boolean(true)))), Some(boolean(false)));
    assert_eq!(eval(&evaluator, PlanExpression::IsNumeric(variable(0))), None);
}

#[test]
fn str_lang_makes_a_language_tagged_literal() {
    let evaluator = evaluator(GrowingDataset::new());
    let value = simple(&evaluator, "chat");
    let tag = simple(&evaluator, "fr");
    assert_eq!(
        eval(&evaluator, PlanExpression::StrLang(constant(value), constant(tag))),
        Some(EncodedTerm::LangStringLiteral {
            value_id: evaluator.dataset.id("chat"),
            language_id: evaluator.dataset.id("fr"),
        })
    );
    assert_eq!(
        eval(&evaluator, PlanExpression::StrLang(constant(string(&evaluator, "chat")), constant(tag))),
        None
    );
    assert_eq!(eval(&evaluator, PlanExpression::StrLang(constant(value), constant(integer(1)))), None);
}

#[test]
fn lang_matches() {
    let evaluator = evaluator(GrowingDataset::new());
    let matches = |tag: &str, range: &str| {
        eval(
            &evaluator,
            PlanExpression::LangMatches(constant(simple(&evaluator, tag)), constant(simple(&evaluator, range))),
        )
    };
    assert_eq!(matches("en", "*"), Some(boolean(true)));
    assert_eq!(matches("", "*"), Some(boolean(false)));
    assert_eq!(matches("en-GB", "en"), Some(boolean(true)));
    assert_eq!(matches("en", "en-GB"), Some(boolean(false)));
    assert_eq!(matches("fr", "en"), Some(boolean(false)));
    assert_eq!(matches("EN-gb", "en"), Some(boolean(true)));
    assert_eq!(matches("en", "not a tag"), None);
    assert_eq!(matches("not a tag", "en"), None);
    assert_eq!(matches("en", "en-x-private"), None);
    assert_eq!(
        eval(&evaluator, PlanExpression::LangMatches(constant(integer(1)), constant(simple(&evaluator, "*")))),
        None
    );
}

#[test]
fn regex_flags() {
    let evaluator = evaluator(GrowingDataset::new());
    let text = simple(&evaluator, "FOO");
    let pattern = simple(&evaluator, "foo");
    let flag = simple(&evaluator, "i");
    assert_eq!(
        eval(&evaluator, PlanExpression::Regex(constant(text), constant(pattern), Some(constant(flag)))),
        Some(boolean(true))
    );
    assert_eq!(
        eval(&evaluator, PlanExpression::Regex(constant(text), constant(pattern), None)),
        Some(boolean(false))
    );
}

#[test]
fn regex() {
    let evaluator = evaluator(GrowingDataset::new());
    let regex = |text: EncodedTerm, pattern: &str, flags: Option<&str>| {
        eval(
            &evaluator,
            PlanExpression::Regex(
                constant(text),
                constant(simple(&evaluator, pattern)),
                flags.map(|flags| constant(simple(&evaluator, flags))),
            ),
        )
    };
    assert_eq!(regex(simple(&evaluator, "abc"), "b", None), Some(boolean(true)));
    assert_eq!(regex(string(&evaluator, "abc"), "^b", None), Some(boolean(false)));
    assert_eq!(regex(simple(&evaluator, "a\nb"), "a.b", None), Some(boolean(false)));
    assert_eq!(regex(simple(&evaluator, "a\nb"), "a.b", Some("s")), Some(boolean(true)));
    assert_eq!(regex(simple(&evaluator, "a\nb"), "^b", None), Some(boolean(false)));
    assert_eq!(regex(simple(&evaluator, "a\nb"), "^b", Some("m")), Some(boolean(true)));
    assert_eq!(regex(simple(&evaluator, "ab"), "a b", None), Some(boolean(false)));
    assert_eq!(regex(simple(&evaluator, "ab"), "a b", Some("x")), Some(boolean(true)));
    assert_eq!(regex(simple(&evaluator, "A\nB"), "a.b", Some("si")), Some(boolean(true)));
    assert_eq!(regex(simple(&evaluator, "abc"), "B", Some("q")), Some(boolean(false)));
    assert_eq!(regex(simple(&evaluator, "abc"), "B", Some("zqi")), Some(boolean(true)));
    assert_eq!(regex(simple(&evaluator, "abc"), "(", None), None);
    assert_eq!(regex(simple(&evaluator, "abc"), "\\w{1000}{1000}", None), None);
    assert_eq!(regex(integer(1), "1", None), None);
    let lang = EncodedTerm::LangStringLiteral {
        value_id: evaluator.dataset.id("chat"),
        language_id: evaluator.dataset.id("fr"),
    };
    assert_eq!(regex(lang, "^ch", None), Some(boolean(true)));
    assert_eq!(
        eval(
            &evaluator,
            PlanExpression::Regex(constant(simple(&evaluator, "a")), constant(string(&evaluator, "a")), None)
        ),
        None
    );
    assert_eq!(
        eval(
            &evaluator,
            PlanExpression::Regex(
                constant(simple(&evaluator, "a")),
                constant(simple(&evaluator, "a")),
                Some(constant(integer(1)))
            )
        ),
        None
    );
}

#[test]
fn coalesce_gives_the_first_defined_value() {
    let evaluator = evaluator(GrowingDataset::new());
    assert_eq!(
        eval(
            &evaluator,
            PlanExpression::Coalesce(vec![
                PlanExpression::Variable(0),
                PlanExpression::Add(constant(integer(1)), constant(boolean(true))),
                PlanExpression::Constant(integer(5)),
                PlanExpression::Constant(integer(6)),
            ])
        ),
        Some(integer(5))
    );
    assert_eq!(eval(&evaluator, PlanExpression::Coalesce(vec![PlanExpression::Variable(0)])), None);
    assert_eq!(eval(&evaluator, PlanExpression::Coalesce(vec![])), None);
}

#[test]
fn if_evaluates_the_chosen_branch() {
    let evaluator = evaluator(GrowingDataset::new());
    assert_eq!(
        eval(&evaluator, PlanExpression::If(constant(boolean(true)), constant(integer(1)), constant(integer(2)))),
        Some(integer(1))
    );
    assert_eq!(
        eval(&evaluator, PlanExpression::If(constant(integer(0)), constant(integer(1)), constant(integer(2)))),
        Some(integer(2))
    );
    assert_eq!(
        eval(&evaluator, PlanExpression::If(constant(boolean(true)), constant(integer(1)), variable(0))),
        Some(integer(1))
    );
    assert_eq!(
        eval(&evaluator, PlanExpression::If(variable(0), constant(integer(1)), constant(integer(2)))),
        None
    );
    assert_eq!(
        eval(
            &evaluator,
            PlanExpression::If(constant(EncodedTerm::BlankNode(1)), constant(integer(1)), constant(integer(2)))
        ),
        None
    );
}

#[test]
fn boolean_cast() {
    let evaluator = evaluator(GrowingDataset::new());
    let cast = |term: EncodedTerm| eval(&evaluator, PlanExpression::BooleanCast(constant(term)));
    assert_eq!(cast(boolean(true)), Some(boolean(true)));
    assert_eq!(cast(simple(&evaluator, "true")), Some(boolean(true)));
    assert_eq!(cast(string(&evaluator, "1")), Some(boolean(true)));
    assert_eq!(cast(simple(&evaluator, "false")), Some(boolean(false)));
    assert_eq!(cast(simple(&evaluator, "0")), Some(boolean(false)));
    assert_eq!(cast(simple(&evaluator, "yes")), None);
    assert_eq!(cast(integer(1)), None);
}

#[test]
fn numeric_casts() {
    let evaluator = evaluator(GrowingDataset::new());
    let to_integer = |term: EncodedTerm| eval(&evaluator, PlanExpression::IntegerCast(constant(term)));
    let to_decimal = |term: EncodedTerm| eval(&evaluator, PlanExpression::DecimalCast(constant(term)));
    let to_float = |term: EncodedTerm| eval(&evaluator, PlanExpression::FloatCast(constant(term)));
    let to_double = |term: EncodedTerm| eval(&evaluator, PlanExpression::DoubleCast(constant(term)));
    assert_eq!(to_integer(integer(5)), Some(integer(5)));
    assert_eq!(to_integer(decimal(-1999, 3)), Some(integer(-1)));
    assert_eq!(to_integer(decimal(2999, 3)), Some(integer(2)));
    assert_eq!(to_integer(float(2.75)), Some(integer(2)));
    assert_eq!(to_integer(double(-2.75)), Some(integer(-2)));
    assert_eq!(to_integer(double(f64::NAN)), None);
    assert_eq!(to_integer(boolean(true)), Some(integer(1)));
    assert_eq!(to_integer(boolean(false)), Some(integer(0)));
    assert_eq!(to_integer(simple(&evaluator, "42")), Some(integer(42)));
    assert_eq!(to_integer(string(&evaluator, "-42")), Some(integer(-42)));
    assert_eq!(to_integer(simple(&evaluator, "4.2")), None);
    assert_eq!(to_integer(simple(&evaluator, "+42")), Some(integer(42)));
    assert_eq!(to_integer(simple(&evaluator, "007")), Some(integer(7)));
    assert_eq!(to_integer(simple(&evaluator, "-0")), Some(integer(0)));
    assert_eq!(to_integer(simple(&evaluator, "")), None);
    assert_eq!(to_integer(simple(&evaluator, "-")), None);
    assert_eq!(to_integer(simple(&evaluator, "+")), None);
    assert_eq!(to_integer(simple(&evaluator, "+-1")), None);
    assert_eq!(to_integer(simple(&evaluator, "1x")), None);
    assert_eq!(to_integer(simple(&evaluator, " 1")), None);
    assert_eq!(
        to_integer(simple(&evaluator, "170141183460469231731687303715884105727")),
        Some(integer(i128::MAX))
    );
    assert_eq!(to_integer(simple(&evaluator, "170141183460469231731687303715884105728")), None);
    assert_eq!(
        to_integer(simple(&evaluator, "-170141183460469231731687303715884105728")),
        Some(integer(i128::MIN))
    );
    assert_eq!(to_integer(simple(&evaluator, "-170141183460469231731687303715884105729")), None);
    assert_eq!(to_integer(simple(&evaluator, "99999999999999999999999999999999999999999999")), None);
    assert_eq!(to_integer(EncodedTerm::BlankNode(1)), None);
    assert_eq!(to_decimal(decimal(15, 1)), Some(decimal(15, 1)));
    assert_eq!(to_decimal(integer(3)), Some(decimal(3, 0)));
    assert_eq!(to_decimal(integer(i128::MAX)), None);
    assert_eq!(to_decimal(boolean(true)), Some(decimal(1, 0)));
    assert_eq!(to_decimal(boolean(false)), Some(decimal(0, 0)));
    assert_eq!(to_decimal(simple(&evaluator, "1.50")), Some(decimal(150, 2)));
    assert_eq!(to_decimal(simple(&evaluator, "abc")), None);
    assert_eq!(to_decimal(double(0.5)), Some(decimal(5, 1)));
    assert_eq!(to_float(float(1.5)), Some(float(1.5)));
    assert_eq!(to_float(double(1.5)), Some(float(1.5)));
    assert_eq!(to_float(integer(2)), Some(float(2.0)));
    assert_eq!(to_float(decimal(25, 1)), Some(float(2.5)));
    assert_eq!(to_float(boolean(true)), Some(float(1.0)));
    assert_eq!(to_float(boolean(false)), Some(float(0.0)));
    assert_eq!(to_float(simple(&evaluator, "1.5")), Some(float(1.5)));
    assert_eq!(to_float(simple(&evaluator, "abc")), None);
    assert_eq!(to_double(double(1.5)), Some(double(1.5)));
    assert_eq!(to_double(float(1.5)), Some(double(1.5)));
    assert_eq!(to_double(integer(2)), Some(double(2.0)));
    assert_eq!(to_double(decimal(25, 1)), Some(double(2.5)));
    assert_eq!(to_double(boolean(true)), Some(double(1.0)));
    assert_eq!(to_double(boolean(false)), Some(double(0.0)));
    assert_eq!(to_double(string(&evaluator, "1e3")), Some(double(1000.0)));
    assert_eq!(to_double(EncodedTerm::DefaultGraph), None);
}

#[test]
fn date_time_cast() {
    let evaluator = evaluator(GrowingDataset::new());
    let cast = |term: EncodedTerm| eval(&evaluator, PlanExpression::DateTimeCast(constant(term)));
    let date = EncodedTerm::DateTime(DateTimeValue { seconds: 86400, nanos: 0, offset: 3600 });
    let naive = EncodedTerm::NaiveDateTime(NaiveDateTimeValue { seconds: 86400, nanos: 0 });
    assert_eq!(cast(date), Some(date));
    assert_eq!(cast(naive), Some(naive));
    assert_eq!(cast(simple(&evaluator, "1970-01-02T01:00:00+01:00")), Some(date));
    assert_eq!(
        cast(simple(&evaluator, "1970-01-01T00:00:01.5Z")),
        Some(EncodedTerm::DateTime(DateTimeValue { seconds: 1, nanos: 500_000_000, offset: 0 }))
    );
    assert_eq!(cast(string(&evaluator, "1970-01-02T00:00:00")), Some(naive));
    assert_eq!(cast(simple(&evaluator, "yesterday")), None);
    assert_eq!(cast(integer(1)), None);
}

#[test]
fn string_cast() {
    let evaluator = evaluator(GrowingDataset::new());
    assert_eq!(
        eval(&evaluator, PlanExpression::StringCast(constant(integer(12)))),
        Some(string(&evaluator, "12"))
    );
    assert_eq!(
        eval(&evaluator, PlanExpression::StringCast(constant(simple(&evaluator, "a")))),
        Some(string(&evaluator, "a"))
    );
    assert_eq!(eval(&evaluator, PlanExpression::StringCast(constant(EncodedTerm::BlankNode(1)))), None);
}

#[test]
fn uuid_makes_a_urn() {
    let evaluator = evaluator(GrowingDataset::new());
    let first = eval(&evaluator, PlanExpression::UUID);
    let second = eval(&evaluator, PlanExpression::UUID);
    assert_ne!(first, second);
    match first {
        Some(EncodedTerm::NamedNode { iri_id }) => {
            let iri = evaluator.dataset.text_of(iri_id);
            assert_eq!(iri.len(), 45);
            assert!(iri.starts_with("urn:uuid:"));
            assert_eq!(iri.matches('-').count(), 4);
        }
        other => panic!("not a named node: {:?}", other),
    }
}

#[test]
fn str_uuid_makes_a_simple_literal() {
    let evaluator = evaluator(GrowingDataset::new());
    let first = eval(&evaluator, PlanExpression::StrUUID);
    let second = eval(&evaluator, PlanExpression::StrUUID);
    assert_ne!(first, second);
    match first {
        Some(EncodedTerm::SimpleLiteral { value_id }) => {
            let text = evaluator.dataset.text_of(value_id);
            assert_eq!(text.len(), 32);
            assert!(text.chars().all(|c| c.is_ascii_hexdigit()));
        }
        other => panic!("not a simple literal: {:?}", other),
    }
}

#[test]
fn bnode_without_argument_is_new_each_time() {
    let evaluator = evaluator(GrowingDataset::new());
    let first = eval(&evaluator, PlanExpression::BNode(None));
    let second = eval(&evaluator, PlanExpression::BNode(None));
    assert!(matches!(first, Some(EncodedTerm::BlankNode(_))));
    assert!(matches!(second, Some(EncodedTerm::BlankNode(_))));
    assert_ne!(first, second);
    assert_eq!(
        eval(
            &evaluator,
            PlanExpression::SameTerm(Box::new(PlanExpression::BNode(None)), Box::new(PlanExpression::BNode(None)))
        ),
        Some(boolean(false))
    );
}

#[test]
fn bnode_consistency() {
    let evaluator = evaluator(GrowingDataset::new());
    let call = |label: &str| Box::new(PlanExpression::BNode(Some(constant(simple(&evaluator, label)))));
    assert_eq!(
        eval(&evaluator, PlanExpression::SameTerm(call("x"), call("x"))),
        Some(boolean(true))
    );
    assert_eq!(
        eval(&evaluator, PlanExpression::SameTerm(call("x"), call("y"))),
        Some(boolean(false))
    );
    assert_eq!(
        eval(
            &evaluator,
            PlanExpression::SameTerm(
                call("x"),
                Box::new(PlanExpression::BNode(Some(constant(string(&evaluator, "x")))))
            )
        ),
        Some(boolean(true))
    );
    let first_evaluation = eval(&evaluator, PlanExpression::BNode(Some(constant(simple(&evaluator, "x")))));
    let second_evaluation = eval(&evaluator, PlanExpression::BNode(Some(constant(simple(&evaluator, "x")))));
    assert!(matches!(first_evaluation, Some(EncodedTerm::BlankNode(_))));
    assert_ne!(first_evaluation, second_evaluation);
    assert_eq!(eval(&evaluator, PlanExpression::BNode(Some(constant(integer(1))))), None);
    assert_eq!(eval(&evaluator, PlanExpression::BNode(Some(variable(0)))), None);
}

#[test]
fn language_ranges_on_texts() {
    assert_eq!(lang_matches_texts("en-GB", "*"), Some(boolean(true)));
    assert_eq!(lang_matches_texts("", "*"), Some(boolean(false)));
    assert_eq!(lang_matches_texts("en-GB", "en"), Some(boolean(true)));
    assert_eq!(lang_matches_texts("de", "en"), Some(boolean(false)));
    assert_eq!(lang_matches_texts("en", "en-x-private"), None);
    assert_eq!(lang_matches_texts("en", "?"), None);
    assert_eq!(lang_matches_texts("?", "en"), None);
}

#[test]
fn regular_expressions_on_texts() {
    assert_eq!(regex_on_texts("foo", "i", "FOO"), Some(boolean(true)));
    assert_eq!(regex_on_texts("foo", "", "FOO"), Some(boolean(false)));
    assert_eq!(regex_on_texts("a.b", "s", "a\nb"), Some(boolean(true)));
    assert_eq!(regex_on_texts("^b", "m", "a\nb"), Some(boolean(true)));
    assert_eq!(regex_on_texts("a b", "x", "ab"), Some(boolean(true)));
    assert_eq!(regex_on_texts("a b", "q", "ab"), Some(boolean(false)));
    assert_eq!(regex_on_texts("(", "", "("), None);
}

#[test]
fn casts_of_texts() {
    assert_eq!(cast_of_text(UnaryFunction::BooleanCast, "1"), Some(boolean(true)));
    assert_eq!(cast_of_text(UnaryFunction::BooleanCast, "false"), Some(boolean(false)));
    assert_eq!(cast_of_text(UnaryFunction::BooleanCast, "no"), None);
    assert_eq!(cast_of_text(UnaryFunction::IntegerCast, "-12"), Some(integer(-12)));
    assert_eq!(cast_of_text(UnaryFunction::DecimalCast, "1.25"), Some(decimal(125, 2)));
    assert_eq!(
        cast_of_text(UnaryFunction::DateTimeCast, "1970-01-01T00:00:10Z"),
        Some(EncodedTerm::DateTime(DateTimeValue { seconds: 10, nanos: 0, offset: 0 }))
    );
    assert_eq!(
        cast_of_text(UnaryFunction::DateTimeCast, "1970-01-01T00:00:10"),
        Some(EncodedTerm::NaiveDateTime(NaiveDateTimeValue { seconds: 10, nanos: 0 }))
    );
    assert_eq!(cast_of_text(UnaryFunction::DateTimeCast, "1970-01-01 00:00:10"), None);
    assert_eq!(cast_of_text(UnaryFunction::FloatCast, "1.5"), None);
    assert_eq!(cast_of_text(UnaryFunction::Str, "1"), None);
}

#[test]
fn promotion_table() {
    let numbers = vec![float(1.0), double(1.0), integer(1), decimal(10, 1)];
    let expected = vec![
        vec![NumericFamily::Float, NumericFamily::Double, NumericFamily::Float, NumericFamily::Float],
        vec![NumericFamily::Double, NumericFamily::Double, NumericFamily::Double, NumericFamily::Double],
        vec![NumericFamily::Float, NumericFamily::Double, NumericFamily::Integer, NumericFamily::Decimal],
        vec![NumericFamily::Float, NumericFamily::Double, NumericFamily::Decimal, NumericFamily::Decimal],
    ];
    for (i, left) in numbers.iter().enumerate() {
        for (j, right) in numbers.iter().enumerate() {
            assert_eq!(numeric_family(*left, *right), Some(expected[i][j]));
        }
        assert_eq!(numeric_family(*left, boolean(true)), None);
        assert_eq!(numeric_family(EncodedTerm::BlankNode(1), *left), None);
    }
}

#[test]
fn promotion_converts_the_operand_and_keeps_its_place() {
    let evaluator = evaluator(GrowingDataset::new());
    assert_eq!(evaluator.promote(integer(3), NumericFamily::Double), Some(double(3.0)));
    assert_eq!(evaluator.promote(integer(3), NumericFamily::Float), Some(float(3.0)));
    assert_eq!(evaluator.promote(integer(3), NumericFamily::Decimal), Some(decimal(3, 0)));
    assert_eq!(evaluator.promote(integer(3), NumericFamily::Integer), Some(integer(3)));
    assert_eq!(evaluator.promote(decimal(25, 1), NumericFamily::Double), Some(double(2.5)));
    assert_eq!(evaluator.promote(decimal(25, 1), NumericFamily::Float), Some(float(2.5)));
    assert_eq!(evaluator.promote(float(1.5), NumericFamily::Double), Some(double(1.5)));
    assert_eq!(evaluator.promote(double(1.5), NumericFamily::Float), Some(float(1.5)));
    assert_eq!(evaluator.promote(decimal(1, 40), NumericFamily::Decimal), None);
    assert_eq!(evaluator.promote(integer(i128::MAX), NumericFamily::Decimal), None);
    assert_eq!(evaluator.promote(float(1.5), NumericFamily::Integer), None);
    assert_eq!(evaluator.promote(boolean(true), NumericFamily::Double), None);
    assert_eq!(
        evaluator.parse_numeric_operands(integer(3), double(0.5)),
        Some(NumericBinaryOperands::Double(3.0f64.to_bits(), 0.5f64.to_bits()))
    );
    assert_eq!(
        evaluator.parse_numeric_operands(float(0.5), integer(3)),
        Some(NumericBinaryOperands::Float(0.5f32.to_bits(), 3.0f32.to_bits()))
    );
    assert_eq!(
        evaluator.parse_numeric_operands(decimal(5, 1), integer(3)),
        Some(NumericBinaryOperands::Decimal(
            DecimalValue { mantissa: 5, scale: 1 },
            DecimalValue { mantissa: 3, scale: 0 }
        ))
    );
    assert_eq!(evaluator.parse_numeric_operands(integer(3), boolean(true)), None);
    assert_eq!(pair_operands(Some(integer(1)), Some(double(1.0))), None);
    assert_eq!(pair_operands(Some(integer(1)), None), None);
    assert_eq!(pair_operands(Some(integer(1)), Some(integer(2))), Some(NumericBinaryOperands::Integer(1, 2)));
}

#[test]
fn order_within_a_family() {
    let evaluator = evaluator(GrowingDataset::new());
    assert_eq!(order_of_operands(NumericBinaryOperands::Integer(1, 2)), Some(Comparison::Less));
    assert_eq!(
        order_of_operands(NumericBinaryOperands::Float(2.5f32.to_bits(), 1.5f32.to_bits())),
        Some(Comparison::Greater)
    );
    assert_eq!(
        order_of_operands(NumericBinaryOperands::Double(f64::NAN.to_bits(), 1.5f64.to_bits())),
        None
    );
    let d = |mantissa: i128, scale: u32| DecimalValue { mantissa, scale };
    assert_eq!(order_of_operands(NumericBinaryOperands::Decimal(d(10, 1), d(100, 2))), Some(Comparison::Equal));
    assert_eq!(order_of_operands(NumericBinaryOperands::Decimal(d(0, 5), d(0, 0))), Some(Comparison::Equal));
    assert_eq!(order_of_operands(NumericBinaryOperands::Decimal(d(-15, 1), d(-2, 0))), Some(Comparison::Greater));
    assert_eq!(order_of_operands(NumericBinaryOperands::Decimal(d(15, 1), d(149, 2))), Some(Comparison::Greater));
    assert_eq!(order_of_operands(NumericBinaryOperands::Decimal(d(1, 28), d(1, 0))), Some(Comparison::Less));
    assert_eq!(
        order_of_operands(NumericBinaryOperands::Decimal(d(79228162514264337593543950335, 0), d(1, 28))),
        Some(Comparison::Greater)
    );
    assert_eq!(evaluator.compare_numbers(integer(3), double(2.5)), Some(Comparison::Greater));
    assert_eq!(evaluator.compare_numbers(decimal(25, 1), float(2.5)), Some(Comparison::Equal));
    assert_eq!(evaluator.compare_numbers(integer(3), boolean(true)), None);
}

use num_traits::FromPrimitive;
use num_traits::ToPrimitive;
use rust_decimal::Decimal;
use sparql_eval::dataset::ArithmeticOperator;
use sparql_eval::dataset::DatasetView;
use sparql_eval::dataset::FloatArithmetic;
use sparql_eval::term::DecimalValue;
use sparql_eval::term::EncodedQuad;
use sparql_eval::term::EncodedTerm;
use sparql_eval::term::EvaluationError;
use sparql_eval::values::SimpleEvaluator;
use std::cell::RefCell;

/// A dataset in memory whose dictionary takes new texts while it is read.
/// A lookup of `failing_id` fails, and so does every pattern if
/// `failing_patterns` is set.
struct GrowingDataset {
    strings: RefCell<Vec<String>>,
    quads: Vec<EncodedQuad>,
    failing_id: Option<u64>,
    failing_patterns: bool,
}

impl GrowingDataset {
    fn new() -> Self {
        let strings = vec![
            "".to_string(),
            "http://www.w3.org/1999/02/22-rdf-syntax-ns#langString".to_string(),
            "http://www.w3.org/2001/XMLSchema#string".to_string(),
            "http://www.w3.org/2001/XMLSchema#boolean".to_string(),
            "http://www.w3.org/2001/XMLSchema#float".to_string(),
            "http://www.w3.org/2001/XMLSchema#double".to_string(),
            "http://www.w3.org/2001/XMLSchema#integer".to_string(),
            "http://www.w3.org/2001/XMLSchema#decimal".to_string(),
            "http://www.w3.org/2001/XMLSchema#dateTime".to_string(),
        ];
        GrowingDataset {
            strings: RefCell::new(strings),
            quads: Vec::new(),
            failing_id: None,
            failing_patterns: false,
        }
    }

    fn id(&self, text: &str) -> u64 {
        self.insert_str(text).unwrap()
    }

    fn text_of(&self, id: u64) -> String {
        self.get_str(id).unwrap()
    }

    fn add(&mut self, subject: EncodedTerm, predicate: EncodedTerm, object: EncodedTerm) {
        self.quads.push(EncodedQuad {
            subject,
            predicate,
            object,
            graph_name: EncodedTerm::DefaultGraph,
        });
    }
}

fn fits(pattern: Option<EncodedTerm>, term: EncodedTerm) -> bool {
    match pattern {
        Some(wanted) => wanted == term,
        None => true,
    }
}

impl DatasetView for GrowingDataset {
    fn text(&self, _: u64) -> Option<vstd::seq::Seq<char>> {
        unreachable!()
    }

    fn holds(&self, _: EncodedQuad) -> bool {
        unreachable!()
    }

    fn quads_for_pattern(
        &self,
        subject: Option<EncodedTerm>,
        predicate: Option<EncodedTerm>,
        object: Option<EncodedTerm>,
        graph_name: Option<EncodedTerm>,
    ) -> Vec<Result<EncodedQuad, EvaluationError>> {
        if self.failing_patterns {
            return vec![Err(EvaluationError::Store { code: 7 })];
        }
        let mut answer = Vec::new();
        for quad in &self.quads {
            if fits(subject, quad.subject)
                && fits(predicate, quad.predicate)
                && fits(object, quad.object)
                && fits(graph_name, quad.graph_name)
            {
                answer.push(Ok(*quad));
            }
        }
        answer
    }

    fn get_str(&self, id: u64) -> Result<String, EvaluationError> {
        if self.failing_id == Some(id) {
            return Err(EvaluationError::Store { code: 3 });
        }
        match self.strings.borrow().get(id as usize) {
            Some(text) => Ok(text.clone()),
            None => Err(EvaluationError::Store { code: 4 }),
        }
    }

    fn insert_str(&self, value: &str) -> Result<u64, EvaluationError> {
        let mut strings = self.strings.borrow_mut();
        for (id, text) in strings.iter().enumerate() {
            if text == value {
                return Ok(id as u64);
            }
        }
        strings.push(value.to_string());
        Ok((strings.len() - 1) as u64)
    }
}

/// IEEE-754 arithmetic by the machine's floating point.
struct MachineFloats;

fn decimal_of(value: DecimalValue) -> Option<Decimal> {
    Decimal::try_from_i128_with_scale(value.mantissa, value.scale).ok()
}

fn value_of(decimal: Decimal) -> DecimalValue {
    DecimalValue { mantissa: decimal.mantissa(), scale: decimal.scale() }
}

impl FloatArithmetic for MachineFloats {
    fn single_operation(&self, operator: ArithmeticOperator, left: u32, right: u32) -> u32 {
        let (a, b) = (f32::from_bits(left), f32::from_bits(right));
        let result = match operator {
            ArithmeticOperator::Add => a + b,
            ArithmeticOperator::Sub => a - b,
            ArithmeticOperator::Mul => a * b,
            ArithmeticOperator::Div => a / b,
        };
        result.to_bits()
    }

    fn double_operation(&self, operator: ArithmeticOperator, left: u64, right: u64) -> u64 {
        let (a, b) = (f64::from_bits(left), f64::from_bits(right));
        let result = match operator {
            ArithmeticOperator::Add => a + b,
            ArithmeticOperator::Sub => a - b,
            ArithmeticOperator::Mul => a * b,
            ArithmeticOperator::Div => a / b,
        };
        result.to_bits()
    }

    fn single_to_double(&self, value: u32) -> Option<u64> {
        f32::from_bits(value).to_f64().map(f64::to_bits)
    }

    fn double_to_single(&self, value: u64) -> Option<u32> {
        f64::from_bits(value).to_f32().map(f32::to_bits)
    }

    fn integer_to_single(&self, value: i128) -> Option<u32> {
        value.to_f32().map(f32::to_bits)
    }

    fn integer_to_double(&self, value: i128) -> Option<u64> {
        value.to_f64().map(f64::to_bits)
    }

    fn decimal_to_single(&self, value: DecimalValue) -> Option<u32> {
        decimal_of(value)?.to_f32().map(f32::to_bits)
    }

    fn decimal_to_double(&self, value: DecimalValue) -> Option<u64> {
        decimal_of(value)?.to_f64().map(f64::to_bits)
    }

    fn single_to_integer(&self, value: u32) -> Option<i128> {
        f32::from_bits(value).to_i128()
    }

    fn double_to_integer(&self, value: u64) -> Option<i128> {
        f64::from_bits(value).to_i128()
    }

    fn single_to_decimal(&self, value: u32) -> Option<DecimalValue> {
        Decimal::from_f32(f32::from_bits(value)).map(value_of)
    }

    fn double_to_decimal(&self, value: u64) -> Option<DecimalValue> {
        Decimal::from_f64(f64::from_bits(value)).map(value_of)
    }

    fn parse_single(&self, text: &str) -> Option<u32> {
        text.parse::<f32>().ok().map(f32::to_bits)
    }

    fn parse_double(&self, text: &str) -> Option<u64> {
        text.parse::<f64>().ok().map(f64::to_bits)
    }

    fn single_to_string(&self, value: u32) -> String {
        f32::from_bits(value).to_string()
    }

    fn double_to_string(&self, value: u64) -> String {
        f64::from_bits(value).to_string()
    }
}

fn evaluator(dataset: GrowingDataset) -> SimpleEvaluator<GrowingDataset, MachineFloats> {
    SimpleEvaluator::new(dataset, MachineFloats)
}

fn integer(value: i128) -> EncodedTerm {
    EncodedTerm::IntegerLiteral(value)
}

fn boolean(value: bool) -> EncodedTerm {
    EncodedTerm::BooleanLiteral(value)
}

fn decimal(mantissa: i128, scale: u32) -> EncodedTerm {
    EncodedTerm::DecimalLiteral(DecimalValue { mantissa, scale })
}

fn float(value: f32) -> EncodedTerm {
    EncodedTerm::FloatLiteral(value.to_bits())
}

fn double(value: f64) -> EncodedTerm {
    EncodedTerm::DoubleLiteral(value.to_bits())
}
use sparql_eval::joins::join_rows;
use sparql_eval::joins::reconcile_rows;
use sparql_eval::numeric::Comparison;
use sparql_eval::plan::Comparator;
use sparql_eval::plan::PatternValue;
use sparql_eval::plan::PlanExpression;
use sparql_eval::plan::PlanNode;
use sparql_eval::plan::TripleTemplate;
use sparql_eval::plan::TripleTemplateValue;
use sparql_eval::query::check_plan;
use sparql_eval::query::get_triple_template_value;
use sparql_eval::rdf::QueryResult;
use sparql_eval::rdf::Term;
use sparql_eval::rdf::Triple;
use sparql_eval::rdf::Variable;
use sparql_eval::rows::deduplicate_rows;
use sparql_eval::rows::limit_rows;
use sparql_eval::rows::skip_rows;
use sparql_eval::term::EncodedTuple;
use sparql_eval::term::Row;
use sparql_eval::tuple::bind_variables_in_set;
use sparql_eval::tuple::get_pattern_value;
use sparql_eval::tuple::has_tuple_value;
use sparql_eval::tuple::put_pattern_value;
use sparql_eval::tuple::unbind_variables;

type Evaluator = SimpleEvaluator<GrowingDataset, MachineFloats>;

const A: &str = "http://example.com/a";
const B: &str = "http://example.com/b";
const C: &str = "http://example.com/c";
const P: &str = "http://example.com/p";

fn named_in(dataset: &GrowingDataset, iri: &str) -> EncodedTerm {
    EncodedTerm::NamedNode { iri_id: dataset.id(iri) }
}

fn simple_in(dataset: &GrowingDataset, text: &str) -> EncodedTerm {
    EncodedTerm::SimpleLiteral { value_id: dataset.id(text) }
}

fn constant(term: EncodedTerm) -> Box<PlanExpression> {
    Box::new(PlanExpression::Constant(term))
}

fn variable(slot: usize) -> Box<PlanExpression> {
    Box::new(PlanExpression::Variable(slot))
}

fn init() -> Box<PlanNode> {
    Box::new(PlanNode::Init)
}

fn bindings(tuples: Vec<EncodedTuple>) -> Box<PlanNode> {
    Box::new(PlanNode::StaticBindings { tuples })
}

fn numbers(values: Vec<i128>) -> Box<PlanNode> {
    bindings(values.into_iter().map(|value| vec![Some(integer(value))]).collect())
}

fn extend(child: Box<PlanNode>, position: usize, expression: PlanExpression) -> Box<PlanNode> {
    Box::new(PlanNode::Extend { child, position, expression })
}

fn filter(child: Box<PlanNode>, expression: PlanExpression) -> Box<PlanNode> {
    Box::new(PlanNode::Filter { child, expression })
}

fn pattern(
    child: Box<PlanNode>,
    subject: PatternValue,
    predicate: PatternValue,
    object: PatternValue,
    graph_name: PatternValue,
) -> Box<PlanNode> {
    Box::new(PlanNode::QuadPatternJoin { child, subject, predicate, object, graph_name })
}

fn run(evaluator: &Evaluator, plan: &PlanNode) -> Vec<Row> {
    assert!(check_plan(plan));
    evaluator.eval_plan(plan, &vec![])
}

fn tuples(rows: Vec<Row>) -> Vec<EncodedTuple> {
    rows.into_iter().map(|row| row.unwrap()).collect()
}

fn row(values: Vec<i128>) -> EncodedTuple {
    values.into_iter().map(|value| Some(integer(value))).collect()
}

/// The dataset `{A A B, A B C}` in the default graph.
fn self_join_dataset() -> GrowingDataset {
    let mut dataset = GrowingDataset::new();
    let (a, b, c) = (named_in(&dataset, A), named_in(&dataset, B), named_in(&dataset, C));
    dataset.add(a, a, b);
    dataset.add(a, b, c);
    dataset
}

#[test]
fn init_yields_the_seed_once() {
    let evaluator = evaluator(GrowingDataset::new());
    let seed = vec![None, Some(integer(1))];
    assert_eq!(evaluator.eval_plan(&PlanNode::Init, &seed), vec![Ok(seed.clone())]);
    assert_eq!(evaluator.eval_plan(&PlanNode::Init, &vec![]), vec![Ok(vec![])]);
}

#[test]
fn static_bindings_yield_each_tuple_in_order() {
    let evaluator = evaluator(GrowingDataset::new());
    let plan = numbers(vec![3, 1, 2]);
    assert_eq!(tuples(evaluator.eval_plan(&plan, &vec![Some(integer(9))])), vec![row(vec![3]), row(vec![1]), row(vec![2])]);
}

#[test]
fn self_join_on_subject_and_predicate() {
    let evaluator = evaluator(self_join_dataset());
    let plan = pattern(
        init(),
        PatternValue::Variable(0),
        PatternValue::Variable(0),
        PatternValue::Variable(1),
        PatternValue::Constant(EncodedTerm::DefaultGraph),
    );
    let a = named_in(&evaluator.dataset, A);
    let b = named_in(&evaluator.dataset, B);
    assert_eq!(tuples(run(&evaluator, &plan)), vec![vec![Some(a), Some(b)]]);
}

#[test]
fn self_join_on_other_positions() {
    let mut dataset = GrowingDataset::new();
    let (a, b) = (named_in(&dataset, A), named_in(&dataset, B));
    dataset.add(a, b, a);
    dataset.add(a, b, b);
    dataset.add(b, a, a);
    let evaluator = evaluator(dataset);
    let default = PatternValue::Constant(EncodedTerm::DefaultGraph);
    let subject_object = pattern(init(), PatternValue::Variable(0), PatternValue::Variable(1), PatternValue::Variable(0), default);
    assert_eq!(tuples(run(&evaluator, &subject_object)), vec![vec![Some(a), Some(b)]]);
    let predicate_object = pattern(init(), PatternValue::Variable(0), PatternValue::Variable(1), PatternValue::Variable(1), default);
    assert_eq!(
        tuples(run(&evaluator, &predicate_object)),
        vec![vec![Some(a), Some(b)], vec![Some(b), Some(a)]]
    );
}

#[test]
fn quad_pattern_takes_bound_variables_as_constants() {
    let evaluator = evaluator(self_join_dataset());
    let a = named_in(&evaluator.dataset, A);
    let b = named_in(&evaluator.dataset, B);
    let c = named_in(&evaluator.dataset, C);
    let plan = pattern(
        bindings(vec![vec![None, Some(b)], vec![None, Some(c)]]),
        PatternValue::Variable(0),
        PatternValue::Variable(1),
        PatternValue::Variable(2),
        PatternValue::Constant(EncodedTerm::DefaultGraph),
    );
    assert_eq!(tuples(run(&evaluator, &plan)), vec![vec![Some(a), Some(b), Some(c)]]);
    let constant_subject = pattern(
        init(),
        PatternValue::Constant(a),
        PatternValue::Variable(3),
        PatternValue::Constant(c),
        PatternValue::Constant(EncodedTerm::DefaultGraph),
    );
    assert_eq!(tuples(run(&evaluator, &constant_subject)), vec![vec![None, None, None, Some(b)]]);
}

#[test]
fn graph_variable_does_not_range_over_the_default_graph() {
    let mut dataset = self_join_dataset();
    let (a, b, c) = (named_in(&dataset, A), named_in(&dataset, B), named_in(&dataset, C));
    dataset.quads.push(EncodedQuad { subject: c, predicate: b, object: a, graph_name: c });
    let evaluator = evaluator(dataset);
    let plan = pattern(
        init(),
        PatternValue::Variable(0),
        PatternValue::Variable(1),
        PatternValue::Variable(2),
        PatternValue::Variable(3),
    );
    assert_eq!(tuples(run(&evaluator, &plan)), vec![vec![Some(c), Some(b), Some(a), Some(c)]]);
    let graph_is_subject = pattern(
        init(),
        PatternValue::Variable(0),
        PatternValue::Variable(1),
        PatternValue::Variable(2),
        PatternValue::Variable(0),
    );
    assert_eq!(tuples(run(&evaluator, &graph_is_subject)), vec![vec![Some(c), Some(b), Some(a)]]);
    let graph_is_object = pattern(
        init(),
        PatternValue::Variable(0),
        PatternValue::Variable(1),
        PatternValue::Variable(2),
        PatternValue::Variable(2),
    );
    assert_eq!(tuples(run(&evaluator, &graph_is_object)), Vec::<EncodedTuple>::new());
}

#[test]
fn join_merges_the_rows_that_agree() {
    let evaluator = evaluator(GrowingDataset::new());
    let left = bindings(vec![
        vec![Some(integer(1)), Some(integer(10))],
        vec![Some(integer(2)), Some(integer(20))],
        vec![None, Some(integer(30))],
    ]);
    let right = bindings(vec![
        vec![Some(integer(2)), None, Some(integer(200))],
        vec![Some(integer(3)), None, Some(integer(300))],
    ]);
    let plan = PlanNode::Join { left, right };
    assert_eq!(
        tuples(run(&evaluator, &plan)),
        vec![
            vec![Some(integer(2)), Some(integer(30)), Some(integer(200))],
            vec![Some(integer(2)), Some(integer(20)), Some(integer(200))],
            vec![Some(integer(3)), Some(integer(30)), Some(integer(300))],
        ]
    );
}

#[test]
fn join_is_commutative_up_to_order() {
    let a: Vec<Row> = vec![
        Ok(vec![Some(integer(1)), None]),
        Err(EvaluationError::Store { code: 1 }),
        Ok(vec![Some(integer(2)), Some(integer(5))]),
        Ok(vec![None, Some(integer(6))]),
    ];
    let b: Vec<Row> = vec![
        Ok(vec![Some(integer(1)), Some(integer(6))]),
        Ok(vec![None, None, Some(integer(7))]),
        Err(EvaluationError::Store { code: 2 }),
        Ok(vec![Some(integer(2))]),
    ];
    let bag = |rows: Vec<Row>| {
        let mut texts: Vec<String> = rows.iter().map(|row| format!("{:?}", row)).collect();
        texts.sort();
        texts
    };
    let one = bag(join_rows(&a, &b));
    let other = bag(join_rows(&b, &a));
    assert_eq!(one.len(), 9);
    assert_eq!(one, other);
}

#[test]
fn join_emits_the_errors_of_the_left_side_first() {
    let left: Vec<Row> = vec![
        Ok(row(vec![1])),
        Err(EvaluationError::Store { code: 1 }),
        Err(EvaluationError::Store { code: 2 }),
    ];
    let right: Vec<Row> = vec![Ok(row(vec![1])), Err(EvaluationError::Store { code: 3 }), Ok(row(vec![2]))];
    assert_eq!(
        join_rows(&left, &right),
        vec![
            Err(EvaluationError::Store { code: 2 }),
            Err(EvaluationError::Store { code: 1 }),
            Ok(row(vec![1])),
            Err(EvaluationError::Store { code: 3 }),
        ]
    );
}

#[test]
fn optional_preserves_the_left_side() {
    let evaluator = evaluator(GrowingDataset::new());
    let right = filter(
        extend(init(), 1, PlanExpression::Constant(integer(5))),
        PlanExpression::Equal(variable(0), constant(integer(2))),
    );
    let plan = PlanNode::LeftJoin { left: numbers(vec![1, 2]), right, possible_problem_vars: vec![] };
    assert_eq!(tuples(run(&evaluator, &plan)), vec![row(vec![1]), row(vec![2, 5])]);
}

#[test]
fn left_join_emits_every_row_of_the_right_side() {
    let evaluator = evaluator(GrowingDataset::new());
    let right = Box::new(PlanNode::Union {
        entry: init(),
        children: vec![
            *extend(init(), 1, PlanExpression::Constant(integer(10))),
            *extend(init(), 1, PlanExpression::Constant(integer(20))),
        ],
    });
    let plan = PlanNode::LeftJoin { left: numbers(vec![1, 2]), right, possible_problem_vars: vec![] };
    assert_eq!(
        tuples(run(&evaluator, &plan)),
        vec![row(vec![1, 10]), row(vec![1, 20]), row(vec![2, 10]), row(vec![2, 20])]
    );
}

#[test]
fn left_join_unbinds_problem_variables_and_reconciles() {
    let evaluator = evaluator(GrowingDataset::new());
    let seed = vec![Some(integer(1)), Some(integer(7))];
    let conflicting = PlanNode::LeftJoin {
        left: init(),
        right: extend(init(), 0, PlanExpression::Constant(integer(2))),
        possible_problem_vars: vec![0, 5],
    };
    assert_eq!(evaluator.eval_plan(&conflicting, &seed), Vec::<Row>::new());
    let agreeing = PlanNode::LeftJoin {
        left: init(),
        right: extend(init(), 0, PlanExpression::Constant(integer(1))),
        possible_problem_vars: vec![0, 5],
    };
    assert_eq!(evaluator.eval_plan(&agreeing, &seed), vec![Ok(row(vec![1, 7]))]);
    let restoring = PlanNode::LeftJoin {
        left: init(),
        right: extend(init(), 2, PlanExpression::Bound(0)),
        possible_problem_vars: vec![0, 5],
    };
    assert_eq!(
        evaluator.eval_plan(&restoring, &seed),
        vec![Ok(vec![Some(integer(1)), Some(integer(7)), Some(boolean(false))])]
    );
    let unbound_problem = PlanNode::LeftJoin {
        left: init(),
        right: extend(init(), 2, PlanExpression::Bound(0)),
        possible_problem_vars: vec![5],
    };
    assert_eq!(
        evaluator.eval_plan(&unbound_problem, &seed),
        vec![Ok(vec![Some(integer(1)), Some(integer(7)), Some(boolean(true))])]
    );
}

#[test]
fn reconcile_drops_conflicts_and_restores_bindings() {
    let input = vec![Some(integer(1)), None, Some(integer(3)), Some(integer(4))];
    let rows: Vec<Row> = vec![
        Ok(vec![Some(integer(1))]),
        Ok(vec![Some(integer(9))]),
        Err(EvaluationError::Store { code: 1 }),
        Ok(vec![None, Some(integer(2)), Some(integer(3))]),
        Ok(vec![None, None, None, Some(integer(5))]),
    ];
    assert_eq!(
        reconcile_rows(&input, &vec![0, 2], &rows),
        vec![
            Ok(vec![Some(integer(1)), None, Some(integer(3))]),
            Err(EvaluationError::Store { code: 1 }),
            Ok(vec![Some(integer(1)), Some(integer(2)), Some(integer(3))]),
            Ok(vec![Some(integer(1)), None, Some(integer(3)), Some(integer(5))]),
        ]
    );
}

#[test]
fn filter_drops_errors() {
    let mut dataset = GrowingDataset::new();
    let (a, p) = (named_in(&dataset, A), named_in(&dataset, P));
    let x = simple_in(&dataset, "x");
    dataset.add(a, p, x);
    dataset.add(a, p, integer(3));
    let evaluator = evaluator(dataset);
    let plan = filter(
        pattern(
            init(),
            PatternValue::Variable(0),
            PatternValue::Constant(p),
            PatternValue::Variable(1),
            PatternValue::Constant(EncodedTerm::DefaultGraph),
        ),
        PlanExpression::Greater(variable(1), constant(integer(2))),
    );
    assert_eq!(tuples(run(&evaluator, &plan)), vec![vec![Some(a), Some(integer(3))]]);
}

#[test]
fn filter_keeps_the_rows_with_a_true_value() {
    let evaluator = evaluator(GrowingDataset::new());
    let expression = || PlanExpression::Greater(variable(0), constant(integer(2)));
    let plan = filter(
        bindings(vec![row(vec![1]), row(vec![3]), vec![None], row(vec![2]), row(vec![4])]),
        expression(),
    );
    let kept = tuples(run(&evaluator, &plan));
    assert_eq!(kept, vec![row(vec![3]), row(vec![4])]);
    for tuple in &kept {
        let value = evaluator.eval_expression(&expression(), tuple);
        assert_eq!(value.and_then(|term| evaluator.to_bool(term)), Some(true));
    }
    let not_boolean = filter(numbers(vec![0, 5]), PlanExpression::Variable(0));
    assert_eq!(tuples(run(&evaluator, &not_boolean)), vec![row(vec![5])]);
}

#[test]
fn union_ordering() {
    let evaluator = evaluator(GrowingDataset::new());
    let plan = PlanNode::Union {
        entry: numbers(vec![1, 2]),
        children: vec![
            PlanNode::Union {
                entry: init(),
                children: vec![
                    *extend(init(), 1, PlanExpression::Constant(integer(10))),
                    *extend(init(), 1, PlanExpression::Constant(integer(11))),
                ],
            },
            *extend(init(), 1, PlanExpression::Constant(integer(20))),
        ],
    };
    assert_eq!(
        tuples(run(&evaluator, &plan)),
        vec![
            row(vec![1, 10]),
            row(vec![1, 11]),
            row(vec![1, 20]),
            row(vec![2, 10]),
            row(vec![2, 11]),
            row(vec![2, 20]),
        ]
    );
}

#[test]
fn union_rows_come_from_its_children() {
    let evaluator = evaluator(GrowingDataset::new());
    let first = || numbers(vec![1, 2]);
    let second = || numbers(vec![2, 3]);
    let plan = PlanNode::Union { entry: init(), children: vec![*first(), *second()] };
    let from_first = tuples(run(&evaluator, &first()));
    let from_second = tuples(run(&evaluator, &second()));
    let all = tuples(run(&evaluator, &plan));
    assert_eq!(all.len(), 4);
    for tuple in &all {
        assert!(from_first.contains(tuple) || from_second.contains(tuple));
    }
    let empty = PlanNode::Union { entry: init(), children: vec![] };
    assert_eq!(run(&evaluator, &empty), Vec::<Row>::new());
}

#[test]
fn extend_binds_the_value_of_the_expression() {
    let evaluator = evaluator(GrowingDataset::new());
    let expression = || PlanExpression::Add(variable(0), constant(integer(1)));
    let plan = extend(bindings(vec![row(vec![1]), vec![None], row(vec![5])]), 2, expression());
    let rows = tuples(run(&evaluator, &plan));
    assert_eq!(
        rows,
        vec![
            vec![Some(integer(1)), None, Some(integer(2))],
            vec![Some(integer(5)), None, Some(integer(6))],
        ]
    );
    for tuple in &rows {
        let before = vec![tuple[0]];
        assert_eq!(tuple[2], evaluator.eval_expression(&expression(), &before));
    }
    let overwrite = extend(numbers(vec![1]), 0, PlanExpression::Constant(integer(9)));
    assert_eq!(tuples(run(&evaluator, &overwrite)), vec![row(vec![9])]);
}

#[test]
fn sort_orders_the_rows() {
    let evaluator = evaluator(GrowingDataset::new());
    let plan = PlanNode::Sort {
        child: bindings(vec![row(vec![2, 1]), row(vec![1, 2]), row(vec![2, 3]), row(vec![1, 4])]),
        by: vec![Comparator::Asc(PlanExpression::Variable(0)), Comparator::Desc(PlanExpression::Variable(1))],
    };
    assert_eq!(
        tuples(run(&evaluator, &plan)),
        vec![row(vec![1, 4]), row(vec![1, 2]), row(vec![2, 3]), row(vec![2, 1])]
    );
    let stable = PlanNode::Sort {
        child: bindings(vec![row(vec![2, 1]), row(vec![1, 2]), row(vec![2, 3]), row(vec![1, 4])]),
        by: vec![Comparator::Desc(PlanExpression::Variable(0))],
    };
    assert_eq!(
        tuples(run(&evaluator, &stable)),
        vec![row(vec![2, 1]), row(vec![2, 3]), row(vec![1, 2]), row(vec![1, 4])]
    );
    let no_key = PlanNode::Sort { child: numbers(vec![3, 1, 2]), by: vec![] };
    assert_eq!(tuples(run(&evaluator, &no_key)), vec![row(vec![3]), row(vec![1]), row(vec![2])]);
}

#[test]
fn sort_order_of_terms() {
    let dataset = GrowingDataset::new();
    let a = named_in(&dataset, A);
    let b = named_in(&dataset, B);
    let text = simple_in(&dataset, "a");
    let evaluator = evaluator(dataset);
    let terms = vec![
        Some(integer(2)),
        Some(b),
        None,
        Some(EncodedTerm::BlankNode(9)),
        Some(decimal(15, 1)),
        Some(a),
        Some(EncodedTerm::BlankNode(3)),
    ];
    let plan = PlanNode::Sort {
        child: bindings(terms.into_iter().map(|term| vec![term]).collect()),
        by: vec![Comparator::Asc(PlanExpression::Variable(0))],
    };
    assert_eq!(
        tuples(run(&evaluator, &plan)),
        vec![
            vec![None],
            vec![Some(EncodedTerm::BlankNode(3))],
            vec![Some(EncodedTerm::BlankNode(9))],
            vec![Some(a)],
            vec![Some(b)],
            vec![Some(decimal(15, 1))],
            vec![Some(integer(2))],
        ]
    );
    let expression = PlanExpression::Variable(0);
    let compare = |x: Option<EncodedTerm>, y: Option<EncodedTerm>| {
        evaluator.cmp_according_to_expression(&vec![x], &vec![y], &expression)
    };
    assert_eq!(compare(None, None), Comparison::Equal);
    assert_eq!(compare(Some(a), None), Comparison::Greater);
    assert_eq!(compare(None, Some(a)), Comparison::Less);
    assert_eq!(compare(Some(EncodedTerm::BlankNode(1)), Some(a)), Comparison::Less);
    assert_eq!(compare(Some(a), Some(EncodedTerm::BlankNode(1))), Comparison::Greater);
    assert_eq!(compare(Some(a), Some(integer(1))), Comparison::Less);
    assert_eq!(compare(Some(integer(1)), Some(a)), Comparison::Greater);
    assert_eq!(compare(Some(integer(1)), Some(EncodedTerm::BlankNode(1))), Comparison::Greater);
    assert_eq!(compare(Some(b), Some(a)), Comparison::Greater);
    assert_eq!(compare(Some(a), Some(a)), Comparison::Equal);
    assert_eq!(compare(Some(integer(1)), Some(text)), Comparison::Equal);
    assert_eq!(compare(Some(integer(1)), Some(decimal(15, 1))), Comparison::Less);
}

#[test]
fn hash_deduplicate_keeps_the_first_of_equal_tuples() {
    let evaluator = evaluator(GrowingDataset::new());
    let plan = PlanNode::HashDeduplicate {
        child: bindings(vec![
            row(vec![1]),
            row(vec![2]),
            row(vec![1]),
            vec![Some(integer(1)), None],
            row(vec![2]),
            row(vec![3]),
        ]),
    };
    assert_eq!(
        tuples(run(&evaluator, &plan)),
        vec![row(vec![1]), row(vec![2]), vec![Some(integer(1)), None], row(vec![3])]
    );
    let with_errors: Vec<Row> = vec![
        Err(EvaluationError::Store { code: 1 }),
        Ok(row(vec![1])),
        Err(EvaluationError::Store { code: 1 }),
        Ok(row(vec![1])),
    ];
    assert_eq!(
        deduplicate_rows(&with_errors),
        vec![Err(EvaluationError::Store { code: 1 }), Ok(row(vec![1])), Err(EvaluationError::Store { code: 1 })]
    );
}

#[test]
fn skip_and_limit() {
    let evaluator = evaluator(GrowingDataset::new());
    let child = || numbers(vec![0, 1, 2, 3, 4, 5]);
    let skip = PlanNode::Skip { child: child(), count: 2 };
    assert_eq!(tuples(run(&evaluator, &skip)), vec![row(vec![2]), row(vec![3]), row(vec![4]), row(vec![5])]);
    let limit = PlanNode::Limit { child: child(), count: 2 };
    assert_eq!(tuples(run(&evaluator, &limit)), vec![row(vec![0]), row(vec![1])]);
    let window = PlanNode::Limit { child: Box::new(PlanNode::Skip { child: child(), count: 2 }), count: 3 };
    assert_eq!(tuples(run(&evaluator, &window)), vec![row(vec![2]), row(vec![3]), row(vec![4])]);
    let past_the_end = PlanNode::Limit { child: Box::new(PlanNode::Skip { child: child(), count: 4 }), count: 3 };
    assert_eq!(tuples(run(&evaluator, &past_the_end)), vec![row(vec![4]), row(vec![5])]);
    let rows: Vec<Row> = vec![Ok(row(vec![1])), Err(EvaluationError::Store { code: 1 }), Ok(row(vec![2]))];
    assert_eq!(skip_rows(&rows, 0), rows);
    assert_eq!(skip_rows(&rows, 1), vec![Err(EvaluationError::Store { code: 1 }), Ok(row(vec![2]))]);
    assert_eq!(skip_rows(&rows, 3), Vec::<Row>::new());
    assert_eq!(skip_rows(&rows, 9), Vec::<Row>::new());
    assert_eq!(limit_rows(&rows, 0), Vec::<Row>::new());
    assert_eq!(limit_rows(&rows, 2), vec![Ok(row(vec![1])), Err(EvaluationError::Store { code: 1 })]);
    assert_eq!(limit_rows(&rows, 9), rows);
}

#[test]
fn project_builds_rows_from_the_mapping() {
    let evaluator = evaluator(GrowingDataset::new());
    let child = || bindings(vec![row(vec![1, 2, 3]), row(vec![4]), vec![]]);
    let plan = PlanNode::Project { child: child(), mapping: vec![2, 0, 7] };
    let rows = tuples(run(&evaluator, &plan));
    assert_eq!(
        rows,
        vec![
            vec![Some(integer(3)), Some(integer(1)), None],
            vec![None, Some(integer(4)), None],
            vec![None, None, None],
        ]
    );
    assert_eq!(rows.len(), run(&evaluator, &child()).len());
}

#[test]
fn errors_of_the_store_travel_in_the_stream() {
    let mut dataset = GrowingDataset::new();
    dataset.failing_patterns = true;
    let evaluator = evaluator(dataset);
    let failing = || {
        pattern(
            numbers(vec![1, 2]),
            PatternValue::Variable(1),
            PatternValue::Variable(2),
            PatternValue::Variable(3),
            PatternValue::Constant(EncodedTerm::DefaultGraph),
        )
    };
    let error: Row = Err(EvaluationError::Store { code: 7 });
    assert_eq!(run(&evaluator, &failing()), vec![error.clone(), error.clone()]);
    let filtered = filter(failing(), PlanExpression::Constant(boolean(false)));
    assert_eq!(run(&evaluator, &filtered), vec![error.clone(), error.clone()]);
    let extended = extend(failing(), 0, PlanExpression::Constant(integer(1)));
    assert_eq!(run(&evaluator, &extended), vec![error.clone(), error.clone()]);
    let projected = PlanNode::Project { child: failing(), mapping: vec![0] };
    assert_eq!(run(&evaluator, &projected), vec![error.clone(), error.clone()]);
    let deduplicated = PlanNode::HashDeduplicate { child: failing() };
    assert_eq!(run(&evaluator, &deduplicated), vec![error.clone(), error.clone()]);
    let union = PlanNode::Union { entry: failing(), children: vec![PlanNode::Init] };
    assert_eq!(run(&evaluator, &union), vec![error.clone(), error.clone()]);
    let left_join = PlanNode::LeftJoin { left: failing(), right: init(), possible_problem_vars: vec![] };
    assert_eq!(run(&evaluator, &left_join), vec![error.clone(), error.clone()]);
    let mixed = || Box::new(PlanNode::Union { entry: init(), children: vec![*numbers(vec![5]), *failing(), *numbers(vec![4])] });
    let sort = PlanNode::Sort { child: mixed(), by: vec![Comparator::Asc(PlanExpression::Variable(0))] };
    assert_eq!(
        run(&evaluator, &sort),
        vec![error.clone(), error.clone(), Ok(row(vec![4])), Ok(row(vec![5]))]
    );
    let join = PlanNode::Join { left: mixed(), right: numbers(vec![4]) };
    assert_eq!(run(&evaluator, &join), vec![error.clone(), error.clone(), Ok(row(vec![4]))]);
}

#[test]
fn a_plan_with_a_slot_that_no_row_can_have_is_refused() {
    let evaluator = evaluator(GrowingDataset::new());
    let extension = extend(init(), usize::MAX, PlanExpression::Constant(integer(1)));
    assert!(!check_plan(&extension));
    assert!(matches!(evaluator.evaluate_ask_plan(&extension), Err(EvaluationError::InvalidPlan)));
    assert!(matches!(evaluator.evaluate_select_plan(&extension, &vec![]), Err(EvaluationError::InvalidPlan)));
    assert!(matches!(evaluator.evaluate_describe_plan(&extension), Err(EvaluationError::InvalidPlan)));
    assert!(matches!(evaluator.evaluate_construct_plan(&extension, &vec![]), Err(EvaluationError::InvalidPlan)));
    let nested = PlanNode::Union {
        entry: init(),
        children: vec![
            PlanNode::Init,
            *pattern(
                init(),
                PatternValue::Variable(0),
                PatternValue::Variable(usize::MAX),
                PatternValue::Variable(1),
                PatternValue::Variable(2),
            ),
        ],
    };
    assert!(!check_plan(&nested));
    let template = TripleTemplate {
        subject: TripleTemplateValue::BlankNode(usize::MAX),
        predicate: TripleTemplateValue::Variable(0),
        object: TripleTemplateValue::Variable(0),
    };
    assert!(matches!(
        evaluator.evaluate_construct_plan(&PlanNode::Init, &vec![template]),
        Err(EvaluationError::InvalidPlan)
    ));
}

#[test]
fn ask() {
    let evaluator = evaluator(GrowingDataset::new());
    assert!(matches!(evaluator.evaluate_ask_plan(&PlanNode::Init), Ok(QueryResult::Boolean(true))));
    assert!(matches!(evaluator.evaluate_ask_plan(&numbers(vec![])), Ok(QueryResult::Boolean(false))));
    let empty = filter(init(), PlanExpression::Constant(boolean(false)));
    assert!(matches!(evaluator.evaluate_ask_plan(&empty), Ok(QueryResult::Boolean(false))));
    let mut dataset = GrowingDataset::new();
    dataset.failing_patterns = true;
    let failing = SimpleEvaluator::new(dataset, MachineFloats);
    let plan = pattern(
        init(),
        PatternValue::Variable(0),
        PatternValue::Variable(1),
        PatternValue::Variable(2),
        PatternValue::Constant(EncodedTerm::DefaultGraph),
    );
    assert!(matches!(failing.evaluate_ask_plan(&plan), Err(EvaluationError::Store { code: 7 })));
}

fn iri(text: &str) -> Term {
    Term::NamedNode { iri: text.to_string() }
}

#[test]
fn select_decodes_the_rows() {
    let mut dataset = self_join_dataset();
    let a = named_in(&dataset, A);
    let p = named_in(&dataset, P);
    let chat = EncodedTerm::LangStringLiteral { value_id: dataset.id("chat"), language_id: dataset.id("fr") };
    dataset.add(a, p, chat);
    dataset.add(a, p, integer(3));
    dataset.add(a, p, EncodedTerm::BlankNode(5));
    dataset.add(a, p, simple_in(&dataset, "x"));
    dataset.add(a, p, EncodedTerm::StringLiteral { value_id: dataset.id("y") });
    dataset.add(a, p, boolean(true));
    dataset.add(a, p, decimal(15, 1));
    let evaluator = evaluator(dataset);
    let plan = pattern(
        init(),
        PatternValue::Constant(a),
        PatternValue::Constant(p),
        PatternValue::Variable(1),
        PatternValue::Constant(EncodedTerm::DefaultGraph),
    );
    let variables = vec![Variable { name: "s".to_string() }, Variable { name: "o".to_string() }];
    match evaluator.evaluate_select_plan(&plan, &variables) {
        Ok(QueryResult::Bindings(bindings)) => {
            assert_eq!(bindings.variables, variables);
            let typed = |value: &str, datatype: &str| Term::TypedLiteral {
                value: value.to_string(),
                datatype: format!("http://www.w3.org/2001/XMLSchema#{}", datatype),
            };
            assert_eq!(
                bindings.rows,
                vec![
                    Ok(vec![None, Some(Term::LangStringLiteral { value: "chat".to_string(), language: "fr".to_string() })]),
                    Ok(vec![None, Some(typed("3", "integer"))]),
                    Ok(vec![None, Some(Term::BlankNode { id: 5 })]),
                    Ok(vec![None, Some(Term::SimpleLiteral { value: "x".to_string() })]),
                    Ok(vec![None, Some(typed("y", "string"))]),
                    Ok(vec![None, Some(typed("true", "boolean"))]),
                    Ok(vec![None, Some(typed("1.5", "decimal"))]),
                ]
            );
        }
        other => panic!("not bindings: {:?}", other),
    }
}

#[test]
fn select_seeds_the_plan_with_unbound_variables() {
    let evaluator = evaluator(GrowingDataset::new());
    let variables = vec![Variable { name: "a".to_string() }, Variable { name: "b".to_string() }];
    match evaluator.evaluate_select_plan(&PlanNode::Init, &variables) {
        Ok(QueryResult::Bindings(bindings)) => assert_eq!(bindings.rows, vec![Ok(vec![None, None])]),
        other => panic!("not bindings: {:?}", other),
    }
}

#[test]
fn decoding_fails_for_what_is_no_term() {
    let mut dataset = GrowingDataset::new();
    let known = dataset.id("known");
    dataset.failing_id = Some(known);
    let evaluator = evaluator(dataset);
    assert_eq!(evaluator.decode_term(EncodedTerm::DefaultGraph), Err(EvaluationError::NotDecodable));
    assert_eq!(
        evaluator.decode_term(EncodedTerm::NamedNode { iri_id: known }),
        Err(EvaluationError::Store { code: 3 })
    );
    assert_eq!(evaluator.decode_term(decimal(1, 99)), Err(EvaluationError::NotDecodable));
    assert_eq!(evaluator.decode_named_node(EncodedTerm::BlankNode(1)), Err(EvaluationError::NotDecodable));
    assert_eq!(evaluator.decode_named_or_blank_node(integer(1)), Err(EvaluationError::NotDecodable));
    assert_eq!(evaluator.decode_named_or_blank_node(EncodedTerm::BlankNode(1)), Ok(Term::BlankNode { id: 1 }));
    let a = EncodedTerm::NamedNode { iri_id: evaluator.dataset.id(A) };
    assert_eq!(evaluator.decode_triple(integer(1), a, a), Err(EvaluationError::NotDecodable));
    assert_eq!(evaluator.decode_triple(a, EncodedTerm::BlankNode(1), a), Err(EvaluationError::NotDecodable));
    assert_eq!(evaluator.decode_triple(a, a, EncodedTerm::DefaultGraph), Err(EvaluationError::NotDecodable));
    assert_eq!(
        evaluator.decode_triple(a, a, integer(1)),
        Ok(Triple {
            subject: iri(A),
            predicate: iri(A),
            object: Term::TypedLiteral {
                value: "1".to_string(),
                datatype: "http://www.w3.org/2001/XMLSchema#integer".to_string()
            },
        })
    );
    let rows: Vec<Row> = vec![Ok(vec![Some(EncodedTerm::DefaultGraph)]), Err(EvaluationError::Store { code: 9 })];
    let bindings = evaluator.decode_bindings(&rows, &vec![]);
    assert_eq!(bindings.rows, vec![Err(EvaluationError::NotDecodable), Err(EvaluationError::Store { code: 9 })]);
}

#[test]
fn construct_instantiates_the_templates() {
    let dataset = GrowingDataset::new();
    let a = named_in(&dataset, A);
    let b = named_in(&dataset, B);
    let p = named_in(&dataset, P);
    let evaluator = evaluator(dataset);
    let plan = bindings(vec![vec![Some(a)], vec![None], vec![Some(b)]]);
    let templates = vec![
        TripleTemplate {
            subject: TripleTemplateValue::Variable(0),
            predicate: TripleTemplateValue::Constant(p),
            object: TripleTemplateValue::BlankNode(1),
        },
        TripleTemplate {
            subject: TripleTemplateValue::BlankNode(1),
            predicate: TripleTemplateValue::Constant(p),
            object: TripleTemplateValue::BlankNode(0),
        },
    ];
    let triples: Vec<Triple> = match evaluator.evaluate_construct_plan(&plan, &templates) {
        Ok(QueryResult::Graph(triples)) => triples.into_iter().map(|triple| triple.unwrap()).collect(),
        other => panic!("not a graph: {:?}", other),
    };
    assert_eq!(triples.len(), 5);
    assert_eq!(triples[0].predicate, iri(P));
    assert_eq!(triples[1].subject, iri(A));
    assert_eq!(triples[1].object, triples[0].subject);
    assert_ne!(triples[0].subject, triples[0].object);
    assert!(matches!(triples[0].object, Term::BlankNode { .. }));
    assert!(matches!(triples[2].subject, Term::BlankNode { .. }));
    assert_eq!(triples[4].subject, iri(B));
    assert_eq!(triples[4].object, triples[3].subject);
    assert_ne!(triples[3].subject, triples[0].subject);
    assert_ne!(triples[3].subject, triples[2].subject);
    assert_ne!(triples[3].object, triples[0].object);
}

#[test]
fn construct_skips_a_template_with_an_unbound_position_alone() {
    let dataset = GrowingDataset::new();
    let a = named_in(&dataset, A);
    let c = named_in(&dataset, C);
    let p = named_in(&dataset, P);
    let evaluator = evaluator(dataset);
    let plan = bindings(vec![vec![Some(c)]]);
    let templates = vec![
        TripleTemplate {
            subject: TripleTemplateValue::Constant(a),
            predicate: TripleTemplateValue::Constant(p),
            object: TripleTemplateValue::Variable(0),
        },
        TripleTemplate {
            subject: TripleTemplateValue::Constant(a),
            predicate: TripleTemplateValue::Constant(p),
            object: TripleTemplateValue::Variable(1),
        },
    ];
    match evaluator.evaluate_construct_plan(&plan, &templates) {
        Ok(QueryResult::Graph(triples)) => assert_eq!(
            triples,
            vec![Ok(Triple { subject: iri(A), predicate: iri(P), object: iri(C) })]
        ),
        other => panic!("not a graph: {:?}", other),
    }
}

#[test]
fn construct_hands_errors_on() {
    let mut dataset = GrowingDataset::new();
    dataset.failing_patterns = true;
    let evaluator = evaluator(dataset);
    let plan = pattern(
        init(),
        PatternValue::Variable(0),
        PatternValue::Variable(1),
        PatternValue::Variable(2),
        PatternValue::Constant(EncodedTerm::DefaultGraph),
    );
    let template = TripleTemplate {
        subject: TripleTemplateValue::Variable(0),
        predicate: TripleTemplateValue::Variable(1),
        object: TripleTemplateValue::Variable(2),
    };
    match evaluator.evaluate_construct_plan(&plan, &vec![template]) {
        Ok(QueryResult::Graph(triples)) => assert_eq!(triples, vec![Err(EvaluationError::Store { code: 7 })]),
        other => panic!("not a graph: {:?}", other),
    }
    let not_a_predicate = TripleTemplate {
        subject: TripleTemplateValue::Constant(EncodedTerm::BlankNode(1)),
        predicate: TripleTemplateValue::Constant(EncodedTerm::BlankNode(1)),
        object: TripleTemplateValue::Constant(EncodedTerm::BlankNode(1)),
    };
    match evaluator.evaluate_construct_plan(&PlanNode::Init, &vec![not_a_predicate]) {
        Ok(QueryResult::Graph(triples)) => assert_eq!(triples, vec![Err(EvaluationError::NotDecodable)]),
        other => panic!("not a graph: {:?}", other),
    }
}

#[test]
fn template_values() {
    let tuple = vec![None, Some(integer(1))];
    let nodes = vec![10, 11];
    assert_eq!(get_triple_template_value(&TripleTemplateValue::Constant(integer(5)), &tuple, &nodes), Some(integer(5)));
    assert_eq!(get_triple_template_value(&TripleTemplateValue::Variable(1), &tuple, &nodes), Some(integer(1)));
    assert_eq!(get_triple_template_value(&TripleTemplateValue::Variable(0), &tuple, &nodes), None);
    assert_eq!(get_triple_template_value(&TripleTemplateValue::Variable(4), &tuple, &nodes), None);
    assert_eq!(
        get_triple_template_value(&TripleTemplateValue::BlankNode(1), &tuple, &nodes),
        Some(EncodedTerm::BlankNode(11))
    );
    assert_eq!(get_triple_template_value(&TripleTemplateValue::BlankNode(2), &tuple, &nodes), None);
}

#[test]
fn describe_gives_the_triples_of_each_bound_term() {
    let mut dataset = self_join_dataset();
    let (a, b, c) = (named_in(&dataset, A), named_in(&dataset, B), named_in(&dataset, C));
    dataset.quads.push(EncodedQuad { subject: b, predicate: a, object: integer(1), graph_name: c });
    let evaluator = evaluator(dataset);
    let plan = bindings(vec![vec![Some(a), None, Some(b)], vec![Some(c)], vec![Some(b)]]);
    let triples: Vec<Triple> = match evaluator.evaluate_describe_plan(&plan) {
        Ok(QueryResult::Graph(triples)) => triples.into_iter().map(|triple| triple.unwrap()).collect(),
        other => panic!("not a graph: {:?}", other),
    };
    let one = Term::TypedLiteral {
        value: "1".to_string(),
        datatype: "http://www.w3.org/2001/XMLSchema#integer".to_string(),
    };
    assert_eq!(
        triples,
        vec![
            Triple { subject: iri(B), predicate: iri(A), object: one.clone() },
            Triple { subject: iri(A), predicate: iri(A), object: iri(B) },
            Triple { subject: iri(A), predicate: iri(B), object: iri(C) },
            Triple { subject: iri(B), predicate: iri(A), object: one },
        ]
    );
}

#[test]
fn tuple_helpers() {
    let tuple = vec![Some(integer(1)), None, Some(integer(3))];
    assert!(has_tuple_value(0, &tuple));
    assert!(!has_tuple_value(1, &tuple));
    assert!(!has_tuple_value(3, &tuple));
    assert_eq!(get_pattern_value(&PatternValue::Constant(integer(9)), &tuple), Some(integer(9)));
    assert_eq!(get_pattern_value(&PatternValue::Variable(2), &tuple), Some(integer(3)));
    assert_eq!(get_pattern_value(&PatternValue::Variable(1), &tuple), None);
    assert_eq!(bind_variables_in_set(&tuple, &vec![2, 1, 0, 7, 2]), vec![2, 0, 2]);
    let mut unbound = tuple.clone();
    unbind_variables(&mut unbound, &vec![0, 7]);
    assert_eq!(unbound, vec![None, None, Some(integer(3))]);
    let mut written = tuple.clone();
    put_pattern_value(&PatternValue::Constant(integer(9)), integer(8), &mut written);
    assert_eq!(written, tuple);
    put_pattern_value(&PatternValue::Variable(1), integer(8), &mut written);
    assert_eq!(written, vec![Some(integer(1)), Some(integer(8)), Some(integer(3))]);
}

#[test]
fn a_term_that_was_encoded_decodes_to_itself() {
    let evaluator = evaluator(GrowingDataset::new());
    let terms = vec![
        iri(A),
        Term::BlankNode { id: 77 },
        Term::SimpleLiteral { value: "x".to_string() },
        Term::LangStringLiteral { value: "chat".to_string(), language: "fr".to_string() },
        Term::TypedLiteral {
            value: "03".to_string(),
            datatype: "http://www.w3.org/2001/XMLSchema#integer".to_string(),
        },
    ];
    for term in terms {
        let encoded = evaluator.encode_term(&term).unwrap();
        assert_eq!(evaluator.decode_term(encoded), Ok(term));
    }
}

#[test]
fn a_triple_that_was_encoded_decodes_to_itself() {
    let evaluator = evaluator(GrowingDataset::new());
    let objects = vec![
        iri(C),
        Term::BlankNode { id: 5 },
        Term::LangStringLiteral { value: "chat".to_string(), language: "fr".to_string() },
    ];
    for subject in vec![iri(A), Term::BlankNode { id: 77 }] {
        for object in objects.clone() {
            let s = evaluator.encode_term(&subject).unwrap();
            let p = evaluator.encode_term(&iri(P)).unwrap();
            let o = evaluator.encode_term(&object).unwrap();
            assert_eq!(
                evaluator.decode_triple(s, p, o),
                Ok(Triple { subject: subject.clone(), predicate: iri(P), object })
            );
        }
    }
}

#[test]
fn decoding_a_triple_gives_the_first_error() {
    let mut dataset = GrowingDataset::new();
    let lost = dataset.id("lost");
    let a = dataset.id(A);
    dataset.failing_id = Some(lost);
    let evaluator = evaluator(dataset);
    let lost = EncodedTerm::NamedNode { iri_id: lost };
    let a = EncodedTerm::NamedNode { iri_id: a };
    let failed = Err(EvaluationError::Store { code: 3 });
    let refused = Err(EvaluationError::NotDecodable);
    assert_eq!(evaluator.decode_triple(lost, integer(1), EncodedTerm::DefaultGraph), failed);
    assert_eq!(evaluator.decode_triple(integer(1), lost, lost), refused);
    assert_eq!(evaluator.decode_triple(a, lost, EncodedTerm::DefaultGraph), failed);
    assert_eq!(evaluator.decode_triple(EncodedTerm::BlankNode(1), integer(1), lost), refused);
    assert_eq!(evaluator.decode_triple(a, a, lost), failed);
    assert_eq!(evaluator.decode_named_node(lost), Err(EvaluationError::Store { code: 3 }));
    assert_eq!(evaluator.decode_named_or_blank_node(lost), Err(EvaluationError::Store { code: 3 }));
    assert_eq!(evaluator.decode_named_node(a), Ok(iri(A)));
    assert_eq!(evaluator.decode_named_or_blank_node(a), Ok(iri(A)));
}

#[test]
fn a_label_stands_for_one_blank_node_in_an_evaluation() {
    let dataset = GrowingDataset::new();
    let x = simple_in(&dataset, "x");
    let y = simple_in(&dataset, "y");
    let evaluator = evaluator(dataset);
    let node_of = |label: EncodedTerm| PlanExpression::BNode(Some(constant(label)));
    let plan = extend(
        extend(extend(numbers(vec![1, 2]), 1, node_of(x)), 2, node_of(x)),
        3,
        node_of(y),
    );
    let rows = tuples(run(&evaluator, &plan));
    assert_eq!(rows.len(), 2);
    assert!(matches!(rows[0][1], Some(EncodedTerm::BlankNode(_))));
    assert_eq!(rows[0][1], rows[0][2]);
    assert_ne!(rows[0][1], rows[0][3]);
    assert_eq!(rows[0][1], rows[1][1]);
    assert_eq!(rows[0][3], rows[1][3]);
    let again = tuples(run(&evaluator, &plan));
    assert_ne!(again[0][1], rows[0][1]);
    let fresh = extend(numbers(vec![1, 2]), 1, PlanExpression::BNode(None));
    let rows = tuples(run(&evaluator, &fresh));
    assert_ne!(rows[0][1], rows[1][1]);
}

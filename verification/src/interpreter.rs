//! The interpreter of plans: each operator of a plan turns a seed row
//! into a stream of rows.

use vstd::prelude::*;
use crate::dataset::pattern_answer;
use crate::dataset::DatasetView;
use crate::dataset::FloatArithmetic;
use crate::bnodes::BlankNodeMap;
use crate::expression::expression_result;
use crate::joins::append_pattern_rows;
use crate::joins::append_rows;
use crate::joins::concat_all;
use crate::joins::join_rows;
use crate::joins::joined_rows;
use crate::joins::left_join_parts;
use crate::joins::left_joined_rows;
use crate::joins::pattern_rows;
use crate::joins::pattern_value_wf;
use crate::joins::reconcile_rows;
use crate::joins::reconciled_rows;
use crate::plan::Comparator;
use crate::plan::PatternValue;
use crate::plan::PlanExpression;
use crate::plan::PlanNode;
use crate::rows::copy_tuple;
use crate::rows::deduplicate_rows;
use crate::rows::distinct_rows;
use crate::rows::extend_rows;
use crate::rows::extended_rows;
use crate::rows::filter_rows;
use crate::rows::filtered_rows;
use crate::rows::lemma_rows_model_push;
use crate::rows::limit_rows;
use crate::rows::limited_rows;
use crate::rows::project_rows;
use crate::rows::projected_rows;
use crate::rows::skip_rows;
use crate::rows::skipped_rows;
use crate::rows::static_rows;
use crate::rows::tuple_rows;
use crate::rows::RowModel;
use crate::rows::TupleModel;
use crate::sort::directions;
use crate::sort::key_expression;
use crate::sort::keys_model;
use crate::sort::sorted_outcome;
use crate::term::row_model;
use crate::term::rows_model;
use crate::term::EncodedQuad;
use crate::term::EncodedTerm;
use crate::term::EncodedTuple;
use crate::term::EvaluationError;
use crate::term::Row;
use crate::tuple::bind_variables_in_set;
use crate::tuple::bound_variables;
use crate::tuple::get_pattern_value;
use crate::tuple::pattern_value;
use crate::tuple::unbind_variables;
use crate::tuple::without_variables;
use crate::values::SimpleEvaluator;

verus! {

/// Names a value. It holds of every value: the quantifiers over what an
/// operator got from outside are instantiated by it.
pub open spec fn witness<T>(value: T) -> bool {
    true
}

/// Names a stream and the blank nodes of labels after it. It holds of all
/// of them: the quantifiers of `plan_result` are instantiated by it.
pub open spec fn produced(rows: Seq<RowModel>, after: Map<u64, u128>) -> bool {
    true
}

/// A plan can be run: every slot that it writes is one that a row can
/// have.
pub open spec fn plan_wf(node: PlanNode) -> bool
    decreases node,
{
    match node {
        PlanNode::Init => true,
        PlanNode::StaticBindings { .. } => true,
        PlanNode::QuadPatternJoin { child, subject, predicate, object, graph_name } => {
            &&& plan_wf(*child)
            &&& pattern_value_wf(subject)
            &&& pattern_value_wf(predicate)
            &&& pattern_value_wf(object)
            &&& pattern_value_wf(graph_name)
        },
        PlanNode::Join { left, right } => plan_wf(*left) && plan_wf(*right),
        PlanNode::LeftJoin { left, right, .. } => plan_wf(*left) && plan_wf(*right),
        PlanNode::Filter { child, .. } => plan_wf(*child),
        PlanNode::Union { entry, children } => plan_wf(*entry) && forall|j: int|
            0 <= j < children@.len() ==> plan_wf(#[trigger] children@[j]),
        PlanNode::Extend { child, position, .. } => plan_wf(*child) && position < usize::MAX,
        PlanNode::Sort { child, .. } => plan_wf(*child),
        PlanNode::HashDeduplicate { child } => plan_wf(*child),
        PlanNode::Skip { child, .. } => plan_wf(*child),
        PlanNode::Limit { child, .. } => plan_wf(*child),
        PlanNode::Project { child, .. } => plan_wf(*child),
    }
}

/// `values` holds for each tuple of `input` in turn something that
/// `expression` may give on it; the labels of blank nodes that one
/// evaluation leaves are those that the next one finds.
pub open spec fn values_of<S: DatasetView, F: FloatArithmetic>(
    view: &S,
    floats: &F,
    before: Map<u64, u128>,
    expression: PlanExpression,
    input: Seq<RowModel>,
    values: Seq<Option<EncodedTerm>>,
    after: Map<u64, u128>,
) -> bool
    decreases input.len(),
{
    if input.len() == 0 {
        values.len() == 0 && after == before
    } else {
        values.len() == input.len() && exists|middle: Map<u64, u128>| #[trigger]
            witness(middle) && values_of(
                view,
                floats,
                before,
                expression,
                input.drop_last(),
                values.drop_last(),
                middle,
            ) && match input.last() {
                Ok(tuple) => expression_result(
                    view,
                    floats,
                    middle,
                    expression,
                    tuple,
                    values.last(),
                    after,
                ),
                Err(_) => after == middle,
            }
    }
}

/// What `Filter` may give on a stream: the tuples on which the expression
/// gave a value whose effective boolean value is true, and all errors.
pub open spec fn filter_outcome<S: DatasetView, F: FloatArithmetic>(
    view: &S,
    floats: &F,
    before: Map<u64, u128>,
    expression: PlanExpression,
    input: Seq<RowModel>,
    rows: Seq<RowModel>,
    after: Map<u64, u128>,
) -> bool {
    exists|values: Seq<Option<EncodedTerm>>| #[trigger]
        witness(values) && values_of(view, floats, before, expression, input, values, after) && rows
            == filtered_rows(input, values)
}

/// What `Extend` may give on a stream: each tuple with what the
/// expression gave on it in slot `position`; a tuple on which it gave
/// nothing is dropped. Errors stay.
pub open spec fn extend_outcome<S: DatasetView, F: FloatArithmetic>(
    view: &S,
    floats: &F,
    before: Map<u64, u128>,
    position: int,
    expression: PlanExpression,
    input: Seq<RowModel>,
    rows: Seq<RowModel>,
    after: Map<u64, u128>,
) -> bool {
    exists|values: Seq<Option<EncodedTerm>>| #[trigger]
        witness(values) && values_of(view, floats, before, expression, input, values, after) && rows
            == extended_rows(input, position, values)
}

/// `keys` holds for each expression of `by` in turn something that it may
/// give on `tuple`.
pub open spec fn row_keys_of<S: DatasetView, F: FloatArithmetic>(
    view: &S,
    floats: &F,
    before: Map<u64, u128>,
    by: Seq<Comparator>,
    tuple: TupleModel,
    keys: Seq<Option<EncodedTerm>>,
    after: Map<u64, u128>,
) -> bool
    decreases by.len(),
{
    if by.len() == 0 {
        keys.len() == 0 && after == before
    } else {
        keys.len() == by.len() && exists|middle: Map<u64, u128>| #[trigger]
            witness(middle) && row_keys_of(
                view,
                floats,
                before,
                by.drop_last(),
                tuple,
                keys.drop_last(),
                middle,
            ) && expression_result(
                view,
                floats,
                middle,
                key_expression(by.last()),
                tuple,
                keys.last(),
                after,
            )
    }
}

/// `keys` holds for each tuple of `input` in turn its keys: something
/// that each expression of `by` may give on it.
pub open spec fn keys_of<S: DatasetView, F: FloatArithmetic>(
    view: &S,
    floats: &F,
    before: Map<u64, u128>,
    by: Seq<Comparator>,
    input: Seq<RowModel>,
    keys: Seq<Seq<Option<EncodedTerm>>>,
    after: Map<u64, u128>,
) -> bool
    decreases input.len(),
{
    if input.len() == 0 {
        keys.len() == 0 && after == before
    } else {
        keys.len() == input.len() && exists|middle: Map<u64, u128>| #[trigger]
            witness(middle) && keys_of(
                view,
                floats,
                before,
                by,
                input.drop_last(),
                keys.drop_last(),
                middle,
            ) && match input.last() {
                Ok(tuple) => row_keys_of(view, floats, middle, by, tuple, keys.last(), after),
                Err(_) => after == middle,
            }
    }
}

/// What `Sort` may give on a stream: its errors first, then its tuples
/// sorted by what the expressions of `by` gave on them.
pub open spec fn sort_outcome<S: DatasetView, F: FloatArithmetic>(
    view: &S,
    floats: &F,
    before: Map<u64, u128>,
    by: Seq<Comparator>,
    input: Seq<RowModel>,
    rows: Seq<RowModel>,
    after: Map<u64, u128>,
) -> bool {
    exists|keys: Seq<Seq<Option<EncodedTerm>>>| #[trigger]
        witness(keys) && keys_of(view, floats, before, by, input, keys, after) && sorted_outcome(
            view,
            floats,
            directions(by),
            input,
            keys,
            rows,
        )
}

/// `answers` holds for each tuple of `input` an answer of the dataset to
/// the pattern under that tuple.
pub open spec fn answers_of<S: DatasetView>(
    view: &S,
    subject: PatternValue,
    predicate: PatternValue,
    object: PatternValue,
    graph_name: PatternValue,
    input: Seq<RowModel>,
    answers: Seq<Seq<Result<EncodedQuad, EvaluationError>>>,
) -> bool {
    &&& answers.len() == input.len()
    &&& forall|i: int|
        0 <= i < input.len() ==> (#[trigger] input[i] matches Ok(tuple) ==> pattern_answer(
            view,
            pattern_value(subject, tuple),
            pattern_value(predicate, tuple),
            pattern_value(object, tuple),
            pattern_value(graph_name, tuple),
            answers[i],
        ))
}

/// What each row of the input adds under a quad pattern: an error itself,
/// a tuple the rows of its matches.
pub open spec fn pattern_parts(
    subject: PatternValue,
    predicate: PatternValue,
    object: PatternValue,
    graph_name: PatternValue,
    input: Seq<RowModel>,
    answers: Seq<Seq<Result<EncodedQuad, EvaluationError>>>,
) -> Seq<Seq<RowModel>> {
    Seq::new(
        input.len(),
        |i: int|
            match input[i] {
                Ok(tuple) => pattern_rows(subject, predicate, object, graph_name, tuple, answers[i]),
                Err(_) => seq![input[i]],
            },
    )
}

/// What `QuadPatternJoin` may give on a stream: for each tuple in turn,
/// the rows of the quads that the dataset answers to the pattern under
/// that tuple.
pub open spec fn quad_pattern_outcome<S: DatasetView>(
    view: &S,
    subject: PatternValue,
    predicate: PatternValue,
    object: PatternValue,
    graph_name: PatternValue,
    input: Seq<RowModel>,
    rows: Seq<RowModel>,
) -> bool {
    exists|answers: Seq<Seq<Result<EncodedQuad, EvaluationError>>>| #[trigger]
        witness(answers) && answers_of(
            view,
            subject,
            predicate,
            object,
            graph_name,
            input,
            answers,
        ) && rows == concat_all(
            pattern_parts(subject, predicate, object, graph_name, input, answers),
        )
}

/// What each row of the input gives in a union: an error itself, a tuple
/// the streams of the children, one after the other.
pub open spec fn union_parts(input: Seq<RowModel>, results: Seq<Seq<Seq<RowModel>>>) -> Seq<
    Seq<RowModel>,
> {
    Seq::new(
        input.len(),
        |i: int|
            match input[i] {
                Ok(_) => concat_all(results[i]),
                Err(_) => seq![input[i]],
            },
    )
}

/// What running `node` on the seed `seed` may give.
///
/// `before` and `after` are the blank nodes of the labels of the
/// evaluation before and after the operator has run: all operators of one
/// evaluation share them, so a label stands for one blank node in all rows.
///
/// The stream is fixed by the plan, the seed and the dataset, as far as
/// the results of expressions and the answers of the dataset are: see
/// `expression_result` and `DatasetView`.
pub open spec fn plan_result<S: DatasetView, F: FloatArithmetic>(
    view: &S,
    floats: &F,
    before: Map<u64, u128>,
    node: PlanNode,
    seed: TupleModel,
    rows: Seq<RowModel>,
    after: Map<u64, u128>,
) -> bool
    decreases node, 0nat, 0nat,
{
    match node {
        PlanNode::Init => rows == seq![Ok::<TupleModel, EvaluationError>(seed)] && after
            == before,
        PlanNode::StaticBindings { tuples } => rows == tuple_rows(tuples@) && after == before,
        PlanNode::QuadPatternJoin { child, subject, predicate, object, graph_name } => exists|
            input: Seq<RowModel>,
        | #[trigger]
            produced(input, after) && plan_result(view, floats, before, *child, seed, input, after)
                && quad_pattern_outcome(view, subject, predicate, object, graph_name, input, rows),
        PlanNode::Join { left, right } => exists|
            l: Seq<RowModel>,
            middle: Map<u64, u128>,
            r: Seq<RowModel>,
        |
            #![trigger produced(l, middle), produced(r, after)]
            produced(l, middle) && produced(r, after) && plan_result(
                view,
                floats,
                before,
                *left,
                seed,
                l,
                middle,
            ) && plan_result(view, floats, middle, *right, seed, r, after) && rows == joined_rows(l, r),
        PlanNode::LeftJoin { left, right, possible_problem_vars } => {
            let problem_vars = bound_variables(seed, possible_problem_vars@);
            exists|input: Seq<RowModel>, middle: Map<u64, u128>, joined: Seq<RowModel>|
                #![trigger produced(input, middle), produced(joined, after)]
                produced(input, middle) && produced(joined, after) && plan_result(
                    view,
                    floats,
                    before,
                    *left,
                    without_variables(seed, problem_vars),
                    input,
                    middle,
                ) && left_join_outcome(view, floats, middle, *right, input, joined, after) && rows
                    == if problem_vars.len() == 0 {
                    joined
                } else {
                    reconciled_rows(seed, problem_vars, joined)
                }
        },
        PlanNode::Filter { child, expression } => exists|
            input: Seq<RowModel>,
            middle: Map<u64, u128>,
        | #[trigger]
            produced(input, middle) && plan_result(view, floats, before, *child, seed, input, middle)
                && filter_outcome(view, floats, middle, expression, input, rows, after),
        PlanNode::Union { entry, children } => exists|
            input: Seq<RowModel>,
            middle: Map<u64, u128>,
        | #[trigger]
            produced(input, middle) && plan_result(view, floats, before, *entry, seed, input, middle)
                && union_outcome(view, floats, middle, children@, input, rows, after),
        PlanNode::Extend { child, position, expression } => exists|
            input: Seq<RowModel>,
            middle: Map<u64, u128>,
        | #[trigger]
            produced(input, middle) && plan_result(view, floats, before, *child, seed, input, middle)
                && extend_outcome(view, floats, middle, position as int, expression, input, rows, after),
        PlanNode::Sort { child, by } => exists|input: Seq<RowModel>, middle: Map<u64, u128>| #[trigger]
            produced(input, middle) && plan_result(view, floats, before, *child, seed, input, middle)
                && sort_outcome(view, floats, middle, by@, input, rows, after),
        PlanNode::HashDeduplicate { child } => exists|input: Seq<RowModel>| #[trigger]
            produced(input, after) && plan_result(view, floats, before, *child, seed, input, after)
                && rows == distinct_rows(input),
        PlanNode::Skip { child, count } => exists|input: Seq<RowModel>| #[trigger]
            produced(input, after) && plan_result(view, floats, before, *child, seed, input, after)
                && rows == skipped_rows(input, count as int),
        PlanNode::Limit { child, count } => exists|input: Seq<RowModel>| #[trigger]
            produced(input, after) && plan_result(view, floats, before, *child, seed, input, after)
                && rows == limited_rows(input, count as int),
        PlanNode::Project { child, mapping } => exists|input: Seq<RowModel>| #[trigger]
            produced(input, after) && plan_result(view, floats, before, *child, seed, input, after)
                && rows == projected_rows(input, mapping@),
    }
}

/// `rights` holds for each tuple of `input` in turn what the right side
/// of a left join may give with that tuple as its seed.
pub open spec fn rights_of<S: DatasetView, F: FloatArithmetic>(
    view: &S,
    floats: &F,
    before: Map<u64, u128>,
    right: PlanNode,
    input: Seq<RowModel>,
    rights: Seq<Seq<RowModel>>,
    after: Map<u64, u128>,
) -> bool
    decreases right, 1nat, input.len(),
{
    if input.len() == 0 {
        rights.len() == 0 && after == before
    } else {
        rights.len() == input.len() && exists|middle: Map<u64, u128>| #[trigger]
            witness(middle) && rights_of(
                view,
                floats,
                before,
                right,
                input.drop_last(),
                rights.drop_last(),
                middle,
            ) && match input.last() {
                Ok(tuple) => plan_result(view, floats, middle, right, tuple, rights.last(), after),
                Err(_) => after == middle,
            }
    }
}

/// What the left join may give on the stream of its left side: for each
/// tuple in turn what the right side gives with that tuple as its seed,
/// and the tuple itself where the right side gives nothing. Errors stay.
pub open spec fn left_join_outcome<S: DatasetView, F: FloatArithmetic>(
    view: &S,
    floats: &F,
    before: Map<u64, u128>,
    right: PlanNode,
    input: Seq<RowModel>,
    rows: Seq<RowModel>,
    after: Map<u64, u128>,
) -> bool
    decreases right, 2nat, 0nat,
{
    exists|rights: Seq<Seq<RowModel>>| #[trigger]
        witness(rights) && rights_of(view, floats, before, right, input, rights, after) && rows
            == left_joined_rows(input, rights)
}

/// `results` holds for each of the first `upto` children in turn what it
/// may give on the seed.
pub open spec fn children_results<S: DatasetView, F: FloatArithmetic>(
    view: &S,
    floats: &F,
    before: Map<u64, u128>,
    children: Seq<PlanNode>,
    upto: nat,
    seed: TupleModel,
    results: Seq<Seq<RowModel>>,
    after: Map<u64, u128>,
) -> bool
    decreases children, 1nat, upto,
{
    if upto == 0 {
        results.len() == 0 && after == before
    } else {
        upto <= children.len() && results.len() == upto && exists|middle: Map<u64, u128>| #[trigger]
            witness(middle) && children_results(
                view,
                floats,
                before,
                children,
                (upto - 1) as nat,
                seed,
                results.drop_last(),
                middle,
            ) && plan_result(view, floats, middle, children[upto - 1], seed, results.last(), after)
    }
}

/// `results` holds for each tuple of `input` in turn what the children
/// of a union may give with that tuple as their seed.
pub open spec fn union_results_of<S: DatasetView, F: FloatArithmetic>(
    view: &S,
    floats: &F,
    before: Map<u64, u128>,
    children: Seq<PlanNode>,
    input: Seq<RowModel>,
    results: Seq<Seq<Seq<RowModel>>>,
    after: Map<u64, u128>,
) -> bool
    decreases children, 2nat, input.len(),
{
    if input.len() == 0 {
        results.len() == 0 && after == before
    } else {
        results.len() == input.len() && exists|middle: Map<u64, u128>| #[trigger]
            witness(middle) && union_results_of(
                view,
                floats,
                before,
                children,
                input.drop_last(),
                results.drop_last(),
                middle,
            ) && match input.last() {
                Ok(tuple) => children_results(
                    view,
                    floats,
                    middle,
                    children,
                    children.len(),
                    tuple,
                    results.last(),
                    after,
                ),
                Err(_) => after == middle,
            }
    }
}

/// What `Union` may give on the stream of its entry: for each tuple in
/// turn the streams of all children, run with that tuple as their seed,
/// in the order of the children. Errors stay.
pub open spec fn union_outcome<S: DatasetView, F: FloatArithmetic>(
    view: &S,
    floats: &F,
    before: Map<u64, u128>,
    children: Seq<PlanNode>,
    input: Seq<RowModel>,
    rows: Seq<RowModel>,
    after: Map<u64, u128>,
) -> bool
    decreases children, 3nat, 0nat,
{
    exists|results: Seq<Seq<Seq<RowModel>>>| #[trigger]
        witness(results) && union_results_of(view, floats, before, children, input, results, after)
            && rows == concat_all(union_parts(input, results))
}

/// What running `node` on the seed `seed` may give where no label of a
/// blank node was met before.
pub open spec fn plan_rows<S: DatasetView, F: FloatArithmetic>(
    view: &S,
    floats: &F,
    node: PlanNode,
    seed: TupleModel,
    rows: Seq<RowModel>,
) -> bool {
    exists|after: Map<u64, u128>| #[trigger]
        produced(rows, after) && plan_result(
            view,
            floats,
            Map::<u64, u128>::empty(),
            node,
            seed,
            rows,
            after,
        )
}

impl<S: DatasetView, F: FloatArithmetic> SimpleEvaluator<S, F> {
    /// What `expression` gives on each tuple of `input`; for an error,
    /// nothing.
    pub fn eval_on_rows(
        &self,
        expression: &PlanExpression,
        input: &Vec<Row>,
        bnodes: &mut BlankNodeMap,
    ) -> (values: Vec<Option<EncodedTerm>>)
        ensures
            values_of(
                &self.dataset,
                &self.floats,
                old(bnodes)@,
                *expression,
                rows_model(input@),
                values@,
                final(bnodes)@,
            ),
    {
        let ghost all = rows_model(input@);
        let mut values: Vec<Option<EncodedTerm>> = Vec::new();
        let mut i: usize = 0;
        proof {
            assert(all.take(0) =~= Seq::empty());
        }
        while i < input.len()
            invariant
                i <= input.len(),
                all == rows_model(input@),
                values_of(
                    &self.dataset,
                    &self.floats,
                    old(bnodes)@,
                    *expression,
                    all.take(i as int),
                    values@,
                    bnodes@,
                ),
            decreases input.len() - i,
        {
            let ghost middle = bnodes@;
            let ghost before = values@;
            let value = match &input[i] {
                Ok(tuple) => self.eval_expression_with(expression, tuple, bnodes),
                Err(_) => None,
            };
            values.push(value);
            proof {
                assert(all.take(i + 1).drop_last() =~= all.take(i as int));
                assert(all.take(i + 1).last() == row_model(input@[i as int]));
                assert(values@.drop_last() =~= before);
                assert(witness(middle));
            }
            i = i + 1;
        }
        assert(all.take(input.len() as int) =~= all);
        values
    }

    /// `Filter` on a stream.
    pub fn eval_filter(
        &self,
        expression: &PlanExpression,
        input: &Vec<Row>,
        bnodes: &mut BlankNodeMap,
    ) -> (rows: Vec<Row>)
        ensures
            filter_outcome(
                &self.dataset,
                &self.floats,
                old(bnodes)@,
                *expression,
                rows_model(input@),
                rows_model(rows@),
                final(bnodes)@,
            ),
    {
        let values = self.eval_on_rows(expression, input, bnodes);
        proof {
            lemma_values_length(
                &self.dataset,
                &self.floats,
                old(bnodes)@,
                *expression,
                rows_model(input@),
                values@,
                bnodes@,
            );
            assert(witness(values@));
        }
        filter_rows(input, &values)
    }

    /// `Extend` on a stream.
    pub fn eval_extend(
        &self,
        position: usize,
        expression: &PlanExpression,
        input: &Vec<Row>,
        bnodes: &mut BlankNodeMap,
    ) -> (rows: Vec<Row>)
        requires
            position < usize::MAX,
        ensures
            extend_outcome(
                &self.dataset,
                &self.floats,
                old(bnodes)@,
                position as int,
                *expression,
                rows_model(input@),
                rows_model(rows@),
                final(bnodes)@,
            ),
    {
        let values = self.eval_on_rows(expression, input, bnodes);
        proof {
            lemma_values_length(
                &self.dataset,
                &self.floats,
                old(bnodes)@,
                *expression,
                rows_model(input@),
                values@,
                bnodes@,
            );
            assert(witness(values@));
        }
        extend_rows(input, position, &values)
    }

    /// The keys of one tuple for a sort.
    fn eval_keys(&self, by: &Vec<Comparator>, tuple: &EncodedTuple, bnodes: &mut BlankNodeMap) -> (keys:
        EncodedTuple)
        ensures
            keys@.len() == by@.len(),
            row_keys_of(&self.dataset, &self.floats, old(bnodes)@, by@, tuple@, keys@, final(bnodes)@),
    {
        let mut keys: EncodedTuple = Vec::new();
        let mut j: usize = 0;
        proof {
            assert(by@.take(0) =~= Seq::empty());
        }
        while j < by.len()
            invariant
                j <= by.len(),
                keys@.len() == j,
                row_keys_of(
                    &self.dataset,
                    &self.floats,
                    old(bnodes)@,
                    by@.take(j as int),
                    tuple@,
                    keys@,
                    bnodes@,
                ),
            decreases by.len() - j,
        {
            let ghost middle = bnodes@;
            let ghost before = keys@;
            let expression = match &by[j] {
                Comparator::Asc(expression) => expression,
                Comparator::Desc(expression) => expression,
            };
            keys.push(self.eval_expression_with(expression, tuple, bnodes));
            proof {
                assert(by@.take(j + 1).drop_last() =~= by@.take(j as int));
                assert(by@.take(j + 1).last() == by@[j as int]);
                assert(keys@.drop_last() =~= before);
                assert(witness(middle));
            }
            j = j + 1;
        }
        assert(by@.take(by.len() as int) =~= by@);
        keys
    }

    /// `Sort` on a stream.
    pub fn eval_sort(&self, by: &Vec<Comparator>, input: &Vec<Row>, bnodes: &mut BlankNodeMap) -> (rows:
        Vec<Row>)
        ensures
            sort_outcome(
                &self.dataset,
                &self.floats,
                old(bnodes)@,
                by@,
                rows_model(input@),
                rows_model(rows@),
                final(bnodes)@,
            ),
    {
        let ghost all = rows_model(input@);
        let mut keys: Vec<EncodedTuple> = Vec::new();
        let mut i: usize = 0;
        proof {
            assert(all.take(0) =~= Seq::empty());
            assert(keys_model(keys@) =~= Seq::empty());
        }
        while i < input.len()
            invariant
                i <= input.len(),
                all == rows_model(input@),
                keys.len() == i,
                forall|k: int|
                    0 <= k < i && (#[trigger] input@[k]) is Ok ==> keys@[k].len() == by.len(),
                keys_of(
                    &self.dataset,
                    &self.floats,
                    old(bnodes)@,
                    by@,
                    all.take(i as int),
                    keys_model(keys@),
                    bnodes@,
                ),
            decreases input.len() - i,
        {
            let ghost middle = bnodes@;
            let ghost before = keys_model(keys@);
            let row_keys = match &input[i] {
                Ok(tuple) => self.eval_keys(by, tuple, bnodes),
                Err(_) => Vec::new(),
            };
            keys.push(row_keys);
            proof {
                assert(all.take(i + 1).drop_last() =~= all.take(i as int));
                assert(all.take(i + 1).last() == row_model(input@[i as int]));
                assert(keys_model(keys@).drop_last() =~= before);
                assert(keys_model(keys@).last() == keys@[i as int]@);
                assert(witness(middle));
            }
            i = i + 1;
        }
        proof {
            assert(all.take(input.len() as int) =~= all);
            assert(witness(keys_model(keys@)));
        }
        self.sort_rows(input, &keys, by)
    }

    /// `QuadPatternJoin` on a stream.
    pub fn eval_quad_pattern(
        &self,
        subject: &PatternValue,
        predicate: &PatternValue,
        object: &PatternValue,
        graph_name: &PatternValue,
        input: &Vec<Row>,
    ) -> (rows: Vec<Row>)
        requires
            pattern_value_wf(*subject),
            pattern_value_wf(*predicate),
            pattern_value_wf(*object),
            pattern_value_wf(*graph_name),
        ensures
            quad_pattern_outcome(
                &self.dataset,
                *subject,
                *predicate,
                *object,
                *graph_name,
                rows_model(input@),
                rows_model(rows@),
            ),
    {
        let ghost all = rows_model(input@);
        let ghost mut answers: Seq<Seq<Result<EncodedQuad, EvaluationError>>> = Seq::empty();
        let mut out: Vec<Row> = Vec::new();
        let mut i: usize = 0;
        proof {
            assert(pattern_parts(*subject, *predicate, *object, *graph_name, all, answers).take(0)
                =~= Seq::empty());
            assert(rows_model(out@) =~= Seq::empty());
        }
        while i < input.len()
            invariant
                i <= input.len(),
                pattern_value_wf(*subject),
                pattern_value_wf(*predicate),
                pattern_value_wf(*object),
                pattern_value_wf(*graph_name),
                all == rows_model(input@),
                answers.len() == i,
                forall|k: int|
                    0 <= k < i ==> (#[trigger] all[k] matches Ok(tuple) ==> pattern_answer(
                        &self.dataset,
                        pattern_value(*subject, tuple),
                        pattern_value(*predicate, tuple),
                        pattern_value(*object, tuple),
                        pattern_value(*graph_name, tuple),
                        answers[k],
                    )),
                rows_model(out@) == concat_all(
                    pattern_parts(*subject, *predicate, *object, *graph_name, all, answers).take(
                        i as int,
                    ),
                ),
            decreases input.len() - i,
        {
            let ghost before = answers;
            let ghost start = rows_model(out@);
            match &input[i] {
                Ok(tuple) => {
                    let answer = self.dataset.quads_for_pattern(
                        get_pattern_value(subject, tuple),
                        get_pattern_value(predicate, tuple),
                        get_pattern_value(object, tuple),
                        get_pattern_value(graph_name, tuple),
                    );
                    append_pattern_rows(
                        &mut out,
                        subject,
                        predicate,
                        object,
                        graph_name,
                        tuple,
                        &answer,
                    );
                    proof {
                        answers = answers.push(answer@);
                    }
                },
                Err(error) => {
                    let row: Row = Err(*error);
                    proof {
                        lemma_rows_model_push(out@, row);
                        assert(start.push(row_model(row)) =~= start + seq![row_model(row)]);
                        answers = answers.push(Seq::empty());
                    }
                    out.push(row);
                },
            }
            proof {
                let old_parts = pattern_parts(
                    *subject,
                    *predicate,
                    *object,
                    *graph_name,
                    all,
                    before,
                );
                let new_parts = pattern_parts(
                    *subject,
                    *predicate,
                    *object,
                    *graph_name,
                    all,
                    answers,
                );
                assert(new_parts.take(i + 1).drop_last() =~= old_parts.take(i as int));
                assert forall|k: int| 0 <= k < i + 1 implies (#[trigger] all[k] matches Ok(tuple)
                    ==> pattern_answer(
                    &self.dataset,
                    pattern_value(*subject, tuple),
                    pattern_value(*predicate, tuple),
                    pattern_value(*object, tuple),
                    pattern_value(*graph_name, tuple),
                    answers[k],
                )) by {
                    if k < i {
                        assert(answers[k] == before[k]);
                    }
                }
            }
            i = i + 1;
        }
        proof {
            assert(pattern_parts(*subject, *predicate, *object, *graph_name, all, answers).take(
                input.len() as int,
            ) =~= pattern_parts(*subject, *predicate, *object, *graph_name, all, answers));
            assert(witness(answers));
        }
        out
    }

    /// The left join on the stream of its left side.
    fn eval_left_join(&self, right: &PlanNode, input: &Vec<Row>, bnodes: &mut BlankNodeMap) -> (rows:
        Vec<Row>)
        requires
            plan_wf(*right),
        ensures
            left_join_outcome(
                &self.dataset,
                &self.floats,
                old(bnodes)@,
                *right,
                rows_model(input@),
                rows_model(rows@),
                final(bnodes)@,
            ),
        decreases right, 2nat, 0nat,
    {
        let ghost all = rows_model(input@);
        let ghost mut rights: Seq<Seq<RowModel>> = Seq::empty();
        let mut out: Vec<Row> = Vec::new();
        let mut i: usize = 0;
        proof {
            assert(all.take(0) =~= Seq::empty());
            assert(left_join_parts(all, rights).take(0) =~= Seq::empty());
            assert(rows_model(out@) =~= Seq::empty());
        }
        while i < input.len()
            invariant
                i <= input.len(),
                plan_wf(*right),
                all == rows_model(input@),
                rights.len() == i,
                rights_of(
                    &self.dataset,
                    &self.floats,
                    old(bnodes)@,
                    *right,
                    all.take(i as int),
                    rights,
                    bnodes@,
                ),
                rows_model(out@) == concat_all(left_join_parts(all, rights).take(i as int)),
            decreases input.len() - i,
        {
            let ghost before = rights;
            let ghost middle = bnodes@;
            let ghost start = rows_model(out@);
            match &input[i] {
                Ok(tuple) => {
                    let right_rows = self.eval_plan_with(right, tuple, bnodes);
                    if right_rows.len() > 0 {
                        append_rows(&mut out, &right_rows);
                    } else {
                        let row: Row = Ok(copy_tuple(tuple));
                        proof {
                            lemma_rows_model_push(out@, row);
                            assert(start.push(row_model(row)) =~= start + seq![row_model(row)]);
                        }
                        out.push(row);
                    }
                    proof {
                        rights = rights.push(rows_model(right_rows@));
                    }
                },
                Err(error) => {
                    let row: Row = Err(*error);
                    proof {
                        lemma_rows_model_push(out@, row);
                        assert(start.push(row_model(row)) =~= start + seq![row_model(row)]);
                        rights = rights.push(Seq::empty());
                    }
                    out.push(row);
                },
            }
            proof {
                assert(left_join_parts(all, rights).take(i + 1).drop_last() =~= left_join_parts(
                    all,
                    before,
                ).take(i as int));
                assert(all.take(i + 1).drop_last() =~= all.take(i as int));
                assert(all.take(i + 1).last() == row_model(input@[i as int]));
                assert(rights.drop_last() =~= before);
                assert(witness(middle));
            }
            i = i + 1;
        }
        proof {
            assert(all.take(input.len() as int) =~= all);
            assert(left_join_parts(all, rights).take(input.len() as int) =~= left_join_parts(
                all,
                rights,
            ));
            assert(witness(rights));
        }
        out
    }

    /// Appends to `out` the streams of all children on the seed `seed`.
    fn eval_children(
        &self,
        children: &Vec<PlanNode>,
        seed: &EncodedTuple,
        out: &mut Vec<Row>,
        bnodes: &mut BlankNodeMap,
    ) -> (results: Ghost<Seq<Seq<RowModel>>>)
        requires
            forall|j: int| 0 <= j < children@.len() ==> plan_wf(#[trigger] children@[j]),
        ensures
            children_results(
                &self.dataset,
                &self.floats,
                old(bnodes)@,
                children@,
                children@.len(),
                seed@,
                results@,
                final(bnodes)@,
            ),
            rows_model(final(out)@) == rows_model(old(out)@) + concat_all(results@),
        decreases children, 1nat, children@.len() + 1,
    {
        let ghost mut results: Seq<Seq<RowModel>> = Seq::empty();
        let ghost start = rows_model(out@);
        let mut j: usize = 0;
        proof {
            assert(start + concat_all(results) =~= start);
        }
        while j < children.len()
            invariant
                j <= children.len(),
                forall|k: int| 0 <= k < children@.len() ==> plan_wf(#[trigger] children@[k]),
                results.len() == j,
                children_results(
                    &self.dataset,
                    &self.floats,
                    old(bnodes)@,
                    children@,
                    j as nat,
                    seed@,
                    results,
                    bnodes@,
                ),
                rows_model(out@) == start + concat_all(results),
            decreases children.len() - j,
        {
            let ghost middle = bnodes@;
            let rows = self.eval_plan_with(&children[j], seed, bnodes);
            append_rows(out, &rows);
            proof {
                let before = results;
                results = results.push(rows_model(rows@));
                assert(results.drop_last() =~= before);
                assert((start + concat_all(before)) + rows_model(rows@) =~= start + (concat_all(
                    before,
                ) + rows_model(rows@)));
                assert(witness(middle));
            }
            j = j + 1;
        }
        Ghost(results)
    }

    /// `Union` on the stream of its entry.
    fn eval_union(&self, children: &Vec<PlanNode>, input: &Vec<Row>, bnodes: &mut BlankNodeMap) -> (rows:
        Vec<Row>)
        requires
            forall|j: int| 0 <= j < children@.len() ==> plan_wf(#[trigger] children@[j]),
        ensures
            union_outcome(
                &self.dataset,
                &self.floats,
                old(bnodes)@,
                children@,
                rows_model(input@),
                rows_model(rows@),
                final(bnodes)@,
            ),
        decreases children, 3nat, 0nat,
    {
        let ghost all = rows_model(input@);
        let ghost mut results: Seq<Seq<Seq<RowModel>>> = Seq::empty();
        let mut out: Vec<Row> = Vec::new();
        let mut i: usize = 0;
        proof {
            assert(all.take(0) =~= Seq::empty());
            assert(union_parts(all, results).take(0) =~= Seq::empty());
            assert(rows_model(out@) =~= Seq::empty());
        }
        while i < input.len()
            invariant
                i <= input.len(),
                forall|j: int| 0 <= j < children@.len() ==> plan_wf(#[trigger] children@[j]),
                all == rows_model(input@),
                results.len() == i,
                union_results_of(
                    &self.dataset,
                    &self.floats,
                    old(bnodes)@,
                    children@,
                    all.take(i as int),
                    results,
                    bnodes@,
                ),
                rows_model(out@) == concat_all(union_parts(all, results).take(i as int)),
            decreases input.len() - i,
        {
            let ghost before = results;
            let ghost middle = bnodes@;
            let ghost start = rows_model(out@);
            match &input[i] {
                Ok(tuple) => {
                    let part = self.eval_children(children, tuple, &mut out, bnodes);
                    proof {
                        results = results.push(part@);
                    }
                },
                Err(error) => {
                    let row: Row = Err(*error);
                    proof {
                        lemma_rows_model_push(out@, row);
                        assert(start.push(row_model(row)) =~= start + seq![row_model(row)]);
                        results = results.push(Seq::empty());
                    }
                    out.push(row);
                },
            }
            proof {
                assert(union_parts(all, results).take(i + 1).drop_last() =~= union_parts(
                    all,
                    before,
                ).take(i as int));
                assert(all.take(i + 1).drop_last() =~= all.take(i as int));
                assert(all.take(i + 1).last() == row_model(input@[i as int]));
                assert(results.drop_last() =~= before);
                assert(witness(middle));
            }
            i = i + 1;
        }
        proof {
            assert(all.take(input.len() as int) =~= all);
            assert(union_parts(all, results).take(input.len() as int) =~= union_parts(
                all,
                results,
            ));
            assert(witness(results));
        }
        out
    }

    /// Runs `node` on the seed `from` and gives its stream of rows, with
    /// the labels of blank nodes that the evaluation has met so far in
    /// `bnodes`.
    pub fn eval_plan_with(&self, node: &PlanNode, from: &EncodedTuple, bnodes: &mut BlankNodeMap) -> (rows:
        Vec<Row>)
        requires
            plan_wf(*node),
        ensures
            plan_result(
                &self.dataset,
                &self.floats,
                old(bnodes)@,
                *node,
                from@,
                rows_model(rows@),
                final(bnodes)@,
            ),
            produced(rows_model(rows@), final(bnodes)@),
        decreases node, 0nat, 0nat,
    {
        match node {
            PlanNode::Init => {
                let mut rows: Vec<Row> = Vec::new();
                rows.push(Ok(copy_tuple(from)));
                assert(rows_model(rows@) =~= seq![Ok::<TupleModel, EvaluationError>(from@)]);
                rows
            },
            PlanNode::StaticBindings { tuples } => static_rows(tuples),
            PlanNode::QuadPatternJoin { child, subject, predicate, object, graph_name } => {
                let input = self.eval_plan_with(child, from, bnodes);
                self.eval_quad_pattern(subject, predicate, object, graph_name, &input)
            },
            PlanNode::Join { left, right } => {
                let left_rows = self.eval_plan_with(left, from, bnodes);
                let right_rows = self.eval_plan_with(right, from, bnodes);
                join_rows(&left_rows, &right_rows)
            },
            PlanNode::LeftJoin { left, right, possible_problem_vars } => {
                let problem_vars = bind_variables_in_set(from, possible_problem_vars);
                let mut filtered_from = copy_tuple(from);
                unbind_variables(&mut filtered_from, &problem_vars);
                let input = self.eval_plan_with(left, &filtered_from, bnodes);
                let joined = self.eval_left_join(right, &input, bnodes);
                assert(produced(rows_model(joined@), bnodes@));
                if problem_vars.len() == 0 {
                    joined
                } else {
                    reconcile_rows(from, &problem_vars, &joined)
                }
            },
            PlanNode::Filter { child, expression } => {
                let input = self.eval_plan_with(child, from, bnodes);
                self.eval_filter(expression, &input, bnodes)
            },
            PlanNode::Union { entry, children } => {
                let input = self.eval_plan_with(entry, from, bnodes);
                self.eval_union(children, &input, bnodes)
            },
            PlanNode::Extend { child, position, expression } => {
                let input = self.eval_plan_with(child, from, bnodes);
                self.eval_extend(*position, expression, &input, bnodes)
            },
            PlanNode::Sort { child, by } => {
                let input = self.eval_plan_with(child, from, bnodes);
                self.eval_sort(by, &input, bnodes)
            },
            PlanNode::HashDeduplicate { child } => {
                let input = self.eval_plan_with(child, from, bnodes);
                deduplicate_rows(&input)
            },
            PlanNode::Skip { child, count } => {
                let input = self.eval_plan_with(child, from, bnodes);
                skip_rows(&input, *count)
            },
            PlanNode::Limit { child, count } => {
                let input = self.eval_plan_with(child, from, bnodes);
                limit_rows(&input, *count)
            },
            PlanNode::Project { child, mapping } => {
                let input = self.eval_plan_with(child, from, bnodes);
                project_rows(&input, mapping)
            },
        }
    }

    /// Runs `node` on the seed `from` and gives its stream of rows. The
    /// labels of blank nodes hold for this evaluation alone.
    pub fn eval_plan(&self, node: &PlanNode, from: &EncodedTuple) -> (rows: Vec<Row>)
        requires
            plan_wf(*node),
        ensures
            plan_rows(&self.dataset, &self.floats, *node, from@, rows_model(rows@)),
    {
        let mut bnodes = BlankNodeMap::new();
        self.eval_plan_with(node, from, &mut bnodes)
    }
}

/// A value for each row.
pub proof fn lemma_values_length<S: DatasetView, F: FloatArithmetic>(
    view: &S,
    floats: &F,
    before: Map<u64, u128>,
    expression: PlanExpression,
    input: Seq<RowModel>,
    values: Seq<Option<EncodedTerm>>,
    after: Map<u64, u128>,
)
    requires
        values_of(view, floats, before, expression, input, values, after),
    ensures
        values.len() == input.len(),
{
}

} // verus!

//! Laws of the operators: what holds of every stream that a plan may give
//! and of every result that an expression may have.

use vstd::prelude::*;
use crate::dataset::keeps_empty_text;
use crate::dataset::DatasetView;
use crate::dataset::FloatArithmetic;
use crate::decode::decode_outcome;
use crate::decode::encode_outcome;
use crate::decode::triple_decoded;
use crate::join_laws::lemma_join_commutative;
use crate::lexical::lemma_integer_text_roundtrip;
use crate::joins::joined_rows;
use crate::numeric::decimal_parsed;
use crate::numeric::decimal_text;
use crate::rdf::TermModel;
use crate::rdf::TripleModel;
use crate::expression::coalesce_result;
use crate::expression::expression_result;
use crate::functions::and_value;
use crate::functions::or_value;
use crate::functions::exact_cast_of_text;
use crate::functions::unary_applied;
use crate::functions::unary_result;
use crate::functions::UnaryFunction;
use crate::interpreter::children_results;
use crate::interpreter::produced;
use crate::interpreter::union_results_of;
use crate::interpreter::extend_outcome;
use crate::interpreter::filter_outcome;
use crate::interpreter::plan_result;
use crate::interpreter::union_outcome;
use crate::interpreter::union_parts;
use crate::interpreter::values_of;
use crate::interpreter::witness;
use crate::joins::concat_all;
use crate::joins::left_join_part;
use crate::joins::left_join_parts;
use crate::joins::left_joined_rows;
use crate::plan::PlanExpression;
use crate::plan::PlanNode;
use crate::rows::distinct_rows;
use crate::rows::extended_rows;
use crate::rows::filtered_rows;
use crate::rows::lemma_distinct_rows_contains;
use crate::rows::limited_rows;
use crate::rows::projected_rows;
use crate::rows::skipped_rows;
use crate::rows::RowModel;
use crate::rows::TupleModel;
use crate::term::bool_term;
use crate::term::DecimalValue;
use crate::term::EncodedTerm;
use crate::tuple::tuple_value;
use crate::tuple::with_value;
use crate::values::boolean_of;
use crate::values::effective_boolean_value;
use crate::values::string_value_id;
use crate::values::double_term;
use crate::values::single_term;

verus! {

/// Every member of a concatenation is a member of one of its parts.
pub proof fn lemma_concat_all_member<T>(parts: Seq<Seq<T>>, j: int)
    requires
        0 <= j < concat_all(parts).len(),
    ensures
        exists|i: int, k: int|
            0 <= i < parts.len() && 0 <= k < parts[i].len() && concat_all(parts)[j]
                == #[trigger] parts[i][k],
    decreases parts.len(),
{
    if parts.len() > 0 {
        let before = concat_all(parts.drop_last());
        if j < before.len() {
            lemma_concat_all_member(parts.drop_last(), j);
            let (i, k) = choose|i: int, k: int|
                0 <= i < parts.drop_last().len() && 0 <= k < parts.drop_last()[i].len()
                    && before[j] == #[trigger] parts.drop_last()[i][k];
            assert(concat_all(parts)[j] == parts[i][k]);
        } else {
            let i = parts.len() - 1;
            let k = j - before.len();
            assert(concat_all(parts)[j] == parts[i][k]);
        }
    }
}

/// Every row that a filter keeps is a row of its input, and is an error or
/// a tuple whose value has the effective boolean value true.
pub proof fn lemma_filtered_member(
    rows: Seq<RowModel>,
    values: Seq<Option<EncodedTerm>>,
    j: int,
)
    requires
        0 <= j < filtered_rows(rows, values).len(),
    ensures
        exists|i: int|
            0 <= i < rows.len() && filtered_rows(rows, values)[j] == #[trigger] rows[i] && (
            rows[i] is Err || boolean_of(values[i]) == Some(true)),
    decreases rows.len(),
{
    if rows.len() > 0 {
        let before = filtered_rows(rows.drop_last(), values);
        if j < before.len() {
            lemma_filtered_member(rows.drop_last(), values, j);
            let i = choose|i: int|
                0 <= i < rows.drop_last().len() && before[j] == #[trigger] rows.drop_last()[i]
                    && (rows.drop_last()[i] is Err || boolean_of(values[i]) == Some(true));
            assert(rows[i] == rows.drop_last()[i]);
        } else {
            let i = rows.len() - 1;
            assert(filtered_rows(rows, values)[j] == rows[i]);
        }
    }
}

/// `value` is something that `expression` may give on `tuple`, whatever
/// labels of blank nodes the evaluation has met.
pub open spec fn may_give<S: DatasetView, F: FloatArithmetic>(
    view: &S,
    floats: &F,
    expression: PlanExpression,
    tuple: TupleModel,
    value: Option<EncodedTerm>,
) -> bool {
    exists|first: Map<u64, u128>, second: Map<u64, u128>| #[trigger]
        witness((first, second)) && expression_result(
            view,
            floats,
            first,
            expression,
            tuple,
            value,
            second,
        )
}

/// `rows` is a stream that `node` may give on `seed`, whatever labels of
/// blank nodes the evaluation has met.
pub open spec fn may_produce<S: DatasetView, F: FloatArithmetic>(
    view: &S,
    floats: &F,
    node: PlanNode,
    seed: TupleModel,
    rows: Seq<RowModel>,
) -> bool {
    exists|first: Map<u64, u128>, second: Map<u64, u128>| #[trigger]
        witness((first, second)) && plan_result(view, floats, first, node, seed, rows, second)
}

/// The value that goes with a tuple is one that the expression may give
/// on it.
pub proof fn lemma_values_of_row<S: DatasetView, F: FloatArithmetic>(
    view: &S,
    floats: &F,
    before: Map<u64, u128>,
    expression: PlanExpression,
    input: Seq<RowModel>,
    values: Seq<Option<EncodedTerm>>,
    after: Map<u64, u128>,
    i: int,
)
    requires
        values_of(view, floats, before, expression, input, values, after),
        0 <= i < input.len(),
        input[i] is Ok,
    ensures
        values.len() == input.len(),
        may_give(view, floats, expression, input[i]->Ok_0, values[i]),
    decreases input.len(),
{
    let middle = choose|middle: Map<u64, u128>| #[trigger]
        witness(middle) && values_of(
            view,
            floats,
            before,
            expression,
            input.drop_last(),
            values.drop_last(),
            middle,
        ) && match input.last() {
            Ok(tuple) => expression_result(view, floats, middle, expression, tuple, values.last(), after),
            Err(_) => after == middle,
        };
    if i == input.len() - 1 {
        assert(witness((middle, after)));
    } else {
        lemma_values_of_row(
            view,
            floats,
            before,
            expression,
            input.drop_last(),
            values.drop_last(),
            middle,
            i,
        );
    }
}

/// On every tuple that `Filter` emits, its expression may give a value
/// whose effective boolean value is true.
pub proof fn lemma_filter_emits_true_rows<S: DatasetView, F: FloatArithmetic>(
    view: &S,
    floats: &F,
    before: Map<u64, u128>,
    child: Box<PlanNode>,
    expression: PlanExpression,
    seed: TupleModel,
    rows: Seq<RowModel>,
    after: Map<u64, u128>,
    j: int,
)
    requires
        plan_result(view, floats, before, PlanNode::Filter { child, expression }, seed, rows, after),
        0 <= j < rows.len(),
        rows[j] is Ok,
    ensures
        exists|value: Option<EncodedTerm>|
            #[trigger] may_give(view, floats, expression, rows[j]->Ok_0, value) && boolean_of(value)
                == Some(true),
{
    let (input, middle) = choose|input: Seq<RowModel>, middle: Map<u64, u128>| #[trigger]
        produced(input, middle) && plan_result(view, floats, before, *child, seed, input, middle)
            && filter_outcome(view, floats, middle, expression, input, rows, after);
    let values = choose|values: Seq<Option<EncodedTerm>>| #[trigger]
        witness(values) && values_of(view, floats, middle, expression, input, values, after) && rows
            == filtered_rows(input, values);
    lemma_filtered_member(input, values, j);
    let i = choose|i: int|
        0 <= i < input.len() && rows[j] == #[trigger] input[i] && (input[i] is Err || boolean_of(
            values[i],
        ) == Some(true));
    lemma_values_of_row(view, floats, middle, expression, input, values, after, i);
}

/// Every row that an extension gives is an error of its input, or a tuple
/// of its input with the value of the expression in the slot.
pub proof fn lemma_extended_member(
    rows: Seq<RowModel>,
    position: int,
    values: Seq<Option<EncodedTerm>>,
    j: int,
)
    requires
        0 <= j < extended_rows(rows, position, values).len(),
    ensures
        exists|i: int|
            0 <= i < rows.len() && match #[trigger] rows[i] {
                Ok(tuple) => values[i] matches Some(value) && extended_rows(
                    rows,
                    position,
                    values,
                )[j] == Ok::<TupleModel, crate::term::EvaluationError>(
                    with_value(tuple, position, value),
                ),
                Err(_) => extended_rows(rows, position, values)[j] == rows[i],
            },
    decreases rows.len(),
{
    if rows.len() > 0 {
        let before = extended_rows(rows.drop_last(), position, values);
        if j < before.len() {
            lemma_extended_member(rows.drop_last(), position, values, j);
            let i = choose|i: int|
                0 <= i < rows.drop_last().len() && match #[trigger] rows.drop_last()[i] {
                    Ok(tuple) => values[i] matches Some(value) && before[j] == Ok::<
                        TupleModel,
                        crate::term::EvaluationError,
                    >(with_value(tuple, position, value)),
                    Err(_) => before[j] == rows.drop_last()[i],
                };
            assert(rows[i] == rows.drop_last()[i]);
        } else {
            let i = rows.len() - 1;
            assert(rows[i] == rows.last());
        }
    }
}

/// Every tuple that `Extend` emits holds in its slot what the expression
/// may give on the tuple as it came from the child.
pub proof fn lemma_extend_binds_value<S: DatasetView, F: FloatArithmetic>(
    view: &S,
    floats: &F,
    before: Map<u64, u128>,
    child: Box<PlanNode>,
    position: usize,
    expression: PlanExpression,
    seed: TupleModel,
    rows: Seq<RowModel>,
    after: Map<u64, u128>,
    j: int,
)
    requires
        plan_result(
            view,
            floats,
            before,
            PlanNode::Extend { child, position, expression },
            seed,
            rows,
            after,
        ),
        0 <= j < rows.len(),
        rows[j] is Ok,
    ensures
        exists|tuple: TupleModel, value: EncodedTerm|
            #![trigger with_value(tuple, position as int, value)]
            may_give(view, floats, expression, tuple, Some(value)) && rows[j]->Ok_0 == with_value(
                tuple,
                position as int,
                value,
            ) && tuple_value(position as int, rows[j]->Ok_0) == Some(value),
{
    let (input, middle) = choose|input: Seq<RowModel>, middle: Map<u64, u128>| #[trigger]
        produced(input, middle) && plan_result(view, floats, before, *child, seed, input, middle)
            && extend_outcome(view, floats, middle, position as int, expression, input, rows, after);
    let values = choose|values: Seq<Option<EncodedTerm>>| #[trigger]
        witness(values) && values_of(view, floats, middle, expression, input, values, after) && rows
            == extended_rows(input, position as int, values);
    lemma_extended_member(input, position as int, values, j);
    let i = choose|i: int|
        0 <= i < input.len() && match #[trigger] input[i] {
            Ok(tuple) => values[i] matches Some(value) && rows[j] == Ok::<
                TupleModel,
                crate::term::EvaluationError,
            >(with_value(tuple, position as int, value)),
            Err(_) => rows[j] == input[i],
        };
    lemma_values_of_row(view, floats, middle, expression, input, values, after, i);
    let tuple = input[i]->Ok_0;
    let value = values[i]->0;
    assert(may_give(view, floats, expression, tuple, Some(value)));
    assert(rows[j]->Ok_0 == with_value(tuple, position as int, value));
}

/// `Project` emits as many rows as its child.
pub proof fn lemma_project_keeps_row_count<S: DatasetView, F: FloatArithmetic>(
    view: &S,
    floats: &F,
    before: Map<u64, u128>,
    child: Box<PlanNode>,
    mapping: Vec<usize>,
    seed: TupleModel,
    rows: Seq<RowModel>,
    after: Map<u64, u128>,
)
    requires
        plan_result(view, floats, before, PlanNode::Project { child, mapping }, seed, rows, after),
    ensures
        exists|input: Seq<RowModel>| #[trigger]
            produced(input, after) && plan_result(view, floats, before, *child, seed, input, after)
                && rows.len() == input.len(),
{
    let input = choose|input: Seq<RowModel>| #[trigger]
        produced(input, after) && plan_result(view, floats, before, *child, seed, input, after) && rows
            == projected_rows(input, mapping@);
    assert(produced(input, after) && rows.len() == input.len());
}

/// The rows of a stream from place `skip` on, at most `limit` of them.
pub open spec fn window(rows: Seq<RowModel>, skip: nat, limit: nat) -> Seq<RowModel> {
    if skip >= rows.len() {
        Seq::empty()
    } else if skip + limit >= rows.len() {
        rows.subrange(skip as int, rows.len() as int)
    } else {
        rows.subrange(skip as int, (skip + limit) as int)
    }
}

/// To skip `skip` rows and then keep `limit` rows is to take the rows from
/// place `skip` up to place `skip + limit`.
pub proof fn lemma_skip_then_limit(rows: Seq<RowModel>, skip: nat, limit: nat)
    ensures
        limited_rows(skipped_rows(rows, skip as int), limit as int) == window(rows, skip, limit),
{
    assert(limited_rows(skipped_rows(rows, skip as int), limit as int) =~= window(
        rows,
        skip,
        limit,
    ));
}

/// `Limit` over `Skip` emits the rows of the child from place `skip` up
/// to place `skip + limit`.
pub proof fn lemma_skip_limit_window<S: DatasetView, F: FloatArithmetic>(
    view: &S,
    floats: &F,
    before: Map<u64, u128>,
    child: Box<PlanNode>,
    skip: usize,
    limit: usize,
    seed: TupleModel,
    rows: Seq<RowModel>,
    after: Map<u64, u128>,
)
    requires
        plan_result(
            view,
            floats,
            before,
            PlanNode::Limit {
                child: Box::new(PlanNode::Skip { child, count: skip }),
                count: limit,
            },
            seed,
            rows,
            after,
        ),
    ensures
        exists|input: Seq<RowModel>| #[trigger]
            produced(input, after) && plan_result(view, floats, before, *child, seed, input, after)
                && rows == window(input, skip as nat, limit as nat),
{
    reveal_with_fuel(plan_result, 2);
    let skipped = choose|skipped: Seq<RowModel>| #[trigger]
        produced(skipped, after) && plan_result(
            view,
            floats,
            before,
            PlanNode::Skip { child, count: skip },
            seed,
            skipped,
            after,
        ) && rows == limited_rows(skipped, limit as int);
    let input = choose|input: Seq<RowModel>| #[trigger]
        produced(input, after) && plan_result(view, floats, before, *child, seed, input, after)
            && skipped == skipped_rows(input, skip as int);
    lemma_skip_then_limit(input, skip as nat, limit as nat);
    assert(produced(input, after));
}

/// `places` shows `out` to be a subsequence of `rows`: it gives for each
/// row of `out` its place in `rows`, and the places rise.
pub open spec fn subsequence_at(out: Seq<RowModel>, rows: Seq<RowModel>, places: Seq<int>) -> bool {
    &&& places.len() == out.len()
    &&& forall|j: int|
        0 <= j < out.len() ==> 0 <= #[trigger] places[j] < rows.len() && out[j] == rows[places[j]]
    &&& forall|j: int, k: int| 0 <= j < k < places.len() ==> places[j] < places[k]
}

/// The distinct rows of a stream are a subsequence of the stream.
pub proof fn lemma_distinct_rows_subsequence(rows: Seq<RowModel>) -> (places: Seq<int>)
    ensures
        subsequence_at(distinct_rows(rows), rows, places),
    decreases rows.len(),
{
    if rows.len() == 0 {
        Seq::empty()
    } else {
        let before = rows.drop_last();
        let inner = lemma_distinct_rows_subsequence(before);
        let last = rows.last();
        if last is Ok && before.contains(last) {
            assert forall|j: int| 0 <= j < distinct_rows(rows).len() implies 0
                <= #[trigger] inner[j] < rows.len() && distinct_rows(rows)[j] == rows[inner[j]] by {
                assert(before[inner[j]] == rows[inner[j]]);
            }
            inner
        } else {
            let places = inner.push(rows.len() - 1);
            assert forall|j: int| 0 <= j < distinct_rows(rows).len() implies 0
                <= #[trigger] places[j] < rows.len()
                    && distinct_rows(rows)[j] == rows[places[j]] by {
                if j < inner.len() {
                    assert(before[inner[j]] == rows[inner[j]]);
                }
            }
            places
        }
    }
}

/// No tuple occurs twice among the distinct rows of a stream.
pub proof fn lemma_distinct_rows_distinct(rows: Seq<RowModel>, j: int, k: int)
    requires
        0 <= j < k < distinct_rows(rows).len(),
        distinct_rows(rows)[j] is Ok,
    ensures
        distinct_rows(rows)[j] != distinct_rows(rows)[k],
    decreases rows.len(),
{
    if rows.len() > 0 {
        let before = rows.drop_last();
        let last = rows.last();
        if last is Ok && before.contains(last) {
            lemma_distinct_rows_distinct(before, j, k);
        } else if k < distinct_rows(before).len() {
            lemma_distinct_rows_distinct(before, j, k);
        } else {
            lemma_distinct_rows_contains(before, last);
            if distinct_rows(rows)[j] == last {
                assert(distinct_rows(before)[j] == last);
                assert(distinct_rows(before).contains(last));
            }
        }
    }
}

/// `HashDeduplicate` emits a subsequence of the rows of its child in which
/// no tuple occurs twice.
pub proof fn lemma_deduplicate_distinct_subsequence<S: DatasetView, F: FloatArithmetic>(
    view: &S,
    floats: &F,
    before: Map<u64, u128>,
    child: Box<PlanNode>,
    seed: TupleModel,
    rows: Seq<RowModel>,
    after: Map<u64, u128>,
)
    requires
        plan_result(view, floats, before, PlanNode::HashDeduplicate { child }, seed, rows, after),
    ensures
        exists|input: Seq<RowModel>, places: Seq<int>|
            #![trigger produced(input, after), witness(places)]
            produced(input, after) && witness(places) && plan_result(
                view,
                floats,
                before,
                *child,
                seed,
                input,
                after,
            ) && subsequence_at(rows, input, places),
        forall|j: int, k: int|
            0 <= j < k < rows.len() && (#[trigger] rows[j]) is Ok ==> rows[j] != #[trigger] rows[k],
{
    let input = choose|input: Seq<RowModel>| #[trigger]
        produced(input, after) && plan_result(view, floats, before, *child, seed, input, after) && rows
            == distinct_rows(input);
    let places = lemma_distinct_rows_subsequence(input);
    assert(produced(input, after) && witness(places));
    assert forall|j: int, k: int|
        0 <= j < k < rows.len() && (#[trigger] rows[j]) is Ok implies rows[j] != #[trigger] rows[k] by {
        lemma_distinct_rows_distinct(input, j, k);
    }
}

/// A tuple extends another: it binds every slot that the other binds, to
/// the same term.
pub open spec fn extends(tuple: TupleModel, other: TupleModel) -> bool {
    forall|i: int|
        0 <= i < other.len() && (#[trigger] other[i]) is Some ==> tuple_value(i, tuple) == other[i]
}

/// Every row that a left join emits comes from a row of the left side: it
/// is that row, or a row that the right side gave with it as seed.
pub proof fn lemma_left_join_member(left: Seq<RowModel>, rights: Seq<Seq<RowModel>>, j: int)
    requires
        rights.len() == left.len(),
        0 <= j < left_joined_rows(left, rights).len(),
    ensures
        exists|i: int|
            0 <= i < left.len() && (left_joined_rows(left, rights)[j] == #[trigger] left[i] || (
            left[i] is Ok && rights[i].contains(left_joined_rows(left, rights)[j]))),
{
    let parts = left_join_parts(left, rights);
    lemma_concat_all_member(parts, j);
    let (i, k) = choose|i: int, k: int|
        0 <= i < parts.len() && 0 <= k < parts[i].len() && concat_all(parts)[j]
            == #[trigger] parts[i][k];
    assert(parts[i] == left_join_part(left[i], rights[i]));
    if left[i] is Ok && rights[i].len() > 0 {
        assert(rights[i][k] == concat_all(parts)[j]);
    }
}

/// Where every row that the right side gives extends its seed, every
/// tuple that a left join emits extends a tuple of the left side.
pub proof fn lemma_left_join_extends(left: Seq<RowModel>, rights: Seq<Seq<RowModel>>, j: int)
    requires
        rights.len() == left.len(),
        forall|i: int, k: int|
            0 <= i < left.len() && 0 <= k < rights[i].len() && left[i] is Ok && (
            #[trigger] rights[i][k]) is Ok ==> extends(rights[i][k]->Ok_0, left[i]->Ok_0),
        0 <= j < left_joined_rows(left, rights).len(),
        left_joined_rows(left, rights)[j] is Ok,
    ensures
        exists|i: int|
            0 <= i < left.len() && (#[trigger] left[i]) is Ok && extends(
                left_joined_rows(left, rights)[j]->Ok_0,
                left[i]->Ok_0,
            ),
{
    lemma_left_join_member(left, rights, j);
    let row = left_joined_rows(left, rights)[j];
    let i = choose|i: int|
        0 <= i < left.len() && (row == #[trigger] left[i] || (left[i] is Ok && rights[i].contains(
            row,
        )));
    if row == left[i] {
        assert(extends(row->Ok_0, left[i]->Ok_0));
    } else {
        let k = choose|k: int| 0 <= k < rights[i].len() && rights[i][k] == row;
        assert(extends(rights[i][k]->Ok_0, left[i]->Ok_0));
    }
}

/// A row of the left side for which the right side gives nothing is
/// emitted by the left join once, as it is.
pub proof fn lemma_left_join_keeps_unmatched(
    left: Seq<RowModel>,
    rights: Seq<Seq<RowModel>>,
    i: int,
)
    requires
        rights.len() == left.len(),
        0 <= i < left.len(),
        rights[i].len() == 0,
    ensures
        left_join_parts(left, rights)[i] == seq![left[i]],
{
}

/// The stream that goes with a child is one that the child may give on
/// the seed.
pub proof fn lemma_children_results_member<S: DatasetView, F: FloatArithmetic>(
    view: &S,
    floats: &F,
    before: Map<u64, u128>,
    children: Seq<PlanNode>,
    upto: nat,
    seed: TupleModel,
    results: Seq<Seq<RowModel>>,
    after: Map<u64, u128>,
    c: int,
)
    requires
        children_results(view, floats, before, children, upto, seed, results, after),
        0 <= c < upto,
    ensures
        results.len() == upto,
        upto <= children.len(),
        may_produce(view, floats, children[c], seed, results[c]),
    decreases upto,
{
    let middle = choose|middle: Map<u64, u128>| #[trigger]
        witness(middle) && children_results(
            view,
            floats,
            before,
            children,
            (upto - 1) as nat,
            seed,
            results.drop_last(),
            middle,
        ) && plan_result(view, floats, middle, children[upto - 1], seed, results.last(), after);
    if c == upto - 1 {
        assert(witness((middle, after)));
    } else {
        lemma_children_results_member(
            view,
            floats,
            before,
            children,
            (upto - 1) as nat,
            seed,
            results.drop_last(),
            middle,
            c,
        );
    }
}

/// The streams that go with a tuple of the entry are those that the
/// children may give on it.
pub proof fn lemma_union_results_row<S: DatasetView, F: FloatArithmetic>(
    view: &S,
    floats: &F,
    before: Map<u64, u128>,
    children: Seq<PlanNode>,
    input: Seq<RowModel>,
    results: Seq<Seq<Seq<RowModel>>>,
    after: Map<u64, u128>,
    i: int,
    c: int,
)
    requires
        union_results_of(view, floats, before, children, input, results, after),
        0 <= i < input.len(),
        input[i] is Ok,
        0 <= c < children.len(),
    ensures
        results.len() == input.len(),
        results[i].len() == children.len(),
        may_produce(view, floats, children[c], input[i]->Ok_0, results[i][c]),
    decreases input.len(),
{
    let middle = choose|middle: Map<u64, u128>| #[trigger]
        witness(middle) && union_results_of(
            view,
            floats,
            before,
            children,
            input.drop_last(),
            results.drop_last(),
            middle,
        ) && match input.last() {
            Ok(tuple) => children_results(
                view,
                floats,
                middle,
                children,
                children.len(),
                tuple,
                results.last(),
                after,
            ),
            Err(_) => after == middle,
        };
    if i == input.len() - 1 {
        lemma_children_results_member(
            view,
            floats,
            middle,
            children,
            children.len(),
            input[i]->Ok_0,
            results.last(),
            after,
            c,
        );
    } else {
        lemma_union_results_row(
            view,
            floats,
            before,
            children,
            input.drop_last(),
            results.drop_last(),
            middle,
            i,
            c,
        );
    }
}

/// A stream for each tuple of the entry.
proof fn lemma_union_results_length<S: DatasetView, F: FloatArithmetic>(
    view: &S,
    floats: &F,
    before: Map<u64, u128>,
    children: Seq<PlanNode>,
    input: Seq<RowModel>,
    results: Seq<Seq<Seq<RowModel>>>,
    after: Map<u64, u128>,
    i: int,
)
    requires
        union_results_of(view, floats, before, children, input, results, after),
        0 <= i < input.len(),
        input[i] is Ok,
    ensures
        results.len() == input.len(),
        results[i].len() == children.len(),
    decreases input.len(),
{
    let middle = choose|middle: Map<u64, u128>| #[trigger]
        witness(middle) && union_results_of(
            view,
            floats,
            before,
            children,
            input.drop_last(),
            results.drop_last(),
            middle,
        ) && match input.last() {
            Ok(tuple) => children_results(
                view,
                floats,
                middle,
                children,
                children.len(),
                tuple,
                results.last(),
                after,
            ),
            Err(_) => after == middle,
        };
    if i == input.len() - 1 {
        if children.len() > 0 {
            lemma_children_results_member(
                view,
                floats,
                middle,
                children,
                children.len(),
                input[i]->Ok_0,
                results.last(),
                after,
                0,
            );
        }
    } else {
        lemma_union_results_length(
            view,
            floats,
            before,
            children,
            input.drop_last(),
            results.drop_last(),
            middle,
            i,
        );
    }
}

/// Every row that `Union` emits is an error of its entry, or a row that
/// one of its children may give on a tuple of its entry.
pub proof fn lemma_union_member<S: DatasetView, F: FloatArithmetic>(
    view: &S,
    floats: &F,
    before: Map<u64, u128>,
    children: Seq<PlanNode>,
    input: Seq<RowModel>,
    rows: Seq<RowModel>,
    after: Map<u64, u128>,
    j: int,
)
    requires
        union_outcome(view, floats, before, children, input, rows, after),
        0 <= j < rows.len(),
    ensures
        exists|i: int|
            0 <= i < input.len() && match #[trigger] input[i] {
                Ok(tuple) => exists|c: int, result: Seq<RowModel>|
                    #![trigger may_produce(view, floats, children[c], tuple, result)]
                    0 <= c < children.len() && may_produce(view, floats, children[c], tuple, result)
                        && result.contains(rows[j]),
                Err(_) => rows[j] == input[i],
            },
{
    let results = choose|results: Seq<Seq<Seq<RowModel>>>| #[trigger]
        witness(results) && union_results_of(view, floats, before, children, input, results, after)
            && rows == concat_all(union_parts(input, results));
    let parts = union_parts(input, results);
    lemma_concat_all_member(parts, j);
    let (i, k) = choose|i: int, k: int|
        0 <= i < parts.len() && 0 <= k < parts[i].len() && concat_all(parts)[j]
            == #[trigger] parts[i][k];
    match input[i] {
        Ok(tuple) => {
            assert(parts[i] == concat_all(results[i]));
            lemma_concat_all_member(results[i], k);
            let (c, n) = choose|c: int, n: int|
                0 <= c < results[i].len() && 0 <= n < results[i][c].len() && concat_all(
                    results[i],
                )[k] == #[trigger] results[i][c][n];
            lemma_union_results_length(view, floats, before, children, input, results, after, i);
            lemma_union_results_row(view, floats, before, children, input, results, after, i, c);
            assert(results[i][c].contains(rows[j]));
        },
        Err(_) => {
            assert(parts[i] == seq![input[i]]);
        },
    }
}

/// A disjunction whose left side is true is true, whatever the right
/// side is, and if it is an error.
pub proof fn lemma_or_true(left: Option<EncodedTerm>, right: Option<EncodedTerm>)
    requires
        boolean_of(left) == Some(true),
    ensures
        or_value(left, right) == Some(bool_term(true)),
{
}

/// `Or` gives true where its left side gave a value that is true,
/// whatever its right side is.
pub proof fn lemma_or_expression_true<S: DatasetView, F: FloatArithmetic>(
    view: &S,
    floats: &F,
    before: Map<u64, u128>,
    a: Box<PlanExpression>,
    b: Box<PlanExpression>,
    tuple: TupleModel,
    r: Option<EncodedTerm>,
    after: Map<u64, u128>,
)
    requires
        expression_result(view, floats, before, PlanExpression::Or(a, b), tuple, r, after),
        forall|x: Option<EncodedTerm>, middle: Map<u64, u128>|
            expression_result(view, floats, before, *a, tuple, x, middle) ==> boolean_of(x) == Some(true),
    ensures
        r == Some(bool_term(true)),
{
    let (x, middle) = choose|x: Option<EncodedTerm>, middle: Map<u64, u128>| #[trigger]
        crate::expression::evaluated(x, middle) && expression_result(
            view,
            floats,
            before,
            *a,
            tuple,
            x,
            middle,
        ) && if boolean_of(x) == Some(true) {
            r == Some(bool_term(true)) && after == middle
        } else {
            exists|y: Option<EncodedTerm>| #[trigger]
                crate::expression::evaluated(y, after) && expression_result(
                    view,
                    floats,
                    middle,
                    *b,
                    tuple,
                    y,
                    after,
                ) && r == or_value(x, y)
        };
    assert(boolean_of(x) == Some(true));
}

/// A conjunction whose left side is false is false, whatever the right
/// side is, and if it is an error.
pub proof fn lemma_and_false(left: Option<EncodedTerm>, right: Option<EncodedTerm>)
    requires
        boolean_of(left) == Some(false),
    ensures
        and_value(left, right) == Some(bool_term(false)),
{
}

/// `And` gives false where its left side gave a value that is false,
/// whatever its right side is.
pub proof fn lemma_and_expression_false<S: DatasetView, F: FloatArithmetic>(
    view: &S,
    floats: &F,
    before: Map<u64, u128>,
    a: Box<PlanExpression>,
    b: Box<PlanExpression>,
    tuple: TupleModel,
    r: Option<EncodedTerm>,
    after: Map<u64, u128>,
)
    requires
        expression_result(view, floats, before, PlanExpression::And(a, b), tuple, r, after),
        forall|x: Option<EncodedTerm>, middle: Map<u64, u128>|
            expression_result(view, floats, before, *a, tuple, x, middle) ==> boolean_of(x) == Some(false),
    ensures
        r == Some(bool_term(false)),
{
    let (x, middle) = choose|x: Option<EncodedTerm>, middle: Map<u64, u128>| #[trigger]
        crate::expression::evaluated(x, middle) && expression_result(
            view,
            floats,
            before,
            *a,
            tuple,
            x,
            middle,
        ) && if boolean_of(x) == Some(false) {
            r == Some(bool_term(false)) && after == middle
        } else {
            exists|y: Option<EncodedTerm>| #[trigger]
                crate::expression::evaluated(y, after) && expression_result(
                    view,
                    floats,
                    middle,
                    *b,
                    tuple,
                    y,
                    after,
                ) && r == and_value(x, y)
        };
    assert(boolean_of(x) == Some(false));
}

/// `Coalesce` gives the value of its first argument that is defined: if
/// the arguments from `from` up to `place` cannot but be undefined and the
/// argument at `place` cannot but give `value`, the result is `value`.
pub proof fn lemma_coalesce_first_defined<S: DatasetView, F: FloatArithmetic>(
    view: &S,
    floats: &F,
    before: Map<u64, u128>,
    list: Seq<PlanExpression>,
    from: int,
    place: int,
    tuple: TupleModel,
    value: EncodedTerm,
    r: Option<EncodedTerm>,
    after: Map<u64, u128>,
)
    requires
        0 <= from <= place < list.len(),
        coalesce_result(view, floats, before, list, from, tuple, r, after),
        forall|j: int, x: Option<EncodedTerm>, first: Map<u64, u128>, second: Map<u64, u128>|
            from <= j < place
                && #[trigger] expression_result(view, floats, first, list[j], tuple, x, second)
                ==> x is None,
        forall|x: Option<EncodedTerm>, first: Map<u64, u128>, second: Map<u64, u128>| #[trigger]
            expression_result(view, floats, first, list[place], tuple, x, second) ==> x == Some(value),
    ensures
        r == Some(value),
    decreases place - from,
{
    let (x, middle) = choose|x: Option<EncodedTerm>, middle: Map<u64, u128>| #[trigger]
        crate::expression::evaluated(x, middle) && expression_result(
            view,
            floats,
            before,
            list[from],
            tuple,
            x,
            middle,
        ) && if x is Some {
            r == x && after == middle
        } else {
            coalesce_result(view, floats, middle, list, from + 1, tuple, r, after)
        };
    if from < place {
        lemma_coalesce_first_defined(view, floats, middle, list, from + 1, place, tuple, value, r, after);
    }
}

/// `Str` of `IRI` of a simple literal is the literal: the IRI has the
/// literal's text.
pub proof fn lemma_str_iri_roundtrip<S: DatasetView>(
    view: &S,
    value_id: u64,
    iri: Option<EncodedTerm>,
    r: Option<EncodedTerm>,
)
    requires
        unary_result(
            view,
            UnaryFunction::IRI,
            Some(EncodedTerm::SimpleLiteral { value_id }),
            iri,
        ),
        unary_result(view, UnaryFunction::Str, iri, r),
    ensures
        r == Some(EncodedTerm::SimpleLiteral { value_id }),
{
}

/// A term that was encoded decodes to itself.
pub proof fn lemma_decode_encode<S: DatasetView>(
    view: &S,
    term: TermModel,
    encoded: EncodedTerm,
    decoded: TermModel,
)
    requires
        encode_outcome(view, term, Ok(encoded)),
        decode_outcome(view, encoded, Ok(decoded)),
    ensures
        decoded == term,
{
}

/// A triple whose terms were encoded decodes to itself: if it decodes,
/// the triple is that of the three terms, with a named or blank node as
/// subject and a named node as predicate.
pub proof fn lemma_decode_triple_of_encoded<S: DatasetView, F: FloatArithmetic>(
    view: &S,
    floats: &F,
    triple: TripleModel,
    subject: EncodedTerm,
    predicate: EncodedTerm,
    object: EncodedTerm,
    decoded: TripleModel,
)
    requires
        encode_outcome(view, triple.subject, Ok(subject)),
        encode_outcome(view, triple.predicate, Ok(predicate)),
        encode_outcome(view, triple.object, Ok(object)),
        triple_decoded(view, floats, subject, predicate, object, Ok(decoded)),
    ensures
        decoded == triple,
        triple.wf(),
{
}

/// `Join` gives the rows of the nested-loop join of the streams of its two
/// sides, and the join of the same two streams with the sides exchanged
/// has the same rows, each as often.
pub proof fn lemma_join_sides_exchange<S: DatasetView, F: FloatArithmetic>(
    view: &S,
    floats: &F,
    before: Map<u64, u128>,
    left: Box<PlanNode>,
    right: Box<PlanNode>,
    seed: TupleModel,
    rows: Seq<RowModel>,
    after: Map<u64, u128>,
)
    requires
        plan_result(view, floats, before, PlanNode::Join { left, right }, seed, rows, after),
    ensures
        exists|l: Seq<RowModel>, r: Seq<RowModel>|
            #![trigger joined_rows(l, r)]
            may_produce(view, floats, *left, seed, l) && may_produce(view, floats, *right, seed, r) && rows
                == joined_rows(l, r) && joined_rows(r, l).to_multiset() == rows.to_multiset(),
{
    let (l, middle, r) = choose|l: Seq<RowModel>, middle: Map<u64, u128>, r: Seq<RowModel>|
        #![trigger produced(l, middle), produced(r, after)]
        produced(l, middle) && produced(r, after) && plan_result(
            view,
            floats,
            before,
            *left,
            seed,
            l,
            middle,
        ) && plan_result(view, floats, middle, *right, seed, r, after) && rows == joined_rows(l, r);
    lemma_join_commutative(l, r);
    assert(witness((before, middle)));
    assert(witness((middle, after)));
    assert(may_produce(view, floats, *left, seed, l));
    assert(may_produce(view, floats, *right, seed, r));
}

/// An integer that is cast to `xsd:string` and back is the same integer:
/// if both casts give a term, the second gives the integer.
pub proof fn lemma_integer_cast_of_string_cast<S: DatasetView>(
    view: &S,
    value: i128,
    text: Option<EncodedTerm>,
    r: Option<EncodedTerm>,
)
    requires
        unary_result(
            view,
            UnaryFunction::StringCast,
            Some(EncodedTerm::IntegerLiteral(value)),
            text,
        ),
        unary_result(view, UnaryFunction::IntegerCast, text, r),
        r is Some,
    ensures
        r == Some(EncodedTerm::IntegerLiteral(value)),
{
    lemma_integer_text_roundtrip(value);
}

/// A decimal that is cast to `xsd:string` and back: if both casts give a
/// term, the second gives what is read in the text that was written for
/// the decimal, and so the decimal itself wherever that text reads as the
/// decimal.
pub proof fn lemma_decimal_cast_of_string_cast<S: DatasetView>(
    view: &S,
    value: DecimalValue,
    text: Option<EncodedTerm>,
    r: Option<EncodedTerm>,
)
    requires
        unary_result(
            view,
            UnaryFunction::StringCast,
            Some(EncodedTerm::DecimalLiteral(value)),
            text,
        ),
        unary_result(view, UnaryFunction::DecimalCast, text, r),
        r is Some,
    ensures
        r == exact_cast_of_text(UnaryFunction::DecimalCast, decimal_text(value)),
        decimal_parsed(decimal_text(value)) == Some(value) ==> r == Some(
            EncodedTerm::DecimalLiteral(value),
        ),
{
}

/// A `double` that is cast to `xsd:string` and back: if both casts give a
/// term, the second gives the bits that `floats` read in a text that reads
/// as the text that it wrote for the double, and so the double itself
/// wherever `floats` reads in such a text the bits that it wrote it for.
pub proof fn lemma_double_cast_of_string_cast<S: DatasetView, F: FloatArithmetic>(
    view: &S,
    floats: &F,
    bits: u64,
    text: Option<EncodedTerm>,
    r: Option<EncodedTerm>,
)
    requires
        unary_applied(
            view,
            floats,
            UnaryFunction::StringCast,
            Some(EncodedTerm::DoubleLiteral(bits)),
            text,
        ),
        unary_applied(view, floats, UnaryFunction::DoubleCast, text, r),
        r is Some,
    ensures
        exists|written: String, handed: &str, read: Option<u64>|
            #![trigger
                call_ensures(F::double_to_string, (floats, bits), written),
                call_ensures(F::parse_double, (floats, handed), read)
            ]
            call_ensures(F::double_to_string, (floats, bits), written) && call_ensures(
                F::parse_double,
                (floats, handed),
                read,
            ) && handed@ == written@ && r == double_term(read),
        (forall|written: String, handed: &str, read: Option<u64>|
            #![trigger
                call_ensures(F::double_to_string, (floats, bits), written),
                call_ensures(F::parse_double, (floats, handed), read)
            ]
            call_ensures(F::double_to_string, (floats, bits), written) && call_ensures(
                F::parse_double,
                (floats, handed),
                read,
            ) && handed@ == written@ ==> read == Some(bits)) ==> r == Some(
            EncodedTerm::DoubleLiteral(bits),
        ),
{
}

/// A `float` that is cast to `xsd:string` and back: if both casts give a
/// term, the second gives the bits that `floats` read in a text that reads
/// as the text that it wrote for the float, and so the float itself
/// wherever `floats` reads in such a text the bits that it wrote it for.
pub proof fn lemma_float_cast_of_string_cast<S: DatasetView, F: FloatArithmetic>(
    view: &S,
    floats: &F,
    bits: u32,
    text: Option<EncodedTerm>,
    r: Option<EncodedTerm>,
)
    requires
        unary_applied(
            view,
            floats,
            UnaryFunction::StringCast,
            Some(EncodedTerm::FloatLiteral(bits)),
            text,
        ),
        unary_applied(view, floats, UnaryFunction::FloatCast, text, r),
        r is Some,
    ensures
        exists|written: String, handed: &str, read: Option<u32>|
            #![trigger
                call_ensures(F::single_to_string, (floats, bits), written),
                call_ensures(F::parse_single, (floats, handed), read)
            ]
            call_ensures(F::single_to_string, (floats, bits), written) && call_ensures(
                F::parse_single,
                (floats, handed),
                read,
            ) && handed@ == written@ && r == single_term(read),
        (forall|written: String, handed: &str, read: Option<u32>|
            #![trigger
                call_ensures(F::single_to_string, (floats, bits), written),
                call_ensures(F::parse_single, (floats, handed), read)
            ]
            call_ensures(F::single_to_string, (floats, bits), written) && call_ensures(
                F::parse_single,
                (floats, handed),
                read,
            ) && handed@ == written@ ==> read == Some(bits)) ==> r == Some(
            EncodedTerm::FloatLiteral(bits),
        ),
{
}

/// Where the dictionary keeps the empty text under its own id alone, the
/// effective boolean value of a simple or `xsd:string` literal is whether
/// its text is not empty.
pub proof fn lemma_boolean_value_of_text<S: DatasetView>(
    view: &S,
    term: EncodedTerm,
    id: u64,
    text: Seq<char>,
)
    requires
        keeps_empty_text(view),
        string_value_id(term) == Some(id),
        view.text(id) == Some(text),
    ensures
        effective_boolean_value(term) == Some(text.len() > 0),
{
    if text.len() == 0 {
        assert(text =~= Seq::<char>::empty());
    }
}

} // verus!

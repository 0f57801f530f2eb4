//! The join machinery: the nested-loop join, the parts of the left join
//! and its correction, and the rows that a quad pattern adds.

use vstd::prelude::*;
use crate::plan::PatternValue;
use crate::rows::copy_row;
use crate::rows::copy_tuple;
use crate::rows::lemma_rows_model_push;
use crate::rows::RowModel;
use crate::rows::TupleModel;
use crate::term::row_model;
use crate::term::rows_model;
use crate::term::EncodedQuad;
use crate::term::EncodedTerm;
use crate::term::EncodedTuple;
use crate::term::EvaluationError;
use crate::term::Row;
use crate::tuple::combine_tuples;
use crate::tuple::compatible;
use crate::tuple::get_tuple_value;
use crate::tuple::merged;
use crate::tuple::put_pattern_value;
use crate::tuple::put_value;
use crate::tuple::tuple_value;
use crate::tuple::with_pattern_value;
use crate::tuple::with_value;

verus! {

/// The parts of a stream put one after the other.
pub open spec fn concat_all<T>(parts: Seq<Seq<T>>) -> Seq<T>
    decreases parts.len(),
{
    if parts.len() == 0 {
        Seq::empty()
    } else {
        concat_all(parts.drop_last()) + parts.last()
    }
}

/// Appends copies of the rows of `part` to `out`.
pub fn append_rows(out: &mut Vec<Row>, part: &Vec<Row>)
    ensures
        rows_model(final(out)@) == rows_model(old(out)@) + rows_model(part@),
{
    let mut i: usize = 0;
    assert(rows_model(out@) =~= rows_model(old(out)@) + rows_model(part@).take(0));
    while i < part.len()
        invariant
            i <= part.len(),
            rows_model(out@) == rows_model(old(out)@) + rows_model(part@).take(i as int),
        decreases part.len() - i,
    {
        let row = copy_row(&part[i]);
        proof {
            lemma_rows_model_push(out@, row);
            assert(rows_model(part@).take(i + 1) =~= rows_model(part@).take(i as int).push(
                row_model(part@[i as int]),
            ));
            assert((rows_model(old(out)@) + rows_model(part@).take(i as int)).push(
                row_model(row),
            ) =~= rows_model(old(out)@) + rows_model(part@).take(i + 1));
        }
        out.push(row);
        i = i + 1;
    }
    assert(rows_model(part@).take(part.len() as int) =~= rows_model(part@));
}

/// The errors of a stream, from the last to the first.
pub open spec fn errors_from_last(rows: Seq<RowModel>) -> Seq<RowModel>
    decreases rows.len(),
{
    if rows.len() == 0 {
        Seq::empty()
    } else if rows.last() is Err {
        seq![rows.last()] + errors_from_last(rows.drop_last())
    } else {
        errors_from_last(rows.drop_last())
    }
}

/// The merges of `right` with each tuple among `left` that agrees with
/// it, from the last row of `left` to the first. Errors among `left` are
/// passed over.
pub open spec fn matches_from_last(left: Seq<RowModel>, right: TupleModel) -> Seq<RowModel>
    decreases left.len(),
{
    if left.len() == 0 {
        Seq::empty()
    } else {
        match left.last() {
            Ok(tuple) => if compatible(tuple, right) {
                seq![Ok(merged(tuple, right))] + matches_from_last(left.drop_last(), right)
            } else {
                matches_from_last(left.drop_last(), right)
            },
            Err(_) => matches_from_last(left.drop_last(), right),
        }
    }
}

/// What a row of the right side adds to a join: an error itself, a tuple
/// its merges with the left side.
pub open spec fn join_part(left: Seq<RowModel>, right: RowModel) -> Seq<RowModel> {
    match right {
        Ok(tuple) => matches_from_last(left, tuple),
        Err(_) => seq![right],
    }
}

/// The parts that the rows of the right side add to a join.
pub open spec fn join_parts(left: Seq<RowModel>, right: Seq<RowModel>) -> Seq<Seq<RowModel>> {
    Seq::new(right.len(), |i: int| join_part(left, right[i]))
}

/// The nested-loop join of two streams: first the errors of the left side,
/// then for each row of the right side in turn what it adds.
pub open spec fn joined_rows(left: Seq<RowModel>, right: Seq<RowModel>) -> Seq<RowModel> {
    errors_from_last(left) + concat_all(join_parts(left, right))
}

/// Joins two streams.
pub fn join_rows(left: &Vec<Row>, right: &Vec<Row>) -> (out: Vec<Row>)
    ensures
        rows_model(out@) == joined_rows(rows_model(left@), rows_model(right@)),
{
    let ghost l = rows_model(left@);
    let ghost r = rows_model(right@);
    let mut out: Vec<Row> = Vec::new();
    let mut k: usize = left.len();
    assert(l.take(left.len() as int) =~= l);
    assert(rows_model(out@) =~= Seq::empty());
    while k > 0
        invariant
            k <= left.len(),
            l == rows_model(left@),
            rows_model(out@) + errors_from_last(l.take(k as int)) == errors_from_last(l),
        decreases k,
    {
        k = k - 1;
        proof {
            assert(l.take(k + 1).drop_last() =~= l.take(k as int));
            assert(l.take(k + 1).last() == row_model(left@[k as int]));
        }
        match &left[k] {
            Err(error) => {
                let row: Row = Err(*error);
                proof {
                    lemma_rows_model_push(out@, row);
                    assert(rows_model(out@).push(row_model(row)) + errors_from_last(
                        l.take(k as int),
                    ) =~= rows_model(out@) + (seq![row_model(row)] + errors_from_last(
                        l.take(k as int),
                    )));
                }
                out.push(row);
            },
            Ok(_) => {},
        }
    }
    proof {
        assert(l.take(0) =~= Seq::empty());
        assert(rows_model(out@) =~= errors_from_last(l));
        assert(join_parts(l, r).take(0) =~= Seq::empty());
        assert(rows_model(out@) =~= errors_from_last(l) + concat_all(join_parts(l, r).take(0)));
    }
    let mut i: usize = 0;
    while i < right.len()
        invariant
            i <= right.len(),
            l == rows_model(left@),
            r == rows_model(right@),
            rows_model(out@) == errors_from_last(l) + concat_all(join_parts(l, r).take(i as int)),
        decreases right.len() - i,
    {
        let ghost start = rows_model(out@);
        proof {
            assert(join_parts(l, r).take(i + 1).drop_last() =~= join_parts(l, r).take(i as int));
            assert(join_parts(l, r).take(i + 1).last() == join_part(l, r[i as int]));
        }
        match &right[i] {
            Err(error) => {
                let row: Row = Err(*error);
                proof {
                    lemma_rows_model_push(out@, row);
                    assert(start.push(row_model(row)) =~= errors_from_last(l) + (concat_all(
                        join_parts(l, r).take(i as int),
                    ) + seq![row_model(row)]));
                }
                out.push(row);
            },
            Ok(right_tuple) => {
                let mut k: usize = left.len();
                proof {
                    assert(l.take(left.len() as int) =~= l);
                    assert(start + Seq::<RowModel>::empty() =~= start);
                }
                while k > 0
                    invariant
                        k <= left.len(),
                        l == rows_model(left@),
                        exists|done: Seq<RowModel>|
                            #![trigger start + done]
                            rows_model(out@) == start + done && done + matches_from_last(
                                l.take(k as int),
                                right_tuple@,
                            ) == matches_from_last(l, right_tuple@),
                    decreases k,
                {
                    k = k - 1;
                    let ghost done = choose|done: Seq<RowModel>|
                        #![trigger start + done]
                        rows_model(out@) == start + done && done + matches_from_last(
                            l.take(k + 1),
                            right_tuple@,
                        ) == matches_from_last(l, right_tuple@);
                    proof {
                        assert(l.take(k + 1).drop_last() =~= l.take(k as int));
                        assert(l.take(k + 1).last() == row_model(left@[k as int]));
                    }
                    match &left[k] {
                        Ok(left_tuple) => {
                            match combine_tuples(left_tuple, right_tuple) {
                                Some(tuple) => {
                                    let row: Row = Ok(tuple);
                                    proof {
                                        lemma_rows_model_push(out@, row);
                                        let more = done.push(row_model(row));
                                        assert(rows_model(out@).push(row_model(row)) =~= start
                                            + more);
                                        assert(more + matches_from_last(
                                            l.take(k as int),
                                            right_tuple@,
                                        ) =~= done + (seq![row_model(row)] + matches_from_last(
                                            l.take(k as int),
                                            right_tuple@,
                                        )));
                                    }
                                    out.push(row);
                                },
                                None => {},
                            }
                        },
                        Err(_) => {},
                    }
                }
                proof {
                    assert(l.take(0) =~= Seq::empty());
                    let done = choose|done: Seq<RowModel>|
                        #![trigger start + done]
                        rows_model(out@) == start + done && done + matches_from_last(
                            l.take(0),
                            right_tuple@,
                        ) == matches_from_last(l, right_tuple@);
                    assert(done =~= matches_from_last(l, right_tuple@));
                    assert(start + done =~= errors_from_last(l) + (concat_all(
                        join_parts(l, r).take(i as int),
                    ) + done));
                }
            },
        }
        i = i + 1;
    }
    assert(join_parts(l, r).take(right.len() as int) =~= join_parts(l, r));
    out
}

/// What a row of the left side gives in a left join, where `right` is what
/// the right side gave with that row as its seed: an error itself; a tuple
/// the rows of `right` if there are any, and itself if there are none.
pub open spec fn left_join_part(left: RowModel, right: Seq<RowModel>) -> Seq<RowModel> {
    match left {
        Ok(_) => if right.len() > 0 {
            right
        } else {
            seq![left]
        },
        Err(_) => seq![left],
    }
}

/// The parts that the rows of the left side give in a left join.
pub open spec fn left_join_parts(left: Seq<RowModel>, rights: Seq<Seq<RowModel>>) -> Seq<
    Seq<RowModel>,
> {
    Seq::new(left.len(), |i: int| left_join_part(left[i], rights[i]))
}

/// The left join of a stream with what the right side gave for each of
/// its rows.
pub open spec fn left_joined_rows(left: Seq<RowModel>, rights: Seq<Seq<RowModel>>) -> Seq<
    RowModel,
> {
    concat_all(left_join_parts(left, rights))
}

/// A row binds a variable otherwise than the seed does: one of
/// `variables` is bound in both, to different terms.
pub open spec fn conflicting(input: TupleModel, variables: Seq<usize>, tuple: TupleModel) -> bool {
    exists|k: int|
        0 <= k < variables.len() && tuple_value(#[trigger] variables[k] as int, input) is Some
            && tuple_value(variables[k] as int, tuple) is Some && tuple_value(
            variables[k] as int,
            tuple,
        ) != tuple_value(variables[k] as int, input)
}

/// A row with the seed's bindings put back: each of `variables` that the
/// seed binds and the row does not gets the seed's term, in the order of
/// `variables`.
pub open spec fn restored(input: TupleModel, variables: Seq<usize>, tuple: TupleModel) -> TupleModel
    decreases variables.len(),
{
    if variables.len() == 0 {
        tuple
    } else {
        let before = restored(input, variables.drop_last(), tuple);
        let variable = variables.last() as int;
        match tuple_value(variable, input) {
            Some(term) => if tuple_value(variable, before) is None {
                with_value(before, variable, term)
            } else {
                before
            },
            None => before,
        }
    }
}

/// A row of the left join over the seed without its problem variables,
/// held against the seed: dropped if it conflicts with the seed, else
/// with the seed's bindings put back. An error stays.
pub open spec fn reconciled_row(input: TupleModel, variables: Seq<usize>, row: RowModel) -> Option<
    RowModel,
> {
    match row {
        Ok(tuple) => if conflicting(input, variables, tuple) {
            None
        } else {
            Some(Ok(restored(input, variables, tuple)))
        },
        Err(_) => Some(row),
    }
}

/// A stream reconciled row by row.
pub open spec fn reconciled_rows(input: TupleModel, variables: Seq<usize>, rows: Seq<RowModel>) -> Seq<
    RowModel,
>
    decreases rows.len(),
{
    if rows.len() == 0 {
        Seq::empty()
    } else {
        match reconciled_row(input, variables, rows.last()) {
            Some(row) => reconciled_rows(input, variables, rows.drop_last()).push(row),
            None => reconciled_rows(input, variables, rows.drop_last()),
        }
    }
}

/// What restoring leaves in a slot: the row's own term if it has one,
/// else the seed's if the variable is among those restored.
proof fn lemma_restored_value(input: TupleModel, variables: Seq<usize>, tuple: TupleModel, i: int)
    ensures
        tuple_value(i, tuple) is Some ==> tuple_value(i, restored(input, variables, tuple))
            == tuple_value(i, tuple),
        tuple_value(i, tuple) is None ==> tuple_value(i, restored(input, variables, tuple))
            is None || tuple_value(i, restored(input, variables, tuple)) == tuple_value(i, input),
    decreases variables.len(),
{
    if variables.len() > 0 {
        lemma_restored_value(input, variables.drop_last(), tuple, i);
    }
}

/// Reconciles one tuple with the seed.
pub fn reconcile_tuple(input: &EncodedTuple, variables: &Vec<usize>, tuple: &EncodedTuple) -> (out:
    Option<EncodedTuple>)
    ensures
        reconciled_row(input@, variables@, Ok(tuple@)) == match out {
            Some(t) => Some(Ok::<TupleModel, EvaluationError>(t@)),
            None => None,
        },
{
    let mut result = copy_tuple(tuple);
    let mut k: usize = 0;
    assert(variables@.take(0) =~= Seq::empty());
    while k < variables.len()
        invariant
            k <= variables.len(),
            result@ == restored(input@, variables@.take(k as int), tuple@),
            !conflicting(input@, variables@.take(k as int), tuple@),
        decreases variables.len() - k,
    {
        let variable = variables[k];
        let ghost before = variables@.take(k as int);
        let ghost next = variables@.take(k + 1);
        proof {
            assert(next.drop_last() =~= before);
            assert(next.last() == variable);
            lemma_restored_value(input@, before, tuple@, variable as int);
        }
        match get_tuple_value(variable, input) {
            Some(input_value) => {
                match get_tuple_value(variable, &result) {
                    Some(result_value) => {
                        if input_value != result_value {
                            proof {
                                assert(variables@[k as int] == variable);
                                assert(conflicting(input@, variables@, tuple@));
                            }
                            return None;
                        }
                    },
                    None => {
                        assert(variable < input.len());
                        put_value(variable, input_value, &mut result);
                    },
                }
            },
            None => {},
        }
        proof {
            assert forall|j: int|
                0 <= j < next.len() && tuple_value(#[trigger] next[j] as int, input@) is Some
                    && tuple_value(next[j] as int, tuple@) is Some implies tuple_value(
                next[j] as int,
                tuple@,
            ) == tuple_value(next[j] as int, input@) by {
                if j < k {
                    assert(before[j] == next[j]);
                }
            }
        }
        k = k + 1;
    }
    assert(variables@.take(variables.len() as int) =~= variables@);
    Some(result)
}

/// Reconciles every row of a stream with the seed.
pub fn reconcile_rows(input: &EncodedTuple, variables: &Vec<usize>, rows: &Vec<Row>) -> (out: Vec<
    Row,
>)
    ensures
        rows_model(out@) == reconciled_rows(input@, variables@, rows_model(rows@)),
{
    let mut out: Vec<Row> = Vec::new();
    let mut i: usize = 0;
    let ghost all = rows_model(rows@);
    assert(all.take(0) =~= Seq::empty());
    assert(rows_model(out@) =~= Seq::empty());
    while i < rows.len()
        invariant
            i <= rows.len(),
            all == rows_model(rows@),
            rows_model(out@) == reconciled_rows(input@, variables@, all.take(i as int)),
        decreases rows.len() - i,
    {
        proof {
            assert(all.take(i + 1).drop_last() =~= all.take(i as int));
            assert(all.take(i + 1).last() == row_model(rows@[i as int]));
        }
        match &rows[i] {
            Ok(tuple) => {
                match reconcile_tuple(input, variables, tuple) {
                    Some(t) => {
                        let row: Row = Ok(t);
                        proof {
                            lemma_rows_model_push(out@, row);
                        }
                        out.push(row);
                    },
                    None => {},
                }
            },
            Err(error) => {
                let row: Row = Err(*error);
                proof {
                    lemma_rows_model_push(out@, row);
                }
                out.push(row);
            },
        }
        i = i + 1;
    }
    assert(all.take(rows.len() as int) =~= all);
    out
}

/// Whether a quad passes the filters of a pattern in which one variable
/// stands at several positions: the quad must have the same term at those
/// positions. A variable at the graph position does not range over the
/// default graph.
pub open spec fn quad_kept(
    subject: PatternValue,
    predicate: PatternValue,
    object: PatternValue,
    graph_name: PatternValue,
    quad: EncodedQuad,
) -> bool {
    &&& subject.is_var() && subject == predicate ==> quad.subject == quad.predicate
    &&& subject.is_var() && subject == object ==> quad.subject == quad.object
    &&& predicate.is_var() && predicate == object ==> quad.predicate == quad.object
    &&& graph_name.is_var() ==> {
        &&& quad.graph_name != EncodedTerm::DefaultGraph
        &&& graph_name == subject ==> quad.graph_name == quad.subject
        &&& graph_name == predicate ==> quad.graph_name == quad.predicate
        &&& graph_name == object ==> quad.graph_name == quad.object
    }
}

/// The row of a match: the tuple with the quad's terms written to the
/// variables of the pattern.
pub open spec fn quad_tuple(
    subject: PatternValue,
    predicate: PatternValue,
    object: PatternValue,
    graph_name: PatternValue,
    tuple: TupleModel,
    quad: EncodedQuad,
) -> TupleModel {
    with_pattern_value(
        graph_name,
        quad.graph_name,
        with_pattern_value(
            object,
            quad.object,
            with_pattern_value(
                predicate,
                quad.predicate,
                with_pattern_value(subject, quad.subject, tuple),
            ),
        ),
    )
}

/// The rows that the answer to a pattern adds for one tuple: an error of
/// the answer itself, and for each quad that is kept its row.
pub open spec fn pattern_rows(
    subject: PatternValue,
    predicate: PatternValue,
    object: PatternValue,
    graph_name: PatternValue,
    tuple: TupleModel,
    answer: Seq<Result<EncodedQuad, EvaluationError>>,
) -> Seq<RowModel>
    decreases answer.len(),
{
    if answer.len() == 0 {
        Seq::empty()
    } else {
        let before = pattern_rows(subject, predicate, object, graph_name, tuple, answer.drop_last());
        match answer.last() {
            Ok(quad) => if quad_kept(subject, predicate, object, graph_name, quad) {
                before.push(Ok(quad_tuple(subject, predicate, object, graph_name, tuple, quad)))
            } else {
                before
            },
            Err(error) => before.push(Err(error)),
        }
    }
}

/// A pattern position is usable: its variable, if it has one, is a slot
/// that a row can have.
pub open spec fn pattern_value_wf(selector: PatternValue) -> bool {
    selector matches PatternValue::Variable(v) ==> v < usize::MAX
}

/// Tests the filters of a pattern on a quad.
pub fn keep_quad(
    subject: &PatternValue,
    predicate: &PatternValue,
    object: &PatternValue,
    graph_name: &PatternValue,
    quad: &EncodedQuad,
) -> (kept: bool)
    ensures
        kept == quad_kept(*subject, *predicate, *object, *graph_name, *quad),
{
    if subject.is_var() && *subject == *predicate && quad.subject != quad.predicate {
        return false;
    }
    if subject.is_var() && *subject == *object && quad.subject != quad.object {
        return false;
    }
    if predicate.is_var() && *predicate == *object && quad.predicate != quad.object {
        return false;
    }
    if graph_name.is_var() {
        if quad.graph_name == EncodedTerm::DefaultGraph {
            return false;
        }
        if *graph_name == *subject && quad.graph_name != quad.subject {
            return false;
        }
        if *graph_name == *predicate && quad.graph_name != quad.predicate {
            return false;
        }
        if *graph_name == *object && quad.graph_name != quad.object {
            return false;
        }
    }
    true
}

/// Appends to `out` the rows that the answer to a pattern adds for
/// `tuple`.
pub fn append_pattern_rows(
    out: &mut Vec<Row>,
    subject: &PatternValue,
    predicate: &PatternValue,
    object: &PatternValue,
    graph_name: &PatternValue,
    tuple: &EncodedTuple,
    answer: &Vec<Result<EncodedQuad, EvaluationError>>,
)
    requires
        pattern_value_wf(*subject),
        pattern_value_wf(*predicate),
        pattern_value_wf(*object),
        pattern_value_wf(*graph_name),
    ensures
        rows_model(final(out)@) == rows_model(old(out)@) + pattern_rows(
            *subject,
            *predicate,
            *object,
            *graph_name,
            tuple@,
            answer@,
        ),
{
    let mut i: usize = 0;
    let ghost start = rows_model(out@);
    proof {
        assert(answer@.take(0) =~= Seq::empty());
        assert(start + Seq::<RowModel>::empty() =~= start);
    }
    while i < answer.len()
        invariant
            i <= answer.len(),
            pattern_value_wf(*subject),
            pattern_value_wf(*predicate),
            pattern_value_wf(*object),
            pattern_value_wf(*graph_name),
            rows_model(out@) == start + pattern_rows(
                *subject,
                *predicate,
                *object,
                *graph_name,
                tuple@,
                answer@.take(i as int),
            ),
        decreases answer.len() - i,
    {
        let ghost before = pattern_rows(
            *subject,
            *predicate,
            *object,
            *graph_name,
            tuple@,
            answer@.take(i as int),
        );
        proof {
            assert(answer@.take(i + 1).drop_last() =~= answer@.take(i as int));
            assert(answer@.take(i + 1).last() == answer@[i as int]);
        }
        match &answer[i] {
            Ok(quad) => {
                if keep_quad(subject, predicate, object, graph_name, quad) {
                    let mut new_tuple = copy_tuple(tuple);
                    put_pattern_value(subject, quad.subject, &mut new_tuple);
                    put_pattern_value(predicate, quad.predicate, &mut new_tuple);
                    put_pattern_value(object, quad.object, &mut new_tuple);
                    put_pattern_value(graph_name, quad.graph_name, &mut new_tuple);
                    let row: Row = Ok(new_tuple);
                    proof {
                        lemma_rows_model_push(out@, row);
                        assert((start + before).push(row_model(row)) =~= start + before.push(
                            row_model(row),
                        ));
                    }
                    out.push(row);
                }
            },
            Err(error) => {
                let row: Row = Err(*error);
                proof {
                    lemma_rows_model_push(out@, row);
                    assert((start + before).push(row_model(row)) =~= start + before.push(
                        row_model(row),
                    ));
                }
                out.push(row);
            },
        }
        i = i + 1;
    }
    assert(answer@.take(answer.len() as int) =~= answer@);
}

} // verus!

//! Streams of rows and the operators that work on whole streams: cut,
//! project, remove repeats.

use vstd::prelude::*;
use crate::term::row_model;
use crate::term::rows_model;
use crate::term::EncodedTerm;
use crate::term::EncodedTuple;
use crate::term::EvaluationError;
use crate::term::Row;
use crate::tuple::get_tuple_value;
use crate::tuple::put_value;
use crate::tuple::with_value;
use crate::values::boolean_of;
use crate::values::effective_boolean;
use crate::tuple::tuple_value;

verus! {

/// The mathematical form of a tuple.
pub type TupleModel = Seq<Option<EncodedTerm>>;

/// The mathematical form of a row.
pub type RowModel = Result<Seq<Option<EncodedTerm>>, EvaluationError>;

/// Adding a row to a stream adds its model to the stream's model.
pub proof fn lemma_rows_model_push(rows: Seq<Row>, row: Row)
    ensures
        rows_model(rows.push(row)) == rows_model(rows).push(row_model(row)),
{
    assert(rows_model(rows.push(row)) =~= rows_model(rows).push(row_model(row)));
}

/// A copy of a tuple.
pub fn copy_tuple(tuple: &EncodedTuple) -> (copy: EncodedTuple)
    ensures
        copy@ == tuple@,
{
    let mut copy: EncodedTuple = Vec::new();
    let mut i: usize = 0;
    while i < tuple.len()
        invariant
            i <= tuple.len(),
            copy@ == tuple@.take(i as int),
        decreases tuple.len() - i,
    {
        copy.push(tuple[i]);
        assert(tuple@.take(i + 1) =~= tuple@.take(i as int).push(tuple@[i as int]));
        i = i + 1;
    }
    assert(tuple@.take(tuple.len() as int) =~= tuple@);
    copy
}

/// A copy of a row.
pub fn copy_row(row: &Row) -> (copy: Row)
    ensures
        row_model(copy) == row_model(*row),
{
    match row {
        Ok(tuple) => Ok(copy_tuple(tuple)),
        Err(error) => Err(*error),
    }
}

/// Whether two tuples are the same: of one length, with the same term or
/// none in each slot.
pub fn same_tuple(a: &EncodedTuple, b: &EncodedTuple) -> (same: bool)
    ensures
        same == (a@ == b@),
{
    if a.len() != b.len() {
        return false;
    }
    let mut i: usize = 0;
    while i < a.len()
        invariant
            i <= a.len(),
            a.len() == b.len(),
            forall|j: int| 0 <= j < i ==> a@[j] == b@[j],
        decreases a.len() - i,
    {
        let equal = match (a[i], b[i]) {
            (Some(x), Some(y)) => x == y,
            (None, None) => true,
            _ => false,
        };
        if !equal {
            return false;
        }
        i = i + 1;
    }
    assert(a@ =~= b@);
    true
}

/// The rows of a stream from row `count` on.
pub open spec fn skipped_rows(rows: Seq<RowModel>, count: int) -> Seq<RowModel> {
    if count <= 0 {
        rows
    } else if count >= rows.len() {
        Seq::empty()
    } else {
        rows.subrange(count, rows.len() as int)
    }
}

/// The first `count` rows of a stream.
pub open spec fn limited_rows(rows: Seq<RowModel>, count: int) -> Seq<RowModel> {
    if count <= 0 {
        Seq::empty()
    } else if count >= rows.len() {
        rows
    } else {
        rows.subrange(0, count)
    }
}

/// The copies of the rows of a stream from `from` up to `to`.
pub fn copy_rows(rows: &Vec<Row>, from: usize, to: usize) -> (out: Vec<Row>)
    requires
        from <= to <= rows.len(),
    ensures
        rows_model(out@) == rows_model(rows@).subrange(from as int, to as int),
{
    let mut out: Vec<Row> = Vec::new();
    let mut i: usize = from;
    while i < to
        invariant
            from <= i <= to <= rows.len(),
            rows_model(out@) =~= rows_model(rows@).subrange(from as int, i as int),
        decreases to - i,
    {
        let row = copy_row(&rows[i]);
        proof {
            lemma_rows_model_push(out@, row);
        }
        out.push(row);
        i = i + 1;
    }
    out
}

/// Drops the first `count` rows.
pub fn skip_rows(rows: &Vec<Row>, count: usize) -> (out: Vec<Row>)
    ensures
        rows_model(out@) == skipped_rows(rows_model(rows@), count as int),
{
    if count >= rows.len() {
        let out: Vec<Row> = Vec::new();
        assert(rows_model(out@) =~= Seq::empty());
        out
    } else {
        let out = copy_rows(rows, count, rows.len());
        assert(rows_model(rows@).subrange(0, rows.len() as int) =~= rows_model(rows@));
        out
    }
}

/// Keeps the first `count` rows.
pub fn limit_rows(rows: &Vec<Row>, count: usize) -> (out: Vec<Row>)
    ensures
        rows_model(out@) == limited_rows(rows_model(rows@), count as int),
{
    if count >= rows.len() {
        let out = copy_rows(rows, 0, rows.len());
        assert(rows_model(rows@).subrange(0, rows.len() as int) =~= rows_model(rows@));
        out
    } else {
        let out = copy_rows(rows, 0, count);
        assert(count == 0 ==> rows_model(out@) =~= Seq::empty());
        out
    }
}

/// The tuple whose slot `i` holds what `tuple` holds in slot `mapping[i]`.
pub open spec fn projected_tuple(tuple: TupleModel, mapping: Seq<usize>) -> TupleModel {
    Seq::new(mapping.len(), |i: int| tuple_value(mapping[i] as int, tuple))
}

/// A row projected: a tuple by `projected_tuple`, an error unchanged.
pub open spec fn projected_row(row: RowModel, mapping: Seq<usize>) -> RowModel {
    match row {
        Ok(tuple) => Ok(projected_tuple(tuple, mapping)),
        Err(error) => Err(error),
    }
}

/// A stream projected row by row.
pub open spec fn projected_rows(rows: Seq<RowModel>, mapping: Seq<usize>) -> Seq<RowModel> {
    Seq::new(rows.len(), |i: int| projected_row(rows[i], mapping))
}

/// Projects a tuple on the slots of `mapping`.
pub fn project_tuple(tuple: &EncodedTuple, mapping: &Vec<usize>) -> (out: EncodedTuple)
    ensures
        out@ == projected_tuple(tuple@, mapping@),
{
    let mut out: EncodedTuple = Vec::new();
    let mut i: usize = 0;
    while i < mapping.len()
        invariant
            i <= mapping.len(),
            out@.len() == i,
            forall|j: int| 0 <= j < i ==> out@[j] == tuple_value(mapping@[j] as int, tuple@),
        decreases mapping.len() - i,
    {
        out.push(get_tuple_value(mapping[i], tuple));
        i = i + 1;
    }
    assert(out@ =~= projected_tuple(tuple@, mapping@));
    out
}

/// Projects every row of a stream.
pub fn project_rows(rows: &Vec<Row>, mapping: &Vec<usize>) -> (out: Vec<Row>)
    ensures
        rows_model(out@) == projected_rows(rows_model(rows@), mapping@),
{
    let mut out: Vec<Row> = Vec::new();
    let mut i: usize = 0;
    while i < rows.len()
        invariant
            i <= rows.len(),
            out@.len() == i,
            forall|j: int|
                0 <= j < i ==> row_model(#[trigger] out@[j]) == projected_row(
                    row_model(rows@[j]),
                    mapping@,
                ),
        decreases rows.len() - i,
    {
        let row = match &rows[i] {
            Ok(tuple) => Ok(project_tuple(tuple, mapping)),
            Err(error) => Err(*error),
        };
        out.push(row);
        i = i + 1;
    }
    assert(rows_model(out@) =~= projected_rows(rows_model(rows@), mapping@));
    out
}

/// A stream without the rows that repeat the tuple of a row before them.
/// Errors stay.
pub open spec fn distinct_rows(rows: Seq<RowModel>) -> Seq<RowModel>
    decreases rows.len(),
{
    if rows.len() == 0 {
        Seq::empty()
    } else {
        let before = rows.drop_last();
        let last = rows.last();
        if last is Ok && before.contains(last) {
            distinct_rows(before)
        } else {
            distinct_rows(before).push(last)
        }
    }
}

/// A row with a tuple is among the distinct rows exactly if it is among
/// the rows.
pub proof fn lemma_distinct_rows_contains(rows: Seq<RowModel>, row: RowModel)
    ensures
        distinct_rows(rows).contains(row) == rows.contains(row),
    decreases rows.len(),
{
    if rows.len() == 0 {
    } else {
        let before = rows.drop_last();
        let last = rows.last();
        lemma_distinct_rows_contains(before, row);
        lemma_distinct_rows_contains(before, last);
        if rows.contains(row) {
            let j = choose|j: int| 0 <= j < rows.len() && rows[j] == row;
            if j < before.len() {
                assert(before[j] == row);
            }
        }
        if before.contains(row) {
            let j = choose|j: int| 0 <= j < before.len() && before[j] == row;
            assert(rows[j] == row);
        }
        assert(rows[rows.len() - 1] == last);
        if last is Ok && before.contains(last) {
        } else {
            let d = distinct_rows(before);
            assert(d.push(last)[d.len() as int] == last);
            if d.contains(row) {
                let j = choose|j: int| 0 <= j < d.len() && d[j] == row;
                assert(d.push(last)[j] == row);
            }
            if d.push(last).contains(row) {
                let j = choose|j: int| 0 <= j < d.push(last).len() && d.push(last)[j] == row;
                if j < d.len() {
                    assert(d[j] == row);
                }
            }
        }
    }
}

/// Whether a tuple is the tuple of a row of `rows`.
pub fn contains_tuple(rows: &Vec<Row>, tuple: &EncodedTuple) -> (found: bool)
    ensures
        found == rows_model(rows@).contains(Ok(tuple@)),
{
    let mut i: usize = 0;
    while i < rows.len()
        invariant
            i <= rows.len(),
            forall|j: int| 0 <= j < i ==> rows_model(rows@)[j] != Ok::<TupleModel, EvaluationError>(tuple@),
        decreases rows.len() - i,
    {
        let same = match &rows[i] {
            Ok(other) => same_tuple(other, tuple),
            Err(_) => false,
        };
        if same {
            assert(rows_model(rows@)[i as int] == Ok::<TupleModel, EvaluationError>(tuple@));
            return true;
        }
        i = i + 1;
    }
    false
}

/// Removes the rows that repeat the tuple of a row before them.
pub fn deduplicate_rows(rows: &Vec<Row>) -> (out: Vec<Row>)
    ensures
        rows_model(out@) == distinct_rows(rows_model(rows@)),
{
    let mut out: Vec<Row> = Vec::new();
    let mut i: usize = 0;
    assert(rows_model(rows@).take(0) =~= Seq::empty());
    assert(rows_model(out@) =~= Seq::empty());
    while i < rows.len()
        invariant
            i <= rows.len(),
            rows_model(out@) == distinct_rows(rows_model(rows@).take(i as int)),
        decreases rows.len() - i,
    {
        let ghost before = rows_model(rows@).take(i as int);
        let ghost next = rows_model(rows@).take(i + 1);
        proof {
            assert(next.drop_last() =~= before);
            assert(next.last() == row_model(rows@[i as int]));
            lemma_distinct_rows_contains(before, row_model(rows@[i as int]));
        }
        let repeated = match &rows[i] {
            Ok(tuple) => contains_tuple(&out, tuple),
            Err(_) => false,
        };
        if !repeated {
            let row = copy_row(&rows[i]);
            proof {
                lemma_rows_model_push(out@, row);
            }
            out.push(row);
        }
        i = i + 1;
    }
    assert(rows_model(rows@).take(rows.len() as int) =~= rows_model(rows@));
    out
}

/// The rows that a filter keeps, where `values` holds for each tuple what
/// the filter's expression gave on it: the tuples whose value has the
/// effective boolean value true, and all errors of the stream.
pub open spec fn filtered_rows(rows: Seq<RowModel>, values: Seq<Option<EncodedTerm>>) -> Seq<
    RowModel,
>
    decreases rows.len(),
{
    if rows.len() == 0 {
        Seq::empty()
    } else {
        let before = filtered_rows(rows.drop_last(), values);
        let last = rows.last();
        if last is Err || boolean_of(values[rows.len() - 1]) == Some(true) {
            before.push(last)
        } else {
            before
        }
    }
}

/// Keeps the rows that pass a filter, from the values that the filter's
/// expression gave on them.
pub fn filter_rows(rows: &Vec<Row>, values: &Vec<Option<EncodedTerm>>) -> (out: Vec<Row>)
    requires
        values.len() == rows.len(),
    ensures
        rows_model(out@) == filtered_rows(rows_model(rows@), values@),
{
    let mut out: Vec<Row> = Vec::new();
    let mut i: usize = 0;
    let ghost all = rows_model(rows@);
    proof {
        assert(all.take(0) =~= Seq::empty());
        assert(rows_model(out@) =~= Seq::empty());
    }
    while i < rows.len()
        invariant
            i <= rows.len(),
            values.len() == rows.len(),
            all == rows_model(rows@),
            rows_model(out@) == filtered_rows(all.take(i as int), values@),
        decreases rows.len() - i,
    {
        proof {
            assert(all.take(i + 1).drop_last() =~= all.take(i as int));
            assert(all.take(i + 1).last() == row_model(rows@[i as int]));
        }
        let keep = match &rows[i] {
            Ok(_) => match effective_boolean(values[i]) {
                Some(true) => true,
                _ => false,
            },
            Err(_) => true,
        };
        if keep {
            let row = copy_row(&rows[i]);
            proof {
                lemma_rows_model_push(out@, row);
            }
            out.push(row);
        }
        i = i + 1;
    }
    assert(all.take(rows.len() as int) =~= all);
    out
}

/// The rows that an extension gives, where `values` holds for each tuple
/// what the expression gave on it: a tuple with a value gets the value in
/// slot `position`, a tuple without value is dropped, an error stays.
pub open spec fn extended_rows(
    rows: Seq<RowModel>,
    position: int,
    values: Seq<Option<EncodedTerm>>,
) -> Seq<RowModel>
    decreases rows.len(),
{
    if rows.len() == 0 {
        Seq::empty()
    } else {
        let before = extended_rows(rows.drop_last(), position, values);
        match rows.last() {
            Ok(tuple) => match values[rows.len() - 1] {
                Some(value) => before.push(Ok(with_value(tuple, position, value))),
                None => before,
            },
            Err(_) => before.push(rows.last()),
        }
    }
}

/// Extends the rows by the values that the expression gave on them.
pub fn extend_rows(rows: &Vec<Row>, position: usize, values: &Vec<Option<EncodedTerm>>) -> (out:
    Vec<Row>)
    requires
        values.len() == rows.len(),
        position < usize::MAX,
    ensures
        rows_model(out@) == extended_rows(rows_model(rows@), position as int, values@),
{
    let mut out: Vec<Row> = Vec::new();
    let mut i: usize = 0;
    let ghost all = rows_model(rows@);
    proof {
        assert(all.take(0) =~= Seq::empty());
        assert(rows_model(out@) =~= Seq::empty());
    }
    while i < rows.len()
        invariant
            i <= rows.len(),
            values.len() == rows.len(),
            position < usize::MAX,
            all == rows_model(rows@),
            rows_model(out@) == extended_rows(all.take(i as int), position as int, values@),
        decreases rows.len() - i,
    {
        proof {
            assert(all.take(i + 1).drop_last() =~= all.take(i as int));
            assert(all.take(i + 1).last() == row_model(rows@[i as int]));
        }
        match &rows[i] {
            Ok(tuple) => match values[i] {
                Some(value) => {
                    let mut new_tuple = copy_tuple(tuple);
                    put_value(position, value, &mut new_tuple);
                    let row: Row = Ok(new_tuple);
                    proof {
                        lemma_rows_model_push(out@, row);
                    }
                    out.push(row);
                },
                None => {},
            },
            Err(error) => {
                let row: Row = Err(*error);
                proof {
                    lemma_rows_model_push(out@, row);
                }
                out.push(row);
            },
        }
        i = i + 1;
    }
    assert(all.take(rows.len() as int) =~= all);
    out
}

/// The stream of a list of tuples.
pub open spec fn tuple_rows(tuples: Seq<EncodedTuple>) -> Seq<RowModel> {
    Seq::new(tuples.len(), |i: int| Ok(tuples[i]@))
}

/// The stream of the given tuples, in their order.
pub fn static_rows(tuples: &Vec<EncodedTuple>) -> (out: Vec<Row>)
    ensures
        rows_model(out@) == tuple_rows(tuples@),
{
    let mut out: Vec<Row> = Vec::new();
    let mut i: usize = 0;
    while i < tuples.len()
        invariant
            i <= tuples.len(),
            out@.len() == i,
            forall|j: int| 0 <= j < i ==> row_model(#[trigger] out@[j]) == Ok::<
                TupleModel,
                EvaluationError,
            >(tuples@[j]@),
        decreases tuples.len() - i,
    {
        out.push(Ok(copy_tuple(&tuples[i])));
        i = i + 1;
    }
    assert(rows_model(out@) =~= tuple_rows(tuples@));
    out
}

} // verus!

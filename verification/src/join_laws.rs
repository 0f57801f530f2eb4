//! The join of two streams does not depend on their order, but for the
//! order of its rows.

use vstd::prelude::*;
use vstd::multiset::Multiset;
use vstd::seq_lib::lemma_multiset_commutative;
use vstd::seq_lib::to_multiset_build;
use crate::joins::concat_all;
use crate::joins::errors_from_last;
use crate::joins::join_part;
use crate::joins::join_parts;
use crate::joins::joined_rows;
use crate::joins::matches_from_last;
use crate::rows::RowModel;
use crate::rows::TupleModel;
use crate::tuple::compatible;
use crate::tuple::lemma_merged_symmetric;
use crate::tuple::merged;

verus! {

broadcast use {vstd::seq_lib::group_to_multiset_ensures, vstd::multiset::group_multiset_axioms};

/// What two rows add to a join: their merge if both are tuples that
/// agree, and nothing otherwise.
pub open spec fn pair_rows(left: RowModel, right: RowModel) -> Multiset<RowModel> {
    match (left, right) {
        (Ok(l), Ok(r)) => if compatible(l, r) {
            Multiset::singleton(Ok(merged(l, r)))
        } else {
            Multiset::empty()
        },
        _ => Multiset::empty(),
    }
}

/// What the rows of `left` add to a join with the row `right`.
pub open spec fn pairs_with_right(left: Seq<RowModel>, right: RowModel) -> Multiset<RowModel>
    decreases left.len(),
{
    if left.len() == 0 {
        Multiset::empty()
    } else {
        pairs_with_right(left.drop_last(), right).add(pair_rows(left.last(), right))
    }
}

/// What the row `left` adds to a join with the rows of `right`.
pub open spec fn pairs_with_left(left: RowModel, right: Seq<RowModel>) -> Multiset<RowModel>
    decreases right.len(),
{
    if right.len() == 0 {
        Multiset::empty()
    } else {
        pairs_with_left(left, right.drop_last()).add(pair_rows(left, right.last()))
    }
}

/// The merges of a join, summed over the rows of the right side.
pub open spec fn all_pairs(left: Seq<RowModel>, right: Seq<RowModel>) -> Multiset<RowModel>
    decreases right.len(),
{
    if right.len() == 0 {
        Multiset::empty()
    } else {
        all_pairs(left, right.drop_last()).add(pairs_with_right(left, right.last()))
    }
}

/// The merges of a join, summed over the rows of the left side.
pub open spec fn all_pairs_by_left(left: Seq<RowModel>, right: Seq<RowModel>) -> Multiset<RowModel>
    decreases left.len(),
{
    if left.len() == 0 {
        Multiset::empty()
    } else {
        all_pairs_by_left(left.drop_last(), right).add(pairs_with_left(left.last(), right))
    }
}

/// The errors of a stream, as a bag.
pub open spec fn error_bag(rows: Seq<RowModel>) -> Multiset<RowModel>
    decreases rows.len(),
{
    if rows.len() == 0 {
        Multiset::empty()
    } else if rows.last() is Err {
        error_bag(rows.drop_last()).insert(rows.last())
    } else {
        error_bag(rows.drop_last())
    }
}

/// Two rows add the same to a join in either order.
pub proof fn lemma_pair_rows_symmetric(left: RowModel, right: RowModel)
    ensures
        pair_rows(left, right) == pair_rows(right, left),
{
    match (left, right) {
        (Ok(l), Ok(r)) => {
            if compatible(l, r) {
                lemma_merged_symmetric(l, r);
            }
            if compatible(r, l) {
                lemma_merged_symmetric(r, l);
            }
        },
        _ => {},
    }
}

/// A row adds the same to a join with a stream on either side.
proof fn lemma_pairs_with_symmetric(rows: Seq<RowModel>, row: RowModel)
    ensures
        pairs_with_right(rows, row) == pairs_with_left(row, rows),
    decreases rows.len(),
{
    if rows.len() > 0 {
        lemma_pairs_with_symmetric(rows.drop_last(), row);
        lemma_pair_rows_symmetric(rows.last(), row);
    }
}

/// The sum over the left side grows with a row of the right side by what
/// that row adds.
proof fn lemma_by_left_step(left: Seq<RowModel>, right: Seq<RowModel>)
    requires
        right.len() > 0,
    ensures
        all_pairs_by_left(left, right) == all_pairs_by_left(left, right.drop_last()).add(
            pairs_with_right(left, right.last()),
        ),
    decreases left.len(),
{
    if left.len() > 0 {
        lemma_by_left_step(left.drop_last(), right);
        assert(all_pairs_by_left(left, right) =~= all_pairs_by_left(left, right.drop_last()).add(
            pairs_with_right(left, right.last()),
        ));
    } else {
        assert(all_pairs_by_left(left, right) =~= all_pairs_by_left(left, right.drop_last()).add(
            pairs_with_right(left, right.last()),
        ));
    }
}

/// Without a right side there are no merges.
proof fn lemma_by_left_empty(left: Seq<RowModel>)
    ensures
        all_pairs_by_left(left, Seq::empty()) == Multiset::<RowModel>::empty(),
    decreases left.len(),
{
    if left.len() > 0 {
        lemma_by_left_empty(left.drop_last());
        assert(all_pairs_by_left(left, Seq::empty()) =~= Multiset::<RowModel>::empty());
    }
}

/// The merges of a join are the same summed over either side.
proof fn lemma_sums_agree(left: Seq<RowModel>, right: Seq<RowModel>)
    ensures
        all_pairs(left, right) == all_pairs_by_left(left, right),
    decreases right.len(),
{
    if right.len() == 0 {
        lemma_by_left_empty(left);
        assert(right =~= Seq::empty());
    } else {
        lemma_sums_agree(left, right.drop_last());
        lemma_by_left_step(left, right);
    }
}

/// The sum over the left side is the sum of the join with its sides
/// exchanged.
proof fn lemma_exchanged(left: Seq<RowModel>, right: Seq<RowModel>)
    ensures
        all_pairs(right, left) == all_pairs_by_left(left, right),
    decreases left.len(),
{
    if left.len() > 0 {
        lemma_exchanged(left.drop_last(), right);
        lemma_pairs_with_symmetric(right, left.last());
    }
}

/// The merges of a join do not depend on the order of its sides.
pub proof fn lemma_all_pairs_symmetric(left: Seq<RowModel>, right: Seq<RowModel>)
    ensures
        all_pairs(left, right) == all_pairs(right, left),
{
    lemma_sums_agree(left, right);
    lemma_exchanged(left, right);
}

/// The bag of a stream of one row.
proof fn lemma_single_bag(row: RowModel)
    ensures
        seq![row].to_multiset() == Multiset::singleton(row),
{
    let nothing = Seq::<RowModel>::empty();
    assert(seq![row] =~= nothing.push(row));
    to_multiset_build(nothing, row);
    assert(nothing.to_multiset() =~= Multiset::<RowModel>::empty());
    assert(seq![row].to_multiset() =~= Multiset::singleton(row));
}

/// The errors that a join emits first are the errors of its left side.
proof fn lemma_errors_bag(rows: Seq<RowModel>)
    ensures
        errors_from_last(rows).to_multiset() == error_bag(rows),
    decreases rows.len(),
{
    if rows.len() == 0 {
        assert(errors_from_last(rows).to_multiset() =~= Multiset::<RowModel>::empty());
    } else {
        lemma_errors_bag(rows.drop_last());
        if rows.last() is Err {
            lemma_single_bag(rows.last());
            lemma_multiset_commutative(seq![rows.last()], errors_from_last(rows.drop_last()));
            assert(errors_from_last(rows).to_multiset() =~= error_bag(rows));
        }
    }
}

/// The merges that a tuple of the right side adds are those of its pairs.
proof fn lemma_matches_bag(left: Seq<RowModel>, right: TupleModel)
    ensures
        matches_from_last(left, right).to_multiset() == pairs_with_right(left, Ok(right)),
    decreases left.len(),
{
    let row: RowModel = Ok(right);
    if left.len() == 0 {
        assert(matches_from_last(left, right).to_multiset() =~= Multiset::<RowModel>::empty());
    } else {
        lemma_matches_bag(left.drop_last(), right);
        match left.last() {
            Ok(tuple) => {
                if compatible(tuple, right) {
                    let merge: RowModel = Ok(merged(tuple, right));
                    lemma_single_bag(merge);
                    lemma_multiset_commutative(
                        seq![merge],
                        matches_from_last(left.drop_last(), right),
                    );
                    assert(matches_from_last(left, right).to_multiset() =~= pairs_with_right(
                        left,
                        row,
                    ));
                } else {
                    assert(matches_from_last(left, right).to_multiset() =~= pairs_with_right(
                        left,
                        row,
                    ));
                }
            },
            Err(_) => {
                assert(matches_from_last(left, right).to_multiset() =~= pairs_with_right(
                    left,
                    row,
                ));
            },
        }
    }
}

/// An error of the right side adds no merge.
proof fn lemma_no_pairs_with_error(left: Seq<RowModel>, right: RowModel)
    requires
        right is Err,
    ensures
        pairs_with_right(left, right) == Multiset::<RowModel>::empty(),
    decreases left.len(),
{
    if left.len() > 0 {
        lemma_no_pairs_with_error(left.drop_last(), right);
        assert(pairs_with_right(left, right) =~= Multiset::<RowModel>::empty());
    }
}

/// What the rows of the right side add to a join: their errors and the
/// merges.
proof fn lemma_parts_bag(left: Seq<RowModel>, right: Seq<RowModel>)
    ensures
        concat_all(join_parts(left, right)).to_multiset() == error_bag(right).add(
            all_pairs(left, right),
        ),
    decreases right.len(),
{
    let parts = join_parts(left, right);
    if right.len() == 0 {
        assert(concat_all(parts).to_multiset() =~= error_bag(right).add(all_pairs(left, right)));
    } else {
        let before = right.drop_last();
        lemma_parts_bag(left, before);
        assert(parts.drop_last() =~= join_parts(left, before));
        assert(parts.last() == join_part(left, right.last()));
        lemma_multiset_commutative(concat_all(parts.drop_last()), parts.last());
        match right.last() {
            Ok(tuple) => {
                lemma_matches_bag(left, tuple);
            },
            Err(_) => {
                lemma_single_bag(right.last());
                lemma_no_pairs_with_error(left, right.last());
            },
        }
        assert(concat_all(parts).to_multiset() =~= error_bag(right).add(all_pairs(left, right)));
    }
}

/// The rows of a join as a bag: the errors of both sides and the merges.
pub proof fn lemma_joined_rows_bag(left: Seq<RowModel>, right: Seq<RowModel>)
    ensures
        joined_rows(left, right).to_multiset() == error_bag(left).add(error_bag(right)).add(
            all_pairs(left, right),
        ),
{
    lemma_errors_bag(left);
    lemma_parts_bag(left, right);
    lemma_multiset_commutative(errors_from_last(left), concat_all(join_parts(left, right)));
    assert(joined_rows(left, right).to_multiset() =~= error_bag(left).add(error_bag(right)).add(
        all_pairs(left, right),
    ));
}

/// A join gives the same rows, each as often, whichever stream is its
/// left side and whichever its right.
pub proof fn lemma_join_commutative(left: Seq<RowModel>, right: Seq<RowModel>)
    ensures
        joined_rows(left, right).to_multiset() == joined_rows(right, left).to_multiset(),
{
    lemma_joined_rows_bag(left, right);
    lemma_joined_rows_bag(right, left);
    lemma_all_pairs_symmetric(left, right);
    assert(error_bag(left).add(error_bag(right)).add(all_pairs(left, right)) =~= error_bag(
        right,
    ).add(error_bag(left)).add(all_pairs(right, left)));
}

} // verus!

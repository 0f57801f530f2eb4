//! The order of sorting, and the sort of a stream by keys.

use vstd::prelude::*;
use crate::dataset::DatasetView;
use crate::dataset::FloatArithmetic;
use crate::bnodes::BlankNodeMap;
use crate::expression::evaluated;
use crate::expression::expression_result;
use crate::numeric::int_order;
use crate::numeric::Comparison;
use crate::plan::Comparator;
use crate::plan::PlanExpression;
use crate::rows::copy_row;
use crate::rows::lemma_rows_model_push;
use crate::rows::RowModel;
use crate::term::row_model;
use crate::term::rows_model;
use crate::term::EncodedTerm;
use crate::term::EncodedTuple;
use crate::term::Row;
use crate::values::literal_order_answer;
use crate::values::literal_order_outcome;
use crate::values::string_order_answer;
use crate::values::string_order_outcome;
use crate::values::SimpleEvaluator;

verus! {

/// The outcome of a comparison for sorting, where terms that cannot be
/// compared count as equal.
pub open spec fn or_equal(order: Option<Comparison>) -> Comparison {
    match order {
        Some(c) => c,
        None => Comparison::Equal,
    }
}

/// What comparing two results for sorting may give.
///
/// An undefined result comes before every term. Among terms, blank nodes
/// come first, then named nodes, then all others. Two blank nodes are
/// ordered by their numbers, two named nodes by their IRIs, two other
/// terms by value; where the IRIs cannot be looked up or the terms cannot
/// be compared by value, they count as equal.
pub open spec fn sort_order_outcome<S: DatasetView, F: FloatArithmetic>(
    view: &S,
    floats: &F,
    a: Option<EncodedTerm>,
    b: Option<EncodedTerm>,
    c: Comparison,
) -> bool {
    match (a, b) {
        (None, None) => c == Comparison::Equal,
        (Some(_), None) => c == Comparison::Greater,
        (None, Some(_)) => c == Comparison::Less,
        (Some(a), Some(b)) => match a {
            EncodedTerm::BlankNode(x) => match b {
                EncodedTerm::BlankNode(y) => c == int_order(x as int, y as int),
                _ => c == Comparison::Less,
            },
            EncodedTerm::NamedNode { iri_id: x } => match b {
                EncodedTerm::NamedNode { iri_id: y } => exists|order: Option<Comparison>|
                    #[trigger] string_order_outcome(view, x, y, order) && string_order_answer(
                        view,
                        x,
                        y,
                        order,
                    ) && c == or_equal(order),
                EncodedTerm::BlankNode(_) => c == Comparison::Greater,
                _ => c == Comparison::Less,
            },
            _ => match b {
                EncodedTerm::NamedNode { .. } => c == Comparison::Greater,
                EncodedTerm::BlankNode(_) => c == Comparison::Greater,
                _ => exists|order: Option<Comparison>|
                    #[trigger] literal_order_outcome(view, a, b, order) && literal_order_answer(
                        view,
                        floats,
                        a,
                        b,
                        order,
                    ) && c == or_equal(order),
            },
        },
    }
}

/// The outcome of a comparison under a direction.
pub open spec fn directed(descending: bool, c: Comparison) -> Comparison {
    if descending {
        c.reversed()
    } else {
        c
    }
}

/// What comparing two rows by their keys may give, from key `from` on:
/// the first outcome that is not equal, under the direction of its key,
/// and equal if there is none.
pub open spec fn keys_order_from<S: DatasetView, F: FloatArithmetic>(
    view: &S,
    floats: &F,
    descending: Seq<bool>,
    a: Seq<Option<EncodedTerm>>,
    b: Seq<Option<EncodedTerm>>,
    from: int,
    c: Comparison,
) -> bool
    decreases descending.len() - from,
{
    if from < 0 || from >= descending.len() {
        c == Comparison::Equal
    } else {
        exists|o: Comparison| #[trigger]
            sort_order_outcome(view, floats, a[from], b[from], o) && if directed(descending[from], o)
                == Comparison::Equal {
                keys_order_from(view, floats, descending, a, b, from + 1, c)
            } else {
                c == directed(descending[from], o)
            }
    }
}

/// What comparing two rows by their keys may give.
pub open spec fn keys_order<S: DatasetView, F: FloatArithmetic>(
    view: &S,
    floats: &F,
    descending: Seq<bool>,
    a: Seq<Option<EncodedTerm>>,
    b: Seq<Option<EncodedTerm>>,
    c: Comparison,
) -> bool {
    keys_order_from(view, floats, descending, a, b, 0, c)
}

/// Two neighbours stand in order as far as was seen: the first compared
/// as less than the second, or the second as not less than the first.
pub open spec fn seen_in_order<S: DatasetView, F: FloatArithmetic>(
    view: &S,
    floats: &F,
    descending: Seq<bool>,
    first: Seq<Option<EncodedTerm>>,
    second: Seq<Option<EncodedTerm>>,
) -> bool {
    ||| keys_order(view, floats, descending, first, second, Comparison::Less)
    ||| exists|c: Comparison| #[trigger]
        keys_order(view, floats, descending, second, first, c) && c != Comparison::Less
}

/// The errors of a stream, in its order.
pub open spec fn errors_in_order(rows: Seq<RowModel>) -> Seq<RowModel>
    decreases rows.len(),
{
    if rows.len() == 0 {
        Seq::empty()
    } else if rows.last() is Err {
        errors_in_order(rows.drop_last()).push(rows.last())
    } else {
        errors_in_order(rows.drop_last())
    }
}

/// `order` lists the places of the tuples of `rows`, each once.
pub open spec fn lists_tuples(rows: Seq<RowModel>, order: Seq<int>) -> bool {
    &&& forall|p: int|
        0 <= p < order.len() ==> 0 <= #[trigger] order[p] < rows.len() && rows[order[p]] is Ok
    &&& forall|p: int, q: int| 0 <= p < q < order.len() ==> order[p] != order[q]
    &&& forall|i: int| 0 <= i < rows.len() && (#[trigger] rows[i]) is Ok ==> order.contains(i)
}

/// The rows at the places that `order` lists.
pub open spec fn rows_at(rows: Seq<RowModel>, order: Seq<int>) -> Seq<RowModel> {
    Seq::new(order.len(), |p: int| rows[order[p]])
}

/// Each two neighbours of `order` stand in order as far as was seen, by
/// the keys of their rows.
pub open spec fn neighbours_in_order<S: DatasetView, F: FloatArithmetic>(
    view: &S,
    floats: &F,
    descending: Seq<bool>,
    keys: Seq<Seq<Option<EncodedTerm>>>,
    order: Seq<int>,
) -> bool {
    forall|p: int|
        0 <= p < order.len() - 1 ==> seen_in_order(
            view,
            floats,
            descending,
            keys[#[trigger] order[p]],
            keys[order[p + 1]],
        )
}

/// What sorting a stream by keys may give: first the errors in their
/// order, then the tuples, each once, in an order in which every two
/// neighbours stand in order as far as was seen.
pub open spec fn sorted_outcome<S: DatasetView, F: FloatArithmetic>(
    view: &S,
    floats: &F,
    descending: Seq<bool>,
    rows: Seq<RowModel>,
    keys: Seq<Seq<Option<EncodedTerm>>>,
    out: Seq<RowModel>,
) -> bool {
    exists|order: Seq<int>| #[trigger]
        lists_tuples(rows, order) && neighbours_in_order(view, floats, descending, keys, order) && out
            == errors_in_order(rows) + rows_at(rows, order)
}

/// The directions of the keys of a sort: true for descending.
pub open spec fn directions(by: Seq<Comparator>) -> Seq<bool> {
    Seq::new(by.len(), |j: int| by[j] is Desc)
}

/// The expression of a key of a sort.
pub open spec fn key_expression(comparator: Comparator) -> PlanExpression {
    match comparator {
        Comparator::Asc(expression) => expression,
        Comparator::Desc(expression) => expression,
    }
}

/// The keys of the rows, as sequences.
pub open spec fn keys_model(keys: Seq<EncodedTuple>) -> Seq<Seq<Option<EncodedTerm>>> {
    Seq::new(keys.len(), |i: int| keys[i]@)
}

/// Each tuple of `rows` has as many keys as `by` has comparators.
pub open spec fn keys_fit(rows: Seq<Row>, keys: Seq<EncodedTuple>, by: Seq<Comparator>) -> bool {
    &&& keys.len() == rows.len()
    &&& forall|i: int| 0 <= i < rows.len()
        && (#[trigger] rows[i]) is Ok ==> keys[i].len() == by.len()
}

/// `order` lists the places of the tuples among the first `n` rows, each
/// once, and every two neighbours stand in order as far as was seen.
pub open spec fn places_in_order<S: DatasetView, F: FloatArithmetic>(
    view: &S,
    floats: &F,
    descending: Seq<bool>,
    rows: Seq<Row>,
    keys: Seq<Seq<Option<EncodedTerm>>>,
    order: Seq<usize>,
    n: int,
) -> bool {
    &&& forall|p: int|
        0 <= p < order.len() ==> 0 <= #[trigger] order[p] < n && order[p] < rows.len()
            && rows[order[p] as int] is Ok
    &&& forall|p: int, q: int| 0 <= p < q < order.len() ==> order[p] != order[q]
    &&& forall|j: int|
        0 <= j < n && j < rows.len() && (#[trigger] rows[j]) is Ok ==> order.contains(j as usize)
    &&& forall|p: int|
        0 <= p < order.len() - 1 ==> seen_in_order(
            view,
            floats,
            descending,
            keys[#[trigger] order[p] as int],
            keys[order[p + 1] as int],
        )
}

/// The members of a sequence after an insertion.
proof fn lemma_insert_members(before: Seq<usize>, p: int, i: usize)
    requires
        0 <= p <= before.len(),
    ensures
        before.insert(p, i).len() == before.len() + 1,
        forall|q: int| 0 <= q < p ==> #[trigger] before.insert(p, i)[q] == before[q],
        before.insert(p, i)[p] == i,
        forall|q: int|
            p < q <= before.len() ==> #[trigger] before.insert(p, i)[q] == before[q - 1],
{
}

/// An insertion between two members that stand in a relation to the new
/// member keeps all neighbours in that relation.
proof fn lemma_insert_neighbours(
    before: Seq<usize>,
    p: int,
    i: usize,
    related: spec_fn(usize, usize) -> bool,
)
    requires
        0 <= p <= before.len(),
        forall|q: int| 0 <= q < before.len() - 1 ==> related(#[trigger] before[q], before[q + 1]),
        p > 0 ==> related(before[p - 1], i),
        p < before.len() ==> related(i, before[p]),
    ensures
        forall|q: int|
            0 <= q < before.insert(p, i).len() - 1 ==> related(
                #[trigger] before.insert(p, i)[q],
                before.insert(p, i)[q + 1],
            ),
{
    lemma_insert_members(before, p, i);
    let order = before.insert(p, i);
    assert forall|q: int| 0 <= q < order.len() - 1 implies related(
        #[trigger] order[q],
        order[q + 1],
    ) by {
        if q + 1 < p {
            assert(order[q] == before[q]);
            assert(order[q + 1] == before[q + 1]);
        } else if q + 1 == p {
            assert(order[q] == before[p - 1]);
            assert(order[q + 1] == i);
        } else if q == p {
            assert(order[q] == i);
            assert(order[q + 1] == before[p]);
        } else {
            assert(order[q] == before[q - 1]);
            assert(order[q + 1] == before[q]);
        }
    }
}

/// An insertion of a new member into a sequence without repeats gives a
/// sequence without repeats that holds the new member and the old ones.
proof fn lemma_insert_distinct(before: Seq<usize>, p: int, i: usize)
    requires
        0 <= p <= before.len(),
        forall|a: int, b: int| 0 <= a < b < before.len() ==> before[a] != before[b],
        forall|q: int| 0 <= q < before.len() ==> #[trigger] before[q] != i,
    ensures
        forall|a: int, b: int|
            0 <= a < b < before.insert(p, i).len() ==> before.insert(p, i)[a] != before.insert(
                p,
                i,
            )[b],
        before.insert(p, i).contains(i),
        forall|j: usize| before.contains(j) ==> #[trigger] before.insert(p, i).contains(j),
{
    lemma_insert_members(before, p, i);
    let order = before.insert(p, i);
    assert(order[p] == i);
    assert forall|j: usize| before.contains(j) implies #[trigger] order.contains(j) by {
        let q = choose|q: int| 0 <= q < before.len() && before[q] == j;
        if q < p {
            assert(order[q] == j);
        } else {
            assert(order[q + 1] == j);
        }
    }
    assert forall|a: int, b: int| 0 <= a < b < order.len() implies order[a] != order[b] by {
        let oa = if a < p {
            a
        } else {
            a - 1
        };
        let ob = if b < p {
            b
        } else {
            b - 1
        };
        if a != p && b != p {
            assert(order[a] == before[oa]);
            assert(order[b] == before[ob]);
        } else if a == p {
            assert(order[b] == before[ob]);
        } else {
            assert(order[a] == before[oa]);
        }
    }
}

/// Putting a place between a neighbour that it was not seen to come
/// before and one that it was seen to come before keeps the order.
proof fn lemma_insert_in_order<S: DatasetView, F: FloatArithmetic>(
    view: &S,
    floats: &F,
    descending: Seq<bool>,
    rows: Seq<Row>,
    keys: Seq<Seq<Option<EncodedTerm>>>,
    before: Seq<usize>,
    p: int,
    i: usize,
)
    requires
        places_in_order(view, floats, descending, rows, keys, before, i as int),
        i < rows.len(),
        rows[i as int] is Ok,
        0 <= p <= before.len(),
        p > 0 ==> seen_in_order(view, floats, descending, keys[before[p - 1] as int], keys[i as int]),
        p < before.len() ==> keys_order(
            view,
            floats,
            descending,
            keys[i as int],
            keys[before[p] as int],
            Comparison::Less,
        ),
    ensures
        places_in_order(view, floats, descending, rows, keys, before.insert(p, i), i + 1),
{
    let order = before.insert(p, i);
    let related = |a: usize, b: usize| seen_in_order(view, floats, descending, keys[a as int], keys[b as int]);
    assert forall|q: int| 0 <= q < before.len() - 1 implies related(
        #[trigger] before[q],
        before[q + 1],
    ) by {}
    lemma_insert_neighbours(before, p, i, related);
    lemma_insert_distinct(before, p, i);
    lemma_insert_members(before, p, i);
    assert forall|q: int| 0 <= q < order.len() - 1 implies seen_in_order(
        view,
        floats,
        descending,
        keys[#[trigger] order[q] as int],
        keys[order[q + 1] as int],
    ) by {
        assert(related(order[q], order[q + 1]));
    }
    assert forall|q: int| 0 <= q < order.len() implies 0 <= #[trigger] order[q] < i + 1
        && order[q] < rows.len() && rows[order[q] as int] is Ok by {
        if q < p {
            assert(order[q] == before[q]);
        } else if q > p {
            assert(order[q] == before[q - 1]);
        }
    }
    assert forall|j: int|
        0 <= j < i + 1 && j < rows.len() && (#[trigger] rows[j]) is Ok implies order.contains(
        j as usize,
    ) by {
        if j != i {
            assert(before.contains(j as usize));
        }
    }
}

impl<S: DatasetView, F: FloatArithmetic> SimpleEvaluator<S, F> {
    /// Compares two results for sorting.
    pub fn compare_for_sort(&self, a: Option<EncodedTerm>, b: Option<EncodedTerm>) -> (c:
        Comparison)
        ensures
            sort_order_outcome(&self.dataset, &self.floats, a, b, c),
    {
        match (a, b) {
            (None, None) => Comparison::Equal,
            (Some(_), None) => Comparison::Greater,
            (None, Some(_)) => Comparison::Less,
            (Some(a), Some(b)) => match a {
                EncodedTerm::BlankNode(x) => match b {
                    EncodedTerm::BlankNode(y) => if x < y {
                        Comparison::Less
                    } else if x == y {
                        Comparison::Equal
                    } else {
                        Comparison::Greater
                    },
                    _ => Comparison::Less,
                },
                EncodedTerm::NamedNode { iri_id: x } => match b {
                    EncodedTerm::NamedNode { iri_id: y } => match self.compare_str_ids(x, y) {
                        Some(c) => c,
                        None => Comparison::Equal,
                    },
                    EncodedTerm::BlankNode(_) => Comparison::Greater,
                    _ => Comparison::Less,
                },
                _ => match b {
                    EncodedTerm::NamedNode { .. } => Comparison::Greater,
                    EncodedTerm::BlankNode(_) => Comparison::Greater,
                    _ => match self.partial_cmp_literals(a, b) {
                        Some(c) => c,
                        None => Comparison::Equal,
                    },
                },
            },
        }
    }

    /// Compares two rows for sorting by what `expression` gives on them.
    pub fn cmp_according_to_expression(
        &self,
        tuple_a: &EncodedTuple,
        tuple_b: &EncodedTuple,
        expression: &PlanExpression,
    ) -> (c: Comparison)
        ensures
            exists|
                a: Option<EncodedTerm>,
                middle: Map<u64, u128>,
                b: Option<EncodedTerm>,
                after: Map<u64, u128>,
            |
                #![trigger evaluated(a, middle), evaluated(b, after)]
                evaluated(a, middle) && evaluated(b, after) && expression_result(
                    &self.dataset,
                    &self.floats,
                    Map::<u64, u128>::empty(),
                    *expression,
                    tuple_a@,
                    a,
                    middle,
                ) && expression_result(&self.dataset, &self.floats, middle, *expression, tuple_b@, b, after)
                    && sort_order_outcome(&self.dataset, &self.floats, a, b, c),
    {
        let mut bnodes = BlankNodeMap::new();
        let a = self.eval_expression_with(expression, tuple_a, &mut bnodes);
        let b = self.eval_expression_with(expression, tuple_b, &mut bnodes);
        self.compare_for_sort(a, b)
    }

    /// Compares two rows by their keys, from key `from` on.
    fn compare_keys_from(
        &self,
        by: &Vec<Comparator>,
        a: &EncodedTuple,
        b: &EncodedTuple,
        from: usize,
    ) -> (c: Comparison)
        requires
            a.len() == by.len(),
            b.len() == by.len(),
        ensures
            keys_order_from(&self.dataset, &self.floats, directions(by@), a@, b@, from as int, c),
        decreases by.len() - from,
    {
        if from >= by.len() {
            Comparison::Equal
        } else {
            let o = self.compare_for_sort(a[from], b[from]);
            let d = match &by[from] {
                Comparator::Asc(_) => o,
                Comparator::Desc(_) => o.reversed(),
            };
            match d {
                Comparison::Equal => self.compare_keys_from(by, a, b, from + 1),
                _ => d,
            }
        }
    }

    /// Compares two rows by their keys.
    pub fn compare_keys(&self, by: &Vec<Comparator>, a: &EncodedTuple, b: &EncodedTuple) -> (c:
        Comparison)
        requires
            a.len() == by.len(),
            b.len() == by.len(),
        ensures
            keys_order(&self.dataset, &self.floats, directions(by@), a@, b@, c),
    {
        self.compare_keys_from(by, a, b, 0)
    }

    /// Puts the place `i` of a tuple into `order`, before the first place
    /// whose row it compares as less than.
    fn place_row(
        &self,
        order: &mut Vec<usize>,
        i: usize,
        rows: &Vec<Row>,
        keys: &Vec<EncodedTuple>,
        by: &Vec<Comparator>,
    )
        requires
            i < rows.len(),
            rows[i as int] is Ok,
            keys_fit(rows@, keys@, by@),
            places_in_order(
                &self.dataset,
                &self.floats,
                directions(by@),
                rows@,
                keys_model(keys@),
                old(order)@,
                i as int,
            ),
        ensures
            places_in_order(
                &self.dataset,
                &self.floats,
                directions(by@),
                rows@,
                keys_model(keys@),
                final(order)@,
                i + 1,
            ),
    {
        let ghost km = keys_model(keys@);
        let ghost desc = directions(by@);
        let mut p: usize = 0;
        let mut found = false;
        while p < order.len() && !found
            invariant
                p <= order.len(),
                i < rows.len(),
                rows[i as int] is Ok,
                keys_fit(rows@, keys@, by@),
                km == keys_model(keys@),
                desc == directions(by@),
                order@ == old(order)@,
                forall|q: int|
                    0 <= q < order.len() ==> 0 <= #[trigger] order[q] < i && rows[order[q] as int]
                        is Ok,
                p > 0 ==> seen_in_order(&self.dataset, &self.floats, desc, km[order[p - 1] as int], km[i as int]),
                found ==> p < order.len() && keys_order(
                    &self.dataset,
                    &self.floats,
                    desc,
                    km[i as int],
                    km[order[p as int] as int],
                    Comparison::Less,
                ),
            decreases order.len() - p + (if found {
                0int
            } else {
                1int
            }),
        {
            let other = order[p];
            let c = self.compare_keys(by, &keys[i], &keys[other]);
            assert(keys_order(&self.dataset, &self.floats, desc, km[i as int], km[other as int], c));
            match c {
                Comparison::Less => {
                    found = true;
                },
                _ => {
                    p = p + 1;
                },
            }
        }
        proof {
            lemma_insert_in_order(&self.dataset, &self.floats, desc, rows@, km, order@, p as int, i);
        }
        order.insert(p, i);
    }

    /// Sorts a stream by the keys of its rows: `keys` holds for each tuple
    /// of `rows` what the expressions of `by` gave on it. A row is put
    /// before the first row that it compares as less than, so rows that
    /// compare as equal keep their order.
    pub fn sort_rows(&self, rows: &Vec<Row>, keys: &Vec<EncodedTuple>, by: &Vec<Comparator>) -> (out:
        Vec<Row>)
        requires
            keys_fit(rows@, keys@, by@),
        ensures
            sorted_outcome(
                &self.dataset,
                &self.floats,
                directions(by@),
                rows_model(rows@),
                keys_model(keys@),
                rows_model(out@),
            ),
    {
        let ghost all = rows_model(rows@);
        let ghost km = keys_model(keys@);
        let ghost desc = directions(by@);
        let mut order: Vec<usize> = Vec::new();
        let mut out: Vec<Row> = Vec::new();
        let mut i: usize = 0;
        proof {
            assert(all.take(0) =~= Seq::empty());
            assert(rows_model(out@) =~= Seq::empty());
        }
        while i < rows.len()
            invariant
                i <= rows.len(),
                keys_fit(rows@, keys@, by@),
                all == rows_model(rows@),
                km == keys_model(keys@),
                desc == directions(by@),
                rows_model(out@) == errors_in_order(all.take(i as int)),
                places_in_order(&self.dataset, &self.floats, desc, rows@, km, order@, i as int),
            decreases rows.len() - i,
        {
            proof {
                assert(all.take(i + 1).drop_last() =~= all.take(i as int));
                assert(all.take(i + 1).last() == row_model(rows@[i as int]));
            }
            match &rows[i] {
                Err(error) => {
                    let row: Row = Err(*error);
                    proof {
                        lemma_rows_model_push(out@, row);
                    }
                    out.push(row);
                },
                Ok(_) => {
                    self.place_row(&mut order, i, rows, keys, by);
                },
            }
            i = i + 1;
        }
        let ghost places = Seq::new(order@.len(), |p: int| order@[p] as int);
        let ghost errors = rows_model(out@);
        let mut p: usize = 0;
        proof {
            assert(all.take(rows.len() as int) =~= all);
            assert(errors + rows_at(all, places).take(0) =~= errors);
        }
        while p < order.len()
            invariant
                p <= order.len(),
                all == rows_model(rows@),
                places == Seq::new(order@.len(), |p: int| order@[p] as int),
                forall|q: int| 0 <= q < order.len() ==> 0 <= #[trigger] order[q] < rows.len(),
                rows_model(out@) == errors + rows_at(all, places).take(p as int),
            decreases order.len() - p,
        {
            let row = copy_row(&rows[order[p]]);
            proof {
                lemma_rows_model_push(out@, row);
                assert((errors + rows_at(all, places).take(p as int)).push(row_model(row))
                    =~= errors + rows_at(all, places).take(p + 1));
            }
            out.push(row);
            p = p + 1;
        }
        proof {
            assert(rows_at(all, places).take(order.len() as int) =~= rows_at(all, places));
            assert(lists_tuples(all, places)) by {
                assert forall|i: int| 0 <= i < all.len()
                    && (#[trigger] all[i]) is Ok implies places.contains(
                    i,
                ) by {
                    assert(rows[i] is Ok);
                    let q = choose|q: int| 0 <= q < order@.len() && order@[q] == i as usize;
                    assert(places[q] == i);
                }
                assert forall|p: int| 0 <= p < places.len() implies 0 <= #[trigger] places[p]
                    < all.len() && all[places[p]] is Ok by {
                    assert(rows[order[p] as int] is Ok);
                }
            }
            assert(neighbours_in_order(&self.dataset, &self.floats, desc, km, places)) by {
                assert forall|p: int| 0 <= p < places.len() - 1 implies seen_in_order(
                    &self.dataset,
                    &self.floats,
                    desc,
                    km[#[trigger] places[p]],
                    km[places[p + 1]],
                ) by {
                    assert(places[p] == order[p] as int);
                    assert(places[p + 1] == order[p + 1] as int);
                }
            }
        }
        out
    }
}

} // verus!

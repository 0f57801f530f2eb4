//! Rows of bindings: reading and writing slots, and the merge of two rows
//! that a join rests on.

use vstd::prelude::*;
use crate::plan::PatternValue;
use crate::term::EncodedTerm;
use crate::term::EncodedTuple;

verus! {

/// The term in slot `variable`, none where the slot is unbound or past the end.
pub open spec fn tuple_value(variable: int, tuple: Seq<Option<EncodedTerm>>) -> Option<
    EncodedTerm,
> {
    if 0 <= variable < tuple.len() {
        tuple[variable]
    } else {
        None
    }
}

/// `tuple` with `value` in slot `position`, grown with unbound slots where
/// `position` is past the end.
pub open spec fn with_value(
    tuple: Seq<Option<EncodedTerm>>,
    position: int,
    value: EncodedTerm,
) -> Seq<Option<EncodedTerm>> {
    Seq::new(
        if position < tuple.len() {
            tuple.len()
        } else {
            (position + 1) as nat
        },
        |i: int|
            if i == position {
                Some(value)
            } else {
                tuple_value(i, tuple)
            },
    )
}

/// What a pattern position stands for under `tuple`: its constant, or what
/// its variable is bound to.
pub open spec fn pattern_value(selector: PatternValue, tuple: Seq<Option<EncodedTerm>>) -> Option<
    EncodedTerm,
> {
    match selector {
        PatternValue::Constant(term) => Some(term),
        PatternValue::Variable(v) => tuple_value(v as int, tuple),
    }
}

/// `tuple` after a match put `value` at a pattern position: a variable is
/// bound to it, a constant writes nothing.
pub open spec fn with_pattern_value(
    selector: PatternValue,
    value: EncodedTerm,
    tuple: Seq<Option<EncodedTerm>>,
) -> Seq<Option<EncodedTerm>> {
    match selector {
        PatternValue::Constant(_) => tuple,
        PatternValue::Variable(v) => with_value(tuple, v as int, value),
    }
}

/// The variables of `set` that `binding` binds, in the order of `set`.
pub open spec fn bound_variables(binding: Seq<Option<EncodedTerm>>, set: Seq<usize>) -> Seq<
    usize,
> {
    set.filter(|key: usize| tuple_value(key as int, binding) is Some)
}

/// `binding` with every slot named in `variables` unbound.
pub open spec fn without_variables(
    binding: Seq<Option<EncodedTerm>>,
    variables: Seq<usize>,
) -> Seq<Option<EncodedTerm>> {
    Seq::new(
        binding.len(),
        |i: int|
            if variables.contains(i as usize) {
                None
            } else {
                binding[i]
            },
    )
}

/// Two rows agree: no slot is bound in both to different terms.
pub open spec fn compatible(a: Seq<Option<EncodedTerm>>, b: Seq<Option<EncodedTerm>>) -> bool {
    forall|i: int|
        0 <= i < a.len() && i < b.len() && (#[trigger] a[i]) is Some && (#[trigger] b[i]) is Some
            ==> a[i] == b[i]
}

/// The union of the bindings of two rows; where both bind a slot, `a`'s term.
pub open spec fn merged(a: Seq<Option<EncodedTerm>>, b: Seq<Option<EncodedTerm>>) -> Seq<
    Option<EncodedTerm>,
> {
    Seq::new(
        if a.len() < b.len() {
            b.len()
        } else {
            a.len()
        },
        |i: int|
            if tuple_value(i, a) is Some {
                tuple_value(i, a)
            } else {
                tuple_value(i, b)
            },
    )
}

/// The term in slot `variable`; a slot past the end is unbound.
pub fn get_tuple_value(variable: usize, tuple: &EncodedTuple) -> (value: Option<EncodedTerm>)
    ensures
        value == tuple_value(variable as int, tuple@),
{
    if variable < tuple.len() {
        tuple[variable]
    } else {
        None
    }
}

/// Whether slot `variable` is bound.
pub fn has_tuple_value(variable: usize, tuple: &EncodedTuple) -> (bound: bool)
    ensures
        bound == (tuple_value(variable as int, tuple@) is Some),
{
    if variable < tuple.len() {
        tuple[variable].is_some()
    } else {
        false
    }
}

/// What a pattern position stands for under `tuple`.
pub fn get_pattern_value(selector: &PatternValue, tuple: &EncodedTuple) -> (value: Option<
    EncodedTerm,
>)
    ensures
        value == pattern_value(*selector, tuple@),
{
    match selector {
        PatternValue::Constant(term) => Some(*term),
        PatternValue::Variable(v) => get_tuple_value(*v, tuple),
    }
}

/// Writes the term of a match to the variable of a pattern position; a
/// constant writes nothing.
pub fn put_pattern_value(selector: &PatternValue, value: EncodedTerm, tuple: &mut EncodedTuple)
    requires
        selector matches PatternValue::Variable(v) ==> v < usize::MAX,
    ensures
        final(tuple)@ == with_pattern_value(*selector, value, old(tuple)@),
{
    match selector {
        PatternValue::Constant(_) => (),
        PatternValue::Variable(v) => put_value(*v, value, tuple),
    }
}

/// Binds slot `position` to `value`. A row cannot have a slot numbered
/// `usize::MAX`, for its length would not fit.
pub fn put_value(position: usize, value: EncodedTerm, tuple: &mut EncodedTuple)
    requires
        position < usize::MAX,
    ensures
        final(tuple)@ == with_value(old(tuple)@, position as int, value),
{
    if position < tuple.len() {
        tuple.set(position, Some(value));
    } else {
        while tuple.len() < position
            invariant
                old(tuple)@.len() <= tuple@.len() <= position,
                forall|i: int| 0 <= i < old(tuple)@.len() ==> tuple@[i] == old(tuple)@[i],
                forall|i: int| old(tuple)@.len() <= i < tuple@.len() ==> tuple@[i] is None,
            decreases position - tuple.len(),
        {
            tuple.push(None);
        }
        tuple.push(Some(value));
    }
    assert(tuple@ =~= with_value(old(tuple)@, position as int, value));
}

/// The variables of `set` that `binding` binds.
pub fn bind_variables_in_set(binding: &EncodedTuple, set: &Vec<usize>) -> (bound: Vec<usize>)
    ensures
        bound@ == bound_variables(binding@, set@),
{
    let mut bound: Vec<usize> = Vec::new();
    let mut i: usize = 0;
    let ghost pred = |key: usize| tuple_value(key as int, binding@) is Some;
    proof {
        reveal_with_fuel(Seq::filter, 1);
        assert(set@.take(0) =~= Seq::<usize>::empty());
    }
    while i < set.len()
        invariant
            i <= set.len(),
            pred == |key: usize| tuple_value(key as int, binding@) is Some,
            bound@ == set@.take(i as int).filter(pred),
        decreases set.len() - i,
    {
        let key = set[i];
        proof {
            reveal_with_fuel(Seq::filter, 1);
            assert(set@.take(i + 1).drop_last() =~= set@.take(i as int));
            assert(set@.take(i + 1).last() == key);
        }
        if has_tuple_value(key, binding) {
            bound.push(key);
        }
        i = i + 1;
    }
    assert(set@.take(set.len() as int) =~= set@);
    bound
}

/// Unbinds every slot named in `variables`.
pub fn unbind_variables(binding: &mut EncodedTuple, variables: &Vec<usize>)
    ensures
        final(binding)@ == without_variables(old(binding)@, variables@),
{
    let mut k: usize = 0;
    while k < variables.len()
        invariant
            k <= variables.len(),
            binding@ =~= without_variables(old(binding)@, variables@.take(k as int)),
        decreases variables.len() - k,
    {
        let var = variables[k];
        let ghost previous = binding@;
        if var < binding.len() {
            binding.set(var, None);
        }
        proof {
            let before = variables@.take(k as int);
            let after = variables@.take(k + 1);
            assert(after =~= before.push(var));
            assert(after[k as int] == var);
            assert forall|i: int| 0 <= i < binding@.len() implies binding@[i] == without_variables(
                old(binding)@,
                after,
            )[i] by {
                if i == var as int {
                    assert(after.contains(i as usize));
                } else {
                    assert(binding@[i] == previous[i]);
                    if before.contains(i as usize) {
                        let j = choose|j: int| 0 <= j < before.len() && before[j] == i as usize;
                        assert(after[j] == i as usize);
                    }
                    if after.contains(i as usize) {
                        let j = choose|j: int| 0 <= j < after.len() && after[j] == i as usize;
                        assert(j < before.len());
                        assert(before[j] == i as usize);
                    }
                }
            }
        }
        k = k + 1;
    }
    assert(variables@.take(variables.len() as int) =~= variables@);
}

/// Merges two rows if they agree: the result carries the bindings of both.
/// Where a slot is bound in both to different terms there is no merged row.
pub fn combine_tuples(a: &EncodedTuple, b: &EncodedTuple) -> (combined: Option<EncodedTuple>)
    ensures
        compatible(a@, b@) ==> (combined matches Some(tuple) && tuple@ == merged(a@, b@)),
        !compatible(a@, b@) ==> combined is None,
{
    let length = if a.len() < b.len() {
        b.len()
    } else {
        a.len()
    };
    let mut result: EncodedTuple = Vec::new();
    let mut key: usize = 0;
    while key < length
        invariant
            key <= length,
            length == if a@.len() < b@.len() {
                b@.len()
            } else {
                a@.len()
            },
            result@.len() == key,
            forall|i: int|
                0 <= i < key && i < a@.len() && i < b@.len() && (#[trigger] a@[i]) is Some && (
                #[trigger] b@[i]) is Some ==> a@[i] == b@[i],
            forall|i: int| 0 <= i < key ==> #[trigger] result@[i] == merged(a@, b@)[i],
        decreases length - key,
    {
        let a_value = get_tuple_value(key, a);
        let b_value = get_tuple_value(key, b);
        match a_value {
            Some(a_term) => {
                match b_value {
                    Some(b_term) => {
                        if a_term != b_term {
                            assert(a@[key as int] is Some && b@[key as int] is Some);
                            return None;
                        }
                    },
                    None => {},
                }
                result.push(a_value);
            },
            None => {
                result.push(b_value);
            },
        }
        key = key + 1;
    }
    assert(result@ =~= merged(a@, b@));
    Some(result)
}

/// Merging rows that agree does not depend on their order.
pub proof fn lemma_merged_symmetric(a: Seq<Option<EncodedTerm>>, b: Seq<Option<EncodedTerm>>)
    requires
        compatible(a, b),
    ensures
        compatible(b, a),
        merged(a, b) == merged(b, a),
{
    assert(merged(a, b) =~= merged(b, a)) by {
        assert forall|i: int| 0 <= i < merged(a, b).len() implies merged(a, b)[i] == merged(
            b,
            a,
        )[i] by {
            if i < a.len() && i < b.len() && a[i] is Some && b[i] is Some {
                assert(a[i] == b[i]);
            }
        }
    }
}

} // verus!

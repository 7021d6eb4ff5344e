//! Searching sequences: the first element that meets a condition, and what
//! holds of a pass over a sequence that stops at the first failure.

use vstd::prelude::*;

verus! {

/// The views of `items`, in order.
pub open spec fn views<T: View>(items: Seq<T>) -> Seq<T::V> {
    items.map_values(|item: T| item@)
}

/// The index of the first element of `items` that meets `wanted`.
pub open spec fn first_where<T>(items: Seq<T>, wanted: spec_fn(T) -> bool) -> Option<int>
    decreases items.len(),
{
    if items.len() == 0 {
        None
    } else {
        match first_where(items.drop_last(), wanted) {
            Some(index) => Some(index),
            None => if wanted(items.last()) {
                Some(items.len() - 1)
            } else {
                None
            },
        }
    }
}

/// The condition of being equal to `item`.
pub open spec fn same_as<T>(item: T) -> spec_fn(T) -> bool {
    |other: T| other == item
}

/// The index of the first element of `items` equal to `item`.
pub open spec fn first_position<T>(items: Seq<T>, item: T) -> Option<int> {
    first_where(items, same_as(item))
}

/// `first_where` finds an element that meets the condition, no element before
/// it does, and it finds one whenever there is one.
pub proof fn lemma_first_where<T>(items: Seq<T>, wanted: spec_fn(T) -> bool)
    ensures
        match first_where(items, wanted) {
            Some(index) => 0 <= index < items.len() && wanted(items[index]) && forall|j: int|
                0 <= j < index ==> !wanted(#[trigger] items[j]),
            None => forall|j: int| 0 <= j < items.len() ==> !wanted(#[trigger] items[j]),
        },
    decreases items.len(),
{
    if items.len() > 0 {
        lemma_first_where(items.drop_last(), wanted);
        assert forall|j: int| 0 <= j < items.len() - 1 implies items.drop_last()[j]
            == items[j] by {}
        match first_where(items.drop_last(), wanted) {
            Some(index) => {
                assert(items.drop_last()[index] == items[index]);
                assert forall|j: int| 0 <= j < index implies !wanted(#[trigger] items[j]) by {
                    assert(items.drop_last()[j] == items[j]);
                }
            },
            None => {
                assert forall|j: int| 0 <= j < items.len() - 1 implies !wanted(
                    #[trigger] items[j],
                ) by {
                    assert(items.drop_last()[j] == items[j]);
                }
            },
        }
    }
}

/// The element at `index` is the one that `first_where` finds when it meets
/// the condition and no element before it does.
pub proof fn lemma_first_where_found<T>(items: Seq<T>, wanted: spec_fn(T) -> bool, index: int)
    requires
        0 <= index < items.len(),
        wanted(items[index]),
        forall|j: int| 0 <= j < index ==> !wanted(#[trigger] items[j]),
    ensures
        first_where(items, wanted) == Some(index),
{
    lemma_first_where(items, wanted);
}

/// `first_where` finds nothing when no element meets the condition.
pub proof fn lemma_first_where_none<T>(items: Seq<T>, wanted: spec_fn(T) -> bool)
    requires
        forall|j: int| 0 <= j < items.len() ==> !wanted(#[trigger] items[j]),
    ensures
        first_where(items, wanted) is None,
{
    lemma_first_where(items, wanted);
}

/// The condition of failing `step`.
pub open spec fn fails<T, E>(step: spec_fn(T) -> (T, Result<(), E>)) -> spec_fn(T) -> bool {
    |item: T| step(item).1 is Err
}

/// A pass over `items` that applies `step` to each element in order and stops
/// after the first element on which `step` fails.
///
/// The elements up to and including the one that failed are replaced by what
/// `step` made of them; those after it stay as they were. The result is the
/// failure, or success when no element failed.
pub open spec fn pass<T, E>(items: Seq<T>, step: spec_fn(T) -> (T, Result<(), E>)) -> (
    Seq<T>,
    Result<(), E>,
) {
    let stop = first_where(items, fails(step));
    (
        Seq::new(
            items.len(),
            |i: int|
                if stop matches Some(k) && i > k {
                    items[i]
                } else {
                    step(items[i]).0
                },
        ),
        match stop {
            Some(k) => step(items[k]).1,
            None => Ok(()),
        },
    )
}

/// A pass that has handled the first `done` elements without failure and
/// fails on the next one is a finished pass that failed.
pub proof fn lemma_pass_failed<T, E>(
    before: Seq<T>,
    step: spec_fn(T) -> (T, Result<(), E>),
    after: Seq<T>,
    done: int,
)
    requires
        0 <= done < before.len(),
        after.len() == before.len(),
        forall|j: int| 0 <= j < done ==> step(#[trigger] before[j]).1 is Ok,
        forall|j: int| 0 <= j <= done ==> #[trigger] after[j] == step(before[j]).0,
        forall|j: int| done < j < before.len() ==> #[trigger] after[j] == before[j],
        step(before[done]).1 is Err,
    ensures
        pass(before, step) == (after, step(before[done]).1),
{
    assert forall|j: int| 0 <= j < done implies !fails(step)(#[trigger] before[j]) by {
        assert(step(before[j]).1 is Ok);
    }
    lemma_first_where_found(before, fails(step), done);
    assert(pass(before, step).0 =~= after);
}

/// A pass that has handled every element without failure is a finished pass
/// that succeeded.
pub proof fn lemma_pass_succeeded<T, E>(
    before: Seq<T>,
    step: spec_fn(T) -> (T, Result<(), E>),
    after: Seq<T>,
)
    requires
        after.len() == before.len(),
        forall|j: int| 0 <= j < before.len() ==> step(#[trigger] before[j]).1 is Ok,
        forall|j: int| 0 <= j < before.len() ==> #[trigger] after[j] == step(before[j]).0,
    ensures
        pass(before, step) == (after, Ok::<(), E>(())),
{
    assert forall|j: int| 0 <= j < before.len() implies !fails(step)(#[trigger] before[j]) by {
        assert(step(before[j]).1 is Ok);
    }
    lemma_first_where_none(before, fails(step));
    assert(pass(before, step).0 =~= after);
}

} // verus!

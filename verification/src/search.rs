//! Finding the first item of a list that meets a condition.

use vstd::prelude::*;

verus! {

/// The position of the first item at `from` or behind it that meets `cond`.
pub open spec fn first_from<T>(items: Seq<T>, cond: spec_fn(T) -> bool, from: int) -> Option<int>
    decreases items.len() - from,
{
    if from < 0 || from >= items.len() {
        None
    } else if cond(items[from]) {
        Some(from)
    } else {
        first_from(items, cond, from + 1)
    }
}

/// The position of the first item that meets `cond`.
pub open spec fn first_where<T>(items: Seq<T>, cond: spec_fn(T) -> bool) -> Option<int> {
    first_from(items, cond, 0)
}

/// What `first_where` finds is the one position that meets the condition with none
/// before it that does.
pub proof fn first_where_is_first<T>(items: Seq<T>, cond: spec_fn(T) -> bool)
    ensures
        match first_where(items, cond) {
            Some(i) => 0 <= i < items.len() && cond(items[i]) && forall|j: int|
                0 <= j < i ==> !cond(#[trigger] items[j]),
            None => forall|j: int| 0 <= j < items.len() ==> !cond(#[trigger] items[j]),
        },
{
    lemma_first_from(items, cond, 0);
}

proof fn lemma_first_from<T>(items: Seq<T>, cond: spec_fn(T) -> bool, from: int)
    requires
        0 <= from <= items.len(),
    ensures
        match first_from(items, cond, from) {
            Some(i) => from <= i < items.len() && cond(items[i]) && forall|j: int|
                from <= j < i ==> !cond(#[trigger] items[j]),
            None => forall|j: int| from <= j < items.len() ==> !cond(#[trigger] items[j]),
        },
    decreases items.len() - from,
{
    if from < items.len() && !cond(items[from]) {
        lemma_first_from(items, cond, from + 1);
    }
}

/// Items that do not meet the condition can be skipped.
pub(crate) proof fn lemma_first_where_at<T>(items: Seq<T>, cond: spec_fn(T) -> bool, i: int)
    requires
        0 <= i <= items.len(),
        forall|j: int| 0 <= j < i ==> !cond(#[trigger] items[j]),
    ensures
        first_where(items, cond) == first_from(items, cond, i),
    decreases i,
{
    if i > 0 {
        lemma_first_where_at(items, cond, i - 1);
        assert(!cond(items[i - 1]));
    }
}

} // verus!

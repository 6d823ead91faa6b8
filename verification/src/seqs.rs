//! Facts about sequences, and copies of optional text.

use vstd::prelude::*;

verus! {

/// Filtering one more item of a sequence.
pub proof fn filter_step<A>(s: Seq<A>, i: int, pred: spec_fn(A) -> bool)
    requires
        0 <= i < s.len(),
    ensures
        s.take(i + 1).filter(pred) == if pred(s[i]) {
            s.take(i).filter(pred).push(s[i])
        } else {
            s.take(i).filter(pred)
        },
{
    reveal(Seq::filter);
    assert(s.take(i + 1).drop_last() =~= s.take(i));
    assert(s.take(i + 1).last() == s[i]);
}

/// Nothing is left of nothing.
pub proof fn filter_none<A>(s: Seq<A>, pred: spec_fn(A) -> bool)
    ensures
        s.take(0).filter(pred) == Seq::<A>::empty(),
{
    reveal(Seq::filter);
    assert(s.take(0) =~= Seq::empty());
}

/// What is left after filtering has the property.
pub proof fn filter_holds<A>(s: Seq<A>, pred: spec_fn(A) -> bool)
    ensures
        s.filter(pred).len() <= s.len(),
        forall|i: int| 0 <= i < s.filter(pred).len() ==> pred(#[trigger] s.filter(pred)[i]),
    decreases s.len(),
{
    reveal(Seq::filter);
    if s.len() > 0 {
        filter_holds(s.drop_last(), pred);
    }
}

/// What is left after filtering was there before.
pub proof fn filter_comes_from<A>(s: Seq<A>, pred: spec_fn(A) -> bool, i: int)
    requires
        0 <= i < s.filter(pred).len(),
    ensures
        exists|k: int| 0 <= k < s.len() && #[trigger] s[k] == s.filter(pred)[i],
    decreases s.len(),
{
    reveal(Seq::filter);
    let rest = s.drop_last();
    if i < rest.filter(pred).len() {
        filter_comes_from(rest, pred, i);
        let k = choose|k: int| 0 <= k < rest.len() && #[trigger] rest[k] == rest.filter(pred)[i];
        assert(s[k] == s.filter(pred)[i]);
    } else {
        assert(s[s.len() - 1] == s.filter(pred)[i]);
    }
}

/// What has the property is left after filtering.
pub proof fn filter_keeps<A>(s: Seq<A>, pred: spec_fn(A) -> bool, k: int)
    requires
        0 <= k < s.len(),
        pred(s[k]),
    ensures
        s.filter(pred).contains(s[k]),
    decreases s.len(),
{
    reveal(Seq::filter);
    let rest = s.drop_last();
    let kept = rest.filter(pred);
    if k < rest.len() {
        filter_keeps(rest, pred, k);
        let i = choose|i: int| 0 <= i < kept.len() && kept[i] == rest[k];
        assert(s.filter(pred)[i] == s[k]);
    } else {
        assert(s.filter(pred)[kept.len() as int] == s[k]);
    }
}

/// Where the first item with a property stands.
pub open spec fn first_index<A>(s: Seq<A>, pred: spec_fn(A) -> bool) -> Option<int>
    decreases s.len(),
{
    if s.len() == 0 {
        None
    } else {
        match first_index(s.drop_last(), pred) {
            Some(i) => Some(i),
            None => if pred(s.last()) {
                Some(s.len() - 1)
            } else {
                None
            },
        }
    }
}

/// The first item with a property has it, and none before it does.
pub proof fn first_index_holds<A>(s: Seq<A>, pred: spec_fn(A) -> bool)
    ensures
        match first_index(s, pred) {
            Some(i) => 0 <= i < s.len() && pred(s[i]) && forall|j: int|
                0 <= j < i ==> !pred(#[trigger] s[j]),
            None => forall|j: int| 0 <= j < s.len() ==> !pred(#[trigger] s[j]),
        },
    decreases s.len(),
{
    if s.len() > 0 {
        let rest = s.drop_last();
        first_index_holds(rest, pred);
        assert forall|j: int| 0 <= j < rest.len() implies rest[j] == #[trigger] s[j] by {}
    }
}

/// An item that has the property while none before it does is the first.
pub proof fn first_index_is<A>(s: Seq<A>, pred: spec_fn(A) -> bool, i: int)
    requires
        0 <= i < s.len(),
        pred(s[i]),
        forall|j: int| 0 <= j < i ==> !pred(#[trigger] s[j]),
    ensures
        first_index(s, pred) == Some(i),
{
    first_index_holds(s, pred);
}

/// Where no item has the property there is no first.
pub proof fn first_index_none<A>(s: Seq<A>, pred: spec_fn(A) -> bool)
    requires
        forall|j: int| 0 <= j < s.len() ==> !pred(#[trigger] s[j]),
    ensures
        first_index(s, pred) == None::<int>,
{
    first_index_holds(s, pred);
}

/// A sequence with the item at `from` taken out and put back at `to`.
pub open spec fn moved<A>(s: Seq<A>, from: int, to: int) -> Seq<A> {
    s.remove(from).insert(to, s[from])
}

/// Where the item at `i` is after the item at `from` went to `to`.
pub open spec fn moved_index(i: int, from: int, to: int) -> int {
    if i == from {
        to
    } else if from < i <= to {
        i - 1
    } else if to <= i < from {
        i + 1
    } else {
        i
    }
}

/// Moving an item keeps every item, and `moved_index` says where each one is.
pub proof fn moving_keeps_items<A>(s: Seq<A>, from: int, to: int)
    requires
        0 <= from < s.len(),
        0 <= to < s.len(),
    ensures
        moved(s, from, to).len() == s.len(),
        forall|i: int|
            0 <= i < s.len() ==> 0 <= #[trigger] moved_index(i, from, to) < s.len() && moved(s, from, to)[moved_index(
                i,
                from,
                to,
            )] == s[i],
        forall|i: int, j: int|
            0 <= i < j < s.len() ==> #[trigger] moved_index(i, from, to) != #[trigger] moved_index(j, from, to),
{
}

/// The text of an optional string.
pub open spec fn maybe_text(o: Option<String>) -> Option<Seq<char>> {
    match o {
        Some(s) => Some(s@),
        None => None,
    }
}

/// A copy of an optional string.
pub fn copy_maybe(o: &Option<String>) -> (r: Option<String>)
    ensures
        r == *o,
{
    match o {
        Some(s) => Some(s.clone()),
        None => None,
    }
}

} // verus!

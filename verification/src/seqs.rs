//! Searching and filtering sequences.

use vstd::prelude::*;

verus! {

/// The index of the first item of `s` that satisfies `wanted`.
pub open spec fn find<T>(s: Seq<T>, wanted: spec_fn(T) -> bool) -> Option<int>
    decreases s.len(),
{
    if s.len() == 0 {
        None
    } else {
        match find(s.drop_last(), wanted) {
            Some(i) => Some(i),
            None => if wanted(s.last()) {
                Some(s.len() - 1)
            } else {
                None
            },
        }
    }
}

/// [`find`] gives an item that is wanted and none before it, and nothing only
/// where nothing is wanted.
pub proof fn lemma_find<T>(s: Seq<T>, wanted: spec_fn(T) -> bool)
    ensures
        match find(s, wanted) {
            Some(i) => {
                &&& 0 <= i < s.len()
                &&& wanted(s[i])
                &&& forall|j: int| 0 <= j < i ==> !wanted(#[trigger] s[j])
            },
            None => forall|j: int| 0 <= j < s.len() ==> !wanted(#[trigger] s[j]),
        },
    decreases s.len(),
{
    if s.len() > 0 {
        lemma_find(s.drop_last(), wanted);
        assert forall|j: int| 0 <= j < s.len() - 1 implies s.drop_last()[j] == #[trigger] s[j] by {}
    }
}

/// An index with nothing wanted before it is the one that [`find`] gives.
pub proof fn lemma_found<T>(s: Seq<T>, wanted: spec_fn(T) -> bool, i: int)
    requires
        0 <= i < s.len(),
        wanted(s[i]),
        forall|j: int| 0 <= j < i ==> !wanted(#[trigger] s[j]),
    ensures
        find(s, wanted) == Some(i),
{
    lemma_find(s, wanted);
}

/// Where nothing is wanted, [`find`] gives nothing.
pub proof fn lemma_not_found<T>(s: Seq<T>, wanted: spec_fn(T) -> bool)
    requires
        forall|j: int| 0 <= j < s.len() ==> !wanted(#[trigger] s[j]),
    ensures
        find(s, wanted) == None::<int>,
{
    lemma_find(s, wanted);
}

/// What is left of a sequence was in it.
pub proof fn lemma_filter_keeps_items<A>(s: Seq<A>, keep: spec_fn(A) -> bool)
    ensures
        s.filter(keep).len() <= s.len(),
        forall|i: int|
            0 <= i < s.filter(keep).len() ==> s.contains(#[trigger] s.filter(keep)[i]),
    decreases s.len(),
{
    reveal(Seq::filter);
    if s.len() > 0 {
        let rest = s.drop_last();
        lemma_filter_keeps_items(rest, keep);
        assert forall|i: int| 0 <= i < s.filter(keep).len() implies s.contains(
            #[trigger] s.filter(keep)[i],
        ) by {
            if i < rest.filter(keep).len() {
                assert(rest.contains(rest.filter(keep)[i]));
                let k = rest.index_of(rest.filter(keep)[i]);
                assert(s[k] == rest[k]);
            } else {
                assert(s[s.len() - 1] == s.filter(keep)[i]);
            }
        }
    }
}

/// What is left of a sequence without duplicates has none, and holds only what it keeps.
pub proof fn lemma_filter_keeps_no_duplicates<A>(s: Seq<A>, keep: spec_fn(A) -> bool)
    requires
        s.no_duplicates(),
    ensures
        s.filter(keep).no_duplicates(),
        forall|x: A| #[trigger] s.filter(keep).contains(x) ==> s.contains(x) && keep(x),
    decreases s.len(),
{
    reveal(Seq::filter);
    if s.len() > 0 {
        let rest = s.drop_last();
        lemma_filter_keeps_no_duplicates(rest, keep);
        assert forall|x: A| #[trigger] s.filter(keep).contains(x) implies s.contains(x) && keep(
            x,
        ) by {
            let i = s.filter(keep).index_of(x);
            if i < rest.filter(keep).len() {
                assert(rest.filter(keep)[i] == x);
                assert(rest.filter(keep).contains(x));
                assert(rest.contains(x));
                let k = rest.index_of(x);
                assert(s[k] == x);
            } else {
                assert(s[s.len() - 1] == x);
            }
        }
        if keep(s.last()) {
            assert(!rest.contains(s.last()));
            assert(!rest.filter(keep).contains(s.last()));
            let kept = rest.filter(keep);
            assert(s.filter(keep) == kept.push(s.last()));
            assert forall|i: int, j: int|
                0 <= i < j < s.filter(keep).len() implies s.filter(keep)[i] != s.filter(
                keep,
            )[j] by {
                if j == kept.len() {
                    assert(kept.contains(kept[i]));
                }
            }
        }
    }
}

/// A sequence of items that are all kept is left as it was.
pub proof fn lemma_filter_of_all<A>(s: Seq<A>, keep: spec_fn(A) -> bool)
    requires
        forall|i: int| 0 <= i < s.len() ==> keep(#[trigger] s[i]),
    ensures
        s.filter(keep) == s,
    decreases s.len(),
{
    reveal(Seq::filter);
    if s.len() > 0 {
        lemma_filter_of_all(s.drop_last(), keep);
        assert(keep(s[s.len() - 1]));
        assert(s.drop_last().push(s.last()) == s);
    }
}

/// Two tests that agree on every item leave the same.
pub proof fn lemma_filter_same<A>(s: Seq<A>, keep: spec_fn(A) -> bool, other: spec_fn(A) -> bool)
    requires
        forall|x: A| #[trigger] keep(x) == other(x),
    ensures
        s.filter(keep) == s.filter(other),
    decreases s.len(),
{
    reveal(Seq::filter);
    if s.len() > 0 {
        lemma_filter_same(s.drop_last(), keep, other);
        assert(keep(s.last()) == other(s.last()));
    }
}

/// Of a sequence without duplicates, leaving one item out removes one place.
pub proof fn lemma_filter_removes_one<A>(s: Seq<A>, keep: spec_fn(A) -> bool, item: A)
    requires
        s.no_duplicates(),
        s.contains(item),
        forall|x: A| #[trigger] keep(x) == (x != item),
    ensures
        s.filter(keep).len() + 1 == s.len(),
    decreases s.len(),
{
    reveal(Seq::filter);
    let rest = s.drop_last();
    if s.last() == item {
        assert forall|i: int| 0 <= i < rest.len() implies keep(#[trigger] rest[i]) by {
            assert(s[i] != s[s.len() - 1]);
        }
        lemma_filter_of_all(rest, keep);
    } else {
        let i = s.index_of(item);
        assert(rest[i] == item);
        lemma_filter_removes_one(rest, keep, item);
    }
}

/// The items of `items` that satisfy `wanted`, in their order, where `keep` tests an item
/// for it.
pub(crate) fn kept<T: Copy, F: Fn(T) -> bool>(
    items: &Vec<T>,
    keep: F,
    Ghost(wanted): Ghost<spec_fn(T) -> bool>,
) -> (left: Vec<T>)
    requires
        forall|item: T| #[trigger] call_requires(keep, (item,)),
        forall|item: T, yes: bool| #[trigger]
            call_ensures(keep, (item,), yes) ==> yes == wanted(item),
    ensures
        left@ == items@.filter(wanted),
{
    let mut left: Vec<T> = Vec::new();
    assert(items@.take(0).filter(wanted) == Seq::<T>::empty()) by {
        reveal(Seq::filter);
    }
    for i in 0..items.len()
        invariant
            forall|item: T| #[trigger] call_requires(keep, (item,)),
            forall|item: T, yes: bool| #[trigger]
                call_ensures(keep, (item,), yes) ==> yes == wanted(item),
            left@ == items@.take(i as int).filter(wanted),
    {
        proof {
            reveal(Seq::filter);
            assert(items@.take(i + 1).drop_last() == items@.take(i as int));
            assert(items@.take(i + 1).last() == items@[i as int]);
        }
        let item = items[i];
        if keep(item) {
            left.push(item);
        }
    }
    assert(items@.take(items.len() as int) == items@);
    left
}

} // verus!

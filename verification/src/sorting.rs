//! A stable sort.

use vstd::prelude::*;

use crate::order::Order;

verus! {

/// Values with a total order. Two values may compare equal without being the same.
pub trait Ranked: View + Sized {
    /// How `a` stands to `b`.
    spec fn order(a: Self::V, b: Self::V) -> Order;

    /// The order is the same from both sides, and "not after" is transitive.
    proof fn order_is_total(a: Self::V, b: Self::V, c: Self::V)
        ensures
            Self::order(a, b) == Self::order(b, a).flip(),
            Self::order(a, b) != Order::Greater && Self::order(b, c) != Order::Greater
                ==> Self::order(a, c) != Order::Greater,
    ;

    /// How `self` stands to `other`.
    fn compare(&self, other: &Self) -> (order: Order)
        ensures
            order == Self::order(self@, other@),
    ;
}

/// What the items of `items` stand for.
pub open spec fn views<T: View>(items: Seq<T>) -> Seq<T::V> {
    items.map_values(|item: T| item@)
}

/// Is no item of `s` after one that follows it?
pub open spec fn is_sorted<T: Ranked>(s: Seq<T::V>) -> bool {
    forall|i: int, j: int| 0 <= i < j < s.len() ==> T::order(#[trigger] s[i], #[trigger] s[j])
        != Order::Greater
}

/// The items of `s` that compare equal to `key`, in the order they have in `s`.
pub open spec fn equal_to<T: Ranked>(s: Seq<T::V>, key: T::V) -> Seq<T::V> {
    s.filter(|item: T::V| T::order(item, key) == Order::Equal)
}

/// Is `sorted` the stable arrangement of `items`: the same items, in order, and
/// those that compare equal among each other as they stood?
pub open spec fn is_arrangement<T: Ranked>(sorted: Seq<T::V>, items: Seq<T::V>) -> bool {
    &&& is_sorted::<T>(sorted)
    &&& sorted.to_multiset() == items.to_multiset()
    &&& forall|key: T::V| #[trigger] equal_to::<T>(sorted, key) == equal_to::<T>(items, key)
}

proof fn lemma_filter_of_one<A>(x: A, keep: spec_fn(A) -> bool)
    ensures
        seq![x].filter(keep) == (if keep(x) {
            seq![x]
        } else {
            Seq::empty()
        }),
{
    reveal(Seq::filter);
    assert(seq![x].drop_last() == Seq::<A>::empty());
    assert(Seq::<A>::empty().filter(keep) == Seq::<A>::empty());
    assert(seq![x].last() == x);
    assert(Seq::<A>::empty().push(x) == seq![x]);
}

proof fn lemma_filter_of_none<A>(s: Seq<A>, keep: spec_fn(A) -> bool)
    requires
        forall|i: int| 0 <= i < s.len() ==> !keep(#[trigger] s[i]),
    ensures
        s.filter(keep) == Seq::<A>::empty(),
    decreases s.len(),
{
    reveal(Seq::filter);
    if s.len() > 0 {
        lemma_filter_of_none(s.drop_last(), keep);
        assert(!keep(s[s.len() - 1]));
    }
}

/// Putting `x` before the first item that is not before it keeps the arrangement.
proof fn lemma_insert_keeps_arrangement<T: Ranked>(
    sorted: Seq<T::V>,
    items: Seq<T::V>,
    x: T::V,
    p: int,
)
    requires
        is_arrangement::<T>(sorted, items),
        0 <= p <= sorted.len(),
        forall|i: int| 0 <= i < p ==> T::order(x, #[trigger] sorted[i]) == Order::Greater,
        p < sorted.len() ==> T::order(x, sorted[p]) != Order::Greater,
    ensures
        is_arrangement::<T>(sorted.insert(p, x), seq![x] + items),
{
    let after = sorted.insert(p, x);
    let head = sorted.take(p);
    let tail = sorted.skip(p);
    assert(after == head + seq![x] + tail);
    assert(sorted == head + tail);
    assert forall|i: int, j: int| 0 <= i < j < after.len() implies T::order(
        #[trigger] after[i],
        #[trigger] after[j],
    ) != Order::Greater by {
        let a = if i < p {
            sorted[i]
        } else if i == p {
            x
        } else {
            sorted[i - 1]
        };
        assert(after[i] == a);
        if j == p {
            T::order_is_total(x, sorted[i], x);
        } else if i == p {
            T::order_is_total(x, sorted[p], sorted[j - 1]);
            if j - 1 > p {
                assert(T::order(sorted[p], sorted[j - 1]) != Order::Greater);
            }
        } else {
            let b = if j < p {
                sorted[j]
            } else {
                sorted[j - 1]
            };
            assert(after[j] == b);
        }
    }
    assert(after.to_multiset() == (seq![x] + items).to_multiset()) by {
        broadcast use vstd::seq_lib::group_to_multiset_ensures;

        vstd::seq_lib::lemma_multiset_commutative(head + seq![x], tail);
        vstd::seq_lib::lemma_multiset_commutative(head, seq![x]);
        vstd::seq_lib::lemma_multiset_commutative(head, tail);
        vstd::seq_lib::lemma_multiset_commutative(seq![x], items);
        assert(after.to_multiset() =~= (seq![x] + items).to_multiset());
    }
    assert forall|key: T::V| #[trigger]
        equal_to::<T>(after, key) == equal_to::<T>(seq![x] + items, key) by {
        let keep = |item: T::V| T::order(item, key) == Order::Equal;
        Seq::filter_distributes_over_add(head + seq![x], tail, keep);
        Seq::filter_distributes_over_add(head, seq![x], keep);
        Seq::filter_distributes_over_add(head, tail, keep);
        Seq::filter_distributes_over_add(seq![x], items, keep);
        lemma_filter_of_one(x, keep);
        assert(equal_to::<T>(sorted, key) == equal_to::<T>(items, key));
        if keep(x) {
            assert forall|i: int| 0 <= i < head.len() implies !keep(#[trigger] head[i]) by {
                assert(head[i] == sorted[i]);
                if keep(head[i]) {
                    T::order_is_total(x, key, head[i]);
                    T::order_is_total(key, head[i], x);
                }
            }
            lemma_filter_of_none(head, keep);
        }
        assert(after.filter(keep) =~= (seq![x] + items).filter(keep));
    }
}

/// Sorts `items`, keeping those that compare equal in the order they came.
pub fn sort<T: Ranked>(items: Vec<T>) -> (sorted: Vec<T>)
    ensures
        is_arrangement::<T>(views(sorted@), views(items@)),
{
    let ghost all = views(items@);
    let mut rest = items;
    let mut sorted: Vec<T> = Vec::new();
    assert(all.skip(rest.len() as int) == Seq::<T::V>::empty());
    assert(views(sorted@) == Seq::<T::V>::empty());
    while rest.len() > 0
        invariant
            all == views(items@),
            rest@ == items@.take(rest.len() as int),
            rest.len() <= items@.len(),
            is_arrangement::<T>(views(sorted@), all.skip(rest.len() as int)),
        decreases rest.len(),
    {
        let n: usize = rest.len();
        let item = rest.pop().unwrap();
        let ghost x = item@;
        assert(x == all[n - 1]);
        let ghost before = views(sorted@);
        let mut p: usize = 0;
        while p < sorted.len()
            invariant_except_break
                p <= sorted.len(),
                views(sorted@) == before,
                x == item@,
                forall|i: int| 0 <= i < p ==> T::order(x, #[trigger] before[i]) == Order::Greater,
            ensures
                p <= sorted.len(),
                forall|i: int| 0 <= i < p ==> T::order(x, #[trigger] before[i]) == Order::Greater,
                p < sorted.len() ==> T::order(x, before[p as int]) != Order::Greater,
            decreases sorted.len() - p,
        {
            let order = item.compare(&sorted[p]);
            assert(before[p as int] == sorted[p as int]@);
            if order != Order::Greater {
                break;
            }
            p = p + 1;
        }
        proof {
            lemma_insert_keeps_arrangement::<T>(before, all.skip(n as int), x, p as int);
        }
        sorted.insert(p, item);
        assert(views(sorted@) == before.insert(p as int, x));
        assert(seq![x] + all.skip(n as int) == all.skip(n - 1));
    }
    assert(all.skip(0) == all);
    sorted
}

/// Where no two items compare equal, the sorted sequence depends on which items
/// there are alone, not on the order in which they came.
pub proof fn law_sorting_forgets_the_order<T: Ranked>(
    items: Seq<T::V>,
    others: Seq<T::V>,
    sorted: Seq<T::V>,
    resorted: Seq<T::V>,
)
    requires
        others.to_multiset() == items.to_multiset(),
        forall|i: int, j: int|
            0 <= i < j < items.len() ==> T::order(#[trigger] items[i], #[trigger] items[j])
                != Order::Equal,
        is_arrangement::<T>(sorted, items),
        is_arrangement::<T>(resorted, others),
    ensures
        sorted == resorted,
{
    lemma_distinct_sorted_is_unique::<T>(items, sorted, resorted);
}

/// Two sorted arrangements of items no two of which compare equal are the same.
pub proof fn lemma_distinct_sorted_is_unique<T: Ranked>(
    items: Seq<T::V>,
    sorted: Seq<T::V>,
    resorted: Seq<T::V>,
)
    requires
        forall|i: int, j: int|
            0 <= i < j < items.len() ==> T::order(#[trigger] items[i], #[trigger] items[j])
                != Order::Equal,
        sorted.to_multiset() == items.to_multiset(),
        resorted.to_multiset() == items.to_multiset(),
        is_sorted::<T>(sorted),
        is_sorted::<T>(resorted),
    ensures
        sorted == resorted,
{
    broadcast use vstd::seq_lib::group_to_multiset_ensures;

    assert(sorted.len() == items.len() && resorted.len() == items.len()) by {
        assert(sorted.to_multiset().len() == sorted.len());
        assert(resorted.to_multiset().len() == resorted.len());
        assert(items.to_multiset().len() == items.len());
    }
    if sorted != resorted {
        let d = lemma_first_difference(sorted, resorted);
        let a = sorted[d];
        let b = resorted[d];
        // `a` occurs in `resorted`, and not before `d`, so it is not before `b`.
        lemma_found_later::<T>(items, sorted, resorted, d);
        lemma_found_later::<T>(items, resorted, sorted, d);
        T::order_is_total(a, b, a);
        assert(T::order(a, b) == Order::Equal);
        assert(items.contains(a) && items.contains(b)) by {
            assert(sorted.contains(a));
            assert(resorted.contains(b));
            assert(sorted.to_multiset().count(a) > 0);
            assert(resorted.to_multiset().count(b) > 0);
        }
        let i = items.index_of(a);
        let j = items.index_of(b);
        assert(items[i] == a && items[j] == b);
        assert(i != j);
        T::order_is_total(b, a, b);
    }
}

proof fn lemma_first_difference<A>(s: Seq<A>, t: Seq<A>) -> (d: int)
    requires
        s.len() == t.len(),
        s != t,
    ensures
        0 <= d < s.len(),
        s[d] != t[d],
        s.take(d) == t.take(d),
    decreases s.len(),
{
    if s.len() == 0 {
        assert(s == t);
        0
    } else if s.drop_last() == t.drop_last() {
        let d = s.len() - 1;
        if s.last() == t.last() {
            assert(s == s.drop_last().push(s.last()));
            assert(t == t.drop_last().push(t.last()));
        }
        assert(s.take(d) == s.drop_last() && t.take(d) == t.drop_last());
        d
    } else {
        let d = lemma_first_difference(s.drop_last(), t.drop_last());
        assert(s.take(d) == s.drop_last().take(d));
        assert(t.take(d) == t.drop_last().take(d));
        d
    }
}

/// Where two arrangements of the same items first differ, the item of the second
/// is not after the item of the first.
proof fn lemma_found_later<T: Ranked>(items: Seq<T::V>, s: Seq<T::V>, t: Seq<T::V>, d: int)
    requires
        s.to_multiset() == items.to_multiset(),
        t.to_multiset() == items.to_multiset(),
        s.len() == t.len(),
        is_sorted::<T>(t),
        0 <= d < s.len(),
        s[d] != t[d],
        s.take(d) == t.take(d),
    ensures
        T::order(t[d], s[d]) != Order::Greater,
{
    let a = s[d];
    let front = s.take(d);
    let s_back = s.skip(d);
    let t_back = t.skip(d);
    assert(s == front + s_back);
    assert(t == front + t_back);
    assert(t_back.contains(a)) by {
        broadcast use vstd::seq_lib::group_to_multiset_ensures;

        vstd::seq_lib::lemma_multiset_commutative(front, s_back);
        vstd::seq_lib::lemma_multiset_commutative(front, t_back);
        assert(s_back[0] == a);
        assert(s_back.contains(a));
        assert(s_back.to_multiset().count(a) > 0);
        assert((front + s_back).to_multiset().count(a) == front.to_multiset().count(a)
            + s_back.to_multiset().count(a));
        assert((front + t_back).to_multiset().count(a) == front.to_multiset().count(a)
            + t_back.to_multiset().count(a));
        assert(t_back.to_multiset().count(a) > 0);
    }
    let k = t_back.index_of(a);
    assert(t_back[k] == t[d + k]);
    assert(k != 0);
    assert(T::order(t[d], t[d + k]) != Order::Greater);
}

} // verus!

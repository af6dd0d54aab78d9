//! Three-way comparison, and the lexicographic order it induces on sequences.

use vstd::prelude::*;

verus! {

/// How one value stands to another.
#[derive(Debug, Clone, Copy, PartialEq, Eq, Structural)]
pub enum Order {
    Less,
    Equal,
    Greater,
}

impl Order {
    /// The order seen from the other side.
    pub open spec fn flip(self) -> Order {
        match self {
            Order::Less => Order::Greater,
            Order::Equal => Order::Equal,
            Order::Greater => Order::Less,
        }
    }
}

/// The order of two integers.
pub open spec fn int_order(a: int, b: int) -> Order {
    if a < b {
        Order::Less
    } else if a == b {
        Order::Equal
    } else {
        Order::Greater
    }
}

/// The lexicographic order of two sequences, given the order of their items: the
/// first place at which they differ decides, and a proper prefix comes first.
pub open spec fn lexicographic<T>(a: Seq<T>, b: Seq<T>, order: spec_fn(T, T) -> Order) -> Order
    decreases a.len(),
{
    if a.len() == 0 {
        if b.len() == 0 {
            Order::Equal
        } else {
            Order::Less
        }
    } else if b.len() == 0 {
        Order::Greater
    } else if order(a[0], b[0]) == Order::Equal {
        lexicographic(a.drop_first(), b.drop_first(), order)
    } else {
        order(a[0], b[0])
    }
}

/// Is `order` a total order whose `Equal` means that the two are the same?
pub open spec fn is_total_order<T>(order: spec_fn(T, T) -> Order) -> bool {
    &&& forall|a: T, b: T| #[trigger] order(a, b) == Order::Equal <==> a == b
    &&& forall|a: T, b: T| #[trigger] order(a, b) == order(b, a).flip()
    &&& forall|a: T, b: T, c: T| #[trigger]
        order(a, b) == Order::Less && #[trigger] order(b, c) == Order::Less ==> order(a, c)
            == Order::Less
}

/// A lexicographic order is total wherever the order of the items is.
pub proof fn lemma_lexicographic_is_total<T>(order: spec_fn(T, T) -> Order)
    requires
        is_total_order(order),
    ensures
        is_total_order(|a: Seq<T>, b: Seq<T>| lexicographic(a, b, order)),
{
    let lex = |a: Seq<T>, b: Seq<T>| lexicographic(a, b, order);
    assert forall|a: Seq<T>, b: Seq<T>| #[trigger] lex(a, b) == Order::Equal <==> a == b by {
        lemma_lexicographic_equal(a, b, order);
    }
    assert forall|a: Seq<T>, b: Seq<T>| #[trigger] lex(a, b) == lex(b, a).flip() by {
        lemma_lexicographic_flips(a, b, order);
    }
    assert forall|a: Seq<T>, b: Seq<T>, c: Seq<T>| #[trigger]
        lex(a, b) == Order::Less && #[trigger] lex(b, c) == Order::Less implies lex(a, c)
        == Order::Less by {
        lemma_lexicographic_chains(a, b, c, order);
    }
}

proof fn lemma_lexicographic_equal<T>(a: Seq<T>, b: Seq<T>, order: spec_fn(T, T) -> Order)
    requires
        is_total_order(order),
    ensures
        lexicographic(a, b, order) == Order::Equal <==> a == b,
    decreases a.len(),
{
    if a.len() > 0 && b.len() > 0 {
        lemma_lexicographic_equal(a.drop_first(), b.drop_first(), order);
        assert(order(a[0], b[0]) == Order::Equal <==> a[0] == b[0]);
        assert(a == seq![a[0]] + a.drop_first());
        assert(b == seq![b[0]] + b.drop_first());
    } else {
        assert(a.len() == 0 && b.len() == 0 ==> a == b);
    }
}

proof fn lemma_lexicographic_flips<T>(a: Seq<T>, b: Seq<T>, order: spec_fn(T, T) -> Order)
    requires
        is_total_order(order),
    ensures
        lexicographic(a, b, order) == lexicographic(b, a, order).flip(),
    decreases a.len(),
{
    if a.len() > 0 && b.len() > 0 {
        lemma_lexicographic_flips(a.drop_first(), b.drop_first(), order);
        assert(order(a[0], b[0]) == order(b[0], a[0]).flip());
    }
}

proof fn lemma_lexicographic_chains<T>(
    a: Seq<T>,
    b: Seq<T>,
    c: Seq<T>,
    order: spec_fn(T, T) -> Order,
)
    requires
        is_total_order(order),
        lexicographic(a, b, order) == Order::Less,
        lexicographic(b, c, order) == Order::Less,
    ensures
        lexicographic(a, c, order) == Order::Less,
    decreases a.len(),
{
    if a.len() > 0 && b.len() > 0 && c.len() > 0 {
        assert(order(a[0], b[0]) == Order::Equal <==> a[0] == b[0]);
        assert(order(b[0], c[0]) == Order::Equal <==> b[0] == c[0]);
        assert(order(a[0], c[0]) == Order::Equal <==> a[0] == c[0]);
        if order(a[0], b[0]) == Order::Equal && order(b[0], c[0]) == Order::Equal {
            lemma_lexicographic_chains(a.drop_first(), b.drop_first(), c.drop_first(), order);
        }
    }
}

} // verus!

//! File-system paths as their components, and the order of paths.
//!
//! Paths are ordered component by component rather than byte by byte,
//! as `std::path::Path` orders them: `/dev/dri` sorts before `/dev/dri-old` and
//! everything below `/dev/dri` does too.

use vstd::prelude::*;

use crate::order::{int_order, lemma_lexicographic_is_total, lexicographic, Order};
use crate::order::is_total_order;
use crate::text::{pieces_between, split};

verus! {

/// What stands between the components of a path.
pub const SLASH: u8 = 0x2f;

/// The dot of `.` and `..`.
pub const DOT: u8 = 0x2e;

/// One component of a path. The variants are listed in their order.
pub enum Component {
    /// The root directory, `/`.
    Root,
    /// A leading `.` of a relative path.
    Current,
    /// `..`
    Parent,
    /// A name.
    Normal(Seq<u8>),
}

/// Does the path start at the root?
pub open spec fn is_absolute(path: Seq<u8>) -> bool {
    path.len() > 0 && path[0] == SLASH
}

/// The component that one piece between slashes stands for. An empty piece stands
/// for none, and nor does `.`, except where a relative path starts with it.
pub open spec fn component_of(piece: Seq<u8>, leads: bool) -> Option<Component> {
    if piece == Seq::<u8>::empty() {
        None
    } else if piece == seq![DOT] {
        if leads {
            Some(Component::Current)
        } else {
            None
        }
    } else if piece == seq![DOT, DOT] {
        Some(Component::Parent)
    } else {
        Some(Component::Normal(piece))
    }
}

/// The components of the first `n` pieces.
pub open spec fn components_of_pieces(pieces: Seq<Seq<u8>>, absolute: bool, n: nat) -> Seq<
    Component,
>
    decreases n,
{
    if n == 0 {
        Seq::empty()
    } else {
        let before = components_of_pieces(pieces, absolute, (n - 1) as nat);
        match component_of(pieces[n - 1], n == 1 && !absolute) {
            Some(component) => before.push(component),
            None => before,
        }
    }
}

/// The components of a path.
pub open spec fn components(path: Seq<u8>) -> Seq<Component> {
    let pieces = split(path, SLASH);
    let below = components_of_pieces(pieces, is_absolute(path), pieces.len());
    if is_absolute(path) {
        seq![Component::Root] + below
    } else {
        below
    }
}

/// The order of two bytes.
pub open spec fn byte_order(a: u8, b: u8) -> Order {
    int_order(a as int, b as int)
}

/// The place of a component's kind in the order of kinds.
pub open spec fn component_rank(component: Component) -> int {
    match component {
        Component::Root => 0,
        Component::Current => 1,
        Component::Parent => 2,
        Component::Normal(_) => 3,
    }
}

/// The order of two components: by kind, and two names by their bytes.
pub open spec fn component_order(a: Component, b: Component) -> Order {
    match (a, b) {
        (Component::Normal(x), Component::Normal(y)) => lexicographic(
            x,
            y,
            |c: u8, d: u8| byte_order(c, d),
        ),
        _ => int_order(component_rank(a), component_rank(b)),
    }
}

/// The order of two paths, component by component.
pub open spec fn path_order(a: Seq<u8>, b: Seq<u8>) -> Order {
    lexicographic(
        components(a),
        components(b),
        |x: Component, y: Component| component_order(x, y),
    )
}

/// Components are totally ordered.
pub proof fn lemma_component_order_is_total()
    ensures
        is_total_order(|x: Component, y: Component| component_order(x, y)),
{
    let bytes = |c: u8, d: u8| byte_order(c, d);
    assert(is_total_order(bytes));
    lemma_lexicographic_is_total(bytes);
    let names = |a: Seq<u8>, b: Seq<u8>| lexicographic(a, b, bytes);
    let order = |x: Component, y: Component| component_order(x, y);
    assert forall|a: Component, b: Component| #[trigger] order(a, b) == Order::Equal <==> a == b by {
        if let (Component::Normal(x), Component::Normal(y)) = (a, b) {
            assert(names(x, y) == Order::Equal <==> x == y);
        }
    }
    assert forall|a: Component, b: Component| #[trigger] order(a, b) == order(b, a).flip() by {
        if let (Component::Normal(x), Component::Normal(y)) = (a, b) {
            assert(names(x, y) == names(y, x).flip());
        }
    }
    assert forall|a: Component, b: Component, c: Component| #[trigger]
        order(a, b) == Order::Less && #[trigger] order(b, c) == Order::Less implies order(a, c)
        == Order::Less by {
        if let (Component::Normal(x), Component::Normal(y)) = (a, b) {
            if let Component::Normal(z) = c {
                assert(names(x, y) == Order::Less && names(y, z) == Order::Less);
                assert(names(x, z) == Order::Less);
            }
        }
    }
}

/// Paths are totally ordered by their components: two compare equal exactly if
/// they have the same components, and the order is antisymmetric and transitive.
pub proof fn law_path_order_is_total(a: Seq<u8>, b: Seq<u8>, c: Seq<u8>)
    ensures
        path_order(a, b) == Order::Equal <==> components(a) == components(b),
        path_order(a, b) == path_order(b, a).flip(),
        path_order(a, b) == Order::Less && path_order(b, c) == Order::Less ==> path_order(a, c)
            == Order::Less,
{
    lemma_component_order_is_total();
    let order = |x: Component, y: Component| component_order(x, y);
    lemma_lexicographic_is_total(order);
    let paths = |x: Seq<Component>, y: Seq<Component>| lexicographic(x, y, order);
    let x = components(a);
    let y = components(b);
    let z = components(c);
    assert(paths(x, y) == Order::Equal <==> x == y);
    assert(paths(x, y) == paths(y, x).flip());
    assert(paths(x, y) == Order::Less && paths(y, z) == Order::Less ==> paths(x, z) == Order::Less);
}

/// A component of a path, as a value.
pub enum PathPart {
    Root,
    Current,
    Parent,
    Normal(Vec<u8>),
}

impl View for PathPart {
    type V = Component;

    open spec fn view(&self) -> Component {
        match self {
            PathPart::Root => Component::Root,
            PathPart::Current => Component::Current,
            PathPart::Parent => Component::Parent,
            PathPart::Normal(name) => Component::Normal(name@),
        }
    }
}

/// The components of `path`.
pub fn parts_of(path: &Vec<u8>) -> (parts: Vec<PathPart>)
    ensures
        parts@.map_values(|p: PathPart| p@) == components(path@),
{
    let absolute = path.len() > 0 && path[0] == SLASH;
    let is_slash = |byte: u8| -> (yes: bool)
        ensures
            yes == (byte == SLASH),
        { byte == SLASH };
    let found = pieces_between(path, is_slash, Ghost(SLASH));
    let ghost split_path = split(path@, SLASH);
    let ghost root = if absolute {
        seq![Component::Root]
    } else {
        Seq::<Component>::empty()
    };
    let mut parts: Vec<PathPart> = Vec::new();
    if absolute {
        parts.push(PathPart::Root);
    }
    assert(parts@.map_values(|p: PathPart| p@) == root);
    for i in 0..found.len()
        invariant
            found@.map_values(|p: Vec<u8>| p@) == split_path,
            absolute == is_absolute(path@),
            parts@.map_values(|p: PathPart| p@) == root + components_of_pieces(
                split_path,
                absolute,
                i as nat,
            ),
    {
        let piece = &found[i];
        let ghost before = parts@;
        assert(split_path[i as int] == found@.map_values(|p: Vec<u8>| p@)[i as int]);
        assert(piece@ == split_path[i as int]);
        let ghost next = component_of(piece@, i == 0 && !absolute);
        let n: usize = piece.len();
        if n == 0 {
            assert(piece@ == Seq::<u8>::empty());
        } else if n == 1 && piece[0] == DOT {
            assert(piece@ == seq![DOT]);
            if i == 0 && !absolute {
                parts.push(PathPart::Current);
            }
        } else if n == 2 && piece[0] == DOT && piece[1] == DOT {
            assert(piece@ == seq![DOT, DOT]);
            assert(piece@[1] == DOT);
            parts.push(PathPart::Parent);
        } else {
            assert(seq![DOT].len() == 1 && seq![DOT][0] == DOT);
            assert(seq![DOT, DOT].len() == 2 && seq![DOT, DOT][0] == DOT && seq![DOT, DOT][1]
                == DOT);
            let name = piece.clone();
            assert(name@ == piece@);
            parts.push(PathPart::Normal(name));
        }
        assert(parts@.map_values(|p: PathPart| p@) == (match next {
            Some(component) => before.map_values(|p: PathPart| p@).push(component),
            None => before.map_values(|p: PathPart| p@),
        }));
    }
    assert(found@.map_values(|p: Vec<u8>| p@).len() == found.len());
    parts
}

/// The order of two names.
fn names_order(a: &Vec<u8>, b: &Vec<u8>) -> (order: Order)
    ensures
        order == lexicographic(a@, b@, |c: u8, d: u8| byte_order(c, d)),
{
    let mut i: usize = 0;
    let ghost bytes = |c: u8, d: u8| byte_order(c, d);
    assert(a@.skip(0) == a@ && b@.skip(0) == b@);
    while i < a.len() && i < b.len() && a[i] == b[i]
        invariant
            i <= a.len(),
            i <= b.len(),
            bytes == (|c: u8, d: u8| byte_order(c, d)),
            lexicographic(a@, b@, bytes) == lexicographic(
                a@.skip(i as int),
                b@.skip(i as int),
                bytes,
            ),
        decreases a.len() - i,
    {
        assert(a@.skip(i as int).drop_first() == a@.skip(i + 1));
        assert(b@.skip(i as int).drop_first() == b@.skip(i + 1));
        i = i + 1;
    }
    if i < a.len() {
        if i < b.len() {
            if a[i] < b[i] {
                Order::Less
            } else {
                Order::Greater
            }
        } else {
            Order::Greater
        }
    } else if i < b.len() {
        Order::Less
    } else {
        Order::Equal
    }
}

/// The place of a part's kind in the order of kinds.
fn part_rank(part: &PathPart) -> (rank: u8)
    ensures
        rank == component_rank(part@),
{
    match part {
        PathPart::Root => 0,
        PathPart::Current => 1,
        PathPart::Parent => 2,
        PathPart::Normal(_) => 3,
    }
}

/// The order of two parts.
fn parts_order(a: &PathPart, b: &PathPart) -> (order: Order)
    ensures
        order == component_order(a@, b@),
{
    if let PathPart::Normal(x) = a {
        if let PathPart::Normal(y) = b {
            return names_order(x, y);
        }
    }
    let x: u8 = part_rank(a);
    let y: u8 = part_rank(b);
    if x < y {
        Order::Less
    } else if x == y {
        Order::Equal
    } else {
        Order::Greater
    }
}

/// The order of two paths, component by component.
pub fn compare_paths(a: &Vec<u8>, b: &Vec<u8>) -> (order: Order)
    ensures
        order == path_order(a@, b@),
{
    let x = parts_of(a);
    let y = parts_of(b);
    let ghost p = components(a@);
    let ghost q = components(b@);
    let ghost parts = |c: Component, d: Component| component_order(c, d);
    let mut i: usize = 0;
    assert(p.skip(0) == p && q.skip(0) == q);
    assert(x@.map_values(|c: PathPart| c@).len() == x.len());
    assert(y@.map_values(|c: PathPart| c@).len() == y.len());
    while i < x.len() && i < y.len()
        invariant
            i <= x.len(),
            i <= y.len(),
            p.len() == x.len(),
            q.len() == y.len(),
            x@.map_values(|c: PathPart| c@) == p,
            y@.map_values(|c: PathPart| c@) == q,
            p == components(a@),
            q == components(b@),
            parts == (|c: Component, d: Component| component_order(c, d)),
            path_order(a@, b@) == lexicographic(p.skip(i as int), q.skip(i as int), parts),
        decreases x.len() - i,
    {
        let order = parts_order(&x[i], &y[i]);
        assert(p[i as int] == x@.map_values(|c: PathPart| c@)[i as int]);
        assert(q[i as int] == y@.map_values(|c: PathPart| c@)[i as int]);
        assert(order == parts(p.skip(i as int)[0], q.skip(i as int)[0]));
        if order != Order::Equal {
            return order;
        }
        assert(p.skip(i as int).drop_first() == p.skip(i + 1));
        assert(q.skip(i as int).drop_first() == q.skip(i + 1));
        i = i + 1;
    }
    if i < x.len() {
        Order::Greater
    } else if i < y.len() {
        Order::Less
    } else {
        Order::Equal
    }
}

} // verus!

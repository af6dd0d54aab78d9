//! The seat's focus target type.
//!
//! Compositors that manage several kinds of focusable thing use an enum here, because
//! those kinds behave differently on focus. This compositor has exactly one kind: a
//! surface. A popup's keyboard and pointer behaviour is identical to a toplevel's, so
//! the same newtype serves keyboard, pointer, and touch focus.

use vstd::prelude::*;
use vstd::std_specs::convert::FromSpecImpl;

verus! {

/// A surface that can hold keyboard, pointer, or touch focus.
#[derive(Debug, Clone, Copy, PartialEq, Eq, Structural)]
pub struct FocusTarget(pub u64);

impl FocusTarget {
    /// The underlying surface.
    pub fn surface(&self) -> (surface: u64)
        ensures
            surface == self.0,
    {
        self.0
    }
}

impl From<u64> for FocusTarget {
    fn from(surface: u64) -> (target: Self) {
        FocusTarget(surface)
    }
}

impl FromSpecImpl<u64> for FocusTarget {
    open spec fn obeys_from_spec() -> bool {
        true
    }

    open spec fn from_spec(surface: u64) -> FocusTarget {
        FocusTarget(surface)
    }
}

/// The root of a surface: the last of its ancestors, or the surface itself if it has
/// none.
pub open spec fn root_surface(surface: u64, ancestors: Seq<u64>) -> u64 {
    if ancestors.len() > 0 {
        ancestors.last()
    } else {
        surface
    }
}

/// Walk up from a surface to its root, given its ancestors from the nearest on.
pub fn root_of(surface: u64, ancestors: &Vec<u64>) -> (root: u64)
    ensures
        root == root_surface(surface, ancestors@),
{
    let n: usize = ancestors.len();
    if n > 0 {
        ancestors[n - 1]
    } else {
        surface
    }
}

} // verus!

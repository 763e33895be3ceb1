//! How a widget row or column distributes its members, named here so the
//! engine can hand layout wishes to a presentation collaborator as data.

use vstd::prelude::*;

verus! {

/// Placement of widgets inside a box along one axis.
#[derive(Clone, Copy, PartialEq, Eq, Structural, Debug)]
pub enum Alignment {
    /// Packed toward the start of the box.
    First,
    /// Packed toward the end of the box.
    Last,
    /// Packed around the middle of the box.
    Center,
    /// Spread out with equal gaps.
    Uniform,
}

} // verus!

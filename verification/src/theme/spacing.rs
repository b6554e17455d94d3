//! Density-scale spacing units used across the layout: a 1/2/3/5/8
//! progression, each step noticeably bigger than the last.

use vstd::prelude::*;

verus! {

/// Named spacing units, measured in terminal cells.
#[derive(Clone, Copy, Debug, PartialEq, Eq, Structural)]
pub enum Spacing {
    /// 1 cell: single-row strips.
    Xs,
    /// 2 cells: tight padding.
    Sm,
    /// 3 cells: default block spacing.
    Md,
    /// 5 cells: section breaks.
    Lg,
    /// 8 cells: outer padding of full-screen modals.
    Xl,
}

/// Cell count of a spacing unit.
pub open spec fn cell_count(s: Spacing) -> u16 {
    match s {
        Spacing::Xs => 1,
        Spacing::Sm => 2,
        Spacing::Md => 3,
        Spacing::Lg => 5,
        Spacing::Xl => 8,
    }
}

/// Position of a unit on the scale, smallest first.
pub open spec fn rank(s: Spacing) -> nat {
    match s {
        Spacing::Xs => 0,
        Spacing::Sm => 1,
        Spacing::Md => 2,
        Spacing::Lg => 3,
        Spacing::Xl => 4,
    }
}

impl Spacing {
    /// Cell count this unit represents.
    pub fn cells(self) -> (r: u16)
        ensures
            r == cell_count(self),
    {
        match self {
            Spacing::Xs => 1,
            Spacing::Sm => 2,
            Spacing::Md => 3,
            Spacing::Lg => 5,
            Spacing::Xl => 8,
        }
    }
}

/// The scale is strictly monotonic: a larger unit always has more cells.
pub proof fn scale_strictly_monotonic(a: Spacing, b: Spacing)
    requires
        rank(a) < rank(b),
    ensures
        cell_count(a) < cell_count(b),
{
}

} // verus!

use vstd::prelude::*;

verus! {

/// The limits that the settings panel puts on what it offers.
pub struct BoundaryValues;

impl BoundaryValues {
    /// Fewest decimals shown for a tolerance.
    pub const MIN_TOL_DECIMALS: usize = 6;
    /// Most decimals shown for a tolerance.
    pub const MAX_TOL_DECIMALS: usize = 7;
    /// Fewest decimals shown for a step size.
    pub const MIN_H_DECIMALS: usize = 1;
    /// Most decimals shown for a step size; the smallest step size that can be
    /// entered is one unit in this last place.
    pub const MAX_H_DECIMALS: usize = 5;
}

} // verus!

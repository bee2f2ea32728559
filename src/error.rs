use vstd::prelude::*;

verus! {

/// The fatal failures of a density-of-states computation that the library
/// itself detects.
#[derive(Debug, Clone, Copy, PartialEq, Eq, Structural)]
pub enum DosError {
    /// Some grid axis has fewer than two points.
    InvalidGrid,
    /// The energy mesh would have fewer than two points, or no eigenvalue bounds it.
    InvalidEnergyMesh,
}

} // verus!

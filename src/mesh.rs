use vstd::prelude::*;

use crate::error::DosError;

verus! {

/// The number of points of an energy mesh. The mesh runs from the lowest to
/// the highest eigenvalue of a cache of `bands` eigenvalues per grid point,
/// both ends included: it needs at least two points, and a cache with no
/// band has no eigenvalue to bound it.
pub fn energy_mesh_size(num_energies: usize, bands: usize) -> (r: Result<usize, DosError>)
    ensures
        num_energies < 2 || bands == 0 <==> r == Err::<usize, DosError>(DosError::InvalidEnergyMesh),
        num_energies >= 2 && bands > 0 <==> r == Ok::<usize, DosError>(num_energies),
{
    if num_energies < 2 || bands == 0 {
        Err(DosError::InvalidEnergyMesh)
    } else {
        Ok(num_energies)
    }
}

} // verus!

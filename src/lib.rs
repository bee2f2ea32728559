//! Topology of tetrahedron-method density-of-states calculations on a
//! regular k-point grid: the grid and its dense point indices, the cutting
//! of each grid cell into six tetrahedra, the size of the energy mesh, and
//! where a material's input files lie.
pub mod error;
pub mod grid;
pub mod mesh;
pub mod paths;
pub mod tetra;

pub use error::DosError;
pub use grid::Grid;
pub use mesh::energy_mesh_size;
pub use paths::{build_work, get_hr_path, get_scf_path};

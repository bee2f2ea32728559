use tb_w90_dos::{energy_mesh_size, DosError, Grid};

#[test]
fn grid_rejects_single_point_axis() {
    assert_eq!(Grid::new(1, 4, 4), Err(DosError::InvalidGrid));
    assert_eq!(Grid::new(4, 1, 4), Err(DosError::InvalidGrid));
    assert_eq!(Grid::new(4, 4, 0), Err(DosError::InvalidGrid));
}

#[test]
fn grid_accepts_two_points_per_axis() {
    let g = Grid::new(2, 2, 2).unwrap();
    assert_eq!(g, Grid { nx: 2, ny: 2, nz: 2 });
    assert_eq!(g.point_count(), 8);
}

#[test]
fn grid_index_is_row_major() {
    let g = Grid::new(2, 3, 4).unwrap();
    assert_eq!(g.point_count(), 24);
    assert_eq!(g.index(0, 0, 0), 0);
    assert_eq!(g.index(0, 0, 3), 3);
    assert_eq!(g.index(0, 1, 0), 4);
    assert_eq!(g.index(1, 0, 0), 12);
    assert_eq!(g.index(1, 2, 3), 23);
}

#[test]
fn grid_point_inverts_index() {
    let g = Grid::new(2, 3, 4).unwrap();
    assert_eq!(g.point(5), [0, 1, 1]);
    assert_eq!(g.point(23), [1, 2, 3]);
    for n in 0..24 {
        let p = g.point(n);
        assert_eq!(g.index(p[0], p[1], p[2]), n);
    }
}

#[test]
fn grid_points_cover_the_grid_in_order() {
    let g = Grid::new(2, 3, 4).unwrap();
    let pts = g.points();
    assert_eq!(pts.len(), 24);
    assert_eq!(pts[0], [0, 0, 0]);
    assert_eq!(pts[1], [0, 0, 1]);
    assert_eq!(pts[5], [0, 1, 1]);
    assert_eq!(pts[23], [1, 2, 3]);
    for (n, p) in pts.iter().enumerate() {
        assert_eq!(g.index(p[0], p[1], p[2]), n);
    }
}

#[test]
fn energy_mesh_needs_two_points() {
    assert_eq!(energy_mesh_size(0, 4), Err(DosError::InvalidEnergyMesh));
    assert_eq!(energy_mesh_size(1, 4), Err(DosError::InvalidEnergyMesh));
    assert_eq!(energy_mesh_size(2, 4), Ok(2));
    assert_eq!(energy_mesh_size(1000, 1), Ok(1000));
}

#[test]
fn energy_mesh_needs_a_band() {
    assert_eq!(energy_mesh_size(1000, 0), Err(DosError::InvalidEnergyMesh));
    assert_eq!(energy_mesh_size(1, 0), Err(DosError::InvalidEnergyMesh));
}

#[test]
fn grid_rejects_invalid_axis_beside_huge_ones() {
    assert_eq!(Grid::new(1, usize::MAX, usize::MAX), Err(DosError::InvalidGrid));
    assert_eq!(Grid::new(usize::MAX, 0, usize::MAX), Err(DosError::InvalidGrid));
}

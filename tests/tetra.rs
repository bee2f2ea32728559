use tb_w90_dos::Grid;

fn cube_edges() -> Vec<(usize, usize)> {
    let mut edges = Vec::new();
    for a in 0..8usize {
        for bit in [1usize, 2, 4] {
            if a & bit == 0 {
                edges.push((a, a | bit));
            }
        }
    }
    edges
}

#[test]
fn unit_cube_has_six_tetrahedra() {
    let g = Grid::new(2, 2, 2).unwrap();
    let tets = g.tetrahedra();
    assert_eq!(g.tetrahedron_count(), 6);
    assert_eq!(
        tets,
        vec![
            [0, 4, 6, 7],
            [0, 4, 5, 7],
            [0, 2, 6, 7],
            [0, 2, 3, 7],
            [0, 1, 5, 7],
            [0, 1, 3, 7],
        ]
    );
}

#[test]
fn unit_cube_tetrahedra_reach_every_corner_and_edge() {
    let g = Grid::new(2, 2, 2).unwrap();
    let tets = g.tetrahedra();
    for p in 0..8usize {
        assert!(tets.iter().any(|t| t.contains(&p)));
    }
    let edges = cube_edges();
    assert_eq!(edges.len(), 12);
    for (p, q) in edges {
        assert!(tets.iter().any(|t| t.contains(&p) && t.contains(&q)));
    }
}

#[test]
fn every_tetrahedron_shares_the_cell_diagonal() {
    let g = Grid::new(3, 2, 2).unwrap();
    let tets = g.tetrahedra();
    assert_eq!(tets.len(), 12);
    for t in tets.iter().take(6) {
        assert_eq!(t[0], 0);
        assert_eq!(t[3], 7);
    }
    for t in tets.iter().skip(6) {
        assert_eq!(t[0], 4);
        assert_eq!(t[3], 11);
    }
    assert_eq!(tets[6], [4, 8, 10, 11]);
}

#[test]
fn tetrahedron_count_is_six_per_cell() {
    let g = Grid::new(8, 8, 8).unwrap();
    assert_eq!(g.tetrahedron_count(), 2058);
    assert_eq!(g.tetrahedra().len(), 2058);
    let h = Grid::new(2, 3, 5).unwrap();
    assert_eq!(h.tetrahedron_count(), 48);
    assert_eq!(h.tetrahedra().len(), 48);
}

#[test]
fn tetrahedra_vertices_are_distinct_grid_points() {
    let g = Grid::new(3, 4, 5).unwrap();
    let n = g.point_count();
    for t in g.tetrahedra() {
        for a in 0..4 {
            assert!(t[a] < n);
            for b in 0..a {
                assert_ne!(t[a], t[b]);
            }
        }
    }
}

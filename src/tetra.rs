use vstd::prelude::*;
use vstd::arithmetic::div_mod::lemma_fundamental_div_mod_converse;

use crate::grid::{flatten, lemma_dims_fit, lemma_flatten_bound, lemma_unflatten_flatten, unflatten, Grid};

verus! {

/// Offsets of corner `c` (0 to 7) of a cell from its lowest corner: the bit
/// of weight 4 steps along x, the bit of weight 2 along y, the bit of weight 1
/// along z. Corner 0 is the lowest corner and corner 7 the opposite one.
pub open spec fn corner_offset(c: int) -> (int, int, int) {
    (c / 4, (c / 2) % 2, c % 2)
}

/// The cell corner at vertex `v` (0 to 3) of tetrahedron `t` (0 to 5) of a
/// cell. Each tetrahedron walks from corner 0 to corner 7 along one cube edge
/// per axis, so all six share the main diagonal from corner 0 to corner 7;
/// tetrahedron `t` takes first the axis `t / 2` (x, y, z) and then the lower
/// (`t` even) or higher (`t` odd) of the two axes left.
pub open spec fn tetra_corner(t: int, v: int) -> int {
    if v == 0 {
        0
    } else if v == 3 {
        7
    } else if v == 1 {
        if t < 2 {
            4
        } else if t < 4 {
            2
        } else {
            1
        }
    } else if t == 0 || t == 2 {
        6
    } else if t == 1 || t == 4 {
        5
    } else {
        3
    }
}

/// Whether tetrahedron `t` of a cell has corner `c` of the cell among its vertices.
pub open spec fn tetra_has_corner(t: int, c: int) -> bool {
    ||| tetra_corner(t, 0) == c
    ||| tetra_corner(t, 1) == c
    ||| tetra_corner(t, 2) == c
    ||| tetra_corner(t, 3) == c
}

/// Whether two grid points (or cell corners) are the two ends of one edge of
/// an elementary cube: they differ by one step along exactly one axis.
pub open spec fn adjacent(a: (int, int, int), b: (int, int, int)) -> bool {
    ||| a.1 == b.1 && a.2 == b.2 && (a.0 - b.0 == 1 || b.0 - a.0 == 1)
    ||| a.0 == b.0 && a.2 == b.2 && (a.1 - b.1 == 1 || b.1 - a.1 == 1)
    ||| a.0 == b.0 && a.1 == b.1 && (a.2 - b.2 == 1 || b.2 - a.2 == 1)
}

/// Whether some tetrahedron of a cell has corner `c` of the cell.
pub open spec fn corner_covered(c: int) -> bool {
    exists|t: int| 0 <= t < 6 && #[trigger] tetra_has_corner(t, c)
}

/// Whether some tetrahedron of a cell has both corners `c1` and `c2`.
pub open spec fn edge_covered(c1: int, c2: int) -> bool {
    exists|t: int| 0 <= t < 6 && #[trigger] tetra_has_corner(t, c1) && tetra_has_corner(t, c2)
}

/// The six tetrahedra of a cell: each has four distinct corners and the main
/// diagonal, and together they reach every corner and every edge of the cell.
pub proof fn lemma_cell_decomposition()
    ensures
        forall|t: int, v: int|
            0 <= t < 6 && 0 <= v < 4 ==> 0 <= #[trigger] tetra_corner(t, v) < 8,
        forall|t: int| 0 <= t < 6 ==> #[trigger] tetra_has_corner(t, 0) && tetra_has_corner(t, 7),
        forall|t: int, v1: int, v2: int|
            0 <= t < 6 && 0 <= v1 < 4 && 0 <= v2 < 4 && v1 != v2 ==> #[trigger] tetra_corner(t, v1)
                != #[trigger] tetra_corner(t, v2),
        forall|c: int| 0 <= c < 8 ==> #[trigger] corner_covered(c),
        forall|c1: int, c2: int|
            0 <= c1 < 8 && 0 <= c2 < 8 && adjacent(corner_offset(c1), corner_offset(c2))
                ==> #[trigger] edge_covered(c1, c2),
{
    assert forall|c: int| 0 <= c < 8 implies #[trigger] corner_covered(c) by {
        assert(tetra_has_corner(0, c) || tetra_has_corner(1, c) || tetra_has_corner(3, c)
            || tetra_has_corner(4, c));
    }
    assert forall|c1: int, c2: int|
        0 <= c1 < 8 && 0 <= c2 < 8 && adjacent(
            corner_offset(c1),
            corner_offset(c2),
        ) implies #[trigger] edge_covered(c1, c2) by {
        let w = if c1 == 0 || c2 == 0 {
            if c1 + c2 == 4 {
                0
            } else if c1 + c2 == 2 {
                2
            } else {
                4
            }
        } else if c1 == 7 || c2 == 7 {
            if c1 + c2 == 13 {
                0
            } else if c1 + c2 == 12 {
                1
            } else {
                3
            }
        } else if c1 + c2 == 10 {
            0
        } else if c1 + c2 == 9 {
            1
        } else if c1 + c2 == 8 {
            2
        } else if c1 + c2 == 5 {
            3
        } else if c1 + c2 == 6 {
            4
        } else {
            5
        };
        assert(tetra_has_corner(w, c1) && tetra_has_corner(w, c2));
    }
}

/// The corner bit of axis `a`: 4 for x (axis 0), 2 for y (axis 1), 1 for z (axis 2).
pub open spec fn axis_bit(a: int) -> int {
    if a == 0 {
        4
    } else if a == 1 {
        2
    } else {
        1
    }
}

/// Whether tetrahedron `t` of a cell is the chain of corners that starts at
/// corner 0 and steps along axis `a1`, then along axis `a2`, then along the
/// third axis, ending at corner 7.
pub open spec fn is_axis_chain(t: int, a1: int, a2: int) -> bool {
    &&& 0 <= a1 < 3
    &&& 0 <= a2 < 3
    &&& a1 != a2
    &&& tetra_corner(t, 0) == 0
    &&& tetra_corner(t, 1) == axis_bit(a1)
    &&& tetra_corner(t, 2) == axis_bit(a1) + axis_bit(a2)
    &&& tetra_corner(t, 3) == 7
}

/// Whether some tetrahedron of a cell is the chain along `a1`, then `a2`.
pub open spec fn chain_present(a1: int, a2: int) -> bool {
    exists|t: int| 0 <= t < 6 && #[trigger] is_axis_chain(t, a1, a2)
}

/// Whether tetrahedron `t` of a cell is the chain of some order of the axes.
pub open spec fn is_some_chain(t: int) -> bool {
    exists|a1: int, a2: int| #[trigger] is_axis_chain(t, a1, a2)
}

/// The six tetrahedra of a cell are exactly the six chains of cube edges
/// from corner 0 to corner 7, one for each order of the three axes: each is
/// such a chain, each order of the axes gives one of them, and no two of
/// them are the same.
pub proof fn lemma_axis_chains()
    ensures
        forall|t: int| 0 <= t < 6 ==> #[trigger] is_some_chain(t),
        forall|a1: int, a2: int|
            0 <= a1 < 3 && 0 <= a2 < 3 && a1 != a2 ==> #[trigger] chain_present(a1, a2),
        forall|t1: int, t2: int|
            0 <= t1 < 6 && 0 <= t2 < 6 && t1 != t2 ==> #[trigger] tetra_corner(t1, 1) != #[trigger] tetra_corner(
                t2,
                1,
            ) || tetra_corner(t1, 2) != tetra_corner(t2, 2),
{
    assert forall|t: int| 0 <= t < 6 implies #[trigger] is_some_chain(t) by {
        let a1 = t / 2;
        let a2 = if t == 0 || t == 5 {
            1
        } else if t == 1 || t == 3 {
            2
        } else {
            0
        };
        assert(is_axis_chain(t, a1, a2));
    }
    assert forall|a1: int, a2: int|
        0 <= a1 < 3 && 0 <= a2 < 3 && a1 != a2 implies #[trigger] chain_present(a1, a2) by {
        let t = if a2 > 3 - a1 - a2 {
            2 * a1 + 1
        } else {
            2 * a1
        };
        assert(is_axis_chain(t, a1, a2));
    }
}

/// Coordinate `a` (0, 1 or 2) of a point.
pub open spec fn coord(p: (int, int, int), a: int) -> int {
    if a == 0 {
        p.0
    } else if a == 1 {
        p.1
    } else {
        p.2
    }
}

/// The axis whose corner bit is `b`.
pub open spec fn axis_of_bit(b: int) -> int {
    if b == 4 {
        0
    } else if b == 2 {
        1
    } else {
        2
    }
}

/// Whether the point `p`, in a cell scaled to side `n`, lies in tetrahedron
/// `t` of the cell. The hull of the chain along `a1`, then `a2`, then `a3`
/// is the set of points whose coordinates fall in that order:
/// `n >= p[a1] >= p[a2] >= p[a3] >= 0`.
pub open spec fn in_tetra(t: int, p: (int, int, int), n: int) -> bool {
    let a1 = axis_of_bit(tetra_corner(t, 1));
    let a2 = axis_of_bit(tetra_corner(t, 2) - tetra_corner(t, 1));
    let a3 = 3 - a1 - a2;
    n >= coord(p, a1) >= coord(p, a2) >= coord(p, a3) >= 0
}

/// Whether some tetrahedron of a cell scaled to side `n` holds the point `p`.
pub open spec fn point_covered(p: (int, int, int), n: int) -> bool {
    exists|t: int| 0 <= t < 6 && #[trigger] in_tetra(t, p, n)
}

/// The six tetrahedra of a cell leave no gap and do not overlap: every point
/// of the cell lies in one of them, and a point off their shared faces (its
/// three coordinates distinct) lies in exactly one.
pub proof fn lemma_cell_partition(n: int)
    ensures
        forall|p: (int, int, int)|
            0 <= p.0 <= n && 0 <= p.1 <= n && 0 <= p.2 <= n ==> #[trigger] point_covered(p, n),
        forall|t1: int, t2: int, p: (int, int, int)|
            0 <= t1 < 6 && 0 <= t2 < 6 && p.0 != p.1 && p.1 != p.2 && p.0 != p.2 && #[trigger] in_tetra(
                t1,
                p,
                n,
            ) && #[trigger] in_tetra(t2, p, n) ==> t1 == t2,
{
    assert forall|p: (int, int, int)|
        0 <= p.0 <= n && 0 <= p.1 <= n && 0 <= p.2 <= n implies #[trigger] point_covered(p, n) by {
        let t = if p.0 >= p.1 && p.1 >= p.2 {
            0
        } else if p.0 >= p.2 && p.2 >= p.1 {
            1
        } else if p.1 >= p.0 && p.0 >= p.2 {
            2
        } else if p.1 >= p.2 && p.2 >= p.0 {
            3
        } else if p.2 >= p.0 && p.0 >= p.1 {
            4
        } else {
            5
        };
        assert(in_tetra(t, p, n));
    }
}

/// The corner of the cell for vertex `v` of tetrahedron `t`.
fn corner_of(t: usize, v: usize) -> (c: usize)
    requires
        t < 6,
        v < 4,
    ensures
        c == tetra_corner(t as int, v as int),
        c < 8,
{
    if v == 0 {
        0
    } else if v == 3 {
        7
    } else if v == 1 {
        if t < 2 {
            4
        } else if t < 4 {
            2
        } else {
            1
        }
    } else if t == 0 || t == 2 {
        6
    } else if t == 1 || t == 4 {
        5
    } else {
        3
    }
}

impl Grid {
    /// Number of tetrahedra covering the grid: six per elementary cube.
    pub open spec fn num_tetrahedra(&self) -> int {
        6 * self.num_cells()
    }

    /// The lowest corner of the cell that holds tetrahedron `m`.
    pub open spec fn cell_of(&self, m: int) -> (int, int, int) {
        unflatten(m / 6, self.ny - 1, self.nz - 1)
    }

    /// Dense index of the grid point at vertex `v` of tetrahedron `m`.
    pub open spec fn tetra_vertex(&self, m: int, v: int) -> int {
        let cell = self.cell_of(m);
        let off = corner_offset(tetra_corner(m % 6, v));
        self.point_index(cell.0 + off.0, cell.1 + off.1, cell.2 + off.2)
    }

    /// Whether the grid point of dense index `p` is a vertex of tetrahedron `m`.
    pub open spec fn tetra_has_point(&self, m: int, p: int) -> bool {
        ||| self.tetra_vertex(m, 0) == p
        ||| self.tetra_vertex(m, 1) == p
        ||| self.tetra_vertex(m, 2) == p
        ||| self.tetra_vertex(m, 3) == p
    }

    /// Whether some tetrahedron of the grid has the point of dense index `p`.
    pub open spec fn covers_point(&self, p: int) -> bool {
        exists|m: int| 0 <= m < self.num_tetrahedra() && #[trigger] self.tetra_has_point(m, p)
    }

    /// Whether some tetrahedron of the grid has both points `p` and `q`.
    pub open spec fn covers_edge(&self, p: int, q: int) -> bool {
        exists|m: int|
            0 <= m < self.num_tetrahedra() && #[trigger] self.tetra_has_point(m, p)
                && self.tetra_has_point(m, q)
    }

    /// Number of tetrahedra; each has weight one over this number.
    pub fn tetrahedron_count(&self) -> (r: usize)
        requires
            self.wf(),
        ensures
            r == self.num_tetrahedra(),
    {
        proof {
            lemma_dims_fit(self.nx as int, self.ny as int, self.nz as int);
        }
        6 * ((self.nx - 1) * (self.ny - 1) * (self.nz - 1))
    }

    /// Dense index of the grid point at corner `c` of the cell whose lowest
    /// corner is `(ci, cj, ck)`.
    fn cell_corner(&self, ci: usize, cj: usize, ck: usize, c: usize) -> (r: usize)
        requires
            self.wf(),
            ci + 1 < self.nx,
            cj + 1 < self.ny,
            ck + 1 < self.nz,
            c < 8,
        ensures
            r == self.point_index(
                ci + corner_offset(c as int).0,
                cj + corner_offset(c as int).1,
                ck + corner_offset(c as int).2,
            ),
    {
        self.index(ci + c / 4, cj + (c / 2) % 2, ck + c % 2)
    }

    /// The tetrahedra covering the grid, each as the dense indices of its four
    /// vertices. Tetrahedra `6 * n` to `6 * n + 5` belong to the cell with
    /// lowest corner of position `n` in the row-major order of cells.
    pub fn tetrahedra(&self) -> (r: Vec<[usize; 4]>)
        requires
            self.wf(),
        ensures
            r@.len() == self.num_tetrahedra(),
            forall|m: int, v: int|
                0 <= m < r@.len() && 0 <= v < 4 ==> r@[m][v] as int == #[trigger] self.tetra_vertex(
                    m,
                    v,
                ),
    {
        let a = self.nx - 1;
        let b = self.ny - 1;
        let c = self.nz - 1;
        proof {
            lemma_dims_fit(self.nx as int, self.ny as int, self.nz as int);
            assert(flatten(0, 0, 0, b as int, c as int) == 0) by (nonlinear_arith);
        }
        let mut r: Vec<[usize; 4]> = Vec::new();
        let mut ci: usize = 0;
        while ci < a
            invariant
                self.wf(),
                a == self.nx - 1,
                b == self.ny - 1,
                c == self.nz - 1,
                a * b * c == self.num_cells(),
                ci <= a,
                r@.len() == 6 * flatten(ci as int, 0, 0, b as int, c as int),
                forall|m: int, v: int|
                    0 <= m < r@.len() && 0 <= v < 4 ==> r@[m][v] as int
                        == #[trigger] self.tetra_vertex(m, v),
            decreases a - ci,
        {
            let mut cj: usize = 0;
            while cj < b
                invariant
                    self.wf(),
                    a == self.nx - 1,
                    b == self.ny - 1,
                    c == self.nz - 1,
                    a * b * c == self.num_cells(),
                    ci < a,
                    cj <= b,
                    r@.len() == 6 * flatten(ci as int, cj as int, 0, b as int, c as int),
                    forall|m: int, v: int|
                        0 <= m < r@.len() && 0 <= v < 4 ==> r@[m][v] as int
                            == #[trigger] self.tetra_vertex(m, v),
                decreases b - cj,
            {
                let mut ck: usize = 0;
                while ck < c
                    invariant
                        self.wf(),
                        a == self.nx - 1,
                        b == self.ny - 1,
                        c == self.nz - 1,
                        a * b * c == self.num_cells(),
                        ci < a,
                        cj < b,
                        ck <= c,
                        r@.len() == 6 * flatten(ci as int, cj as int, ck as int, b as int, c as int),
                        forall|m: int, v: int|
                            0 <= m < r@.len() && 0 <= v < 4 ==> r@[m][v] as int
                                == #[trigger] self.tetra_vertex(m, v),
                    decreases c - ck,
                {
                    let ghost cell = flatten(ci as int, cj as int, ck as int, b as int, c as int);
                    proof {
                        lemma_flatten_bound(ci as int, cj as int, ck as int, a as int, b as int, c as int);
                        lemma_unflatten_flatten(ci as int, cj as int, ck as int, b as int, c as int);
                    }
                    let mut t: usize = 0;
                    while t < 6
                        invariant
                            self.wf(),
                            a == self.nx - 1,
                            b == self.ny - 1,
                            c == self.nz - 1,
                            ci < a,
                            cj < b,
                            ck < c,
                            0 <= cell < a * b * c,
                            a * b * c == self.num_cells(),
                            unflatten(cell, b as int, c as int) == (ci as int, cj as int, ck as int),
                            t <= 6,
                            r@.len() == 6 * cell + t,
                            forall|m: int, v: int|
                                0 <= m < r@.len() && 0 <= v < 4 ==> r@[m][v] as int
                                    == #[trigger] self.tetra_vertex(m, v),
                        decreases 6 - t,
                    {
                        let tet: [usize; 4] = [
                            self.cell_corner(ci, cj, ck, corner_of(t, 0)),
                            self.cell_corner(ci, cj, ck, corner_of(t, 1)),
                            self.cell_corner(ci, cj, ck, corner_of(t, 2)),
                            self.cell_corner(ci, cj, ck, corner_of(t, 3)),
                        ];
                        proof {
                            lemma_fundamental_div_mod_converse(r@.len() as int, 6, cell, t as int);
                        }
                        r.push(tet);
                        t = t + 1;
                    }
                    ck = ck + 1;
                }
                proof {
                    assert(flatten(ci as int, cj as int, c as int, b as int, c as int) == flatten(
                        ci as int,
                        cj + 1,
                        0,
                        b as int,
                        c as int,
                    )) by (nonlinear_arith);
                }
                cj = cj + 1;
            }
            proof {
                assert(flatten(ci as int, b as int, 0, b as int, c as int) == flatten(
                    ci + 1,
                    0,
                    0,
                    b as int,
                    c as int,
                )) by (nonlinear_arith);
            }
            ci = ci + 1;
        }
        proof {
            assert(flatten(a as int, 0, 0, b as int, c as int) == a * b * c) by (nonlinear_arith);
        }
        r
    }
}

/// A grid of two points per axis is one cube, cut into exactly six
/// tetrahedra that together have all eight grid points as vertices and
/// every edge of the cube as an edge.
pub proof fn lemma_unit_cube_tetrahedra(g: Grid)
    requires
        g.wf(),
        g.nx == 2,
        g.ny == 2,
        g.nz == 2,
    ensures
        g.num_points() == 8,
        g.num_tetrahedra() == 6,
        forall|p: int| 0 <= p < 8 ==> #[trigger] g.covers_point(p),
        forall|p: int, q: int|
            0 <= p < 8 && 0 <= q < 8 && adjacent(g.point_at(p), g.point_at(q))
                ==> #[trigger] g.covers_edge(p, q),
{
    lemma_cell_decomposition();
    assert forall|m: int, v: int| 0 <= m < 6 && 0 <= v < 4 implies #[trigger] g.tetra_vertex(m, v)
        == tetra_corner(m, v) by {
        assert(g.cell_of(m) == (0int, 0int, 0int));
    }
    assert forall|m: int, c: int| 0 <= m < 6 implies #[trigger] g.tetra_has_point(m, c)
        == tetra_has_corner(m, c) by {
        assert(g.tetra_vertex(m, 0) == tetra_corner(m, 0));
        assert(g.tetra_vertex(m, 1) == tetra_corner(m, 1));
        assert(g.tetra_vertex(m, 2) == tetra_corner(m, 2));
        assert(g.tetra_vertex(m, 3) == tetra_corner(m, 3));
    }
    assert forall|p: int| 0 <= p < 8 implies #[trigger] g.covers_point(p) by {
        assert(corner_covered(p));
        let t = choose|t: int| 0 <= t < 6 && #[trigger] tetra_has_corner(t, p);
        assert(g.tetra_has_point(t, p));
    }
    assert forall|p: int, q: int|
        0 <= p < 8 && 0 <= q < 8 && adjacent(g.point_at(p), g.point_at(q)) implies #[trigger] g.covers_edge(
        p,
        q,
    ) by {
        assert(g.point_at(p) == corner_offset(p));
        assert(g.point_at(q) == corner_offset(q));
        assert(edge_covered(p, q));
        let t = choose|t: int| 0 <= t < 6 && #[trigger] tetra_has_corner(t, p) && tetra_has_corner(t, q);
        assert(g.tetra_has_point(t, p) && g.tetra_has_point(t, q));
    }
}

/// Every tetrahedron of a grid has four distinct vertices, all points of
/// the grid, and its first and last vertices are opposite corners of its cell.
pub proof fn lemma_tetrahedron_vertices(g: Grid, m: int)
    requires
        g.wf(),
        0 <= m < g.num_tetrahedra(),
    ensures
        forall|v: int| 0 <= v < 4 ==> 0 <= #[trigger] g.tetra_vertex(m, v) < g.num_points(),
        forall|v1: int, v2: int|
            0 <= v1 < 4 && 0 <= v2 < 4 && v1 != v2 ==> #[trigger] g.tetra_vertex(m, v1)
                != #[trigger] g.tetra_vertex(m, v2),
        g.tetra_vertex(m, 0) == g.point_index(g.cell_of(m).0, g.cell_of(m).1, g.cell_of(m).2),
        g.tetra_vertex(m, 3) == g.point_index(
            g.cell_of(m).0 + 1,
            g.cell_of(m).1 + 1,
            g.cell_of(m).2 + 1,
        ),
{
    lemma_cell_decomposition();
    let a = g.nx - 1;
    let b = g.ny - 1;
    let c = g.nz - 1;
    let n = m / 6;
    let q = n / c;
    assert(n < a * b * c);
    assert(q < a * b) by (nonlinear_arith)
        requires
            0 <= n < a * b * c,
            q == n / c,
            c > 0,
    ;
    assert(0 <= q / b < a) by (nonlinear_arith)
        requires
            0 <= q < a * b,
            b > 0,
    ;
    let cell = g.cell_of(m);
    assert(cell == (q / b, q % b, n % c));
    assert forall|v: int| 0 <= v < 4 implies 0 <= #[trigger] g.tetra_vertex(m, v) < g.num_points() by {
        let off = corner_offset(tetra_corner(m % 6, v));
        lemma_flatten_bound(
            cell.0 + off.0,
            cell.1 + off.1,
            cell.2 + off.2,
            g.nx as int,
            g.ny as int,
            g.nz as int,
        );
    }
    assert forall|v1: int, v2: int|
        0 <= v1 < 4 && 0 <= v2 < 4 && v1 != v2 implies #[trigger] g.tetra_vertex(m, v1)
        != #[trigger] g.tetra_vertex(m, v2) by {
        let c1 = tetra_corner(m % 6, v1);
        let c2 = tetra_corner(m % 6, v2);
        let o1 = corner_offset(c1);
        let o2 = corner_offset(c2);
        lemma_unflatten_flatten(
            cell.0 + o1.0,
            cell.1 + o1.1,
            cell.2 + o1.2,
            g.ny as int,
            g.nz as int,
        );
        lemma_unflatten_flatten(
            cell.0 + o2.0,
            cell.1 + o2.1,
            cell.2 + o2.2,
            g.ny as int,
            g.nz as int,
        );
        assert(c1 != c2);
        assert(o1 != o2);
    }
}

} // verus!

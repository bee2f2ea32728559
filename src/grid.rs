use vstd::prelude::*;
use vstd::arithmetic::div_mod::lemma_fundamental_div_mod_converse;

use crate::error::DosError;

verus! {

/// Position of the triple `(i, j, k)` in row-major order over a box whose
/// second and third axes have `b` and `c` entries.
pub open spec fn flatten(i: int, j: int, k: int, b: int, c: int) -> int {
    (i * b + j) * c + k
}

/// The triple at position `n` of the row-major order over a box whose second
/// and third axes have `b` and `c` entries.
pub open spec fn unflatten(n: int, b: int, c: int) -> (int, int, int) {
    ((n / c) / b, (n / c) % b, n % c)
}

/// Reading a position back gives the triple it was made from.
pub proof fn lemma_unflatten_flatten(i: int, j: int, k: int, b: int, c: int)
    requires
        0 <= j < b,
        0 <= k < c,
    ensures
        unflatten(flatten(i, j, k, b, c), b, c) == (i, j, k),
{
    lemma_fundamental_div_mod_converse(flatten(i, j, k, b, c), c, i * b + j, k);
    lemma_fundamental_div_mod_converse(i * b + j, b, i, j);
}

/// A triple inside an `a` by `b` by `c` box has a position below `a * b * c`.
pub proof fn lemma_flatten_bound(i: int, j: int, k: int, a: int, b: int, c: int)
    requires
        0 <= i < a,
        0 <= j < b,
        0 <= k < c,
    ensures
        0 <= i * b + j < a * b,
        0 <= (i * b + j) * c <= flatten(i, j, k, b, c),
        0 <= flatten(i, j, k, b, c) < a * b * c,
{
    assert(0 <= i * b + j) by (nonlinear_arith)
        requires
            0 <= i,
            0 <= j,
            0 < b,
    ;
    assert(i * b <= (a - 1) * b) by (nonlinear_arith)
        requires
            i <= a - 1,
            0 < b,
    ;
    assert((a - 1) * b == a * b - b) by (nonlinear_arith);
    assert(0 <= (i * b + j) * c) by (nonlinear_arith)
        requires
            0 <= i * b + j,
            0 < c,
    ;
    assert((i * b + j) * c <= (a * b - 1) * c) by (nonlinear_arith)
        requires
            i * b + j <= a * b - 1,
            0 < c,
    ;
    assert((a * b - 1) * c == a * b * c - c) by (nonlinear_arith);
}

/// The products that index a well-formed grid fit in `usize`.
pub proof fn lemma_dims_fit(nx: int, ny: int, nz: int)
    requires
        nx >= 2,
        ny >= 2,
        nz >= 2,
        dims_fit(nx, ny, nz),
    ensures
        0 < nx * ny <= nx * ny * nz,
        nx * ny * nz * 6 <= usize::MAX,
        (nx - 1) * (ny - 1) * (nz - 1) < nx * ny * nz,
        0 < (nx - 1) * (ny - 1) * (nz - 1),
        0 < (nx - 1) * (ny - 1) <= (nx - 1) * (ny - 1) * (nz - 1),
{
    assert(0 < (nx - 1) * (ny - 1) <= (nx - 1) * (ny - 1) * (nz - 1)) by (nonlinear_arith)
        requires
            nx >= 2,
            ny >= 2,
            nz >= 2,
    ;
    assert(0 < nx * ny <= nx * ny * nz) by (nonlinear_arith)
        requires
            nx >= 2,
            ny >= 2,
            nz >= 2,
    ;
    assert((nx - 1) * (ny - 1) * (nz - 1) < nx * ny * nz) by (nonlinear_arith)
        requires
            nx >= 2,
            ny >= 2,
            nz >= 2,
    ;
    assert(0 < (nx - 1) * (ny - 1) * (nz - 1)) by (nonlinear_arith)
        requires
            nx >= 2,
            ny >= 2,
            nz >= 2,
    ;
}

/// The axes of a regular k-point grid: the number of points along each of
/// the three reciprocal-space directions.
#[derive(Debug, Clone, Copy, PartialEq, Eq, Structural)]
pub struct Grid {
    pub nx: usize,
    pub ny: usize,
    pub nz: usize,
}

/// Whether a grid of these axes, and six tetrahedra per point of it, can be
/// counted in `usize`.
pub open spec fn dims_fit(nx: int, ny: int, nz: int) -> bool {
    nx * ny * nz * 6 <= usize::MAX
}

impl Grid {
    /// Every axis has at least two points, and the grid fits in memory indices.
    pub open spec fn wf(&self) -> bool {
        &&& self.nx >= 2
        &&& self.ny >= 2
        &&& self.nz >= 2
        &&& dims_fit(self.nx as int, self.ny as int, self.nz as int)
    }

    pub open spec fn num_points(&self) -> int {
        self.nx * self.ny * self.nz
    }

    /// Number of elementary cubes: one less than the points on each axis.
    pub open spec fn num_cells(&self) -> int {
        (self.nx - 1) * (self.ny - 1) * (self.nz - 1)
    }

    /// Dense index of the grid point `(i, j, k)`.
    pub open spec fn point_index(&self, i: int, j: int, k: int) -> int {
        flatten(i, j, k, self.ny as int, self.nz as int)
    }

    /// The grid point stored at dense index `n`.
    pub open spec fn point_at(&self, n: int) -> (int, int, int) {
        unflatten(n, self.ny as int, self.nz as int)
    }

    /// The grid of the given axes; fails when an axis has fewer than two points.
    pub fn new(nx: usize, ny: usize, nz: usize) -> (r: Result<Grid, DosError>)
        requires
            nx >= 2 && ny >= 2 && nz >= 2 ==> dims_fit(nx as int, ny as int, nz as int),
        ensures
            (nx < 2 || ny < 2 || nz < 2) <==> r == Err::<Grid, DosError>(DosError::InvalidGrid),
            !(nx < 2 || ny < 2 || nz < 2) ==> r == Ok::<Grid, DosError>((Grid { nx, ny, nz })),
            r is Ok ==> r->Ok_0.wf(),
    {
        if nx < 2 || ny < 2 || nz < 2 {
            Err(DosError::InvalidGrid)
        } else {
            Ok(Grid { nx, ny, nz })
        }
    }

    /// Total number of grid points.
    pub fn point_count(&self) -> (r: usize)
        requires
            self.wf(),
        ensures
            r == self.num_points(),
    {
        proof {
            lemma_dims_fit(self.nx as int, self.ny as int, self.nz as int);
        }
        self.nx * self.ny * self.nz
    }

    /// Dense index of the grid point `(i, j, k)`, row-major with `k` fastest.
    pub fn index(&self, i: usize, j: usize, k: usize) -> (r: usize)
        requires
            self.wf(),
            i < self.nx,
            j < self.ny,
            k < self.nz,
        ensures
            r == self.point_index(i as int, j as int, k as int),
            r < self.num_points(),
    {
        proof {
            lemma_dims_fit(self.nx as int, self.ny as int, self.nz as int);
            lemma_flatten_bound(
                i as int,
                j as int,
                k as int,
                self.nx as int,
                self.ny as int,
                self.nz as int,
            );
        }
        (i * self.ny + j) * self.nz + k
    }

    /// The grid point stored at dense index `n`.
    pub fn point(&self, n: usize) -> (r: [usize; 3])
        requires
            self.wf(),
            n < self.num_points(),
        ensures
            (r[0] as int, r[1] as int, r[2] as int) == self.point_at(n as int),
            r[0] < self.nx,
            r[1] < self.ny,
            r[2] < self.nz,
    {
        let q = n / self.nz;
        assert(q < self.nx * self.ny) by (nonlinear_arith)
            requires
                n < self.nx * self.ny * self.nz,
                q == n / self.nz,
                self.nz > 0,
        ;
        assert(q / self.ny < self.nx) by (nonlinear_arith)
            requires
                q < self.nx * self.ny,
                self.ny > 0,
        ;
        [q / self.ny, q % self.ny, n % self.nz]
    }

    /// Every grid point, in the order of their dense indices.
    pub fn points(&self) -> (r: Vec<[usize; 3]>)
        requires
            self.wf(),
        ensures
            r@.len() == self.num_points(),
            forall|n: int|
                0 <= n < r@.len() ==> (r@[n][0] as int, r@[n][1] as int, r@[n][2] as int)
                    == #[trigger] self.point_at(n),
    {
        let mut r: Vec<[usize; 3]> = Vec::new();
        let mut i: usize = 0;
        assert(flatten(0, 0, 0, self.ny as int, self.nz as int) == 0) by (nonlinear_arith);
        while i < self.nx
            invariant
                self.wf(),
                i <= self.nx,
                r@.len() == self.point_index(i as int, 0, 0),
                forall|n: int|
                    0 <= n < r@.len() ==> (r@[n][0] as int, r@[n][1] as int, r@[n][2] as int)
                        == #[trigger] self.point_at(n),
            decreases self.nx - i,
        {
            let mut j: usize = 0;
            while j < self.ny
                invariant
                    self.wf(),
                    i < self.nx,
                    j <= self.ny,
                    r@.len() == self.point_index(i as int, j as int, 0),
                    forall|n: int|
                        0 <= n < r@.len() ==> (r@[n][0] as int, r@[n][1] as int, r@[n][2] as int)
                            == #[trigger] self.point_at(n),
                decreases self.ny - j,
            {
                let mut k: usize = 0;
                while k < self.nz
                    invariant
                        self.wf(),
                        i < self.nx,
                        j < self.ny,
                        k <= self.nz,
                        r@.len() == self.point_index(i as int, j as int, k as int),
                        forall|n: int|
                            0 <= n < r@.len() ==> (
                            r@[n][0] as int,
                            r@[n][1] as int,
                            r@[n][2] as int,
                            ) == #[trigger] self.point_at(n),
                    decreases self.nz - k,
                {
                    proof {
                        lemma_unflatten_flatten(
                            i as int,
                            j as int,
                            k as int,
                            self.ny as int,
                            self.nz as int,
                        );
                        lemma_flatten_bound(
                            i as int,
                            j as int,
                            k as int,
                            self.nx as int,
                            self.ny as int,
                            self.nz as int,
                        );
                    }
                    let p: [usize; 3] = [i, j, k];
                    r.push(p);
                    k = k + 1;
                }
                proof {
                    assert(flatten(i as int, j as int, self.nz as int, self.ny as int, self.nz as int)
                        == flatten(i as int, j + 1, 0, self.ny as int, self.nz as int)) by (nonlinear_arith);
                }
                j = j + 1;
            }
            proof {
                assert(flatten(i as int, self.ny as int, 0, self.ny as int, self.nz as int)
                    == flatten(i + 1, 0, 0, self.ny as int, self.nz as int)) by (nonlinear_arith);
            }
            i = i + 1;
        }
        proof {
            assert(flatten(self.nx as int, 0, 0, self.ny as int, self.nz as int)
                == self.num_points()) by (nonlinear_arith);
        }
        r
    }
}

} // verus!

//! Which lattice cubes the surface crosses.
//!
//! A lattice cube is named by its least corner. The surface crosses it when
//! its eight corner samples are not all on one side: some strictly
//! negative, some not.

use crate::bits::{is_negative, sample_is_negative};
use crate::grid::{
    lemma_digits_of_index, lemma_index_of_digits, linear_index, padded_dim_spec, Cell,
};
use crate::sample::{uniform_sign, SampleGrid};
use vstd::prelude::*;

verus! {

/// Whether `cell` is the least corner of a cube of the lattice with `dim`
/// points per axis.
pub open spec fn is_cube(dim: int, cell: Cell) -> bool {
    cell.x + 1 < dim && cell.y + 1 < dim && cell.z + 1 < dim
}

/// Corner `k` of the cube at `cell`, for `0 <= k < 8`: the three binary
/// digits of `k` are the steps along x, y and z.
pub open spec fn corner(cell: Cell, k: int) -> Cell {
    Cell {
        x: (cell.x + k % 2) as u32,
        y: (cell.y + (k / 2) % 2) as u32,
        z: (cell.z + k / 4) as u32,
    }
}

/// Whether the sample at corner `k` of the cube at `cell` is strictly
/// negative.
pub open spec fn corner_is_negative(samples: Seq<u32>, dim: int, cell: Cell, k: int) -> bool {
    is_negative(samples[linear_index(dim, corner(cell, k))])
}

/// Whether the surface crosses the cube at `cell`.
pub open spec fn cube_crossed(samples: Seq<u32>, dim: int, cell: Cell) -> bool {
    exists|j: int, k: int|
        0 <= j < 8 && 0 <= k < 8 && #[trigger] corner_is_negative(samples, dim, cell, j)
            && !#[trigger] corner_is_negative(samples, dim, cell, k)
}

/// Whether the surface crosses any cube of the lattice.
pub open spec fn any_cube_crossed(samples: Seq<u32>, dim: int) -> bool {
    exists|cell: Cell| is_cube(dim, cell) && #[trigger] cube_crossed(samples, dim, cell)
}

/// The corners of a cube are lattice points.
pub proof fn lemma_corner_in_lattice(dim: int, cell: Cell, k: int)
    requires
        dim <= u32::MAX,
        is_cube(dim, cell),
        0 <= k < 8,
    ensures
        corner(cell, k).x == cell.x + k % 2,
        corner(cell, k).y == cell.y + (k / 2) % 2,
        corner(cell, k).z == cell.z + k / 4,
        crate::grid::in_lattice(dim, corner(cell, k)),
        0 <= linear_index(dim, corner(cell, k)) < dim * dim * dim,
{
    let c = corner(cell, k);
    lemma_digits_of_index(dim, c.x as int, c.y as int, c.z as int);
}

/// Without a crossed cube, every sample has the sign of the first one.
proof fn lemma_sign_spreads_from_origin(samples: Seq<u32>, dim: int, x: int, y: int, z: int)
    requires
        2 <= dim <= 1625,
        samples.len() == dim * dim * dim,
        !any_cube_crossed(samples, dim),
        0 <= x < dim,
        0 <= y < dim,
        0 <= z < dim,
    ensures
        0 <= x + dim * y + dim * dim * z < samples.len(),
        is_negative(samples[x + dim * y + dim * dim * z]) == is_negative(samples[0]),
    decreases x + y + z,
{
    lemma_digits_of_index(dim, x, y, z);
    if x == 0 && y == 0 && z == 0 {
        assert(dim * 0 == 0 && dim * dim * 0 == 0) by (nonlinear_arith);
    } else {
        let px = if x > 0 { x - 1 } else { x };
        let py = if x == 0 && y > 0 { y - 1 } else { y };
        let pz = if x == 0 && y == 0 { z - 1 } else { z };
        lemma_sign_spreads_from_origin(samples, dim, px, py, pz);
        let mx = if px + 1 < dim { px } else { px - 1 };
        let my = if py + 1 < dim { py } else { py - 1 };
        let mz = if pz + 1 < dim { pz } else { pz - 1 };
        let m = Cell { x: mx as u32, y: my as u32, z: mz as u32 };
        let j = (x - mx) + 2 * (y - my) + 4 * (z - mz);
        let k = (px - mx) + 2 * (py - my) + 4 * (pz - mz);
        assert(is_cube(dim, m));
        assert(0 <= j < 8 && 0 <= k < 8);
        lemma_corner_in_lattice(dim, m, j);
        lemma_corner_in_lattice(dim, m, k);
        assert(corner(m, j) == Cell { x: x as u32, y: y as u32, z: z as u32 });
        assert(corner(m, k) == Cell { x: px as u32, y: py as u32, z: pz as u32 });
        assert(!cube_crossed(samples, dim, m));
        assert(corner_is_negative(samples, dim, m, j) == corner_is_negative(samples, dim, m, k));
    }
}

/// All samples share a sign exactly when the surface crosses no cube.
pub proof fn lemma_uniform_sign_iff_no_cube_crossed(samples: Seq<u32>, dim: int)
    requires
        2 <= dim <= 1625,
        samples.len() == dim * dim * dim,
    ensures
        uniform_sign(samples) <==> !any_cube_crossed(samples, dim),
{
    if uniform_sign(samples) {
        assert forall|cell: Cell| is_cube(dim, cell) implies !cube_crossed(samples, dim, cell) by {
            assert forall|j: int, k: int| 0 <= j < 8 && 0 <= k < 8 implies corner_is_negative(
                samples,
                dim,
                cell,
                j,
            ) == corner_is_negative(samples, dim, cell, k) by {
                lemma_corner_in_lattice(dim, cell, j);
                lemma_corner_in_lattice(dim, cell, k);
            }
        }
    }
    if !any_cube_crossed(samples, dim) {
        assert forall|i: int, j: int|
            0 <= i < samples.len() && 0 <= j < samples.len() implies is_negative(
            #[trigger] samples[i],
        ) == is_negative(#[trigger] samples[j]) by {
            lemma_index_of_digits(dim, i);
            lemma_index_of_digits(dim, j);
            lemma_sign_spreads_from_origin(samples, dim, i % dim, (i / dim) % dim, i / (dim * dim));
            lemma_sign_spreads_from_origin(samples, dim, j % dim, (j / dim) % dim, j / (dim * dim));
        }
    }
}

impl SampleGrid {
    /// Whether the surface crosses the lattice cube whose least corner is
    /// `cell`.
    pub fn is_crossed(&self, cell: Cell) -> (crossed: bool)
        requires
            is_cube(padded_dim_spec(self.resolution_spec()), cell),
        ensures
            crossed == cube_crossed(self@, padded_dim_spec(self.resolution_spec()), cell),
    {
        let resolution: u32 = self.resolution();
        let ghost dim = padded_dim_spec(resolution);
        let mut negatives: u32 = 0;
        let mut k: u32 = 0;
        while k < 8
            invariant
                k <= 8,
                negatives <= k,
                resolution == self.resolution_spec(),
                dim == padded_dim_spec(resolution),
                self.well_formed(),
                is_cube(dim, cell),
                negatives == 0 <==> forall|j: int|
                    0 <= j < k ==> !#[trigger] corner_is_negative(self@, dim, cell, j),
                negatives == k <==> forall|j: int|
                    0 <= j < k ==> #[trigger] corner_is_negative(self@, dim, cell, j),
            decreases 8 - k,
        {
            proof {
                lemma_corner_in_lattice(dim, cell, k as int);
            }
            let at = Cell { x: cell.x + k % 2, y: cell.y + (k / 2) % 2, z: cell.z + k / 4 };
            assert(at == corner(cell, k as int));
            let negative: bool = sample_is_negative(self.sample_at(at));
            assert(negative == corner_is_negative(self@, dim, cell, k as int));
            if negative {
                negatives += 1;
            }
            k += 1;
        }
        negatives != 0 && negatives != 8
    }
}

} // verus!

//! The padded cubic lattice: its size, its cells and their row-major order.

use fast_surface_nets::ndshape::{RuntimeShape, Shape};
use vstd::arithmetic::div_mod::{
    lemma_div_denominator, lemma_fundamental_div_mod, lemma_fundamental_div_mod_converse,
    lemma_mod_bound,
};
use vstd::prelude::*;

verus! {

/// The largest logical resolution whose padded lattice can still be indexed
/// by a `u32`: `(MAX_RESOLUTION + 2)^3 <= u32::MAX`.
pub const MAX_RESOLUTION: u32 = 1623;

/// A lattice point, by its three indices.
#[derive(Clone, Copy, Debug, PartialEq, Eq, Structural)]
pub struct Cell {
    pub x: u32,
    pub y: u32,
    pub z: u32,
}

/// Points per axis of the padded lattice: the logical resolution and one pad
/// layer on each side.
pub open spec fn padded_dim_spec(resolution: u32) -> int {
    resolution + 2
}

/// Number of points in the padded lattice.
pub open spec fn sample_count_spec(resolution: u32) -> int {
    (resolution + 2) * (resolution + 2) * (resolution + 2)
}

/// Whether `resolution` names a lattice this library can index.
pub open spec fn valid_resolution(resolution: u32) -> bool {
    1 <= resolution <= MAX_RESOLUTION
}

/// Whether `cell` lies in the cubic lattice with `dim` points per axis.
pub open spec fn in_lattice(dim: int, cell: Cell) -> bool {
    cell.x < dim && cell.y < dim && cell.z < dim
}

/// Row-major position of `cell`: `x` runs fastest, then `y`, then `z`.
pub open spec fn linear_index(dim: int, cell: Cell) -> int {
    cell.x + dim * cell.y + dim * dim * cell.z
}

/// The cell at row-major position `index`, for `0 <= index < dim^3`.
pub open spec fn cell_at(dim: int, index: int) -> Cell {
    Cell {
        x: (index % dim) as u32,
        y: ((index / dim) % dim) as u32,
        z: (index / (dim * dim)) as u32,
    }
}

/// Digits of a three-digit number in base `dim` can be read back from it.
pub proof fn lemma_digits_of_index(dim: int, x: int, y: int, z: int)
    requires
        0 < dim,
        0 <= x < dim,
        0 <= y < dim,
        0 <= z < dim,
    ensures
        0 <= x + dim * y + dim * dim * z < dim * dim * dim,
        (x + dim * y + dim * dim * z) % dim == x,
        ((x + dim * y + dim * dim * z) / dim) % dim == y,
        (x + dim * y + dim * dim * z) / (dim * dim) == z,
{
    let i = x + dim * y + dim * dim * z;
    let q = y + dim * z;
    assert(i == q * dim + x) by (nonlinear_arith)
        requires
            i == x + dim * y + dim * dim * z,
            q == y + dim * z,
    ;
    assert(0 <= q && q == z * dim + y && 0 <= i) by (nonlinear_arith)
        requires
            q == y + dim * z,
            i == q * dim + x,
            0 < dim,
            0 <= x,
            0 <= y,
            0 <= z,
    ;
    lemma_fundamental_div_mod_converse(i, dim, q, x);
    lemma_fundamental_div_mod_converse(q, dim, z, y);
    lemma_div_denominator(i, dim, dim);
    assert(i < dim * dim * dim) by (nonlinear_arith)
        requires
            i == x + dim * y + dim * dim * z,
            0 < dim,
            x < dim,
            y < dim,
            z < dim,
            0 <= x,
            0 <= y,
            0 <= z,
    {
        assert(dim * y <= dim * (dim - 1));
        assert(dim * dim * z <= dim * dim * (dim - 1));
    }
}

/// A number below `dim^3` is the sum of its three digits in base `dim`.
pub proof fn lemma_index_of_digits(dim: int, index: int)
    requires
        0 < dim,
        0 <= index < dim * dim * dim,
    ensures
        0 <= index % dim < dim,
        0 <= (index / dim) % dim < dim,
        0 <= index / (dim * dim) < dim,
        index % dim + dim * ((index / dim) % dim) + dim * dim * (index / (dim * dim)) == index,
{
    let q = index / dim;
    let x = index % dim;
    let z = q / dim;
    let y = q % dim;
    lemma_fundamental_div_mod(index, dim);
    lemma_fundamental_div_mod(q, dim);
    lemma_mod_bound(index, dim);
    lemma_mod_bound(q, dim);
    lemma_div_denominator(index, dim, dim);
    assert(0 <= q) by (nonlinear_arith)
        requires
            index == dim * q + x,
            0 <= index,
            x < dim,
            0 < dim,
    ;
    assert(0 <= z < dim) by (nonlinear_arith)
        requires
            index == dim * q + x,
            q == dim * z + y,
            0 <= x,
            0 <= y < dim,
            0 <= q,
            index < dim * dim * dim,
            0 < dim,
    {
        if z >= dim {
            assert(dim * z >= dim * dim);
            assert(dim * q >= dim * (dim * dim));
        }
        if z < 0 {
            assert(dim * z <= -dim);
        }
    }
    assert(x + dim * y + dim * dim * z == index) by (nonlinear_arith)
        requires
            index == dim * q + x,
            q == dim * z + y,
    ;
}

/// The cube of any admissible padded dimension fits a `u32`.
pub proof fn lemma_sample_count_bounds(resolution: u32)
    requires
        valid_resolution(resolution),
    ensures
        27 <= sample_count_spec(resolution) <= 4_291_015_625,
        sample_count_spec(resolution) <= u32::MAX,
{
    let d = padded_dim_spec(resolution);
    assert(3 <= d <= 1625);
    assert(9 <= d * d <= 1625 * 1625) by (nonlinear_arith)
        requires
            3 <= d <= 1625,
    ;
    let dd = d * d;
    assert(27 <= dd * d <= 1625 * 1625 * 1625) by (nonlinear_arith)
        requires
            3 <= d <= 1625,
            9 <= dd <= 1625 * 1625,
    ;
}

/// Points per axis of the padded lattice.
pub fn padded_dim(resolution: u32) -> (dim: u32)
    requires
        valid_resolution(resolution),
    ensures
        dim == padded_dim_spec(resolution),
{
    resolution + 2
}

/// Number of points in the padded lattice.
pub fn sample_count(resolution: u32) -> (count: u32)
    requires
        valid_resolution(resolution),
    ensures
        count == sample_count_spec(resolution),
{
    proof {
        lemma_sample_count_bounds(resolution);
    }
    let d: u32 = resolution + 2;
    assert(d * d <= 1625 * 1625) by (nonlinear_arith)
        requires
            d <= 1625,
    ;
    d * d * d
}

/// `Shape::linearize` of `ndshape`, on the cubic runtime shape with `dim`
/// points per axis. Trusted: the sum `x + dim * y + dim * dim * z`, which
/// the preconditions keep below `dim^3` and so within `u32`.
#[verifier::external_body]
fn shape_linearize(dim: u32, cell: Cell) -> (index: u32)
    requires
        1 <= dim <= 1625,
        in_lattice(dim as int, cell),
    ensures
        index == cell.x + dim * cell.y + dim * dim * cell.z,
{
    RuntimeShape::<u32, 3>::new([dim, dim, dim]).linearize([cell.x, cell.y, cell.z])
}

/// `Shape::delinearize` of `ndshape`, on the cubic runtime shape with `dim`
/// points per axis. Trusted: `z` is the quotient by `dim * dim`, and `y` and
/// `x` are quotient and remainder by `dim` of what is left.
#[verifier::external_body]
fn shape_delinearize(dim: u32, index: u32) -> (cell: Cell)
    requires
        1 <= dim <= 1625,
    ensures
        cell.z == (index as int) / (dim * dim),
        cell.y == (index - cell.z * (dim * dim)) / (dim as int),
        cell.x == (index - cell.z * (dim * dim)) % (dim as int),
{
    let [x, y, z] = RuntimeShape::<u32, 3>::new([dim, dim, dim]).delinearize(index);
    Cell { x, y, z }
}

/// Row-major order numbers the lattice: taking the position of a cell and
/// then the cell at that position gives the cell back, and the other way
/// round for every position below `dim^3`.
pub proof fn lemma_cell_at_inverts_linear_index(dim: int, cell: Cell, index: int)
    requires
        0 < dim <= u32::MAX,
        in_lattice(dim, cell),
        0 <= index < dim * dim * dim,
    ensures
        cell_at(dim, linear_index(dim, cell)) == cell,
        in_lattice(dim, cell_at(dim, index)),
        linear_index(dim, cell_at(dim, index)) == index,
{
    lemma_digits_of_index(dim, cell.x as int, cell.y as int, cell.z as int);
    lemma_index_of_digits(dim, index);
}

/// Row-major position of `cell` in the padded lattice of `resolution`.
pub fn linearize(resolution: u32, cell: Cell) -> (index: u32)
    requires
        valid_resolution(resolution),
        in_lattice(padded_dim_spec(resolution), cell),
    ensures
        index == linear_index(padded_dim_spec(resolution), cell),
        index == cell.x + (resolution + 2) * cell.y + (resolution + 2) * (resolution + 2) * cell.z,
        index < sample_count_spec(resolution),
{
    proof {
        lemma_digits_of_index(
            padded_dim_spec(resolution),
            cell.x as int,
            cell.y as int,
            cell.z as int,
        );
    }
    shape_linearize(resolution + 2, cell)
}

/// The cell at row-major position `index` of the padded lattice of
/// `resolution`: the inverse of [`linearize`].
pub fn delinearize(resolution: u32, index: u32) -> (cell: Cell)
    requires
        valid_resolution(resolution),
        index < sample_count_spec(resolution),
    ensures
        cell == cell_at(padded_dim_spec(resolution), index as int),
        cell.x == (index as int) % (resolution + 2),
        cell.y == ((index as int) / (resolution + 2)) % (resolution + 2),
        cell.z == (index as int) / ((resolution + 2) * (resolution + 2)),
        in_lattice(padded_dim_spec(resolution), cell),
        linear_index(padded_dim_spec(resolution), cell) == index,
{
    let cell = shape_delinearize(resolution + 2, index);
    proof {
        let d = padded_dim_spec(resolution);
        let i = index as int;
        lemma_index_of_digits(d, i);
        let rest = i - cell.z * (d * d);
        let x = i % d;
        let y = (i / d) % d;
        assert(rest == y * d + x) by (nonlinear_arith)
            requires
                rest == i - cell.z * (d * d),
                cell.z == i / (d * d),
                x + d * y + d * d * (i / (d * d)) == i,
        ;
        lemma_fundamental_div_mod_converse(rest, d, y, x);
    }
    cell
}

} // verus!

//! The map from lattice indices to the normalised domain.
//!
//! Index `0` lies at coordinate `-1`, index `array_dim` at `1`, and the
//! indices in between are spread evenly. Coordinates are kept exact, as
//! numerators over the common denominator `array_dim`.

use crate::grid::Cell;
use vstd::prelude::*;

verus! {

/// A point of the normalised domain with rational coordinates
/// `x / scale`, `y / scale`, `z / scale`.
#[derive(Clone, Copy, Debug, PartialEq, Eq, Structural)]
pub struct DomainPoint {
    pub x: i64,
    pub y: i64,
    pub z: i64,
    pub scale: u32,
}

/// Numerator, over `array_dim`, of the coordinate of lattice index `index`:
/// `2 * index / array_dim - 1` is `(2 * index - array_dim) / array_dim`.
pub open spec fn domain_numerator(array_dim: u32, index: u32) -> int {
    2 * index - array_dim
}

/// The domain point of a lattice cell.
pub open spec fn into_domain_spec(array_dim: u32, cell: Cell) -> DomainPoint {
    DomainPoint {
        x: domain_numerator(array_dim, cell.x) as i64,
        y: domain_numerator(array_dim, cell.y) as i64,
        z: domain_numerator(array_dim, cell.z) as i64,
        scale: array_dim,
    }
}

/// Maps a lattice cell into the normalised domain: each index `i` goes to
/// `(2 * i - array_dim) / array_dim`.
pub fn into_domain(array_dim: u32, cell: Cell) -> (point: DomainPoint)
    ensures
        point == into_domain_spec(array_dim, cell),
        point.x == 2 * cell.x - array_dim,
        point.y == 2 * cell.y - array_dim,
        point.z == 2 * cell.z - array_dim,
        point.scale == array_dim,
{
    let n: i64 = array_dim as i64;
    DomainPoint {
        x: 2 * (cell.x as i64) - n,
        y: 2 * (cell.y as i64) - n,
        z: 2 * (cell.z as i64) - n,
        scale: array_dim,
    }
}

/// The logical index range `[0, array_dim]` covers `[-1, 1]` linearly: the
/// ends map to `-1` and `1`, each step adds `2 / array_dim`, and so the
/// outer pad index `array_dim + 1` lies one step beyond `1`.
pub proof fn lemma_domain_is_linear(array_dim: u32, index: u32)
    requires
        index < u32::MAX,
    ensures
        domain_numerator(array_dim, 0) == -array_dim,
        domain_numerator(array_dim, array_dim) == array_dim,
        domain_numerator(array_dim, (index + 1) as u32) == domain_numerator(array_dim, index) + 2,
        index <= array_dim ==> -array_dim <= domain_numerator(array_dim, index) <= array_dim,
        index > array_dim ==> domain_numerator(array_dim, index) > array_dim,
{
}

} // verus!

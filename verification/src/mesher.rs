//! The meshing pipeline: sample the field, extract the surface, assemble the
//! mesh.
//!
//! The extraction kernel works in floating point and is supplied by the
//! caller. Everything decided around it is decided here: when it is run at
//! all, and what becomes of whatever it returns.

use crate::crossing::{any_cube_crossed, lemma_uniform_sign_iff_no_cube_crossed};
use crate::domain::{into_domain_spec, DomainPoint};
use crate::error::MeshError;
use crate::grid::{in_lattice, padded_dim_spec, valid_resolution, Cell};
use crate::mesh::{assembly_of, mesh_consistent, ExtractedSurface, MeshBuffer};
use crate::sample::{all_finite, sample, sampled_from, uniform_sign, SampleGrid};
use vstd::prelude::*;

verus! {

/// What extraction from `grid` returns: `EmptyResult` when all samples lie
/// on one side of the surface, else the assembly of a surface that
/// `extractor` gives for `grid`.
pub open spec fn extraction_of<E: FnOnce(&SampleGrid) -> ExtractedSurface>(
    grid: SampleGrid,
    extractor: E,
    result: Result<MeshBuffer, MeshError>,
) -> bool {
    if uniform_sign(grid@) {
        result == Err::<MeshBuffer, MeshError>(MeshError::EmptyResult)
    } else {
        exists|surface: ExtractedSurface|
            extractor.ensures((&grid,), surface) && assembly_of(surface@, result)
    }
}

/// What mesh generation returns for a grid `grid` of samples:
/// `InvalidField` when a sample is not finite, else what extraction returns.
pub open spec fn meshing_of<E: FnOnce(&SampleGrid) -> ExtractedSurface>(
    grid: SampleGrid,
    extractor: E,
    result: Result<MeshBuffer, MeshError>,
) -> bool {
    if !all_finite(grid@) {
        result == Err::<MeshBuffer, MeshError>(MeshError::InvalidField)
    } else {
        extraction_of(grid, extractor, result)
    }
}

/// What [`generate_mesh`] returns: the meshing of some grid sampled from
/// `field` at `resolution`.
pub open spec fn generation_of<
    F: Fn(DomainPoint) -> u32,
    E: FnOnce(&SampleGrid) -> ExtractedSurface,
>(field: F, extractor: E, resolution: u32, result: Result<MeshBuffer, MeshError>) -> bool {
    exists|grid: SampleGrid|
        grid.well_formed() && grid.resolution_spec() == resolution && sampled_from(
            field,
            resolution,
            grid@,
        ) && meshing_of(grid, extractor, result)
}

/// Extracts the surface held in `grid`. The kernel `extractor` is run only
/// when the surface crosses some lattice cube; a grid without a crossed
/// cube, which is one whose samples all share a sign, and a kernel result
/// without triangles are reported as `EmptyResult`.
pub fn extract<E: FnOnce(&SampleGrid) -> ExtractedSurface>(grid: &SampleGrid, extractor: E) -> (result:
    Result<MeshBuffer, MeshError>)
    requires
        extractor.requires((grid,)),
    ensures
        extraction_of(*grid, extractor, result),
        !any_cube_crossed(grid@, padded_dim_spec(grid.resolution_spec())) ==> result == Err::<
            MeshBuffer,
            MeshError,
        >(MeshError::EmptyResult),
        result matches Ok(mesh) ==> mesh_consistent(mesh@),
        result matches Err(e) ==> e == MeshError::EmptyResult,
{
    let resolution: u32 = grid.resolution();
    proof {
        lemma_uniform_sign_iff_no_cube_crossed(grid@, padded_dim_spec(resolution));
    }
    if grid.is_uniform_sign() {
        return Err(MeshError::EmptyResult);
    }
    let surface = extractor(grid);
    MeshBuffer::assemble(surface)
}

/// Generates the mesh of the zero level set of `field`: samples it at every
/// point of the padded lattice of `resolution`, refuses samples that are not
/// finite, and extracts the surface with `extractor`.
pub fn generate_mesh<F: Fn(DomainPoint) -> u32, E: FnOnce(&SampleGrid) -> ExtractedSurface>(
    field: F,
    extractor: E,
    resolution: u32,
) -> (result: Result<MeshBuffer, MeshError>)
    requires
        valid_resolution(resolution),
        forall|cell: Cell|
            in_lattice(padded_dim_spec(resolution), cell) ==> field.requires(
                (#[trigger] into_domain_spec(resolution, cell),),
            ),
        forall|grid: SampleGrid|
            grid.well_formed() && grid.resolution_spec() == resolution ==> #[trigger] extractor.requires(
                (&grid,),
            ),
    ensures
        generation_of(field, extractor, resolution, result),
        result matches Ok(mesh) ==> mesh_consistent(mesh@),
{
    let grid = sample(field, resolution);
    match grid.check_finite() {
        Err(e) => Err(e),
        Ok(()) => extract(&grid, extractor),
    }
}

} // verus!

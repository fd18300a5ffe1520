//! Properties of the pipeline as a whole, proved from the contracts of its
//! parts.

use crate::bits::{is_finite, is_negative};
use crate::domain::{into_domain_spec, DomainPoint};
use crate::error::MeshError;
use crate::grid::{cell_at, in_lattice, lemma_index_of_digits, padded_dim_spec, Cell};
use crate::mesh::{ExtractedSurface, MeshBuffer};
use crate::mesher::{generation_of, meshing_of};
use crate::sample::{sampled_from, SampleGrid};
use vstd::prelude::*;

verus! {

/// Whether `field` has a single value at every point.
pub open spec fn field_is_function<F: Fn(DomainPoint) -> u32>(field: F) -> bool {
    forall|p: DomainPoint, v: u32, w: u32|
        #[trigger] field.ensures((p,), v) && #[trigger] field.ensures((p,), w) ==> v == w
}

/// Whether `extractor` gives a single surface for the samples of a grid.
pub open spec fn extractor_is_function<E: FnOnce(&SampleGrid) -> ExtractedSurface>(
    extractor: E,
) -> bool {
    forall|g: SampleGrid, h: SampleGrid, s: ExtractedSurface, t: ExtractedSurface|
        g@ == h@ && g.resolution_spec() == h.resolution_spec() && #[trigger] extractor.ensures(
            (&g,),
            s,
        ) && #[trigger] extractor.ensures((&h,), t) ==> s@ == t@
}

/// Whether two results of mesh generation are the same: the same error, or
/// meshes with the same contents.
pub open spec fn same_result(
    first: Result<MeshBuffer, MeshError>,
    second: Result<MeshBuffer, MeshError>,
) -> bool {
    match (first, second) {
        (Ok(a), Ok(b)) => a@ == b@,
        (Err(a), Err(b)) => a == b,
        _ => false,
    }
}

/// Mesh generation has no hidden state: with a field and a kernel that are
/// functions of their arguments, generating twice at one resolution gives
/// the same result.
pub proof fn lemma_generation_is_repeatable<
    F: Fn(DomainPoint) -> u32,
    E: FnOnce(&SampleGrid) -> ExtractedSurface,
>(
    field: F,
    extractor: E,
    resolution: u32,
    first: Result<MeshBuffer, MeshError>,
    second: Result<MeshBuffer, MeshError>,
)
    requires
        field_is_function(field),
        extractor_is_function(extractor),
        generation_of(field, extractor, resolution, first),
        generation_of(field, extractor, resolution, second),
    ensures
        same_result(first, second),
{
    let g = choose|g: SampleGrid|
        g.well_formed() && g.resolution_spec() == resolution && sampled_from(
            field,
            resolution,
            g@,
        ) && meshing_of(g, extractor, first);
    let h = choose|h: SampleGrid|
        h.well_formed() && h.resolution_spec() == resolution && sampled_from(
            field,
            resolution,
            h@,
        ) && meshing_of(h, extractor, second);
    assert(g@ =~= h@);
}

/// A field that is finite and of one sign at every point of the padded
/// lattice has no surface there: generation reports `EmptyResult`.
pub proof fn lemma_constant_sign_is_empty<
    F: Fn(DomainPoint) -> u32,
    E: FnOnce(&SampleGrid) -> ExtractedSurface,
>(field: F, extractor: E, resolution: u32, negative: bool, result: Result<MeshBuffer, MeshError>)
    requires
        forall|cell: Cell, v: u32|
            in_lattice(padded_dim_spec(resolution), cell) && #[trigger] field.ensures(
                (into_domain_spec(resolution, cell),),
                v,
            ) ==> is_finite(v) && is_negative(v) == negative,
        generation_of(field, extractor, resolution, result),
    ensures
        result == Err::<MeshBuffer, MeshError>(MeshError::EmptyResult),
{
    let g = choose|g: SampleGrid|
        g.well_formed() && g.resolution_spec() == resolution && sampled_from(
            field,
            resolution,
            g@,
        ) && meshing_of(g, extractor, result);
    let dim = padded_dim_spec(resolution);
    assert forall|i: int| 0 <= i < g@.len() implies is_finite(#[trigger] g@[i]) && is_negative(
        g@[i],
    ) == negative by {
        lemma_index_of_digits(dim, i);
        let cell = cell_at(dim, i);
        assert(in_lattice(dim, cell));
        assert(field.ensures((into_domain_spec(resolution, cell),), g@[i]));
    }
}

} // verus!

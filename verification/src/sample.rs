//! Sampling a scalar field over the padded lattice.

use crate::bits::{is_finite, is_negative, sample_is_finite, sample_is_negative};
use crate::domain::{into_domain, into_domain_spec, DomainPoint};
use crate::error::MeshError;
use crate::grid::{
    cell_at, delinearize, in_lattice, linear_index, linearize, padded_dim_spec, sample_count,
    sample_count_spec, valid_resolution, Cell, MAX_RESOLUTION,
};
use vstd::prelude::*;

verus! {

/// One sample per point of the padded lattice, in row-major order, each as
/// the bit pattern of its value.
#[derive(Debug)]
pub struct SampleGrid {
    resolution: u32,
    samples: Vec<u32>,
}

/// Whether `samples` is what `field` gives on the padded lattice of
/// `resolution`: sample `i` is a value of `field` at the domain point of the
/// cell at row-major position `i`.
pub open spec fn sampled_from<F: Fn(DomainPoint) -> u32>(
    field: F,
    resolution: u32,
    samples: Seq<u32>,
) -> bool {
    &&& samples.len() == sample_count_spec(resolution)
    &&& forall|i: int|
        0 <= i < samples.len() ==> field.ensures(
            (into_domain_spec(resolution, cell_at(padded_dim_spec(resolution), i)),),
            #[trigger] samples[i],
        )
}

/// Whether all of `samples` lie on one side of the surface: all strictly
/// negative, or none.
pub open spec fn uniform_sign(samples: Seq<u32>) -> bool {
    forall|i: int, j: int|
        0 <= i < samples.len() && 0 <= j < samples.len() ==> is_negative(#[trigger] samples[i])
            == is_negative(#[trigger] samples[j])
}

/// Whether every one of `samples` is finite.
pub open spec fn all_finite(samples: Seq<u32>) -> bool {
    forall|i: int| 0 <= i < samples.len() ==> is_finite(#[trigger] samples[i])
}

impl View for SampleGrid {
    type V = Seq<u32>;

    closed spec fn view(&self) -> Seq<u32> {
        self.samples@
    }
}

impl SampleGrid {
    /// The logical resolution the grid was sampled at.
    pub closed spec fn resolution_spec(&self) -> u32 {
        self.resolution
    }

    /// A grid holds exactly one sample per point of its padded lattice.
    pub open spec fn well_formed(&self) -> bool {
        &&& valid_resolution(self.resolution_spec())
        &&& self@.len() == sample_count_spec(self.resolution_spec())
    }

    #[verifier::type_invariant]
    spec fn inv(self) -> bool {
        self.well_formed()
    }

    /// Wraps samples that were taken elsewhere. `None` unless `resolution`
    /// is admissible and there is exactly one sample per lattice point.
    pub fn from_samples(resolution: u32, samples: Vec<u32>) -> (grid: Option<SampleGrid>)
        ensures
            grid is Some <==> valid_resolution(resolution) && samples@.len() == sample_count_spec(
                resolution,
            ),
            grid matches Some(g) ==> g.well_formed() && g.resolution_spec() == resolution && g@
                == samples@,
    {
        if resolution < 1 || resolution > MAX_RESOLUTION {
            return None;
        }
        let count: u32 = sample_count(resolution);
        if samples.len() != count as usize {
            return None;
        }
        Some(SampleGrid { resolution, samples })
    }

    /// The logical resolution the grid was sampled at.
    pub fn resolution(&self) -> (resolution: u32)
        ensures
            resolution == self.resolution_spec(),
            self.well_formed(),
    {
        proof {
            use_type_invariant(self);
        }
        self.resolution
    }

    /// The samples in row-major order.
    pub fn samples(&self) -> (samples: &Vec<u32>)
        ensures
            samples@ == self@,
            self.well_formed(),
    {
        proof {
            use_type_invariant(self);
        }
        &self.samples
    }

    /// The sample at `cell`.
    pub fn sample_at(&self, cell: Cell) -> (bits: u32)
        requires
            in_lattice(padded_dim_spec(self.resolution_spec()), cell),
        ensures
            bits == self@[linear_index(padded_dim_spec(self.resolution_spec()), cell)],
    {
        proof {
            use_type_invariant(self);
        }
        let index: u32 = linearize(self.resolution, cell);
        self.samples[index as usize]
    }

    /// Whether all samples lie on one side of the surface, so that no
    /// lattice cube is crossed by it.
    pub fn is_uniform_sign(&self) -> (uniform: bool)
        ensures
            uniform == uniform_sign(self@),
    {
        proof {
            use_type_invariant(self);
            crate::grid::lemma_sample_count_bounds(self.resolution);
        }
        let first: bool = sample_is_negative(self.samples[0]);
        let mut i: usize = 1;
        while i < self.samples.len()
            invariant
                1 <= i <= self.samples.len(),
                first == is_negative(self.samples@[0]),
                forall|k: int| 0 <= k < i ==> is_negative(#[trigger] self.samples@[k]) == first,
            decreases self.samples.len() - i,
        {
            if sample_is_negative(self.samples[i]) != first {
                assert(is_negative(self@[i as int]) != is_negative(self@[0]));
                return false;
            }
            i += 1;
        }
        true
    }

    /// Checks that the field was finite wherever it was sampled:
    /// `InvalidField` if and only if some sample is an infinity or a NaN.
    pub fn check_finite(&self) -> (checked: Result<(), MeshError>)
        ensures
            checked is Ok <==> all_finite(self@),
            checked is Err ==> checked == Err::<(), MeshError>(MeshError::InvalidField),
    {
        let mut i: usize = 0;
        while i < self.samples.len()
            invariant
                i <= self.samples.len(),
                forall|k: int| 0 <= k < i ==> is_finite(#[trigger] self.samples@[k]),
            decreases self.samples.len() - i,
        {
            if !sample_is_finite(self.samples[i]) {
                assert(!is_finite(self@[i as int]));
                return Err(MeshError::InvalidField);
            }
            i += 1;
        }
        Ok(())
    }
}

/// Samples `field` at every point of the padded lattice of `resolution`, pad
/// layers included, in row-major order.
pub fn sample<F: Fn(DomainPoint) -> u32>(field: F, resolution: u32) -> (grid: SampleGrid)
    requires
        valid_resolution(resolution),
        forall|cell: Cell|
            in_lattice(padded_dim_spec(resolution), cell) ==> field.requires(
                (#[trigger] into_domain_spec(resolution, cell),),
            ),
    ensures
        grid.well_formed(),
        grid.resolution_spec() == resolution,
        sampled_from(field, resolution, grid@),
{
    let count: u32 = sample_count(resolution);
    let mut samples: Vec<u32> = Vec::new();
    let mut i: u32 = 0;
    while i < count
        invariant
            valid_resolution(resolution),
            count == sample_count_spec(resolution),
            i <= count,
            samples@.len() == i,
            forall|cell: Cell|
                in_lattice(padded_dim_spec(resolution), cell) ==> field.requires(
                    (#[trigger] into_domain_spec(resolution, cell),),
                ),
            forall|k: int|
                0 <= k < i ==> field.ensures(
                    (into_domain_spec(resolution, cell_at(padded_dim_spec(resolution), k)),),
                    #[trigger] samples@[k],
                ),
        decreases count - i,
    {
        let cell = delinearize(resolution, i);
        let point = into_domain(resolution, cell);
        let value: u32 = field(point);
        samples.push(value);
        i += 1;
    }
    SampleGrid { resolution, samples }
}

} // verus!

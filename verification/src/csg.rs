//! Combining distance fields. The union of two solids is the pointwise
//! minimum of their distances; the minimum is taken on bit patterns, by the
//! order of the values they stand for.

use crate::bits::{is_nan, is_negative, sample_is_nan, sign_field};
use crate::domain::DomainPoint;
use vstd::prelude::*;

verus! {

/// The pattern without its sign bit.
pub open spec fn magnitude_field(bits: u32) -> int {
    bits as int % 0x8000_0000
}

/// Place of a pattern in the order of the values: patterns that are not
/// NaN stand for values in the order of their ordinals, and the two zeros
/// share ordinal `0`.
pub open spec fn ordinal(bits: u32) -> int {
    if sign_field(bits) == 1 {
        -magnitude_field(bits)
    } else {
        magnitude_field(bits)
    }
}

/// The smaller of two samples. A NaN gives way to the other sample; of two
/// samples of equal value the first is taken.
pub open spec fn min_sample(a: u32, b: u32) -> u32 {
    if is_nan(a) {
        b
    } else if is_nan(b) {
        a
    } else if ordinal(b) < ordinal(a) {
        b
    } else {
        a
    }
}

/// Place of the pattern in the order of the values.
pub fn sample_ordinal(bits: u32) -> (place: i64)
    ensures
        place == ordinal(bits),
{
    if bits >= 0x8000_0000 {
        let magnitude: u32 = bits - 0x8000_0000;
        -(magnitude as i64)
    } else {
        bits as i64
    }
}

/// Distance to the union of two solids, from the distances to each: the
/// smaller of the two.
pub fn union(a: u32, b: u32) -> (distance: u32)
    ensures
        distance == min_sample(a, b),
{
    if sample_is_nan(a) {
        b
    } else if sample_is_nan(b) {
        a
    } else if sample_ordinal(b) < sample_ordinal(a) {
        b
    } else {
        a
    }
}

/// Whether `distance` is what the union of two fields gives at `point`: the
/// smaller of a value of the first and a value of the second there.
pub open spec fn union_value_at<A: Fn(DomainPoint) -> u32, B: Fn(DomainPoint) -> u32>(
    first: A,
    second: B,
    point: DomainPoint,
    distance: u32,
) -> bool {
    exists|a: u32, b: u32|
        first.ensures((point,), a) && second.ensures((point,), b) && distance == min_sample(a, b)
}

/// The union of two fields, evaluated at `point`: the smaller of what the
/// two fields give there.
pub fn union_at<A: Fn(DomainPoint) -> u32, B: Fn(DomainPoint) -> u32>(
    first: A,
    second: B,
    point: DomainPoint,
) -> (distance: u32)
    requires
        first.requires((point,)),
        second.requires((point,)),
    ensures
        union_value_at(first, second, point, distance),
{
    let a: u32 = first(point);
    let b: u32 = second(point);
    union(a, b)
}

/// The minimum is one of its arguments, is not above either of them where
/// neither is a NaN, and does not depend on their order but for which of
/// two equal values is taken.
pub proof fn lemma_min_sample_is_minimum(a: u32, b: u32)
    ensures
        min_sample(a, b) == a || min_sample(a, b) == b,
        !is_nan(a) && !is_nan(b) ==> ordinal(min_sample(a, b)) <= ordinal(a) && ordinal(
            min_sample(a, b),
        ) <= ordinal(b),
        !is_nan(a) && !is_nan(b) ==> ordinal(min_sample(a, b)) == ordinal(min_sample(b, a)),
        is_nan(min_sample(a, b)) <==> is_nan(a) && is_nan(b),
{
}

/// A point is inside the union exactly when it is inside one of the two
/// solids.
pub proof fn lemma_union_is_inside_either(a: u32, b: u32)
    ensures
        is_negative(min_sample(a, b)) == (is_negative(a) || is_negative(b)),
{
}

/// The union of two fields that are functions of the point is, at every
/// point, exactly the minimum of their two values.
pub proof fn lemma_union_is_pointwise_minimum<
    A: Fn(DomainPoint) -> u32,
    B: Fn(DomainPoint) -> u32,
>(first: A, second: B, point: DomainPoint, a: u32, b: u32, distance: u32)
    requires
        forall|v: u32| first.ensures((point,), v) ==> v == a,
        forall|v: u32| second.ensures((point,), v) ==> v == b,
        union_value_at(first, second, point, distance),
    ensures
        distance == min_sample(a, b),
{
}

} // verus!

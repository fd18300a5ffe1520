use proc_mesh::crossing;
use proc_mesh::bits::sample_is_nan;
use proc_mesh::csg::{sample_ordinal, union, union_at};
use proc_mesh::domain::DomainPoint;
use proc_mesh::grid::Cell;
use proc_mesh::sample::{sample, SampleGrid};

fn norm(p: DomainPoint) -> f32 {
    let s = p.scale as f32;
    let (x, y, z) = (p.x as f32 / s, p.y as f32 / s, p.z as f32 / s);
    (x * x + y * y + z * z).sqrt()
}

fn ball(radius: f32, centre_x: f32, p: DomainPoint) -> u32 {
    let s = p.scale as f32;
    let (x, y, z) = (p.x as f32 / s - centre_x, p.y as f32 / s, p.z as f32 / s);
    ((x * x + y * y + z * z).sqrt() - radius).to_bits()
}

#[test]
fn union_is_the_smaller_distance() {
    assert_eq!(union(1.0f32.to_bits(), 2.0f32.to_bits()), 1.0f32.to_bits());
    assert_eq!(union(2.0f32.to_bits(), 1.0f32.to_bits()), 1.0f32.to_bits());
    assert_eq!(union((-1.0f32).to_bits(), 2.0f32.to_bits()), (-1.0f32).to_bits());
    assert_eq!(union((-1.0f32).to_bits(), (-2.0f32).to_bits()), (-2.0f32).to_bits());
    assert_eq!(union(0.25f32.to_bits(), (-0.0f32).to_bits()), (-0.0f32).to_bits());
    assert_eq!(union(f32::INFINITY.to_bits(), 3.5f32.to_bits()), 3.5f32.to_bits());
    assert_eq!(union(f32::NEG_INFINITY.to_bits(), 3.5f32.to_bits()), f32::NEG_INFINITY.to_bits());
}

#[test]
fn union_lets_a_nan_give_way() {
    let nan = f32::NAN.to_bits();
    assert_eq!(union(nan, 2.0f32.to_bits()), 2.0f32.to_bits());
    assert_eq!(union((-2.0f32).to_bits(), nan), (-2.0f32).to_bits());
    assert!(sample_is_nan(union(nan, nan)));
    assert!(sample_is_nan(0xFFC0_0000));
    assert!(!sample_is_nan(f32::INFINITY.to_bits()));
    assert!(!sample_is_nan(f32::NEG_INFINITY.to_bits()));
}

#[test]
fn union_of_equal_values_takes_the_first() {
    assert_eq!(union(0.0f32.to_bits(), (-0.0f32).to_bits()), 0.0f32.to_bits());
    assert_eq!(union((-0.0f32).to_bits(), 0.0f32.to_bits()), (-0.0f32).to_bits());
    assert_eq!(union(7.0f32.to_bits(), 7.0f32.to_bits()), 7.0f32.to_bits());
}

#[test]
fn ordinals_follow_the_values() {
    assert_eq!(sample_ordinal(0.0f32.to_bits()), 0);
    assert_eq!(sample_ordinal((-0.0f32).to_bits()), 0);
    assert_eq!(sample_ordinal(1), 1);
    assert_eq!(sample_ordinal(0x8000_0001), -1);
    assert_eq!(sample_ordinal(1.0f32.to_bits()), 0x3F80_0000);
    assert_eq!(sample_ordinal((-1.0f32).to_bits()), -0x3F80_0000);
    assert_eq!(sample_ordinal(0xFFFF_FFFF), -0x7FFF_FFFF);
}

#[test]
fn union_agrees_with_the_minimum_of_the_values() {
    let mut a: u32 = 0x0000_0123;
    let mut checked: u32 = 0;
    for _ in 0..400 {
        let mut b: u32 = 0x8000_0456;
        for _ in 0..400 {
            let (x, y) = (f32::from_bits(a), f32::from_bits(b));
            let got = f32::from_bits(union(a, b));
            let want = x.min(y);
            if want.is_nan() {
                assert!(got.is_nan(), "{a:#x} {b:#x}");
            } else {
                assert_eq!(got, want, "{a:#x} {b:#x}");
            }
            checked += 1;
            b = b.wrapping_add(10_737_413);
        }
        a = a.wrapping_add(10_737_419);
    }
    assert_eq!(checked, 160_000);
}

#[test]
fn union_of_two_spheres_is_the_pointwise_minimum() {
    let left = |p: DomainPoint| ball(0.5, -0.3, p);
    let right = |p: DomainPoint| ball(0.4, 0.35, p);
    let resolution: i64 = 16;
    for x in 0..=resolution + 1 {
        for y in 0..=resolution + 1 {
            for z in 0..=resolution + 1 {
                let p = DomainPoint {
                    x: 2 * x - resolution,
                    y: 2 * y - resolution,
                    z: 2 * z - resolution,
                    scale: 16,
                };
                let joined = f32::from_bits(union_at(left, right, p));
                let expected = f32::from_bits(left(p)).min(f32::from_bits(right(p)));
                assert_eq!(joined.to_bits(), expected.to_bits());
            }
        }
    }
}

#[test]
fn cube_around_a_single_negative_sample_is_crossed() {
    let mut samples = vec![1.0f32.to_bits(); 64];
    samples[1 + 4 + 16] = (-1.0f32).to_bits();
    let grid = SampleGrid::from_samples(2, samples).unwrap();
    let mut crossed: u32 = 0;
    for z in 0..3 {
        for y in 0..3 {
            for x in 0..3 {
                let touches = x <= 1 && y <= 1 && z <= 1;
                assert_eq!(grid.is_crossed(Cell { x, y, z }), touches);
                if touches {
                    crossed += 1;
                }
            }
        }
    }
    assert_eq!(crossed, 8);
}

#[test]
fn no_cube_is_crossed_where_all_samples_share_a_sign() {
    for bits in [1.0f32.to_bits(), (-1.0f32).to_bits(), 0.0f32.to_bits(), f32::NAN.to_bits()] {
        let grid = SampleGrid::from_samples(1, vec![bits; 27]).unwrap();
        assert!(grid.is_uniform_sign());
        for z in 0..2 {
            for y in 0..2 {
                for x in 0..2 {
                    assert!(!grid.is_crossed(Cell { x, y, z }));
                }
            }
        }
    }
}

#[test]
fn sphere_crosses_cubes_at_its_radius_only() {
    let grid = sample(|p| (norm(p) - 0.5).to_bits(), 8);
    assert!(!grid.is_uniform_sign());
    assert!(!grid.is_crossed(Cell { x: 4, y: 4, z: 4 }));
    assert!(!grid.is_crossed(Cell { x: 0, y: 0, z: 0 }));
    assert!(!grid.is_crossed(Cell { x: 8, y: 8, z: 8 }));
    assert!(grid.is_crossed(Cell { x: 5, y: 4, z: 4 }));
    assert!(grid.is_crossed(Cell { x: 2, y: 4, z: 4 }));
    assert!(!grid.is_crossed(Cell { x: 1, y: 4, z: 4 }));
}

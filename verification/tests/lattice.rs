use proc_mesh::domain::{into_domain, DomainPoint};
use proc_mesh::grid::{delinearize, linearize, padded_dim, sample_count, Cell, MAX_RESOLUTION};

#[test]
fn padded_lattice_of_thirty_two_has_thirty_four_points_per_axis() {
    assert_eq!(padded_dim(32), 34);
    assert_eq!(sample_count(32), 39_304);
}

#[test]
fn smallest_and_largest_lattice_sizes() {
    assert_eq!(padded_dim(1), 3);
    assert_eq!(sample_count(1), 27);
    assert_eq!(padded_dim(MAX_RESOLUTION), 1625);
    assert_eq!(sample_count(MAX_RESOLUTION), 4_291_015_625);
}

#[test]
fn linearize_is_row_major() {
    assert_eq!(linearize(32, Cell { x: 0, y: 0, z: 0 }), 0);
    assert_eq!(linearize(32, Cell { x: 1, y: 0, z: 0 }), 1);
    assert_eq!(linearize(32, Cell { x: 0, y: 1, z: 0 }), 34);
    assert_eq!(linearize(32, Cell { x: 0, y: 0, z: 1 }), 1156);
    assert_eq!(linearize(32, Cell { x: 1, y: 2, z: 3 }), 3537);
    assert_eq!(linearize(32, Cell { x: 33, y: 33, z: 33 }), 39_303);
}

#[test]
fn delinearize_reads_the_digits_back() {
    assert_eq!(delinearize(32, 0), Cell { x: 0, y: 0, z: 0 });
    assert_eq!(delinearize(32, 33), Cell { x: 33, y: 0, z: 0 });
    assert_eq!(delinearize(32, 34), Cell { x: 0, y: 1, z: 0 });
    assert_eq!(delinearize(32, 3537), Cell { x: 1, y: 2, z: 3 });
    assert_eq!(delinearize(32, 39_303), Cell { x: 33, y: 33, z: 33 });
}

#[test]
fn delinearize_inverts_linearize_everywhere_on_a_small_lattice() {
    let resolution: u32 = 3;
    let mut seen: u32 = 0;
    for index in 0..sample_count(resolution) {
        let cell = delinearize(resolution, index);
        assert!(cell.x < 5 && cell.y < 5 && cell.z < 5);
        assert_eq!(linearize(resolution, cell), index);
        seen += 1;
    }
    assert_eq!(seen, 125);
}

#[test]
fn largest_lattice_last_index_round_trips() {
    let last = sample_count(MAX_RESOLUTION) - 1;
    let cell = delinearize(MAX_RESOLUTION, last);
    assert_eq!(cell, Cell { x: 1624, y: 1624, z: 1624 });
    assert_eq!(linearize(MAX_RESOLUTION, cell), last);
}

#[test]
fn into_domain_maps_logical_range_onto_unit_interval() {
    let p = into_domain(32, Cell { x: 0, y: 16, z: 32 });
    assert_eq!(p, DomainPoint { x: -32, y: 0, z: 32, scale: 32 });
}

#[test]
fn into_domain_outer_pad_lies_one_step_beyond_one() {
    let p = into_domain(32, Cell { x: 33, y: 1, z: 31 });
    assert_eq!(p, DomainPoint { x: 34, y: -30, z: 30, scale: 32 });
}

#[test]
fn into_domain_is_total() {
    let p = into_domain(0, Cell { x: 0, y: 1, z: u32::MAX });
    assert_eq!(p, DomainPoint { x: 0, y: 2, z: 8_589_934_590, scale: 0 });
    let q = into_domain(u32::MAX, Cell { x: 0, y: 0, z: 0 });
    assert_eq!(q.x, -4_294_967_295);
}

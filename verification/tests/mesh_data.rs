use proc_mesh::error::MeshError;
use proc_mesh::mesh::{ExtractedSurface, MeshBuffer, UNUSED_UV};

fn vertex(x: f32, y: f32, z: f32) -> (u32, u32, u32) {
    (x.to_bits(), y.to_bits(), z.to_bits())
}

fn three_vertices() -> Vec<(u32, u32, u32)> {
    vec![vertex(0.0, 0.0, 0.0), vertex(1.0, 0.0, 0.0), vertex(0.0, 1.0, 0.0)]
}

fn three_normals() -> Vec<(u32, u32, u32)> {
    vec![vertex(0.0, 0.0, 1.0), vertex(0.0, 0.0, 1.0), vertex(0.0, 0.0, 2.5)]
}

#[test]
fn surface_accepts_consistent_lists() {
    let surface = ExtractedSurface::new(three_vertices(), three_normals(), vec![0, 1, 2, 2, 1, 0]);
    let surface = surface.expect("consistent lists");
    assert_eq!(surface.vertex_count(), 3);
    assert!(!surface.is_empty());
}

#[test]
fn surface_accepts_no_triangles_and_no_vertices() {
    let surface = ExtractedSurface::new(vec![], vec![], vec![]).expect("empty lists");
    assert_eq!(surface.vertex_count(), 0);
    assert!(surface.is_empty());
}

#[test]
fn surface_refuses_a_missing_normal() {
    let mut normals = three_normals();
    normals.pop();
    assert!(ExtractedSurface::new(three_vertices(), normals, vec![0, 1, 2]).is_none());
}

#[test]
fn surface_refuses_a_partial_triangle() {
    assert!(ExtractedSurface::new(three_vertices(), three_normals(), vec![0, 1]).is_none());
    assert!(ExtractedSurface::new(three_vertices(), three_normals(), vec![0, 1, 2, 0]).is_none());
}

#[test]
fn surface_refuses_an_index_without_vertex() {
    assert!(ExtractedSurface::new(three_vertices(), three_normals(), vec![0, 1, 3]).is_none());
    assert!(ExtractedSurface::new(three_vertices(), three_normals(), vec![u32::MAX, 1, 2]).is_none());
    assert!(ExtractedSurface::new(vec![], vec![], vec![0, 0, 0]).is_none());
}

#[test]
fn assemble_keeps_the_lists_and_fills_unused_uvs() {
    let surface =
        ExtractedSurface::new(three_vertices(), three_normals(), vec![0, 1, 2, 2, 1, 0]).unwrap();
    let mesh = MeshBuffer::assemble(surface).expect("a surface with triangles");
    assert_eq!(mesh.positions(), &three_vertices());
    assert_eq!(mesh.normals(), &three_normals());
    assert_eq!(mesh.indices(), &vec![0, 1, 2, 2, 1, 0]);
    assert_eq!(mesh.uvs(), &vec![(0u32, 0u32); 3]);
    assert_eq!(UNUSED_UV, (0.0f32.to_bits(), 0.0f32.to_bits()));
    assert_eq!(mesh.vertex_count(), 3);
    assert_eq!(mesh.triangle_count(), 2);
}

#[test]
fn assemble_reports_a_surface_without_triangles() {
    let surface = ExtractedSurface::new(three_vertices(), three_normals(), vec![]).unwrap();
    assert_eq!(MeshBuffer::assemble(surface).unwrap_err(), MeshError::EmptyResult);
}

#[test]
fn triangle_looks_its_corners_up() {
    let surface =
        ExtractedSurface::new(three_vertices(), three_normals(), vec![0, 1, 2, 2, 1, 0]).unwrap();
    let mesh = MeshBuffer::assemble(surface).unwrap();
    assert_eq!(
        mesh.triangle(1),
        [vertex(0.0, 1.0, 0.0), vertex(1.0, 0.0, 0.0), vertex(0.0, 0.0, 0.0)]
    );
}

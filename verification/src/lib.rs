//! Isosurface meshing over padded cubic sample grids.
//!
//! A scalar field is sampled at every point of a padded cubic lattice, the
//! samples are handed to a surface extraction kernel, and what the kernel
//! returns is checked and assembled into a mesh buffer. Samples and vertex
//! components are carried as IEEE 754 binary32 bit patterns, so everything
//! here is integer arithmetic.

pub mod bits;
pub mod crossing;
pub mod csg;
pub mod domain;
pub mod error;
pub mod grid;
pub mod laws;
pub mod mesh;
pub mod mesher;
pub mod sample;

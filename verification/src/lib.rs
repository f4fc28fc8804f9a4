//! Verified mesh topology and build-status rules for rendering a lit
//! UV sphere with WebGL.
//!
//! The sphere is tessellated into latitude and longitude bands. The
//! vertices sit on the lattice of band boundaries, stored row by row, and
//! every lattice cell is covered by two triangles whose corners are named
//! by 16-bit indices into the vertex buffer.

pub mod grid;
pub mod indices;
pub mod status;

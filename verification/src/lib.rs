//! Voxel meshing core: a chunked block world and a face-culling mesh builder.
//!
//! A [`world::World`] holds 16x16x16 [`world::Chunk`]s of block identifiers.
//! A [`mesher::ChunkBuilder`] walks one chunk, queries the world for the six
//! neighbours of every solid block, and emits one textured quad per face that
//! borders on air.  The quads are accumulated by a
//! [`buffer_builder::BufferBuilder`] into an indexed triangle mesh and handed
//! to the caller as packed little-endian vertex and index bytes, ready for a
//! GPU uploader.

pub mod buffer_builder;
pub mod mesher;
pub mod world;

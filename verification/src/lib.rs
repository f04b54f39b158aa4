//! A procedurally generated voxel terrain core: deterministic volume synthesis
//! from a per-column height field, surface classification with slope-driven
//! shape selection, face-culled mesh construction across chunk boundaries, and
//! the streaming lifecycle that decides which chunks exist and when they are
//! rebuilt or discarded.
//!
//! All geometry is kept in exact integer units: terrain heights in tenths of a
//! block, mesh coordinates in half-blocks, and texture coordinates as
//! half-fractions of a material's atlas rectangle. The floating-point noise
//! sampling and the final conversion to GPU buffers live with the caller.

pub mod chunk;
pub mod classify;
pub mod height;
pub mod lifecycle;
pub mod mesh;
pub mod rng;
pub mod settings;
pub mod structs;
pub mod voxel;

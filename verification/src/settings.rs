use vstd::prelude::*;

verus! {

/// Edge length of a cubic chunk volume, in voxels.
pub const CHUNK_SIZE: i32 = 32;

/// Number of voxels in one volume: `CHUNK_SIZE` cubed.
pub const VOLUME_LEN: usize = 32 * 32 * 32;

/// Streaming radius around a viewpoint, in chunks (Chebyshev distance,
/// inclusive).
pub const RENDER_DISTANCE: i32 = 5;

/// World height at and below which the sea override applies.
pub const SEA_LEVEL: i32 = 60;

/// Largest chunk coordinate magnitude the streaming system accepts; keeps all
/// world-position arithmetic (`coordinate * CHUNK_SIZE`) inside `i32`.
pub const MAX_CHUNK_COORD: i32 = 0x100_0000;

/// Largest streaming radius the lifecycle accepts; keeps the cube scans around
/// a viewpoint inside `i32`.
pub const MAX_RADIUS: i32 = 0x1000;

} // verus!

use vstd::prelude::*;

use crate::chunk::{copy_vec, in_chunk, vox_at, Chunk};
use crate::settings::{CHUNK_SIZE, VOLUME_LEN};
use crate::voxel::{rot_switch, rot_value_x, rot_value_z, rotation_of, Voxel, VoxelType, VoxelVariant};

verus! {

// ---------------------------------------------------------------------------
// Geometry templates, in half-blocks.
//
// A face is addressed by its template direction p: 0 back (-z), 1 front (+z),
// 2 top (+y), 3 bottom (-y), 4 left (-x), 5 right (+x). Vertex positions are
// half-block offsets inside the unit cell; texture coordinates are
// half-fractions of the material's atlas rectangle, v growing downwards.
// ---------------------------------------------------------------------------

/// Outward offset of template face p, before rotation.
pub open spec fn face_dir(p: int) -> (int, int, int) {
    seq![(0, 0, -1), (0, 0, 1), (0, 1, 0), (0, -1, 0), (-1, 0, 0), (1, 0, 0)][p]
}

/// Corners of the full unit cube.
pub open spec fn block_vert(k: int) -> (int, int, int) {
    seq![
        (0, 0, 0),
        (2, 0, 0),
        (2, 2, 0),
        (0, 2, 0),
        (0, 0, 2),
        (2, 0, 2),
        (0, 2, 2),
        (2, 2, 2),
    ][k]
}

/// Corners of the half-height prism.
pub open spec fn slab_vert(k: int) -> (int, int, int) {
    seq![
        (0, 0, 0),
        (2, 0, 0),
        (2, 1, 0),
        (0, 1, 0),
        (0, 0, 2),
        (2, 0, 2),
        (0, 1, 2),
        (2, 1, 2),
    ][k]
}

/// Corners of the stepped solid.
pub open spec fn stair_vert(k: int) -> (int, int, int) {
    seq![
        (0, 0, 0),
        (2, 0, 0),
        (0, 1, 0),
        (2, 1, 0),
        (0, 1, 1),
        (2, 1, 1),
        (0, 2, 1),
        (2, 2, 1),
        (0, 0, 2),
        (2, 0, 2),
        (0, 2, 2),
        (2, 2, 2),
    ][k]
}

/// Which template corner the i-th vertex of a rectangular face uses: two
/// triangles per face.
pub open spec fn rect_tri(p: int, i: int) -> int {
    seq![
        seq![0, 3, 1, 1, 3, 2],
        seq![5, 7, 4, 4, 7, 6],
        seq![3, 6, 2, 2, 6, 7],
        seq![1, 5, 0, 0, 5, 4],
        seq![4, 6, 0, 0, 6, 3],
        seq![1, 2, 5, 5, 2, 7],
    ][p][i]
}

/// Which stair corners face p uses, a direction-dependent triangle list.
pub open spec fn stair_tris(p: int) -> Seq<int> {
    seq![
        seq![0, 2, 1, 1, 2, 3, 4, 6, 5, 5, 6, 7],
        seq![9, 11, 8, 8, 11, 10],
        seq![6, 10, 7, 7, 10, 11, 2, 4, 3, 3, 4, 5],
        seq![8, 0, 9, 9, 0, 1],
        seq![8, 10, 0, 0, 4, 2, 4, 10, 6],
        seq![1, 11, 9, 1, 3, 5, 5, 7, 11],
    ][p]
}

/// Texture corner of the i-th vertex of a full block's face: the rectangle's
/// four corners, two triangles.
pub open spec fn block_uv(i: int) -> (int, int) {
    seq![(2, 2), (2, 0), (0, 2), (0, 2), (2, 0), (0, 0)][i]
}

/// Texture coordinates of the i-th vertex of a slab's face p.
pub open spec fn slab_uv(p: int, i: int) -> (int, int) {
    seq![
        seq![(2, 2), (2, 1), (0, 2), (0, 2), (2, 1), (0, 1)],
        seq![(0, 2), (0, 1), (2, 2), (2, 2), (0, 1), (2, 1)],
        seq![(2, 2), (2, 0), (0, 2), (0, 2), (2, 0), (0, 0)],
        seq![(0, 2), (0, 0), (2, 2), (2, 2), (0, 0), (2, 0)],
        seq![(0, 2), (0, 1), (2, 2), (2, 2), (0, 1), (2, 1)],
        seq![(2, 2), (2, 1), (0, 2), (0, 2), (2, 1), (0, 1)],
    ][p][i]
}

/// Texture coordinates of the i-th vertex of a stair's face p.
pub open spec fn stair_uv(p: int, i: int) -> (int, int) {
    seq![
        seq![
            (2, 2),
            (2, 1),
            (0, 2),
            (0, 2),
            (2, 1),
            (0, 1),
            (2, 1),
            (2, 0),
            (0, 1),
            (0, 1),
            (2, 0),
            (0, 0),
        ],
        seq![(0, 2), (0, 0), (2, 2), (2, 2), (0, 0), (2, 0)],
        seq![
            (2, 1),
            (2, 0),
            (0, 1),
            (0, 1),
            (2, 0),
            (0, 0),
            (2, 2),
            (2, 1),
            (0, 2),
            (0, 2),
            (2, 1),
            (0, 1),
        ],
        seq![(2, 0), (2, 2), (0, 0), (0, 0), (2, 2), (0, 2)],
        seq![
            (0, 2),
            (0, 0),
            (2, 2),
            (2, 2),
            (1, 1),
            (2, 1),
            (1, 1),
            (0, 0),
            (1, 0),
        ],
        seq![
            (2, 2),
            (0, 0),
            (0, 2),
            (2, 2),
            (2, 1),
            (1, 1),
            (1, 1),
            (1, 0),
            (0, 0),
        ],
    ][p][i]
}

/// Number of vertices a shape emits for face p.
pub open spec fn face_len(variant: VoxelVariant, p: int) -> int {
    match variant {
        VoxelVariant::Block => 6,
        VoxelVariant::Slab => 6,
        VoxelVariant::Stair => stair_tris(p).len() as int,
    }
}

/// Template position of the i-th vertex of a shape's face p.
pub open spec fn template_vert(variant: VoxelVariant, p: int, i: int) -> (int, int, int) {
    match variant {
        VoxelVariant::Block => block_vert(rect_tri(p, i)),
        VoxelVariant::Slab => slab_vert(rect_tri(p, i)),
        VoxelVariant::Stair => stair_vert(stair_tris(p)[i]),
    }
}

/// Texture coordinates of the i-th vertex of a shape's face p.
pub open spec fn face_uv(variant: VoxelVariant, p: int, i: int) -> (int, int) {
    match variant {
        VoxelVariant::Block => block_uv(i),
        VoxelVariant::Slab => slab_uv(p, i),
        VoxelVariant::Stair => stair_uv(p, i),
    }
}

// ---------------------------------------------------------------------------
// Executable template lookups, one entry per table cell.
// ---------------------------------------------------------------------------

/// Reads the outward offset of template face p.
pub fn face_offset(p: usize) -> (r: (i64, i64, i64))
    requires
        p < 6,
    ensures
        (r.0 as int, r.1 as int, r.2 as int) == face_dir(p as int),
        -1 <= r.0 <= 1 && -1 <= r.1 <= 1 && -1 <= r.2 <= 1,
{
    match p {
        0 => (0, 0, -1),
        1 => (0, 0, 1),
        2 => (0, 1, 0),
        3 => (0, -1, 0),
        4 => (-1, 0, 0),
        _ => (1, 0, 0),
    }
}

fn block_vert_at(k: usize) -> (r: (i64, i64, i64))
    requires
        k < 8,
    ensures
        (r.0 as int, r.1 as int, r.2 as int) == block_vert(k as int),
        0 <= r.0 <= 2 && 0 <= r.1 <= 2 && 0 <= r.2 <= 2,
{
    match k {
        0 => (0, 0, 0),
        1 => (2, 0, 0),
        2 => (2, 2, 0),
        3 => (0, 2, 0),
        4 => (0, 0, 2),
        5 => (2, 0, 2),
        6 => (0, 2, 2),
        _ => (2, 2, 2),
    }
}

fn slab_vert_at(k: usize) -> (r: (i64, i64, i64))
    requires
        k < 8,
    ensures
        (r.0 as int, r.1 as int, r.2 as int) == slab_vert(k as int),
        0 <= r.0 <= 2 && 0 <= r.1 <= 2 && 0 <= r.2 <= 2,
{
    match k {
        0 => (0, 0, 0),
        1 => (2, 0, 0),
        2 => (2, 1, 0),
        3 => (0, 1, 0),
        4 => (0, 0, 2),
        5 => (2, 0, 2),
        6 => (0, 1, 2),
        _ => (2, 1, 2),
    }
}

fn stair_vert_at(k: usize) -> (r: (i64, i64, i64))
    requires
        k < 12,
    ensures
        (r.0 as int, r.1 as int, r.2 as int) == stair_vert(k as int),
        0 <= r.0 <= 2 && 0 <= r.1 <= 2 && 0 <= r.2 <= 2,
{
    match k {
        0 => (0, 0, 0),
        1 => (2, 0, 0),
        2 => (0, 1, 0),
        3 => (2, 1, 0),
        4 => (0, 1, 1),
        5 => (2, 1, 1),
        6 => (0, 2, 1),
        7 => (2, 2, 1),
        8 => (0, 0, 2),
        9 => (2, 0, 2),
        10 => (0, 2, 2),
        _ => (2, 2, 2),
    }
}

fn rect_tri_at(p: usize, i: usize) -> (r: usize)
    requires
        p < 6,
        i < 6,
    ensures
        r as int == rect_tri(p as int, i as int),
        r < 8,
{
    match p {
        0 => match i {
            0 => 0,
            1 => 3,
            2 => 1,
            3 => 1,
            4 => 3,
            _ => 2,
        },
        1 => match i {
            0 => 5,
            1 => 7,
            2 => 4,
            3 => 4,
            4 => 7,
            _ => 6,
        },
        2 => match i {
            0 => 3,
            1 => 6,
            2 => 2,
            3 => 2,
            4 => 6,
            _ => 7,
        },
        3 => match i {
            0 => 1,
            1 => 5,
            2 => 0,
            3 => 0,
            4 => 5,
            _ => 4,
        },
        4 => match i {
            0 => 4,
            1 => 6,
            2 => 0,
            3 => 0,
            4 => 6,
            _ => 3,
        },
        _ => match i {
            0 => 1,
            1 => 2,
            2 => 5,
            3 => 5,
            4 => 2,
            _ => 7,
        },
    }
}

fn stair_count_at(p: usize) -> (r: usize)
    requires
        p < 6,
    ensures
        r as int == stair_tris(p as int).len(),
        r == 6 || r == 9 || r == 12,
{
    match p {
        0 => 12,
        1 => 6,
        2 => 12,
        3 => 6,
        4 => 9,
        _ => 9,
    }
}

fn stair_tri_at(p: usize, i: usize) -> (r: usize)
    requires
        p < 6,
        i < stair_tris(p as int).len(),
    ensures
        r as int == stair_tris(p as int)[i as int],
        r < 12,
{
    match p {
        0 => match i {
            0 => 0,
            1 => 2,
            2 => 1,
            3 => 1,
            4 => 2,
            5 => 3,
            6 => 4,
            7 => 6,
            8 => 5,
            9 => 5,
            10 => 6,
            _ => 7,
        },
        1 => match i {
            0 => 9,
            1 => 11,
            2 => 8,
            3 => 8,
            4 => 11,
            _ => 10,
        },
        2 => match i {
            0 => 6,
            1 => 10,
            2 => 7,
            3 => 7,
            4 => 10,
            5 => 11,
            6 => 2,
            7 => 4,
            8 => 3,
            9 => 3,
            10 => 4,
            _ => 5,
        },
        3 => match i {
            0 => 8,
            1 => 0,
            2 => 9,
            3 => 9,
            4 => 0,
            _ => 1,
        },
        4 => match i {
            0 => 8,
            1 => 10,
            2 => 0,
            3 => 0,
            4 => 4,
            5 => 2,
            6 => 4,
            7 => 10,
            _ => 6,
        },
        _ => match i {
            0 => 1,
            1 => 11,
            2 => 9,
            3 => 1,
            4 => 3,
            5 => 5,
            6 => 5,
            7 => 7,
            _ => 11,
        },
    }
}

fn block_uv_at(i: usize) -> (r: (u8, u8))
    requires
        i < 6,
    ensures
        (r.0 as int, r.1 as int) == block_uv(i as int),
{
    match i {
        0 => (2, 2),
        1 => (2, 0),
        2 => (0, 2),
        3 => (0, 2),
        4 => (2, 0),
        _ => (0, 0),
    }
}

fn slab_uv_at(p: usize, i: usize) -> (r: (u8, u8))
    requires
        p < 6,
        i < 6,
    ensures
        (r.0 as int, r.1 as int) == slab_uv(p as int, i as int),
{
    match p {
        0 => match i {
            0 => (2, 2),
            1 => (2, 1),
            2 => (0, 2),
            3 => (0, 2),
            4 => (2, 1),
            _ => (0, 1),
        },
        1 => match i {
            0 => (0, 2),
            1 => (0, 1),
            2 => (2, 2),
            3 => (2, 2),
            4 => (0, 1),
            _ => (2, 1),
        },
        2 => match i {
            0 => (2, 2),
            1 => (2, 0),
            2 => (0, 2),
            3 => (0, 2),
            4 => (2, 0),
            _ => (0, 0),
        },
        3 => match i {
            0 => (0, 2),
            1 => (0, 0),
            2 => (2, 2),
            3 => (2, 2),
            4 => (0, 0),
            _ => (2, 0),
        },
        4 => match i {
            0 => (0, 2),
            1 => (0, 1),
            2 => (2, 2),
            3 => (2, 2),
            4 => (0, 1),
            _ => (2, 1),
        },
        _ => match i {
            0 => (2, 2),
            1 => (2, 1),
            2 => (0, 2),
            3 => (0, 2),
            4 => (2, 1),
            _ => (0, 1),
        },
    }
}

fn stair_uv_at(p: usize, i: usize) -> (r: (u8, u8))
    requires
        p < 6,
        i < stair_tris(p as int).len(),
    ensures
        (r.0 as int, r.1 as int) == stair_uv(p as int, i as int),
{
    match p {
        0 => match i {
            0 => (2, 2),
            1 => (2, 1),
            2 => (0, 2),
            3 => (0, 2),
            4 => (2, 1),
            5 => (0, 1),
            6 => (2, 1),
            7 => (2, 0),
            8 => (0, 1),
            9 => (0, 1),
            10 => (2, 0),
            _ => (0, 0),
        },
        1 => match i {
            0 => (0, 2),
            1 => (0, 0),
            2 => (2, 2),
            3 => (2, 2),
            4 => (0, 0),
            _ => (2, 0),
        },
        2 => match i {
            0 => (2, 1),
            1 => (2, 0),
            2 => (0, 1),
            3 => (0, 1),
            4 => (2, 0),
            5 => (0, 0),
            6 => (2, 2),
            7 => (2, 1),
            8 => (0, 2),
            9 => (0, 2),
            10 => (2, 1),
            _ => (0, 1),
        },
        3 => match i {
            0 => (2, 0),
            1 => (2, 2),
            2 => (0, 0),
            3 => (0, 0),
            4 => (2, 2),
            _ => (0, 2),
        },
        4 => match i {
            0 => (0, 2),
            1 => (0, 0),
            2 => (2, 2),
            3 => (2, 2),
            4 => (1, 1),
            5 => (2, 1),
            6 => (1, 1),
            7 => (0, 0),
            _ => (1, 0),
        },
        _ => match i {
            0 => (2, 2),
            1 => (0, 0),
            2 => (0, 2),
            3 => (2, 2),
            4 => (2, 1),
            5 => (1, 1),
            6 => (1, 1),
            7 => (1, 0),
            _ => (0, 0),
        },
    }
}

/// Reads the number of vertices a shape emits for face p.
pub fn face_len_at(variant: VoxelVariant, p: usize) -> (r: usize)
    requires
        p < 6,
    ensures
        r as int == face_len(variant, p as int),
        r == 6 || r == 9 || r == 12,
{
    match variant {
        VoxelVariant::Block => 6,
        VoxelVariant::Slab => 6,
        VoxelVariant::Stair => stair_count_at(p),
    }
}

fn template_vert_at(variant: VoxelVariant, p: usize, i: usize) -> (r: (i64, i64, i64))
    requires
        p < 6,
        i < face_len(variant, p as int),
    ensures
        (r.0 as int, r.1 as int, r.2 as int) == template_vert(variant, p as int, i as int),
        0 <= r.0 <= 2 && 0 <= r.1 <= 2 && 0 <= r.2 <= 2,
{
    match variant {
        VoxelVariant::Block => block_vert_at(rect_tri_at(p, i)),
        VoxelVariant::Slab => slab_vert_at(rect_tri_at(p, i)),
        VoxelVariant::Stair => stair_vert_at(stair_tri_at(p, i)),
    }
}

fn face_uv_at(variant: VoxelVariant, p: usize, i: usize) -> (r: (u8, u8))
    requires
        p < 6,
        i < face_len(variant, p as int),
    ensures
        (r.0 as int, r.1 as int) == face_uv(variant, p as int, i as int),
{
    match variant {
        VoxelVariant::Block => block_uv_at(i),
        VoxelVariant::Slab => slab_uv_at(p, i),
        VoxelVariant::Stair => stair_uv_at(p, i),
    }
}

// ---------------------------------------------------------------------------
// World-space vertices.
// ---------------------------------------------------------------------------

/// One mesh vertex: a world position in half-blocks, the face's material, and
/// texture coordinates as half-fractions of that material's atlas rectangle.
#[derive(Debug, Clone, Copy, PartialEq, Eq, Structural)]
pub struct MeshVertex {
    pub x: i64,
    pub y: i64,
    pub z: i64,
    pub material: VoxelType,
    pub u: u8,
    pub v: u8,
}

/// The direction face p of a voxel actually points after the voxel's
/// rotation: the horizontal components are swapped when the rotation says so,
/// then sign-flipped.
pub open spec fn rotated_dir(vox: Voxel, p: int) -> (int, int, int) {
    let d = face_dir(p);
    let r = vox.voxel_rotation;
    if rot_switch(r) {
        (d.2 * rot_value_x(r), d.1, d.0 * rot_value_z(r))
    } else {
        (d.0 * rot_value_x(r), d.1, d.2 * rot_value_z(r))
    }
}

/// The i-th world-space vertex of face p of the voxel in cell (x, y, z) of
/// the chunk whose world position is `pos` blocks: the template corner,
/// rotated about the cell centre, moved to the cell, all in half-blocks.
pub open spec fn world_vertex(
    vox: Voxel,
    pos: (int, int, int),
    x: int,
    y: int,
    z: int,
    p: int,
    i: int,
) -> MeshVertex {
    let t = template_vert(vox.voxel_variant, p, i);
    let r = vox.voxel_rotation;
    let sx = if rot_switch(r) {
        t.2
    } else {
        t.0
    };
    let sz = if rot_switch(r) {
        t.0
    } else {
        t.2
    };
    let wx = (sx - 1) * rot_value_x(r) + 1 + 2 * (x + pos.0);
    let wy = t.1 + 2 * (y + pos.1);
    let wz = (sz - 1) * rot_value_z(r) + 1 + 2 * (z + pos.2);
    let uv = face_uv(vox.voxel_variant, p, i);
    MeshVertex {
        x: wx as i64,
        y: wy as i64,
        z: wz as i64,
        material: vox.voxel_type,
        u: uv.0 as u8,
        v: uv.1 as u8,
    }
}

/// Builds the i-th world-space vertex of face p of a voxel.
fn emit_vertex(vox: Voxel, pos: (i32, i32, i32), x: usize, y: usize, z: usize, p: usize, i: usize)
    -> (mv: MeshVertex)
    requires
        x < CHUNK_SIZE as usize,
        y < CHUNK_SIZE as usize,
        z < CHUNK_SIZE as usize,
        p < 6,
        i < face_len(vox.voxel_variant, p as int),
    ensures
        mv == world_vertex(
            vox,
            (pos.0 as int, pos.1 as int, pos.2 as int),
            x as int,
            y as int,
            z as int,
            p as int,
            i as int,
        ),
{
    let t = template_vert_at(vox.voxel_variant, p, i);
    let rot = rotation_of(vox.voxel_rotation);
    let sx = if rot.switch {
        t.2
    } else {
        t.0
    };
    let sz = if rot.switch {
        t.0
    } else {
        t.2
    };
    let wx = (sx - 1) * rot.value_x + 1 + 2 * (x as i64 + pos.0 as i64);
    let wy = t.1 + 2 * (y as i64 + pos.1 as i64);
    let wz = (sz - 1) * rot.value_z + 1 + 2 * (z as i64 + pos.2 as i64);
    let uv = face_uv_at(vox.voxel_variant, p, i);
    MeshVertex { x: wx, y: wy, z: wz, material: vox.voxel_type, u: uv.0, v: uv.1 }
}

// ---------------------------------------------------------------------------
// Face visibility.
// ---------------------------------------------------------------------------

/// The up-to-six axis-adjacent volumes of a chunk, as far as they are known.
/// A missing neighbour means that chunk has not been generated yet.
#[derive(Debug)]
pub struct NeighbourVolumes {
    pub x_neg: Option<Chunk>,
    pub x_pos: Option<Chunk>,
    pub y_neg: Option<Chunk>,
    pub y_pos: Option<Chunk>,
    pub z_neg: Option<Chunk>,
    pub z_pos: Option<Chunk>,
}

impl NeighbourVolumes {
    /// Every neighbour that is present holds a full-sized volume.
    pub open spec fn wf(self) -> bool {
        &&& (self.x_neg matches Some(c) ==> c.block_data@.len() == VOLUME_LEN)
        &&& (self.x_pos matches Some(c) ==> c.block_data@.len() == VOLUME_LEN)
        &&& (self.y_neg matches Some(c) ==> c.block_data@.len() == VOLUME_LEN)
        &&& (self.y_pos matches Some(c) ==> c.block_data@.len() == VOLUME_LEN)
        &&& (self.z_neg matches Some(c) ==> c.block_data@.len() == VOLUME_LEN)
        &&& (self.z_pos matches Some(c) ==> c.block_data@.len() == VOLUME_LEN)
    }

    /// The empty neighbour set: nothing known.
    pub fn none() -> (r: Self)
        ensures
            r.x_neg is None && r.x_pos is None && r.y_neg is None && r.y_pos is None && r.z_neg
                is None && r.z_pos is None,
    {
        NeighbourVolumes {
            x_neg: None,
            x_pos: None,
            y_neg: None,
            y_pos: None,
            z_neg: None,
            z_pos: None,
        }
    }
}

/// Visibility of a face that crosses into a neighbouring chunk: when the
/// neighbour is known, the face shows exactly when the mirrored voxel there is
/// not solid; an unknown neighbour defaults to visible, so no hole opens
/// before the neighbour has generated.
pub open spec fn boundary_visible(nb: Option<Chunk>, mx: int, my: int, mz: int) -> bool {
    match nb {
        Some(c) => !vox_at(c.block_data@, mx, my, mz).solid,
        None => true,
    }
}

/// Visibility of face p of the voxel in cell (x, y, z): the cell one step
/// along the face's rotated direction decides. Inside the chunk the face
/// shows exactly when that cell is not solid; over the rim the mirrored cell
/// of the neighbouring volume decides, defaulting to visible when that
/// volume is unknown.
pub open spec fn face_visible(
    data: Seq<Voxel>,
    nbs: NeighbourVolumes,
    x: int,
    y: int,
    z: int,
    p: int,
) -> bool {
    let d = rotated_dir(vox_at(data, x, y, z), p);
    let nx = x + d.0;
    let ny = y + d.1;
    let nz = z + d.2;
    if in_chunk(nx, ny, nz) {
        !vox_at(data, nx, ny, nz).solid
    } else if nx < 0 {
        boundary_visible(nbs.x_neg, CHUNK_SIZE as int - 1, y, z)
    } else if nx >= CHUNK_SIZE as int {
        boundary_visible(nbs.x_pos, 0, y, z)
    } else if ny < 0 {
        boundary_visible(nbs.y_neg, x, CHUNK_SIZE as int - 1, z)
    } else if ny >= CHUNK_SIZE as int {
        boundary_visible(nbs.y_pos, x, 0, z)
    } else if nz < 0 {
        boundary_visible(nbs.z_neg, x, y, CHUNK_SIZE as int - 1)
    } else {
        boundary_visible(nbs.z_pos, x, y, 0)
    }
}

/// A face contributes geometry exactly when its voxel is not air and the face
/// is visible.
pub open spec fn face_emitted(
    data: Seq<Voxel>,
    nbs: NeighbourVolumes,
    x: int,
    y: int,
    z: int,
    p: int,
) -> bool {
    vox_at(data, x, y, z).voxel_type != VoxelType::Air && face_visible(data, nbs, x, y, z, p)
}

/// Decides visibility of face p of the voxel in cell (x, y, z).
#[verifier::rlimit(80)]
pub fn face_visible_at(
    chunk: &Chunk,
    nbs: &NeighbourVolumes,
    x: usize,
    y: usize,
    z: usize,
    p: usize,
) -> (r: bool)
    requires
        chunk.block_data@.len() == VOLUME_LEN,
        nbs.wf(),
        x < CHUNK_SIZE as usize,
        y < CHUNK_SIZE as usize,
        z < CHUNK_SIZE as usize,
        p < 6,
    ensures
        r == face_visible(chunk.block_data@, *nbs, x as int, y as int, z as int, p as int),
{
    let n = CHUNK_SIZE as usize;
    let vox = chunk.block_data[x * n * n + y * n + z];
    assert(vox == vox_at(chunk.block_data@, x as int, y as int, z as int));
    let rot = rotation_of(vox.voxel_rotation);
    let f = face_offset(p);
    let ax: i64 = if rot.switch {
        f.2
    } else {
        f.0
    };
    let az: i64 = if rot.switch {
        f.0
    } else {
        f.2
    };
    let dx: i64 = if rot.value_x == 1 {
        ax
    } else {
        -ax
    };
    let dy: i64 = f.1;
    let dz: i64 = if rot.value_z == 1 {
        az
    } else {
        -az
    };
    proof {
        let r = vox.voxel_rotation;
        let d = face_dir(p as int);
        assert(d == (f.0 as int, f.1 as int, f.2 as int));
        let a = if rot_switch(r) {
            d.2
        } else {
            d.0
        };
        let b = if rot_switch(r) {
            d.0
        } else {
            d.2
        };
        if rot.value_x == 1 {
            assert(rot_value_x(r) == 1);
            assert(a * rot_value_x(r) == a) by (nonlinear_arith)
                requires
                    rot_value_x(r) == 1,
            ;
            assert(dx as int == a * rot_value_x(r));
        } else {
            assert(rot_value_x(r) == -1);
            assert(a * rot_value_x(r) == -a) by (nonlinear_arith)
                requires
                    rot_value_x(r) == -1,
            ;
            assert(dx as int == a * rot_value_x(r));
        }
        if rot.value_z == 1 {
            assert(rot_value_z(r) == 1);
            assert(b * rot_value_z(r) == b) by (nonlinear_arith)
                requires
                    rot_value_z(r) == 1,
            ;
            assert(dz as int == b * rot_value_z(r));
        } else {
            assert(rot_value_z(r) == -1);
            assert(b * rot_value_z(r) == -b) by (nonlinear_arith)
                requires
                    rot_value_z(r) == -1,
            ;
            assert(dz as int == b * rot_value_z(r));
        }
        assert((dx as int, dy as int, dz as int) == rotated_dir(vox, p as int));
    }
    let nx = x as i64 + dx;
    let ny = y as i64 + dy;
    let nz = z as i64 + dz;
    let edge = CHUNK_SIZE as i64;
    if 0 <= nx && nx < edge && 0 <= ny && ny < edge && 0 <= nz && nz < edge {
        let ni = (nx as usize) * n * n + (ny as usize) * n + nz as usize;
        !chunk.block_data[ni].solid
    } else if nx < 0 {
        match &nbs.x_neg {
            Some(c) => !c.block_data[(n - 1) * n * n + y * n + z].solid,
            None => true,
        }
    } else if nx >= edge {
        match &nbs.x_pos {
            Some(c) => !c.block_data[y * n + z].solid,
            None => true,
        }
    } else if ny < 0 {
        match &nbs.y_neg {
            Some(c) => !c.block_data[x * n * n + (n - 1) * n + z].solid,
            None => true,
        }
    } else if ny >= edge {
        match &nbs.y_pos {
            Some(c) => !c.block_data[x * n * n + z].solid,
            None => true,
        }
    } else if nz < 0 {
        match &nbs.z_neg {
            Some(c) => !c.block_data[x * n * n + y * n + (n - 1)].solid,
            None => true,
        }
    } else {
        match &nbs.z_pos {
            Some(c) => !c.block_data[x * n * n + y * n].solid,
            None => true,
        }
    }
}

// ---------------------------------------------------------------------------
// The mesh of a chunk, face by face in a fixed order.
// ---------------------------------------------------------------------------

/// Geometry of face p of the voxel in cell (x, y, z): its template vertices
/// in world space when the face is emitted, nothing otherwise.
pub open spec fn face_mesh(
    ch: Chunk,
    nbs: NeighbourVolumes,
    x: int,
    y: int,
    z: int,
    p: int,
) -> Seq<MeshVertex> {
    if face_emitted(ch.block_data@, nbs, x, y, z, p) {
        let vox = vox_at(ch.block_data@, x, y, z);
        Seq::new(
            face_len(vox.voxel_variant, p) as nat,
            |i: int| world_vertex(vox, ch@.pos, x, y, z, p, i),
        )
    } else {
        Seq::empty()
    }
}

/// Geometry of the first p faces of the voxel in cell (x, y, z).
pub open spec fn voxel_mesh_upto(
    ch: Chunk,
    nbs: NeighbourVolumes,
    x: int,
    y: int,
    z: int,
    p: int,
) -> Seq<MeshVertex>
    decreases p,
{
    if p <= 0 {
        Seq::empty()
    } else {
        voxel_mesh_upto(ch, nbs, x, y, z, p - 1) + face_mesh(ch, nbs, x, y, z, p - 1)
    }
}

/// Geometry of all six faces of the voxel in cell (x, y, z).
pub open spec fn voxel_mesh(ch: Chunk, nbs: NeighbourVolumes, x: int, y: int, z: int) -> Seq<
    MeshVertex,
> {
    voxel_mesh_upto(ch, nbs, x, y, z, 6)
}

/// Geometry of the first z voxels of row (x, y).
pub open spec fn row_mesh_upto(ch: Chunk, nbs: NeighbourVolumes, x: int, y: int, z: int) -> Seq<
    MeshVertex,
>
    decreases z,
{
    if z <= 0 {
        Seq::empty()
    } else {
        row_mesh_upto(ch, nbs, x, y, z - 1) + voxel_mesh(ch, nbs, x, y, z - 1)
    }
}

/// Geometry of the first y rows of slice x.
pub open spec fn layer_mesh_upto(ch: Chunk, nbs: NeighbourVolumes, x: int, y: int) -> Seq<
    MeshVertex,
>
    decreases y,
{
    if y <= 0 {
        Seq::empty()
    } else {
        layer_mesh_upto(ch, nbs, x, y - 1) + row_mesh_upto(ch, nbs, x, y - 1, CHUNK_SIZE as int)
    }
}

/// Geometry of the first x slices of the chunk.
pub open spec fn chunk_mesh_upto(ch: Chunk, nbs: NeighbourVolumes, x: int) -> Seq<MeshVertex>
    decreases x,
{
    if x <= 0 {
        Seq::empty()
    } else {
        chunk_mesh_upto(ch, nbs, x - 1) + layer_mesh_upto(ch, nbs, x - 1, CHUNK_SIZE as int)
    }
}

/// The full mesh of a chunk against its known neighbours: every cell in
/// x-major order, each cell's six faces in template order, visible faces only.
pub open spec fn chunk_mesh(ch: Chunk, nbs: NeighbourVolumes) -> Seq<MeshVertex> {
    chunk_mesh_upto(ch, nbs, CHUNK_SIZE as int)
}

/// A voxel's six faces contribute at most 12 vertices each.
pub proof fn lemma_voxel_mesh_upto_len(
    ch: Chunk,
    nbs: NeighbourVolumes,
    x: int,
    y: int,
    z: int,
    p: int,
)
    requires
        0 <= p <= 6,
    ensures
        voxel_mesh_upto(ch, nbs, x, y, z, p).len() <= 12 * p,
    decreases p,
{
    if p > 0 {
        lemma_voxel_mesh_upto_len(ch, nbs, x, y, z, p - 1);
        assert(face_mesh(ch, nbs, x, y, z, p - 1).len() <= 12);
    }
}

/// A row of voxels contributes at most 72 vertices per voxel.
pub proof fn lemma_row_mesh_upto_len(ch: Chunk, nbs: NeighbourVolumes, x: int, y: int, z: int)
    requires
        0 <= z <= CHUNK_SIZE as int,
    ensures
        row_mesh_upto(ch, nbs, x, y, z).len() <= 72 * z,
    decreases z,
{
    if z > 0 {
        lemma_row_mesh_upto_len(ch, nbs, x, y, z - 1);
        lemma_voxel_mesh_upto_len(ch, nbs, x, y, z - 1, 6);
    }
}

/// A slice of rows contributes at most 2304 vertices per row.
pub proof fn lemma_layer_mesh_upto_len(ch: Chunk, nbs: NeighbourVolumes, x: int, y: int)
    requires
        0 <= y <= CHUNK_SIZE as int,
    ensures
        layer_mesh_upto(ch, nbs, x, y).len() <= 2304 * y,
    decreases y,
{
    if y > 0 {
        lemma_layer_mesh_upto_len(ch, nbs, x, y - 1);
        lemma_row_mesh_upto_len(ch, nbs, x, y - 1, CHUNK_SIZE as int);
    }
}

/// The whole mesh contributes at most 73728 vertices per slice.
pub proof fn lemma_chunk_mesh_upto_len(ch: Chunk, nbs: NeighbourVolumes, x: int)
    requires
        0 <= x <= CHUNK_SIZE as int,
    ensures
        chunk_mesh_upto(ch, nbs, x).len() <= 73728 * x,
    decreases x,
{
    if x > 0 {
        lemma_chunk_mesh_upto_len(ch, nbs, x - 1);
        lemma_layer_mesh_upto_len(ch, nbs, x - 1, CHUNK_SIZE as int);
    }
}

// ---------------------------------------------------------------------------
// The built mesh.
// ---------------------------------------------------------------------------

/// A chunk's built mesh: world-space vertices and a triangle list over them.
/// The index buffer simply enumerates the vertices, three per triangle, in
/// the order they were emitted.
#[derive(Debug)]
pub struct RenderData {
    pub vertices: Vec<MeshVertex>,
    pub indices: Vec<u32>,
}

/// Mathematical image of a `RenderData`.
pub struct MeshView {
    pub vertices: Seq<MeshVertex>,
    pub indices: Seq<u32>,
}

impl View for RenderData {
    type V = MeshView;

    open spec fn view(&self) -> MeshView {
        MeshView { vertices: self.vertices@, indices: self.indices@ }
    }
}

impl Clone for RenderData {
    /// Copies the mesh exactly.
    fn clone(&self) -> (r: Self)
        ensures
            r@ == self@,
    {
        RenderData { vertices: copy_vec(&self.vertices), indices: copy_vec(&self.indices) }
    }
}

/// Builds the mesh of a chunk against its known neighbours: every non-air
/// voxel contributes its visible faces, in cell order, each face from its
/// shape's template rotated and moved to the cell's world position. The index
/// buffer enumerates the vertices in emission order.
pub fn render_update(chunk: &Chunk, neighbours: &NeighbourVolumes) -> (r: RenderData)
    requires
        chunk.block_data@.len() == VOLUME_LEN,
        neighbours.wf(),
    ensures
        r.vertices@ == chunk_mesh(*chunk, *neighbours),
        r.indices@.len() == r.vertices@.len(),
        forall|j: int| 0 <= j < r.indices@.len() ==> r.indices@[j] == j as u32,
{
    let n = CHUNK_SIZE as usize;
    let mut vertices: Vec<MeshVertex> = Vec::new();
    let mut indices: Vec<u32> = Vec::new();
    let mut x: usize = 0;
    while x < n
        invariant
            chunk.block_data@.len() == VOLUME_LEN,
            neighbours.wf(),
            n == CHUNK_SIZE as usize,
            x <= n,
            vertices@ == chunk_mesh_upto(*chunk, *neighbours, x as int),
            indices@.len() == vertices@.len(),
            forall|j: int| 0 <= j < indices@.len() ==> indices@[j] == j as u32,
        decreases n - x,
    {
        let mut y: usize = 0;
        while y < n
            invariant
                chunk.block_data@.len() == VOLUME_LEN,
                neighbours.wf(),
                n == CHUNK_SIZE as usize,
                x < n,
                y <= n,
                vertices@ == chunk_mesh_upto(*chunk, *neighbours, x as int) + layer_mesh_upto(
                    *chunk,
                    *neighbours,
                    x as int,
                    y as int,
                ),
                indices@.len() == vertices@.len(),
                forall|j: int| 0 <= j < indices@.len() ==> indices@[j] == j as u32,
            decreases n - y,
        {
            let mut z: usize = 0;
            while z < n
                invariant
                    chunk.block_data@.len() == VOLUME_LEN,
                    neighbours.wf(),
                    n == CHUNK_SIZE as usize,
                    x < n,
                    y < n,
                    z <= n,
                    vertices@ == chunk_mesh_upto(*chunk, *neighbours, x as int) + layer_mesh_upto(
                        *chunk,
                        *neighbours,
                        x as int,
                        y as int,
                    ) + row_mesh_upto(*chunk, *neighbours, x as int, y as int, z as int),
                    indices@.len() == vertices@.len(),
                    forall|j: int| 0 <= j < indices@.len() ==> indices@[j] == j as u32,
                decreases n - z,
            {
                let ghost vbase = vertices@;
                let vox = chunk.block_data[x * n * n + y * n + z];
                assert(vox == vox_at(chunk.block_data@, x as int, y as int, z as int));
                if vox.voxel_type != VoxelType::Air {
                    let mut p: usize = 0;
                    while p < 6
                        invariant
                            chunk.block_data@.len() == VOLUME_LEN,
                            neighbours.wf(),
                            n == CHUNK_SIZE as usize,
                            x < n,
                            y < n,
                            z < n,
                            p <= 6,
                            vox == vox_at(chunk.block_data@, x as int, y as int, z as int),
                            vox.voxel_type != VoxelType::Air,
                            vbase == chunk_mesh_upto(*chunk, *neighbours, x as int)
                                + layer_mesh_upto(*chunk, *neighbours, x as int, y as int)
                                + row_mesh_upto(*chunk, *neighbours, x as int, y as int, z as int),
                            vertices@ == vbase + voxel_mesh_upto(
                                *chunk,
                                *neighbours,
                                x as int,
                                y as int,
                                z as int,
                                p as int,
                            ),
                            indices@.len() == vertices@.len(),
                            forall|j: int| 0 <= j < indices@.len() ==> indices@[j] == j as u32,
                        decreases 6 - p,
                    {
                        let visible = face_visible_at(chunk, neighbours, x, y, z, p);
                        let ghost fseq = face_mesh(
                            *chunk,
                            *neighbours,
                            x as int,
                            y as int,
                            z as int,
                            p as int,
                        );
                        if visible {
                            assert(face_emitted(
                                chunk.block_data@,
                                *neighbours,
                                x as int,
                                y as int,
                                z as int,
                                p as int,
                            ));
                            let count = face_len_at(vox.voxel_variant, p);
                            proof {
                                assert(fseq.len() == count);
                            }
                            let ghost fbase = vertices@;
                            let mut i: usize = 0;
                            while i < count
                                invariant
                                    chunk.block_data@.len() == VOLUME_LEN,
                                    neighbours.wf(),
                                    n == CHUNK_SIZE as usize,
                                    x < n,
                                    y < n,
                                    z < n,
                                    p < 6,
                                    i <= count,
                                    vox == vox_at(chunk.block_data@, x as int, y as int, z as int),
                                    vox.voxel_type != VoxelType::Air,
                                    count as int == face_len(vox.voxel_variant, p as int),
                                    face_emitted(
                                        chunk.block_data@,
                                        *neighbours,
                                        x as int,
                                        y as int,
                                        z as int,
                                        p as int,
                                    ),
                                    fseq == face_mesh(
                                        *chunk,
                                        *neighbours,
                                        x as int,
                                        y as int,
                                        z as int,
                                        p as int,
                                    ),
                                    fseq.len() == count,
                                    vbase == chunk_mesh_upto(*chunk, *neighbours, x as int)
                                        + layer_mesh_upto(*chunk, *neighbours, x as int, y as int)
                                        + row_mesh_upto(
                                        *chunk,
                                        *neighbours,
                                        x as int,
                                        y as int,
                                        z as int,
                                    ),
                                    fbase == vbase + voxel_mesh_upto(
                                        *chunk,
                                        *neighbours,
                                        x as int,
                                        y as int,
                                        z as int,
                                        p as int,
                                    ),
                                    vertices@ == fbase + fseq.subrange(0, i as int),
                                    indices@.len() == vertices@.len(),
                                    forall|j: int|
                                        0 <= j < indices@.len() ==> indices@[j] == j as u32,
                                decreases count - i,
                            {
                                let mv = emit_vertex(vox, chunk.pos, x, y, z, p, i);
                                proof {
                                    assert(fseq[i as int] == world_vertex(
                                        vox,
                                        chunk@.pos,
                                        x as int,
                                        y as int,
                                        z as int,
                                        p as int,
                                        i as int,
                                    ));
                                    assert(mv == fseq[i as int]);
                                }
                                vertices.push(mv);
                                proof {
                                    assert(vertices@ =~= fbase + fseq.subrange(0, i as int + 1));
                                    lemma_chunk_mesh_upto_len(*chunk, *neighbours, x as int);
                                    lemma_layer_mesh_upto_len(
                                        *chunk,
                                        *neighbours,
                                        x as int,
                                        y as int,
                                    );
                                    lemma_row_mesh_upto_len(
                                        *chunk,
                                        *neighbours,
                                        x as int,
                                        y as int,
                                        z as int,
                                    );
                                    lemma_voxel_mesh_upto_len(
                                        *chunk,
                                        *neighbours,
                                        x as int,
                                        y as int,
                                        z as int,
                                        p as int,
                                    );
                                    assert(vertices@.len() < 0x800000);
                                }
                                let idx = vertices.len() - 1;
                                indices.push(idx as u32);
                                i += 1;
                            }
                            proof {
                                assert(fseq.subrange(0, fseq.len() as int) =~= fseq);
                                assert(voxel_mesh_upto(
                                    *chunk,
                                    *neighbours,
                                    x as int,
                                    y as int,
                                    z as int,
                                    p as int + 1,
                                ) == voxel_mesh_upto(
                                    *chunk,
                                    *neighbours,
                                    x as int,
                                    y as int,
                                    z as int,
                                    p as int,
                                ) + fseq);
                                assert(vertices@ =~= vbase + voxel_mesh_upto(
                                    *chunk,
                                    *neighbours,
                                    x as int,
                                    y as int,
                                    z as int,
                                    p as int + 1,
                                ));
                            }
                        } else {
                            proof {
                                assert(!face_emitted(
                                    chunk.block_data@,
                                    *neighbours,
                                    x as int,
                                    y as int,
                                    z as int,
                                    p as int,
                                ));
                                assert(fseq =~= Seq::<MeshVertex>::empty());
                                assert(voxel_mesh_upto(
                                    *chunk,
                                    *neighbours,
                                    x as int,
                                    y as int,
                                    z as int,
                                    p as int + 1,
                                ) =~= voxel_mesh_upto(
                                    *chunk,
                                    *neighbours,
                                    x as int,
                                    y as int,
                                    z as int,
                                    p as int,
                                ));
                            }
                        }
                        p += 1;
                    }
                    proof {
                        assert(row_mesh_upto(
                            *chunk,
                            *neighbours,
                            x as int,
                            y as int,
                            z as int + 1,
                        ) == row_mesh_upto(*chunk, *neighbours, x as int, y as int, z as int)
                            + voxel_mesh(*chunk, *neighbours, x as int, y as int, z as int));
                        assert(vertices@ =~= chunk_mesh_upto(*chunk, *neighbours, x as int)
                            + layer_mesh_upto(*chunk, *neighbours, x as int, y as int)
                            + row_mesh_upto(*chunk, *neighbours, x as int, y as int, z as int + 1));
                    }
                } else {
                    proof {
                        lemma_air_voxel_mesh(
                            *chunk,
                            *neighbours,
                            x as int,
                            y as int,
                            z as int,
                        );
                        assert(row_mesh_upto(
                            *chunk,
                            *neighbours,
                            x as int,
                            y as int,
                            z as int + 1,
                        ) == row_mesh_upto(*chunk, *neighbours, x as int, y as int, z as int)
                            + voxel_mesh(*chunk, *neighbours, x as int, y as int, z as int));
                        assert(vertices@ =~= chunk_mesh_upto(*chunk, *neighbours, x as int)
                            + layer_mesh_upto(*chunk, *neighbours, x as int, y as int)
                            + row_mesh_upto(*chunk, *neighbours, x as int, y as int, z as int + 1));
                    }
                }
                z += 1;
            }
            proof {
                assert(layer_mesh_upto(*chunk, *neighbours, x as int, y as int + 1)
                    == layer_mesh_upto(*chunk, *neighbours, x as int, y as int) + row_mesh_upto(
                    *chunk,
                    *neighbours,
                    x as int,
                    y as int,
                    CHUNK_SIZE as int,
                ));
                assert(vertices@ =~= chunk_mesh_upto(*chunk, *neighbours, x as int)
                    + layer_mesh_upto(*chunk, *neighbours, x as int, y as int + 1));
            }
            y += 1;
        }
        proof {
            assert(chunk_mesh_upto(*chunk, *neighbours, x as int + 1) == chunk_mesh_upto(
                *chunk,
                *neighbours,
                x as int,
            ) + layer_mesh_upto(*chunk, *neighbours, x as int, CHUNK_SIZE as int));
            assert(vertices@ =~= chunk_mesh_upto(*chunk, *neighbours, x as int + 1));
        }
        x += 1;
    }
    RenderData { vertices, indices }
}

/// The voxel in cell (x, y, z) sends a face in world direction d: some face
/// of its template points that way after rotation and is emitted.
pub open spec fn emits_face_toward(
    data: Seq<Voxel>,
    nbs: NeighbourVolumes,
    x: int,
    y: int,
    z: int,
    d: (int, int, int),
) -> bool {
    exists|p: int|
        0 <= p < 6 && #[trigger] rotated_dir(vox_at(data, x, y, z), p) == d && face_emitted(
            data,
            nbs,
            x,
            y,
            z,
            p,
        )
}

/// Whatever its rotation, a voxel has a template face pointing in every axis
/// direction.
proof fn lemma_dir_witness(vox: Voxel, d: (int, int, int))
    requires
        axis_dir(d),
    ensures
        exists|p: int| 0 <= p < 6 && #[trigger] rotated_dir(vox, p) == d,
{
    match vox.voxel_rotation {
        crate::voxel::VoxelRotation::Forward => {
            assert(rotated_dir(vox, 0) == (0int, 0int, -1int));
            assert(rotated_dir(vox, 1) == (0int, 0int, 1int));
            assert(rotated_dir(vox, 2) == (0int, 1int, 0int));
            assert(rotated_dir(vox, 3) == (0int, -1int, 0int));
            assert(rotated_dir(vox, 4) == (-1int, 0int, 0int));
            assert(rotated_dir(vox, 5) == (1int, 0int, 0int));
        },
        crate::voxel::VoxelRotation::Backward => {
            assert(rotated_dir(vox, 0) == (0int, 0int, 1int));
            assert(rotated_dir(vox, 1) == (0int, 0int, -1int));
            assert(rotated_dir(vox, 2) == (0int, 1int, 0int));
            assert(rotated_dir(vox, 3) == (0int, -1int, 0int));
            assert(rotated_dir(vox, 4) == (1int, 0int, 0int));
            assert(rotated_dir(vox, 5) == (-1int, 0int, 0int));
        },
        crate::voxel::VoxelRotation::Left => {
            assert(rotated_dir(vox, 0) == (-1int, 0int, 0int));
            assert(rotated_dir(vox, 1) == (1int, 0int, 0int));
            assert(rotated_dir(vox, 2) == (0int, 1int, 0int));
            assert(rotated_dir(vox, 3) == (0int, -1int, 0int));
            assert(rotated_dir(vox, 4) == (0int, 0int, 1int));
            assert(rotated_dir(vox, 5) == (0int, 0int, -1int));
        },
        crate::voxel::VoxelRotation::Right => {
            assert(rotated_dir(vox, 0) == (1int, 0int, 0int));
            assert(rotated_dir(vox, 1) == (-1int, 0int, 0int));
            assert(rotated_dir(vox, 2) == (0int, 1int, 0int));
            assert(rotated_dir(vox, 3) == (0int, -1int, 0int));
            assert(rotated_dir(vox, 4) == (0int, 0int, -1int));
            assert(rotated_dir(vox, 5) == (0int, 0int, 1int));
        },
    }
}

/// One of the six axis unit directions.
pub open spec fn axis_dir(d: (int, int, int)) -> bool {
    ||| d == (1int, 0int, 0int)
    ||| d == (-1int, 0int, 0int)
    ||| d == (0int, 1int, 0int)
    ||| d == (0int, -1int, 0int)
    ||| d == (0int, 0int, 1int)
    ||| d == (0int, 0int, -1int)
}

/// The known neighbour volume on the side an axis direction points to.
pub open spec fn neighbour_slot(nbs: NeighbourVolumes, d: (int, int, int)) -> Option<Chunk> {
    if d == (1int, 0int, 0int) {
        nbs.x_pos
    } else if d == (-1int, 0int, 0int) {
        nbs.x_neg
    } else if d == (0int, 1int, 0int) {
        nbs.y_pos
    } else if d == (0int, -1int, 0int) {
        nbs.y_neg
    } else if d == (0int, 0int, 1int) {
        nbs.z_pos
    } else {
        nbs.z_neg
    }
}

/// The cell of the adjacent volume that cell (x, y, z) touches across the
/// boundary in direction d: one step along d, wrapped to the far side.
pub open spec fn mirror_cell(x: int, y: int, z: int, d: (int, int, int)) -> (int, int, int) {
    (
        x + d.0 - d.0 * (CHUNK_SIZE as int),
        y + d.1 - d.1 * (CHUNK_SIZE as int),
        z + d.2 - d.2 * (CHUNK_SIZE as int),
    )
}

/// Closure under a shared boundary: for two adjacent chunks that each hold
/// the other\'s volume in their neighbour set, the voxels facing each other
/// across the shared face agree on visibility. Two solid voxels emit no face
/// between them from either side; a solid voxel abutting a non-solid one
/// emits its face from exactly the solid side. So no crack opens and no
/// hidden double geometry is built.
///
/// `a` holds cell (x, y, z) on its rim; `d` is the axis direction across the
/// boundary; `b` is the adjacent volume, and the two neighbour sets hold each
/// other\'s volumes.
pub proof fn lemma_boundary_closure(
    a: Chunk,
    b: Chunk,
    na: NeighbourVolumes,
    nb: NeighbourVolumes,
    x: int,
    y: int,
    z: int,
    d: (int, int, int),
)
    requires
        a.block_data@.len() == VOLUME_LEN,
        b.block_data@.len() == VOLUME_LEN,
        crate::chunk::volume_wf(a.block_data@),
        crate::chunk::volume_wf(b.block_data@),
        axis_dir(d),
        in_chunk(x, y, z),
        !in_chunk(x + d.0, y + d.1, z + d.2),
        neighbour_slot(na, d) matches Some(c) && c.block_data@ == b.block_data@,
        neighbour_slot(nb, (-d.0, -d.1, -d.2)) matches Some(c) && c.block_data@ == a.block_data@,
    ensures
        ({
            let m = mirror_cell(x, y, z, d);
            let e = (-d.0, -d.1, -d.2);
            let va = vox_at(a.block_data@, x, y, z);
            let vb = vox_at(b.block_data@, m.0, m.1, m.2);
            &&& (va.solid && vb.solid ==> !emits_face_toward(a.block_data@, na, x, y, z, d)
                && !emits_face_toward(b.block_data@, nb, m.0, m.1, m.2, e))
            &&& (va.solid && !vb.solid ==> emits_face_toward(a.block_data@, na, x, y, z, d)
                && !emits_face_toward(b.block_data@, nb, m.0, m.1, m.2, e))
            &&& (!va.solid && vb.solid ==> emits_face_toward(b.block_data@, nb, m.0, m.1, m.2, e)
                && !emits_face_toward(a.block_data@, na, x, y, z, d))
        }),
{
    let edge = CHUNK_SIZE as int;
    let m = mirror_cell(x, y, z, d);
    let e = (-d.0, -d.1, -d.2);
    let va = vox_at(a.block_data@, x, y, z);
    let vb = vox_at(b.block_data@, m.0, m.1, m.2);
    assert(in_chunk(m.0, m.1, m.2));
    assert(!in_chunk(m.0 + e.0, m.1 + e.1, m.2 + e.2));
    assert(va.wf());
    assert(vb.wf());

    // A face of the rim voxel of `a` pointing along d looks at the mirrored
    // voxel of `b`, whichever axis d runs along.
    assert forall|p: int|
        0 <= p < 6 && #[trigger] rotated_dir(va, p) == d implies face_visible(
        a.block_data@,
        na,
        x,
        y,
        z,
        p,
    ) == !vb.solid by {
        if d == (1int, 0int, 0int) {
            assert(x == edge - 1);
        } else if d == (-1int, 0int, 0int) {
            assert(x == 0);
        } else if d == (0int, 1int, 0int) {
            assert(y == edge - 1);
        } else if d == (0int, -1int, 0int) {
            assert(y == 0);
        } else if d == (0int, 0int, 1int) {
            assert(z == edge - 1);
        } else {
            assert(z == 0);
        }
    }
    // And a face of the mirrored voxel pointing back looks at the rim voxel
    // of `a`.
    assert forall|p: int|
        0 <= p < 6 && #[trigger] rotated_dir(vb, p) == e implies face_visible(
        b.block_data@,
        nb,
        m.0,
        m.1,
        m.2,
        p,
    ) == !va.solid by {
        if e == (1int, 0int, 0int) {
            assert(m.0 == edge - 1);
        } else if e == (-1int, 0int, 0int) {
            assert(m.0 == 0);
        } else if e == (0int, 1int, 0int) {
            assert(m.1 == edge - 1);
        } else if e == (0int, -1int, 0int) {
            assert(m.1 == 0);
        } else if e == (0int, 0int, 1int) {
            assert(m.2 == edge - 1);
        } else {
            assert(m.2 == 0);
        }
    }

    if va.solid && !vb.solid {
        lemma_dir_witness(va, d);
        let p0 = choose|p: int| 0 <= p < 6 && #[trigger] rotated_dir(va, p) == d;
        assert(face_emitted(a.block_data@, na, x, y, z, p0));
    }
    if !va.solid && vb.solid {
        lemma_dir_witness(vb, e);
        let p0 = choose|p: int| 0 <= p < 6 && #[trigger] rotated_dir(vb, p) == e;
        assert(face_emitted(b.block_data@, nb, m.0, m.1, m.2, p0));
    }
}

/// An air voxel contributes no geometry at all.
pub proof fn lemma_air_voxel_mesh(ch: Chunk, nbs: NeighbourVolumes, x: int, y: int, z: int)
    requires
        vox_at(ch.block_data@, x, y, z).voxel_type == VoxelType::Air,
    ensures
        voxel_mesh(ch, nbs, x, y, z) == Seq::<MeshVertex>::empty(),
{
    reveal_with_fuel(voxel_mesh_upto, 8);
    assert(voxel_mesh(ch, nbs, x, y, z) =~= Seq::<MeshVertex>::empty());
}

} // verus!

use vstd::prelude::*;

use crate::voxel::{Voxel, VoxelRotation, VoxelType, VoxelVariant};

verus! {

/// Whether world height `y` sits in the surface band of a column of height
/// `ht` tenths of a block: within strictly less than two tenths of the
/// surface.
pub open spec fn in_surface_band(y: int, ht: int) -> bool {
    -1 <= 10 * y - ht <= 1
}

/// The largest of the four cardinal neighbour heights.
pub open spec fn max_neighbour(x1: int, x2: int, z1: int, z2: int) -> int {
    let a = if x1 >= x2 {
        x1
    } else {
        x2
    };
    let b = if a >= z1 {
        a
    } else {
        z1
    };
    if b >= z2 {
        b
    } else {
        z2
    }
}

/// The surface rule: a grass voxel whose shape follows the direction of
/// steepest ascent among the four cardinal neighbour heights (whole blocks),
/// downgraded from a stair to a slab when two or more directions tie for the
/// maximum, or when the maximum is itself within the surface band.
pub open spec fn surface_voxel_spec(ht: int, x1: int, x2: int, z1: int, z2: int) -> Voxel {
    let m = max_neighbour(x1, x2, z1, z2);
    let x1max = m == x1;
    let x2max = m == x2;
    let z1max = m == z1;
    let z2max = m == z2;
    let grass_stair = |rot: VoxelRotation|
        Voxel {
            voxel_type: VoxelType::Grass,
            solid: false,
            voxel_variant: VoxelVariant::Stair,
            voxel_rotation: rot,
        };
    let stepped = if z1max {
        grass_stair(VoxelRotation::Forward)
    } else if z2max {
        grass_stair(VoxelRotation::Backward)
    } else if x1max {
        grass_stair(VoxelRotation::Left)
    } else if x2max {
        grass_stair(VoxelRotation::Right)
    } else {
        Voxel::air_spec()
    };
    let tied = (x1max && x2max) || (x1max && z1max) || (x1max && z2max) || (x2max && z1max) || (
    x2max && z2max) || (z1max && z2max);
    let levelled = if tied {
        Voxel {
            voxel_type: VoxelType::Grass,
            solid: false,
            voxel_variant: VoxelVariant::Slab,
            voxel_rotation: stepped.voxel_rotation,
        }
    } else {
        stepped
    };
    if -1 <= 10 * m - ht <= 1 {
        Voxel {
            voxel_type: VoxelType::Grass,
            solid: false,
            voxel_variant: VoxelVariant::Slab,
            voxel_rotation: levelled.voxel_rotation,
        }
    } else {
        levelled
    }
}

/// The subsurface rule: solid dirt, stone once the depth below the surface
/// exceeds the drawn threshold, and grass for the single layer immediately
/// under the surface.
pub open spec fn subsurface_voxel_spec(y: int, ht: int, thresh: int) -> Voxel {
    let deep = if 10 * y < ht - 10 * thresh {
        VoxelType::Stone
    } else {
        VoxelType::Dirt
    };
    let mat = if 10 * y < ht && 10 * y > ht - 10 {
        VoxelType::Grass
    } else {
        deep
    };
    Voxel {
        voxel_type: mat,
        solid: true,
        voxel_variant: VoxelVariant::Block,
        voxel_rotation: VoxelRotation::Forward,
    }
}

/// Classification of one voxel, rules applied in order: surface band, else
/// subsurface, else air; then the sea-level override, which forces a full
/// block and floods non-solid cells with water while turning solid ones to
/// sand; then the sparse decoration pass, which may turn a remaining air cell
/// into see-through glass.
///
/// `y` is the voxel's world height; `ht` the column height in tenths of a
/// block; `x1`, `x2`, `z1`, `z2` the four cardinal neighbour column heights in
/// whole blocks; `thresh` the per-voxel depth threshold drawn from [2, 4];
/// `decorate` the per-voxel decoration draw.
pub open spec fn classify_spec(
    y: int,
    ht: int,
    x1: int,
    x2: int,
    z1: int,
    z2: int,
    sea_level: int,
    thresh: int,
    decorate: bool,
) -> Voxel {
    let base = if in_surface_band(y, ht) {
        surface_voxel_spec(ht, x1, x2, z1, z2)
    } else if 10 * y < ht {
        subsurface_voxel_spec(y, ht, thresh)
    } else {
        Voxel::air_spec()
    };
    let flooded = if y <= sea_level {
        if !base.solid {
            Voxel {
                voxel_type: VoxelType::Water,
                solid: true,
                voxel_variant: VoxelVariant::Block,
                voxel_rotation: base.voxel_rotation,
            }
        } else {
            Voxel {
                voxel_type: VoxelType::Sand,
                solid: true,
                voxel_variant: VoxelVariant::Block,
                voxel_rotation: base.voxel_rotation,
            }
        }
    } else {
        base
    };
    if flooded.voxel_type == VoxelType::Air && decorate {
        Voxel {
            voxel_type: VoxelType::Glass,
            solid: false,
            voxel_variant: VoxelVariant::Block,
            voxel_rotation: flooded.voxel_rotation,
        }
    } else {
        flooded
    }
}

/// Classifies one voxel. Pure: the result is exactly `classify_spec` of the
/// arguments, so identical inputs always give the identical voxel.
pub fn classify_voxel(
    y: i32,
    ht: i32,
    x1: i32,
    x2: i32,
    z1: i32,
    z2: i32,
    sea_level: i32,
    thresh: i32,
    decorate: bool,
) -> (v: Voxel)
    ensures
        v == classify_spec(
            y as int,
            ht as int,
            x1 as int,
            x2 as int,
            z1 as int,
            z2 as int,
            sea_level as int,
            thresh as int,
            decorate,
        ),
{
    let y10: i64 = 10 * (y as i64);
    let ht_w: i64 = ht as i64;
    let mut v = Voxel::air();
    if -1 <= y10 - ht_w && y10 - ht_w <= 1 {
        let a = if x1 >= x2 {
            x1
        } else {
            x2
        };
        let b = if a >= z1 {
            a
        } else {
            z1
        };
        let m = if b >= z2 {
            b
        } else {
            z2
        };
        let x1max = m == x1;
        let x2max = m == x2;
        let z1max = m == z1;
        let z2max = m == z2;
        if z1max {
            v.voxel_variant = VoxelVariant::Stair;
            v.voxel_rotation = VoxelRotation::Forward;
            v.voxel_type = VoxelType::Grass;
            v.solid = false;
        } else if z2max {
            v.voxel_variant = VoxelVariant::Stair;
            v.voxel_rotation = VoxelRotation::Backward;
            v.voxel_type = VoxelType::Grass;
            v.solid = false;
        } else if x1max {
            v.voxel_variant = VoxelVariant::Stair;
            v.voxel_rotation = VoxelRotation::Left;
            v.voxel_type = VoxelType::Grass;
            v.solid = false;
        } else if x2max {
            v.voxel_variant = VoxelVariant::Stair;
            v.voxel_rotation = VoxelRotation::Right;
            v.voxel_type = VoxelType::Grass;
            v.solid = false;
        }
        if (x1max && x2max) || (x1max && z1max) || (x1max && z2max) || (x2max && z1max) || (x2max
            && z2max) || (z1max && z2max) {
            v.voxel_variant = VoxelVariant::Slab;
            v.voxel_type = VoxelType::Grass;
            v.solid = false;
        }
        let m10: i64 = 10 * (m as i64);
        if -1 <= m10 - ht_w && m10 - ht_w <= 1 {
            v.voxel_variant = VoxelVariant::Slab;
            v.voxel_type = VoxelType::Grass;
            v.solid = false;
        }
    } else if y10 < ht_w {
        v.voxel_type = VoxelType::Dirt;
        v.solid = true;
        if y10 < ht_w - 10 * (thresh as i64) {
            v.voxel_type = VoxelType::Stone;
        }
        if y10 < ht_w && y10 > ht_w - 10 {
            v.voxel_type = VoxelType::Grass;
        }
    }
    if y <= sea_level {
        v.voxel_variant = VoxelVariant::Block;
        if !v.solid {
            v.solid = true;
            v.voxel_type = VoxelType::Water;
        } else {
            v.voxel_type = VoxelType::Sand;
        }
    }
    if v.voxel_type == VoxelType::Air && decorate {
        v.voxel_type = VoxelType::Glass;
        v.solid = false;
        v.voxel_variant = VoxelVariant::Block;
    }
    v
}

/// A classified voxel is well formed: it is never a solid made of air.
pub proof fn lemma_classify_wf(
    y: int,
    ht: int,
    x1: int,
    x2: int,
    z1: int,
    z2: int,
    sea_level: int,
    thresh: int,
    decorate: bool,
)
    ensures
        classify_spec(y, ht, x1, x2, z1, z2, sea_level, thresh, decorate).wf(),
{
}

/// Sea-level override: in a column whose height lies strictly below the sea
/// level, the voxel at the sea level itself always ends up as solid water in a
/// full block, whatever the surface and subsurface rules alone would have
/// produced.
pub proof fn lemma_sea_level_override(
    y: int,
    ht: int,
    x1: int,
    x2: int,
    z1: int,
    z2: int,
    sea_level: int,
    thresh: int,
    decorate: bool,
)
    requires
        ht < 10 * sea_level,
        y == sea_level,
    ensures
        classify_spec(y, ht, x1, x2, z1, z2, sea_level, thresh, decorate).voxel_type
            == VoxelType::Water,
        classify_spec(y, ht, x1, x2, z1, z2, sea_level, thresh, decorate).solid,
        classify_spec(y, ht, x1, x2, z1, z2, sea_level, thresh, decorate).voxel_variant
            == VoxelVariant::Block,
{
}

/// Tie-break rule: when a voxel sits in the surface band above the sea and all
/// four cardinal neighbour heights are equal, the classifier selects a slab,
/// never a stair.
pub proof fn lemma_tie_break(
    y: int,
    ht: int,
    h: int,
    sea_level: int,
    thresh: int,
    decorate: bool,
)
    requires
        in_surface_band(y, ht),
        y > sea_level,
    ensures
        classify_spec(y, ht, h, h, h, h, sea_level, thresh, decorate).voxel_variant
            == VoxelVariant::Slab,
        classify_spec(y, ht, h, h, h, h, sea_level, thresh, decorate).voxel_type
            == VoxelType::Grass,
        !classify_spec(y, ht, h, h, h, h, sea_level, thresh, decorate).solid,
{
}

/// Two voxels agree as terrain when they share shape, rotation and solidity
/// and their materials differ at most by the per-voxel random draws: the
/// dirt-or-stone depth threshold and the air-to-glass decoration.
pub open spec fn same_terrain(a: Voxel, b: Voxel) -> bool {
    &&& a.solid == b.solid
    &&& a.voxel_variant == b.voxel_variant
    &&& a.voxel_rotation == b.voxel_rotation
    &&& (a.voxel_type == b.voxel_type || (a.voxel_type == VoxelType::Dirt && b.voxel_type
        == VoxelType::Stone) || (a.voxel_type == VoxelType::Stone && b.voxel_type
        == VoxelType::Dirt) || (a.voxel_type == VoxelType::Air && b.voxel_type == VoxelType::Glass)
        || (a.voxel_type == VoxelType::Glass && b.voxel_type == VoxelType::Air))
}

/// Determinism of the classifier up to its random draws: with the heights and
/// the sea level fixed, any two draws of the depth threshold and the
/// decoration give voxels that agree as terrain.
pub proof fn lemma_classify_deterministic(
    y: int,
    ht: int,
    x1: int,
    x2: int,
    z1: int,
    z2: int,
    sea_level: int,
    t1: int,
    d1: bool,
    t2: int,
    d2: bool,
)
    ensures
        same_terrain(
            classify_spec(y, ht, x1, x2, z1, z2, sea_level, t1, d1),
            classify_spec(y, ht, x1, x2, z1, z2, sea_level, t2, d2),
        ),
{
}

} // verus!

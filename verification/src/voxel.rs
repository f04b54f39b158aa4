use vstd::prelude::*;

verus! {

/// Material of a voxel. `Air` is the empty default.
#[derive(Debug, Clone, Copy, Default, PartialEq, Eq, Structural, Hash)]
pub enum VoxelType {
    #[default]
    Air,
    Stone,
    Dirt,
    Sand,
    Brick,
    Grass,
    Lava,
    Water,
    Salt,
    Ash,
    RedSand,
    Coral,
    Sulfur,
    JungleGrass,
    SavannahGrass,
    SwampGrass,
    Ice,
    SnowBlock,
    Snow,
    Pine,
    Forest,
    Glass,
    Sexy,
    Rainbow,
    StoneBrick,
    Arrow,
    Netherack,
    Arsenic,
    Actinium,
    Antimony,
    Aluminum,
    Copper,
    Cat,
}

/// Shape variant of a voxel: which geometry template it contributes.
#[derive(Debug, Clone, Copy, Default, PartialEq, Eq, Structural, Hash)]
pub enum VoxelVariant {
    #[default]
    Block,
    Slab,
    Stair,
}

/// One of the four cardinal horizontal rotations of a shaped voxel.
#[derive(Debug, Clone, Copy, Default, PartialEq, Eq, Structural, Hash)]
pub enum VoxelRotation {
    #[default]
    Forward,
    Backward,
    Left,
    Right,
}

/// How a rotation acts on template geometry: whether the horizontal axes are
/// swapped, and the sign applied to each horizontal component.
#[derive(Debug, Clone, Copy, PartialEq, Eq, Structural)]
pub struct Rotation {
    pub switch: bool,
    pub value_x: i64,
    pub value_z: i64,
}

/// One cell of a volume.
#[derive(Debug, Clone, Copy, Default, PartialEq, Eq, Structural, Hash)]
pub struct Voxel {
    pub voxel_type: VoxelType,
    pub solid: bool,
    pub voxel_variant: VoxelVariant,
    pub voxel_rotation: VoxelRotation,
}

impl Voxel {
    /// The empty cell: air, not solid, a full block facing forward.
    pub open spec fn air_spec() -> Voxel {
        Voxel {
            voxel_type: VoxelType::Air,
            solid: false,
            voxel_variant: VoxelVariant::Block,
            voxel_rotation: VoxelRotation::Forward,
        }
    }

    /// Builds the empty cell.
    pub fn air() -> (r: Voxel)
        ensures
            r == Voxel::air_spec(),
    {
        Voxel {
            voxel_type: VoxelType::Air,
            solid: false,
            voxel_variant: VoxelVariant::Block,
            voxel_rotation: VoxelRotation::Forward,
        }
    }

    /// A voxel is well formed when a solid cell is never made of air.
    pub open spec fn wf(self) -> bool {
        self.solid ==> self.voxel_type != VoxelType::Air
    }
}

/// Whether a rotation swaps the horizontal template axes.
pub open spec fn rot_switch(r: VoxelRotation) -> bool {
    match r {
        VoxelRotation::Forward => false,
        VoxelRotation::Backward => false,
        VoxelRotation::Left => true,
        VoxelRotation::Right => true,
    }
}

/// Sign a rotation applies to the first horizontal component.
pub open spec fn rot_value_x(r: VoxelRotation) -> int {
    match r {
        VoxelRotation::Forward => 1,
        VoxelRotation::Backward => -1,
        VoxelRotation::Left => 1,
        VoxelRotation::Right => -1,
    }
}

/// Sign a rotation applies to the second horizontal component.
pub open spec fn rot_value_z(r: VoxelRotation) -> int {
    match r {
        VoxelRotation::Forward => 1,
        VoxelRotation::Backward => -1,
        VoxelRotation::Left => -1,
        VoxelRotation::Right => 1,
    }
}

/// Looks a rotation's action up, one entry per cardinal rotation.
pub fn rotation_of(r: VoxelRotation) -> (rot: Rotation)
    ensures
        rot.switch == rot_switch(r),
        rot.value_x as int == rot_value_x(r),
        rot.value_z as int == rot_value_z(r),
        rot.value_x == 1 || rot.value_x == -1,
        rot.value_z == 1 || rot.value_z == -1,
{
    match r {
        VoxelRotation::Forward => Rotation { switch: false, value_x: 1, value_z: 1 },
        VoxelRotation::Backward => Rotation { switch: false, value_x: -1, value_z: -1 },
        VoxelRotation::Left => Rotation { switch: true, value_x: 1, value_z: -1 },
        VoxelRotation::Right => Rotation { switch: true, value_x: -1, value_z: 1 },
    }
}

/// Position of a material in the texture-map table: its declaration order.
pub open spec fn material_index_spec(t: VoxelType) -> int {
    match t {
        VoxelType::Air => 0,
        VoxelType::Stone => 1,
        VoxelType::Dirt => 2,
        VoxelType::Sand => 3,
        VoxelType::Brick => 4,
        VoxelType::Grass => 5,
        VoxelType::Lava => 6,
        VoxelType::Water => 7,
        VoxelType::Salt => 8,
        VoxelType::Ash => 9,
        VoxelType::RedSand => 10,
        VoxelType::Coral => 11,
        VoxelType::Sulfur => 12,
        VoxelType::JungleGrass => 13,
        VoxelType::SavannahGrass => 14,
        VoxelType::SwampGrass => 15,
        VoxelType::Ice => 16,
        VoxelType::SnowBlock => 17,
        VoxelType::Snow => 18,
        VoxelType::Pine => 19,
        VoxelType::Forest => 20,
        VoxelType::Glass => 21,
        VoxelType::Sexy => 22,
        VoxelType::Rainbow => 23,
        VoxelType::StoneBrick => 24,
        VoxelType::Arrow => 25,
        VoxelType::Netherack => 26,
        VoxelType::Arsenic => 27,
        VoxelType::Actinium => 28,
        VoxelType::Antimony => 29,
        VoxelType::Aluminum => 30,
        VoxelType::Copper => 31,
        VoxelType::Cat => 32,
    }
}

/// Computes a material's position in the texture-map table.
pub fn material_index(t: VoxelType) -> (r: usize)
    ensures
        r as int == material_index_spec(t),
{
    match t {
        VoxelType::Air => 0,
        VoxelType::Stone => 1,
        VoxelType::Dirt => 2,
        VoxelType::Sand => 3,
        VoxelType::Brick => 4,
        VoxelType::Grass => 5,
        VoxelType::Lava => 6,
        VoxelType::Water => 7,
        VoxelType::Salt => 8,
        VoxelType::Ash => 9,
        VoxelType::RedSand => 10,
        VoxelType::Coral => 11,
        VoxelType::Sulfur => 12,
        VoxelType::JungleGrass => 13,
        VoxelType::SavannahGrass => 14,
        VoxelType::SwampGrass => 15,
        VoxelType::Ice => 16,
        VoxelType::SnowBlock => 17,
        VoxelType::Snow => 18,
        VoxelType::Pine => 19,
        VoxelType::Forest => 20,
        VoxelType::Glass => 21,
        VoxelType::Sexy => 22,
        VoxelType::Rainbow => 23,
        VoxelType::StoneBrick => 24,
        VoxelType::Arrow => 25,
        VoxelType::Netherack => 26,
        VoxelType::Arsenic => 27,
        VoxelType::Actinium => 28,
        VoxelType::Antimony => 29,
        VoxelType::Aluminum => 30,
        VoxelType::Copper => 31,
        VoxelType::Cat => 32,
    }
}

/// A rectangle of whole texture-atlas pixels.
#[derive(Debug, Clone, Copy, PartialEq, Eq, Structural)]
pub struct PixelRect {
    pub min_x: u32,
    pub min_y: u32,
    pub max_x: u32,
    pub max_y: u32,
}

/// Selects a material's pixel rectangle out of the atlas tables: the
/// texture-map entry at the material's index names the rectangle.
pub fn block_to_tex(block_type: VoxelType, tex_map: &Vec<usize>, tex_rects: &Vec<PixelRect>) -> (
    r: PixelRect)
    requires
        tex_map@.len() > material_index_spec(block_type),
        forall|i: int| 0 <= i < tex_map@.len() ==> #[trigger] tex_map@[i] < tex_rects@.len(),
    ensures
        r == tex_rects@[tex_map@[material_index_spec(block_type)] as int],
{
    let idx = material_index(block_type);
    tex_rects[tex_map[idx]]
}

} // verus!

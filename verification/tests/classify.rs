use voxel_terrain::classify::classify_voxel;
use voxel_terrain::voxel::{VoxelRotation, VoxelType, VoxelVariant};

const SEA: i32 = 60;

#[test]
fn sea_level_override_floods_open_water() {
    // Column height 40 (400 tenths), sea level 60: the voxel at y = 60 must
    // come out as solid water in a full block.
    let v = classify_voxel(60, 400, 40, 40, 40, 40, SEA, 3, false);
    assert_eq!(v.voxel_type, VoxelType::Water);
    assert!(v.solid);
    assert_eq!(v.voxel_variant, VoxelVariant::Block);
}

#[test]
fn sea_level_override_turns_ground_to_sand() {
    // Column height 55: the voxel at y = 50 is below the surface and below
    // the sea level, so the override turns the solid ground to sand.
    let v = classify_voxel(50, 550, 55, 55, 55, 55, SEA, 3, false);
    assert_eq!(v.voxel_type, VoxelType::Sand);
    assert!(v.solid);
    assert_eq!(v.voxel_variant, VoxelVariant::Block);
}

#[test]
fn tie_break_selects_slab_never_stair() {
    // All four cardinal neighbour heights equal: the surface voxel must be a
    // slab, not a stair, whatever direction would otherwise have won.
    let v = classify_voxel(100, 1001, 100, 100, 100, 100, SEA, 3, false);
    assert_eq!(v.voxel_variant, VoxelVariant::Slab);
    assert_eq!(v.voxel_type, VoxelType::Grass);
    assert!(!v.solid);
    assert_ne!(v.voxel_variant, VoxelVariant::Stair);
}

#[test]
fn steepest_ascent_picks_stair_direction() {
    // Only the +z neighbour is higher: a forward stair.
    let v = classify_voxel(100, 1000, 99, 99, 110, 99, SEA, 3, false);
    assert_eq!(v.voxel_variant, VoxelVariant::Stair);
    assert_eq!(v.voxel_rotation, VoxelRotation::Forward);
    assert_eq!(v.voxel_type, VoxelType::Grass);
    assert!(!v.solid);

    // Only the -z neighbour is higher: a backward stair.
    let v = classify_voxel(100, 1000, 99, 99, 99, 110, SEA, 3, false);
    assert_eq!(v.voxel_rotation, VoxelRotation::Backward);

    // Only the +x neighbour is higher: a left stair.
    let v = classify_voxel(100, 1000, 110, 99, 99, 98, SEA, 3, false);
    assert_eq!(v.voxel_rotation, VoxelRotation::Left);

    // Only the -x neighbour is higher: a right stair.
    let v = classify_voxel(100, 1000, 99, 110, 99, 98, SEA, 3, false);
    assert_eq!(v.voxel_rotation, VoxelRotation::Right);
}

#[test]
fn level_maximum_downgrades_to_slab() {
    // The steepest neighbour is itself within the surface band: a slab.
    let v = classify_voxel(100, 1000, 99, 99, 100, 98, SEA, 3, false);
    assert_eq!(v.voxel_variant, VoxelVariant::Slab);
    assert_eq!(v.voxel_type, VoxelType::Grass);
}

#[test]
fn subsurface_layers() {
    // Height 100.4. The layer immediately under the surface is grass.
    let v = classify_voxel(100, 1004, 100, 100, 100, 100, SEA, 3, false);
    assert_eq!(v.voxel_type, VoxelType::Grass);
    assert!(v.solid);
    assert_eq!(v.voxel_variant, VoxelVariant::Block);

    // One block further down, still above the drawn threshold: dirt.
    let v = classify_voxel(99, 1004, 100, 100, 100, 100, SEA, 3, false);
    assert_eq!(v.voxel_type, VoxelType::Dirt);
    assert!(v.solid);

    // Deep below the threshold: stone.
    let v = classify_voxel(70, 1004, 100, 100, 100, 100, SEA, 2, false);
    assert_eq!(v.voxel_type, VoxelType::Stone);
    assert!(v.solid);

    // The threshold decides dirt against stone at the same depth.
    let shallow = classify_voxel(97, 1004, 100, 100, 100, 100, SEA, 4, false);
    let deep = classify_voxel(97, 1004, 100, 100, 100, 100, SEA, 2, false);
    assert_eq!(shallow.voxel_type, VoxelType::Dirt);
    assert_eq!(deep.voxel_type, VoxelType::Stone);
}

#[test]
fn air_and_decoration() {
    // Above the surface and the sea: air, unless decorated into glass.
    let plain = classify_voxel(120, 1004, 100, 100, 100, 100, SEA, 3, false);
    assert_eq!(plain.voxel_type, VoxelType::Air);
    assert!(!plain.solid);

    let decorated = classify_voxel(120, 1004, 100, 100, 100, 100, SEA, 3, true);
    assert_eq!(decorated.voxel_type, VoxelType::Glass);
    assert!(!decorated.solid);
    assert_eq!(decorated.voxel_variant, VoxelVariant::Block);
}

#[test]
fn classifier_is_deterministic() {
    // Same inputs, same voxel, bit for bit.
    let a = classify_voxel(100, 1004, 101, 99, 100, 98, SEA, 3, false);
    let b = classify_voxel(100, 1004, 101, 99, 100, 98, SEA, 3, false);
    assert_eq!(a, b);
}

use voxel_terrain::chunk::generate_chunk;
use voxel_terrain::height::HeightField;
use voxel_terrain::settings::{CHUNK_SIZE, VOLUME_LEN};
use voxel_terrain::voxel::{VoxelType, VoxelVariant};

const N: usize = CHUNK_SIZE as usize;

/// A height field with the same column height everywhere.
fn flat_field(tenths: i32, wholes: i32) -> HeightField {
    HeightField { tenths: vec![tenths; N * N], wholes: vec![wholes; (N + 2) * (N + 2)] }
}

fn flat(x: usize, y: usize, z: usize) -> usize {
    x * N * N + y * N + z
}

#[test]
fn volume_has_full_size() {
    let hf = flat_field(1004, 100);
    let data = generate_chunk([0, 3, 0], &hf);
    assert_eq!(data.len(), VOLUME_LEN);
}

#[test]
fn flat_terrain_layers_come_out_right() {
    // Chunk at chunk-coordinate y = 3 spans world heights 96..128; the
    // column height is 100.4 everywhere.
    let hf = flat_field(1004, 100);
    let data = generate_chunk([0, 3, 0], &hf);
    for z in 0..N {
        // World y = 100 (local 4): the grass layer just under the surface.
        let top = data[flat(7, 4, z)];
        assert_eq!(top.voxel_type, VoxelType::Grass);
        assert!(top.solid);
        assert_eq!(top.voxel_variant, VoxelVariant::Block);

        // World y = 99: shallower than every admissible depth threshold, so
        // always dirt, whatever was drawn.
        let below = data[flat(7, 3, z)];
        assert!(below.solid);
        assert_eq!(below.voxel_type, VoxelType::Dirt);

        // World y = 97: dirt or stone, depending on the per-voxel draw.
        let mid = data[flat(7, 1, z)];
        assert!(mid.solid);
        assert!(
            mid.voxel_type == VoxelType::Dirt || mid.voxel_type == VoxelType::Stone,
            "unexpected material {:?}",
            mid.voxel_type
        );

        // World y = 96: deeper than every admissible threshold, so always
        // stone.
        let deep = data[flat(7, 0, z)];
        assert!(deep.solid);
        assert_eq!(deep.voxel_type, VoxelType::Stone);

        // World y = 101: open air, or the sparse glass decoration.
        let above = data[flat(7, 5, z)];
        assert!(!above.solid);
        assert!(above.voxel_type == VoxelType::Air || above.voxel_type == VoxelType::Glass);
    }
}

#[test]
fn decoration_stays_sparse() {
    // Roughly one air voxel in a thousand becomes glass. Far more glass
    // than air would mean the decoration draw ignores its range.
    let hf = flat_field(1004, 100);
    let data = generate_chunk([0, 3, 0], &hf);
    let mut air = 0usize;
    let mut glass = 0usize;
    for v in &data {
        match v.voxel_type {
            VoxelType::Air => air += 1,
            VoxelType::Glass => glass += 1,
            _ => {}
        }
    }
    assert!(air + glass > 20000, "the sky should dominate this chunk");
    assert!(glass * 10 < air, "glass must stay rare: {} glass, {} air", glass, air);
}

#[test]
fn flat_terrain_surface_band_is_all_slabs() {
    // Column height exactly 100: world y = 100 sits in the surface band, and
    // all four neighbours tie, so every surface voxel is a slab.
    let hf = flat_field(1000, 100);
    let data = generate_chunk([0, 3, 0], &hf);
    for x in 0..N {
        for z in 0..N {
            let v = data[flat(x, 4, z)];
            assert_eq!(v.voxel_variant, VoxelVariant::Slab);
            assert_eq!(v.voxel_type, VoxelType::Grass);
            assert!(!v.solid);
        }
    }
}

#[test]
fn generation_is_deterministic_up_to_random_draws() {
    let hf = flat_field(1004, 100);
    let a = generate_chunk([2, 3, -1], &hf);
    let b = generate_chunk([2, 3, -1], &hf);
    assert_eq!(a.len(), b.len());
    for i in 0..a.len() {
        let (va, vb) = (a[i], b[i]);
        assert_eq!(va.solid, vb.solid, "solidity differs at {}", i);
        assert_eq!(va.voxel_variant, vb.voxel_variant, "shape differs at {}", i);
        assert_eq!(va.voxel_rotation, vb.voxel_rotation, "rotation differs at {}", i);
        let same = va.voxel_type == vb.voxel_type;
        let depth_draw = (va.voxel_type == VoxelType::Dirt && vb.voxel_type == VoxelType::Stone)
            || (va.voxel_type == VoxelType::Stone && vb.voxel_type == VoxelType::Dirt);
        let decoration_draw = (va.voxel_type == VoxelType::Air && vb.voxel_type == VoxelType::Glass)
            || (va.voxel_type == VoxelType::Glass && vb.voxel_type == VoxelType::Air);
        assert!(same || depth_draw || decoration_draw, "materials differ at {}", i);
    }
}

#[test]
fn underwater_chunk_is_fully_solid() {
    // Column height 40, chunk at y = 0: everything up to the sea level is
    // water or ground, so the whole volume is solid.
    let hf = flat_field(400, 40);
    let data = generate_chunk([0, 0, 0], &hf);
    for v in &data {
        assert!(v.solid);
        assert_eq!(v.voxel_variant, VoxelVariant::Block);
    }
    // The voxel at world y = 32 - 1 < 40 is below ground; at y = 31 the
    // column is still ground, so sand (sea override on solid ground).
    let deep = data[flat(3, 31, 3)];
    assert_eq!(deep.voxel_type, VoxelType::Sand);
}

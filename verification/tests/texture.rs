use voxel_terrain::voxel::{block_to_tex, material_index, PixelRect, VoxelType};

#[test]
fn material_indices_follow_declaration_order() {
    assert_eq!(material_index(VoxelType::Air), 0);
    assert_eq!(material_index(VoxelType::Stone), 1);
    assert_eq!(material_index(VoxelType::Grass), 5);
    assert_eq!(material_index(VoxelType::Water), 7);
    assert_eq!(material_index(VoxelType::Glass), 21);
    assert_eq!(material_index(VoxelType::Cat), 32);
}

#[test]
fn block_lookup_selects_the_mapped_rectangle() {
    // The texture map sends every material to rectangle 0 except stone and
    // grass, which get their own tiles.
    let mut tex_map = vec![0usize; 33];
    tex_map[material_index(VoxelType::Stone)] = 1;
    tex_map[material_index(VoxelType::Grass)] = 2;
    let rects = vec![
        PixelRect { min_x: 0, min_y: 0, max_x: 16, max_y: 16 },
        PixelRect { min_x: 16, min_y: 0, max_x: 32, max_y: 16 },
        PixelRect { min_x: 0, min_y: 16, max_x: 16, max_y: 32 },
    ];
    let stone = block_to_tex(VoxelType::Stone, &tex_map, &rects);
    assert_eq!(stone, PixelRect { min_x: 16, min_y: 0, max_x: 32, max_y: 16 });
    let grass = block_to_tex(VoxelType::Grass, &tex_map, &rects);
    assert_eq!(grass.min_y, 16);
    let water = block_to_tex(VoxelType::Water, &tex_map, &rects);
    assert_eq!(water, rects[0]);
}

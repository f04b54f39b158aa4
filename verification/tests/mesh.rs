use voxel_terrain::chunk::Chunk;
use voxel_terrain::mesh::{render_update, MeshVertex, NeighbourVolumes, RenderData};
use voxel_terrain::settings::{CHUNK_SIZE, VOLUME_LEN};
use voxel_terrain::voxel::{Voxel, VoxelRotation, VoxelType, VoxelVariant};

const N: usize = CHUNK_SIZE as usize;

fn air_volume() -> Vec<Voxel> {
    vec![Voxel::air(); VOLUME_LEN]
}

fn flat(x: usize, y: usize, z: usize) -> usize {
    x * N * N + y * N + z
}

fn stone() -> Voxel {
    Voxel {
        voxel_type: VoxelType::Stone,
        solid: true,
        voxel_variant: VoxelVariant::Block,
        voxel_rotation: VoxelRotation::Forward,
    }
}

fn chunk_at(pos: (i32, i32, i32), data: Vec<Voxel>) -> Chunk {
    Chunk { block_data: data, pos }
}

/// Triangles of the mesh lying wholly on the vertical plane x = `plane`
/// half-blocks: exactly the faces emitted across that x boundary.
fn plane_triangles(mesh: &RenderData, plane: i64) -> Vec<[MeshVertex; 3]> {
    let mut tris = Vec::new();
    let mut i = 0;
    while i + 3 <= mesh.vertices.len() {
        let a = mesh.vertices[i];
        let b = mesh.vertices[i + 1];
        let c = mesh.vertices[i + 2];
        if a.x == plane && b.x == plane && c.x == plane {
            tris.push([a, b, c]);
        }
        i += 3;
    }
    tris
}

#[test]
fn air_volume_builds_empty_mesh() {
    let chunk = chunk_at((0, 0, 0), air_volume());
    let mesh = render_update(&chunk, &NeighbourVolumes::none());
    assert_eq!(mesh.vertices.len(), 0);
    assert_eq!(mesh.indices.len(), 0);
}

#[test]
fn lone_block_emits_six_faces() {
    let mut data = air_volume();
    data[flat(1, 1, 1)] = stone();
    let chunk = chunk_at((0, 0, 0), data);
    let mesh = render_update(&chunk, &NeighbourVolumes::none());
    // Six faces, two triangles each, three vertices per triangle.
    assert_eq!(mesh.vertices.len(), 36);
    assert_eq!(mesh.indices.len(), 36);
    for (j, ix) in mesh.indices.iter().enumerate() {
        assert_eq!(*ix as usize, j);
    }
    // Every vertex lies on the cell's bounding cube, in half-blocks: the
    // cell (1,1,1) spans [2,4] on each axis.
    for v in &mesh.vertices {
        assert!(v.x == 2 || v.x == 4);
        assert!(v.y == 2 || v.y == 4);
        assert!(v.z == 2 || v.z == 4);
        assert_eq!(v.material, VoxelType::Stone);
        assert!(v.u == 0 || v.u == 2);
        assert!(v.v == 0 || v.v == 2);
    }
}

#[test]
fn world_offset_moves_vertices() {
    let mut data = air_volume();
    data[flat(0, 0, 0)] = stone();
    // The chunk sits at world blocks (32, 64, -32).
    let chunk = chunk_at((32, 64, -32), data);
    let mesh = render_update(&chunk, &NeighbourVolumes::none());
    assert_eq!(mesh.vertices.len(), 36);
    for v in &mesh.vertices {
        assert!(v.x == 64 || v.x == 66);
        assert!(v.y == 128 || v.y == 130);
        assert!(v.z == -64 || v.z == -62);
    }
}

#[test]
fn buried_block_emits_nothing() {
    // A solid block surrounded by solid blocks contributes no faces.
    let mut data = air_volume();
    for x in 1..4 {
        for y in 1..4 {
            for z in 1..4 {
                data[flat(x, y, z)] = stone();
            }
        }
    }
    let chunk = chunk_at((0, 0, 0), data);
    let mesh = render_update(&chunk, &NeighbourVolumes::none());
    // The 3x3x3 cube shows only its outer shell: 6 sides of 9 faces each.
    assert_eq!(mesh.vertices.len(), 6 * 9 * 6);
}

#[test]
fn slab_and_stair_vertex_counts() {
    let mut data = air_volume();
    data[flat(1, 1, 1)] = Voxel {
        voxel_type: VoxelType::Grass,
        solid: false,
        voxel_variant: VoxelVariant::Slab,
        voxel_rotation: VoxelRotation::Forward,
    };
    let chunk = chunk_at((0, 0, 0), data);
    let mesh = render_update(&chunk, &NeighbourVolumes::none());
    assert_eq!(mesh.vertices.len(), 36);
    // A slab reaches only half a block up: no vertex above y = 3 halves.
    for v in &mesh.vertices {
        assert!(v.y == 2 || v.y == 3);
    }

    let mut data = air_volume();
    data[flat(1, 1, 1)] = Voxel {
        voxel_type: VoxelType::Grass,
        solid: false,
        voxel_variant: VoxelVariant::Stair,
        voxel_rotation: VoxelRotation::Forward,
    };
    let chunk = chunk_at((0, 0, 0), data);
    let mesh = render_update(&chunk, &NeighbourVolumes::none());
    // The stair's six faces carry 12+6+12+6+9+9 vertices.
    assert_eq!(mesh.vertices.len(), 54);
}

#[test]
fn stair_rotation_turns_geometry() {
    // The same stair, rotated. The unrotated stair's high edge sits at
    // large z; rotated left, the template's z runs along x.
    let mut data = air_volume();
    data[flat(1, 1, 1)] = Voxel {
        voxel_type: VoxelType::Grass,
        solid: false,
        voxel_variant: VoxelVariant::Stair,
        voxel_rotation: VoxelRotation::Forward,
    };
    let forward = render_update(&chunk_at((0, 0, 0), data), &NeighbourVolumes::none());

    let mut data = air_volume();
    data[flat(1, 1, 1)] = Voxel {
        voxel_type: VoxelType::Grass,
        solid: false,
        voxel_variant: VoxelVariant::Stair,
        voxel_rotation: VoxelRotation::Left,
    };
    let left = render_update(&chunk_at((0, 0, 0), data), &NeighbourVolumes::none());

    assert_eq!(forward.vertices.len(), left.vertices.len());
    // Forward: the top of the step (y = 4 halves) only where z >= 3.
    for v in &forward.vertices {
        if v.y == 4 {
            assert!(v.z >= 3);
        }
    }
    // Left: the template's z axis runs along x, so the top of the step only
    // where x >= 3.
    for v in &left.vertices {
        if v.y == 4 {
            assert!(v.x >= 3);
        }
    }
}

#[test]
fn boundary_defaults_to_visible_without_neighbour() {
    let mut data = air_volume();
    data[flat(N - 1, 1, 1)] = stone();
    let chunk = chunk_at((0, 0, 0), data);
    let mesh = render_update(&chunk, &NeighbourVolumes::none());
    assert_eq!(mesh.vertices.len(), 36);
    // The +x boundary face is present, on the plane x = 64 halves.
    assert_eq!(plane_triangles(&mesh, 2 * N as i64).len(), 2);
}

#[test]
fn boundary_face_culled_by_solid_neighbour() {
    let mut data = air_volume();
    data[flat(N - 1, 1, 1)] = stone();
    let chunk = chunk_at((0, 0, 0), data);

    // The +x neighbour's mirrored voxel (0, 1, 1) is solid.
    let mut ndata = air_volume();
    ndata[flat(0, 1, 1)] = stone();
    let neighbour = chunk_at((N as i32, 0, 0), ndata);
    let nbs = NeighbourVolumes {
        x_pos: Some(neighbour),
        x_neg: None,
        y_neg: None,
        y_pos: None,
        z_neg: None,
        z_pos: None,
    };
    let mesh = render_update(&chunk, &nbs);
    // Five faces remain; the +x face is culled.
    assert_eq!(mesh.vertices.len(), 30);
    assert_eq!(plane_triangles(&mesh, 2 * N as i64).len(), 0);
}

#[test]
fn boundary_face_kept_over_open_neighbour() {
    let mut data = air_volume();
    data[flat(N - 1, 1, 1)] = stone();
    let chunk = chunk_at((0, 0, 0), data);
    let neighbour = chunk_at((N as i32, 0, 0), air_volume());
    let nbs = NeighbourVolumes {
        x_pos: Some(neighbour),
        x_neg: None,
        y_neg: None,
        y_pos: None,
        z_neg: None,
        z_pos: None,
    };
    let mesh = render_update(&chunk, &nbs);
    assert_eq!(mesh.vertices.len(), 36);
}

#[test]
fn adjacent_meshes_agree_across_the_boundary() {
    // Two adjacent chunks built from one pattern: the rim voxel of A at
    // (N-1, y, z) and the rim voxel of B at (0, y, z) are solid by two
    // different rules. Once each sees the other, exactly the solid side of
    // every solid/non-solid pair draws the boundary face, and solid/solid
    // pairs draw none.
    let solid_a = |y: usize, z: usize| (y + z) % 3 != 0;
    let solid_b = |y: usize, z: usize| (y * 2 + z) % 5 != 0;

    let mut da = air_volume();
    let mut db = air_volume();
    for y in 0..N {
        for z in 0..N {
            if solid_a(y, z) {
                da[flat(N - 1, y, z)] = stone();
            }
            if solid_b(y, z) {
                db[flat(0, y, z)] = stone();
            }
        }
    }
    let a = chunk_at((0, 0, 0), da);
    let b = chunk_at((N as i32, 0, 0), db);

    let nbs_a = NeighbourVolumes {
        x_pos: Some(chunk_at(b.pos, b.block_data.clone())),
        x_neg: None,
        y_neg: None,
        y_pos: None,
        z_neg: None,
        z_pos: None,
    };
    let nbs_b = NeighbourVolumes {
        x_neg: Some(chunk_at(a.pos, a.block_data.clone())),
        x_pos: None,
        y_neg: None,
        y_pos: None,
        z_neg: None,
        z_pos: None,
    };
    let mesh_a = render_update(&a, &nbs_a);
    let mesh_b = render_update(&b, &nbs_b);

    let plane = 2 * N as i64;
    let tris_a = plane_triangles(&mesh_a, plane);
    let tris_b = plane_triangles(&mesh_b, plane);

    for y in 0..N {
        for z in 0..N {
            let (ylo, yhi) = (2 * y as i64, 2 * y as i64 + 2);
            let (zlo, zhi) = (2 * z as i64, 2 * z as i64 + 2);
            let in_cell = |t: &[MeshVertex; 3]| {
                t.iter().all(|v| ylo <= v.y && v.y <= yhi && zlo <= v.z && v.z <= zhi)
            };
            let from_a = tris_a.iter().filter(|t| in_cell(t)).count();
            let from_b = tris_b.iter().filter(|t| in_cell(t)).count();
            let sa = solid_a(y, z);
            let sb = solid_b(y, z);
            if sa && sb {
                // No crack, no hidden double geometry.
                assert_eq!(from_a, 0, "cell ({}, {})", y, z);
                assert_eq!(from_b, 0, "cell ({}, {})", y, z);
            } else if sa && !sb {
                assert!(from_a > 0, "cell ({}, {})", y, z);
                assert_eq!(from_b, 0, "cell ({}, {})", y, z);
            } else if !sa && sb {
                assert_eq!(from_a, 0, "cell ({}, {})", y, z);
                assert!(from_b > 0, "cell ({}, {})", y, z);
            }
        }
    }
}

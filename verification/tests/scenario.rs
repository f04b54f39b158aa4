use voxel_terrain::chunk::generate_chunk;
use voxel_terrain::height::HeightField;
use voxel_terrain::lifecycle::{ChunkCoord, ChunkIndex};
use voxel_terrain::mesh::{render_update, RenderData};
use voxel_terrain::settings::{CHUNK_SIZE, VOLUME_LEN};

const N: usize = CHUNK_SIZE as usize;

fn coord(x: i32, y: i32, z: i32) -> ChunkCoord {
    ChunkCoord { x, y, z }
}

fn flat(x: usize, y: usize, z: usize) -> usize {
    x * N * N + y * N + z
}

/// One shared underwater terrain: every column 40 blocks high, so every
/// voxel of a ground-level chunk ends up solid.
fn field() -> HeightField {
    HeightField { tenths: vec![400; N * N], wholes: vec![40; (N + 2) * (N + 2)] }
}

/// Triangles lying wholly on the vertical plane x = `plane` half-blocks.
fn plane_triangle_count(mesh: &RenderData, plane: i64) -> usize {
    let mut count = 0;
    let mut i = 0;
    while i + 3 <= mesh.vertices.len() {
        if mesh.vertices[i].x == plane && mesh.vertices[i + 1].x == plane
            && mesh.vertices[i + 2].x == plane
        {
            count += 1;
        }
        i += 3;
    }
    count
}

#[test]
fn neighbour_completion_closes_the_boundary() {
    let mut index = ChunkIndex::new();
    index.load_chunks(coord(0, 0, 0), 1);
    let a = coord(0, 0, 0);
    let b = coord(1, 0, 0);
    let hf = field();

    // Chunk A generates and meshes first. Its +x neighbour is unknown, so
    // the whole boundary wall defaults to visible.
    assert!(index.volume_done(a, generate_chunk([0, 0, 0], &hf)));
    let job_a = index.dispatch_mesh(a).expect("first build of A");
    let mesh_a = render_update(&job_a.chunk, &job_a.neighbours);
    let plane = 2 * N as i64;
    assert_eq!(plane_triangle_count(&mesh_a, plane), N * N * 2);
    let (published, remesh) = index.mesh_done(a, mesh_a);
    assert!(published);
    assert!(remesh.is_empty());

    // Chunk B generates independently and meshes; completing it owes A a
    // remesh, because A gained a newly available neighbour.
    let data_b = generate_chunk([1, 0, 0], &hf);
    assert_eq!(data_b.len(), VOLUME_LEN);
    assert!(index.volume_done(b, data_b));
    let job_b = index.dispatch_mesh(b).expect("first build of B");
    let mesh_b = render_update(&job_b.chunk, &job_b.neighbours);
    let (published, remesh) = index.mesh_done(b, mesh_b);
    assert!(published);
    assert!(remesh.contains(&a), "A must be owed a remesh once B lands");

    // The remesh of A sees B. Every mirrored voxel of B on the shared
    // boundary is solid, so the rebuilt mesh of A holds no face there.
    let job_a2 = index.dispatch_mesh(a).expect("remesh of A");
    let nb = job_a2.neighbours.x_pos.as_ref().expect("B's volume in the snapshot");
    for y in 0..N {
        for z in 0..N {
            assert!(nb.block_data[flat(0, y, z)].solid);
        }
    }
    let mesh_a2 = render_update(&job_a2.chunk, &job_a2.neighbours);
    assert_eq!(plane_triangle_count(&mesh_a2, plane), 0);
    let (published, _) = index.mesh_done(a, mesh_a2);
    assert!(published);
}

use voxel_terrain::chunk::generate_chunk;
use voxel_terrain::height::HeightField;
use voxel_terrain::lifecycle::{ChunkCoord, ChunkIndex, ChunkState};
use voxel_terrain::mesh::render_update;
use voxel_terrain::settings::{CHUNK_SIZE, VOLUME_LEN};
use voxel_terrain::voxel::Voxel;

const N: usize = CHUNK_SIZE as usize;

fn coord(x: i32, y: i32, z: i32) -> ChunkCoord {
    ChunkCoord { x, y, z }
}

fn flat_field(tenths: i32, wholes: i32) -> HeightField {
    HeightField { tenths: vec![tenths; N * N], wholes: vec![wholes; (N + 2) * (N + 2)] }
}

fn is_pending(index: &ChunkIndex, c: ChunkCoord) -> bool {
    matches!(index.state_ref(c), Some(ChunkState::VolumePending))
}

fn is_volume_ready(index: &ChunkIndex, c: ChunkCoord) -> bool {
    matches!(index.state_ref(c), Some(ChunkState::VolumeReady { .. }))
}

fn is_mesh_pending(index: &ChunkIndex, c: ChunkCoord) -> bool {
    matches!(index.state_ref(c), Some(ChunkState::MeshPending { .. }))
}

fn is_mesh_ready(index: &ChunkIndex, c: ChunkCoord) -> bool {
    matches!(index.state_ref(c), Some(ChunkState::MeshReady { .. }))
}

#[test]
fn load_pass_tracks_the_streaming_cube() {
    let mut index = ChunkIndex::new();
    let added = index.load_chunks(coord(0, 0, 0), 1);
    // The inclusive Chebyshev cube of radius 1 holds 27 coordinates.
    assert_eq!(added.len(), 27);
    assert_eq!(index.len(), 27);
    for dx in -1..=1 {
        for dy in -1..=1 {
            for dz in -1..=1 {
                assert!(is_pending(&index, coord(dx, dy, dz)));
            }
        }
    }
    assert!(!index.contains(coord(2, 0, 0)));

    // A second pass adds nothing new.
    let added = index.load_chunks(coord(0, 0, 0), 1);
    assert_eq!(added.len(), 0);
    assert_eq!(index.len(), 27);

    // A shifted viewpoint adds only the fresh slice.
    let added = index.load_chunks(coord(1, 0, 0), 1);
    assert_eq!(added.len(), 9);
    assert_eq!(index.len(), 36);
}

#[test]
fn unload_pass_enforces_the_radius() {
    let mut index = ChunkIndex::new();
    index.load_chunks(coord(0, 0, 0), 2);
    assert_eq!(index.len(), 125);

    let centers = vec![coord(0, 0, 0)];
    let removed = index.unload_chunks(&centers, 1);
    // Everything at distance 2 went; everything within 1 stayed.
    assert_eq!(index.len(), 27);
    assert_eq!(removed.len(), 125 - 27);
    assert!(index.contains(coord(1, 1, 1)));
    assert!(!index.contains(coord(2, 0, 0)));
    assert!(removed.contains(&coord(2, 0, 0)));
    assert!(!removed.contains(&coord(1, 0, 0)));
}

#[test]
fn unload_keeps_chunks_near_any_viewpoint() {
    let mut index = ChunkIndex::new();
    index.load_chunks(coord(0, 0, 0), 1);
    index.load_chunks(coord(8, 0, 0), 1);
    let centers = vec![coord(0, 0, 0), coord(8, 0, 0)];
    let removed = index.unload_chunks(&centers, 1);
    assert_eq!(removed.len(), 0);
    assert_eq!(index.len(), 54);
    assert!(index.contains(coord(8, 1, 0)));
}

#[test]
fn volume_results_follow_the_lifecycle() {
    let mut index = ChunkIndex::new();
    index.load_chunks(coord(0, 0, 0), 0);
    let c = coord(0, 0, 0);
    assert!(is_pending(&index, c));

    // A completed volume for an unloaded coordinate is dropped.
    let stray = vec![Voxel::air(); VOLUME_LEN];
    assert!(!index.volume_done(coord(5, 5, 5), stray));

    // The tracked coordinate accepts its volume exactly once.
    let data = vec![Voxel::air(); VOLUME_LEN];
    assert!(index.volume_done(c, data));
    assert!(is_volume_ready(&index, c));
    let again = vec![Voxel::air(); VOLUME_LEN];
    assert!(!index.volume_done(c, again));
    assert!(is_volume_ready(&index, c));
}

#[test]
fn mesh_dispatch_and_completion() {
    let mut index = ChunkIndex::new();
    index.load_chunks(coord(0, 0, 0), 0);
    let c = coord(0, 0, 0);
    let hf = flat_field(400, 40);
    assert!(index.volume_done(c, generate_chunk([0, 0, 0], &hf)));

    // Dispatch moves the coordinate to mesh-pending and hands out the work.
    let job = index.dispatch_mesh(c).expect("volume-ready chunk must dispatch");
    assert_eq!(job.coord, c);
    assert!(job.neighbours.x_pos.is_none());
    assert!(is_mesh_pending(&index, c));

    // Only one mesh build can be in flight for a coordinate.
    assert!(index.dispatch_mesh(c).is_none());
    assert!(is_mesh_pending(&index, c));

    // Completion publishes and reaches mesh-ready; no neighbour is
    // mesh-ready yet, so no remesh is owed.
    let mesh = render_update(&job.chunk, &job.neighbours);
    let (published, remesh) = index.mesh_done(c, mesh);
    assert!(published);
    assert!(remesh.is_empty());
    assert!(is_mesh_ready(&index, c));

    // A stray mesh result is dropped.
    let stray_mesh = voxel_terrain::mesh::RenderData { vertices: Vec::new(), indices: Vec::new() };
    let (published, remesh) = index.mesh_done(coord(9, 9, 9), stray_mesh);
    assert!(!published);
    assert!(remesh.is_empty());
}

#[test]
fn neighbour_completion_fans_out_remesh() {
    let mut index = ChunkIndex::new();
    index.load_chunks(coord(0, 0, 0), 1);
    let a = coord(0, 0, 0);
    let b = coord(1, 0, 0);
    let hf = flat_field(400, 40);

    // A generates and meshes first, alone.
    assert!(index.volume_done(a, generate_chunk([0, 0, 0], &hf)));
    let job_a = index.dispatch_mesh(a).unwrap();
    let mesh_a = render_update(&job_a.chunk, &job_a.neighbours);
    let (_, remesh) = index.mesh_done(a, mesh_a);
    assert!(remesh.is_empty());

    // B completes later; its job sees A's volume, and finishing B owes A a
    // remesh.
    assert!(index.volume_done(b, generate_chunk([1, 0, 0], &hf)));
    let job_b = index.dispatch_mesh(b).unwrap();
    // The recorded volume sits at the coordinate's world position.
    assert_eq!(job_b.chunk.pos, (CHUNK_SIZE, 0, 0));
    assert!(job_b.neighbours.x_neg.is_some());
    let mesh_b = render_update(&job_b.chunk, &job_b.neighbours);
    let (published, remesh) = index.mesh_done(b, mesh_b);
    assert!(published);
    assert_eq!(remesh.len(), 1);
    assert!(remesh.contains(&a));

    // The remesh dispatch for A now carries B's volume and keeps A's
    // previous mesh until the rebuild lands.
    let job_a2 = index.dispatch_mesh(a).unwrap();
    assert!(job_a2.neighbours.x_pos.is_some());
    match index.state_ref(a) {
        Some(ChunkState::MeshPending { prev, .. }) => assert!(prev.is_some()),
        _ => panic!("expected a pending rebuild"),
    }
}

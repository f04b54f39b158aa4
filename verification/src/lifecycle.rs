use vstd::prelude::*;

use crate::chunk::{Chunk, ChunkView};
use crate::voxel::Voxel;
use crate::mesh::{NeighbourVolumes, RenderData};
use crate::settings::{CHUNK_SIZE, MAX_CHUNK_COORD, MAX_RADIUS, VOLUME_LEN};

verus! {

/// A chunk coordinate: the volume's position in chunk space. Its world
/// position is the coordinate times `CHUNK_SIZE` blocks.
#[derive(Debug, Clone, Copy, PartialEq, Eq, Structural, Hash)]
pub struct ChunkCoord {
    pub x: i32,
    pub y: i32,
    pub z: i32,
}

/// The streaming stage a tracked coordinate occupies. An untracked
/// coordinate is unloaded. A volume, once recorded, is carried through the
/// later stages unchanged; a remesh keeps the previous mesh until the new one
/// lands.
#[derive(Debug)]
pub enum ChunkState {
    VolumePending,
    VolumeReady { volume: Chunk },
    MeshPending { volume: Chunk, prev: Option<RenderData> },
    MeshReady { volume: Chunk, mesh: RenderData },
}

/// How far along the pipeline a state is.
pub open spec fn rank(s: ChunkState) -> int {
    match s {
        ChunkState::VolumePending => 0,
        ChunkState::VolumeReady { .. } => 1,
        ChunkState::MeshPending { .. } => 2,
        ChunkState::MeshReady { .. } => 3,
    }
}

/// The lifecycle's allowed moves for one coordinate across one operation:
/// stay as it is, advance one stage, fall back from mesh-ready to a pending
/// remesh, appear as volume-pending, or reset to unloaded.
pub open spec fn step_ok(before: Option<ChunkState>, after: Option<ChunkState>) -> bool {
    match (before, after) {
        (Option::None, Option::None) => true,
        (Option::None, Option::Some(a)) => a is VolumePending,
        (Option::Some(_), Option::None) => true,
        (Option::Some(b), Option::Some(a)) => b == a || (b is VolumePending && a is VolumeReady)
            || (b is VolumeReady && a is MeshPending) || (b is MeshPending && a is MeshReady) || (b
            is MeshReady && a is MeshPending),
    }
}

/// A lifecycle move never goes backwards: the stage either keeps or grows its
/// rank, except for the two full resets the design allows — a mesh-ready
/// chunk rebuilding its mesh, and an unload.
pub proof fn lemma_step_monotonic(before: ChunkState, after: ChunkState)
    requires
        step_ok(Some(before), Some(after)),
    ensures
        rank(after) >= rank(before) || (before is MeshReady && after is MeshPending),
{
}

/// Chebyshev distance between two chunk coordinates.
pub open spec fn cheb(a: ChunkCoord, b: ChunkCoord) -> int {
    let dx = if a.x >= b.x {
        a.x - b.x
    } else {
        b.x - a.x
    };
    let dy = if a.y >= b.y {
        a.y - b.y
    } else {
        b.y - a.y
    };
    let dz = if a.z >= b.z {
        a.z - b.z
    } else {
        b.z - a.z
    };
    let m = if dx >= dy {
        dx
    } else {
        dy
    };
    if m >= dz {
        m
    } else {
        dz
    }
}

/// A coordinate lies within Chebyshev distance `radius` of some viewpoint.
pub open spec fn within_radius(c: ChunkCoord, centers: Seq<ChunkCoord>, radius: int) -> bool {
    exists|k: int| 0 <= k < centers.len() && cheb(c, centers[k]) <= radius
}

/// A viewpoint coordinate the streaming system accepts.
pub open spec fn coord_in_world(c: ChunkCoord) -> bool {
    &&& -MAX_CHUNK_COORD <= c.x <= MAX_CHUNK_COORD
    &&& -MAX_CHUNK_COORD <= c.y <= MAX_CHUNK_COORD
    &&& -MAX_CHUNK_COORD <= c.z <= MAX_CHUNK_COORD
}

/// A tracked coordinate: a viewpoint coordinate, widened by the largest
/// streaming radius.
pub open spec fn coord_trackable(c: ChunkCoord) -> bool {
    &&& -(MAX_CHUNK_COORD + MAX_RADIUS) <= c.x <= MAX_CHUNK_COORD + MAX_RADIUS
    &&& -(MAX_CHUNK_COORD + MAX_RADIUS) <= c.y <= MAX_CHUNK_COORD + MAX_RADIUS
    &&& -(MAX_CHUNK_COORD + MAX_RADIUS) <= c.z <= MAX_CHUNK_COORD + MAX_RADIUS
}

/// Any volume a state carries is full-sized.
pub open spec fn state_volume_wf(s: ChunkState) -> bool {
    match s {
        ChunkState::VolumePending => true,
        ChunkState::VolumeReady { volume } => volume.block_data@.len() == VOLUME_LEN,
        ChunkState::MeshPending { volume, .. } => volume.block_data@.len() == VOLUME_LEN,
        ChunkState::MeshReady { volume, .. } => volume.block_data@.len() == VOLUME_LEN,
    }
}

/// A key occurs in an entry sequence.
spec fn seq_has(s: Seq<(ChunkCoord, ChunkState)>, c: ChunkCoord) -> bool {
    exists|i: int| 0 <= i < s.len() && s[i].0 == c
}

/// All keys of an entry sequence are distinct.
spec fn seq_unique(s: Seq<(ChunkCoord, ChunkState)>) -> bool {
    forall|i: int, j: int| 0 <= i < j < s.len() ==> (#[trigger] s[i]).0 != (#[trigger] s[j]).0
}

/// The part of a viewpoint's streaming cube already visited by the load scan:
/// offsets lexicographically before (dx, dy, dz).
spec fn scanned(c: ChunkCoord, center: ChunkCoord, dx: int, dy: int, dz: int) -> bool {
    let ex = c.x - center.x;
    let ey = c.y - center.y;
    let ez = c.z - center.z;
    ex < dx || (ex == dx && (ey < dy || (ey == dy && ez < dz)))
}

/// Appending an entry with a fresh key tracks that key with that state and
/// disturbs nothing else.
proof fn lemma_push_entry(before: ChunkIndex, after: ChunkIndex, c: ChunkCoord, st: ChunkState)
    requires
        before.wf(),
        !before.has_coord(c),
        coord_trackable(c),
        state_volume_wf(st),
        after.entries@ == before.entries@.push((c, st)),
    ensures
        after.wf(),
        after.has_coord(c),
        after.state_of(c) == st,
        forall|c2: ChunkCoord|
            c2 != c ==> #[trigger] after.state_opt(c2) == before.state_opt(c2),
        forall|c2: ChunkCoord|
            (#[trigger] after.has_coord(c2)) == (before.has_coord(c2) || c2 == c),
{
    let n = before.entries@.len() as int;
    assert forall|i: int, j: int|
        0 <= i < j < after.entries@.len() implies (#[trigger] after.entries@[i]).0 != (
    #[trigger] after.entries@[j]).0 by {
        if j < n {
        } else {
            assert(after.entries@[j].0 == c);
            if after.entries@[i].0 == c {
                assert(seq_has(before.entries@, c));
            }
        }
    }
    after.lemma_entry_at(n);
    assert(after.entries@[n].0 == c);
    assert forall|c2: ChunkCoord|
        (#[trigger] after.has_coord(c2)) == (before.has_coord(c2) || c2 == c) by {
        if seq_has(after.entries@, c2) {
            let i = choose|i: int|
                0 <= i < after.entries@.len() && after.entries@[i].0 == c2;
            if i < n {
                assert(seq_has(before.entries@, c2));
            }
        }
        if seq_has(before.entries@, c2) {
            let i = choose|i: int|
                0 <= i < before.entries@.len() && before.entries@[i].0 == c2;
            assert(after.entries@[i].0 == c2);
        }
    }
    assert forall|c2: ChunkCoord|
        c2 != c implies #[trigger] after.state_opt(c2) == before.state_opt(c2) by {
        if seq_has(before.entries@, c2) {
            let i = choose|i: int|
                0 <= i < before.entries@.len() && before.entries@[i].0 == c2;
            before.lemma_entry_at(i);
            after.lemma_entry_at(i);
        }
    }
}

/// Decides whether a coordinate lies within the radius of any viewpoint.
fn within_any(c: ChunkCoord, centers: &Vec<ChunkCoord>, radius: i32) -> (r: bool)
    requires
        0 <= radius,
    ensures
        r == within_radius(c, centers@, radius as int),
{
    let mut k: usize = 0;
    while k < centers.len()
        invariant
            0 <= radius,
            k <= centers@.len(),
            forall|i: int| 0 <= i < k ==> cheb(c, #[trigger] centers@[i]) > radius as int,
        decreases centers@.len() - k,
    {
        let ctr = centers[k];
        let dx: i64 = if c.x >= ctr.x {
            c.x as i64 - ctr.x as i64
        } else {
            ctr.x as i64 - c.x as i64
        };
        let dy: i64 = if c.y >= ctr.y {
            c.y as i64 - ctr.y as i64
        } else {
            ctr.y as i64 - c.y as i64
        };
        let dz: i64 = if c.z >= ctr.z {
            c.z as i64 - ctr.z as i64
        } else {
            ctr.z as i64 - c.z as i64
        };
        let m = if dx >= dy {
            dx
        } else {
            dy
        };
        let m = if m >= dz {
            m
        } else {
            dz
        };
        assert(m as int == cheb(c, centers@[k as int]));
        if m <= radius as i64 {
            return true;
        }
        k += 1;
    }
    assert(!within_radius(c, centers@, radius as int));
    false
}

/// One mesh build unit of work: the coordinate, its volume, and an immutable
/// snapshot of the neighbour volumes known when it was dispatched. Workers
/// receive it whole and never read the live index.
#[derive(Debug)]
pub struct MeshJob {
    pub coord: ChunkCoord,
    pub chunk: Chunk,
    pub neighbours: NeighbourVolumes,
}

/// The volume of a coordinate that has reached mesh-ready, if any: only such
/// neighbours take part in a mesh build's boundary culling.
pub open spec fn mesh_ready_volume(idx: ChunkIndex, c: ChunkCoord) -> Option<Chunk> {
    if idx.has_coord(c) {
        match idx.state_of(c) {
            ChunkState::MeshReady { volume, .. } => Some(volume),
            _ => None,
        }
    } else {
        None
    }
}

/// Copies the volume of a mesh-ready coordinate, if any.
fn ready_clone(index: &ChunkIndex, c: ChunkCoord) -> (r: Option<Chunk>)
    requires
        index.wf(),
    ensures
        opt_chunk_view(r) == opt_chunk_view(mesh_ready_volume(*index, c)),
        r matches Some(ch) ==> ch.block_data@.len() == VOLUME_LEN,
    {
    match index.state_ref(c) {
        Some(st) => match st {
            ChunkState::MeshReady { volume, .. } => {
                proof {
                    let i = index.index_of(c);
                    assert(state_volume_wf(index.entries@[i].1));
                }
                Some(volume.clone())
            },
            _ => None,
        },
        None => None,
    }
}

/// Gathers the neighbour snapshot for a mesh build of the given coordinate:
/// a copy of each axis neighbour's volume wherever that neighbour is
/// mesh-ready, the rest left unknown.
pub fn chunk_to_render(coord: ChunkCoord, index: &ChunkIndex) -> (nbs: NeighbourVolumes)
    requires
        index.wf(),
        coord_trackable(coord),
    ensures
        nbs.wf(),
        opt_chunk_view(nbs.x_pos) == opt_chunk_view(mesh_ready_volume(*index, neighbour_at(coord, 0))),
        opt_chunk_view(nbs.x_neg) == opt_chunk_view(mesh_ready_volume(*index, neighbour_at(coord, 1))),
        opt_chunk_view(nbs.y_pos) == opt_chunk_view(mesh_ready_volume(*index, neighbour_at(coord, 2))),
        opt_chunk_view(nbs.y_neg) == opt_chunk_view(mesh_ready_volume(*index, neighbour_at(coord, 3))),
        opt_chunk_view(nbs.z_pos) == opt_chunk_view(mesh_ready_volume(*index, neighbour_at(coord, 4))),
        opt_chunk_view(nbs.z_neg) == opt_chunk_view(mesh_ready_volume(*index, neighbour_at(coord, 5))),
{
    let x_pos = ready_clone(index, neighbour_of(coord, 0));
    let x_neg = ready_clone(index, neighbour_of(coord, 1));
    let y_pos = ready_clone(index, neighbour_of(coord, 2));
    let y_neg = ready_clone(index, neighbour_of(coord, 3));
    let z_pos = ready_clone(index, neighbour_of(coord, 4));
    let z_neg = ready_clone(index, neighbour_of(coord, 5));
    NeighbourVolumes { x_neg, x_pos, y_neg, y_pos, z_neg, z_pos }
}

/// The chunk coordinate one step along an axis: steps 0 to 5 are +x, -x,
/// +y, -y, +z, -z.
pub open spec fn neighbour_at(c: ChunkCoord, k: int) -> ChunkCoord {
    if k == 0 {
        ChunkCoord { x: (c.x + 1) as i32, y: c.y, z: c.z }
    } else if k == 1 {
        ChunkCoord { x: (c.x - 1) as i32, y: c.y, z: c.z }
    } else if k == 2 {
        ChunkCoord { x: c.x, y: (c.y + 1) as i32, z: c.z }
    } else if k == 3 {
        ChunkCoord { x: c.x, y: (c.y - 1) as i32, z: c.z }
    } else if k == 4 {
        ChunkCoord { x: c.x, y: c.y, z: (c.z + 1) as i32 }
    } else {
        ChunkCoord { x: c.x, y: c.y, z: (c.z - 1) as i32 }
    }
}

/// Two chunk coordinates differ by exactly one axis unit.
pub open spec fn is_axis_neighbour(c: ChunkCoord, n: ChunkCoord) -> bool {
    exists|k: int| 0 <= k < 6 && n == neighbour_at(c, k)
}

/// Computes the chunk coordinate one step along an axis.
fn neighbour_of(c: ChunkCoord, k: usize) -> (r: ChunkCoord)
    requires
        coord_trackable(c),
        k < 6,
    ensures
        r == neighbour_at(c, k as int),
{
    match k {
        0 => ChunkCoord { x: c.x + 1, y: c.y, z: c.z },
        1 => ChunkCoord { x: c.x - 1, y: c.y, z: c.z },
        2 => ChunkCoord { x: c.x, y: c.y + 1, z: c.z },
        3 => ChunkCoord { x: c.x, y: c.y - 1, z: c.z },
        4 => ChunkCoord { x: c.x, y: c.y, z: c.z + 1 },
        _ => ChunkCoord { x: c.x, y: c.y, z: c.z - 1 },
    }
}

/// The view of an optional volume.
pub open spec fn opt_chunk_view(o: Option<Chunk>) -> Option<ChunkView> {
    match o {
        Some(c) => Some(c@),
        None => None,
    }
}

/// The spatial index: which chunk coordinates are tracked, and in which
/// lifecycle stage each stands. Owned by the control loop alone; workers
/// receive immutable snapshots and hand back results.
pub struct ChunkIndex {
    entries: Vec<(ChunkCoord, ChunkState)>,
}

impl ChunkIndex {
    /// The index is well formed: one entry per coordinate, every coordinate
    /// within the trackable world, every carried volume full-sized.
    pub closed spec fn wf(self) -> bool {
        &&& seq_unique(self.entries@)
        &&& forall|i: int|
            0 <= i < self.entries@.len() ==> coord_trackable((#[trigger] self.entries@[i]).0)
        &&& forall|i: int|
            0 <= i < self.entries@.len() ==> state_volume_wf((#[trigger] self.entries@[i]).1)
    }

    /// The coordinate is tracked.
    pub closed spec fn has_coord(self, c: ChunkCoord) -> bool {
        seq_has(self.entries@, c)
    }

    /// Where the coordinate's entry stands.
    closed spec fn index_of(self, c: ChunkCoord) -> int {
        choose|i: int| 0 <= i < self.entries@.len() && self.entries@[i].0 == c
    }

    /// The tracked coordinate's state.
    pub closed spec fn state_of(self, c: ChunkCoord) -> ChunkState {
        self.entries@[self.index_of(c)].1
    }

    /// The coordinate's state, unloaded coordinates giving nothing.
    pub open spec fn state_opt(self, c: ChunkCoord) -> Option<ChunkState> {
        if self.has_coord(c) {
            Some(self.state_of(c))
        } else {
            None
        }
    }

    /// How many coordinates are tracked.
    pub closed spec fn tracked_len(self) -> int {
        self.entries@.len() as int
    }

    /// In a well-formed index, the entry at position j speaks for its key.
    proof fn lemma_entry_at(self, j: int)
        requires
            seq_unique(self.entries@),
            0 <= j < self.entries@.len(),
        ensures
            self.has_coord(self.entries@[j].0),
            self.index_of(self.entries@[j].0) == j,
            self.state_of(self.entries@[j].0) == self.entries@[j].1,
    {
        let c = self.entries@[j].0;
        assert(seq_has(self.entries@, c));
        let i = self.index_of(c);
        assert(0 <= i < self.entries@.len() && self.entries@[i].0 == c);
        if i != j {
            assert((self.entries@[i]).0 != (self.entries@[j]).0 || (self.entries@[j]).0 != (
            self.entries@[i]).0);
        }
    }

    /// An empty index: nothing tracked.
    pub fn new() -> (r: ChunkIndex)
        ensures
            r.wf(),
            forall|c: ChunkCoord| !(#[trigger] r.has_coord(c)),
            r.tracked_len() == 0,
    {
        ChunkIndex { entries: Vec::new() }
    }

    /// How many coordinates are tracked.
    pub fn len(&self) -> (r: usize)
        ensures
            r as int == self.tracked_len(),
    {
        self.entries.len()
    }

    /// Finds the position of a coordinate's entry.
    fn find(&self, c: ChunkCoord) -> (r: Option<usize>)
        requires
            self.wf(),
        ensures
            match r {
                Some(j) => j < self.entries@.len() && self.entries@[j as int].0 == c
                    && self.has_coord(c) && self.index_of(c) == j && self.state_of(c)
                    == self.entries@[j as int].1,
                None => !self.has_coord(c),
            },
    {
        let mut j: usize = 0;
        while j < self.entries.len()
            invariant
                self.wf(),
                j <= self.entries@.len(),
                forall|i: int| 0 <= i < j ==> (#[trigger] self.entries@[i]).0 != c,
            decreases self.entries@.len() - j,
        {
            if self.entries[j].0 == c {
                proof {
                    self.lemma_entry_at(j as int);
                }
                return Some(j);
            }
            j += 1;
        }
        assert(!seq_has(self.entries@, c));
        None
    }

    /// Whether a coordinate is tracked.
    pub fn contains(&self, c: ChunkCoord) -> (r: bool)
        requires
            self.wf(),
        ensures
            r == self.has_coord(c),
    {
        self.find(c).is_some()
    }

    /// Borrows a tracked coordinate's state.
    pub fn state_ref(&self, c: ChunkCoord) -> (r: Option<&ChunkState>)
        requires
            self.wf(),
        ensures
            match r {
                Some(s) => self.has_coord(c) && *s == self.state_of(c),
                None => !self.has_coord(c),
            },
    {
        match self.find(c) {
            Some(j) => Some(&self.entries[j].1),
            None => None,
        }
    }

    /// Records a completed volume: a coordinate still waiting for its volume
    /// advances to volume-ready, holding the data at the coordinate's world
    /// position. A result for any other coordinate — unloaded meanwhile, or
    /// already past this stage — is dropped whole.
    pub fn volume_done(&mut self, c: ChunkCoord, data: Vec<Voxel>) -> (accepted: bool)
        requires
            old(self).wf(),
            data@.len() == VOLUME_LEN,
        ensures
            final(self).wf(),
            accepted == (old(self).has_coord(c) && old(self).state_of(c) is VolumePending),
            forall|c2: ChunkCoord|
                (#[trigger] final(self).has_coord(c2)) == old(self).has_coord(c2),
            forall|c2: ChunkCoord|
                c2 != c ==> #[trigger] final(self).state_opt(c2) == old(self).state_opt(c2),
            accepted ==> (final(self).state_of(c) matches ChunkState::VolumeReady { volume }
                && volume.block_data@ == data@ && volume@.pos == (
                c.x as int * CHUNK_SIZE as int,
                c.y as int * CHUNK_SIZE as int,
                c.z as int * CHUNK_SIZE as int,
            )),
            !accepted ==> *final(self) == *old(self),
            forall|c2: ChunkCoord| #[trigger]
                step_ok(old(self).state_opt(c2), final(self).state_opt(c2)),
    {
        let found = self.find(c);
        match found {
            Some(j) => {
                let pending = match &self.entries[j].1 {
                    ChunkState::VolumePending => true,
                    _ => false,
                };
                if pending {
                    let volume = Chunk {
                        block_data: data,
                        pos: (c.x * CHUNK_SIZE, c.y * CHUNK_SIZE, c.z * CHUNK_SIZE),
                    };
                    let ghost prev = self.entries@;
                    self.entries.set(j, (c, ChunkState::VolumeReady { volume }));
                    proof {
                        self.lemma_entry_at(j as int);
                        assert forall|c2: ChunkCoord|
                            (#[trigger] self.has_coord(c2)) == old(self).has_coord(c2) by {
                            self.lemma_same_keys_update(prev, j as int, c2);
                        }
                        assert forall|c2: ChunkCoord|
                            c2 != c implies #[trigger] self.state_opt(c2) == old(
                            self,
                        ).state_opt(c2) by {
                            self.lemma_other_states_update(*old(self), j as int, c2);
                        }
                        assert forall|c2: ChunkCoord| #[trigger]
                            step_ok(old(self).state_opt(c2), self.state_opt(c2)) by {
                            if c2 != c {
                                assert(self.state_opt(c2) == old(self).state_opt(c2));
                            }
                        }
                    }
                    true
                } else {
                    proof {
                        assert(!(old(self).state_of(c) is VolumePending));
                    }
                    false
                }
            },
            None => false,
        }
    }

    /// Streaming decision for one viewpoint: every coordinate within the
    /// streaming radius (Chebyshev, inclusive) of the viewpoint's chunk
    /// coordinate that is not yet tracked becomes volume-pending. The
    /// returned coordinates are exactly those, each owed one volume
    /// generation unit of work. Already-tracked coordinates are untouched.
    pub fn load_chunks(&mut self, center: ChunkCoord, radius: i32) -> (added: Vec<ChunkCoord>)
        requires
            old(self).wf(),
            coord_in_world(center),
            0 <= radius <= MAX_RADIUS,
        ensures
            final(self).wf(),
            forall|c: ChunkCoord|
                old(self).has_coord(c) ==> #[trigger] final(self).state_opt(c) == old(self).state_opt(c),
            forall|c: ChunkCoord|
                (#[trigger] final(self).has_coord(c)) == (old(self).has_coord(c) || cheb(c, center)
                    <= radius as int),
            forall|c: ChunkCoord|
                !old(self).has_coord(c) && final(self).has_coord(c) ==> final(self).state_of(c)
                    is VolumePending,
            forall|c: ChunkCoord|
                (#[trigger] added@.contains(c)) == (!old(self).has_coord(c) && cheb(c, center)
                    <= radius as int),
            forall|c: ChunkCoord| #[trigger]
                step_ok(old(self).state_opt(c), final(self).state_opt(c)),
    {
        let mut added: Vec<ChunkCoord> = Vec::new();
        let mut dx: i32 = -radius;
        while dx <= radius
            invariant
                self.wf(),
                coord_in_world(center),
                0 <= radius <= MAX_RADIUS,
                -radius <= dx <= radius + 1,
                forall|c: ChunkCoord|
                    old(self).has_coord(c) ==> #[trigger] self.state_opt(c) == old(
                        self,
                    ).state_opt(c),
                forall|c: ChunkCoord|
                    (#[trigger] self.has_coord(c)) == (old(self).has_coord(c) || (cheb(c, center)
                        <= radius as int && scanned(c, center, dx as int, -(radius as int) - 1, 0))),
                forall|c: ChunkCoord|
                    !old(self).has_coord(c) && self.has_coord(c) ==> self.state_of(c)
                        is VolumePending,
                forall|c: ChunkCoord|
                    (#[trigger] added@.contains(c)) == (!old(self).has_coord(c) && self.has_coord(
                        c,
                    )),
            decreases radius + 1 - dx,
        {
            let mut dy: i32 = -radius;
            while dy <= radius
                invariant
                    self.wf(),
                    coord_in_world(center),
                    0 <= radius <= MAX_RADIUS,
                    -radius <= dx <= radius,
                    -radius <= dy <= radius + 1,
                    forall|c: ChunkCoord|
                        old(self).has_coord(c) ==> #[trigger] self.state_opt(c) == old(
                            self,
                        ).state_opt(c),
                    forall|c: ChunkCoord|
                        (#[trigger] self.has_coord(c)) == (old(self).has_coord(c) || (cheb(
                            c,
                            center,
                        ) <= radius as int && scanned(
                            c,
                            center,
                            dx as int,
                            dy as int,
                            -(radius as int) - 1,
                        ))),
                    forall|c: ChunkCoord|
                        !old(self).has_coord(c) && self.has_coord(c) ==> self.state_of(c)
                            is VolumePending,
                    forall|c: ChunkCoord|
                        (#[trigger] added@.contains(c)) == (!old(self).has_coord(c)
                            && self.has_coord(c)),
                decreases radius + 1 - dy,
            {
                let mut dz: i32 = -radius;
                while dz <= radius
                    invariant
                        self.wf(),
                        coord_in_world(center),
                        0 <= radius <= MAX_RADIUS,
                        -radius <= dx <= radius,
                        -radius <= dy <= radius,
                        -radius <= dz <= radius + 1,
                        forall|c: ChunkCoord|
                            old(self).has_coord(c) ==> #[trigger] self.state_opt(c) == old(
                                self,
                            ).state_opt(c),
                        forall|c: ChunkCoord|
                            (#[trigger] self.has_coord(c)) == (old(self).has_coord(c) || (cheb(
                                c,
                                center,
                            ) <= radius as int && scanned(
                                c,
                                center,
                                dx as int,
                                dy as int,
                                dz as int,
                            ))),
                        forall|c: ChunkCoord|
                            !old(self).has_coord(c) && self.has_coord(c) ==> self.state_of(c)
                                is VolumePending,
                        forall|c: ChunkCoord|
                            (#[trigger] added@.contains(c)) == (!old(self).has_coord(c)
                                && self.has_coord(c)),
                    decreases radius + 1 - dz,
                {
                    let coord = ChunkCoord { x: center.x + dx, y: center.y + dy, z: center.z + dz };
                    let ghost pre = *self;
                    let ghost pre_added = added@;
                    if !self.contains(coord) {
                        self.entries.push((coord, ChunkState::VolumePending));
                        added.push(coord);
                        proof {
                            lemma_push_entry(pre, *self, coord, ChunkState::VolumePending);
                        }
                    }
                    proof {
                        assert(cheb(coord, center) <= radius as int);
                        assert forall|c: ChunkCoord|
                            (#[trigger] self.has_coord(c)) == (old(self).has_coord(c) || (cheb(
                                c,
                                center,
                            ) <= radius as int && scanned(
                                c,
                                center,
                                dx as int,
                                dy as int,
                                dz as int + 1,
                            ))) by {
                            if c == coord {
                                assert(scanned(c, center, dx as int, dy as int, dz as int + 1));
                                assert(self.has_coord(c));
                            } else {
                                assert(scanned(c, center, dx as int, dy as int, dz as int + 1)
                                    == scanned(c, center, dx as int, dy as int, dz as int));
                            }
                        }
                        assert forall|c: ChunkCoord|
                            (#[trigger] added@.contains(c)) == (!old(self).has_coord(c)
                                && self.has_coord(c)) by {
                            if added@.contains(c) {
                                let k = choose|k: int| 0 <= k < added@.len() && added@[k] == c;
                                if k < pre_added.len() {
                                    assert(pre_added[k] == c);
                                    assert(pre_added.contains(c));
                                } else {
                                    assert(c == coord);
                                }
                            }
                            if !old(self).has_coord(c) && self.has_coord(c) {
                                if pre.has_coord(c) {
                                    assert(pre_added.contains(c));
                                    let k = choose|k: int|
                                        0 <= k < pre_added.len() && pre_added[k] == c;
                                    assert(added@[k] == c);
                                    assert(added@.contains(c));
                                } else {
                                    assert(c == coord);
                                    assert(added@[added@.len() - 1] == coord);
                                    assert(added@.contains(c));
                                }
                            }
                        }
                    }
                    dz += 1;
                }
                proof {
                    assert forall|c: ChunkCoord|
                        (cheb(c, center) <= radius as int && scanned(
                            c,
                            center,
                            dx as int,
                            dy as int,
                            radius as int + 1,
                        )) == (cheb(c, center) <= radius as int && scanned(
                            c,
                            center,
                            dx as int,
                            dy as int + 1,
                            -(radius as int) - 1,
                        )) by {}
                }
                dy += 1;
            }
            proof {
                assert forall|c: ChunkCoord|
                    (cheb(c, center) <= radius as int && scanned(
                        c,
                        center,
                        dx as int,
                        radius as int + 1,
                        -(radius as int) - 1,
                    )) == (cheb(c, center) <= radius as int && scanned(
                        c,
                        center,
                        dx as int + 1,
                        -(radius as int) - 1,
                        0,
                    )) by {}
            }
            dx += 1;
        }
        proof {
            assert forall|c: ChunkCoord|
                (cheb(c, center) <= radius as int && scanned(
                    c,
                    center,
                    radius as int + 1,
                    -(radius as int) - 1,
                    0,
                )) == (cheb(c, center) <= radius as int) by {}
            assert forall|c: ChunkCoord| #[trigger]
                step_ok(old(self).state_opt(c), self.state_opt(c)) by {
                if old(self).has_coord(c) {
                    assert(self.state_opt(c) == old(self).state_opt(c));
                } else if self.has_coord(c) {
                    assert(self.state_of(c) is VolumePending);
                }
            }
        }
        added
    }

    /// Unload decision: every tracked coordinate farther than the streaming
    /// radius from every viewpoint is torn down — volume and mesh released,
    /// entry removed. The returned coordinates are exactly those, each owing
    /// the renderer a retraction. Afterwards every tracked coordinate lies
    /// within the radius of some viewpoint.
    pub fn unload_chunks(&mut self, centers: &Vec<ChunkCoord>, radius: i32) -> (removed: Vec<
        ChunkCoord,
    >)
        requires
            old(self).wf(),
            0 <= radius,
        ensures
            final(self).wf(),
            forall|c: ChunkCoord|
                (#[trigger] final(self).has_coord(c)) == (old(self).has_coord(c) && within_radius(
                    c,
                    centers@,
                    radius as int,
                )),
            forall|c: ChunkCoord|
                final(self).has_coord(c) ==> #[trigger] final(self).state_opt(c) == old(self).state_opt(c),
            forall|c: ChunkCoord|
                (#[trigger] removed@.contains(c)) == (old(self).has_coord(c) && !within_radius(
                    c,
                    centers@,
                    radius as int,
                )),
            forall|c: ChunkCoord| #[trigger]
                step_ok(old(self).state_opt(c), final(self).state_opt(c)),
    {
        let ghost orig = old(self).entries@;
        let mut kept: Vec<(ChunkCoord, ChunkState)> = Vec::new();
        let mut removed: Vec<ChunkCoord> = Vec::new();
        while self.entries.len() > 0
            invariant
                old(self).wf(),
                orig == old(self).entries@,
                0 <= radius,
                self.entries@.len() <= orig.len(),
                self.entries@ == orig.subrange(0, self.entries@.len() as int),
                seq_unique(kept@),
                forall|j: int|
                    0 <= j < kept@.len() ==> exists|i: int|
                        self.entries@.len() <= i < orig.len() && orig[i] == #[trigger] kept@[j],
                forall|c: ChunkCoord|
                    (#[trigger] seq_has(kept@, c)) == (exists|i: int|
                        self.entries@.len() <= i < orig.len() && (#[trigger] orig[i]).0 == c
                            && within_radius(c, centers@, radius as int)),
                forall|c: ChunkCoord|
                    (#[trigger] removed@.contains(c)) == (exists|i: int|
                        self.entries@.len() <= i < orig.len() && (#[trigger] orig[i]).0 == c
                            && !within_radius(c, centers@, radius as int)),
            decreases self.entries@.len(),
        {
            let ghost rem = self.entries@.len() as int;
            let entry = self.entries.pop().unwrap();
            proof {
                assert(0 < rem <= orig.len());
                assert(entry == orig.subrange(0, rem)[rem - 1]);
                assert(entry == orig[rem - 1]);
                assert(self.entries@ =~= orig.subrange(0, rem - 1));
            }
            let keep = within_any(entry.0, centers, radius);
            let ghost pre_kept = kept@;
            let ghost pre_removed = removed@;
            if keep {
                proof {
                    if seq_has(kept@, entry.0) {
                        let j = choose|j: int| 0 <= j < kept@.len() && kept@[j].0 == entry.0;
                        assert(seq_has(kept@, entry.0));
                        let i = choose|i: int|
                            rem <= i < orig.len() && orig[i].0 == entry.0 && within_radius(
                                entry.0,
                                centers@,
                                radius as int,
                            );
                        assert((orig[i]).0 == (orig[rem - 1]).0);
                        assert(false);
                    }
                }
                kept.push(entry);
                proof {
                    assert forall|c: ChunkCoord|
                        (#[trigger] seq_has(kept@, c)) == (exists|i: int|
                            rem - 1 <= i < orig.len() && (#[trigger] orig[i]).0 == c
                                && within_radius(c, centers@, radius as int)) by {
                        if seq_has(kept@, c) {
                            let j = choose|j: int| 0 <= j < kept@.len() && kept@[j].0 == c;
                            if j < pre_kept.len() {
                                assert(seq_has(pre_kept, c));
                            } else {
                                assert(kept@[j] == entry);
                                assert((orig[rem - 1]).0 == c);
                            }
                        }
                        if exists|i: int|
                            rem - 1 <= i < orig.len() && (#[trigger] orig[i]).0 == c
                                && within_radius(c, centers@, radius as int) {
                            let i = choose|i: int|
                                rem - 1 <= i < orig.len() && (#[trigger] orig[i]).0 == c
                                    && within_radius(c, centers@, radius as int);
                            if i == rem - 1 {
                                assert(kept@[kept@.len() - 1] == entry);
                                assert(seq_has(kept@, c));
                            } else {
                                assert(seq_has(pre_kept, c));
                                let j = choose|j: int|
                                    0 <= j < pre_kept.len() && pre_kept[j].0 == c;
                                assert(kept@[j].0 == c);
                            }
                        }
                    }
                    assert forall|c: ChunkCoord|
                        (#[trigger] removed@.contains(c)) == (exists|i: int|
                            rem - 1 <= i < orig.len() && (#[trigger] orig[i]).0 == c
                                && !within_radius(c, centers@, radius as int)) by {
                        if removed@.contains(c) {
                            assert(exists|i: int|
                                rem <= i < orig.len() && (#[trigger] orig[i]).0 == c
                                    && !within_radius(c, centers@, radius as int));
                        }
                        if exists|i: int|
                            rem - 1 <= i < orig.len() && (#[trigger] orig[i]).0 == c
                                && !within_radius(c, centers@, radius as int) {
                            let i = choose|i: int|
                                rem - 1 <= i < orig.len() && (#[trigger] orig[i]).0 == c
                                    && !within_radius(c, centers@, radius as int);
                            assert(i != rem - 1);
                        }
                    }
                }
            } else {
                removed.push(entry.0);
                proof {
                    assert forall|c: ChunkCoord|
                        (#[trigger] seq_has(kept@, c)) == (exists|i: int|
                            rem - 1 <= i < orig.len() && (#[trigger] orig[i]).0 == c
                                && within_radius(c, centers@, radius as int)) by {
                        if seq_has(kept@, c) {
                            assert(exists|i: int|
                                rem <= i < orig.len() && (#[trigger] orig[i]).0 == c
                                    && within_radius(c, centers@, radius as int));
                        }
                        if exists|i: int|
                            rem - 1 <= i < orig.len() && (#[trigger] orig[i]).0 == c
                                && within_radius(c, centers@, radius as int) {
                            let i = choose|i: int|
                                rem - 1 <= i < orig.len() && (#[trigger] orig[i]).0 == c
                                    && within_radius(c, centers@, radius as int);
                            assert(i != rem - 1);
                        }
                    }
                    assert forall|c: ChunkCoord|
                        (#[trigger] removed@.contains(c)) == (exists|i: int|
                            rem - 1 <= i < orig.len() && (#[trigger] orig[i]).0 == c
                                && !within_radius(c, centers@, radius as int)) by {
                        if removed@.contains(c) {
                            let k = choose|k: int| 0 <= k < removed@.len() && removed@[k] == c;
                            if k < pre_removed.len() {
                                assert(pre_removed.contains(c));
                            } else {
                                assert(c == entry.0);
                                assert((orig[rem - 1]).0 == c);
                            }
                        }
                        if exists|i: int|
                            rem - 1 <= i < orig.len() && (#[trigger] orig[i]).0 == c
                                && !within_radius(c, centers@, radius as int) {
                            let i = choose|i: int|
                                rem - 1 <= i < orig.len() && (#[trigger] orig[i]).0 == c
                                    && !within_radius(c, centers@, radius as int);
                            if i == rem - 1 {
                                assert(removed@[removed@.len() - 1] == c);
                            } else {
                                assert(pre_removed.contains(c));
                                let k = choose|k: int|
                                    0 <= k < pre_removed.len() && pre_removed[k] == c;
                                assert(removed@[k] == c);
                            }
                        }
                    }
                }
            }
        }
        let ghost kept_view = kept@;
        self.entries = kept;
        proof {
            assert(self.entries@ == kept_view);
            assert(orig.subrange(0, 0) =~= Seq::<(ChunkCoord, ChunkState)>::empty());
            assert forall|i: int|
                0 <= i < self.entries@.len() implies coord_trackable(
                (#[trigger] self.entries@[i]).0,
            ) && state_volume_wf(self.entries@[i].1) by {
                let j = choose|j: int|
                    0 <= j < orig.len() && orig[j] == self.entries@[i];
                assert(exists|j: int| 0 <= j < orig.len() && orig[j] == self.entries@[i]);
            }
            assert forall|c: ChunkCoord|
                (#[trigger] self.has_coord(c)) == (old(self).has_coord(c) && within_radius(
                    c,
                    centers@,
                    radius as int,
                )) by {
                if old(self).has_coord(c) && within_radius(c, centers@, radius as int) {
                    let i = choose|i: int| 0 <= i < orig.len() && orig[i].0 == c;
                    assert(0 <= i < orig.len() && (orig[i]).0 == c && within_radius(
                        c,
                        centers@,
                        radius as int,
                    ));
                }
            }
            assert forall|c: ChunkCoord|
                self.has_coord(c) implies #[trigger] self.state_opt(c) == old(
                self,
            ).state_opt(c) by {
                let j = choose|j: int|
                    0 <= j < self.entries@.len() && self.entries@[j].0 == c;
                let i = choose|i: int|
                    0 <= i < orig.len() && orig[i] == self.entries@[j];
                assert(exists|i: int| 0 <= i < orig.len() && orig[i] == self.entries@[j]);
                self.lemma_entry_at(j);
                old(self).lemma_entry_at(i);
            }
            assert forall|c: ChunkCoord| #[trigger]
                step_ok(old(self).state_opt(c), self.state_opt(c)) by {
                if self.has_coord(c) {
                    assert(self.state_opt(c) == old(self).state_opt(c));
                }
            }
        }
        removed
    }

    /// Dispatches a mesh build for a coordinate: a volume-ready coordinate
    /// begins its first build, a mesh-ready coordinate begins a rebuild,
    /// keeping its previous mesh until the new one lands. The returned unit
    /// of work carries the coordinate's volume and a snapshot of whichever
    /// neighbour volumes are mesh-ready right now; others are left unknown
    /// and their boundary faces default to visible. Any other coordinate
    /// yields no work.
    pub fn dispatch_mesh(&mut self, c: ChunkCoord) -> (job: Option<MeshJob>)
        requires
            old(self).wf(),
        ensures
            final(self).wf(),
            (job is Some) == (old(self).has_coord(c) && (old(self).state_of(c) is VolumeReady
                || old(self).state_of(c) is MeshReady)),
            forall|c2: ChunkCoord|
                (#[trigger] final(self).has_coord(c2)) == old(self).has_coord(c2),
            forall|c2: ChunkCoord|
                c2 != c ==> #[trigger] final(self).state_opt(c2) == old(self).state_opt(c2),
            job matches Some(jb) ==> ({
                &&& jb.coord == c
                &&& jb.chunk.block_data@.len() == VOLUME_LEN
                &&& (old(self).state_of(c) matches ChunkState::VolumeReady { volume } ==> jb.chunk@
                    == volume@)
                &&& (old(self).state_of(c) matches ChunkState::MeshReady { volume, .. }
                    ==> jb.chunk@ == volume@)
                &&& (final(self).state_of(c) matches ChunkState::MeshPending { volume, prev }
                    && volume@ == jb.chunk@ && (old(self).state_of(c) is VolumeReady ==> prev
                    is None) && (old(self).state_of(c) matches ChunkState::MeshReady { mesh, .. }
                    ==> (prev matches Some(m) && m@ == mesh@)))
                &&& jb.neighbours.wf()
                &&& opt_chunk_view(jb.neighbours.x_pos) == opt_chunk_view(
                    mesh_ready_volume(*old(self), neighbour_at(c, 0)),
                )
                &&& opt_chunk_view(jb.neighbours.x_neg) == opt_chunk_view(
                    mesh_ready_volume(*old(self), neighbour_at(c, 1)),
                )
                &&& opt_chunk_view(jb.neighbours.y_pos) == opt_chunk_view(
                    mesh_ready_volume(*old(self), neighbour_at(c, 2)),
                )
                &&& opt_chunk_view(jb.neighbours.y_neg) == opt_chunk_view(
                    mesh_ready_volume(*old(self), neighbour_at(c, 3)),
                )
                &&& opt_chunk_view(jb.neighbours.z_pos) == opt_chunk_view(
                    mesh_ready_volume(*old(self), neighbour_at(c, 4)),
                )
                &&& opt_chunk_view(jb.neighbours.z_neg) == opt_chunk_view(
                    mesh_ready_volume(*old(self), neighbour_at(c, 5)),
                )
            }),
            job is None ==> *final(self) == *old(self),
            forall|c2: ChunkCoord| #[trigger]
                step_ok(old(self).state_opt(c2), final(self).state_opt(c2)),
    {
        let found = self.find(c);
        match found {
            None => None,
            Some(j) => {
                proof {
                    assert(coord_trackable(self.entries@[j as int].0));
                }
                let extracted: Option<(Chunk, Option<RenderData>)> = match &self.entries[j].1 {
                    ChunkState::VolumeReady { volume } => Some((volume.clone(), None)),
                    ChunkState::MeshReady { volume, mesh } => Some(
                        (volume.clone(), Some(mesh.clone())),
                    ),
                    _ => None,
                };
                match extracted {
                    None => {
                        proof {
                            assert(!(old(self).state_of(c) is VolumeReady));
                            assert(!(old(self).state_of(c) is MeshReady));
                        }
                        None
                    },
                    Some(pair) => {
                        let (vol2, prevm) = pair;
                        let neighbours = chunk_to_render(c, self);
                        let job_chunk = vol2.clone();
                        let ghost prev_entries = self.entries@;
                        self.entries.set(
                            j,
                            (c, ChunkState::MeshPending { volume: vol2, prev: prevm }),
                        );
                        proof {
                            self.lemma_entry_at(j as int);
                            assert forall|c2: ChunkCoord|
                                (#[trigger] self.has_coord(c2)) == old(self).has_coord(c2) by {
                                self.lemma_same_keys_update(prev_entries, j as int, c2);
                            }
                            assert forall|c2: ChunkCoord|
                                c2 != c implies #[trigger] self.state_opt(c2) == old(
                                self,
                            ).state_opt(c2) by {
                                self.lemma_other_states_update(*old(self), j as int, c2);
                            }
                            assert forall|c2: ChunkCoord| #[trigger]
                                step_ok(old(self).state_opt(c2), self.state_opt(c2)) by {
                                if c2 != c {
                                    assert(self.state_opt(c2) == old(self).state_opt(c2));
                                }
                            }
                        }
                        Some(MeshJob { coord: c, chunk: job_chunk, neighbours })
                    },
                }
            },
        }
    }

    /// Records a completed mesh build: a mesh-pending coordinate advances to
    /// mesh-ready, holding the new mesh, and its publication is owed to the
    /// renderer. The returned coordinates are the axis neighbours that are
    /// already mesh-ready: each gained a newly available neighbour, so each
    /// is owed a rebuild of its own mesh. A result for any other coordinate
    /// is dropped whole.
    pub fn mesh_done(&mut self, c: ChunkCoord, mesh: RenderData) -> (r: (bool, Vec<ChunkCoord>))
        requires
            old(self).wf(),
        ensures
            final(self).wf(),
            r.0 == (old(self).has_coord(c) && old(self).state_of(c) is MeshPending),
            forall|c2: ChunkCoord|
                (#[trigger] final(self).has_coord(c2)) == old(self).has_coord(c2),
            forall|c2: ChunkCoord|
                c2 != c ==> #[trigger] final(self).state_opt(c2) == old(self).state_opt(c2),
            r.0 ==> (final(self).state_of(c) matches ChunkState::MeshReady { volume, mesh: m }
                && m@ == mesh@ && (old(self).state_of(c) matches ChunkState::MeshPending {
                volume: v0,
                ..
            } ==> volume@ == v0@)),
            !r.0 ==> *final(self) == *old(self),
            forall|n: ChunkCoord|
                (#[trigger] r.1@.contains(n)) == (r.0 && is_axis_neighbour(c, n) && old(
                    self,
                ).has_coord(n) && old(self).state_of(n) is MeshReady),
            forall|c2: ChunkCoord| #[trigger]
                step_ok(old(self).state_opt(c2), final(self).state_opt(c2)),
    {
        let found = self.find(c);
        match found {
            None => (false, Vec::new()),
            Some(j) => {
                proof {
                    assert(coord_trackable(self.entries@[j as int].0));
                }
                let extracted: Option<Chunk> = match &self.entries[j].1 {
                    ChunkState::MeshPending { volume, .. } => Some(volume.clone()),
                    _ => None,
                };
                match extracted {
                    None => {
                        proof {
                            assert(!(old(self).state_of(c) is MeshPending));
                        }
                        (false, Vec::new())
                    },
                    Some(vol2) => {
                        let mut rlist: Vec<ChunkCoord> = Vec::new();
                        let mut k: usize = 0;
                        while k < 6
                            invariant
                                self.wf(),
                                *self == *old(self),
                                coord_trackable(c),
                                k <= 6,
                                forall|n: ChunkCoord|
                                    (#[trigger] rlist@.contains(n)) == (exists|q: int|
                                        0 <= q < k && n == neighbour_at(c, q) && self.has_coord(n)
                                            && self.state_of(n) is MeshReady),
                            decreases 6 - k,
                        {
                            let n = neighbour_of(c, k);
                            let ghost pre_rlist = rlist@;
                            let ready = match self.state_ref(n) {
                                Some(st) => match st {
                                    ChunkState::MeshReady { .. } => true,
                                    _ => false,
                                },
                                None => false,
                            };
                            if ready {
                                rlist.push(n);
                            }
                            proof {
                                assert forall|n2: ChunkCoord|
                                    (#[trigger] rlist@.contains(n2)) == (exists|q: int|
                                        0 <= q < k + 1 && n2 == neighbour_at(c, q)
                                            && self.has_coord(n2) && self.state_of(n2)
                                            is MeshReady) by {
                                    if rlist@.contains(n2) {
                                        let m = choose|m: int|
                                            0 <= m < rlist@.len() && rlist@[m] == n2;
                                        if m < pre_rlist.len() {
                                            assert(pre_rlist[m] == n2);
                                            assert(pre_rlist.contains(n2));
                                            let q = choose|q: int|
                                                0 <= q < k && n2 == neighbour_at(c, q)
                                                    && self.has_coord(n2) && self.state_of(n2)
                                                    is MeshReady;
                                            assert(0 <= q < k + 1 && n2 == neighbour_at(c, q)
                                                && self.has_coord(n2) && self.state_of(n2)
                                                is MeshReady);
                                        } else {
                                            assert(n2 == n);
                                            assert(n2 == neighbour_at(c, k as int));
                                        }
                                    }
                                    if exists|q: int|
                                        0 <= q < k + 1 && n2 == neighbour_at(c, q)
                                            && self.has_coord(n2) && self.state_of(n2)
                                            is MeshReady {
                                        let q = choose|q: int|
                                            0 <= q < k + 1 && n2 == neighbour_at(c, q)
                                                && self.has_coord(n2) && self.state_of(n2)
                                                is MeshReady;
                                        if q < k {
                                            assert(pre_rlist.contains(n2));
                                            let m = choose|m: int|
                                                0 <= m < pre_rlist.len() && pre_rlist[m] == n2;
                                            assert(rlist@[m] == n2);
                                            assert(rlist@.contains(n2));
                                        } else {
                                            assert(n2 == n);
                                            assert(ready);
                                            assert(rlist@[rlist@.len() - 1] == n2);
                                            assert(rlist@.contains(n2));
                                        }
                                    }
                                }
                            }
                            k += 1;
                        }
                        let ghost prev_entries = self.entries@;
                        self.entries.set(
                            j,
                            (c, ChunkState::MeshReady { volume: vol2, mesh }),
                        );
                        proof {
                            self.lemma_entry_at(j as int);
                            assert forall|c2: ChunkCoord|
                                (#[trigger] self.has_coord(c2)) == old(self).has_coord(c2) by {
                                self.lemma_same_keys_update(prev_entries, j as int, c2);
                            }
                            assert forall|c2: ChunkCoord|
                                c2 != c implies #[trigger] self.state_opt(c2) == old(
                                self,
                            ).state_opt(c2) by {
                                self.lemma_other_states_update(*old(self), j as int, c2);
                            }
                            assert forall|c2: ChunkCoord| #[trigger]
                                step_ok(old(self).state_opt(c2), self.state_opt(c2)) by {
                                if c2 != c {
                                    assert(self.state_opt(c2) == old(self).state_opt(c2));
                                }
                            }
                            assert forall|n: ChunkCoord|
                                (#[trigger] rlist@.contains(n)) == (true && is_axis_neighbour(c, n)
                                    && old(self).has_coord(n) && old(self).state_of(n)
                                    is MeshReady) by {
                                if rlist@.contains(n) {
                                }
                                if is_axis_neighbour(c, n) && old(self).has_coord(n) && old(
                                    self,
                                ).state_of(n) is MeshReady {
                                    let q = choose|q: int| 0 <= q < 6 && n == neighbour_at(c, q);
                                    assert(0 <= q < 6 && n == neighbour_at(c, q) && old(
                                        self,
                                    ).has_coord(n) && old(self).state_of(n) is MeshReady);
                                }
                            }
                        }
                        (true, rlist)
                    },
                }
            },
        }
    }

    /// After an in-place update at j, the key set is unchanged.
    proof fn lemma_same_keys_update(self, prev: Seq<(ChunkCoord, ChunkState)>, j: int, c2: ChunkCoord)
        requires
            0 <= j < prev.len(),
            self.entries@.len() == prev.len(),
            forall|i: int| 0 <= i < prev.len() ==> (#[trigger] self.entries@[i]).0 == prev[i].0,
        ensures
            seq_has(self.entries@, c2) == seq_has(prev, c2),
    {
        if seq_has(prev, c2) {
            let i = choose|i: int| 0 <= i < prev.len() && prev[i].0 == c2;
            assert(self.entries@[i].0 == c2);
        }
        if seq_has(self.entries@, c2) {
            let i = choose|i: int| 0 <= i < self.entries@.len() && self.entries@[i].0 == c2;
            assert(prev[i].0 == c2);
        }
    }

    /// After an in-place update at j, every other key keeps its state.
    proof fn lemma_other_states_update(self, older: ChunkIndex, j: int, c2: ChunkCoord)
        requires
            older.wf(),
            0 <= j < older.entries@.len(),
            self.entries@.len() == older.entries@.len(),
            forall|i: int|
                0 <= i < older.entries@.len() ==> (#[trigger] self.entries@[i]).0
                    == older.entries@[i].0,
            forall|i: int|
                0 <= i < older.entries@.len() && i != j ==> #[trigger] self.entries@[i]
                    == older.entries@[i],
            c2 != older.entries@[j].0,
        ensures
            self.state_opt(c2) == older.state_opt(c2),
    {
        assert(seq_unique(self.entries@));
        self.lemma_same_keys_update(older.entries@, j, c2);
        if seq_has(older.entries@, c2) {
            let i = choose|i: int| 0 <= i < older.entries@.len() && older.entries@[i].0 == c2;
            assert(i != j);
            older.lemma_entry_at(i);
            self.lemma_entry_at(i);
        }
    }
}

} // verus!

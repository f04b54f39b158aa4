use vstd::prelude::*;

use crate::classify::{
    classify_spec, classify_voxel, lemma_classify_deterministic, lemma_classify_wf, same_terrain,
};
use crate::height::HeightField;
use crate::rng::{fresh_rng, sample_inclusive};
use crate::settings::{CHUNK_SIZE, MAX_CHUNK_COORD, SEA_LEVEL, VOLUME_LEN};
use crate::voxel::Voxel;

verus! {

/// One chunk's voxel volume, with its world position in blocks (the chunk
/// coordinate times `CHUNK_SIZE`). The volume is a dense cube flattened in
/// x-major, then y, then z order.
#[derive(Debug)]
pub struct Chunk {
    pub block_data: Vec<Voxel>,
    pub pos: (i32, i32, i32),
}

/// Mathematical image of a `Chunk`: the voxel sequence and the world position.
pub struct ChunkView {
    pub data: Seq<Voxel>,
    pub pos: (int, int, int),
}

impl View for Chunk {
    type V = ChunkView;

    open spec fn view(&self) -> ChunkView {
        ChunkView {
            data: self.block_data@,
            pos: (self.pos.0 as int, self.pos.1 as int, self.pos.2 as int),
        }
    }
}

impl Clone for Chunk {
    /// Copies the volume exactly.
    fn clone(&self) -> (r: Self)
        ensures
            r@ == self@,
    {
        let r = Chunk { block_data: copy_vec(&self.block_data), pos: self.pos };
        assert(r@.data =~= self@.data);
        r
    }
}

/// Copies a vector of plain values element by element.
pub(crate) fn copy_vec<T: Copy>(v: &Vec<T>) -> (r: Vec<T>)
    ensures
        r@ == v@,
{
    let mut r: Vec<T> = Vec::new();
    let mut i: usize = 0;
    while i < v.len()
        invariant
            i <= v@.len(),
            r@ == v@.subrange(0, i as int),
        decreases v@.len() - i,
    {
        r.push(v[i]);
        assert(r@ =~= v@.subrange(0, i as int + 1));
        i += 1;
    }
    assert(r@ =~= v@);
    r
}

/// Flattened position of cell (x, y, z) inside a volume.
pub open spec fn flat_index(x: int, y: int, z: int) -> int {
    x * (CHUNK_SIZE as int) * (CHUNK_SIZE as int) + y * (CHUNK_SIZE as int) + z
}

/// Whether (x, y, z) is a chunk-local cell position.
pub open spec fn in_chunk(x: int, y: int, z: int) -> bool {
    &&& 0 <= x < CHUNK_SIZE as int
    &&& 0 <= y < CHUNK_SIZE as int
    &&& 0 <= z < CHUNK_SIZE as int
}

/// The voxel of a flattened volume at cell (x, y, z).
pub open spec fn vox_at(data: Seq<Voxel>, x: int, y: int, z: int) -> Voxel {
    data[flat_index(x, y, z)]
}

/// Every cell of a volume holds a well-formed voxel.
pub open spec fn volume_wf(data: Seq<Voxel>) -> bool {
    forall|x: int, y: int, z: int|
        in_chunk(x, y, z) ==> (#[trigger] vox_at(data, x, y, z)).wf()
}

/// Distinct cells have distinct flattened positions.
pub proof fn lemma_flat_injective(x1: int, y1: int, z1: int, x2: int, y2: int, z2: int)
    requires
        in_chunk(x1, y1, z1),
        in_chunk(x2, y2, z2),
        flat_index(x1, y1, z1) == flat_index(x2, y2, z2),
    ensures
        x1 == x2 && y1 == y2 && z1 == z2,
{
}

/// The classifier's verdict for cell (x, y, z) of the chunk at coordinate
/// `cpos`, under height field `hf` and random draws `t` and `d`.
pub open spec fn cell_spec(
    cpos: (int, int, int),
    hf: HeightField,
    x: int,
    y: int,
    z: int,
    t: int,
    d: bool,
) -> Voxel {
    classify_spec(
        cpos.1 * (CHUNK_SIZE as int) + y,
        hf.tenth(x, z),
        hf.whole(x + 1, z),
        hf.whole(x - 1, z),
        hf.whole(x, z + 1),
        hf.whole(x, z - 1),
        SEA_LEVEL as int,
        t,
        d,
    )
}

/// Cell (x, y, z) of `data` is the classifier's verdict for that cell, for
/// some admissible pair of random draws.
pub open spec fn cell_matches(
    data: Seq<Voxel>,
    cpos: (int, int, int),
    hf: HeightField,
    x: int,
    y: int,
    z: int,
) -> bool {
    exists|t: int, d: bool|
        2 <= t <= 4 && vox_at(data, x, y, z) == cell_spec(cpos, hf, x, y, z, t, d)
}

/// A generated volume: full size, and every cell classified from the height
/// field, the chunk coordinate and some admissible random draws.
pub open spec fn volume_matches(data: Seq<Voxel>, cpos: (int, int, int), hf: HeightField) -> bool {
    &&& data.len() == VOLUME_LEN
    &&& forall|x: int, y: int, z: int|
        in_chunk(x, y, z) ==> #[trigger] cell_matches(data, cpos, hf, x, y, z)
}

/// Generates the full voxel volume for one chunk coordinate: every cell in
/// x-major order is classified from the caller's height field, with the depth
/// threshold and the decoration drawn fresh per voxel.
pub fn generate_chunk(chunk_position: [i32; 3], heights: &HeightField) -> (data: Vec<Voxel>)
    requires
        heights.wf(),
        forall|i: int| 0 <= i < 3 ==> -MAX_CHUNK_COORD <= #[trigger] chunk_position[i] <= MAX_CHUNK_COORD,
    ensures
        volume_matches(
            data@,
            (chunk_position[0] as int, chunk_position[1] as int, chunk_position[2] as int),
            *heights,
        ),
{
    let ghost cpos = (
        chunk_position[0] as int,
        chunk_position[1] as int,
        chunk_position[2] as int,
    );
    assert(chunk_position[1] == cpos.1);
    let y_base: i32 = chunk_position[1] * CHUNK_SIZE;
    let mut rng = fresh_rng();
    let mut data: Vec<Voxel> = Vec::new();
    let n: usize = CHUNK_SIZE as usize;
    let mut x: usize = 0;
    while x < n
        invariant
            heights.wf(),
            y_base as int == cpos.1 * (CHUNK_SIZE as int),
            -MAX_CHUNK_COORD <= cpos.1 <= MAX_CHUNK_COORD,
            n == CHUNK_SIZE as usize,
            x <= n,
            data@.len() == flat_index(x as int, 0, 0),
            forall|xi: int, yi: int, zi: int|
                in_chunk(xi, yi, zi) && flat_index(xi, yi, zi) < data@.len()
                    ==> #[trigger] cell_matches(data@, cpos, *heights, xi, yi, zi),
        decreases n - x,
    {
        let mut y: usize = 0;
        while y < n
            invariant
                heights.wf(),
                y_base as int == cpos.1 * (CHUNK_SIZE as int),
                -MAX_CHUNK_COORD <= cpos.1 <= MAX_CHUNK_COORD,
                n == CHUNK_SIZE as usize,
                x < n,
                y <= n,
                data@.len() == flat_index(x as int, y as int, 0),
                forall|xi: int, yi: int, zi: int|
                    in_chunk(xi, yi, zi) && flat_index(xi, yi, zi) < data@.len()
                        ==> #[trigger] cell_matches(data@, cpos, *heights, xi, yi, zi),
            decreases n - y,
        {
            let mut z: usize = 0;
            while z < n
                invariant
                    heights.wf(),
                    y_base as int == cpos.1 * (CHUNK_SIZE as int),
                    -MAX_CHUNK_COORD <= cpos.1 <= MAX_CHUNK_COORD,
                    n == CHUNK_SIZE as usize,
                    x < n,
                    y < n,
                    z <= n,
                    data@.len() == flat_index(x as int, y as int, z as int),
                    forall|xi: int, yi: int, zi: int|
                        in_chunk(xi, yi, zi) && flat_index(xi, yi, zi) < data@.len()
                            ==> #[trigger] cell_matches(data@, cpos, *heights, xi, yi, zi),
                decreases n - z,
            {
                let ht = heights.tenth_at(x, z);
                let x1 = heights.whole_at(x as i32 + 1, z as i32);
                let x2 = heights.whole_at(x as i32 - 1, z as i32);
                let z1 = heights.whole_at(x as i32, z as i32 + 1);
                let z2 = heights.whole_at(x as i32, z as i32 - 1);
                let t = sample_inclusive(&mut rng, 2, 4) as i32;
                let d = sample_inclusive(&mut rng, 0, 999) == 0;
                let v = classify_voxel(y_base + y as i32, ht, x1, x2, z1, z2, SEA_LEVEL, t, d);
                let ghost prev = data@;
                data.push(v);
                proof {
                    assert(data@ == prev.push(v));
                    assert(vox_at(data@, x as int, y as int, z as int) == v);
                    assert(2 <= t as int <= 4 && vox_at(data@, x as int, y as int, z as int)
                        == cell_spec(cpos, *heights, x as int, y as int, z as int, t as int, d));
                    assert(cell_matches(data@, cpos, *heights, x as int, y as int, z as int));
                    assert forall|xi: int, yi: int, zi: int|
                        in_chunk(xi, yi, zi) && flat_index(xi, yi, zi) < data@.len()
                            implies #[trigger] cell_matches(data@, cpos, *heights, xi, yi, zi) by {
                        if flat_index(xi, yi, zi) < prev.len() {
                            assert(cell_matches(prev, cpos, *heights, xi, yi, zi));
                            let (ti, di) = choose|ti: int, di: bool|
                                2 <= ti <= 4 && vox_at(prev, xi, yi, zi) == cell_spec(
                                    cpos,
                                    *heights,
                                    xi,
                                    yi,
                                    zi,
                                    ti,
                                    di,
                                );
                            assert(vox_at(data@, xi, yi, zi) == vox_at(prev, xi, yi, zi));
                            assert(cell_matches(data@, cpos, *heights, xi, yi, zi));
                        } else {
                            lemma_flat_injective(xi, yi, zi, x as int, y as int, z as int);
                        }
                    }
                }
                z += 1;
            }
            y += 1;
        }
        x += 1;
    }
    data
}

/// Determinism of volume generation up to the per-voxel random draws: two
/// volumes generated for the same chunk coordinate from the same height field
/// agree as terrain at every cell, the dirt-or-stone and air-or-glass draws
/// aside.
pub proof fn lemma_generate_deterministic(
    a: Seq<Voxel>,
    b: Seq<Voxel>,
    cpos: (int, int, int),
    hf: HeightField,
)
    requires
        volume_matches(a, cpos, hf),
        volume_matches(b, cpos, hf),
    ensures
        a.len() == b.len(),
        forall|x: int, y: int, z: int|
            in_chunk(x, y, z) ==> same_terrain(
                #[trigger] vox_at(a, x, y, z),
                vox_at(b, x, y, z),
            ),
{
    assert forall|x: int, y: int, z: int| in_chunk(x, y, z) implies same_terrain(
        #[trigger] vox_at(a, x, y, z),
        vox_at(b, x, y, z),
    ) by {
        assert(cell_matches(a, cpos, hf, x, y, z));
        assert(cell_matches(b, cpos, hf, x, y, z));
        let (ta, da) = choose|ta: int, da: bool|
            2 <= ta <= 4 && vox_at(a, x, y, z) == cell_spec(cpos, hf, x, y, z, ta, da);
        let (tb, db) = choose|tb: int, db: bool|
            2 <= tb <= 4 && vox_at(b, x, y, z) == cell_spec(cpos, hf, x, y, z, tb, db);
        lemma_classify_deterministic(
            cpos.1 * (CHUNK_SIZE as int) + y,
            hf.tenth(x, z),
            hf.whole(x + 1, z),
            hf.whole(x - 1, z),
            hf.whole(x, z + 1),
            hf.whole(x, z - 1),
            SEA_LEVEL as int,
            ta,
            da,
            tb,
            db,
        );
    }
}

/// A generated volume holds only well-formed voxels: nothing solid is air.
pub proof fn lemma_generated_volume_wf(data: Seq<Voxel>, cpos: (int, int, int), hf: HeightField)
    requires
        volume_matches(data, cpos, hf),
    ensures
        volume_wf(data),
{
    assert forall|x: int, y: int, z: int| in_chunk(x, y, z) implies (#[trigger] vox_at(
        data,
        x,
        y,
        z,
    )).wf() by {
        assert(cell_matches(data, cpos, hf, x, y, z));
        let (t, d) = choose|t: int, d: bool|
            2 <= t <= 4 && vox_at(data, x, y, z) == cell_spec(cpos, hf, x, y, z, t, d);
        lemma_classify_wf(
            cpos.1 * (CHUNK_SIZE as int) + y,
            hf.tenth(x, z),
            hf.whole(x + 1, z),
            hf.whole(x - 1, z),
            hf.whole(x, z + 1),
            hf.whole(x, z - 1),
            SEA_LEVEL as int,
            t,
            d,
        );
    }
}

} // verus!

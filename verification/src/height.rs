use vstd::prelude::*;

use crate::settings::CHUNK_SIZE;

verus! {

/// Per-column terrain heights for one chunk, sampled by the caller's noise
/// model and handed over as exact integers.
///
/// `tenths` holds, for each column of the chunk, the column height in tenths
/// of a block. `wholes` holds, for the chunk's columns and one extra ring
/// around them, the height rounded to whole blocks; the surface rule compares
/// a column against its four cardinal neighbours, and at the chunk's rim those
/// neighbours lie one column outside it.
#[derive(Debug)]
pub struct HeightField {
    pub tenths: Vec<i32>,
    pub wholes: Vec<i32>,
}

impl HeightField {
    /// Both tables have exactly the size their index formulas expect.
    pub open spec fn wf(self) -> bool {
        &&& self.tenths@.len() == (CHUNK_SIZE as int) * (CHUNK_SIZE as int)
        &&& self.wholes@.len() == (CHUNK_SIZE + 2) as int * ((CHUNK_SIZE + 2) as int)
    }

    /// Height of column (x, z) in tenths of a block, x and z chunk-local.
    pub open spec fn tenth(self, x: int, z: int) -> int {
        self.tenths@[x * (CHUNK_SIZE as int) + z] as int
    }

    /// Height of column (x, z) in whole blocks, x and z chunk-local and
    /// allowed to reach one column past the chunk on every side.
    pub open spec fn whole(self, x: int, z: int) -> int {
        self.wholes@[(x + 1) * ((CHUNK_SIZE + 2) as int) + (z + 1)] as int
    }

    /// Reads a column height in tenths of a block.
    pub fn tenth_at(&self, x: usize, z: usize) -> (r: i32)
        requires
            self.wf(),
            x < CHUNK_SIZE as usize,
            z < CHUNK_SIZE as usize,
        ensures
            r as int == self.tenth(x as int, z as int),
    {
        self.tenths[x * (CHUNK_SIZE as usize) + z]
    }

    /// Reads a column height in whole blocks, one column past the chunk
    /// allowed on every side.
    pub fn whole_at(&self, x: i32, z: i32) -> (r: i32)
        requires
            self.wf(),
            -1 <= x <= CHUNK_SIZE,
            -1 <= z <= CHUNK_SIZE,
        ensures
            r as int == self.whole(x as int, z as int),
    {
        let row = (x + 1) as usize;
        let col = (z + 1) as usize;
        self.wholes[row * ((CHUNK_SIZE + 2) as usize) + col]
    }
}

} // verus!

//! The voxel data model: block positions, chunks, and the world.
//!
//! A chunk is a 16x16x16 grid of block identifiers stamped with a chunk
//! coordinate.  The world is a collection of chunks with pairwise distinct
//! coordinates; it resolves an arbitrary world-space block coordinate to a
//! block identifier, treating every unloaded chunk as air.

use vstd::prelude::*;
use vstd::arithmetic::div_mod::lemma_fundamental_div_mod_converse;
use vstd::pervasive::VecAdditionalExecFns;

verus! {

/// Blocks along the X axis of a chunk.
pub const CHUNK_SIZE_X: i64 = 16;
/// Blocks along the Y axis of a chunk.
pub const CHUNK_SIZE_Y: i64 = 16;
/// Blocks along the Z axis of a chunk.
pub const CHUNK_SIZE_Z: i64 = 16;
/// Total number of blocks in one chunk.
pub const CHUNK_SIZE_XYZ: i64 = CHUNK_SIZE_X * CHUNK_SIZE_Y * CHUNK_SIZE_Z;

/// The empty block; faces adjacent to it are exposed.
pub const BLOCK_TYPE_AIR: u16 = 0;
/// The one solid block kind the demo world uses.  Any nonzero identifier is
/// treated as solid.
pub const BLOCK_TYPE_STONE: u16 = 1;

/// An integer 3-vector.  It serves as a chunk-local block coordinate (each
/// component in `[0, 16)`), as a chunk coordinate, and as a world-space block
/// coordinate; the role is determined by context.
#[derive(Clone, Copy, PartialEq, Eq, Structural, Debug, Hash)]
pub struct Position {
    pub x: i64,
    pub y: i64,
    pub z: i64,
}

impl Position {
    pub fn new(x: i64, y: i64, z: i64) -> (p: Position)
        ensures
            p == (Position { x, y, z }),
    {
        Position { x, y, z }
    }
}

/// The chunk coordinate that contains world coordinate `a`: floor division
/// by 16, correct for negative coordinates.
pub open spec fn chunk_coord(a: int) -> int {
    a / 16
}

/// The chunk-local coordinate of world coordinate `a`: floor modulo, in
/// `[0, 16)` for every signed input.
pub open spec fn local_coord(a: int) -> int {
    a % 16
}

/// A chunk-local position: every component in `[0, 16)`.
pub open spec fn valid_local(p: Position) -> bool {
    &&& 0 <= p.x < 16
    &&& 0 <= p.y < 16
    &&& 0 <= p.z < 16
}

/// Where a chunk-local position lives in the flat block array:
/// `z * 16 * 16 + y * 16 + x`.
pub open spec fn linear_index(p: Position) -> int {
    p.z * 256 + p.y * 16 + p.x
}

pub proof fn lemma_linear_index_bounds(p: Position)
    requires
        valid_local(p),
    ensures
        0 <= linear_index(p) < 4096,
{
}

/// Distinct chunk-local positions occupy distinct slots of the block array.
pub proof fn lemma_linear_index_injective(p: Position, q: Position)
    requires
        valid_local(p),
        valid_local(q),
        linear_index(p) == linear_index(q),
    ensures
        p == q,
{
    let a = linear_index(p);
    lemma_fundamental_div_mod_converse(a, 16, p.z * 16 + p.y, p.x as int);
    lemma_fundamental_div_mod_converse(a, 16, q.z * 16 + q.y, q.x as int);
    assert(p.x == q.x);
    let b = p.z * 16 + p.y;
    lemma_fundamental_div_mod_converse(b, 16, p.z as int, p.y as int);
    lemma_fundamental_div_mod_converse(b, 16, q.z as int, q.y as int);
    assert(p.y == q.y && p.z == q.z);
}

/// A 16x16x16 grid of block identifiers with a chunk-coordinate stamp.
#[derive(Debug)]
pub struct Chunk {
    data: Vec<u16>,
    position: Position,
}

impl Chunk {
    /// The flat block array, in `linear_index` order.
    pub closed spec fn blocks(self) -> Seq<u16> {
        self.data@
    }

    /// The chunk's coordinate in the chunk grid.
    pub closed spec fn coord(self) -> Position {
        self.position
    }

    /// A chunk always holds exactly 4096 blocks.
    pub open spec fn wf(self) -> bool {
        self.blocks().len() == 4096
    }

    /// Constructs a chunk at `position` fully filled with `filled_with`.
    pub fn new(position: Position, filled_with: u16) -> (c: Chunk)
        ensures
            c.wf(),
            c.coord() == position,
            forall|i: int| 0 <= i < 4096 ==> c.blocks()[i] == filled_with,
    {
        let mut data: Vec<u16> = Vec::new();
        let mut i: i64 = 0;
        while i < CHUNK_SIZE_XYZ
            invariant
                0 <= i <= 4096,
                data@.len() == i,
                forall|j: int| 0 <= j < i ==> data@[j] == filled_with,
            decreases 4096 - i,
        {
            data.push(filled_with);
            i = i + 1;
        }
        Chunk { data, position }
    }

    /// The chunk's coordinate stamp.
    pub(crate) fn position(&self) -> (p: Position)
        ensures
            p == self.coord(),
    {
        self.position
    }

    /// Writes the block at chunk-local position `block_position`.
    pub fn set_block(&mut self, block_type: u16, block_position: &Position)
        requires
            old(self).wf(),
            valid_local(*block_position),
        ensures
            final(self).wf(),
            final(self).coord() == old(self).coord(),
            final(self).blocks() == old(self).blocks().update(
                linear_index(*block_position),
                block_type,
            ),
    {
        let idx = (block_position.z * CHUNK_SIZE_X * CHUNK_SIZE_Y + block_position.y * CHUNK_SIZE_X
            + block_position.x) as usize;
        self.data.set(idx, block_type);
    }

    /// Reads the block at chunk-local position `block_position`.
    pub fn get_block(&self, block_position: &Position) -> (b: u16)
        requires
            self.wf(),
            valid_local(*block_position),
        ensures
            b == self.blocks()[linear_index(*block_position)],
    {
        let idx = (block_position.z * CHUNK_SIZE_X * CHUNK_SIZE_Y + block_position.y * CHUNK_SIZE_X
            + block_position.x) as usize;
        self.data[idx]
    }
}

/// The block identifier that world coordinate `(px, py, pz)` resolves to in
/// the chunk map `m`: the matching slot of the containing chunk when that
/// chunk is loaded, and air otherwise.
pub open spec fn world_block(m: Map<Position, Seq<u16>>, px: int, py: int, pz: int) -> u16 {
    let c = Position {
        x: chunk_coord(px) as i64,
        y: chunk_coord(py) as i64,
        z: chunk_coord(pz) as i64,
    };
    if m.contains_key(c) {
        m[c][linear_index(
            Position {
                x: local_coord(px) as i64,
                y: local_coord(py) as i64,
                z: local_coord(pz) as i64,
            },
        )]
    } else {
        BLOCK_TYPE_AIR
    }
}

/// A collection of chunks with pairwise distinct chunk coordinates.
#[derive(Debug)]
pub struct World {
    chunks: Vec<Chunk>,
}

impl World {
    /// The world as a mapping from chunk coordinate to block array.
    pub closed spec fn chunk_map(self) -> Map<Position, Seq<u16>> {
        Map::new(
            |c: Position|
                exists|i: int|
                    0 <= i < self.chunks@.len() && (#[trigger] self.chunks@[i]).coord() == c,
            |c: Position|
                self.chunks@[choose|i: int|
                    0 <= i < self.chunks@.len() && (#[trigger] self.chunks@[i]).coord()
                        == c].blocks(),
        )
    }

    /// Every chunk is well formed and no two chunks share a coordinate.
    pub closed spec fn wf(self) -> bool {
        &&& forall|i: int| 0 <= i < self.chunks@.len() ==> (#[trigger] self.chunks@[i]).wf()
        &&& forall|i: int, j: int|
            0 <= i < j < self.chunks@.len() ==> self.chunks@[i].coord() != self.chunks@[j].coord()
    }

    /// Any index holding coordinate `c` is the one the chunk map reads.
    proof fn lemma_index_agrees(self, i: int, c: Position)
        requires
            self.wf(),
            0 <= i < self.chunks@.len(),
            self.chunks@[i].coord() == c,
        ensures
            self.chunk_map().contains_key(c),
            self.chunk_map()[c] == self.chunks@[i].blocks(),
    {
        let j = choose|j: int|
            0 <= j < self.chunks@.len() && (#[trigger] self.chunks@[j]).coord() == c;
        if i < j {
            assert(self.chunks@[i].coord() != self.chunks@[j].coord());
        } else if j < i {
            assert(self.chunks@[j].coord() != self.chunks@[i].coord());
        }
    }

    /// Constructs an empty world: every coordinate resolves to air.
    pub fn new() -> (w: World)
        ensures
            w.wf(),
            w.chunk_map() == Map::<Position, Seq<u16>>::empty(),
    {
        let w = World { chunks: Vec::new() };
        proof {
            assert(w.chunk_map() =~= Map::<Position, Seq<u16>>::empty());
        }
        w
    }

    /// Inserts `chunk`; a chunk already stored under the same coordinate is
    /// replaced.
    pub fn add_chunk(&mut self, chunk: Chunk)
        requires
            old(self).wf(),
            chunk.wf(),
        ensures
            final(self).wf(),
            final(self).chunk_map() == old(self).chunk_map().insert(
                chunk.coord(),
                chunk.blocks(),
            ),
    {
        let n = self.chunks.len();
        let mut i: usize = 0;
        while i < n
            invariant
                *self == *old(self),
                old(self).wf(),
                chunk.wf(),
                n == self.chunks@.len(),
                0 <= i <= n,
                forall|j: int| 0 <= j < i ==> (#[trigger] self.chunks@[j]).coord() != chunk.coord(),
            decreases n - i,
        {
            if self.chunks[i].position == chunk.position {
                let ghost prev = *self;
                self.chunks.set(i, chunk);
                proof {
                    self.lemma_replaced_map(prev, i as int, chunk);
                }
                return ;
            }
            i = i + 1;
        }
        self.chunks.push(chunk);
        proof {
            self.lemma_pushed_map(*old(self), chunk);
        }
    }

    /// After replacing the chunk at index `i`, the chunk map gained exactly
    /// the new entry.
    proof fn lemma_replaced_map(self, prev: World, i: int, chunk: Chunk)
        requires
            prev.wf(),
            chunk.wf(),
            0 <= i < prev.chunks@.len(),
            prev.chunks@[i].coord() == chunk.coord(),
            self.chunks@ == prev.chunks@.update(i, chunk),
        ensures
            self.wf(),
            self.chunk_map() == prev.chunk_map().insert(chunk.coord(), chunk.blocks()),
    {
        assert forall|a: int, b: int| 0 <= a < b < self.chunks@.len() implies self.chunks@[a].coord()
            != self.chunks@[b].coord() by {
            assert(prev.chunks@[a].coord() == self.chunks@[a].coord() || a == i);
            assert(prev.chunks@[b].coord() == self.chunks@[b].coord() || b == i);
        }
        let m1 = self.chunk_map();
        let m2 = prev.chunk_map().insert(chunk.coord(), chunk.blocks());
        assert forall|c: Position| m1.contains_key(c) implies m2.contains_key(c) && m1[c] == m2[c] by {
            let j = choose|j: int|
                0 <= j < self.chunks@.len() && (#[trigger] self.chunks@[j]).coord() == c;
            if j == i {
                self.lemma_index_agrees(j, c);
            } else {
                self.lemma_index_agrees(j, c);
                prev.lemma_index_agrees(j, c);
                assert(c != chunk.coord()) by {
                    if c == chunk.coord() {
                        assert(prev.chunks@[j].coord() == prev.chunks@[i].coord());
                    }
                }
            }
        }
        assert forall|c: Position| m2.contains_key(c) implies m1.contains_key(c) by {
            if c == chunk.coord() {
                assert(self.chunks@[i].coord() == c);
            } else {
                let j = choose|j: int|
                    0 <= j < prev.chunks@.len() && (#[trigger] prev.chunks@[j]).coord() == c;
                assert(self.chunks@[j].coord() == c);
            }
        }
        assert(m1 =~= m2);
    }

    /// After appending a chunk under a fresh coordinate, the chunk map gained
    /// exactly the new entry.
    proof fn lemma_pushed_map(self, prev: World, chunk: Chunk)
        requires
            prev.wf(),
            chunk.wf(),
            forall|j: int|
                0 <= j < prev.chunks@.len() ==> (#[trigger] prev.chunks@[j]).coord()
                    != chunk.coord(),
            self.chunks@ == prev.chunks@.push(chunk),
        ensures
            self.wf(),
            self.chunk_map() == prev.chunk_map().insert(chunk.coord(), chunk.blocks()),
    {
        let n = prev.chunks@.len() as int;
        assert forall|a: int, b: int| 0 <= a < b < self.chunks@.len() implies self.chunks@[a].coord()
            != self.chunks@[b].coord() by {
            if b < n {
                assert(prev.chunks@[a].coord() != prev.chunks@[b].coord());
            } else {
                assert(self.chunks@[b] == chunk && self.chunks@[a] == prev.chunks@[a]);
            }
        }
        let m1 = self.chunk_map();
        let m2 = prev.chunk_map().insert(chunk.coord(), chunk.blocks());
        assert forall|c: Position| m1.contains_key(c) implies m2.contains_key(c) && m1[c] == m2[c] by {
            let j = choose|j: int|
                0 <= j < self.chunks@.len() && (#[trigger] self.chunks@[j]).coord() == c;
            self.lemma_index_agrees(j, c);
            if j == n {
                assert(c == chunk.coord());
            } else {
                prev.lemma_index_agrees(j, c);
                assert(c != chunk.coord());
            }
        }
        assert forall|c: Position| m2.contains_key(c) implies m1.contains_key(c) by {
            if c == chunk.coord() {
                assert(self.chunks@[n].coord() == c);
            } else {
                let j = choose|j: int|
                    0 <= j < prev.chunks@.len() && (#[trigger] prev.chunks@[j]).coord() == c;
                assert(self.chunks@[j].coord() == c);
            }
        }
        assert(m1 =~= m2);
    }

    /// Borrows the chunk stored at chunk coordinate `chunk_position`, if one
    /// is loaded.  A mesher borrows its chunk from here and is handed the
    /// world again for neighbour lookups.
    pub fn get_chunk(&self, chunk_position: &Position) -> (r: Option<&Chunk>)
        requires
            self.wf(),
        ensures
            match r {
                Some(c) => {
                    &&& self.chunk_map().contains_key(*chunk_position)
                    &&& c.wf()
                    &&& c.coord() == *chunk_position
                    &&& c.blocks() == self.chunk_map()[*chunk_position]
                },
                None => !self.chunk_map().contains_key(*chunk_position),
            },
    {
        let n = self.chunks.len();
        let mut i: usize = 0;
        while i < n
            invariant
                self.wf(),
                n == self.chunks@.len(),
                0 <= i <= n,
                forall|j: int|
                    0 <= j < i ==> (#[trigger] self.chunks@[j]).coord() != *chunk_position,
            decreases n - i,
        {
            if self.chunks[i].position == *chunk_position {
                proof {
                    self.lemma_index_agrees(i as int, *chunk_position);
                }
                return Some(&self.chunks[i]);
            }
            i = i + 1;
        }
        proof {
            if self.chunk_map().contains_key(*chunk_position) {
                let j = choose|j: int|
                    0 <= j < self.chunks@.len() && (#[trigger] self.chunks@[j]).coord()
                        == *chunk_position;
                assert(self.chunks@[j].coord() == *chunk_position);
            }
        }
        None
    }

    /// Resolves a world-space block coordinate to a block identifier.  Any
    /// coordinate in an unloaded chunk resolves to air, so a mesher sees the
    /// outer shell of a bordering chunk as exposed.
    pub fn get_block(&self, position: &Position) -> (b: u16)
        requires
            self.wf(),
        ensures
            b == world_block(self.chunk_map(), position.x as int, position.y as int,
                position.z as int),
    {
        let (cx, lx) = floor_div_mod_16(position.x);
        let (cy, ly) = floor_div_mod_16(position.y);
        let (cz, lz) = floor_div_mod_16(position.z);
        let chunk_position = Position::new(cx, cy, cz);
        let n = self.chunks.len();
        let mut i: usize = 0;
        while i < n
            invariant
                self.wf(),
                n == self.chunks@.len(),
                0 <= i <= n,
                0 <= lx < 16,
                0 <= ly < 16,
                0 <= lz < 16,
                lx == local_coord(position.x as int),
                ly == local_coord(position.y as int),
                lz == local_coord(position.z as int),
                chunk_position.x == chunk_coord(position.x as int),
                chunk_position.y == chunk_coord(position.y as int),
                chunk_position.z == chunk_coord(position.z as int),
                forall|j: int|
                    0 <= j < i ==> (#[trigger] self.chunks@[j]).coord() != chunk_position,
            decreases n - i,
        {
            if self.chunks[i].position == chunk_position {
                proof {
                    self.lemma_index_agrees(i as int, chunk_position);
                }
                let local = Position::new(lx, ly, lz);
                return self.chunks[i].get_block(&local);
            }
            i = i + 1;
        }
        proof {
            if self.chunk_map().contains_key(chunk_position) {
                let j = choose|j: int|
                    0 <= j < self.chunks@.len() && (#[trigger] self.chunks@[j]).coord()
                        == chunk_position;
                assert(self.chunks@[j].coord() == chunk_position);
            }
        }
        BLOCK_TYPE_AIR
    }
}

/// Floor division and floor modulo of a world coordinate by 16, for any
/// signed input: the remainder is always in `[0, 16)`.
pub fn floor_div_mod_16(a: i64) -> (r: (i64, i64))
    ensures
        r.0 == chunk_coord(a as int),
        r.1 == local_coord(a as int),
        0 <= r.1 < 16,
{
    if a >= 0 {
        let au = a as u64;
        let q = au / 16;
        let rem = au % 16;
        proof {
            lemma_fundamental_div_mod_converse(a as int, 16, q as int, rem as int);
        }
        (q as i64, rem as i64)
    } else {
        let m = -(a + 1);
        let mu = m as u64;
        let q = mu / 16;
        let rem = mu % 16;
        proof {
            lemma_fundamental_div_mod_converse(a as int, 16, -(q as int) - 1, 15 - rem);
        }
        (-(q as i64) - 1, 15 - (rem as i64))
    }
}

/// A block written at one local position is read back unchanged, and every
/// other valid local position still reads what it held before.
pub proof fn lemma_set_get_round_trip(data: Seq<u16>, b: u16, p: Position, q: Position)
    requires
        data.len() == 4096,
        valid_local(p),
        valid_local(q),
    ensures
        data.update(linear_index(p), b)[linear_index(p)] == b,
        p != q ==> data.update(linear_index(p), b)[linear_index(q)] == data[linear_index(q)],
{
    lemma_linear_index_bounds(p);
    lemma_linear_index_bounds(q);
    if p != q {
        if linear_index(p) == linear_index(q) {
            lemma_linear_index_injective(p, q);
        }
    }
}

/// World resolution: a coordinate inside a loaded chunk at chunk coordinate
/// `c` reads that chunk's block at the offset `(px, py, pz) - 16 * c`, and a
/// coordinate in an unloaded chunk reads air.
pub proof fn lemma_world_resolution(m: Map<Position, Seq<u16>>, c: Position, px: int, py: int, pz: int)
    requires
        chunk_coord(px) == c.x,
        chunk_coord(py) == c.y,
        chunk_coord(pz) == c.z,
    ensures
        m.contains_key(c) ==> world_block(m, px, py, pz) == m[c][linear_index(
            Position {
                x: (px - 16 * c.x) as i64,
                y: (py - 16 * c.y) as i64,
                z: (pz - 16 * c.z) as i64,
            },
        )],
        !m.contains_key(c) ==> world_block(m, px, py, pz) == BLOCK_TYPE_AIR,
{
    vstd::arithmetic::div_mod::lemma_fundamental_div_mod(px, 16);
    vstd::arithmetic::div_mod::lemma_fundamental_div_mod(py, 16);
    vstd::arithmetic::div_mod::lemma_fundamental_div_mod(pz, 16);
}

} // verus!

//! The face-culling chunk mesher.
//!
//! [`ChunkBuilder::build_mesh`] walks every cell of one chunk in `x`, `y`,
//! `z` order and, for each solid block, emits one quad per face whose
//! neighbouring block resolves to air through the world (an unloaded
//! neighbour chunk counts as air).  Face geometry is emitted in chunk-local
//! coordinates; the caller places the mesh in world space with a model
//! transform.
//!
//! The exact mesh is pinned by the specification functions below:
//! [`mesh_vertices`] gives the emitted vertex sequence, and together with
//! the triangulation of [`crate::buffer_builder::quad_index_run`] it
//! determines the returned byte buffers bit for bit.

use vstd::prelude::*;
use crate::buffer_builder::{
    index_at, indices_bytes, lemma_index_run_bounds, quad_index_run, vertices_bytes,
    BufferBuilder, Vertex,
};
use crate::world::{
    linear_index, valid_local, world_block, Chunk, Position, World, BLOCK_TYPE_AIR, CHUNK_SIZE_X,
    CHUNK_SIZE_Y, CHUNK_SIZE_Z,
};

verus! {

/// The six cardinal face directions, in emission order: bottom `-Y`,
/// top `+Y`, west `-X`, east `+X`, north `+Z`, south `-Z`.  `face_delta_*`
/// give the offset of the neighbouring block a face is tested against.
pub open spec fn face_delta_x(d: int) -> int {
    if d == 2 {
        -1
    } else if d == 3 {
        1
    } else {
        0
    }
}

pub open spec fn face_delta_y(d: int) -> int {
    if d == 0 {
        -1
    } else if d == 1 {
        1
    } else {
        0
    }
}

pub open spec fn face_delta_z(d: int) -> int {
    if d == 4 {
        1
    } else if d == 5 {
        -1
    } else {
        0
    }
}

/// A quad corner at position `(x, y, z)` with texture coordinate `(u, v)`.
pub open spec fn corner(x: int, y: int, z: int, u: int, v: int) -> Vertex {
    Vertex { x: x as u8, y: y as u8, z: z as u8, u: u as u8, v: v as u8 }
}

/// The quad emitted for face `d` of the unit cube whose minimum corner is
/// the chunk-local position `(x, y, z)`: the four corners in top-left,
/// top-right, bottom-right, bottom-left order, with their texture
/// coordinates.  Together with the triangulation rule this winding yields
/// outward-facing triangles.
pub open spec fn face_quad(d: int, x: int, y: int, z: int) -> Seq<Vertex> {
    if d == 0 {
        seq![
            corner(x + 1, y, z, 1, 0),
            corner(x, y, z, 0, 0),
            corner(x, y, z + 1, 0, 1),
            corner(x + 1, y, z + 1, 1, 1),
        ]
    } else if d == 1 {
        seq![
            corner(x, y + 1, z, 0, 1),
            corner(x + 1, y + 1, z, 1, 1),
            corner(x + 1, y + 1, z + 1, 1, 0),
            corner(x, y + 1, z + 1, 0, 0),
        ]
    } else if d == 2 {
        seq![
            corner(x, y + 1, z, 1, 0),
            corner(x, y + 1, z + 1, 0, 0),
            corner(x, y, z + 1, 0, 1),
            corner(x, y, z, 1, 1),
        ]
    } else if d == 3 {
        seq![
            corner(x + 1, y + 1, z + 1, 1, 0),
            corner(x + 1, y + 1, z, 0, 0),
            corner(x + 1, y, z, 0, 1),
            corner(x + 1, y, z + 1, 1, 1),
        ]
    } else if d == 4 {
        seq![
            corner(x, y + 1, z + 1, 1, 0),
            corner(x + 1, y + 1, z + 1, 0, 0),
            corner(x + 1, y, z + 1, 0, 1),
            corner(x, y, z + 1, 1, 1),
        ]
    } else {
        seq![
            corner(x, y, z, 0, 1),
            corner(x + 1, y, z, 1, 1),
            corner(x + 1, y + 1, z, 1, 0),
            corner(x, y + 1, z, 0, 0),
        ]
    }
}

/// Whether face `d` of the cell at chunk-local `(x, y, z)` in the chunk at
/// chunk coordinate `cpos` is exposed: its neighbouring block, resolved
/// through the world, is air.
pub open spec fn face_exposed(
    m: Map<Position, Seq<u16>>,
    cpos: Position,
    x: int,
    y: int,
    z: int,
    d: int,
) -> bool {
    world_block(
        m,
        16 * cpos.x + x + face_delta_x(d),
        16 * cpos.y + y + face_delta_y(d),
        16 * cpos.z + z + face_delta_z(d),
    ) == BLOCK_TYPE_AIR
}

/// The vertices a solid cell emits for the face directions below `d`, in
/// direction order.
pub open spec fn cell_faces_upto(
    m: Map<Position, Seq<u16>>,
    cpos: Position,
    x: int,
    y: int,
    z: int,
    d: int,
) -> Seq<Vertex>
    decreases d,
{
    if d <= 0 {
        Seq::empty()
    } else {
        cell_faces_upto(m, cpos, x, y, z, d - 1) + if face_exposed(m, cpos, x, y, z, d - 1) {
            face_quad(d - 1, x, y, z)
        } else {
            Seq::empty()
        }
    }
}

/// The vertices the cell at chunk-local `(x, y, z)` emits: none for an air
/// block, and one quad per exposed face for a solid block.
pub open spec fn cell_vertices(
    m: Map<Position, Seq<u16>>,
    cpos: Position,
    blocks: Seq<u16>,
    x: int,
    y: int,
    z: int,
) -> Seq<Vertex> {
    if blocks[linear_index(Position { x: x as i64, y: y as i64, z: z as i64 })]
        == BLOCK_TYPE_AIR {
        Seq::empty()
    } else {
        cell_faces_upto(m, cpos, x, y, z, 6)
    }
}

/// Cell traversal order: `x` outermost, then `y`, then `z`; cell number `n`
/// is the cell at `(n / 256, (n / 16) % 16, n % 16)`.
pub open spec fn cell_x(n: int) -> int {
    n / 256
}

pub open spec fn cell_y(n: int) -> int {
    (n / 16) % 16
}

pub open spec fn cell_z(n: int) -> int {
    n % 16
}

/// The vertices emitted by the first `n` cells, in traversal order.
pub open spec fn mesh_vertices_upto(
    m: Map<Position, Seq<u16>>,
    cpos: Position,
    blocks: Seq<u16>,
    n: int,
) -> Seq<Vertex>
    decreases n,
{
    if n <= 0 {
        Seq::empty()
    } else {
        mesh_vertices_upto(m, cpos, blocks, n - 1) + cell_vertices(
            m,
            cpos,
            blocks,
            cell_x(n - 1),
            cell_y(n - 1),
            cell_z(n - 1),
        )
    }
}

/// The full vertex sequence `build_mesh` emits for a chunk with blocks
/// `blocks` at chunk coordinate `cpos`, against the world `m`.
pub open spec fn mesh_vertices(m: Map<Position, Seq<u16>>, cpos: Position, blocks: Seq<u16>) -> Seq<
    Vertex,
> {
    mesh_vertices_upto(m, cpos, blocks, 4096)
}

/// Chunk coordinates whose world-space block coordinates stay clear of the
/// ends of the signed 64-bit range.
pub open spec fn coord_in_range(c: Position) -> bool {
    &&& -0x0400_0000_0000_0000 <= c.x <= 0x0400_0000_0000_0000
    &&& -0x0400_0000_0000_0000 <= c.y <= 0x0400_0000_0000_0000
    &&& -0x0400_0000_0000_0000 <= c.z <= 0x0400_0000_0000_0000
}

/// Traversal coordinates of cell number `x * 256 + y * 16 + z`.
proof fn lemma_cell_coords(x: int, y: int, z: int)
    requires
        0 <= x < 16,
        0 <= y < 16,
        0 <= z < 16,
    ensures
        cell_x(x * 256 + y * 16 + z) == x,
        cell_y(x * 256 + y * 16 + z) == y,
        cell_z(x * 256 + y * 16 + z) == z,
{
    let n = x * 256 + y * 16 + z;
    vstd::arithmetic::div_mod::lemma_fundamental_div_mod_converse(n, 256, x, y * 16 + z);
    vstd::arithmetic::div_mod::lemma_fundamental_div_mod_converse(n, 16, x * 16 + y, z);
    vstd::arithmetic::div_mod::lemma_fundamental_div_mod_converse(x * 16 + y, 16, x, y);
}

/// A cell's face list holds whole quads: at most one per direction.
proof fn lemma_cell_faces_len(
    m: Map<Position, Seq<u16>>,
    cpos: Position,
    x: int,
    y: int,
    z: int,
    d: int,
)
    requires
        0 <= d <= 6,
    ensures
        cell_faces_upto(m, cpos, x, y, z, d).len() % 4 == 0,
        cell_faces_upto(m, cpos, x, y, z, d).len() <= 4 * d,
    decreases d,
{
    if d > 0 {
        lemma_cell_faces_len(m, cpos, x, y, z, d - 1);
    }
}

/// A mesh prefix holds whole quads: at most six per cell.
proof fn lemma_mesh_len_upto(m: Map<Position, Seq<u16>>, cpos: Position, blocks: Seq<u16>, n: int)
    requires
        0 <= n,
    ensures
        mesh_vertices_upto(m, cpos, blocks, n).len() % 4 == 0,
        mesh_vertices_upto(m, cpos, blocks, n).len() <= 24 * n,
    decreases n,
{
    if n > 0 {
        lemma_mesh_len_upto(m, cpos, blocks, n - 1);
        lemma_cell_faces_len(m, cpos, cell_x(n - 1), cell_y(n - 1), cell_z(n - 1), 6);
    }
}

/// The whole mesh holds whole quads, and never more than six per block.
pub proof fn lemma_mesh_len(m: Map<Position, Seq<u16>>, cpos: Position, blocks: Seq<u16>)
    ensures
        mesh_vertices(m, cpos, blocks).len() % 4 == 0,
        mesh_vertices(m, cpos, blocks).len() <= 98304,
{
    lemma_mesh_len_upto(m, cpos, blocks, 4096);
}

/// A chunk filled with air emits nothing, whatever the world holds.
pub proof fn lemma_air_chunk_empty_mesh(m: Map<Position, Seq<u16>>, cpos: Position, blocks: Seq<u16>)
    requires
        blocks.len() == 4096,
        forall|i: int| 0 <= i < 4096 ==> blocks[i] == BLOCK_TYPE_AIR,
    ensures
        mesh_vertices(m, cpos, blocks) == Seq::<Vertex>::empty(),
{
    lemma_air_upto_empty(m, cpos, blocks, 4096);
}

proof fn lemma_air_upto_empty(m: Map<Position, Seq<u16>>, cpos: Position, blocks: Seq<u16>, n: int)
    requires
        blocks.len() == 4096,
        0 <= n <= 4096,
        forall|i: int| 0 <= i < 4096 ==> blocks[i] == BLOCK_TYPE_AIR,
    ensures
        mesh_vertices_upto(m, cpos, blocks, n) == Seq::<Vertex>::empty(),
    decreases n,
{
    if n > 0 {
        lemma_air_upto_empty(m, cpos, blocks, n - 1);
        lemma_cell_coord_bounds(n - 1);
        let p = Position {
            x: cell_x(n - 1) as i64,
            y: cell_y(n - 1) as i64,
            z: cell_z(n - 1) as i64,
        };
        crate::world::lemma_linear_index_bounds(p);
        assert(mesh_vertices_upto(m, cpos, blocks, n) =~= Seq::<Vertex>::empty());
    }
}

/// Traversal coordinates of any cell number are chunk-local.
proof fn lemma_cell_coord_bounds(n: int)
    requires
        0 <= n < 4096,
    ensures
        0 <= cell_x(n) < 16,
        0 <= cell_y(n) < 16,
        0 <= cell_z(n) < 16,
        n == cell_x(n) * 256 + cell_y(n) * 16 + cell_z(n),
{
    vstd::arithmetic::div_mod::lemma_fundamental_div_mod(n, 16);
    vstd::arithmetic::div_mod::lemma_fundamental_div_mod(n / 16, 16);
    assert((n / 16) / 16 == n / 256) by {
        vstd::arithmetic::div_mod::lemma_div_denominator(n, 16, 16);
    }
    vstd::arithmetic::div_mod::lemma_div_pos_is_pos(n, 16);
    vstd::arithmetic::div_mod::lemma_div_pos_is_pos(n / 16, 16);
}

/// Meshing is deterministic: the emitted buffers are a function of the
/// world's chunk map and the chunk's coordinate and blocks alone, so two
/// builds on identical inputs yield byte-identical vertex and index
/// buffers.
pub proof fn lemma_mesh_deterministic(
    m1: Map<Position, Seq<u16>>,
    c1: Position,
    b1: Seq<u16>,
    m2: Map<Position, Seq<u16>>,
    c2: Position,
    b2: Seq<u16>,
)
    requires
        m1 == m2,
        c1 == c2,
        b1 == b2,
    ensures
        vertices_bytes(mesh_vertices(m1, c1, b1)) == vertices_bytes(mesh_vertices(m2, c2, b2)),
        indices_bytes(quad_index_run(mesh_vertices(m1, c1, b1).len() as int / 4)) == indices_bytes(
            quad_index_run(mesh_vertices(m2, c2, b2).len() as int / 4),
        ),
{
}

/// Builds the mesh of one chunk.  It borrows the chunk for its lifetime and
/// the world for the duration of one [`ChunkBuilder::build_mesh`] call.
pub struct ChunkBuilder<'a> {
    chunk: &'a Chunk,
    buffer_builder: BufferBuilder,
}

impl<'a> ChunkBuilder<'a> {
    /// The chunk being meshed.
    pub closed spec fn chunk(self) -> Chunk {
        *self.chunk
    }

    /// The quad accumulator.
    pub closed spec fn buffer(self) -> BufferBuilder {
        self.buffer_builder
    }

    pub open spec fn wf(self) -> bool {
        &&& self.chunk().wf()
        &&& self.buffer().wf()
    }

    /// Nothing has been emitted yet.
    pub open spec fn fresh(self) -> bool {
        self.buffer().verts().len() == 0
    }

    pub fn new(chunk: &'a Chunk) -> (b: ChunkBuilder<'a>)
        requires
            chunk.wf(),
        ensures
            b.wf(),
            b.fresh(),
            b.chunk() == *chunk,
    {
        ChunkBuilder { chunk, buffer_builder: BufferBuilder::new() }
    }

    /// Emits face `-Y` of the block at chunk-local `block_position`.
    fn add_bottom_face(&mut self, block_position: &Position)
        requires
            old(self).buffer().wf(),
            old(self).buffer().verts().len() + 8 <= u32::MAX,
            valid_local(*block_position),
        ensures
            final(self).chunk() == old(self).chunk(),
            final(self).buffer().wf(),
            final(self).buffer().verts() == old(self).buffer().verts() + face_quad(
                0,
                block_position.x as int,
                block_position.y as int,
                block_position.z as int,
            ),
    {
        let x = block_position.x;
        let y = block_position.y;
        let z = block_position.z;
        let tl = Vertex { x: (x + 1) as u8, y: y as u8, z: z as u8, u: 1, v: 0 };
        let tr = Vertex { x: x as u8, y: y as u8, z: z as u8, u: 0, v: 0 };
        let br = Vertex { x: x as u8, y: y as u8, z: (z + 1) as u8, u: 0, v: 1 };
        let bl = Vertex { x: (x + 1) as u8, y: y as u8, z: (z + 1) as u8, u: 1, v: 1 };
        self.buffer_builder.add_quad(tl, tr, br, bl);
        proof {
            assert(seq![tl, tr, br, bl] =~= face_quad(0, x as int, y as int, z as int));
        }
    }

    /// Emits face `+Y` of the block at chunk-local `block_position`.
    fn add_top_face(&mut self, block_position: &Position)
        requires
            old(self).buffer().wf(),
            old(self).buffer().verts().len() + 8 <= u32::MAX,
            valid_local(*block_position),
        ensures
            final(self).chunk() == old(self).chunk(),
            final(self).buffer().wf(),
            final(self).buffer().verts() == old(self).buffer().verts() + face_quad(
                1,
                block_position.x as int,
                block_position.y as int,
                block_position.z as int,
            ),
    {
        let x = block_position.x;
        let y = block_position.y;
        let z = block_position.z;
        let tl = Vertex { x: x as u8, y: (y + 1) as u8, z: z as u8, u: 0, v: 1 };
        let tr = Vertex { x: (x + 1) as u8, y: (y + 1) as u8, z: z as u8, u: 1, v: 1 };
        let br = Vertex { x: (x + 1) as u8, y: (y + 1) as u8, z: (z + 1) as u8, u: 1, v: 0 };
        let bl = Vertex { x: x as u8, y: (y + 1) as u8, z: (z + 1) as u8, u: 0, v: 0 };
        self.buffer_builder.add_quad(tl, tr, br, bl);
        proof {
            assert(seq![tl, tr, br, bl] =~= face_quad(1, x as int, y as int, z as int));
        }
    }

    /// Emits face `-X` of the block at chunk-local `block_position`.
    fn add_west_face(&mut self, block_position: &Position)
        requires
            old(self).buffer().wf(),
            old(self).buffer().verts().len() + 8 <= u32::MAX,
            valid_local(*block_position),
        ensures
            final(self).chunk() == old(self).chunk(),
            final(self).buffer().wf(),
            final(self).buffer().verts() == old(self).buffer().verts() + face_quad(
                2,
                block_position.x as int,
                block_position.y as int,
                block_position.z as int,
            ),
    {
        let x = block_position.x;
        let y = block_position.y;
        let z = block_position.z;
        let tl = Vertex { x: x as u8, y: (y + 1) as u8, z: z as u8, u: 1, v: 0 };
        let tr = Vertex { x: x as u8, y: (y + 1) as u8, z: (z + 1) as u8, u: 0, v: 0 };
        let br = Vertex { x: x as u8, y: y as u8, z: (z + 1) as u8, u: 0, v: 1 };
        let bl = Vertex { x: x as u8, y: y as u8, z: z as u8, u: 1, v: 1 };
        self.buffer_builder.add_quad(tl, tr, br, bl);
        proof {
            assert(seq![tl, tr, br, bl] =~= face_quad(2, x as int, y as int, z as int));
        }
    }

    /// Emits face `+X` of the block at chunk-local `block_position`.
    fn add_east_face(&mut self, block_position: &Position)
        requires
            old(self).buffer().wf(),
            old(self).buffer().verts().len() + 8 <= u32::MAX,
            valid_local(*block_position),
        ensures
            final(self).chunk() == old(self).chunk(),
            final(self).buffer().wf(),
            final(self).buffer().verts() == old(self).buffer().verts() + face_quad(
                3,
                block_position.x as int,
                block_position.y as int,
                block_position.z as int,
            ),
    {
        let x = block_position.x;
        let y = block_position.y;
        let z = block_position.z;
        let tl = Vertex { x: (x + 1) as u8, y: (y + 1) as u8, z: (z + 1) as u8, u: 1, v: 0 };
        let tr = Vertex { x: (x + 1) as u8, y: (y + 1) as u8, z: z as u8, u: 0, v: 0 };
        let br = Vertex { x: (x + 1) as u8, y: y as u8, z: z as u8, u: 0, v: 1 };
        let bl = Vertex { x: (x + 1) as u8, y: y as u8, z: (z + 1) as u8, u: 1, v: 1 };
        self.buffer_builder.add_quad(tl, tr, br, bl);
        proof {
            assert(seq![tl, tr, br, bl] =~= face_quad(3, x as int, y as int, z as int));
        }
    }

    /// Emits face `+Z` of the block at chunk-local `block_position`.
    fn add_north_face(&mut self, block_position: &Position)
        requires
            old(self).buffer().wf(),
            old(self).buffer().verts().len() + 8 <= u32::MAX,
            valid_local(*block_position),
        ensures
            final(self).chunk() == old(self).chunk(),
            final(self).buffer().wf(),
            final(self).buffer().verts() == old(self).buffer().verts() + face_quad(
                4,
                block_position.x as int,
                block_position.y as int,
                block_position.z as int,
            ),
    {
        let x = block_position.x;
        let y = block_position.y;
        let z = block_position.z;
        let tl = Vertex { x: x as u8, y: (y + 1) as u8, z: (z + 1) as u8, u: 1, v: 0 };
        let tr = Vertex { x: (x + 1) as u8, y: (y + 1) as u8, z: (z + 1) as u8, u: 0, v: 0 };
        let br = Vertex { x: (x + 1) as u8, y: y as u8, z: (z + 1) as u8, u: 0, v: 1 };
        let bl = Vertex { x: x as u8, y: y as u8, z: (z + 1) as u8, u: 1, v: 1 };
        self.buffer_builder.add_quad(tl, tr, br, bl);
        proof {
            assert(seq![tl, tr, br, bl] =~= face_quad(4, x as int, y as int, z as int));
        }
    }

    /// Emits face `-Z` of the block at chunk-local `block_position`.
    fn add_south_face(&mut self, block_position: &Position)
        requires
            old(self).buffer().wf(),
            old(self).buffer().verts().len() + 8 <= u32::MAX,
            valid_local(*block_position),
        ensures
            final(self).chunk() == old(self).chunk(),
            final(self).buffer().wf(),
            final(self).buffer().verts() == old(self).buffer().verts() + face_quad(
                5,
                block_position.x as int,
                block_position.y as int,
                block_position.z as int,
            ),
    {
        let x = block_position.x;
        let y = block_position.y;
        let z = block_position.z;
        let tl = Vertex { x: x as u8, y: y as u8, z: z as u8, u: 0, v: 1 };
        let tr = Vertex { x: (x + 1) as u8, y: y as u8, z: z as u8, u: 1, v: 1 };
        let br = Vertex { x: (x + 1) as u8, y: (y + 1) as u8, z: z as u8, u: 1, v: 0 };
        let bl = Vertex { x: x as u8, y: (y + 1) as u8, z: z as u8, u: 0, v: 0 };
        self.buffer_builder.add_quad(tl, tr, br, bl);
        proof {
            assert(seq![tl, tr, br, bl] =~= face_quad(5, x as int, y as int, z as int));
        }
    }

    /// Emits the quads of the one cell at chunk-local `chunk_position`: none
    /// for an air block, and one per exposed face for a solid block, in face
    /// direction order.
    #[verifier::rlimit(80)]
    fn mesh_cell(&mut self, world: &World, chunk_position: &Position)
        requires
            old(self).wf(),
            world.wf(),
            valid_local(*chunk_position),
            coord_in_range(old(self).chunk().coord()),
            old(self).buffer().verts().len() + 32 <= u32::MAX,
        ensures
            final(self).wf(),
            final(self).chunk() == old(self).chunk(),
            final(self).buffer().verts() == old(self).buffer().verts() + cell_vertices(
                world.chunk_map(),
                old(self).chunk().coord(),
                old(self).chunk().blocks(),
                chunk_position.x as int,
                chunk_position.y as int,
                chunk_position.z as int,
            ),
    {
        let ghost m = world.chunk_map();
        let ghost c0 = self.chunk().coord();
        let ghost base = self.buffer().verts();
        let ghost x = chunk_position.x as int;
        let ghost y = chunk_position.y as int;
        let ghost z = chunk_position.z as int;
        let cpos = self.chunk.position();
        let position = Position::new(
            cpos.x * CHUNK_SIZE_X + chunk_position.x,
            cpos.y * CHUNK_SIZE_Y + chunk_position.y,
            cpos.z * CHUNK_SIZE_Z + chunk_position.z,
        );
        proof {
            assert(cell_faces_upto(m, c0, x, y, z, 0) == Seq::<Vertex>::empty());
            assert(position.x as int == 16 * c0.x + x);
            assert(position.y as int == 16 * c0.y + y);
            assert(position.z as int == 16 * c0.z + z);
        }
        if self.chunk.get_block(chunk_position) == BLOCK_TYPE_AIR {
            proof {
                assert(self.buffer().verts() =~= base + cell_vertices(
                    m, c0, old(self).chunk().blocks(), x, y, z));
            }
            return ;
        }

        if world.get_block(&Position::new(position.x, position.y - 1, position.z))
            == BLOCK_TYPE_AIR {
            self.add_bottom_face(chunk_position);
        }
        proof {
            assert(self.buffer().verts() =~= base + cell_faces_upto(m, c0, x, y, z, 1));
        }

        if world.get_block(&Position::new(position.x, position.y + 1, position.z))
            == BLOCK_TYPE_AIR {
            self.add_top_face(chunk_position);
        }
        proof {
            assert(self.buffer().verts() =~= base + cell_faces_upto(m, c0, x, y, z, 2));
        }

        if world.get_block(&Position::new(position.x - 1, position.y, position.z))
            == BLOCK_TYPE_AIR {
            self.add_west_face(chunk_position);
        }
        proof {
            assert(self.buffer().verts() =~= base + cell_faces_upto(m, c0, x, y, z, 3));
        }

        if world.get_block(&Position::new(position.x + 1, position.y, position.z))
            == BLOCK_TYPE_AIR {
            self.add_east_face(chunk_position);
        }
        proof {
            assert(self.buffer().verts() =~= base + cell_faces_upto(m, c0, x, y, z, 4));
        }

        if world.get_block(&Position::new(position.x, position.y, position.z + 1))
            == BLOCK_TYPE_AIR {
            self.add_north_face(chunk_position);
        }
        proof {
            assert(self.buffer().verts() =~= base + cell_faces_upto(m, c0, x, y, z, 5));
        }

        if world.get_block(&Position::new(position.x, position.y, position.z - 1))
            == BLOCK_TYPE_AIR {
            self.add_south_face(chunk_position);
        }
        proof {
            assert(self.buffer().verts() =~= base + cell_faces_upto(m, c0, x, y, z, 6));
            assert(self.buffer().verts() =~= base + cell_vertices(
                m, c0, old(self).chunk().blocks(), x, y, z));
        }
    }

    /// Walks the chunk and returns `(vertex bytes, index bytes,
    /// index count)`.
    ///
    /// The vertex bytes are exactly the serialised [`mesh_vertices`] of the
    /// chunk against the world; the index bytes are exactly the serialised
    /// triangulation of those quads; the index count is six per quad.  Every
    /// index is strictly below the vertex count, the vertex count is a
    /// multiple of four, and the index count is a matching multiple of six.
    pub fn build_mesh(&mut self, world: &World) -> (r: (Vec<u8>, Vec<u8>, u32))
        requires
            old(self).wf(),
            old(self).fresh(),
            world.wf(),
            coord_in_range(old(self).chunk().coord()),
        ensures
            final(self).wf(),
            final(self).chunk() == old(self).chunk(),
            ({
                let vs = mesh_vertices(
                    world.chunk_map(),
                    old(self).chunk().coord(),
                    old(self).chunk().blocks(),
                );
                let nq = vs.len() as int / 4;
                &&& final(self).buffer().verts() == vs
                &&& r.0@ == vertices_bytes(vs)
                &&& r.1@ == indices_bytes(quad_index_run(nq))
                &&& r.0@.len() == 20 * vs.len()
                &&& r.1@.len() == 4 * (6 * nq)
                &&& r.2 == 6 * nq
                &&& vs.len() % 4 == 0
                &&& r.2 % 6 == 0
                &&& forall|k: int| 0 <= k < 6 * nq ==> 0 <= #[trigger] index_at(k) < vs.len()
            }),
    {
        let ghost m = world.chunk_map();
        let ghost blocks = self.chunk().blocks();
        let ghost c0 = self.chunk().coord();
        let cpos = self.chunk.position();

        let mut x: i64 = 0;
        while x < CHUNK_SIZE_X
            invariant
                0 <= x <= 16,
                world.wf(),
                m == world.chunk_map(),
                self.chunk() == old(self).chunk(),
                blocks == self.chunk().blocks(),
                c0 == self.chunk().coord(),
                cpos == c0,
                coord_in_range(c0),
                self.wf(),
                self.buffer().verts() == mesh_vertices_upto(m, c0, blocks, 256 * x),
            decreases 16 - x,
        {
            let mut y: i64 = 0;
            while y < CHUNK_SIZE_Y
                invariant
                    0 <= x < 16,
                    0 <= y <= 16,
                    world.wf(),
                    m == world.chunk_map(),
                    self.chunk() == old(self).chunk(),
                    blocks == self.chunk().blocks(),
                    c0 == self.chunk().coord(),
                    cpos == c0,
                    coord_in_range(c0),
                    self.wf(),
                    self.buffer().verts() == mesh_vertices_upto(m, c0, blocks, 256 * x + 16 * y),
                decreases 16 - y,
            {
                let mut z: i64 = 0;
                while z < CHUNK_SIZE_Z
                    invariant
                        0 <= x < 16,
                        0 <= y < 16,
                        0 <= z <= 16,
                        world.wf(),
                        m == world.chunk_map(),
                        self.chunk() == old(self).chunk(),
                        blocks == self.chunk().blocks(),
                        c0 == self.chunk().coord(),
                        cpos == c0,
                        coord_in_range(c0),
                        self.wf(),
                        self.buffer().verts() == mesh_vertices_upto(
                            m,
                            c0,
                            blocks,
                            256 * x + 16 * y + z,
                        ),
                    decreases 16 - z,
                {
                    let ghost n = 256 * x + 16 * y + z;
                    proof {
                        lemma_cell_coords(x as int, y as int, z as int);
                        lemma_mesh_len_upto(m, c0, blocks, n);
                    }
                    let chunk_position = Position::new(x, y, z);
                    self.mesh_cell(world, &chunk_position);
                    proof {
                        assert(self.buffer().verts() =~= mesh_vertices_upto(m, c0, blocks, n + 1));
                    }
                    z = z + 1;
                }
                y = y + 1;
            }
            x = x + 1;
        }

        proof {
            lemma_mesh_len(m, c0, blocks);
            let vs = mesh_vertices(m, c0, blocks);
            let nq = vs.len() as int / 4;
            assert(self.buffer().verts() == vs);
            assert(self.buffer().quad_count() == nq);
            lemma_index_run_bounds(nq);
        }
        let (vertex_out, index_out, count) = self.buffer_builder.build();
        proof {
            let nq = mesh_vertices(m, c0, blocks).len() as int / 4;
            assert(self.buffer().idxs().len() == 6 * nq);
            assert(index_out@.len() == 4 * (6 * nq));
        }
        (vertex_out, index_out, count)
    }
}

} // verus!

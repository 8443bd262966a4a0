//! The mesh accumulator: receives quads and flattens them into packed
//! vertex and index buffers for indexed triangle rendering.
//!
//! A vertex is a chunk-local corner position plus a texture coordinate.  The
//! mesher only ever emits corner coordinates in `[0, 16]` and texture
//! coordinates in `[0, 1]`, so a vertex is stored as five small integers
//! here; [`BufferBuilder::build`] serialises each of them as the IEEE-754
//! binary32 value of that integer, little endian, giving the packed
//! `(float32 x, y, z, u, v)` layout the vertex shader consumes.

use vstd::prelude::*;

verus! {

/// One mesh vertex: a chunk-local corner position `(x, y, z)`, each
/// component in `[0, 16]`, and a texture coordinate `(u, v)` in `[0, 1]`.
#[derive(Clone, Copy, PartialEq, Eq, Structural, Debug)]
pub struct Vertex {
    pub x: u8,
    pub y: u8,
    pub z: u8,
    pub u: u8,
    pub v: u8,
}

/// The coordinate ranges a mesh vertex may use.
pub open spec fn vertex_in_range(vx: Vertex) -> bool {
    &&& vx.x <= 16
    &&& vx.y <= 16
    &&& vx.z <= 16
    &&& vx.u <= 1
    &&& vx.v <= 1
}

/// The IEEE-754 binary32 bit pattern of the small non-negative integer `n`.
/// Only `0 ..= 16` ever occur in a mesh: corner coordinates and texture
/// coordinates.
pub open spec fn float_bits(n: int) -> u32 {
    if n <= 0 {
        0
    } else if n == 1 {
        0x3F80_0000
    } else if n == 2 {
        0x4000_0000
    } else if n == 3 {
        0x4040_0000
    } else if n == 4 {
        0x4080_0000
    } else if n == 5 {
        0x40A0_0000
    } else if n == 6 {
        0x40C0_0000
    } else if n == 7 {
        0x40E0_0000
    } else if n == 8 {
        0x4100_0000
    } else if n == 9 {
        0x4110_0000
    } else if n == 10 {
        0x4120_0000
    } else if n == 11 {
        0x4130_0000
    } else if n == 12 {
        0x4140_0000
    } else if n == 13 {
        0x4150_0000
    } else if n == 14 {
        0x4160_0000
    } else if n == 15 {
        0x4170_0000
    } else {
        0x4180_0000
    }
}

/// The four bytes of a 32-bit word, little endian.
pub open spec fn le_bytes_32(w: u32) -> Seq<u8> {
    seq![
        (w & 0xFF) as u8,
        ((w >> 8) & 0xFF) as u8,
        ((w >> 16) & 0xFF) as u8,
        ((w >> 24) & 0xFF) as u8,
    ]
}

/// The 20-byte serialised form of one vertex: five binary32 values, little
/// endian, no padding.
pub open spec fn vertex_bytes(vx: Vertex) -> Seq<u8> {
    le_bytes_32(float_bits(vx.x as int)) + le_bytes_32(float_bits(vx.y as int)) + le_bytes_32(
        float_bits(vx.z as int),
    ) + le_bytes_32(float_bits(vx.u as int)) + le_bytes_32(float_bits(vx.v as int))
}

/// The serialised form of a vertex array: the vertices' records in order.
pub open spec fn vertices_bytes(s: Seq<Vertex>) -> Seq<u8>
    decreases s.len(),
{
    if s.len() == 0 {
        Seq::empty()
    } else {
        vertices_bytes(s.drop_last()) + vertex_bytes(s.last())
    }
}

/// The serialised form of an index array: each index as four bytes, little
/// endian.
pub open spec fn indices_bytes(s: Seq<u32>) -> Seq<u8>
    decreases s.len(),
{
    if s.len() == 0 {
        Seq::empty()
    } else {
        indices_bytes(s.drop_last()) + le_bytes_32(s.last())
    }
}

/// The triangulation pattern of one quad: with four vertices at offsets
/// `o, o+1, o+2, o+3` (top-left, top-right, bottom-right, bottom-left), the
/// two triangles are `(o, o+1, o+2)` and `(o+2, o+3, o)`.
pub open spec fn triangle_pattern(j: int) -> int {
    if j == 0 {
        0
    } else if j == 1 {
        1
    } else if j == 2 {
        2
    } else if j == 3 {
        2
    } else if j == 4 {
        3
    } else {
        0
    }
}

/// The `k`th entry of the index array: quad `k / 6`'s vertices start at
/// offset `4 * (k / 6)`, and entry `k % 6` of the triangulation pattern is
/// added to that.
pub open spec fn index_at(k: int) -> int {
    4 * (k / 6) + triangle_pattern(k % 6)
}

/// The full index array for `nq` quads.
pub open spec fn quad_index_run(nq: int) -> Seq<u32> {
    Seq::new((6 * nq) as nat, |k: int| index_at(k) as u32)
}

/// Every entry of the index array for `nq` quads is strictly below the
/// vertex count `4 * nq`.
pub proof fn lemma_index_run_bounds(nq: int)
    requires
        0 <= nq,
        4 * nq <= u32::MAX,
    ensures
        forall|k: int|
            0 <= k < 6 * nq ==> 0 <= #[trigger] index_at(k) && index_at(k) < 4 * nq && index_at(k)
                == quad_index_run(nq)[k] as int,
{
    assert forall|k: int| 0 <= k < 6 * nq implies 0 <= #[trigger] index_at(k) && index_at(k) < 4
        * nq && index_at(k) == quad_index_run(nq)[k] as int by {
        assert(0 <= k / 6 < nq) by {
            vstd::arithmetic::div_mod::lemma_fundamental_div_mod(k, 6);
        }
        assert(0 <= k % 6 < 6);
        assert(4 * (k / 6) + 3 < 4 * nq) by {
            vstd::arithmetic::mul::lemma_mul_inequality(k / 6 + 1, nq, 4);
        }
    }
}

/// Accumulates an interleaved vertex list and an index list; one call of
/// [`BufferBuilder::add_quad`] appends four vertices and the six indices of
/// the quad's two triangles.
#[derive(Debug)]
pub struct BufferBuilder {
    vertices: Vec<Vertex>,
    indices: Vec<u32>,
}

impl BufferBuilder {
    /// The accumulated vertices, in emission order.
    pub closed spec fn verts(self) -> Seq<Vertex> {
        self.vertices@
    }

    /// The accumulated indices, in emission order.
    pub closed spec fn idxs(self) -> Seq<u32> {
        self.indices@
    }

    /// The number of whole quads accumulated.
    pub open spec fn quad_count(self) -> int {
        self.verts().len() as int / 4
    }

    /// The vertex list holds whole quads of in-range vertices, and the index
    /// list is exactly the triangulation of those quads.
    pub open spec fn wf(self) -> bool {
        &&& self.verts().len() % 4 == 0
        &&& self.verts().len() <= u32::MAX - 4
        &&& forall|i: int| 0 <= i < self.verts().len() ==> vertex_in_range(#[trigger] self.verts()[i])
        &&& self.idxs() == quad_index_run(self.quad_count())
    }

    /// Constructs an empty accumulator.
    pub fn new() -> (b: BufferBuilder)
        ensures
            b.wf(),
            b.verts().len() == 0,
            b.idxs().len() == 0,
    {
        let b = BufferBuilder { vertices: Vec::new(), indices: Vec::new() };
        proof {
            assert(b.idxs() =~= quad_index_run(0));
        }
        b
    }

    /// Appends the four vertices of one quad, top-left first, then the six
    /// indices of its two triangles.
    pub fn add_quad(&mut self, tl: Vertex, tr: Vertex, br: Vertex, bl: Vertex)
        requires
            old(self).wf(),
            old(self).verts().len() + 8 <= u32::MAX,
            vertex_in_range(tl),
            vertex_in_range(tr),
            vertex_in_range(br),
            vertex_in_range(bl),
        ensures
            final(self).wf(),
            final(self).verts() == old(self).verts() + seq![tl, tr, br, bl],
            final(self).idxs() == quad_index_run(old(self).quad_count() + 1),
    {
        let offset = self.vertices.len() as u32;
        self.vertices.push(tl);
        self.vertices.push(tr);
        self.vertices.push(br);
        self.vertices.push(bl);

        self.indices.push(offset);
        self.indices.push(offset + 1);
        self.indices.push(offset + 2);

        self.indices.push(offset + 2);
        self.indices.push(offset + 3);
        self.indices.push(offset);

        proof {
            let nq = old(self).quad_count();
            assert(old(self).verts().len() == 4 * nq);
            assert(self.verts() =~= old(self).verts() + seq![tl, tr, br, bl]);
            assert(self.verts().len() == 4 * (nq + 1));
            assert(self.quad_count() == nq + 1) by {
                vstd::arithmetic::div_mod::lemma_div_multiples_vanish(nq + 1, 4);
            }
            assert(self.verts().len() % 4 == 0) by {
                vstd::arithmetic::div_mod::lemma_fundamental_div_mod(self.verts().len() as int, 4);
            }
            assert forall|k: int| 0 <= k < 6 * (nq + 1) implies self.idxs()[k] == index_at(k) as u32
                by {
                if k < 6 * nq {
                    assert(self.idxs()[k] == old(self).idxs()[k]);
                    assert(old(self).idxs()[k] == quad_index_run(nq)[k]);
                } else {
                    assert(k / 6 == nq && k % 6 == k - 6 * nq) by {
                        vstd::arithmetic::div_mod::lemma_fundamental_div_mod_converse(
                            k,
                            6,
                            nq,
                            k - 6 * nq,
                        );
                    }
                    assert(offset == 4 * nq);
                }
            }
            assert(self.idxs() =~= quad_index_run(nq + 1));
        }
    }

    /// Flattens the accumulated mesh to `(vertex bytes, index bytes,
    /// index count)` for an external GPU uploader.
    pub fn build(&self) -> (r: (Vec<u8>, Vec<u8>, u32))
        requires
            self.wf(),
            self.idxs().len() <= u32::MAX,
        ensures
            r.0@ == vertices_bytes(self.verts()),
            r.1@ == indices_bytes(self.idxs()),
            r.0@.len() == 20 * self.verts().len(),
            r.1@.len() == 4 * self.idxs().len(),
            r.2 == self.idxs().len(),
    {
        let mut vertex_out: Vec<u8> = Vec::new();
        let n = self.vertices.len();
        let mut i: usize = 0;
        while i < n
            invariant
                self.wf(),
                n == self.verts().len(),
                0 <= i <= n,
                vertex_out@ == vertices_bytes(self.verts().take(i as int)),
                vertex_out@.len() == 20 * i,
            decreases n - i,
        {
            let vx = self.vertices[i];
            push_float_le(&mut vertex_out, vx.x);
            push_float_le(&mut vertex_out, vx.y);
            push_float_le(&mut vertex_out, vx.z);
            push_float_le(&mut vertex_out, vx.u);
            push_float_le(&mut vertex_out, vx.v);
            proof {
                lemma_vertices_bytes_step(self.verts(), i as int);
            }
            i = i + 1;
        }
        proof {
            assert(self.verts().take(n as int) =~= self.verts());
        }

        let mut index_out: Vec<u8> = Vec::new();
        let m = self.indices.len();
        let mut k: usize = 0;
        while k < m
            invariant
                self.wf(),
                m == self.idxs().len(),
                0 <= k <= m,
                index_out@ == indices_bytes(self.idxs().take(k as int)),
                index_out@.len() == 4 * k,
            decreases m - k,
        {
            let w = self.indices[k];
            push_word_le(&mut index_out, w);
            proof {
                lemma_indices_bytes_step(self.idxs(), k as int);
            }
            k = k + 1;
        }
        proof {
            assert(self.idxs().take(m as int) =~= self.idxs());
        }

        let count = m as u32;
        (vertex_out, index_out, count)
    }
}

/// One step of the vertex serialisation: extending the prefix by one vertex
/// appends that vertex's record.
proof fn lemma_vertices_bytes_step(s: Seq<Vertex>, i: int)
    requires
        0 <= i < s.len(),
    ensures
        vertices_bytes(s.take(i + 1)) == vertices_bytes(s.take(i)) + vertex_bytes(s[i]),
{
    assert(s.take(i + 1).drop_last() =~= s.take(i));
    assert(s.take(i + 1).last() == s[i]);
}

/// One step of the index serialisation: extending the prefix by one index
/// appends that index's four bytes.
proof fn lemma_indices_bytes_step(s: Seq<u32>, i: int)
    requires
        0 <= i < s.len(),
    ensures
        indices_bytes(s.take(i + 1)) == indices_bytes(s.take(i)) + le_bytes_32(s[i]),
{
    assert(s.take(i + 1).drop_last() =~= s.take(i));
    assert(s.take(i + 1).last() == s[i]);
}

/// Appends the binary32 value of the small integer `n`, little endian.
fn push_float_le(out: &mut Vec<u8>, n: u8)
    requires
        n <= 16,
    ensures
        final(out)@ == old(out)@ + le_bytes_32(float_bits(n as int)),
{
    let w = float_bits_of(n);
    push_word_le(out, w);
}

/// Appends the four bytes of `w`, little endian.
fn push_word_le(out: &mut Vec<u8>, w: u32)
    ensures
        final(out)@ == old(out)@ + le_bytes_32(w),
{
    out.push((w & 0xFF) as u8);
    out.push(((w >> 8) & 0xFF) as u8);
    out.push(((w >> 16) & 0xFF) as u8);
    out.push(((w >> 24) & 0xFF) as u8);
    proof {
        assert(out@ =~= old(out)@ + le_bytes_32(w));
    }
}

/// The binary32 bit pattern of the small integer `n`.
fn float_bits_of(n: u8) -> (w: u32)
    requires
        n <= 16,
    ensures
        w == float_bits(n as int),
{
    match n {
        0 => 0,
        1 => 0x3F80_0000,
        2 => 0x4000_0000,
        3 => 0x4040_0000,
        4 => 0x4080_0000,
        5 => 0x40A0_0000,
        6 => 0x40C0_0000,
        7 => 0x40E0_0000,
        8 => 0x4100_0000,
        9 => 0x4110_0000,
        10 => 0x4120_0000,
        11 => 0x4130_0000,
        12 => 0x4140_0000,
        13 => 0x4150_0000,
        14 => 0x4160_0000,
        15 => 0x4170_0000,
        _ => 0x4180_0000,
    }
}

} // verus!

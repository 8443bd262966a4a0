use voxel_mesh::mesher::ChunkBuilder;
use voxel_mesh::world::{Chunk, Position, World, BLOCK_TYPE_AIR, BLOCK_TYPE_STONE};

fn decode_vertices(bytes: &[u8]) -> Vec<[f32; 5]> {
    assert_eq!(bytes.len() % 20, 0);
    bytes
        .chunks(20)
        .map(|rec| {
            let mut out = [0f32; 5];
            for (i, f) in rec.chunks(4).enumerate() {
                out[i] = f32::from_le_bytes([f[0], f[1], f[2], f[3]]);
            }
            out
        })
        .collect()
}

fn decode_indices(bytes: &[u8]) -> Vec<u32> {
    assert_eq!(bytes.len() % 4, 0);
    bytes
        .chunks(4)
        .map(|w| u32::from_le_bytes([w[0], w[1], w[2], w[3]]))
        .collect()
}

fn mesh_single_chunk(chunk: &Chunk, world: &World) -> (Vec<u8>, Vec<u8>, u32) {
    let mut builder = ChunkBuilder::new(chunk);
    builder.build_mesh(world)
}

#[test]
fn s3_full_stone_chunk_counts() {
    // Only the outer shell of the 16^3 cube is exposed: 6 * 256 quads.
    let mut world = World::new();
    world.add_chunk(Chunk::new(Position::new(0, 0, 0), BLOCK_TYPE_STONE));
    let chunk = world.get_chunk(&Position::new(0, 0, 0)).unwrap();
    let (vertices, indices, index_count) = mesh_single_chunk(chunk, &world);
    assert_eq!(index_count, 9216);
    assert_eq!(vertices.len(), 6144 * 20);
    assert_eq!(indices.len(), 9216 * 4);
}

#[test]
fn s4_full_air_chunk_is_empty() {
    let mut world = World::new();
    world.add_chunk(Chunk::new(Position::new(0, 0, 0), BLOCK_TYPE_AIR));
    let chunk = world.get_chunk(&Position::new(0, 0, 0)).unwrap();
    let (vertices, indices, index_count) = mesh_single_chunk(chunk, &world);
    assert_eq!(index_count, 0);
    assert_eq!(vertices.len(), 0);
    assert_eq!(indices.len(), 0);
}

#[test]
fn s5_single_block_at_origin() {
    let mut chunk = Chunk::new(Position::new(0, 0, 0), BLOCK_TYPE_AIR);
    chunk.set_block(BLOCK_TYPE_STONE, &Position::new(0, 0, 0));
    let mut world = World::new();
    world.add_chunk(chunk);
    let chunk = world.get_chunk(&Position::new(0, 0, 0)).unwrap();
    let (vertices, indices, index_count) = mesh_single_chunk(chunk, &world);
    assert_eq!(index_count, 36);
    assert_eq!(vertices.len(), 24 * 20);
    assert_eq!(indices.len(), 36 * 4);
    // The set of vertex positions is exactly the 8 corners of [0,1]^3.
    let verts = decode_vertices(&vertices);
    let mut corners: Vec<(u32, u32, u32)> = verts
        .iter()
        .map(|v| (v[0] as u32, v[1] as u32, v[2] as u32))
        .collect();
    corners.sort_unstable();
    corners.dedup();
    let mut expected = Vec::new();
    for x in 0..2 {
        for y in 0..2 {
            for z in 0..2 {
                expected.push((x, y, z));
            }
        }
    }
    assert_eq!(corners, expected);
}

#[test]
fn isolated_block_emits_six_faces() {
    // One stone block at local (8,8,8): exactly 6 quads, whose vertex
    // positions are the 8 corners of [8,9]^3, each corner on exactly 3 of
    // the quads (one per incident face).
    let mut chunk = Chunk::new(Position::new(0, 0, 0), BLOCK_TYPE_AIR);
    chunk.set_block(BLOCK_TYPE_STONE, &Position::new(8, 8, 8));
    let mut world = World::new();
    world.add_chunk(chunk);
    let chunk = world.get_chunk(&Position::new(0, 0, 0)).unwrap();
    let (vertices, _indices, index_count) = mesh_single_chunk(chunk, &world);
    assert_eq!(index_count, 36);
    let verts = decode_vertices(&vertices);
    assert_eq!(verts.len(), 24);
    let mut count_per_corner = std::collections::BTreeMap::new();
    for quad in verts.chunks(4) {
        let mut quad_corners: Vec<(u32, u32, u32)> = quad
            .iter()
            .map(|v| (v[0] as u32, v[1] as u32, v[2] as u32))
            .collect();
        quad_corners.sort_unstable();
        quad_corners.dedup();
        assert_eq!(quad_corners.len(), 4);
        for c in quad_corners {
            assert!(c.0 == 8 || c.0 == 9);
            assert!(c.1 == 8 || c.1 == 9);
            assert!(c.2 == 8 || c.2 == 9);
            *count_per_corner.entry(c).or_insert(0) += 1;
        }
    }
    assert_eq!(count_per_corner.len(), 8);
    for (_, n) in count_per_corner {
        assert_eq!(n, 3);
    }
}

#[test]
fn s6_adjacent_chunk_occludes_shared_face() {
    // Two stone chunks side by side: meshing the one at (0,0,0) emits five
    // outer faces' worth of quads; the +X face is occluded by the neighbour.
    let mut world = World::new();
    world.add_chunk(Chunk::new(Position::new(0, 0, 0), BLOCK_TYPE_STONE));
    world.add_chunk(Chunk::new(Position::new(1, 0, 0), BLOCK_TYPE_STONE));
    let chunk = world.get_chunk(&Position::new(0, 0, 0)).unwrap();
    let (vertices, indices, index_count) = mesh_single_chunk(chunk, &world);
    let quads = 6 * 256 - 256;
    assert_eq!(index_count, (quads * 6) as u32);
    assert_eq!(vertices.len(), quads * 4 * 20);
    assert_eq!(indices.len(), quads * 6 * 4);
}

#[test]
fn negative_side_neighbor_occludes() {
    // A stone neighbour at chunk coordinate (-1,0,0) occludes the west face
    // of the chunk at the origin.
    let mut world = World::new();
    world.add_chunk(Chunk::new(Position::new(0, 0, 0), BLOCK_TYPE_STONE));
    world.add_chunk(Chunk::new(Position::new(-1, 0, 0), BLOCK_TYPE_STONE));
    let chunk = world.get_chunk(&Position::new(0, 0, 0)).unwrap();
    let (_vertices, _indices, index_count) = mesh_single_chunk(chunk, &world);
    assert_eq!(index_count, ((6 * 256 - 256) * 6) as u32);
}

#[test]
fn fully_enclosed_chunk_emits_nothing() {
    // A stone chunk whose six neighbouring chunks are all stone has no
    // exposed face at all.
    let mut world = World::new();
    for at in [
        Position::new(0, 0, 0),
        Position::new(1, 0, 0),
        Position::new(-1, 0, 0),
        Position::new(0, 1, 0),
        Position::new(0, -1, 0),
        Position::new(0, 0, 1),
        Position::new(0, 0, -1),
    ] {
        world.add_chunk(Chunk::new(at, BLOCK_TYPE_STONE));
    }
    let chunk = world.get_chunk(&Position::new(0, 0, 0)).unwrap();
    let (vertices, indices, index_count) = mesh_single_chunk(chunk, &world);
    assert_eq!(index_count, 0);
    assert!(vertices.is_empty());
    assert!(indices.is_empty());
}

#[test]
fn determinism_byte_identical() {
    // Two builds on identical inputs give byte-identical buffers.
    let mut world = World::new();
    let mut chunk = Chunk::new(Position::new(0, 0, 0), BLOCK_TYPE_AIR);
    for x in 0..16 {
        for y in 0..16 {
            for z in 0..16 {
                if (x + 2 * y + 3 * z) % 5 < 2 {
                    chunk.set_block(BLOCK_TYPE_STONE, &Position::new(x, y, z));
                }
            }
        }
    }
    world.add_chunk(chunk);
    let chunk = world.get_chunk(&Position::new(0, 0, 0)).unwrap();
    let (v1, i1, n1) = mesh_single_chunk(chunk, &world);
    let (v2, i2, n2) = mesh_single_chunk(chunk, &world);
    assert_eq!(v1, v2);
    assert_eq!(i1, i2);
    assert_eq!(n1, n2);
}

#[test]
fn index_multiplicity_and_validity() {
    // index_count is divisible by 6, the vertex count by 4, the quad counts
    // agree, and every index is strictly below the vertex count.
    let mut world = World::new();
    let mut chunk = Chunk::new(Position::new(0, 0, 0), BLOCK_TYPE_AIR);
    for x in 0..16 {
        for y in 0..16 {
            for z in 0..16 {
                if (x * y + z) % 3 == 0 {
                    chunk.set_block(BLOCK_TYPE_STONE, &Position::new(x, y, z));
                }
            }
        }
    }
    world.add_chunk(chunk);
    let mesh_chunk = world.get_chunk(&Position::new(0, 0, 0)).unwrap();
    let (vertices, indices, index_count) = mesh_single_chunk(mesh_chunk, &world);
    let vertex_count = (vertices.len() / 20) as u32;
    assert_eq!(index_count % 6, 0);
    assert_eq!(vertex_count % 4, 0);
    assert_eq!(index_count / 6, vertex_count / 4);
    let idx = decode_indices(&indices);
    assert_eq!(idx.len() as u32, index_count);
    for i in idx {
        assert!(i < vertex_count);
    }
}

#[test]
fn triangulation_pattern_per_quad() {
    // Each quad at vertex offset o is triangulated (o, o+1, o+2) then
    // (o+2, o+3, o).
    let mut world = World::new();
    world.add_chunk(Chunk::new(Position::new(0, 0, 0), BLOCK_TYPE_STONE));
    let chunk = world.get_chunk(&Position::new(0, 0, 0)).unwrap();
    let (_vertices, indices, index_count) = mesh_single_chunk(chunk, &world);
    let idx = decode_indices(&indices);
    assert_eq!(idx.len() as u32, index_count);
    for (q, tri) in idx.chunks(6).enumerate() {
        let o = (q * 4) as u32;
        assert_eq!(tri, [o, o + 1, o + 2, o + 2, o + 3, o]);
    }
}

#[test]
fn face_table_single_block() {
    // The six quads of a lone block at local (0,0,0), with their exact
    // corner order and texture coordinates.  Faces come out in bottom, top,
    // west, east, north, south order.
    let mut chunk = Chunk::new(Position::new(0, 0, 0), BLOCK_TYPE_AIR);
    chunk.set_block(BLOCK_TYPE_STONE, &Position::new(0, 0, 0));
    let mut world = World::new();
    world.add_chunk(chunk);
    let chunk = world.get_chunk(&Position::new(0, 0, 0)).unwrap();
    let (vertices, _indices, _count) = mesh_single_chunk(chunk, &world);
    let verts = decode_vertices(&vertices);
    assert_eq!(verts.len(), 24);
    let expected: [[[f32; 5]; 4]; 6] = [
        // bottom (-Y)
        [
            [1., 0., 0., 1., 0.],
            [0., 0., 0., 0., 0.],
            [0., 0., 1., 0., 1.],
            [1., 0., 1., 1., 1.],
        ],
        // top (+Y)
        [
            [0., 1., 0., 0., 1.],
            [1., 1., 0., 1., 1.],
            [1., 1., 1., 1., 0.],
            [0., 1., 1., 0., 0.],
        ],
        // west (-X)
        [
            [0., 1., 0., 1., 0.],
            [0., 1., 1., 0., 0.],
            [0., 0., 1., 0., 1.],
            [0., 0., 0., 1., 1.],
        ],
        // east (+X)
        [
            [1., 1., 1., 1., 0.],
            [1., 1., 0., 0., 0.],
            [1., 0., 0., 0., 1.],
            [1., 0., 1., 1., 1.],
        ],
        // north (+Z)
        [
            [0., 1., 1., 1., 0.],
            [1., 1., 1., 0., 0.],
            [1., 0., 1., 0., 1.],
            [0., 0., 1., 1., 1.],
        ],
        // south (-Z)
        [
            [0., 0., 0., 0., 1.],
            [1., 0., 0., 1., 1.],
            [1., 1., 0., 1., 0.],
            [0., 1., 0., 0., 0.],
        ],
    ];
    for (f, quad) in expected.iter().enumerate() {
        for (k, corner) in quad.iter().enumerate() {
            assert_eq!(&verts[f * 4 + k], corner, "face {} corner {}", f, k);
        }
    }
}

#[test]
fn chunk_coordinate_does_not_move_vertices() {
    // Face geometry is emitted in chunk-local coordinates: a chunk far from
    // the origin produces the same bytes as the same chunk at the origin.
    let make_world = |at: Position| {
        let mut world = World::new();
        let mut c = Chunk::new(at, BLOCK_TYPE_AIR);
        c.set_block(BLOCK_TYPE_STONE, &Position::new(4, 5, 6));
        world.add_chunk(c);
        world
    };
    let world_origin = make_world(Position::new(0, 0, 0));
    let world_far = make_world(Position::new(-7, 3, 100));
    let (v1, i1, n1) = mesh_single_chunk(
        world_origin.get_chunk(&Position::new(0, 0, 0)).unwrap(),
        &world_origin,
    );
    let (v2, i2, n2) = mesh_single_chunk(
        world_far.get_chunk(&Position::new(-7, 3, 100)).unwrap(),
        &world_far,
    );
    assert_eq!(v1, v2);
    assert_eq!(i1, i2);
    assert_eq!(n1, n2);
}

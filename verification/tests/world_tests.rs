use voxel_mesh::world::{Chunk, Position, World, BLOCK_TYPE_AIR, BLOCK_TYPE_STONE};

#[test]
fn chunk_round_trip_indexing() {
    // Writing a block at one local position reads back the same value, and
    // every other position still reads the fill value.
    for (fill, b) in [(BLOCK_TYPE_AIR, BLOCK_TYPE_STONE), (BLOCK_TYPE_STONE, 7u16), (3u16, 0u16)] {
        for &(sx, sy, sz) in &[(0i64, 0i64, 0i64), (15, 15, 15), (8, 8, 8), (1, 2, 3), (15, 0, 7)] {
            let mut chunk = Chunk::new(Position::new(0, 0, 0), fill);
            chunk.set_block(b, &Position::new(sx, sy, sz));
            for x in 0..16 {
                for y in 0..16 {
                    for z in 0..16 {
                        let got = chunk.get_block(&Position::new(x, y, z));
                        if (x, y, z) == (sx, sy, sz) {
                            assert_eq!(got, b);
                        } else {
                            assert_eq!(got, fill);
                        }
                    }
                }
            }
        }
    }
}

#[test]
fn chunk_round_trip_every_position() {
    // Every one of the 4096 local positions takes a write and reads it back.
    let mut chunk = Chunk::new(Position::new(0, 0, 0), BLOCK_TYPE_AIR);
    for x in 0..16 {
        for y in 0..16 {
            for z in 0..16 {
                let b = (x * 256 + y * 16 + z) as u16;
                chunk.set_block(b, &Position::new(x, y, z));
                assert_eq!(chunk.get_block(&Position::new(x, y, z)), b);
            }
        }
    }
    // All writes are still in place afterwards.
    for x in 0..16 {
        for y in 0..16 {
            for z in 0..16 {
                let b = (x * 256 + y * 16 + z) as u16;
                assert_eq!(chunk.get_block(&Position::new(x, y, z)), b);
            }
        }
    }
}

#[test]
fn s1_empty_world_reads_air() {
    let world = World::new();
    assert_eq!(world.get_block(&Position::new(0, 0, 0)), BLOCK_TYPE_AIR);
}

#[test]
fn s2_world_resolution_at_chunk_borders() {
    let mut world = World::new();
    world.add_chunk(Chunk::new(Position::new(0, 0, 0), BLOCK_TYPE_STONE));
    assert_eq!(world.get_block(&Position::new(-1, 0, 0)), BLOCK_TYPE_AIR);
    assert_eq!(world.get_block(&Position::new(0, 0, 0)), BLOCK_TYPE_STONE);
    assert_eq!(world.get_block(&Position::new(15, 15, 15)), BLOCK_TYPE_STONE);
    assert_eq!(world.get_block(&Position::new(16, 0, 0)), BLOCK_TYPE_AIR);
}

#[test]
fn world_resolution_matches_chunk_lookup() {
    // For any coordinate inside a loaded chunk at chunk coordinate c, the
    // world resolves to chunk.get_block(world_pos - c * 16); every
    // coordinate of an unloaded chunk resolves to air.  Holds for negative
    // coordinates too.
    let coords = [Position::new(0, 0, 0), Position::new(-1, 2, -3), Position::new(5, -4, 1)];
    let mut world = World::new();
    for (k, c) in coords.iter().enumerate() {
        let mut chunk = Chunk::new(*c, BLOCK_TYPE_AIR);
        for x in 0..16 {
            for y in 0..16 {
                for z in 0..16 {
                    let b = ((x * 256 + y * 16 + z) as u16).wrapping_add(k as u16 * 911);
                    chunk.set_block(b, &Position::new(x, y, z));
                }
            }
        }
        world.add_chunk(chunk);
    }
    for c in coords.iter() {
        let mut reference = Chunk::new(*c, BLOCK_TYPE_AIR);
        let k = coords.iter().position(|d| d == c).unwrap();
        for x in 0..16 {
            for y in 0..16 {
                for z in 0..16 {
                    let b = ((x * 256 + y * 16 + z) as u16).wrapping_add(k as u16 * 911);
                    reference.set_block(b, &Position::new(x, y, z));
                }
            }
        }
        for x in 0..16 {
            for y in 0..16 {
                for z in 0..16 {
                    let world_pos =
                        Position::new(c.x * 16 + x, c.y * 16 + y, c.z * 16 + z);
                    assert_eq!(
                        world.get_block(&world_pos),
                        reference.get_block(&Position::new(x, y, z))
                    );
                }
            }
        }
    }
    // Unloaded chunk coordinates, including negative ones, read air.
    for p in [
        Position::new(100, 0, 0),
        Position::new(-17, 0, 0),
        Position::new(0, 33, 0),
        Position::new(-100, -100, -100),
        Position::new(16, 16, 16),
    ] {
        assert_eq!(world.get_block(&p), BLOCK_TYPE_AIR);
    }
}

#[test]
fn add_chunk_replaces_same_coordinate() {
    let mut world = World::new();
    world.add_chunk(Chunk::new(Position::new(0, 0, 0), BLOCK_TYPE_STONE));
    assert_eq!(world.get_block(&Position::new(3, 3, 3)), BLOCK_TYPE_STONE);
    world.add_chunk(Chunk::new(Position::new(0, 0, 0), BLOCK_TYPE_AIR));
    assert_eq!(world.get_block(&Position::new(3, 3, 3)), BLOCK_TYPE_AIR);
}

#[test]
fn get_chunk_borrows_the_stored_chunk() {
    let mut world = World::new();
    let mut chunk = Chunk::new(Position::new(2, -1, 0), BLOCK_TYPE_AIR);
    chunk.set_block(BLOCK_TYPE_STONE, &Position::new(1, 2, 3));
    world.add_chunk(chunk);
    assert!(world.get_chunk(&Position::new(0, 0, 0)).is_none());
    let stored = world.get_chunk(&Position::new(2, -1, 0)).unwrap();
    assert_eq!(stored.get_block(&Position::new(1, 2, 3)), BLOCK_TYPE_STONE);
    assert_eq!(stored.get_block(&Position::new(0, 0, 0)), BLOCK_TYPE_AIR);
}

#[test]
fn negative_world_coordinates_resolve_in_range() {
    // A chunk at a negative chunk coordinate: the floor modulo maps world
    // coordinate -1 to local 15 of the chunk at -1.
    let mut world = World::new();
    let mut chunk = Chunk::new(Position::new(-1, 0, 0), BLOCK_TYPE_AIR);
    chunk.set_block(BLOCK_TYPE_STONE, &Position::new(15, 0, 0));
    world.add_chunk(chunk);
    assert_eq!(world.get_block(&Position::new(-1, 0, 0)), BLOCK_TYPE_STONE);
    assert_eq!(world.get_block(&Position::new(-2, 0, 0)), BLOCK_TYPE_AIR);
    assert_eq!(world.get_block(&Position::new(-16, 0, 0)), BLOCK_TYPE_AIR);
}

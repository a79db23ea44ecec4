use dungeon_protocol::block::Block;
use dungeon_protocol::block::BlockCode;
use dungeon_protocol::block::Chunk;
use dungeon_protocol::block::Orientation;
use dungeon_protocol::map::chunk_origin;
use dungeon_protocol::map::WorldMap;

#[test]
fn map_test() {
    let mut map = WorldMap::new();
    map[(42, 5)] = Block::new(BlockCode::SimpleWall, Orientation::Down);
    map[(42, 4)] = Block::new(BlockCode::SimpleWall, Orientation::Left);
    assert_eq!(map[(42, 5)], Block::new(BlockCode::SimpleWall, Orientation::Down));
    assert_eq!(map[(42, 4)], Block::new(BlockCode::SimpleWall, Orientation::Left));
    assert_eq!(map[(41, 5)], Block::default());

    println!("{} chunks loaded", map.loaded_chunks());
}

#[test]
fn chunk_origin_is_aligned() {
    assert_eq!(chunk_origin(0), 0);
    assert_eq!(chunk_origin(7), 0);
    assert_eq!(chunk_origin(8), 8);
    assert_eq!(chunk_origin(42), 40);
    assert_eq!(chunk_origin(u64::MAX), u64::MAX - 7);
}

#[test]
fn get_chunk_of_unwritten_place_is_default_and_not_stored() {
    let map = WorldMap::new();
    let chunk = map.get_chunk(42, 5);
    assert_eq!(chunk, Chunk::new(40, 0, [[Block::default(); 8]; 8]));
    assert_eq!(map.loaded_chunks(), 0);
}

#[test]
fn first_write_stores_one_chunk() {
    let mut map = WorldMap::new();
    map[(42, 5)] = Block::new(BlockCode::SimpleWall, Orientation::Down);
    assert_eq!(map.loaded_chunks(), 1);
    map[(47, 0)] = Block::new(BlockCode::SimpleWall, Orientation::Up);
    assert_eq!(map.loaded_chunks(), 1);
    map[(48, 0)] = Block::new(BlockCode::SimpleWall, Orientation::Up);
    assert_eq!(map.loaded_chunks(), 2);

    let chunk = map.get_chunk(40, 0);
    let mut blocks = [[Block::default(); 8]; 8];
    blocks[2][5] = Block::new(BlockCode::SimpleWall, Orientation::Down);
    blocks[7][0] = Block::new(BlockCode::SimpleWall, Orientation::Up);
    assert_eq!(chunk, Chunk::new(40, 0, blocks));
    assert_eq!(chunk.get(2, 5), Block::new(BlockCode::SimpleWall, Orientation::Down));
}

#[test]
fn set_chunk_stores_at_the_aligned_origin() {
    let mut map = WorldMap::new();
    let mut blocks = [[Block::default(); 8]; 8];
    blocks[3][6] = Block::new(BlockCode::SimpleWall, Orientation::Right);
    map.set_chunk(19, 22, blocks);
    assert_eq!(map.loaded_chunks(), 1);
    assert_eq!(map.get_chunk(16, 16), Chunk::new(16, 16, blocks));
    assert_eq!(map[(19, 22)], Block::new(BlockCode::SimpleWall, Orientation::Right));
    assert_eq!(map[(16, 16)], Block::default());

    map.set_chunk(16, 16, [[Block::default(); 8]; 8]);
    assert_eq!(map.loaded_chunks(), 1);
    assert_eq!(map[(19, 22)], Block::default());
}

#[test]
fn reading_does_not_change_the_world() {
    let mut map = WorldMap::new();
    map[(1, 1)] = Block::new(BlockCode::SimpleWall, Orientation::Up);
    let before = map.get_chunk(0, 0);
    let _ = map[(100, 100)];
    let _ = map.get_chunk(200, 200);
    assert_eq!(map.loaded_chunks(), 1);
    assert_eq!(map.get_chunk(0, 0), before);
}

#[test]
fn solidity_follows_the_block_code() {
    assert!(Block::new(BlockCode::SimpleWall, Orientation::Up).is_solid());
    assert!(Block::new(BlockCode::SimpleWall, Orientation::Left).is_solid());
    assert!(!Block::new(BlockCode::SimpleSlab, Orientation::Up).is_solid());
    assert!(!Block::default().is_solid());
}

#[test]
fn block_getters_and_setters() {
    let mut block = Block::new(BlockCode::SimpleSlab, Orientation::Up);
    assert_eq!(block.get_block_code(), BlockCode::SimpleSlab);
    assert_eq!(block.get_orientation(), Orientation::Up);
    block.set_block_code(BlockCode::SimpleWall);
    block.set_orientation(Orientation::Left);
    assert_eq!(block, Block::new(BlockCode::SimpleWall, Orientation::Left));
}

#[test]
fn codes_of_blocks_and_directions() {
    assert_eq!(BlockCode::from(1), BlockCode::SimpleSlab);
    assert_eq!(BlockCode::from(2), BlockCode::SimpleWall);
    assert_eq!(Orientation::from(1), Orientation::Up);
    assert_eq!(Orientation::from(2), Orientation::Right);
    assert_eq!(Orientation::from(3), Orientation::Down);
    assert_eq!(Orientation::from(4), Orientation::Left);
}

#[test]
fn chunk_set_changes_one_block() {
    let mut chunk = Chunk::default();
    assert_eq!(chunk.x, 9_223_372_036_854_775_808);
    assert_eq!(chunk.y, 9_223_372_036_854_775_808);
    chunk.set(2, 3, Block::new(BlockCode::SimpleWall, Orientation::Up));
    let mut blocks = [[Block::default(); 8]; 8];
    blocks[2][3] = Block::new(BlockCode::SimpleWall, Orientation::Up);
    assert_eq!(chunk.blocks, blocks);
    assert_eq!(Chunk::filled(8, 16, Block::default()), Chunk::new(8, 16, [[Block::default(); 8]; 8]));
}

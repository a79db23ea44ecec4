use dungeon_protocol::block::Block;
use dungeon_protocol::block::BlockCode;
use dungeon_protocol::block::Chunk;
use dungeon_protocol::block::Orientation;
use dungeon_protocol::coords::Coords;
use dungeon_protocol::coords::SingleAxis;
use dungeon_protocol::entity::Entity;
use dungeon_protocol::entity::EntityType;
use dungeon_protocol::message::Message;
use dungeon_protocol::wire::DecodeError;

fn round_trip(message: Message) {
    let frame = message.encode();
    assert_eq!(Message::decode(frame), Ok(message));
}

#[test]
fn chunk() {
    let msg_original = Message::Chunk(Chunk::new(54654, 564_564_565, [[Block::default(); 8]; 8]));
    let msg_serialized = msg_original.encode();
    println!("{}", msg_serialized.len());
    let msg_deserialized = Message::decode(msg_serialized).unwrap();
    assert_eq!(msg_original, msg_deserialized);

    let mut blocks = [[Block::default(); 8]; 8];
    blocks[2][3] = Block::new(BlockCode::SimpleWall, Orientation::Up);
    let msg_original = Message::Chunk(Chunk::new(65, 6_451_651_616, blocks));
    let msg_serialized = msg_original.encode();
    println!("{}", msg_serialized.len());
    let msg_deserialized = Message::decode(msg_serialized).unwrap();
    assert_eq!(msg_original, msg_deserialized);
}

#[test]
fn tests_test() {
    let msg_original = Message::CreateEntity(Entity::new(
        Coords::new(SingleAxis::new(9_223_372_036_854_775_808, 0), SingleAxis::new(0, 0)),
        0,
        String::new(),
        EntityType::Player,
    ));
    let msg_serialized = msg_original.encode();
    println!("{:?}", msg_serialized);
    let msg_deserialized = Message::decode(msg_serialized).unwrap();
    assert_eq!(msg_original, msg_deserialized);
}

#[test]
fn every_variant_round_trips() {
    round_trip(Message::ChatMessage {
        sender_id: 1,
        receiver_id: u64::MAX,
        message: String::from("hello there, 12 00000000000000000001 Tick"),
    });
    round_trip(Message::ChatMessage { sender_id: 0, receiver_id: 0, message: String::new() });
    round_trip(Message::Chunk(Chunk::default()));
    round_trip(Message::UnloadChunk { x: 9_223_372_036_854_775_808, y: 0 });
    round_trip(Message::CreateEntity(Entity::new(
        Coords::new(SingleAxis::new(u64::MAX, 39), SingleAxis::new(7, 126)),
        u64::MAX,
        String::from("Zoé 名前"),
        EntityType::Mob,
    )));
    round_trip(Message::InitServer {
        username: String::from("Ann"),
        screen_width: 800,
        screen_height: 600,
        password: None,
    });
    round_trip(Message::InitServer {
        username: String::from("Ann"),
        screen_width: u32::MAX,
        screen_height: 0,
        password: Some(String::from("s3cret word")),
    });
    round_trip(Message::InitServer {
        username: String::new(),
        screen_width: 1,
        screen_height: 1,
        password: Some(String::new()),
    });
    round_trip(Message::InitClient { id: 18_446_744_073_709_551_615 });
    round_trip(Message::Tick);
    round_trip(Message::MoveEntity { id: 3, direction: Orientation::Up });
    round_trip(Message::MoveEntity { id: 3, direction: Orientation::Down });
    round_trip(Message::MoveEntity { id: 3, direction: Orientation::Left });
    round_trip(Message::MoveEntity { id: 3, direction: Orientation::Right });
    round_trip(Message::TpEntity { id: 77, coords: Coords::default() });
    round_trip(Message::TpEntity {
        id: 77,
        coords: Coords { x: SingleAxis { main: 1, additionnal: 255 }, y: SingleAxis::new(2, 0) },
    });
    round_trip(Message::Ping);
    round_trip(Message::Kick(String::from("too fast")));
    round_trip(Message::Kick(String::new()));
}

#[test]
fn every_block_round_trips_in_a_chunk() {
    let codes = [BlockCode::SimpleSlab, BlockCode::SimpleWall];
    let turns = [Orientation::Up, Orientation::Right, Orientation::Down, Orientation::Left];
    let mut blocks = [[Block::default(); 8]; 8];
    for i in 0..8 {
        for j in 0..8 {
            blocks[i][j] = Block::new(codes[(i + j) % 2], turns[(i * 8 + j) % 4]);
        }
    }
    round_trip(Message::Chunk(Chunk::new(8, 16, blocks)));
}

#[test]
fn frames_are_tag_numbers_and_text() {
    assert_eq!(Message::Tick.encode(), "Tick");
    assert_eq!(Message::Ping.encode(), "Ping");
    assert_eq!(Message::InitClient { id: 5 }.encode(), "InitClient 00000000000000000005");
    assert_eq!(
        Message::UnloadChunk { x: 9_223_372_036_854_775_808, y: 40 }.encode(),
        "UnloadChunk 09223372036854775808 00000000000000000040"
    );
    assert_eq!(
        Message::InitClient { id: u64::MAX }.encode(),
        "InitClient 18446744073709551615"
    );
    assert_eq!(
        Message::MoveEntity { id: 1, direction: Orientation::Right }.encode(),
        "MoveEntity 00000000000000000001 00000000000000000002"
    );
    assert_eq!(
        Message::TpEntity {
            id: 7,
            coords: Coords::new(SingleAxis::new(1, 2), SingleAxis::new(3, 4)),
        }
        .encode(),
        "TpEntity 00000000000000000007 00000000000000000001 00000000000000000002 \
         00000000000000000003 00000000000000000004"
    );
    assert_eq!(Message::Kick(String::from("bye now")).encode(), "Kick bye now");
    assert_eq!(
        Message::ChatMessage { sender_id: 1, receiver_id: 2, message: String::from("hi") }.encode(),
        "ChatMessage 00000000000000000001 00000000000000000002 hi"
    );
    assert_eq!(
        Message::InitServer {
            username: String::from("Ann"),
            screen_width: 800,
            screen_height: 600,
            password: Some(String::from("pw")),
        }
        .encode(),
        "InitServer 00000000000000000800 00000000000000000600 00000000000000000001 \
         00000000000000000003 Annpw"
    );
    assert_eq!(
        Message::CreateEntity(Entity::new(
            Coords::new(SingleAxis::new(1, 2), SingleAxis::new(3, 4)),
            9,
            String::from("Ann"),
            EntityType::Mob,
        ))
        .encode(),
        "CreateEntity 00000000000000000001 00000000000000000002 00000000000000000003 \
         00000000000000000004 00000000000000000009 00000000000000000001 Ann"
    );
}

#[test]
fn chunk_frame_writes_one_digit_for_each_block() {
    let mut blocks = [[Block::default(); 8]; 8];
    blocks[0][1] = Block::new(BlockCode::SimpleWall, Orientation::Up);
    blocks[7][7] = Block::new(BlockCode::SimpleWall, Orientation::Left);
    blocks[1][0] = Block::new(BlockCode::SimpleSlab, Orientation::Down);
    let frame = Message::Chunk(Chunk::new(8, 16, blocks)).encode();
    let mut grid = String::from("04000000");
    grid.push_str("20000000");
    for _ in 0..5 {
        grid.push_str("00000000");
    }
    grid.push_str("00000007");
    assert_eq!(
        frame,
        format!("Chunk 00000000000000000008 00000000000000000016 {}", grid)
    );
    assert_eq!(frame.len(), 5 + 21 + 21 + 1 + 64);
}

#[test]
fn encoding_is_deterministic() {
    let message = Message::CreateEntity(Entity::new(
        Coords::default(),
        42,
        String::from("Ann"),
        EntityType::Player,
    ));
    assert_eq!(message.encode(), message.encode());
}

#[test]
fn unknown_tags_are_refused() {
    assert_eq!(Message::decode(String::new()), Err(DecodeError::UnknownTag));
    assert_eq!(Message::decode(String::from("tick")), Err(DecodeError::UnknownTag));
    assert_eq!(Message::decode(String::from("Tic")), Err(DecodeError::UnknownTag));
    assert_eq!(Message::decode(String::from("Hello")), Err(DecodeError::UnknownTag));
    assert_eq!(Message::decode(String::from(" Tick")), Err(DecodeError::UnknownTag));
    assert_eq!(
        Message::decode(String::from("---\nTick\n")),
        Err(DecodeError::UnknownTag)
    );
}

#[test]
fn malformed_frames_are_refused() {
    let malformed = [
        "Tick ",
        "Ticks",
        "Ping 00000000000000000001",
        "InitClient",
        "InitClient 5",
        "InitClient 0000000000000000005",
        "InitClient 000000000000000000005",
        "InitClient  0000000000000000005",
        "InitClient 0000000000000000000x",
        "InitClient 18446744073709551616",
        "InitClient 99999999999999999999",
        "InitClient 00000000000000000005 ",
        "InitClient-00000000000000000005",
        "UnloadChunk 00000000000000000001",
        "MoveEntity 00000000000000000001 00000000000000000000",
        "MoveEntity 00000000000000000001 00000000000000000005",
        "TpEntity 00000000000000000007 00000000000000000001 00000000000000000256 \
         00000000000000000003 00000000000000000004",
        "TpEntity 00000000000000000007 00000000000000000001 00000000000000000002 \
         00000000000000000003",
        "Kick",
        "Kickbye",
        "ChatMessage 00000000000000000001 00000000000000000002",
        "CreateEntity 00000000000000000001 00000000000000000002 00000000000000000003 \
         00000000000000000004 00000000000000000009 00000000000000000002 Ann",
        "InitServer 00000000000000000800 00000000000000000600 00000000000000000000 \
         00000000000000000003 Annpw",
        "InitServer 00000000000000000800 00000000000000000600 00000000000000000001 \
         00000000000000000004 Ann",
        "InitServer 00000000000000000800 00000000000000000600 00000000000000000002 \
         00000000000000000003 Ann",
        "InitServer 00004294967296000000 00000000000000000600 00000000000000000000 \
         00000000000000000003 Ann",
        "Chunk 00000000000000000008 00000000000000000016 0000",
    ];
    for frame in malformed {
        assert_eq!(
            Message::decode(String::from(frame)),
            Err(DecodeError::Malformed),
            "{}",
            frame
        );
    }
    let bad_block = format!(
        "Chunk 00000000000000000008 00000000000000000016 {}8",
        "0".repeat(63)
    );
    assert_eq!(Message::decode(bad_block), Err(DecodeError::Malformed));
    let long_grid = format!(
        "Chunk 00000000000000000008 00000000000000000016 {}",
        "0".repeat(65)
    );
    assert_eq!(Message::decode(long_grid), Err(DecodeError::Malformed));
}

#[test]
fn decoding_reads_hand_written_frames() {
    assert_eq!(Message::decode(String::from("Tick")), Ok(Message::Tick));
    assert_eq!(
        Message::decode(String::from("InitClient 00000000000000000005")),
        Ok(Message::InitClient { id: 5 })
    );
    assert_eq!(
        Message::decode(String::from("Kick ")),
        Ok(Message::Kick(String::new()))
    );
    assert_eq!(
        Message::decode(String::from(
            "InitServer 00000000000000000800 00000000000000000600 00000000000000000000 \
             00000000000000000003 Ann"
        )),
        Ok(Message::InitServer {
            username: String::from("Ann"),
            screen_width: 800,
            screen_height: 600,
            password: None,
        })
    );
}

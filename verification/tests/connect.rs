use dungeon_protocol::Message;
use dungeon_protocol::OpCode;

#[test]
fn connect() {
    let msg_original = Message::Connect(String::from("jean miche muche"));
    let msg_serialized = msg_original.encode();
    let msg_deserialized = Message::decode(msg_serialized).unwrap();
    assert_eq!(msg_original, msg_deserialized);

    let msg_original = Message::Connect(String::new());
    let msg_serialized = msg_original.encode();
    let msg_deserialized = Message::decode(msg_serialized).unwrap();
    assert_eq!(msg_original, msg_deserialized);
}

#[test]
fn connect_frame_is_mark_then_name() {
    let frame = Message::Connect(String::from("Ann")).encode();
    assert_eq!(frame, "\u{1}Ann");
    assert_eq!(frame.as_bytes()[0], 1);
    assert_eq!(OpCode::Connect.mark(), '\u{1}');
}

#[test]
fn connect_refuses_other_opcodes() {
    assert_eq!(Message::decode(String::from("\u{2}Ann")), Err("invalid opcode"));
    assert_eq!(Message::decode(String::from("Ann")), Err("invalid opcode"));
    assert_eq!(Message::decode(String::new()), Err("invalid opcode"));
}

#[test]
fn connect_keeps_every_character_of_the_name() {
    let name = String::from("Zoé \u{1} 名前");
    let back = Message::decode(Message::Connect(name.clone()).encode()).unwrap();
    assert_eq!(back, Message::Connect(name));
}

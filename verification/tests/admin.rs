use dungeon_protocol::admin::parse_command;
use dungeon_protocol::admin::parse_number;
use dungeon_protocol::admin::Command;
use dungeon_protocol::admin::CommandError;
use dungeon_protocol::coords::Coords;
use dungeon_protocol::coords::SingleAxis;
use dungeon_protocol::entity::Entity;
use dungeon_protocol::entity::EntityType;
use dungeon_protocol::registry::Registry;

fn words(line: &str) -> Vec<String> {
    line.trim().split(' ').map(String::from).collect()
}

#[test]
fn numbers_are_plain_decimal() {
    assert_eq!(parse_number("0"), Some(0));
    assert_eq!(parse_number("42"), Some(42));
    assert_eq!(parse_number("+42"), Some(42));
    assert_eq!(parse_number("007"), Some(7));
    assert_eq!(parse_number("18446744073709551615"), Some(u64::MAX));
    assert_eq!(parse_number("00018446744073709551615"), Some(u64::MAX));
    assert_eq!(parse_number("9223372036854775808"), Some(9_223_372_036_854_775_808));
}

#[test]
fn what_is_no_number_is_refused() {
    for text in [
        "",
        "+",
        "-1",
        "++1",
        "1+",
        " 1",
        "1 ",
        "1_000",
        "12a",
        "a12",
        "٣",
        "1.5",
        "18446744073709551616",
        "99999999999999999999",
        "100000000000000000000000000",
    ] {
        assert_eq!(parse_number(text), None, "{:?}", text);
        assert_eq!(parse_number(text), text.parse::<u64>().ok(), "{:?}", text);
    }
    for text in ["0", "+0", "000", "1234567890", "18446744073709551615"] {
        assert_eq!(parse_number(text), text.parse::<u64>().ok(), "{:?}", text);
    }
}

#[test]
fn commands_are_read_from_words() {
    assert_eq!(parse_command(&words("help")), Ok(Command::Help));
    assert_eq!(parse_command(&words("help me please")), Ok(Command::Help));
    assert_eq!(
        parse_command(&words("tp 12 9223372036854775808 7")),
        Ok(Command::Teleport { id: 12, x: 9_223_372_036_854_775_808, y: 7 })
    );
    assert_eq!(parse_command(&words("list_entities players\n")), Ok(Command::ListPlayers));
}

#[test]
fn each_command_error_has_its_line() {
    assert_eq!(parse_command(&Vec::new()), Err(CommandError::UnknownCommand));
    assert_eq!(parse_command(&words("")), Err(CommandError::UnknownCommand));
    assert_eq!(parse_command(&words("Help")), Err(CommandError::UnknownCommand));
    assert_eq!(parse_command(&words("teleport 1 2 3")), Err(CommandError::UnknownCommand));
    assert_eq!(parse_command(&words("tp")), Err(CommandError::WrongArgumentCount));
    assert_eq!(parse_command(&words("tp 1 2")), Err(CommandError::WrongArgumentCount));
    assert_eq!(parse_command(&words("tp 1 2 3 4")), Err(CommandError::WrongArgumentCount));
    assert_eq!(parse_command(&words("tp 1  2 3")), Err(CommandError::WrongArgumentCount));
    assert_eq!(parse_command(&words("tp x 2 3")), Err(CommandError::NotANumber(2)));
    assert_eq!(parse_command(&words("tp 1 -2 3")), Err(CommandError::NotANumber(3)));
    assert_eq!(parse_command(&words("tp 1 2 3.0")), Err(CommandError::NotANumber(4)));
    assert_eq!(parse_command(&words("tp x y z")), Err(CommandError::NotANumber(2)));
    assert_eq!(parse_command(&words("list_entities")), Err(CommandError::WrongArgumentCount));
    assert_eq!(
        parse_command(&words("list_entities players now")),
        Err(CommandError::WrongArgumentCount)
    );
    assert_eq!(parse_command(&words("list_entities mobs")), Err(CommandError::UnknownOption));
}

#[test]
fn teleport_keeps_the_place_inside_the_block() {
    let mut registry = Registry::new();
    let start = Coords::new(SingleAxis::new(5, 12), SingleAxis::new(6, 39));
    registry.insert(Entity::new(start, 7, String::from("Ann"), EntityType::Player));
    assert!(registry.teleport(7, 100, 200));
    assert_eq!(
        registry.get(7).unwrap().get_coords(),
        Coords::new(SingleAxis::new(100, 12), SingleAxis::new(200, 39))
    );
    assert_eq!(registry.get(7).unwrap().get_name(), "Ann");
    assert!(!registry.teleport(8, 1, 1));
    assert_eq!(registry.len(), 1);
}

#[test]
fn players_are_listed_once_each_without_the_mobs() {
    let mut registry = Registry::new();
    assert!(registry.players().is_empty());
    assert!(registry.ids().is_empty());
    registry.insert(Entity::player(String::from("Ann"), 7));
    registry.insert(Entity::player(String::from("Bob"), 3));
    registry.insert(Entity::new(Coords::default(), 5, String::from("Rat"), EntityType::Mob));
    registry.insert(Entity::player(String::from("Ann"), 9));

    let mut ids = registry.ids();
    ids.sort_unstable();
    assert_eq!(ids, vec![3, 5, 7, 9]);

    let mut players = registry.players();
    players.sort();
    assert_eq!(
        players,
        vec![(3, String::from("Bob")), (7, String::from("Ann")), (9, String::from("Ann"))]
    );

    registry.remove(7);
    let mut players = registry.players();
    players.sort();
    assert_eq!(players, vec![(3, String::from("Bob")), (9, String::from("Ann"))]);
}

use dungeon_protocol::coords::Coords;
use dungeon_protocol::coords::SingleAxis;
use dungeon_protocol::entity::Entity;
use dungeon_protocol::entity::id_from_bytes;
use dungeon_protocol::entity::EntityError;
use dungeon_protocol::entity::EntityType;
use dungeon_protocol::entity::SPEED_PER_TICK;
use dungeon_protocol::registry::Registry;

fn player(id: u64, name: &str) -> Entity {
    Entity::player(String::from(name), id)
}

#[test]
fn insert_is_visible_to_lookups() {
    let mut registry = Registry::new();
    assert_eq!(registry.len(), 0);
    assert!(!registry.contains(7));
    assert!(registry.get(7).is_none());
    registry.insert(player(7, "Ann"));
    assert_eq!(registry.len(), 1);
    assert!(registry.contains(7));
    assert_eq!(registry.get(7), Some(&player(7, "Ann")));
    assert!(registry.get(8).is_none());
}

#[test]
fn insert_replaces_what_was_filed_under_the_id() {
    let mut registry = Registry::new();
    registry.insert(player(7, "Ann"));
    registry.insert(player(7, "Bob"));
    assert_eq!(registry.len(), 1);
    assert_eq!(registry.get(7).unwrap().get_name(), "Bob");
}

#[test]
fn removed_id_is_not_found() {
    let mut registry = Registry::new();
    registry.insert(player(7, "Ann"));
    registry.insert(player(8, "Bob"));
    assert_eq!(registry.remove(7), Some(player(7, "Ann")));
    assert!(registry.get(7).is_none());
    assert!(!registry.contains(7));
    assert_eq!(registry.len(), 1);
    assert!(registry.contains(8));
    assert_eq!(registry.remove(7), None);
    assert_eq!(registry.len(), 1);
}

#[test]
fn update_moves_a_known_entity_only() {
    let mut registry = Registry::new();
    registry.insert(player(7, "Ann"));
    let target = Coords::new(SingleAxis::new(3, 4), SingleAxis::new(5, 6));
    assert!(registry.update(7, target));
    assert_eq!(registry.get(7).unwrap().get_coords(), target);
    assert_eq!(registry.get(7).unwrap().get_name(), "Ann");
    assert_eq!(registry.get(7).unwrap().get_id(), 7);
    assert!(!registry.update(9, target));
    assert_eq!(registry.len(), 1);
}

#[test]
fn entity_getters_and_setters() {
    let mut entity = Entity::new(Coords::default(), 12, String::from("Ann"), EntityType::Mob);
    assert_eq!(entity.get_id(), 12);
    assert_eq!(entity.get_name(), "Ann");
    assert_eq!(*entity.get_type(), EntityType::Mob);
    assert_eq!(entity.get_speed(), 3);
    assert_eq!(SPEED_PER_TICK, 3);
    assert_eq!(entity.get_coords(), Coords::default());
    assert_eq!(entity.coords, Coords::default());
    entity.set_entity_name(String::from("Bob"));
    assert_eq!(entity.get_name(), "Bob");
    let target = Coords::new(SingleAxis::new(1, 2), SingleAxis::new(3, 4));
    entity.set_coords(target);
    assert_eq!(entity.coords, target);
    assert_eq!(entity.clone(), entity);
}

#[test]
fn spawned_player_stands_at_the_center() {
    let entity = Entity::spawn_player(String::from("Ann")).unwrap();
    assert_eq!(entity.get_name(), "Ann");
    assert_eq!(*entity.get_type(), EntityType::Player);
    assert_eq!(entity.coords, Coords::default());
    assert_eq!(entity.coords.x.main, 9_223_372_036_854_775_808);
    assert_eq!(entity, Entity::player(String::from("Ann"), entity.get_id()));
}

#[test]
fn spawned_players_get_ids_of_their_own() {
    let mut ids = Vec::new();
    for _ in 0..16 {
        ids.push(Entity::spawn_player(String::from("Ann")).unwrap().get_id());
    }
    ids.sort_unstable();
    ids.dedup();
    assert!(ids.len() > 1);
}

#[test]
fn ids_are_read_with_the_first_byte_as_the_highest() {
    assert_eq!(id_from_bytes(&[0, 0, 0, 0, 0, 0, 0, 0]), 0);
    assert_eq!(id_from_bytes(&[0, 0, 0, 0, 0, 0, 1, 2]), 258);
    assert_eq!(id_from_bytes(&[0x80, 0, 0, 0, 0, 0, 0, 0]), 9_223_372_036_854_775_808);
    assert_eq!(id_from_bytes(&[1, 2, 3, 4, 5, 6, 7, 8]), 0x0102_0304_0506_0708);
    assert_eq!(id_from_bytes(&[255; 8]), u64::MAX);
    assert_eq!(id_from_bytes(&[1, 2, 3, 4, 5, 6, 7, 8]), u64::from_be_bytes([1, 2, 3, 4, 5, 6, 7, 8]));
}

#[test]
fn drawn_bytes_make_the_player_and_a_failed_source_makes_none() {
    let entity = Entity::spawn_from(String::from("Ann"), Ok([0, 0, 0, 0, 0, 0, 1, 2])).unwrap();
    assert_eq!(entity, Entity::player(String::from("Ann"), 258));
    assert_eq!(entity.get_id(), 258);
    assert_eq!(entity.coords, Coords::default());
    assert_eq!(*entity.get_type(), EntityType::Player);

    let highest = Entity::spawn_from(String::new(), Ok([255; 8])).unwrap();
    assert_eq!(highest.get_id(), u64::MAX);

    assert_eq!(
        Entity::spawn_from(String::from("Ann"), Err(getrandom::Error::UNSUPPORTED)),
        Err(EntityError::NoRandomId)
    );
    assert_eq!(
        Entity::spawn_from(String::from("Bob"), Err(getrandom::Error::UNEXPECTED)),
        Err(EntityError::NoRandomId)
    );
}

//! Entities: the players and mobs that live in the world.

use crate::coords::Coords;
use crate::coords::SingleAxis;
use crate::coords::CENTER_POINT;
use vstd::prelude::*;

verus! {

/// Sub-block units that an entity may cover in one move.
pub const SPEED_PER_TICK: u8 = 3;

/// What kind of being an entity is.
#[derive(Debug, PartialEq, Eq, Structural, Clone, Copy)]
pub enum EntityType {
    Player,
    Mob,
}

/// A being in the world, known to every party by its id.
#[derive(Debug, PartialEq)]
pub struct Entity {
    pub coords: Coords,
    id: u64,
    name: String,
    entity_type: EntityType,
}

/// What an entity holds, as plain values.
pub struct EntityView {
    pub coords: Coords,
    pub id: u64,
    pub name: Seq<char>,
    pub entity_type: EntityType,
}

impl View for Entity {
    type V = EntityView;

    closed spec fn view(&self) -> EntityView {
        EntityView {
            coords: self.coords,
            id: self.id,
            name: self.name@,
            entity_type: self.entity_type,
        }
    }
}

/// Why an entity could not be made.
#[derive(Debug, PartialEq, Eq, Structural, Clone, Copy)]
pub enum EntityError {
    /// The system's random source gave no id.
    NoRandomId,
}

/// The error of the system's random source.
#[verifier::external_type_specification]
#[verifier::external_body]
pub struct ExRandomError(getrandom::Error);

/// Asks `getrandom::getrandom` to fill eight bytes from the system's random
/// source. Nothing is claimed of the bytes, nor of when the source fails.
#[verifier::external_body]
fn random_bytes() -> (r: Result<[u8; 8], getrandom::Error>) {
    let mut bytes: [u8; 8] = [0; 8];
    getrandom::getrandom(&mut bytes)?;
    Ok(bytes)
}

/// The number that the first `count` of the bytes write, the first byte
/// being the most significant.
pub open spec fn big_endian(bytes: Seq<u8>, count: nat) -> nat
    decreases count,
{
    if count == 0 {
        0
    } else {
        big_endian(bytes, (count - 1) as nat) * 256 + bytes[count - 1] as nat
    }
}

/// Reads eight bytes as a number, the first byte being the most
/// significant.
pub fn id_from_bytes(bytes: &[u8; 8]) -> (r: u64)
    ensures
        r == big_endian(bytes@, 8),
{
    proof {
        reveal_with_fuel(big_endian, 9);
    }
    let a1: u64 = bytes[0] as u64 * 256 + bytes[1] as u64;
    let a2: u64 = a1 * 256 + bytes[2] as u64;
    let a3: u64 = a2 * 256 + bytes[3] as u64;
    let a4: u64 = a3 * 256 + bytes[4] as u64;
    let a5: u64 = a4 * 256 + bytes[5] as u64;
    let a6: u64 = a5 * 256 + bytes[6] as u64;
    a6 * 256 + bytes[7] as u64
}

impl Clone for Entity {
    /// A copy that holds the same values.
    fn clone(&self) -> (r: Self)
        ensures
            r@ == self@,
    {
        Entity {
            coords: self.coords,
            id: self.id,
            name: self.name.clone(),
            entity_type: self.entity_type,
        }
    }
}

impl Entity {
    /// The place where players enter the world.
    pub open spec fn spawn_point() -> Coords {
        Coords {
            x: SingleAxis { main: CENTER_POINT, additionnal: 0 },
            y: SingleAxis { main: CENTER_POINT, additionnal: 0 },
        }
    }

    /// An entity of the given kind, under the given id and name, at `coords`.
    pub fn new(coords: Coords, id: u64, name: String, entity_type: EntityType) -> (r: Self)
        ensures
            r@ == (EntityView { coords, id, name: name@, entity_type }),
    {
        Self { coords, id, name, entity_type }
    }

    /// A player named `name` with the given id, at the spawn point.
    pub fn player(name: String, id: u64) -> (r: Self)
        ensures
            r@ == (EntityView {
                coords: Self::spawn_point(),
                id,
                name: name@,
                entity_type: EntityType::Player,
            }),
    {
        Self { coords: Coords::default(), id, name, entity_type: EntityType::Player }
    }

    /// A player named `name` at the spawn point, under an id drawn from the
    /// system's random source.
    pub fn spawn_player(name: String) -> (r: Result<Self, EntityError>)
        ensures
            match r {
                Ok(entity) => entity@ == (EntityView {
                    coords: Self::spawn_point(),
                    id: entity@.id,
                    name: name@,
                    entity_type: EntityType::Player,
                }),
                Err(e) => e == EntityError::NoRandomId,
            },
    {
        Self::spawn_from(name, random_bytes())
    }

    /// What `spawn_from` makes of a name and of what the random source gave.
    pub open spec fn spec_spawn_from(
        name: Seq<char>,
        drawn: Result<[u8; 8], getrandom::Error>,
    ) -> Result<EntityView, EntityError> {
        match drawn {
            Ok(bytes) => Ok(
                EntityView {
                    coords: Self::spawn_point(),
                    id: big_endian(bytes@, 8) as u64,
                    name,
                    entity_type: EntityType::Player,
                },
            ),
            Err(_) => Err(EntityError::NoRandomId),
        }
    }

    /// The player that comes of what the random source gave: where it gave
    /// eight bytes, a player named `name` at the spawn point, under the id
    /// that the bytes write; where it failed, no player.
    pub fn spawn_from(name: String, drawn: Result<[u8; 8], getrandom::Error>) -> (r: Result<
        Self,
        EntityError,
    >)
        ensures
            match r {
                Ok(entity) => Self::spec_spawn_from(name@, drawn) == Ok::<EntityView, EntityError>(
                    entity@,
                ),
                Err(e) => Self::spec_spawn_from(name@, drawn) == Err::<EntityView, EntityError>(e),
            },
    {
        match drawn {
            Ok(bytes) => Ok(Self::player(name, id_from_bytes(&bytes))),
            Err(_) => Err(EntityError::NoRandomId),
        }
    }

    /// Gives the entity another name.
    pub fn set_entity_name(&mut self, name: String)
        ensures
            final(self)@ == (EntityView { name: name@, ..old(self)@ }),
    {
        self.name = name;
    }

    /// The entity's name.
    pub fn get_name(&self) -> (r: &String)
        ensures
            r@ == self@.name,
    {
        &self.name
    }

    /// What kind of being the entity is.
    pub fn get_type(&self) -> (r: &EntityType)
        ensures
            *r == self@.entity_type,
    {
        &self.entity_type
    }

    /// The id by which every party knows the entity.
    pub fn get_id(&self) -> (r: u64)
        ensures
            r == self@.id,
    {
        self.id
    }

    /// Sub-block units that the entity may cover in one move.
    pub fn get_speed(&self) -> (r: u8)
        ensures
            r == SPEED_PER_TICK,
    {
        SPEED_PER_TICK
    }

    /// Where the entity stands.
    pub fn get_coords(&self) -> (r: Coords)
        ensures
            r == self@.coords,
    {
        self.coords
    }

    /// Moves the entity to `coords`.
    pub fn set_coords(&mut self, coords: Coords)
        ensures
            final(self)@ == (EntityView { coords, ..old(self)@ }),
    {
        self.coords = coords;
    }
}

} // verus!

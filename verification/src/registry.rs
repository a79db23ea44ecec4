//! The entity registry: the table of connected entities, keyed by entity id.

use crate::coords::Coords;
use crate::coords::SingleAxis;
use crate::entity::Entity;
use crate::entity::EntityType;
use crate::entity::EntityView;
use std::collections::HashMap;
use vstd::prelude::*;
use vstd::std_specs::iter::IteratorSpec;

verus! {

broadcast use vstd::std_specs::hash::group_hash_axioms;

/// Holds when `id` is the id of one of the listed players.
pub open spec fn is_listed(players: Seq<(u64, String)>, id: u64) -> bool {
    exists|j: int| 0 <= j < players.len() && (#[trigger] players[j]).0 == id
}

/// The position `coords` taken to the block `(x, y)`, with its place inside
/// the block kept.
pub open spec fn moved_to_block(coords: Coords, x: u64, y: u64) -> Coords {
    Coords {
        x: SingleAxis { main: x, additionnal: coords.x.additionnal },
        y: SingleAxis { main: y, additionnal: coords.y.additionnal },
    }
}

/// The table of the entities that live in the world.
pub struct Registry {
    entities: HashMap<u64, Entity>,
}

impl View for Registry {
    type V = Map<u64, EntityView>;

    /// What the table holds: each known id with its entity.
    closed spec fn view(&self) -> Map<u64, EntityView> {
        Map::new(|id: u64| self.entities@.contains_key(id), |id: u64| self.entities@[id]@)
    }
}

impl Registry {
    /// Every entity is filed under its own id.
    #[verifier::type_invariant]
    pub closed spec fn wf(&self) -> bool {
        forall|id: u64| self.entities@.contains_key(id) ==> (#[trigger] self.entities@[id])@.id == id
    }

    /// A registry that knows no entity.
    pub fn new() -> (r: Self)
        ensures
            r@ == Map::<u64, EntityView>::empty(),
    {
        let r = Registry { entities: HashMap::new() };
        assert(r@ =~= Map::<u64, EntityView>::empty());
        r
    }

    /// The number of entities known.
    pub fn len(&self) -> (r: usize)
        ensures
            r == self@.len(),
            self@.dom().finite(),
    {
        proof {
            assert(self@.dom() =~= self.entities@.dom());
        }
        self.entities.len()
    }

    /// Tells whether an entity is filed under `id`.
    pub fn contains(&self, id: u64) -> (r: bool)
        ensures
            r == self@.contains_key(id),
    {
        self.entities.contains_key(&id)
    }

    /// The entity filed under `id`, where there is one.
    pub fn get(&self, id: u64) -> (r: Option<&Entity>)
        ensures
            match r {
                Some(entity) => self@.contains_key(id) && entity@ == self@[id] && entity@.id == id,
                None => !self@.contains_key(id),
            },
    {
        proof {
            use_type_invariant(self);
        }
        self.entities.get(&id)
    }

    /// Files `entity` under its id, in place of what was filed there.
    pub fn insert(&mut self, entity: Entity)
        ensures
            final(self)@ == old(self)@.insert(entity@.id, entity@),
    {
        proof {
            use_type_invariant(&*self);
        }
        let ghost before = self.entities@;
        let mut entities: HashMap<u64, Entity> = HashMap::new();
        core::mem::swap(&mut entities, &mut self.entities);
        let id = entity.get_id();
        let _ = entities.insert(id, entity);
        core::mem::swap(&mut entities, &mut self.entities);
        assert(final(self)@ =~= old(self)@.insert(entity@.id, entity@));
    }

    /// Takes the entity filed under `id` out of the registry. Where none is
    /// filed there, the registry stays as it is.
    pub fn remove(&mut self, id: u64) -> (r: Option<Entity>)
        ensures
            final(self)@ == old(self)@.remove(id),
            !final(self)@.contains_key(id),
            match r {
                Some(entity) => old(self)@.contains_key(id) && entity@ == old(self)@[id],
                None => !old(self)@.contains_key(id),
            },
    {
        proof {
            use_type_invariant(&*self);
        }
        let mut entities: HashMap<u64, Entity> = HashMap::new();
        core::mem::swap(&mut entities, &mut self.entities);
        let r = entities.remove(&id);
        core::mem::swap(&mut entities, &mut self.entities);
        assert(final(self)@ =~= old(self)@.remove(id));
        r
    }

    /// The ids under which entities are filed, each once, in no particular
    /// order.
    pub fn ids(&self) -> (r: Vec<u64>)
        ensures
            r@.no_duplicates(),
            r@.to_set() == self@.dom(),
    {
        broadcast use vstd::std_specs::hash::axiom_spec_keys_iter;

        let mut out: Vec<u64> = Vec::new();
        let ghost keys = self.entities.keys().remaining();
        for key in it: self.entities.keys()
            invariant
                it.seq() == keys,
                out@.len() == it.index(),
                forall|i: int| 0 <= i < out@.len() ==> out@[i] == *keys[i],
        {
            out.push(*key);
        }
        assert(out@ =~= keys.unref());
        assert(self@.dom() =~= self.entities@.dom());
        out
    }

    /// The players among the entities: the id and the name of each, once,
    /// in no particular order.
    pub fn players(&self) -> (r: Vec<(u64, String)>)
        ensures
            forall|j: int|
                0 <= j < r@.len() ==> self@.contains_key((#[trigger] r@[j]).0) && self@[r@[j].0].entity_type
                    == EntityType::Player && r@[j].1@ == self@[r@[j].0].name,
            forall|i: int, j: int| 0 <= i < j < r@.len() ==> r@[i].0 != r@[j].0,
            forall|id: u64|
                self@.contains_key(id) && self@[id].entity_type == EntityType::Player ==> is_listed(
                    r@,
                    id,
                ),
    {
        let ids = self.ids();
        let mut out: Vec<(u64, String)> = Vec::new();
        let mut k: usize = 0;
        while k < ids.len()
            invariant
                k <= ids@.len(),
                ids@.no_duplicates(),
                ids@.to_set() == self@.dom(),
                forall|j: int|
                    0 <= j < out@.len() ==> self@.contains_key((#[trigger] out@[j]).0)
                        && self@[out@[j].0].entity_type == EntityType::Player && out@[j].1@
                        == self@[out@[j].0].name,
                forall|j: int|
                    0 <= j < out@.len() ==> exists|i: int|
                        0 <= i < k && ids@[i] == (#[trigger] out@[j]).0,
                forall|i: int, j: int| 0 <= i < j < out@.len() ==> out@[i].0 != out@[j].0,
                forall|i: int|
                    0 <= i < k && self@[ids@[i]].entity_type == EntityType::Player ==> is_listed(
                        out@,
                        #[trigger] ids@[i],
                    ),
            decreases ids@.len() - k,
        {
            let id = ids[k];
            let ghost before = out@;
            assert(ids@.to_set().contains(ids@[k as int]));
            match self.get(id) {
                Some(entity) => {
                    match entity.get_type() {
                        EntityType::Player => {
                            out.push((id, entity.get_name().clone()));
                            assert(out@[before.len() as int].0 == id);
                            assert forall|i: int|
                                0 <= i < k && self@[ids@[i]].entity_type
                                    == EntityType::Player implies is_listed(
                                out@,
                                #[trigger] ids@[i],
                            ) by {
                                let j = choose|j: int|
                                    0 <= j < before.len() && before[j].0 == ids@[i];
                                assert(out@[j].0 == ids@[i]);
                            }
                        },
                        EntityType::Mob => {},
                    }
                },
                None => {},
            }
            k += 1;
        }
        assert forall|id: u64|
            self@.contains_key(id) && self@[id].entity_type == EntityType::Player implies is_listed(
            out@,
            id,
        ) by {
            assert(ids@.to_set().contains(id));
            let i = choose|i: int| 0 <= i < ids@.len() && ids@[i] == id;
            assert(is_listed(out@, ids@[i]));
        }
        out
    }

    /// Puts the entity filed under `id` on the block `(x, y)`, keeping its
    /// place inside the block, and tells whether there was such an entity.
    pub fn teleport(&mut self, id: u64, x: u64, y: u64) -> (r: bool)
        ensures
            r == old(self)@.contains_key(id),
            r ==> final(self)@ == old(self)@.insert(
                id,
                (EntityView { coords: moved_to_block(old(self)@[id].coords, x, y), ..old(self)@[id] }),
            ),
            !r ==> final(self)@ == old(self)@,
    {
        let coords = match self.get(id) {
            Some(entity) => entity.get_coords(),
            None => {
                return false;
            },
        };
        self.update(
            id,
            Coords {
                x: SingleAxis { main: x, additionnal: coords.x.additionnal },
                y: SingleAxis { main: y, additionnal: coords.y.additionnal },
            },
        )
    }

    /// Moves the entity filed under `id` to `coords`, and tells whether
    /// there was one.
    pub fn update(&mut self, id: u64, coords: Coords) -> (r: bool)
        ensures
            r == old(self)@.contains_key(id),
            r ==> final(self)@ == old(self)@.insert(
                id,
                (EntityView { coords, ..old(self)@[id] }),
            ),
            !r ==> final(self)@ == old(self)@,
    {
        proof {
            use_type_invariant(&*self);
        }
        let mut entities: HashMap<u64, Entity> = HashMap::new();
        core::mem::swap(&mut entities, &mut self.entities);
        let r = match entities.remove(&id) {
            Some(mut entity) => {
                entity.set_coords(coords);
                let _ = entities.insert(id, entity);
                true
            },
            None => false,
        };
        core::mem::swap(&mut entities, &mut self.entities);
        assert(r ==> final(self)@ =~= old(self)@.insert(
            id,
            (EntityView { coords, ..old(self)@[id] }),
        ));
        assert(!r ==> final(self)@ =~= old(self)@);
        r
    }
}

} // verus!

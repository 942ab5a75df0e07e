//! The entity registry: a fresh, never-reused identifier per entity and
//! one densely indexed store per component kind, each holding 0 or 1
//! component per entity. Stages iterate entities in identifier order,
//! which is deterministic across runs.

use vstd::prelude::*;

verus! {

use crate::components::{
    BasicAiComponent, CollisionComponent, FighterComponent, LabelComponent, MovementComponent,
    PlayerComponent, PositionComponent, RenderComponent,
};

/// An entity identifier: an index into every component store. Entities
/// are never removed, so a monotonic counter suffices and identifiers
/// are never reused.
#[derive(Debug, Clone, Copy, PartialEq, Eq, Structural, Hash)]
pub struct Entity {
    pub id: usize,
}

/// Typed component storage keyed by entity identifier.
pub struct World {
    pub labels: Vec<Option<LabelComponent>>,
    pub positions: Vec<Option<PositionComponent>>,
    pub renders: Vec<Option<RenderComponent>>,
    pub movements: Vec<Option<MovementComponent>>,
    pub collisions: Vec<Option<CollisionComponent>>,
    pub players: Vec<Option<PlayerComponent>>,
    pub fighters: Vec<Option<FighterComponent>>,
    pub basic_ais: Vec<Option<BasicAiComponent>>,
}

impl World {
    pub open spec fn num_entities(self) -> nat {
        self.positions@.len()
    }

    /// Every store has one slot per entity.
    pub open spec fn wf(self) -> bool {
        &&& self.labels@.len() == self.num_entities()
        &&& self.renders@.len() == self.num_entities()
        &&& self.movements@.len() == self.num_entities()
        &&& self.collisions@.len() == self.num_entities()
        &&& self.players@.len() == self.num_entities()
        &&& self.fighters@.len() == self.num_entities()
        &&& self.basic_ais@.len() == self.num_entities()
    }

    pub open spec fn contains(self, e: Entity) -> bool {
        e.id < self.num_entities()
    }

    pub fn new() -> (w: World)
        ensures
            w.wf(),
            w.num_entities() == 0,
    {
        World {
            labels: Vec::new(),
            positions: Vec::new(),
            renders: Vec::new(),
            movements: Vec::new(),
            collisions: Vec::new(),
            players: Vec::new(),
            fighters: Vec::new(),
            basic_ais: Vec::new(),
        }
    }

    /// Mint a fresh entity with no components attached.
    pub fn create(&mut self) -> (e: Entity)
        requires
            old(self).wf(),
            old(self).num_entities() < usize::MAX,
        ensures
            final(self).wf(),
            final(self).num_entities() == old(self).num_entities() + 1,
            e.id == old(self).num_entities(),
            final(self).contains(e),
            final(self).labels@ == old(self).labels@.push(None),
            final(self).positions@ == old(self).positions@.push(None),
            final(self).renders@ == old(self).renders@.push(None),
            final(self).movements@ == old(self).movements@.push(None),
            final(self).collisions@ == old(self).collisions@.push(None),
            final(self).players@ == old(self).players@.push(None),
            final(self).fighters@ == old(self).fighters@.push(None),
            final(self).basic_ais@ == old(self).basic_ais@.push(None),
    {
        let id = self.positions.len();
        self.labels.push(None);
        self.positions.push(None);
        self.renders.push(None);
        self.movements.push(None);
        self.collisions.push(None);
        self.players.push(None);
        self.fighters.push(None);
        self.basic_ais.push(None);
        Entity { id }
    }

    pub fn attach_label(&mut self, e: Entity, c: LabelComponent)
        requires
            old(self).wf(),
            old(self).contains(e),
        ensures
            final(self).wf(),
            final(self).num_entities() == old(self).num_entities(),
            final(self).labels@ == old(self).labels@.update(e.id as int, Some(c)),
            final(self).positions@ == old(self).positions@,
            final(self).renders@ == old(self).renders@,
            final(self).movements@ == old(self).movements@,
            final(self).collisions@ == old(self).collisions@,
            final(self).players@ == old(self).players@,
            final(self).fighters@ == old(self).fighters@,
            final(self).basic_ais@ == old(self).basic_ais@,
    {
        self.labels[e.id] = Some(c);
    }

    pub fn attach_position(&mut self, e: Entity, c: PositionComponent)
        requires
            old(self).wf(),
            old(self).contains(e),
        ensures
            final(self).wf(),
            final(self).num_entities() == old(self).num_entities(),
            final(self).positions@ == old(self).positions@.update(e.id as int, Some(c)),
            final(self).labels@ == old(self).labels@,
            final(self).renders@ == old(self).renders@,
            final(self).movements@ == old(self).movements@,
            final(self).collisions@ == old(self).collisions@,
            final(self).players@ == old(self).players@,
            final(self).fighters@ == old(self).fighters@,
            final(self).basic_ais@ == old(self).basic_ais@,
    {
        self.positions[e.id] = Some(c);
    }

    pub fn attach_render(&mut self, e: Entity, c: RenderComponent)
        requires
            old(self).wf(),
            old(self).contains(e),
        ensures
            final(self).wf(),
            final(self).num_entities() == old(self).num_entities(),
            final(self).renders@ == old(self).renders@.update(e.id as int, Some(c)),
            final(self).labels@ == old(self).labels@,
            final(self).positions@ == old(self).positions@,
            final(self).movements@ == old(self).movements@,
            final(self).collisions@ == old(self).collisions@,
            final(self).players@ == old(self).players@,
            final(self).fighters@ == old(self).fighters@,
            final(self).basic_ais@ == old(self).basic_ais@,
    {
        self.renders[e.id] = Some(c);
    }

    pub fn attach_movement(&mut self, e: Entity, c: MovementComponent)
        requires
            old(self).wf(),
            old(self).contains(e),
        ensures
            final(self).wf(),
            final(self).num_entities() == old(self).num_entities(),
            final(self).movements@ == old(self).movements@.update(e.id as int, Some(c)),
            final(self).labels@ == old(self).labels@,
            final(self).positions@ == old(self).positions@,
            final(self).renders@ == old(self).renders@,
            final(self).collisions@ == old(self).collisions@,
            final(self).players@ == old(self).players@,
            final(self).fighters@ == old(self).fighters@,
            final(self).basic_ais@ == old(self).basic_ais@,
    {
        self.movements[e.id] = Some(c);
    }

    pub fn attach_collision(&mut self, e: Entity, c: CollisionComponent)
        requires
            old(self).wf(),
            old(self).contains(e),
        ensures
            final(self).wf(),
            final(self).num_entities() == old(self).num_entities(),
            final(self).collisions@ == old(self).collisions@.update(e.id as int, Some(c)),
            final(self).labels@ == old(self).labels@,
            final(self).positions@ == old(self).positions@,
            final(self).renders@ == old(self).renders@,
            final(self).movements@ == old(self).movements@,
            final(self).players@ == old(self).players@,
            final(self).fighters@ == old(self).fighters@,
            final(self).basic_ais@ == old(self).basic_ais@,
    {
        self.collisions[e.id] = Some(c);
    }

    pub fn attach_player(&mut self, e: Entity, c: PlayerComponent)
        requires
            old(self).wf(),
            old(self).contains(e),
        ensures
            final(self).wf(),
            final(self).num_entities() == old(self).num_entities(),
            final(self).players@ == old(self).players@.update(e.id as int, Some(c)),
            final(self).labels@ == old(self).labels@,
            final(self).positions@ == old(self).positions@,
            final(self).renders@ == old(self).renders@,
            final(self).movements@ == old(self).movements@,
            final(self).collisions@ == old(self).collisions@,
            final(self).fighters@ == old(self).fighters@,
            final(self).basic_ais@ == old(self).basic_ais@,
    {
        self.players[e.id] = Some(c);
    }

    pub fn attach_fighter(&mut self, e: Entity, c: FighterComponent)
        requires
            old(self).wf(),
            old(self).contains(e),
        ensures
            final(self).wf(),
            final(self).num_entities() == old(self).num_entities(),
            final(self).fighters@ == old(self).fighters@.update(e.id as int, Some(c)),
            final(self).labels@ == old(self).labels@,
            final(self).positions@ == old(self).positions@,
            final(self).renders@ == old(self).renders@,
            final(self).movements@ == old(self).movements@,
            final(self).collisions@ == old(self).collisions@,
            final(self).players@ == old(self).players@,
            final(self).basic_ais@ == old(self).basic_ais@,
    {
        self.fighters[e.id] = Some(c);
    }

    pub fn attach_basic_ai(&mut self, e: Entity, c: BasicAiComponent)
        requires
            old(self).wf(),
            old(self).contains(e),
        ensures
            final(self).wf(),
            final(self).num_entities() == old(self).num_entities(),
            final(self).basic_ais@ == old(self).basic_ais@.update(e.id as int, Some(c)),
            final(self).labels@ == old(self).labels@,
            final(self).positions@ == old(self).positions@,
            final(self).renders@ == old(self).renders@,
            final(self).movements@ == old(self).movements@,
            final(self).collisions@ == old(self).collisions@,
            final(self).players@ == old(self).players@,
            final(self).fighters@ == old(self).fighters@,
    {
        self.basic_ais[e.id] = Some(c);
    }

    pub fn get_label(&self, e: Entity) -> (r: &Option<LabelComponent>)
        requires
            self.wf(),
            self.contains(e),
        ensures
            *r == self.labels@[e.id as int],
    {
        &self.labels[e.id]
    }

    pub fn get_position(&self, e: Entity) -> (r: &Option<PositionComponent>)
        requires
            self.wf(),
            self.contains(e),
        ensures
            *r == self.positions@[e.id as int],
    {
        &self.positions[e.id]
    }

    pub fn get_render(&self, e: Entity) -> (r: &Option<RenderComponent>)
        requires
            self.wf(),
            self.contains(e),
        ensures
            *r == self.renders@[e.id as int],
    {
        &self.renders[e.id]
    }

    pub fn get_movement(&self, e: Entity) -> (r: &Option<MovementComponent>)
        requires
            self.wf(),
            self.contains(e),
        ensures
            *r == self.movements@[e.id as int],
    {
        &self.movements[e.id]
    }

    pub fn get_collision(&self, e: Entity) -> (r: &Option<CollisionComponent>)
        requires
            self.wf(),
            self.contains(e),
        ensures
            *r == self.collisions@[e.id as int],
    {
        &self.collisions[e.id]
    }

    pub fn get_player(&self, e: Entity) -> (r: &Option<PlayerComponent>)
        requires
            self.wf(),
            self.contains(e),
        ensures
            *r == self.players@[e.id as int],
    {
        &self.players[e.id]
    }

    pub fn get_fighter(&self, e: Entity) -> (r: &Option<FighterComponent>)
        requires
            self.wf(),
            self.contains(e),
        ensures
            *r == self.fighters@[e.id as int],
    {
        &self.fighters[e.id]
    }

    pub fn get_basic_ai(&self, e: Entity) -> (r: &Option<BasicAiComponent>)
        requires
            self.wf(),
            self.contains(e),
        ensures
            *r == self.basic_ais@[e.id as int],
    {
        &self.basic_ais[e.id]
    }
}

} // verus!

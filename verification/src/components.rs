//! Components attachable to entities, and the per-turn event records
//! that the movement, AI, and combat stages exchange.

use vstd::prelude::*;

verus! {

use crate::coord::Coord;
use crate::map::Color;
use crate::world::Entity;

/// A display name, used when combat events are resolved into log
/// entries.
#[derive(Debug)]
pub struct LabelComponent {
    pub label: String,
}

impl LabelComponent {
    pub fn new(label: &str) -> (r: Self)
        ensures
            r.label@ == label@,
    {
        LabelComponent { label: label.to_owned() }
    }
}

/// Where an entity stands: a coordinate on the map with index `map`.
#[derive(Debug, Clone, Copy, PartialEq, Eq, Structural)]
pub struct PositionComponent {
    pub coord: Coord,
    pub map: usize,
}

/// How an entity is drawn: a glyph, a foreground color, and an optional
/// background color.
#[derive(Debug, Clone, Copy)]
pub struct RenderComponent {
    pub glyph: char,
    pub fg: Color,
    pub bg: Option<Color>,
}

/// A queued movement intent: the vector to add to the current position.
#[derive(Debug, Clone, Copy, PartialEq, Eq, Structural)]
pub struct MoveEvent {
    pub coord: Coord,
}

/// A recorded collision between two entities.
#[derive(Debug, Clone, Copy, PartialEq, Eq, Structural)]
pub struct CollisionEvent {
    pub collider: Entity,
    pub collidee: Entity,
}

/// The per-turn movement mailbox: appended by input handling and AI,
/// consumed by the movement stage, cleared by the event drain.
#[derive(Debug)]
pub struct MovementComponent {
    pub events: Vec<MoveEvent>,
}

impl Default for MovementComponent {
    fn default() -> (d: Self)
        ensures
            d.events@.len() == 0,
    {
        MovementComponent { events: Vec::new() }
    }
}

/// The per-turn collision mailbox; cleared by the event drain each
/// turn.
#[derive(Debug)]
pub struct CollisionComponent {
    pub events: Vec<CollisionEvent>,
}

impl Default for CollisionComponent {
    fn default() -> (d: Self)
        ensures
            d.events@.len() == 0,
    {
        CollisionComponent { events: Vec::new() }
    }
}

/// Marker for the player entity.
#[derive(Debug, Clone, Copy, PartialEq, Eq, Structural)]
pub struct PlayerComponent;

/// A queued combat intent: `attacker` strikes `attackee`.
#[derive(Debug, Clone, Copy, PartialEq, Eq, Structural)]
pub struct CombatEvent {
    pub attacker: Entity,
    pub attackee: Entity,
}

/// Combat capability and state; `events` is the per-turn mailbox of
/// combat intents this entity raised.
#[derive(Debug)]
pub struct FighterComponent {
    pub max_hp: i32,
    pub hp: i32,
    pub defense: i32,
    pub power: i32,
    pub events: Vec<CombatEvent>,
}

impl Default for FighterComponent {
    fn default() -> (d: Self)
        ensures
            d.max_hp == 0,
            d.hp == 0,
            d.defense == 0,
            d.power == 0,
            d.events@.len() == 0,
    {
        FighterComponent { max_hp: 0, hp: 0, defense: 0, power: 0, events: Vec::new() }
    }
}

/// Marker for entities driven by the basic chase-or-strike AI.
#[derive(Debug, Clone, Copy, PartialEq, Eq, Structural)]
pub struct BasicAiComponent;

} // verus!

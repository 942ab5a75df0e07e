//! Factories that assemble the game's entities at world setup.

use vstd::prelude::*;

verus! {

use crate::components::{
    BasicAiComponent, CollisionComponent, FighterComponent, LabelComponent, MovementComponent,
    PlayerComponent, PositionComponent, RenderComponent,
};
use crate::coord::Coord;
use crate::map::Color;
use crate::world::{Entity, World};

/// The stores the factories leave untouched keep every existing slot.
pub open spec fn extends<T>(new: Seq<Option<T>>, old: Seq<Option<T>>) -> bool {
    &&& new.len() == old.len() + 1
    &&& forall|k: int| 0 <= k < old.len() ==> new[k] == old[k]
}

/// Create the player: labeled "player", positioned at `coord` on map 0,
/// drawn as a white `@`, with empty movement and collision mailboxes, a
/// player tag, and a 20-hp fighter with defense 5 and power 5.
pub fn player(world: &mut World, coord: Coord) -> (e: Entity)
    requires
        old(world).wf(),
        old(world).num_entities() < usize::MAX,
    ensures
        final(world).wf(),
        final(world).num_entities() == old(world).num_entities() + 1,
        e.id == old(world).num_entities(),
        extends(final(world).labels@, old(world).labels@),
        extends(final(world).positions@, old(world).positions@),
        extends(final(world).renders@, old(world).renders@),
        extends(final(world).movements@, old(world).movements@),
        extends(final(world).collisions@, old(world).collisions@),
        extends(final(world).players@, old(world).players@),
        extends(final(world).fighters@, old(world).fighters@),
        extends(final(world).basic_ais@, old(world).basic_ais@),
        final(world).labels@[e.id as int] matches Some(l) && l.label@ == "player"@,
        final(world).positions@[e.id as int] == Some(PositionComponent { coord, map: 0 }),
        final(world).renders@[e.id as int] matches Some(r) && r.glyph == '@' && r.fg == (Color {
            r: 255,
            g: 255,
            b: 255,
        }) && r.bg is None,
        final(world).movements@[e.id as int] matches Some(m) && m.events@.len() == 0,
        final(world).collisions@[e.id as int] matches Some(c) && c.events@.len() == 0,
        final(world).players@[e.id as int] == Some(PlayerComponent),
        final(world).fighters@[e.id as int] matches Some(f) && f.max_hp == 20 && f.hp == 20
            && f.defense == 5 && f.power == 5 && f.events@.len() == 0,
        final(world).basic_ais@[e.id as int] is None,
{
    let e = world.create();
    world.attach_label(e, LabelComponent::new("player"));
    world.attach_position(e, PositionComponent { coord, map: 0 });
    world.attach_render(
        e,
        RenderComponent { glyph: '@', fg: Color::white(), bg: None },
    );
    world.attach_movement(e, MovementComponent::default());
    world.attach_collision(e, CollisionComponent::default());
    world.attach_player(e, PlayerComponent);
    world.attach_fighter(
        e,
        FighterComponent { max_hp: 20, hp: 20, defense: 5, power: 5, events: Vec::new() },
    );
    e
}

/// Create an orc: labeled "orc", positioned at `coord` on map 0, drawn
/// as a green `o`, with empty movement and collision mailboxes, a
/// 10-hp fighter with defense 3 and power 3, and the basic AI tag.
pub fn orc(world: &mut World, coord: Coord) -> (e: Entity)
    requires
        old(world).wf(),
        old(world).num_entities() < usize::MAX,
    ensures
        final(world).wf(),
        final(world).num_entities() == old(world).num_entities() + 1,
        e.id == old(world).num_entities(),
        extends(final(world).labels@, old(world).labels@),
        extends(final(world).positions@, old(world).positions@),
        extends(final(world).renders@, old(world).renders@),
        extends(final(world).movements@, old(world).movements@),
        extends(final(world).collisions@, old(world).collisions@),
        extends(final(world).players@, old(world).players@),
        extends(final(world).fighters@, old(world).fighters@),
        extends(final(world).basic_ais@, old(world).basic_ais@),
        final(world).labels@[e.id as int] matches Some(l) && l.label@ == "orc"@,
        final(world).positions@[e.id as int] == Some(PositionComponent { coord, map: 0 }),
        final(world).renders@[e.id as int] matches Some(r) && r.glyph == 'o' && r.fg == (Color {
            r: 0,
            g: 255,
            b: 0,
        }) && r.bg is None,
        final(world).movements@[e.id as int] matches Some(m) && m.events@.len() == 0,
        final(world).collisions@[e.id as int] matches Some(c) && c.events@.len() == 0,
        final(world).players@[e.id as int] is None,
        final(world).fighters@[e.id as int] matches Some(f) && f.max_hp == 10 && f.hp == 10
            && f.defense == 3 && f.power == 3 && f.events@.len() == 0,
        final(world).basic_ais@[e.id as int] == Some(BasicAiComponent),
{
    let e = world.create();
    world.attach_label(e, LabelComponent::new("orc"));
    world.attach_position(e, PositionComponent { coord, map: 0 });
    world.attach_render(
        e,
        RenderComponent { glyph: 'o', fg: Color::green(), bg: None },
    );
    world.attach_movement(e, MovementComponent::default());
    world.attach_collision(e, CollisionComponent::default());
    world.attach_fighter(
        e,
        FighterComponent { max_hp: 10, hp: 10, defense: 3, power: 3, events: Vec::new() },
    );
    world.attach_basic_ai(e, BasicAiComponent);
    e
}

} // verus!

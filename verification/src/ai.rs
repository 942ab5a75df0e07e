//! The AI stage: every tagged non-player entity either raises a combat
//! intent against the player, when its rounded distance to the player
//! is at most 1, or queues a one-step chase vector toward the player.

use vstd::prelude::*;

verus! {

use crate::components::{CombatEvent, MoveEvent, MovementComponent, FighterComponent};
use crate::coord::{sq_dist, Coord};
use crate::world::{Entity, World};

/// Entity `e` qualifies for an AI action: it carries the AI tag, a
/// position, and a movement queue, and the player has a position.
pub open spec fn ai_ready(w: World, player: Entity, e: int) -> bool {
    &&& player.id < w.num_entities()
    &&& w.positions@[player.id as int] is Some
    &&& w.basic_ais@[e] is Some
    &&& w.positions@[e] is Some
    &&& w.movements@[e] is Some
}

/// The squared distance between `e` and the player is at most 2, i.e.
/// the rounded Euclidean distance is at most 1 (see
/// `crate::coord::lemma_rounded_sqrt_le_one`).
pub open spec fn ai_in_combat_range(w: World, player: Entity, e: int) -> bool {
    sq_dist(w.positions@[e].unwrap().coord, w.positions@[player.id as int].unwrap().coord) <= 2
}

/// What the AI stage leaves in `e`'s movement queue: one chase vector
/// appended when the entity acts and is out of combat range, nothing
/// otherwise.
pub open spec fn ai_movement_after(w0: World, w1: World, player: Entity, e: int) -> bool {
    if ai_ready(w0, player, e) && !ai_in_combat_range(w0, player, e) {
        &&& w1.movements@[e] is Some
        &&& w1.movements@[e].unwrap().events@ == w0.movements@[e].unwrap().events@.push(
            MoveEvent {
                coord: w0.positions@[e].unwrap().coord.spec_toward_sign(
                    w0.positions@[player.id as int].unwrap().coord,
                ),
            },
        )
    } else {
        w1.movements@[e] == w0.movements@[e]
    }
}

/// What the AI stage leaves in `e`'s combat mailbox: one intent against
/// the player appended when the entity acts in combat range and has a
/// fighter, nothing otherwise; combat statistics are untouched.
pub open spec fn ai_fighter_after(w0: World, w1: World, player: Entity, e: int) -> bool {
    if ai_ready(w0, player, e) && ai_in_combat_range(w0, player, e) && w0.fighters@[e] is Some {
        &&& w1.fighters@[e] is Some
        &&& w1.fighters@[e].unwrap().events@ == w0.fighters@[e].unwrap().events@.push(
            CombatEvent { attacker: Entity { id: e as usize }, attackee: player },
        )
        &&& w1.fighters@[e].unwrap().max_hp == w0.fighters@[e].unwrap().max_hp
        &&& w1.fighters@[e].unwrap().hp == w0.fighters@[e].unwrap().hp
        &&& w1.fighters@[e].unwrap().defense == w0.fighters@[e].unwrap().defense
        &&& w1.fighters@[e].unwrap().power == w0.fighters@[e].unwrap().power
    } else {
        w1.fighters@[e] == w0.fighters@[e]
    }
}

/// True iff the two coordinates are equal or adjacent, diagonals
/// included; equivalently, the squared distance is at most 2.
fn within_combat_range(a: Coord, b: Coord) -> (r: bool)
    ensures
        r == (sq_dist(a, b) <= 2),
{
    let dx: i64 = a.x as i64 - b.x as i64;
    let dy: i64 = a.y as i64 - b.y as i64;
    let r = -1 <= dx && dx <= 1 && -1 <= dy && dy <= 1;
    proof {
        assert((-1 <= dx <= 1 && -1 <= dy <= 1) == (dx * dx + dy * dy <= 2)) by (nonlinear_arith);
        assert(dx * dx + dy * dy == sq_dist(a, b));
    }
    r
}

/// The basic chase-or-strike AI.
pub struct BasicAiSystem {}

impl BasicAiSystem {
    /// For every entity holding the AI tag, a position, and a movement
    /// queue: raise a combat intent against the player when within
    /// rounded distance 1 (only if the entity has a fighter), else
    /// queue a per-axis sign step toward the player. Entities do
    /// nothing when the player has no position.
    #[verifier::loop_isolation(false)]
    pub fn run(world: &mut World, player: Entity)
        requires
            old(world).wf(),
            player.id < old(world).num_entities(),
        ensures
            final(world).wf(),
            final(world).num_entities() == old(world).num_entities(),
            final(world).labels@ == old(world).labels@,
            final(world).positions@ == old(world).positions@,
            final(world).renders@ == old(world).renders@,
            final(world).collisions@ == old(world).collisions@,
            final(world).players@ == old(world).players@,
            final(world).basic_ais@ == old(world).basic_ais@,
            forall|e: int|
                0 <= e < old(world).num_entities() ==> #[trigger] ai_movement_after(
                    *old(world),
                    *final(world),
                    player,
                    e,
                ),
            forall|e: int|
                0 <= e < old(world).num_entities() ==> #[trigger] ai_fighter_after(
                    *old(world),
                    *final(world),
                    player,
                    e,
                ),
    {
        let ghost w0 = *old(world);
        let player_pos: Option<crate::components::PositionComponent> = *world.get_position(player);
        let n = world.positions.len();
        let mut i: usize = 0;
        while i < n
            invariant
                world.wf(),
                world.num_entities() == n,
                world.labels@ == w0.labels@,
                world.positions@ == w0.positions@,
                world.renders@ == w0.renders@,
                world.collisions@ == w0.collisions@,
                world.players@ == w0.players@,
                world.basic_ais@ == w0.basic_ais@,
                player_pos == w0.positions@[player.id as int],
                i <= n,
                forall|e: int| 0 <= e < i ==> #[trigger] ai_movement_after(w0, *world, player, e),
                forall|e: int| 0 <= e < i ==> #[trigger] ai_fighter_after(w0, *world, player, e),
                forall|e: int| i <= e < n ==> world.movements@[e] == w0.movements@[e],
                forall|e: int| i <= e < n ==> world.fighters@[e] == w0.fighters@[e],
            decreases n - i,
        {
            let e = Entity { id: i };
            let ghost wb = *world;
            if let Some(ppos) = player_pos {
                let self_pos: Option<crate::components::PositionComponent> = *world.get_position(
                    e,
                );
                let acts = world.get_basic_ai(e).is_some() && world.get_movement(e).is_some();
                if acts {
                    if let Some(spos) = self_pos {
                        if within_combat_range(spos.coord, ppos.coord) {
                            match &mut world.fighters[i] {
                                Some(f) => f.events.push(
                                    CombatEvent { attacker: e, attackee: player },
                                ),
                                None => {},
                            }
                        } else {
                            let vx: i32 = if ppos.coord.x > spos.coord.x {
                                1
                            } else if ppos.coord.x < spos.coord.x {
                                -1
                            } else {
                                0
                            };
                            let vy: i32 = if ppos.coord.y > spos.coord.y {
                                1
                            } else if ppos.coord.y < spos.coord.y {
                                -1
                            } else {
                                0
                            };
                            match &mut world.movements[i] {
                                Some(m) => m.events.push(
                                    MoveEvent { coord: Coord { x: vx, y: vy } },
                                ),
                                None => {},
                            }
                        }
                    }
                }
            }
            proof {
                assert(ai_movement_after(w0, *world, player, i as int));
                assert(ai_fighter_after(w0, *world, player, i as int));
                assert forall|e2: int| 0 <= e2 < i + 1 implies #[trigger] ai_movement_after(
                    w0,
                    *world,
                    player,
                    e2,
                ) by {
                    if e2 < i {
                        assert(ai_movement_after(w0, wb, player, e2));
                        assert(world.movements@[e2] == wb.movements@[e2]);
                    }
                }
                assert forall|e2: int| 0 <= e2 < i + 1 implies #[trigger] ai_fighter_after(
                    w0,
                    *world,
                    player,
                    e2,
                ) by {
                    if e2 < i {
                        assert(ai_fighter_after(w0, wb, player, e2));
                        assert(world.fighters@[e2] == wb.fighters@[e2]);
                    }
                }
            }
            i = i + 1;
        }
    }
}

} // verus!

//! The per-turn pipeline: AI resolution, then movement resolution,
//! then the event drain — one full ordered pass per game turn, bracketed
//! outside the core by the presentation stage.

use vstd::prelude::*;

verus! {

use crate::ai::{ai_fighter_after, ai_movement_after, BasicAiSystem};
use crate::components::{CombatEvent, FighterComponent};
use crate::events::{
    all_combat_events, apply_hits, collision_drained, combat_events_valid, fighter_drained,
    movement_drained, pending_event, EventDrain,
};
use crate::map::GameMap;
use crate::movement::{
    all_steps, fev_valid, fighter_events_view, fighter_stats_preserved, lemma_all_steps_fev_valid,
    positions_distinct, positions_in_bounds, positions_occ, MovementSystem,
};
use crate::world::{Entity, World};

/// After a full pass: the fighter is present exactly as before, its
/// statistics are kept, its mailbox is empty, and its hit points have
/// not increased.
pub open spec fn fighter_settled(b: Option<FighterComponent>, a: Option<FighterComponent>) -> bool {
    match (b, a) {
        (Some(f0), Some(f1)) => {
            &&& f1.max_hp == f0.max_hp
            &&& f1.defense == f0.defense
            &&& f1.power == f0.power
            &&& f1.events@.len() == 0
            &&& f1.hp <= f0.hp
        },
        (None, None) => true,
        _ => false,
    }
}


/// The turn is exactly the three stages composed in order: some
/// intermediate worlds `w1` (after AI resolution) and `w2` (after
/// movement resolution) connect the initial world `w0` to the final
/// world `w3`, the resolved occupancy, and the drained log.
pub open spec fn turn_composition(
    w0: World,
    w1: World,
    w2: World,
    w3: World,
    occ_after: Map<crate::coord::Coord, Entity>,
    map: GameMap,
    player: Entity,
    log: Seq<CombatEvent>,
) -> bool {
    let n = w0.num_entities() as int;
    &&& w1.num_entities() == n
    &&& w1.positions@ == w0.positions@
    &&& w1.collisions@ == w0.collisions@
    &&& forall|e: int| 0 <= e < n ==> #[trigger] ai_movement_after(w0, w1, player, e)
    &&& forall|e: int| 0 <= e < n ==> #[trigger] ai_fighter_after(w0, w1, player, e)
    &&& {
        let fold = all_steps(
            map,
            w1.collisions@,
            w1.fighters@,
            w1.movements@,
            (
                w1.positions@,
                fighter_events_view(w1.fighters@),
                positions_occ(w1.positions@),
            ),
            n,
        );
        &&& w2.positions@ == fold.0
        &&& fighter_events_view(w2.fighters@) == fold.1
        &&& occ_after == fold.2
    }
    &&& w2.movements@ == w1.movements@
    &&& w2.collisions@ == w1.collisions@
    &&& forall|e: int|
        0 <= e < n ==> fighter_stats_preserved(w1.fighters@[e], #[trigger] w2.fighters@[e])
    &&& log == all_combat_events(w2.fighters@, n)
    &&& w3.positions@ == w2.positions@
    &&& forall|e: int|
        0 <= e < n ==> fighter_drained(
            apply_hits(w2.fighters@, all_combat_events(w2.fighters@, n))[e],
            #[trigger] w3.fighters@[e],
        )
}

/// The fixed, dependency-ordered execution of the simulation stages.
pub struct TurnPipeline {}

impl TurnPipeline {
    /// One full turn: AI intents, then movement resolution against the
    /// map and the occupancy, then the drain, whose resolved combat
    /// records are returned. Afterwards every per-turn mailbox is
    /// empty, and positions are still in bounds and pairwise distinct.
    #[verifier::rlimit(100)]
    pub fn run_turn(
        world: &mut World,
        movement: &mut MovementSystem,
        map: &GameMap,
        player: Entity,
    ) -> (log: Vec<CombatEvent>)
        requires
            old(world).wf(),
            map.wf(),
            player.id < old(world).num_entities(),
            old(world).fighters@[player.id as int] is Some,
            positions_in_bounds(old(world).positions@, *map),
            positions_distinct(old(world).positions@),
            combat_events_valid(*old(world)),
        ensures
            final(world).wf(),
            final(world).num_entities() == old(world).num_entities(),
            final(world).labels@ == old(world).labels@,
            final(world).renders@ == old(world).renders@,
            final(world).players@ == old(world).players@,
            final(world).basic_ais@ == old(world).basic_ais@,
            forall|e: int|
                0 <= e < old(world).num_entities() ==> movement_drained(
                    old(world).movements@[e],
                    #[trigger] final(world).movements@[e],
                ),
            forall|e: int|
                0 <= e < old(world).num_entities() ==> collision_drained(
                    old(world).collisions@[e],
                    #[trigger] final(world).collisions@[e],
                ),
            forall|e: int|
                0 <= e < old(world).num_entities() ==> fighter_settled(
                    old(world).fighters@[e],
                    #[trigger] final(world).fighters@[e],
                ),
            positions_in_bounds(final(world).positions@, *map),
            positions_distinct(final(world).positions@),
            forall|k: int|
                0 <= k < log@.len() ==> {
                    let ev = #[trigger] log@[k];
                    &&& ev.attacker.id < old(world).num_entities()
                    &&& old(world).fighters@[ev.attacker.id as int] is Some
                    &&& ev.attackee.id < old(world).num_entities()
                    &&& old(world).fighters@[ev.attackee.id as int] is Some
                },
            exists|wa: World, wm: World|
                #[trigger] turn_composition(
                    *old(world),
                    wa,
                    wm,
                    *final(world),
                    final(movement).occupied_coords.view_map(),
                    *map,
                    player,
                    log@,
                ),
    {
        let ghost w0 = *old(world);
        let n_exec: usize = world.positions.len();
        let ghost n = n_exec as int;
        BasicAiSystem::run(world, player);
        let ghost w1 = *world;
        proof {
            assert forall|e: int| 0 <= e < n implies (#[trigger] w1.fighters@[e] is Some
                <==> w0.fighters@[e] is Some) by {
                assert(crate::ai::ai_fighter_after(w0, w1, player, e));
            }
        }
        movement.run(world, map);
        let ghost w2 = *world;
        proof {
            assert forall|e: int| 0 <= e < n implies (#[trigger] w2.fighters@[e] is Some
                <==> w1.fighters@[e] is Some) by {
                assert(crate::movement::fighter_stats_preserved(
                    w1.fighters@[e],
                    w2.fighters@[e],
                ));
            }
            // Queued combat records in w1 are the pre-existing ones,
            // still resolvable, plus the AI's, whose two sides have
            // fighters by construction.
            assert forall|e: int, k: int|
                0 <= e < fighter_events_view(w1.fighters@).len() && 0 <= k < fighter_events_view(
                    w1.fighters@,
                )[e].len() implies {
                let ev = #[trigger] fighter_events_view(w1.fighters@)[e][k];
                &&& ev.attacker.id < w1.fighters@.len()
                &&& w1.fighters@[ev.attacker.id as int] is Some
                &&& ev.attackee.id < w1.fighters@.len()
                &&& w1.fighters@[ev.attackee.id as int] is Some
            } by {
                assert(crate::ai::ai_fighter_after(w0, w1, player, e));
                assert(w1.fighters@[e] is Some);
                let ev = fighter_events_view(w1.fighters@)[e][k];
                assert(fighter_events_view(w1.fighters@)[e] == w1.fighters@[e].unwrap().events@);
                if crate::ai::ai_ready(w0, player, e) && crate::ai::ai_in_combat_range(
                    w0,
                    player,
                    e,
                ) && w0.fighters@[e] is Some {
                    if k < w0.fighters@[e].unwrap().events@.len() {
                        assert(ev == pending_event(w0, e, k));
                        assert(crate::events::valid_combat_event(w0, ev));
                        assert(w1.fighters@[ev.attacker.id as int] is Some);
                        assert(w1.fighters@[ev.attackee.id as int] is Some);
                    } else {
                        assert(ev == (CombatEvent {
                            attacker: Entity { id: e as usize },
                            attackee: player,
                        }));
                        assert(w1.fighters@[player.id as int] is Some);
                    }
                } else {
                    assert(w1.fighters@[e] == w0.fighters@[e]);
                    assert(ev == pending_event(w0, e, k));
                    assert(crate::events::valid_combat_event(w0, ev));
                    assert(w1.fighters@[ev.attacker.id as int] is Some);
                    assert(w1.fighters@[ev.attackee.id as int] is Some);
                }
            }
            assert(fev_valid(fighter_events_view(w1.fighters@), w1.fighters@));
            lemma_all_steps_fev_valid(
                *map,
                w1.collisions@,
                w1.fighters@,
                w1.movements@,
                (
                    w1.positions@,
                    fighter_events_view(w1.fighters@),
                    crate::movement::positions_occ(w1.positions@),
                ),
                n,
            );
            // Translate the queue-level validity into the drain's
            // stage contract on the post-movement world.
            assert forall|e: int, k: int|
                0 <= e < w2.num_entities() && w2.fighters@[e] is Some && 0 <= k
                    < w2.fighters@[e].unwrap().events@.len() implies crate::events::valid_combat_event(
                w2,
                #[trigger] pending_event(w2, e, k),
            ) by {
                assert(fighter_events_view(w2.fighters@)[e] == w2.fighters@[e].unwrap().events@);
                assert(pending_event(w2, e, k) == fighter_events_view(w2.fighters@)[e][k]);
            }
            assert(combat_events_valid(w2));
        }
        let log = EventDrain::run(world);
        proof {
            crate::events::lemma_apply_hits_preserves(
                w2.fighters@,
                crate::events::all_combat_events(w2.fighters@, n),
            );
            crate::events::lemma_all_events_valid(w2, n);
            assert forall|e: int| 0 <= e < n implies fighter_settled(
                w0.fighters@[e],
                #[trigger] world.fighters@[e],
            ) by {
                assert(crate::ai::ai_fighter_after(w0, w1, player, e));
                assert(crate::movement::fighter_stats_preserved(
                    w1.fighters@[e],
                    w2.fighters@[e],
                ));
            }
            assert forall|e: int| 0 <= e < n implies movement_drained(
                w0.movements@[e],
                #[trigger] world.movements@[e],
            ) by {
                assert(crate::ai::ai_movement_after(w0, w1, player, e));
            }
            assert(turn_composition(
                w0,
                w1,
                w2,
                *world,
                movement.occupied_coords.view_map(),
                *map,
                player,
                log@,
            ));
        }
        log
    }
}

} // verus!

//! The decision half of the presentation stage: mapping a pressed key
//! to an input action, and applying that action to the world and the
//! running flag. Drawing and the blocking key read live outside the
//! verified core.

use vstd::prelude::*;

verus! {

use crate::components::MoveEvent;
use crate::coord::Coord;
use crate::game_state::GameState;
use crate::world::World;

/// One decoded keypress: an 8-directional move, an explicit wait, or
/// nothing recognized.
#[derive(Debug, Clone, Copy, PartialEq, Eq, Structural)]
pub enum InputAction {
    Move(i32, i32),
    Wait,
    Nothing,
}

/// The keyboard layout: vi-style movement keys, `.` to wait.
pub open spec fn spec_key_action(key: char) -> InputAction {
    if key == 'k' {
        InputAction::Move(0i32, -1i32)
    } else if key == 'j' {
        InputAction::Move(0i32, 1i32)
    } else if key == 'h' {
        InputAction::Move(-1i32, 0i32)
    } else if key == 'l' {
        InputAction::Move(1i32, 0i32)
    } else if key == 'y' {
        InputAction::Move(-1i32, -1i32)
    } else if key == 'u' {
        InputAction::Move(1i32, -1i32)
    } else if key == 'n' {
        InputAction::Move(-1i32, 1i32)
    } else if key == 'm' {
        InputAction::Move(1i32, 1i32)
    } else if key == '.' {
        InputAction::Wait
    } else {
        InputAction::Nothing
    }
}

/// What one keypress leaves in each player-tagged entity's movement
/// queue: the decoded vector appended when the key moves and the entity
/// has a movement queue, nothing otherwise.
pub open spec fn player_move_queued(w0: World, w1: World, dx: int, dy: int, e: int) -> bool {
    if w0.players@[e] is Some && w0.movements@[e] is Some {
        &&& w1.movements@[e] is Some
        &&& w1.movements@[e].unwrap().events@ == w0.movements@[e].unwrap().events@.push(
            MoveEvent { coord: Coord { x: dx as i32, y: dy as i32 } },
        )
    } else {
        w1.movements@[e] == w0.movements@[e]
    }
}

/// The presentation stage's mutable half: it owns no verified state of
/// its own, since the drawing surface and the field-of-view engine live
/// outside the core.
pub struct TcodSystem {}

impl TcodSystem {
    /// Decode one pressed key.
    pub fn key_action(key: char) -> (a: InputAction)
        ensures
            a == spec_key_action(key),
    {
        if key == 'k' {
            InputAction::Move(0, -1)
        } else if key == 'j' {
            InputAction::Move(0, 1)
        } else if key == 'h' {
            InputAction::Move(-1, 0)
        } else if key == 'l' {
            InputAction::Move(1, 0)
        } else if key == 'y' {
            InputAction::Move(-1, -1)
        } else if key == 'u' {
            InputAction::Move(1, -1)
        } else if key == 'n' {
            InputAction::Move(-1, 1)
        } else if key == 'm' {
            InputAction::Move(1, 1)
        } else if key == '.' {
            InputAction::Wait
        } else {
            InputAction::Nothing
        }
    }

    /// Enqueue the decoded move vector onto every player-tagged
    /// entity's movement queue.
    #[verifier::loop_isolation(false)]
    pub fn queue_player_move(world: &mut World, dx: i32, dy: i32)
        requires
            old(world).wf(),
        ensures
            final(world).wf(),
            final(world).num_entities() == old(world).num_entities(),
            final(world).labels@ == old(world).labels@,
            final(world).positions@ == old(world).positions@,
            final(world).renders@ == old(world).renders@,
            final(world).collisions@ == old(world).collisions@,
            final(world).players@ == old(world).players@,
            final(world).fighters@ == old(world).fighters@,
            final(world).basic_ais@ == old(world).basic_ais@,
            forall|e: int|
                0 <= e < old(world).num_entities() ==> #[trigger] player_move_queued(
                    *old(world),
                    *final(world),
                    dx as int,
                    dy as int,
                    e,
                ),
    {
        let ghost w0 = *old(world);
        let n = world.players.len();
        let mut i: usize = 0;
        while i < n
            invariant
                world.wf(),
                world.num_entities() == n,
                world.labels@ == w0.labels@,
                world.positions@ == w0.positions@,
                world.renders@ == w0.renders@,
                world.collisions@ == w0.collisions@,
                world.players@ == w0.players@,
                world.fighters@ == w0.fighters@,
                world.basic_ais@ == w0.basic_ais@,
                i <= n,
                forall|e: int|
                    0 <= e < i ==> #[trigger] player_move_queued(
                        w0,
                        *world,
                        dx as int,
                        dy as int,
                        e,
                    ),
                forall|e: int| i <= e < n ==> world.movements@[e] == w0.movements@[e],
            decreases n - i,
        {
            let ghost wb = *world;
            let is_player = match &world.players[i] {
                Some(_) => true,
                None => false,
            };
            if is_player {
                match &mut world.movements[i] {
                    Some(m) => m.events.push(MoveEvent { coord: Coord { x: dx, y: dy } }),
                    None => {},
                }
            }
            proof {
                assert(player_move_queued(w0, *world, dx as int, dy as int, i as int));
                assert forall|e: int| 0 <= e < i + 1 implies #[trigger] player_move_queued(
                    w0,
                    *world,
                    dx as int,
                    dy as int,
                    e,
                ) by {
                    if e < i {
                        assert(player_move_queued(w0, wb, dx as int, dy as int, e));
                        assert(world.movements@[e] == wb.movements@[e]);
                    }
                }
            }
            i = i + 1;
        }
    }

    /// Apply one keypress: a movement key enqueues the vector for the
    /// player and ends the presentation stage for this turn; `q` clears
    /// the running flag; any other key changes nothing. The stage is
    /// over exactly when a move was queued or the game stopped running.
    pub fn handle_key(world: &mut World, state: &mut GameState, key: char) -> (done: bool)
        requires
            old(world).wf(),
        ensures
            final(world).wf(),
            final(world).num_entities() == old(world).num_entities(),
            final(state).maps@ == old(state).maps@,
            final(state).map == old(state).map,
            final(world).labels@ == old(world).labels@,
            final(world).positions@ == old(world).positions@,
            final(world).renders@ == old(world).renders@,
            final(world).collisions@ == old(world).collisions@,
            final(world).players@ == old(world).players@,
            final(world).fighters@ == old(world).fighters@,
            final(world).basic_ais@ == old(world).basic_ais@,
            (spec_key_action(key) matches InputAction::Move(dx, dy) ==> {
                &&& final(state).running == old(state).running
                &&& done
                &&& forall|e: int|
                    0 <= e < old(world).num_entities() ==> #[trigger] player_move_queued(
                        *old(world),
                        *final(world),
                        dx as int,
                        dy as int,
                        e,
                    )
            }),
            (!(spec_key_action(key) matches InputAction::Move(dx, dy)) ==> {
                &&& forall|e: int|
                    0 <= e < old(world).num_entities()
                        ==> #[trigger] final(world).movements@[e] == old(world).movements@[e]
                &&& final(state).running == (old(state).running && key != 'q')
                &&& done == !final(state).running
            }),
    {
        let action = Self::key_action(key);
        match action {
            InputAction::Move(dx, dy) => {
                Self::queue_player_move(world, dx, dy);
                true
            },
            _ => {
                if key == 'q' {
                    state.running = false;
                }
                !state.running
            },
        }
    }
}

} // verus!

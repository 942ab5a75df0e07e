use roguelike::ai::BasicAiSystem;
use roguelike::components::{CombatEvent, FighterComponent};
use roguelike::coord::Coord;
use roguelike::events::{format_combat_log, CombatSystem, EventDrain};
use roguelike::factories;
use roguelike::map::{GameMap, Tile};
use roguelike::movement::MovementSystem;
use roguelike::pipeline::TurnPipeline;
use roguelike::presentation::TcodSystem;
use roguelike::world::World;

fn floor_map(height: i32, width: i32) -> GameMap {
    GameMap {
        tiles: vec![Tile::empty(); (height * width) as usize],
        height,
        width,
        start: Coord::new(0, 0),
    }
}

#[test]
fn test_ai_adjacent_emits_combat_intent() {
    let mut world = World::new();
    let player = factories::player(&mut world, Coord::new(2, 1));
    let orc = factories::orc(&mut world, Coord::new(2, 2));
    BasicAiSystem::run(&mut world, player);
    let fighter = world.get_fighter(orc).as_ref().unwrap();
    assert_eq!(
        vec![CombatEvent { attacker: orc, attackee: player }],
        fighter.events
    );
    assert!(world.get_movement(orc).as_ref().unwrap().events.is_empty());
}

#[test]
fn test_ai_distant_emits_chase_intent() {
    let mut world = World::new();
    let player = factories::player(&mut world, Coord::new(2, 1));
    let orc = factories::orc(&mut world, Coord::new(7, 7));
    BasicAiSystem::run(&mut world, player);
    let movement = world.get_movement(orc).as_ref().unwrap();
    assert_eq!(1, movement.events.len());
    assert_eq!(Coord::new(-1, -1), movement.events[0].coord);
    assert!(world.get_fighter(orc).as_ref().unwrap().events.is_empty());
}

#[test]
fn test_move_resolution_simple_step() {
    // 5x5 all-floor map, player at (1,1) issues move (1,0).
    let map = floor_map(5, 5);
    let mut world = World::new();
    let player = factories::player(&mut world, Coord::new(1, 1));
    TcodSystem::queue_player_move(&mut world, 1, 0);
    let mut movement = MovementSystem::new();
    movement.run(&mut world, &map);
    assert_eq!(Coord::new(2, 1), world.get_position(player).unwrap().coord);
    assert_eq!(Some(player), movement.occupant(&Coord::new(2, 1)));
    assert_eq!(None, movement.occupant(&Coord::new(1, 1)));
}

#[test]
fn test_move_blocked_by_wall_and_edge() {
    let map = GameMap::make_empty_map(5, 5);
    let mut world = World::new();
    // All walls: any move is dropped.
    let player = factories::player(&mut world, Coord::new(1, 1));
    TcodSystem::queue_player_move(&mut world, 1, 0);
    let mut movement = MovementSystem::new();
    movement.run(&mut world, &map);
    assert_eq!(Coord::new(1, 1), world.get_position(player).unwrap().coord);
    assert_eq!(Some(player), movement.occupant(&Coord::new(1, 1)));

    // Off the edge of a floor map: also dropped.
    let floor = floor_map(3, 3);
    let mut world2 = World::new();
    let p2 = factories::player(&mut world2, Coord::new(0, 0));
    TcodSystem::queue_player_move(&mut world2, -1, 0);
    let mut movement2 = MovementSystem::new();
    movement2.run(&mut world2, &floor);
    assert_eq!(Coord::new(0, 0), world2.get_position(p2).unwrap().coord);
}

#[test]
fn test_move_onto_noncombat_entity_blocks_silently() {
    let map = floor_map(5, 5);
    let mut world = World::new();
    let player = factories::player(&mut world, Coord::new(1, 1));
    // A bare obstacle: a position but no fighter or collision queue.
    let blocker = world.create();
    world.attach_position(
        blocker,
        roguelike::components::PositionComponent { coord: Coord::new(2, 1), map: 0 },
    );
    TcodSystem::queue_player_move(&mut world, 1, 0);
    let mut movement = MovementSystem::new();
    movement.run(&mut world, &map);
    // The mover keeps its prior coordinate and no intent is raised.
    assert_eq!(Coord::new(1, 1), world.get_position(player).unwrap().coord);
    assert!(world.get_fighter(player).as_ref().unwrap().events.is_empty());
    assert_eq!(Some(player), movement.occupant(&Coord::new(1, 1)));
    assert_eq!(Some(blocker), movement.occupant(&Coord::new(2, 1)));
}

#[test]
fn test_move_onto_combat_entity_raises_intent() {
    let map = floor_map(5, 5);
    let mut world = World::new();
    let player = factories::player(&mut world, Coord::new(1, 1));
    let orc = factories::orc(&mut world, Coord::new(2, 1));
    TcodSystem::queue_player_move(&mut world, 1, 0);
    let mut movement = MovementSystem::new();
    movement.run(&mut world, &map);
    assert_eq!(Coord::new(1, 1), world.get_position(player).unwrap().coord);
    assert_eq!(
        vec![CombatEvent { attacker: player, attackee: orc }],
        world.get_fighter(player).as_ref().unwrap().events
    );
}

#[test]
fn test_drain_applies_damage_and_empties_queues() {
    let mut world = World::new();
    let player = factories::player(&mut world, Coord::new(1, 1));
    let orc = factories::orc(&mut world, Coord::new(2, 1));
    // Player (power 5) strikes the orc (defense 3): 2 damage.
    world.fighters[player.id]
        .as_mut()
        .unwrap()
        .events
        .push(CombatEvent { attacker: player, attackee: orc });
    let pending = CombatSystem::run(&world);
    assert_eq!(vec![CombatEvent { attacker: player, attackee: orc }], pending);
    let log = EventDrain::run(&mut world);
    assert_eq!(pending, log);
    assert_eq!(8, world.get_fighter(orc).as_ref().unwrap().hp);
    assert_eq!(20, world.get_fighter(player).as_ref().unwrap().hp);
    assert!(world.get_fighter(player).as_ref().unwrap().events.is_empty());
    assert!(world.get_movement(player).as_ref().unwrap().events.is_empty());
    assert!(world.get_collision(player).as_ref().unwrap().events.is_empty());
    let lines = format_combat_log(&world, &log);
    assert_eq!(vec![String::from("player attacks orc")], lines);
}

#[test]
fn test_turn_pass_adjacent_orc_strikes() {
    // Orc (Fighter) at (2,2), player (Fighter) at (2,1), orc tagged
    // with the basic AI: one pass logs {attacker: orc, attackee:
    // player}; damage is max(0, 3 - 5) = 0.
    let map = floor_map(5, 5);
    let mut world = World::new();
    let player = factories::player(&mut world, Coord::new(2, 1));
    let orc = factories::orc(&mut world, Coord::new(2, 2));
    let mut movement = MovementSystem::new();
    let log = TurnPipeline::run_turn(&mut world, &mut movement, &map, player);
    assert_eq!(vec![CombatEvent { attacker: orc, attackee: player }], log);
    assert_eq!(20, world.get_fighter(player).as_ref().unwrap().hp);
    assert_eq!(Coord::new(2, 2), world.get_position(orc).unwrap().coord);
}

#[test]
fn test_turn_pass_empties_all_queues() {
    let map = floor_map(6, 6);
    let mut world = World::new();
    let player = factories::player(&mut world, Coord::new(1, 1));
    let orc = factories::orc(&mut world, Coord::new(4, 4));
    TcodSystem::queue_player_move(&mut world, 1, 0);
    let mut movement = MovementSystem::new();
    let _log = TurnPipeline::run_turn(&mut world, &mut movement, &map, player);
    let ids = [player, orc];
    for e in ids {
        assert!(world.get_movement(e).as_ref().unwrap().events.is_empty());
        assert!(world.get_collision(e).as_ref().unwrap().events.is_empty());
        assert!(world.get_fighter(e).as_ref().unwrap().events.is_empty());
    }
    // The player's queued move was resolved, the orc chased one step.
    assert_eq!(Coord::new(2, 1), world.get_position(player).unwrap().coord);
    assert_eq!(Coord::new(3, 3), world.get_position(orc).unwrap().coord);
}

#[test]
fn test_drain_damage_saturates_at_minimum() {
    let mut world = World::new();
    let a = world.create();
    let b = world.create();
    world.attach_fighter(
        a,
        FighterComponent { max_hp: 10, hp: 10, defense: 0, power: 5, events: Vec::new() },
    );
    world.attach_fighter(
        b,
        FighterComponent { max_hp: 10, hp: i32::MIN + 2, defense: 0, power: 0, events: Vec::new() },
    );
    world.fighters[a.id]
        .as_mut()
        .unwrap()
        .events
        .push(CombatEvent { attacker: a, attackee: b });
    let _log = EventDrain::run(&mut world);
    assert_eq!(i32::MIN, world.get_fighter(b).as_ref().unwrap().hp);
}

use roguelike::coord::Coord;
use roguelike::factories;
use roguelike::game_state::GameState;
use roguelike::map::{GameMap, Tile};
use roguelike::presentation::{InputAction, TcodSystem};
use roguelike::visibility::{fov_inputs, mark_explored, tile_render};
use roguelike::world::World;

#[test]
fn test_key_action_mapping() {
    assert_eq!(InputAction::Move(0, -1), TcodSystem::key_action('k'));
    assert_eq!(InputAction::Move(0, 1), TcodSystem::key_action('j'));
    assert_eq!(InputAction::Move(-1, 0), TcodSystem::key_action('h'));
    assert_eq!(InputAction::Move(1, 0), TcodSystem::key_action('l'));
    assert_eq!(InputAction::Move(-1, -1), TcodSystem::key_action('y'));
    assert_eq!(InputAction::Move(1, -1), TcodSystem::key_action('u'));
    assert_eq!(InputAction::Move(-1, 1), TcodSystem::key_action('n'));
    assert_eq!(InputAction::Move(1, 1), TcodSystem::key_action('m'));
    assert_eq!(InputAction::Wait, TcodSystem::key_action('.'));
    assert_eq!(InputAction::Nothing, TcodSystem::key_action('q'));
    assert_eq!(InputAction::Nothing, TcodSystem::key_action('x'));
}

#[test]
fn test_handle_key_move_enqueues_and_ends_stage() {
    let mut world = World::new();
    let player = factories::player(&mut world, Coord::new(1, 1));
    let mut state = GameState::new(vec![GameMap::make_empty_map(5, 5)]);
    let done = TcodSystem::handle_key(&mut world, &mut state, 'k');
    assert!(done);
    assert!(state.running);
    let movement = world.get_movement(player).as_ref().unwrap();
    assert_eq!(1, movement.events.len());
    assert_eq!(Coord::new(0, -1), movement.events[0].coord);
}

#[test]
fn test_handle_key_quit_and_unrecognized() {
    let mut world = World::new();
    let player = factories::player(&mut world, Coord::new(1, 1));
    let mut state = GameState::new(vec![GameMap::make_empty_map(5, 5)]);
    // Unrecognized keys keep waiting.
    assert!(!TcodSystem::handle_key(&mut world, &mut state, 'x'));
    assert!(state.running);
    // The wait key does not end the stage either.
    assert!(!TcodSystem::handle_key(&mut world, &mut state, '.'));
    assert!(state.running);
    assert!(world.get_movement(player).as_ref().unwrap().events.is_empty());
    // Quit clears the running flag and ends the stage.
    assert!(TcodSystem::handle_key(&mut world, &mut state, 'q'));
    assert!(!state.running);
}

#[test]
fn test_tile_render_palette() {
    let mut tile = Tile::empty();
    assert_eq!(Some(tile.bg_lit), tile_render(&tile, true));
    assert_eq!(None, tile_render(&tile, false));
    tile.explored = true;
    assert_eq!(Some(tile.bg_dark), tile_render(&tile, false));
    assert_eq!(Some(tile.bg_lit), tile_render(&tile, true));
}

#[test]
fn test_mark_explored() {
    let mut map = GameMap::make_empty_map(4, 4);
    let visible = vec![Coord::new(1, 1), Coord::new(2, 1), Coord::new(-3, 9)];
    mark_explored(&mut map, &visible);
    assert!(map.get(&Coord::new(1, 1)).explored);
    assert!(map.get(&Coord::new(2, 1)).explored);
    assert!(!map.get(&Coord::new(0, 0)).explored);
    // Walkability and palettes are untouched.
    assert!(map.get(&Coord::new(1, 1)).blocked);
    // Explored marks are permanent across further calls.
    mark_explored(&mut map, &vec![Coord::new(0, 0)]);
    assert!(map.get(&Coord::new(1, 1)).explored);
    assert!(map.get(&Coord::new(0, 0)).explored);
}

#[test]
fn test_fov_inputs() {
    let mut map = GameMap::make_empty_map(3, 3);
    map.set(Tile::empty(), &Coord::new(1, 2));
    let grid = fov_inputs(&map);
    assert_eq!(9, grid.len());
    // Walls are neither transparent nor walkable.
    assert_eq!((false, false), grid[0]);
    // Ground is both; index y*width+x = 2*3+1.
    assert_eq!((true, true), grid[7]);
}

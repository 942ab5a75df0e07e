use roguelike::components::{FighterComponent, LabelComponent, PositionComponent};
use roguelike::coord::Coord;
use roguelike::factories;
use roguelike::game_state::GameState;
use roguelike::map::GameMap;
use roguelike::world::{Entity, World};

#[test]
fn test_create_entities_fresh_ids() {
    let mut world = World::new();
    let a = world.create();
    let b = world.create();
    let c = world.create();
    assert_eq!(0, a.id);
    assert_eq!(1, b.id);
    assert_eq!(2, c.id);
    assert_eq!(3, world.positions.len());
}

#[test]
fn test_attach_and_get() {
    let mut world = World::new();
    let e = world.create();
    assert!(world.get_position(e).is_none());
    world.attach_position(e, PositionComponent { coord: Coord::new(4, 5), map: 0 });
    world.attach_label(e, LabelComponent::new("troll"));
    assert_eq!(
        &Some(PositionComponent { coord: Coord::new(4, 5), map: 0 }),
        world.get_position(e)
    );
    assert_eq!("troll", world.get_label(e).as_ref().unwrap().label);
    assert!(world.get_fighter(e).is_none());
    world.attach_fighter(
        e,
        FighterComponent { max_hp: 8, hp: 8, defense: 1, power: 2, events: Vec::new() },
    );
    assert_eq!(2, world.get_fighter(e).as_ref().unwrap().power);
}

#[test]
fn test_player_factory() {
    let mut world = World::new();
    let player = factories::player(&mut world, Coord::new(3, 7));
    assert_eq!(0, player.id);
    assert_eq!("player", world.get_label(player).as_ref().unwrap().label);
    let pos = world.get_position(player).unwrap();
    assert_eq!(Coord::new(3, 7), pos.coord);
    assert_eq!(0, pos.map);
    let render = world.get_render(player).as_ref().unwrap();
    assert_eq!('@', render.glyph);
    let fighter = world.get_fighter(player).as_ref().unwrap();
    assert_eq!(20, fighter.max_hp);
    assert_eq!(20, fighter.hp);
    assert_eq!(5, fighter.defense);
    assert_eq!(5, fighter.power);
    assert!(world.get_player(player).is_some());
    assert!(world.get_basic_ai(player).is_none());
    assert!(world.get_movement(player).is_some());
    assert!(world.get_collision(player).is_some());
}

#[test]
fn test_orc_factory() {
    let mut world = World::new();
    let _player = factories::player(&mut world, Coord::new(1, 1));
    let orc = factories::orc(&mut world, Coord::new(5, 5));
    assert_eq!(1, orc.id);
    assert_eq!("orc", world.get_label(orc).as_ref().unwrap().label);
    let render = world.get_render(orc).as_ref().unwrap();
    assert_eq!('o', render.glyph);
    let fighter = world.get_fighter(orc).as_ref().unwrap();
    assert_eq!(10, fighter.max_hp);
    assert_eq!(3, fighter.defense);
    assert_eq!(3, fighter.power);
    assert!(world.get_player(orc).is_none());
    assert!(world.get_basic_ai(orc).is_some());
}

#[test]
fn test_game_state_map_access() {
    let maps = vec![GameMap::make_empty_map(4, 4), GameMap::make_empty_map(6, 3)];
    let mut state = GameState::new(maps);
    assert!(state.running);
    assert_eq!(0, state.map);
    assert_eq!(4, state.get_map().height);
    state.map = 1;
    assert_eq!(6, state.get_map().height);
    state.get_map_mut().start = Coord::new(2, 2);
    assert_eq!(Coord::new(2, 2), state.maps[1].start);
}

#[test]
fn test_entity_equality() {
    assert_eq!(Entity { id: 3 }, Entity { id: 3 });
    assert_ne!(Entity { id: 3 }, Entity { id: 4 });
}

use roguelike::coord::Coord;
use roguelike::map::{GameMap, Rect, Tile};

#[test]
fn test_make_map() -> Result<(), String> {
    let map = GameMap::make_empty_map(10, 10);
    assert_eq!(100 as usize, map.tiles.len());
    Ok(())
}

#[test]
fn test_map_set() -> Result<(), String> {
    let mut map = GameMap::make_empty_map(5, 5);
    let coord = Coord::new(1, 1);
    map.set(Tile::wall(), &coord);
    assert_eq!(&Tile::wall(), map.tiles.get(6).unwrap());
    Ok(())
}

#[test]
fn test_map_get() -> Result<(), String> {
    let mut map = GameMap::make_empty_map(5, 5);
    let coord = Coord::new(1, 1);
    map.set(Tile::wall(), &coord);
    assert_eq!(Tile::wall(), map.get(&coord));
    Ok(())
}

#[test]
fn test_can_move() -> Result<(), String> {
    let mut map = GameMap::make_empty_map(5, 5);
    let coord = Coord::new(1, 1);
    map.set(Tile::empty(), &coord);

    assert_eq!(false, map.can_move(&Coord::new(-1, 0)));
    assert_eq!(false, map.can_move(&Coord::new(0, -1)));
    assert_eq!(false, map.can_move(&Coord::new(-1, -1)));
    assert_eq!(false, map.can_move(&Coord::new(5, 5)));

    assert_eq!(true, map.can_move(&Coord::new(1, 1)));

    Ok(())
}

#[test]
fn test_add_room() -> Result<(), String> {
    /*
        Create a 3x3 room on a 5x5 map, starting in the top-left corner.

        #####
        #..##
        #..##
        #####
        #####
    */

    let mut map = GameMap::make_empty_map(5, 5);
    map.add_room(&Rect::new(0, 0, 3, 3));

    assert_eq!(false, map.can_move(&Coord::new(0, 0)));
    assert_eq!(false, map.can_move(&Coord::new(0, 1)));
    assert_eq!(false, map.can_move(&Coord::new(0, 2)));
    assert_eq!(false, map.can_move(&Coord::new(0, 3)));
    assert_eq!(false, map.can_move(&Coord::new(0, 4)));

    assert_eq!(false, map.can_move(&Coord::new(1, 0)));
    assert_eq!(true, map.can_move(&Coord::new(1, 1)));
    assert_eq!(true, map.can_move(&Coord::new(1, 2)));
    assert_eq!(false, map.can_move(&Coord::new(1, 3)));
    assert_eq!(false, map.can_move(&Coord::new(1, 4)));

    assert_eq!(false, map.can_move(&Coord::new(2, 0)));
    assert_eq!(true, map.can_move(&Coord::new(2, 1)));
    assert_eq!(true, map.can_move(&Coord::new(2, 2)));
    assert_eq!(false, map.can_move(&Coord::new(2, 3)));
    assert_eq!(false, map.can_move(&Coord::new(2, 4)));

    Ok(())
}

#[test]
fn test_non_square_indexing() {
    // A 4-row, 7-column map: the row-major index must be y*width+x.
    let mut map = GameMap::make_empty_map(4, 7);
    assert_eq!(28, map.tiles.len());
    let coord = Coord::new(5, 2);
    map.set(Tile::empty(), &coord);
    assert_eq!(&Tile::empty(), map.tiles.get(2 * 7 + 5).unwrap());
    assert_eq!(true, map.can_move(&coord));
    assert_eq!(false, map.can_move(&Coord::new(2, 5)));
}

#[test]
fn test_rect_center_and_intersects() {
    let r = Rect::new(2, 3, 6, 8);
    assert_eq!((5, 7), r.center());
    // Sharing an edge counts as intersecting.
    let touching = Rect::new(8, 3, 4, 4);
    assert_eq!(true, r.intersects_with(&touching));
    assert_eq!(true, touching.intersects_with(&r));
    let separate = Rect::new(9, 3, 4, 4);
    assert_eq!(false, r.intersects_with(&separate));
    let overlapping = Rect::new(4, 5, 2, 2);
    assert_eq!(true, r.intersects_with(&overlapping));
}

#[test]
fn test_dungeon_start_walkable_and_dims() {
    // Any seed: repeat a few times on a non-square map.
    let mut round = 0;
    while round < 5 {
        let map = GameMap::make_dungeon_map(30, 42);
        assert_eq!(30, map.height);
        assert_eq!(42, map.width);
        assert_eq!(true, map.can_move(&map.start));
        round += 1;
    }
}

#[test]
fn test_tunnels() {
    let mut map = GameMap::make_empty_map(9, 9);
    map.add_horizontal_tunnel(2, 6, 4);
    map.add_vertical_tunnel(1, 3, 7);
    for x in 2..7 {
        assert_eq!(true, map.can_move(&Coord::new(x, 4)));
    }
    assert_eq!(false, map.can_move(&Coord::new(1, 4)));
    assert_eq!(false, map.can_move(&Coord::new(7, 4)));
    for y in 1..4 {
        assert_eq!(true, map.can_move(&Coord::new(7, y)));
    }
    assert_eq!(false, map.can_move(&Coord::new(7, 0)));
    assert_eq!(false, map.can_move(&Coord::new(7, 4)));
}

#[test]
fn test_to_s() {
    let mut map = GameMap::make_empty_map(2, 2);
    assert_eq!("##\n##\n", map.to_s());
    map.set(Tile::empty(), &Coord::new(0, 1));
    // Columns print as lines: column x=0 holds (0,0) and (0,1).
    assert_eq!("#.\n##\n", map.to_s());
}

use roguelike::coord::Coord;

#[test]
fn test_new() -> Result<(), String> {
    assert_eq!(Coord { x: 1, y: 2 }, Coord::new(1, 2));
    Ok(())
}

#[test]
fn test_add() -> Result<(), String> {
    let coord = Coord::new(1, 2);
    assert_eq!(Coord { x: 3, y: 5 }, coord.add(&Coord::new(2, 3)));
    Ok(())
}

#[test]
fn test_subtract() -> Result<(), String> {
    let coord = Coord::new(8, 10);
    assert_eq!(Coord { x: 6, y: 7 }, coord.subtract(&Coord::new(2, 3)));
    Ok(())
}

#[test]
fn test_normalize() -> Result<(), String> {
    assert_eq!(Coord { x: 0, y: 0 }, Coord::new(0, 0).normalize());
    assert_eq!(Coord { x: 1, y: 0 }, Coord::new(100, 0).normalize());
    assert_eq!(Coord { x: 1, y: 1 }, Coord::new(2, 3).normalize());
    assert_eq!(Coord { x: -1, y: 1 }, Coord::new(-2, 3).normalize());
    Ok(())
}

#[test]
fn test_distance() -> Result<(), String> {
    assert_eq!(1, Coord::new(0, 0).distance(&Coord::new(1, 1)));
    assert_eq!(4, Coord::new(0, 0).distance(&Coord::new(2, 3)));
    Ok(())
}

#[test]
fn test_add_then_subtract_round_trip() {
    let a = Coord::new(-17, 230);
    let b = Coord::new(45, -9);
    assert_eq!(a, a.add(&b).subtract(&b));
}

#[test]
fn test_toward() {
    assert_eq!(Coord { x: 2, y: -3 }, Coord::new(1, 4).toward(&Coord::new(3, 1)));
}

#[test]
fn test_normalize_extremes() {
    assert_eq!(Coord { x: -1, y: 1 }, Coord::new(i32::MIN, i32::MAX).normalize());
}

#[test]
fn test_distance_zero_and_exact() {
    assert_eq!(0, Coord::new(7, -7).distance(&Coord::new(7, -7)));
    // 3-4-5 triangle: an exact square root.
    assert_eq!(5, Coord::new(0, 0).distance(&Coord::new(3, 4)));
    // sqrt(8) = 2.83, rounds to 3.
    assert_eq!(3, Coord::new(0, 0).distance(&Coord::new(2, 2)));
    // A large distance: sqrt(30000^2 + 40000^2) = 50000.
    assert_eq!(50000, Coord::new(0, 0).distance(&Coord::new(30000, 40000)));
}

#[test]
fn test_distance_at_result_bound() {
    assert_eq!(i32::MAX, Coord::new(0, 0).distance(&Coord::new(i32::MAX, 0)));
}

use cellsim::grid::{offset, Grid, Position};

#[test]
fn clamping_on_ten_by_ten() {
    let g = Grid::init(10, 10);
    assert_eq!(g.resolve(Position::new(12, 5)), g.resolve(Position::new(9, 5)));
    assert_eq!(g.resolve(Position::new(12, 12)), g.resolve(Position::new(9, 9)));
    assert_eq!(g.resolve(Position::new(3, 40)), g.resolve(Position::new(3, 9)));
    assert_eq!(g.resolve(Position::new(9, 9)), 99);
    assert_eq!(g.resolve(Position::new(2, 3)), 32);
}

#[test]
fn index_gives_the_resolved_tile() {
    let g = Grid::init(4, 3);
    assert_eq!(g.get_x(), 4);
    assert_eq!(g.get_y(), 3);
    assert_eq!(*g.index(Position::new(100, 100)), *g.tile(11));
    assert!(g.index(Position::new(0, 0)).cell.is_none());
}

#[test]
fn offset_stops_at_zero() {
    assert_eq!(offset(Position::new(0, 0), -1, -1), Position::new(0, 0));
    assert_eq!(offset(Position::new(3, 4), -1, 1), Position::new(2, 5));
    assert_eq!(offset(Position::new(3, 4), 1, 0), Position::new(4, 4));
}

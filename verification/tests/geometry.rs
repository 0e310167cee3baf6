use kapto_rules::board_type::BoardType;
use kapto_rules::coordinate::{flip_coordinate, rotate_coordinate, Coordinate};
use kapto_rules::direction::{Direction, Directions};

fn board() -> BoardType {
    BoardType::Rectangular {
        rows: 8,
        columns: 10,
        goal_locations: vec![4, 5],
    }
}

#[test]
fn flip_maps_row() {
    let board = board();
    // 10 total rows: row 2 flips to row 7.
    assert_eq!(
        flip_coordinate(&board, Coordinate::new(2, 3)),
        Coordinate::new(7, 3)
    );
}

#[test]
fn rotate_maps_both() {
    let board = board();
    assert_eq!(
        rotate_coordinate(&board, Coordinate::new(2, 3)),
        Coordinate::new(7, 6)
    );
}

#[test]
fn flip_is_an_involution() {
    let board = board();
    for row in 0..10i16 {
        for column in 0..10i16 {
            let c = Coordinate::new(row, column);
            assert_eq!(flip_coordinate(&board, flip_coordinate(&board, c)), c);
        }
    }
}

#[test]
fn rotate_is_an_involution() {
    let board = board();
    for row in 0..10i16 {
        for column in 0..10i16 {
            let c = Coordinate::new(row, column);
            assert_eq!(rotate_coordinate(&board, rotate_coordinate(&board, c)), c);
        }
    }
}

#[test]
fn coordinate_arithmetic() {
    let a = Coordinate::new(3, -2);
    let b = Coordinate::new(-1, 5);
    assert_eq!(a.add(b), Coordinate::new(2, 3));
    assert_eq!(a.sub(b), Coordinate::new(4, -7));
    assert_eq!(a.mul(3), Coordinate::new(9, -6));
    assert_eq!(Coordinate::new(2, 5).to_tuple(), (2, 5));
}

#[test]
fn direction_offsets() {
    assert_eq!(Direction::North.offset(), Coordinate::new(0, -1));
    assert_eq!(Direction::SouthEast.offset(), Coordinate::new(1, 1));
}

#[test]
fn direction_sets() {
    let cardinal = Directions::cardinal();
    assert!(cardinal.contains(Directions::north()));
    assert!(!cardinal.contains(Directions::north_west()));
    assert_eq!(
        cardinal.union(Directions::diagonal()),
        Directions::all()
    );
    assert!(Directions::none().is_empty());
    assert_eq!(
        cardinal.to_vec(),
        vec![
            Direction::North,
            Direction::South,
            Direction::East,
            Direction::West
        ]
    );
    assert_eq!(Directions::all().to_vec().len(), 8);
    assert_eq!(
        Directions::from_direction(Direction::SouthWest),
        Directions::south_west()
    );
}

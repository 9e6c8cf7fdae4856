use pacman::common::{Direction, Movement, Neighbour, Position};

#[test]
fn opposite_directions() {
    assert_eq!(Direction::Up.opposite(), Direction::Down);
    assert_eq!(Direction::Down.opposite(), Direction::Up);
    assert_eq!(Direction::Left.opposite(), Direction::Right);
    assert_eq!(Direction::Right.opposite(), Direction::Left);
}

#[test]
fn four_left_turns_face_the_same_way() {
    let d = Direction::Up;
    assert_eq!(d.rotate_left(), Direction::Left);
    assert_eq!(d.rotate_left().rotate_left(), Direction::Down);
    assert_eq!(d.rotate_left().rotate_left().rotate_left().rotate_left(), d);
    let mut r = Direction::Left;
    r.reverse();
    assert_eq!(r, Direction::Right);
}

#[test]
fn squared_distance() {
    assert_eq!(Position::new(0, 0).distance_to(&Position::new(3, 4)), 25);
    assert_eq!(Position::new(-2, 1).distance_to(&Position::new(-2, 1)), 0);
    assert_eq!(Position::new(i32::MIN, 0).distance_to(&Position::new(i32::MAX, 0)), 0xFFFF_FFFF_u128 * 0xFFFF_FFFF_u128);
}

#[test]
fn neighbours_are_listed_up_down_left_right() {
    let p = Position::new(5, 5);
    let n = p.get_neighbours();
    assert_eq!(
        n,
        vec![
            Neighbour::new(Position::new(5, 6), Direction::Up),
            Neighbour::new(Position::new(5, 4), Direction::Down),
            Neighbour::new(Position::new(4, 5), Direction::Left),
            Neighbour::new(Position::new(6, 5), Direction::Right),
        ]
    );
    assert_eq!(p.neighbour_behind(&Direction::Up), Neighbour::new(Position::new(5, 4), Direction::Down));
    assert_eq!(p.get_position_in_direction_with_offset(&Direction::Left, 3), Position::new(2, 5));
}

#[test]
fn the_first_of_equally_near_positions_wins() {
    let p = Position::new(0, 0);
    let candidates = [Position::new(5, 0), Position::new(0, 1), Position::new(1, 0), Position::new(0, -1)];
    assert_eq!(p.get_nearest_position_from(&candidates), Position::new(0, 1));
    let _ = Movement::Idle;
}

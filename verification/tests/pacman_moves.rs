use pacman::common::{Direction, Movement, Position};
use pacman::ghosts::appearance::{update_ghost_appearance, GhostAnimation};
use pacman::ghosts::target::Random;
use pacman::ghosts::target_setter::{determine_frightened_target, update_target};
use pacman::ghosts::{State, Target};
use pacman::map::field_board::{FieldBoard, Neighbour};
use pacman::map::pacmap::{FieldType, PacMap};
use pacman::pacman::{set_direction, walk_through_tunnel};
use pacman::schedule::{update_schedule, Phase, Schedule};

#[test]
fn later_arrow_keys_win() {
    let mut movement = Movement::Idle;
    set_direction(&mut movement, false, false, false, false);
    assert_eq!(movement, Movement::Idle);
    set_direction(&mut movement, true, true, false, false);
    assert_eq!(movement, Movement::Moving(Direction::Right));
    set_direction(&mut movement, true, false, true, true);
    assert_eq!(movement, Movement::Moving(Direction::Down));
}

#[test]
fn pacman_walks_through_tunnels() {
    let board = FieldBoard::new(PacMap::from_read("WWWWW\nL   R\nWWWWW".as_bytes()));
    let mut position = Position::new(4, 1);
    walk_through_tunnel(&board, &Movement::Moving(Direction::Right), &mut position);
    assert_eq!(position, Position::new(0, 1));
    walk_through_tunnel(&board, &Movement::Moving(Direction::Right), &mut position);
    assert_eq!(position, Position::new(0, 1));
    walk_through_tunnel(&board, &Movement::Moving(Direction::Left), &mut position);
    assert_eq!(position, Position::new(4, 1));
    walk_through_tunnel(&board, &Movement::Idle, &mut position);
    assert_eq!(position, Position::new(4, 1));
}

#[test]
fn ghosts_look_where_they_go() {
    assert_eq!(update_ghost_appearance(&State::Chase, &Direction::Up, None), GhostAnimation::Normal(Direction::Up));
    assert_eq!(update_ghost_appearance(&State::Eaten, &Direction::Left, Some(1)), GhostAnimation::Eaten(Direction::Left));
    assert_eq!(update_ghost_appearance(&State::Frightened, &Direction::Left, Some(3_000_000_000)), GhostAnimation::Frightened);
    assert_eq!(update_ghost_appearance(&State::Frightened, &Direction::Left, Some(1_999_999_999)), GhostAnimation::FrightenedBlinking);
}

#[test]
fn the_schedule_reports_changes() {
    let mut schedule = Schedule::new(vec![Phase::for_duration(State::Scatter, 10), Phase::infinite(State::Chase)]);
    assert_eq!(update_schedule(&mut schedule, 5, false), None);
    assert_eq!(update_schedule(&mut schedule, 100, true), None);
    assert_eq!(update_schedule(&mut schedule, 5, false), Some(State::Chase));
    assert_eq!(update_schedule(&mut schedule, 5, false), None);
}

#[test]
fn frightened_ghosts_pick_a_free_neighbour() {
    let board = FieldBoard::new(PacMap::from_read("WWWWW\nW   W\nWW WW\nWWWWW".as_bytes()));
    let random = Random;
    for _ in 0..20 {
        let n = determine_frightened_target(&board, &random, &Position::new(2, 2), &Movement::Idle).unwrap();
        assert!(n.position == Position::new(1, 2) || n.position == Position::new(3, 2) || n.position == Position::new(2, 1));
    }
    let none = FieldBoard::new(PacMap::from_read("WWW\nW W\nWWW".as_bytes()));
    assert_eq!(determine_frightened_target(&none, &random, &Position::new(1, 1), &Movement::Idle), None);
}

#[test]
fn targets_are_only_set_once() {
    let n = Neighbour { position: Position::new(1, 2), field_type: FieldType::Free, direction: Direction::Up };
    let mut target = Target::new();
    let mut movement = Movement::Idle;
    update_target(Some(n), &mut target, &mut movement);
    assert_eq!(target.target, Some(Position::new(1, 2)));
    assert_eq!(movement, Movement::Moving(Direction::Up));
    let other = Neighbour { position: Position::new(0, 0), field_type: FieldType::Free, direction: Direction::Left };
    update_target(Some(other), &mut target, &mut movement);
    assert_eq!(target.target, Some(Position::new(1, 2)));
}

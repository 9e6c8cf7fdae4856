use pacman::ghosts::house::{set_eaten_target, EatenSpot, HouseTarget};
use pacman::common::{Direction, Movement, Position};
use pacman::ghosts::target::{
    calculate_inky_target, calculate_pinky_target, choose_frightened_neighbour, get_nearest_neighbour_to, GhostCorners,
    Random, TargetSetter as ChaseSetter,
};
use pacman::ghosts::target_set_strategy::{
    minimal_distance_to_neighbours, minimal_distance_to_positions, ScatterStrategy, SpawnedStrategy, TargetSetStrategy,
};
use pacman::ghosts::target_setter::TargetSetter;
use pacman::ghosts::{GhostKind, State, Target};
use pacman::map::board::Board;
use pacman::map::field_board::{FieldBoard, Neighbour};
use pacman::map::pacmap::{FieldType, PacMap};
use pacman::map::tile_map::{Element, Field, RawMap, Rotation, TileMap, WallType};
use std::cmp::Ordering;

fn field_board(text: &str) -> FieldBoard {
    FieldBoard::new(PacMap::from_read(text.as_bytes()))
}

#[test]
fn distances_are_compared() {
    let t = Position::new(0, 0);
    assert_eq!(minimal_distance_to_positions(&t, &Position::new(1, 0), &Position::new(0, 2)), Ordering::Less);
    assert_eq!(minimal_distance_to_positions(&t, &Position::new(0, 1), &Position::new(1, 0)), Ordering::Equal);
    let a = Neighbour { position: Position::new(3, 0), field_type: FieldType::Free, direction: Direction::Right };
    let b = Neighbour { position: Position::new(0, 2), field_type: FieldType::Free, direction: Direction::Up };
    assert_eq!(minimal_distance_to_neighbours(&t, &a, &b), Ordering::Greater);
}

#[test]
fn a_chasing_ghost_walks_towards_pacman_and_never_turns() {
    // rows from the top: y = 2, 1, 0
    let board = field_board("WWWWW\nW   W\nWWWWW");
    let ghost_position = Position::new(2, 1);
    let mut movement = Movement::Moving(Direction::Left);
    let mut target = Target::new();
    let state = State::Chase;
    let kind = GhostKind::Blinky;
    let pacman = Position::new(3, 1);
    {
        let mut setter = TargetSetter::new(&board, &ghost_position, &mut movement, &mut target, &state, &kind, &pacman);
        setter.set_target();
    }
    // turning right would be the shortest way, but the ghost walks left
    assert_eq!(target.target, Some(Position::new(1, 1)));
    assert_eq!(movement, Movement::Moving(Direction::Left));
}

#[test]
fn a_ghost_with_a_target_keeps_it() {
    let board = field_board("WWWWW\nW   W\nWWWWW");
    let ghost_position = Position::new(2, 1);
    let mut movement = Movement::Idle;
    let mut target = Target { target: Some(Position::new(3, 1)) };
    let state = State::Chase;
    let kind = GhostKind::Blinky;
    let pacman = Position::new(1, 1);
    {
        let mut setter = TargetSetter::new(&board, &ghost_position, &mut movement, &mut target, &state, &kind, &pacman);
        setter.set_target();
    }
    assert_eq!(target.target, Some(Position::new(3, 1)));
    assert_eq!(movement, Movement::Idle);
}

#[test]
fn a_frightened_ghost_takes_the_first_free_way() {
    let board = field_board("WWWWW\nW W W\nW   W\nWWWWW");
    let ghost_position = Position::new(1, 1);
    let mut movement = Movement::Idle;
    let mut target = Target::new();
    let state = State::Frightened;
    let kind = GhostKind::Inky;
    let pacman = Position::new(3, 1);
    {
        let mut setter = TargetSetter::new(&board, &ghost_position, &mut movement, &mut target, &state, &kind, &pacman);
        setter.set_target();
    }
    assert_eq!(target.target, Some(Position::new(1, 2)));
    assert_eq!(movement, Movement::Moving(Direction::Up));
}

#[test]
fn strategies_head_for_the_house_wall_and_the_corner() {
    // G: house wall, b: blinky's corner
    let board = field_board("WWWWWWW\nWb  G W\nW     W\nWWWWWWW");
    let position = Position::new(3, 1);
    let spawned = SpawnedStrategy::new(&board, &position, Movement::Idle);
    let n = spawned.get_next_target_neighbour().unwrap();
    assert_eq!(n.position, Position::new(3, 2));
    let kind = GhostKind::Blinky;
    let scatter = ScatterStrategy::new(&board, &position, Movement::Idle, &kind);
    let n = scatter.get_next_target_neighbour().unwrap();
    assert_eq!(n.position, Position::new(2, 1));
    assert_eq!(n.direction, Direction::Left);
}

fn corridor_board() -> Board {
    let mut fields = Vec::new();
    let wall = Element::Wall { wall_type: WallType::Outer, rotation: Rotation::D0, is_corner: false };
    for x in 0..5 {
        fields.push(Field { position: Position::new(x, 0), element: wall });
        fields.push(Field { position: Position::new(x, 2), element: wall });
    }
    fields.push(Field { position: Position::new(0, 1), element: wall });
    fields.push(Field { position: Position::new(4, 1), element: Element::GhostHouseEntrance { rotation: Rotation::D0 } });
    for x in 1..4 {
        fields.push(Field { position: Position::new(x, 1), element: Element::DotSpawn });
    }
    let raw = RawMap {
        blinky_corner: Position::new(0, 0),
        pinky_corner: Position::new(4, 0),
        inky_corner: Position::new(0, 2),
        clyde_corner: Position::new(4, 2),
        fields,
    };
    Board::new(&TileMap::new(&raw))
}

#[test]
fn a_ghost_turns_around_only_in_a_dead_end() {
    let board = corridor_board();
    assert_eq!(board.width, 5);
    assert_eq!(board.height, 3);
    let n = get_nearest_neighbour_to(&board, &Position::new(2, 1), &Direction::Right, &Position::new(0, 1));
    assert_eq!(n.position, Position::new(3, 1));
    let n = get_nearest_neighbour_to(&board, &Position::new(3, 1), &Direction::Right, &Position::new(0, 1));
    assert_eq!(n.position, Position::new(2, 1));
    assert_eq!(n.direction, Direction::Left);
}

#[test]
fn pinky_and_inky_aim_ahead_of_pacman() {
    assert_eq!(calculate_pinky_target(&Position::new(10, 10), &Direction::Up), Position::new(10, 14));
    assert_eq!(calculate_pinky_target(&Position::new(10, 10), &Direction::Left), Position::new(6, 10));
    // facing field (12, 10); blinky at (10, 8): doubled line ends at (14, 12)
    assert_eq!(calculate_inky_target(&Position::new(10, 10), &Direction::Right, &Position::new(10, 8)), Position::new(14, 12));
}

#[test]
fn frightened_choices() {
    let behind = pacman::common::Neighbour::new(Position::new(0, 0), Direction::Down);
    let a = pacman::common::Neighbour::new(Position::new(1, 0), Direction::Right);
    let b = pacman::common::Neighbour::new(Position::new(-1, 0), Direction::Left);
    assert_eq!(choose_frightened_neighbour(&vec![], behind, 7), behind);
    assert_eq!(choose_frightened_neighbour(&vec![a], behind, 7), a);
    assert_eq!(choose_frightened_neighbour(&vec![a, b], behind, 1), b);
}

#[test]
fn chase_setter_aims_at_the_next_field() {
    let board = corridor_board();
    let random = Random;
    let corners = GhostCorners {
        blinky: Position::new(0, 0),
        pinky: Position::new(4, 0),
        inky: Position::new(0, 2),
        clyde: Position::new(4, 2),
    };
    let mut direction = Direction::Left;
    let mut target = Target::new();
    {
        let mut setter = ChaseSetter {
            board: &board,
            random: &random,
            ghost_corners: &corners,
            pacman_position: Position::new(1, 1),
            pacman_direction: Direction::Left,
            blinky_position: Position::new(2, 1),
            kind: GhostKind::Blinky,
            ghost_position: Position::new(2, 1),
            clyde_near_pacman: false,
            direction: &mut direction,
            target: &mut target,
        };
        setter.set_blinky_chase_target();
    }
    assert_eq!(target.target, Some(Position::new(1, 1)));
    assert_eq!(direction, Direction::Left);

    let mut direction = Direction::Left;
    let mut target = Target::new();
    {
        let mut setter = ChaseSetter {
            board: &board,
            random: &random,
            ghost_corners: &corners,
            pacman_position: Position::new(1, 1),
            pacman_direction: Direction::Left,
            blinky_position: Position::new(2, 1),
            kind: GhostKind::Inky,
            ghost_position: Position::new(2, 1),
            clyde_near_pacman: false,
            direction: &mut direction,
            target: &mut target,
        };
        setter.set_frightened_target();
    }
    // only the field to the left is free
    assert_eq!(target.target, Some(Position::new(1, 1)));
}

#[test]
fn random_numbers_stay_in_range() {
    let random = Random;
    for n in 1..20 {
        assert!(random.zero_to(n) < n);
    }
    assert_eq!(random.zero_to(1), 0);
}

#[test]
fn eaten_ghosts_find_their_way_home() {
    let board = corridor_board();
    let in_front = vec![Position::new(1, 1), Position::new(2, 1)];
    let away = EatenSpot {
        at_respawn: false,
        in_front_of_house: false,
        in_center: false,
        left_of_front: true,
        respawn_left_of_center: false,
    };
    // at the respawn the ghost has arrived and gets no target
    let arrived = EatenSpot { at_respawn: true, in_front_of_house: true, ..away };
    assert_eq!(set_eaten_target(&board, &Position::new(2, 1), &Direction::Left, arrived, &in_front), None);
    // in front of the house it enters to the center
    let aligned = EatenSpot { in_front_of_house: true, in_center: true, ..away };
    assert_eq!(
        set_eaten_target(&board, &Position::new(2, 1), &Direction::Left, aligned, &in_front),
        Some((HouseTarget::Center, Direction::Down))
    );
    // on a field in front of the entrance it walks to the place in front of the house
    assert_eq!(
        set_eaten_target(&board, &Position::new(1, 1), &Direction::Right, away, &in_front),
        Some((HouseTarget::InFrontOfEntrance, Direction::Left))
    );
    let right_of_front = EatenSpot { left_of_front: false, ..away };
    assert_eq!(
        set_eaten_target(&board, &Position::new(2, 1), &Direction::Left, right_of_front, &in_front),
        Some((HouseTarget::InFrontOfEntrance, Direction::Right))
    );
    // from the center it goes on to its respawn
    let centered = EatenSpot { in_center: true, ..away };
    assert_eq!(
        set_eaten_target(&board, &Position::new(3, 1), &Direction::Left, centered, &in_front),
        Some((HouseTarget::Respawn, Direction::Right))
    );
    let respawn_left = EatenSpot { in_center: true, respawn_left_of_center: true, ..away };
    assert_eq!(
        set_eaten_target(&board, &Position::new(3, 1), &Direction::Left, respawn_left, &in_front),
        Some((HouseTarget::Respawn, Direction::Left))
    );
    // elsewhere: one step towards the nearest field in front of the entrance
    assert_eq!(
        set_eaten_target(&board, &Position::new(3, 1), &Direction::Left, away, &in_front),
        Some((HouseTarget::Field(Position::new(2, 1)), Direction::Left))
    );
    // an eaten ghost may step onto a ghost house entrance, where others turn around
    let entrance = vec![Position::new(4, 1)];
    assert_eq!(
        set_eaten_target(&board, &Position::new(3, 1), &Direction::Right, away, &entrance),
        Some((HouseTarget::Field(Position::new(4, 1)), Direction::Right))
    );
    assert_eq!(
        get_nearest_neighbour_to(&board, &Position::new(3, 1), &Direction::Right, &Position::new(4, 1)).position,
        Position::new(2, 1)
    );
}

use pacman::common::{Direction, Position};
use pacman::new_map::board::Board;
use pacman::new_map::{Element, ElementFilter, ElementKind, Field, WallType};

fn board() -> Board {
    let wall = Element::Wall { wall_type: WallType::Outer, is_corner: false };
    let tunnel = Element::Tunnel { index: 0, opening_direction: Direction::Left };
    let mut fields = Vec::new();
    for x in 0..3 {
        for y in 0..2 {
            fields.push(Field { position: Position::new(x, y), elements: vec![Element::Empty] });
        }
    }
    fields.push(Field { position: Position::new(0, 0), elements: vec![wall, Element::InvisibleWall] });
    fields.push(Field { position: Position::new(2, 1), elements: vec![tunnel, Element::TunnelHallway] });
    fields.push(Field { position: Position::new(2, 0), elements: vec![tunnel, Element::DotSpawn] });
    fields.push(Field { position: Position::new(1, 1), elements: vec![Element::PacManSpawn] });
    Board::new(&fields)
}

#[test]
fn creation_works() {
    let board = board();
    assert_eq!(board.width, 3);
    assert_eq!(board.height, 2);
}

#[test]
fn neighbours_stay_on_the_board() {
    let board = board();
    let neighbours = board.neighbours_of(&Position::new(0, 0));
    let positions: Vec<(Position, Direction)> = neighbours.iter().map(|n| (n.position, n.direction)).collect();
    assert_eq!(positions, vec![(Position::new(0, 1), Direction::Up), (Position::new(1, 0), Direction::Right)]);
    assert_eq!(board.position_in_direction(&Position::new(2, 1), &Direction::Right), None);
    assert_eq!(board.position_in_direction(&Position::new(2, 1), &Direction::Up), None);
    let behind = board.neighbour_behind(&Position::new(1, 1), &Direction::Up);
    assert_eq!(behind.position, Position::new(1, 0));
    assert_eq!(behind.direction, Direction::Down);
    assert_eq!(behind.elements, vec![Element::Empty]);
}

#[test]
fn filters_find_elements() {
    let board = board();
    let walls = ElementFilter { kinds: vec![ElementKind::Wall, ElementKind::InvisibleWall] };
    assert!(board.position_matches_filter(&Position::new(0, 0), &walls));
    assert!(!board.position_matches_filter(&Position::new(1, 0), &walls));
    assert_eq!(board.element_on_position_matching(&Position::new(0, 0), &ElementFilter { kinds: vec![ElementKind::InvisibleWall] }), Some(Element::InvisibleWall));
    assert_eq!(board.get_positions_matching(&walls), vec![Position::new(0, 0)]);
    let spawn = ElementFilter { kinds: vec![ElementKind::PacManSpawn] };
    assert_eq!(board.get_position_matching(&spawn), Position::new(1, 1));
    assert_eq!(board.elements_on_position(&Position::new(7, 7)), vec![]);
}

#[test]
fn a_tunnel_field_holds_only_tunnel_parts() {
    let board = board();
    assert!(board.position_is_tunnel(&Position::new(2, 1)));
    assert!(!board.position_is_tunnel(&Position::new(2, 0)));
    assert!(!board.position_is_tunnel(&Position::new(5, 5)));
}

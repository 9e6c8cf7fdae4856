use pacman::common::{Direction, Position};
use pacman::ghosts::GhostKind;
use pacman::map::board::Board;
use pacman::map::ghost_house::{
    bottom_left_position, create_spawns, get_bottom_left, get_rotation, spawn_house_walls, GhostSpawn, PieceKind,
};
use pacman::map::tile_map::{Element, ElementFilter, Field, RawMap, Rotation, TileMap, WallType};

fn raw_map(fields: Vec<Field>) -> RawMap {
    RawMap {
        blinky_corner: Position::new(0, 9),
        pinky_corner: Position::new(9, 9),
        inky_corner: Position::new(0, 0),
        clyde_corner: Position::new(9, 0),
        fields,
    }
}

#[test]
fn tile_maps_know_their_size_and_elements() {
    let wall = Element::Wall { wall_type: WallType::Inner, rotation: Rotation::D90, is_corner: true };
    let map = TileMap::new(&raw_map(vec![
        Field { position: Position::new(0, 0), element: wall },
        Field { position: Position::new(1, 0), element: Element::DotSpawn },
        Field { position: Position::new(1, 3), element: Element::TunnelHallway },
        Field { position: Position::new(1, 0), element: Element::EnergizerSpawn },
    ]));
    assert_eq!(map.get_width(), 2);
    assert_eq!(map.get_height(), 2);
    assert_eq!(map.get_positions_matching(ElementFilter::DotSpawns), vec![]);
    assert_eq!(map.get_positions_matching(ElementFilter::EnergizerSpawns), vec![Position::new(1, 0)]);
    assert_eq!(map.corner_of(GhostKind::Pinky), Position::new(9, 9));
    assert_eq!(map.position_element_iter().len(), 3);
    let board = Board::new(&map);
    assert!(board.position_is_wall(&Position::new(0, 0)));
    assert!(board.position_is_tunnel(&Position::new(1, 3)));
    assert!(!board.position_is_tunnel(&Position::new(1, 0)));
    assert!(!board.position_is_ghost_house_entrance(&Position::new(0, 0)));
    assert!(board.position_is_wall_or_entrance(&Position::new(0, 0)));
}

#[test]
fn the_ghost_house_is_found_on_the_map() {
    let house = Element::GhostHouse { rotation: Rotation::D90 };
    let map = TileMap::new(&raw_map(vec![
        Field { position: Position::new(4, 3), element: house },
        Field { position: Position::new(2, 6), element: house },
        Field { position: Position::new(7, 7), element: Element::DotSpawn },
    ]));
    assert_eq!(get_bottom_left(&map), (2, 3));
    assert_eq!(bottom_left_position(get_bottom_left(&map)), Some(Position::new(2, 3)));
    assert_eq!(get_rotation(&map), Rotation::D90);
    let empty = TileMap::new(&raw_map(vec![]));
    assert_eq!(get_bottom_left(&empty), (isize::MAX, isize::MAX));
    assert_eq!(bottom_left_position(get_bottom_left(&empty)), None);
}

#[test]
fn ghosts_spawn_inside_the_house() {
    let spawns = create_spawns(Rotation::D0, Position::new(10, 10));
    assert_eq!(
        spawns[0],
        GhostSpawn {
            kind: GhostKind::Blinky,
            spawn_direction: Direction::Left,
            first_position: Position::new(13, 15),
            second_position: Position::new(14, 15),
        }
    );
    assert_eq!(spawns[3].kind, GhostKind::Clyde);
    assert_eq!(spawns[3].first_position, Position::new(15, 12));
    let turned = create_spawns(Rotation::D270, Position::new(10, 10));
    assert_eq!(turned[0].first_position, Position::new(9, 13));
    assert_eq!(turned[0].spawn_direction, Direction::Down);
}

#[test]
fn the_house_has_one_entrance_of_two_pieces() {
    for rotation in [Rotation::D0, Rotation::D90, Rotation::D180, Rotation::D270] {
        let pieces = spawn_house_walls(Position::new(0, 0), rotation);
        let entrances: Vec<_> = pieces.iter().filter(|p| p.kind == PieceKind::Entrance).collect();
        assert_eq!(entrances.len(), 2);
        assert_eq!(pieces.iter().filter(|p| p.kind == PieceKind::Corner).count(), 4);
        assert_eq!(pieces.len(), 4 + 6 + 6 + 3 + 3);
    }
    let up = spawn_house_walls(Position::new(0, 0), Rotation::D0);
    let doors: Vec<Position> = up.iter().filter(|p| p.kind == PieceKind::Entrance).map(|p| p.position).collect();
    assert_eq!(doors, vec![Position::new(3, 4), Position::new(4, 4)]);
}

use pacman::common::Position;
use pacman::map::pacmap::FieldType::{Free, LeftTunnel, RightTunnel, Wall};
use pacman::map::pacmap::{FieldType, PacMap};

#[test]
fn map_from_read_successful() {
    let map_as_string = "WWWWW\nW W W\nL   R\nW   W\nWWWWW";
    let field_types = vec![
        vec![Wall, Wall, Wall, Wall, Wall],
        vec![Wall, Free, Wall, Free, Wall],
        vec![LeftTunnel, Free, Free, Free, RightTunnel],
        vec![Wall, Free, Free, Free, Wall],
        vec![Wall, Wall, Wall, Wall, Wall],
    ];
    let width = 5;
    let height = 5;
    let expected = PacMap { field_types, width, height };
    assert_eq!(expected, PacMap::from_read(map_as_string.as_bytes()))
}

#[test]
fn into_position_type_map_successful() {
    let pacmap = PacMap {
        field_types: vec![
            vec![Wall, Wall, RightTunnel],
            vec![Wall, Free, Wall],
            vec![LeftTunnel, Wall, Wall],
        ],
        width: 3,
        height: 3,
    };
    let expected_mappings = vec![
        (Position::new(0, 0), LeftTunnel),
        (Position::new(1, 0), Wall),
        (Position::new(2, 0), Wall),
        (Position::new(0, 1), Wall),
        (Position::new(1, 1), Free),
        (Position::new(2, 1), Wall),
        (Position::new(0, 2), Wall),
        (Position::new(1, 2), Wall),
        (Position::new(2, 2), RightTunnel),
    ];
    let position_type_map = pacmap.into_position_type_map();
    expected_mappings.into_iter().for_each(|(p, t)| assert_eq!(&t, position_type_map.get(&p).unwrap()))
}

#[test]
fn short_lines_are_filled_with_free_fields() {
    let pacmap = PacMap::from_read("WW\nW\r\n".as_bytes());
    assert_eq!(pacmap.width, 2);
    assert_eq!(pacmap.height, 2);
    assert_eq!(pacmap.field_types, vec![vec![Wall, Wall], vec![Wall, Free]]);
}

#[test]
fn every_map_character_has_a_field_type() {
    assert_eq!(FieldType::try_from_byte(b'W'), Some(Wall));
    assert_eq!(FieldType::try_from_byte(b' '), Some(Free));
    assert_eq!(FieldType::try_from_byte(b'L'), Some(LeftTunnel));
    assert_eq!(FieldType::try_from_byte(b'R'), Some(RightTunnel));
    assert_eq!(FieldType::try_from_byte(b'x'), None);
}

#[test]
fn positions_outside_the_map_have_no_type() {
    let pacmap = PacMap { field_types: vec![vec![Wall]], width: 1, height: 1 };
    let map = pacmap.into_position_type_map();
    assert_eq!(map.get(&Position::new(0, 0)), Some(&Wall));
    assert_eq!(map.get(&Position::new(1, 0)), None);
    assert_eq!(map.get(&Position::new(0, -1)), None);
}

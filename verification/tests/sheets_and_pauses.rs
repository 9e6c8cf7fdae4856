use pacman::aseprite_data::{AsepriteData, Frame};
use pacman::common::{Direction, Position};
use pacman::ghosts::spawner::spawn_ghost;
use pacman::ghosts::{GhostKind, State};
use pacman::map::ghost_house::GhostSpawn;
use pacman::map::pacmap::{FieldType, PacMap};
use pacman::schedule::Timer;
use pacman::sprite_sheet::Rect;
use pacman::sprite_sheets::{create_sprite_sheets_from_aseprite_data, SheetData, SheetImage, SpriteSheet};
use pacman::stop::{
    add_ghost_stop_when_ghost_eaten, add_stop_when_ghost_eaten, remove_stop_when_timer_ended, update_sound_effect,
    update_stop, SoundEfect, Stop, GHOST_EATEN_PAUSE,
};

fn bytes(s: &str) -> Vec<u8> {
    s.as_bytes().to_vec()
}

fn frame(name: &str, x: usize, y: usize, w: usize, h: usize) -> (Vec<u8>, Frame) {
    (bytes(name), Frame { x, y, w, h })
}

#[test]
fn sheets_are_cut_from_their_images_in_name_order() {
    let data = vec![
        SheetData {
            path: bytes("textures\\ghost.aseprite.json"),
            aseprite: AsepriteData { frames: vec![frame("ghost 1", 2, 0, 2, 2), frame("ghost 0", 0, 0, 2, 1)] },
        },
        SheetData {
            path: bytes("textures/missing.aseprite.json"),
            aseprite: AsepriteData { frames: vec![frame("missing 0", 0, 0, 1, 1)] },
        },
    ];
    let images = vec![
        SheetImage { path: bytes("textures/other.png"), data: vec![9; 4], width: 2, pixel_size: 1 },
        SheetImage { path: bytes("textures/ghost.png"), data: vec![0, 1, 2, 3, 4, 5, 6, 7], width: 4, pixel_size: 1 },
    ];

    let sheets = create_sprite_sheets_from_aseprite_data(&data, &images);

    assert_eq!(sheets.path_sheet_map.len(), 1);
    assert_eq!(sheets.path_sheet_map[0].0, bytes("textures/ghost"));
    let sheet = sheets.get_sheet(&bytes("textures/ghost"));
    assert_eq!(sheet.textures, vec![vec![0, 1], vec![2, 3, 6, 7]]);
    assert_eq!(sheet.rects, vec![Rect::new(Position::new(0, 0), 2, 1), Rect::new(Position::new(2, 0), 2, 2)]);
    assert_eq!(sheet.image_at(1), &vec![2, 3, 6, 7]);
    assert_eq!(sheet.images_at(&vec![1, 0, 1]), vec![vec![2, 3, 6, 7], vec![0, 1], vec![2, 3, 6, 7]]);
}

#[test]
fn sheets_with_bigger_pixels_cut_whole_pixels() {
    let data = vec![SheetData {
        path: bytes("a.aseprite.json"),
        aseprite: AsepriteData { frames: vec![frame("a 0", 1, 1, 1, 1)] },
    }];
    let images = vec![SheetImage { path: bytes("a.png"), data: (0..8).collect(), width: 2, pixel_size: 2 }];

    let sheets = create_sprite_sheets_from_aseprite_data(&data, &images);

    assert_eq!(sheets.path_sheet_map.len(), 1);
    assert_eq!(sheets.get_sheet(&bytes("a")).textures, vec![vec![6, 7]]);
}

#[test]
fn the_later_sheet_of_a_name_counts() {
    let sheets = pacman::sprite_sheets::SpriteSheets {
        path_sheet_map: vec![
            (bytes("a"), SpriteSheet { textures: vec![vec![1]], rects: vec![Rect::new(Position::new(0, 0), 1, 1)] }),
            (bytes("b"), SpriteSheet { textures: vec![vec![2]], rects: vec![Rect::new(Position::new(0, 0), 1, 1)] }),
            (bytes("a"), SpriteSheet { textures: vec![vec![3]], rects: vec![Rect::new(Position::new(0, 0), 1, 1)] }),
        ],
    };
    assert_eq!(sheets.get_sheet(&bytes("a")).textures, vec![vec![3]]);
    assert_eq!(sheets.get_sheet(&bytes("b")).textures, vec![vec![2]]);
}

#[test]
fn a_stop_ends_after_its_time() {
    let mut stop = Stop::for_nanos(100);
    assert!(!update_stop(&mut stop, 60));
    assert!(update_stop(&mut stop, 40));
    assert!(stop.0.finished);
}

#[test]
fn a_sound_effect_goes_after_one_second() {
    let mut sound = SoundEfect::new();
    assert_eq!(sound.timer, Timer::from_nanos(1_000_000_000));
    assert!(!update_sound_effect(&mut sound, 999_999_999));
    assert!(update_sound_effect(&mut sound, 1));
    assert!(sound.finished());
}

#[test]
fn eating_a_ghost_pauses_everyone_for_one_second() {
    assert_eq!(GHOST_EATEN_PAUSE, 1_000_000_000);

    let eaten = add_stop_when_ghost_eaten(true, &State::Frightened);
    assert!(eaten.eaten_one);
    assert!(!eaten.stop_animation);
    assert_eq!(eaten.stop.0, Timer::from_nanos(GHOST_EATEN_PAUSE));

    let other = add_stop_when_ghost_eaten(false, &State::Chase);
    assert!(!other.eaten_one);
    assert!(other.stop_animation);

    let already_eaten = add_stop_when_ghost_eaten(false, &State::Eaten);
    assert!(!already_eaten.stop_animation);

    assert_eq!(add_ghost_stop_when_ghost_eaten().0, Timer::from_nanos(GHOST_EATEN_PAUSE));
}

#[test]
fn the_pause_after_a_ghost_was_eaten_ends() {
    let mut pause = add_stop_when_ghost_eaten(false, &State::Scatter);
    assert!(!remove_stop_when_timer_ended(&mut pause, 500_000_000));
    assert!(remove_stop_when_timer_ended(&mut pause, 500_000_000));
    assert!(pause.stop_animation);
    assert!(!pause.eaten_one);
}

#[test]
fn the_tunnel_entrance_lies_opposite_the_opening() {
    let tunnel = Position::new(0, 5);
    assert_eq!(tunnel.tunnel_entrance_position(&Direction::Left), Position::new(1, 5));
    assert_eq!(tunnel.tunnel_entrance_position(&Direction::Right), Position::new(-1, 5));
    assert_eq!(tunnel.tunnel_entrance_position(&Direction::Up), Position::new(0, 4));
    assert_eq!(tunnel.tunnel_entrance_position(&Direction::Down), Position::new(0, 6));
}

#[test]
fn a_map_with_longer_and_more_rows_keeps_its_size() {
    let map = PacMap {
        field_types: vec![
            vec![FieldType::Wall, FieldType::Free, FieldType::Wall],
            vec![FieldType::Free, FieldType::Wall, FieldType::Free],
            vec![FieldType::Wall, FieldType::Wall, FieldType::Wall],
        ],
        width: 2,
        height: 2,
    };
    let position_type_map = map.into_position_type_map();
    assert_eq!(position_type_map.get(&Position::new(0, 1)), Some(&FieldType::Wall));
    assert_eq!(position_type_map.get(&Position::new(1, 1)), Some(&FieldType::Free));
    assert_eq!(position_type_map.get(&Position::new(0, 0)), Some(&FieldType::Free));
    assert_eq!(position_type_map.get(&Position::new(1, 0)), Some(&FieldType::Wall));
    assert_eq!(position_type_map.get(&Position::new(2, 0)), None);
    assert_eq!(position_type_map.get(&Position::new(0, 2)), None);
}

#[test]
fn a_new_ghost_starts_spawned_without_target() {
    let spawn = GhostSpawn {
        kind: GhostKind::Inky,
        spawn_direction: Direction::Down,
        first_position: Position::new(3, 4),
        second_position: Position::new(4, 4),
    };
    let ghost = spawn_ghost(&spawn);
    assert_eq!(ghost.kind, GhostKind::Inky);
    assert_eq!(ghost.direction, Direction::Down);
    assert_eq!(ghost.target.target, None);
    assert_eq!(ghost.state, State::Spawned);
}

#[test]
fn a_stop_ends_in_the_first_update_that_reaches_its_time() {
    let mut stop = Stop::for_nanos(1_000);
    let steps = [300, 300, 300, 100, 500];
    let results: Vec<bool> = steps.iter().map(|d| update_stop(&mut stop, *d)).collect();
    assert_eq!(results, vec![false, false, false, true, true]);
}

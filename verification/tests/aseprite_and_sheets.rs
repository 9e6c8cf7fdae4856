use pacman::aseprite_data::{key_comes_first, AsepriteData, Frame};
use pacman::common::Position;
use pacman::sheet_paths::{cut_at_first_dot, data_sheet_name, image_sheet_name, pair_sheets, remove_occurrences};
use pacman::sprite_sheet::Rect;

fn bytes(s: &str) -> Vec<u8> {
    s.as_bytes().to_vec()
}

#[test]
fn it_can_provide_an_ordered_iterator_of_rectangles() {
    // the frames come in an arbitrary order, as from a map
    let order = [7, 11, 0, 3, 10, 1, 5, 2, 9, 4, 8, 6];
    let frames = order
        .iter()
        .map(|i| (bytes(&format!("pacman_dying {}.aseprite", i)), Frame { x: i * 16, y: 0, w: 16, h: 16 }))
        .collect();
    let aseprite_data = AsepriteData { frames };

    let rectangles = aseprite_data.rect_iter();

    assert_eq!(rectangles.len(), 12);

    for i in 0..12 {
        assert_eq!(rectangles[i], Rect::new(Position::new(i as i32 * 16, 0), 16, 16));
    }
}

#[test]
fn shorter_names_come_first() {
    assert!(key_comes_first(&bytes("a 9"), &bytes("a 10")));
    assert!(!key_comes_first(&bytes("a 10"), &bytes("a 9")));
    assert!(key_comes_first(&bytes("a 10"), &bytes("a 11")));
    assert!(!key_comes_first(&bytes("a 11"), &bytes("a 11")));
}

#[test]
fn sheet_names_of_paths() {
    assert_eq!(data_sheet_name(&bytes("textures\\pacman\\walking.aseprite.json")), bytes("textures/pacman/walking"));
    assert_eq!(image_sheet_name(&bytes("textures\\pacman\\walking.png")), bytes("textures/pacman/walking"));
    assert_eq!(cut_at_first_dot(&bytes("no_dot")), bytes("no_dot"));
    assert_eq!(remove_occurrences(&bytes("aXbXXc"), &bytes("X")), bytes("abc"));
    assert_eq!(remove_occurrences(&bytes("aaa"), &bytes("aa")), bytes("a"));
}

#[test]
fn data_files_are_paired_with_their_images() {
    let data = vec![bytes("a.aseprite.json"), bytes("b.aseprite.json"), bytes("c.aseprite.json")];
    let images = vec![bytes("c.png"), bytes("a.png"), bytes("a.sheet.png")];
    assert_eq!(pair_sheets(&data, &images), vec![(0, 1), (2, 0)]);
}

use pacman::common::Position;
use pacman::sprite_sheet::{
    create_images, extract_rectangle, register_sheet_loader, split_data_by_rectangles, Grid, Rect, SheetKey, SpriteSheetLoader,
};

#[test]
fn mod_a_vector_of_bytes_can_be_split_by_rectangles() {
    let data = vec![
        0, 0, 0, 0, 0, 0, 0, 0,
        0, 0, 0, 0, 0, 0, 0, 0,
        0, 0, 1, 1, 0, 0, 0, 0,
        0, 0, 1, 1, 0, 0, 0, 0,
        0, 0, 0, 0, 2, 2, 2, 2,
        0, 0, 0, 0, 2, 2, 2, 2,
    ];

    let pixel_width = 1;
    assert_eq!(extract_rectangle(data.as_slice(), Rect::new(Position::new(0, 0), 8, 6), 8, pixel_width), data);
    assert_eq!(extract_rectangle(data.as_slice(), Rect::new(Position::new(2, 2), 2, 2), 8, pixel_width), vec![1; 4]);
    assert_eq!(extract_rectangle(data.as_slice(), Rect::new(Position::new(4, 4), 4, 2), 8, pixel_width), vec![2; 8]);
}

#[test]
fn mod_an_image_can_be_split_by_rectangles() {
    // a 4 by 2 pixel image with 4 bytes per pixel
    let data = vec![
        0, 0, 0, 0, 0, 0, 0, 0, 1, 1, 1, 1, 1, 1, 1, 1,
        0, 0, 0, 0, 0, 0, 0, 0, 1, 1, 1, 1, 1, 1, 1, 1,
    ];
    let parts = split_data_by_rectangles(
        data.as_slice(),
        &vec![Rect::new(Position::new(0, 0), 2, 2), Rect::new(Position::new(2, 0), 2, 2)],
        16,
        4,
    );
    assert_eq!(parts.len(), 2);
    assert_eq!(parts[0], vec![0; 16]);
    assert_eq!(parts[1], vec![1; 16]);
}

#[test]
fn a_grid_splits_a_sheet_row_by_row() {
    // 4 by 2 pixels, 1 byte per pixel, sprites of 2 by 1
    let data: Vec<u8> = vec![1, 1, 2, 2, 3, 3, 4, 4];
    let images = create_images(&Grid::new(2, 1, 2, 2), data.as_slice(), 4, 1);
    assert_eq!(images, vec![vec![1, 1], vec![2, 2], vec![3, 3], vec![4, 4]]);
}

#[test]
fn every_sheet_has_a_grid() {
    let loader = register_sheet_loader();
    assert_eq!(loader.sheet_grids.len(), 28);
    assert_eq!(loader.grid_of(SheetKey::PacmanWalkingLeft), Some(Grid::new(16, 16, 4, 1)));
    assert_eq!(loader.grid_of(SheetKey::BlinkyUp), Some(Grid::new(16, 16, 2, 1)));
    assert_eq!(loader.grid_of(SheetKey::FrightenedBlinking), Some(Grid::new(16, 16, 4, 1)));
    let later = SpriteSheetLoader::from_path_grid_iter(vec![
        (SheetKey::InkyUp, Grid::new(1, 1, 1, 1)),
        (SheetKey::InkyUp, Grid::new(2, 2, 2, 2)),
    ]);
    assert_eq!(later.grid_of(SheetKey::InkyUp), Some(Grid::new(2, 2, 2, 2)));
    assert_eq!(later.grid_of(SheetKey::InkyDown), None);
}

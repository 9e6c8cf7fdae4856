use vstd::prelude::*;

use crate::common::Position;
use crate::helper::{get_sub_rect, pixel_at, sub_rect_in_bounds};

verus! {

/// A rectangle of pixels in an image: its lower left corner, its width and its height.
#[derive(Copy, Clone, Debug, PartialEq, Eq, Structural)]
pub struct Rect {
    pub position: Position,
    pub width: usize,
    pub height: usize,
}

impl Rect {
    pub fn new(position: Position, width: usize, height: usize) -> (r: Self)
        ensures
            r.position == position,
            r.width == width,
            r.height == height,
    {
        Self { position, width, height }
    }
}

/// Whether the bytes of the rectangle can be read from data of length `len` that holds rows of
/// `data_width` bytes, with pixels of `pixel_width` bytes.
pub open spec fn rectangle_in_bounds(len: int, rect: Rect, data_width: int, pixel_width: int) -> bool {
    &&& rect.position.x >= 0
    &&& rect.position.y >= 0
    &&& data_width * rect.position.y <= usize::MAX
    &&& rect.width * rect.height <= isize::MAX
    &&& rect.width * pixel_width <= usize::MAX
    &&& rect.position.x * pixel_width <= usize::MAX
    &&& (rect.height == 0 || (rect.position.y + rect.height - 1) * data_width + rect.position.x * pixel_width
        + rect.width * pixel_width <= len)
}

/// Whether `out` holds the bytes of the rectangle, row after row.
pub open spec fn is_rectangle_of(out: Seq<u8>, data: Seq<u8>, rect: Rect, data_width: int, pixel_width: int) -> bool {
    let row_len = rect.width * pixel_width;
    &&& out.len() == rect.height * row_len
    &&& forall|y: int, x: int|
        0 <= y < rect.height && 0 <= x < row_len ==> #[trigger] pixel_at(out, row_len, y, x) == data[(rect.position.y
            + y) * data_width + rect.position.x * pixel_width + x]
}

/// Copy the bytes of a rectangle out of data that holds rows of `data_width` bytes, with pixels
/// of `pixel_width` bytes.
pub fn extract_rectangle(data: &[u8], rect: Rect, data_width: usize, pixel_width: usize) -> (extracted: Vec<u8>)
    requires
        rectangle_in_bounds(data@.len() as int, rect, data_width as int, pixel_width as int),
    ensures
        is_rectangle_of(extracted@, data@, rect, data_width as int, pixel_width as int),
{
    let data_len = data.len();
    let ghost dw = data_width as int;
    let ghost pw = pixel_width as int;
    let ghost top = rect.position.y as int;
    let ghost left = rect.position.x as int * pw;
    let ghost row_len = rect.width as int * pw;
    let ghost h = rect.height as int;
    let mut extracted: Vec<u8> = Vec::with_capacity(rect.width * rect.height);
    let start_index = data_width * rect.position.y as usize;
    let left_offset = rect.position.x as usize * pixel_width;
    let row_bytes = rect.width * pixel_width;
    let mut y: usize = 0;
    while y < rect.height
        invariant
            dw == data_width,
            pw == pixel_width,
            top == rect.position.y,
            left == left_offset,
            row_len == row_bytes,
            h == rect.height,
            start_index == top * dw,
            data_len == data@.len(),
            0 <= y <= h,
            0 <= top,
            0 <= left,
            0 <= row_len,
            h == 0 || (top + h - 1) * dw + left + row_len <= data_len,
            extracted@.len() == y * row_len,
            forall|yy: int, xx: int|
                0 <= yy < y && 0 <= xx < row_len ==> #[trigger] pixel_at(extracted@, row_len, yy, xx)
                    == data@[(top + yy) * dw + left + xx],
        decreases h - y,
    {
        let ghost gy = y as int;
        assert((top + gy) * dw + left + row_len <= data_len) by (nonlinear_arith)
            requires
                0 <= gy < h,
                dw >= 0,
                top >= 0,
                (top + h - 1) * dw + left + row_len <= data_len,
        ;
        assert(top * dw + gy * dw == (top + gy) * dw) by (nonlinear_arith);
        assert(0 <= gy * dw) by (nonlinear_arith)
            requires
                gy >= 0,
                dw >= 0,
        ;
        assert(0 <= top * dw) by (nonlinear_arith)
            requires
                top >= 0,
                dw >= 0,
        ;
        assert(y * data_width == gy * dw);
        let start = start_index + y * data_width + left_offset;
        let mut x: usize = 0;
        while x < row_bytes
            invariant
                row_len == row_bytes,
                gy == y,
                0 <= gy < h,
                start == (top + gy) * dw + left,
                start + row_len <= data@.len(),
                data_len == data@.len(),
                0 <= x <= row_len,
                extracted@.len() == gy * row_len + x,
                forall|yy: int, xx: int|
                    0 <= yy < gy && 0 <= xx < row_len ==> #[trigger] pixel_at(extracted@, row_len, yy, xx)
                        == data@[(top + yy) * dw + left + xx],
                forall|xx: int| 0 <= xx < x ==> #[trigger] pixel_at(extracted@, row_len, gy, xx) == data@[start + xx],
            decreases row_len - x,
        {
            let ghost before = extracted@;
            extracted.push(data[start + x]);
            proof {
                assert forall|yy: int, xx: int| 0 <= yy < gy && 0 <= xx < row_len implies #[trigger] pixel_at(
                    extracted@,
                    row_len,
                    yy,
                    xx,
                ) == data@[(top + yy) * dw + left + xx] by {
                    assert(yy * row_len + xx < gy * row_len) by (nonlinear_arith)
                        requires
                            0 <= yy < gy,
                            0 <= xx < row_len,
                    ;
                    assert(pixel_at(before, row_len, yy, xx) == data@[(top + yy) * dw + left + xx]);
                }
                assert forall|xx: int| 0 <= xx < x + 1 implies #[trigger] pixel_at(extracted@, row_len, gy, xx)
                    == data@[start + xx] by {
                    if xx < x {
                        assert(pixel_at(before, row_len, gy, xx) == data@[start + xx]);
                    }
                }
            }
            x = x + 1;
        }
        proof {
            assert(gy * row_len + row_len == (gy + 1) * row_len) by (nonlinear_arith);
        }
        y = y + 1;
    }
    assert(h * row_len == rect.height * (rect.width * pixel_width));
    extracted
}

/// Copy the bytes of every rectangle out of the data, in the order of the rectangles.
pub fn split_data_by_rectangles(data: &[u8], rectangles: &Vec<Rect>, sheet_width: usize, pixel_width: usize) -> (r: Vec<
    Vec<u8>,
>)
    requires
        forall|i: int|
            0 <= i < rectangles@.len() ==> rectangle_in_bounds(
                data@.len() as int,
                #[trigger] rectangles@[i],
                sheet_width as int,
                pixel_width as int,
            ),
    ensures
        r@.len() == rectangles@.len(),
        forall|i: int|
            0 <= i < r@.len() ==> is_rectangle_of(
                #[trigger] r@[i]@,
                data@,
                rectangles@[i],
                sheet_width as int,
                pixel_width as int,
            ),
{
    let mut result: Vec<Vec<u8>> = Vec::new();
    let mut i: usize = 0;
    while i < rectangles.len()
        invariant
            0 <= i <= rectangles@.len(),
            result@.len() == i,
            forall|k: int|
                0 <= k < rectangles@.len() ==> rectangle_in_bounds(
                    data@.len() as int,
                    #[trigger] rectangles@[k],
                    sheet_width as int,
                    pixel_width as int,
                ),
            forall|k: int|
                0 <= k < i ==> is_rectangle_of(
                    #[trigger] result@[k]@,
                    data@,
                    rectangles@[k],
                    sheet_width as int,
                    pixel_width as int,
                ),
        decreases rectangles@.len() - i,
    {
        let extracted = extract_rectangle(data, rectangles[i], sheet_width, pixel_width);
        result.push(extracted);
        i = i + 1;
    }
    result
}

/// How a sprite sheet is divided: sprites of `width` by `height` pixels, in `columns` columns
/// and `rows` rows.
#[derive(Copy, Clone, Debug, PartialEq, Eq, Structural)]
pub struct Grid {
    pub width: usize,
    pub height: usize,
    pub columns: usize,
    pub rows: usize,
}

impl Grid {
    pub fn new(width: usize, height: usize, columns: usize, rows: usize) -> (r: Self)
        ensures
            r.width == width,
            r.height == height,
            r.columns == columns,
            r.rows == rows,
    {
        Self { width, height, columns, rows }
    }
}

/// The sprite sheets the game loads, each cut by a grid.
#[derive(Copy, Clone, Debug, PartialEq, Eq, Structural)]
pub enum SheetKey {
    PacmanWalkingUp,
    PacmanWalkingDown,
    PacmanWalkingLeft,
    PacmanWalkingRight,
    BlinkyUp,
    BlinkyDown,
    BlinkyLeft,
    BlinkyRight,
    PinkyUp,
    PinkyDown,
    PinkyLeft,
    PinkyRight,
    InkyUp,
    InkyDown,
    InkyLeft,
    InkyRight,
    ClydeUp,
    ClydeDown,
    ClydeLeft,
    ClydeRight,
    Frightened,
    FrightenedBlinking,
    OuterWallCornerBlinking,
    OuterWallBlinking,
    InnerWallCornerBlinking,
    InnerWallBlinking,
    GhostWallCornerBlinking,
    GhostWallBlinking,
}

/// The grid of a sprite sheet: sprites of 16 by 16 pixels in one row; pacman walks in four
/// pictures and a blinking frightened ghost blinks in four, every other sheet has two.
pub open spec fn sheet_grid(key: SheetKey) -> Grid {
    match key {
        SheetKey::PacmanWalkingUp | SheetKey::PacmanWalkingDown | SheetKey::PacmanWalkingLeft
        | SheetKey::PacmanWalkingRight | SheetKey::FrightenedBlinking => Grid { width: 16, height: 16, columns: 4, rows: 1 },
        _ => Grid { width: 16, height: 16, columns: 2, rows: 1 },
    }
}

/// The sheets the game registers, in order.
pub open spec fn registered_sheets() -> Seq<SheetKey> {
    seq![
        SheetKey::PacmanWalkingUp,
        SheetKey::PacmanWalkingDown,
        SheetKey::PacmanWalkingLeft,
        SheetKey::PacmanWalkingRight,
        SheetKey::BlinkyUp,
        SheetKey::BlinkyDown,
        SheetKey::BlinkyLeft,
        SheetKey::BlinkyRight,
        SheetKey::PinkyUp,
        SheetKey::PinkyDown,
        SheetKey::PinkyLeft,
        SheetKey::PinkyRight,
        SheetKey::InkyUp,
        SheetKey::InkyDown,
        SheetKey::InkyLeft,
        SheetKey::InkyRight,
        SheetKey::ClydeUp,
        SheetKey::ClydeDown,
        SheetKey::ClydeLeft,
        SheetKey::ClydeRight,
        SheetKey::Frightened,
        SheetKey::FrightenedBlinking,
        SheetKey::OuterWallCornerBlinking,
        SheetKey::OuterWallBlinking,
        SheetKey::InnerWallCornerBlinking,
        SheetKey::InnerWallBlinking,
        SheetKey::GhostWallCornerBlinking,
        SheetKey::GhostWallBlinking,
    ]
}

/// Knows the grid of every sprite sheet.
#[derive(Clone, Debug, PartialEq, Eq)]
pub struct SpriteSheetLoader {
    pub sheet_grids: Vec<(SheetKey, Grid)>,
}

/// The grid the loader knows for the sheet: the last one registered for it.
pub open spec fn grid_registered(sheet_grids: Seq<(SheetKey, Grid)>, key: SheetKey) -> Option<Grid>
    decreases sheet_grids.len(),
{
    if sheet_grids.len() == 0 {
        None
    } else if sheet_grids.last().0 == key {
        Some(sheet_grids.last().1)
    } else {
        grid_registered(sheet_grids.drop_last(), key)
    }
}

impl SpriteSheetLoader {
    pub fn from_path_grid_iter(iter: Vec<(SheetKey, Grid)>) -> (r: Self)
        ensures
            r.sheet_grids@ == iter@,
    {
        SpriteSheetLoader { sheet_grids: iter }
    }

    /// Return the grid registered for the sheet, if there is one.
    pub fn grid_of(&self, key: SheetKey) -> (r: Option<Grid>)
        ensures
            r == grid_registered(self.sheet_grids@, key),
    {
        let mut i: usize = self.sheet_grids.len();
        assert(self.sheet_grids@.take(self.sheet_grids@.len() as int) == self.sheet_grids@);
        while i > 0
            invariant
                0 <= i <= self.sheet_grids@.len(),
                grid_registered(self.sheet_grids@, key) == grid_registered(self.sheet_grids@.take(i as int), key),
            decreases i,
        {
            proof {
                assert(self.sheet_grids@.take(i as int).drop_last() == self.sheet_grids@.take(i - 1));
            }
            if self.sheet_grids[i - 1].0 == key {
                return Some(self.sheet_grids[i - 1].1);
            }
            i = i - 1;
        }
        None
    }
}

/// Return the grid of a sheet.
pub fn grid_for(key: SheetKey) -> (r: Grid)
    ensures
        r == sheet_grid(key),
{
    match key {
        SheetKey::PacmanWalkingUp | SheetKey::PacmanWalkingDown | SheetKey::PacmanWalkingLeft
        | SheetKey::PacmanWalkingRight | SheetKey::FrightenedBlinking => Grid::new(16, 16, 4, 1),
        _ => Grid::new(16, 16, 2, 1),
    }
}

/// Create the loader that knows the grid of every sheet the game loads.
pub fn register_sheet_loader() -> (r: SpriteSheetLoader)
    ensures
        r.sheet_grids@.len() == registered_sheets().len(),
        forall|i: int|
            0 <= i < registered_sheets().len() ==> #[trigger] r.sheet_grids@[i] == (registered_sheets()[i], sheet_grid(registered_sheets()[i])),
{
    let mut grids: Vec<(SheetKey, Grid)> = Vec::new();
    grids.push((SheetKey::PacmanWalkingUp, grid_for(SheetKey::PacmanWalkingUp)));
    grids.push((SheetKey::PacmanWalkingDown, grid_for(SheetKey::PacmanWalkingDown)));
    grids.push((SheetKey::PacmanWalkingLeft, grid_for(SheetKey::PacmanWalkingLeft)));
    grids.push((SheetKey::PacmanWalkingRight, grid_for(SheetKey::PacmanWalkingRight)));
    grids.push((SheetKey::BlinkyUp, grid_for(SheetKey::BlinkyUp)));
    grids.push((SheetKey::BlinkyDown, grid_for(SheetKey::BlinkyDown)));
    grids.push((SheetKey::BlinkyLeft, grid_for(SheetKey::BlinkyLeft)));
    grids.push((SheetKey::BlinkyRight, grid_for(SheetKey::BlinkyRight)));
    grids.push((SheetKey::PinkyUp, grid_for(SheetKey::PinkyUp)));
    grids.push((SheetKey::PinkyDown, grid_for(SheetKey::PinkyDown)));
    grids.push((SheetKey::PinkyLeft, grid_for(SheetKey::PinkyLeft)));
    grids.push((SheetKey::PinkyRight, grid_for(SheetKey::PinkyRight)));
    grids.push((SheetKey::InkyUp, grid_for(SheetKey::InkyUp)));
    grids.push((SheetKey::InkyDown, grid_for(SheetKey::InkyDown)));
    grids.push((SheetKey::InkyLeft, grid_for(SheetKey::InkyLeft)));
    grids.push((SheetKey::InkyRight, grid_for(SheetKey::InkyRight)));
    grids.push((SheetKey::ClydeUp, grid_for(SheetKey::ClydeUp)));
    grids.push((SheetKey::ClydeDown, grid_for(SheetKey::ClydeDown)));
    grids.push((SheetKey::ClydeLeft, grid_for(SheetKey::ClydeLeft)));
    grids.push((SheetKey::ClydeRight, grid_for(SheetKey::ClydeRight)));
    grids.push((SheetKey::Frightened, grid_for(SheetKey::Frightened)));
    grids.push((SheetKey::FrightenedBlinking, grid_for(SheetKey::FrightenedBlinking)));
    grids.push((SheetKey::OuterWallCornerBlinking, grid_for(SheetKey::OuterWallCornerBlinking)));
    grids.push((SheetKey::OuterWallBlinking, grid_for(SheetKey::OuterWallBlinking)));
    grids.push((SheetKey::InnerWallCornerBlinking, grid_for(SheetKey::InnerWallCornerBlinking)));
    grids.push((SheetKey::InnerWallBlinking, grid_for(SheetKey::InnerWallBlinking)));
    grids.push((SheetKey::GhostWallCornerBlinking, grid_for(SheetKey::GhostWallCornerBlinking)));
    grids.push((SheetKey::GhostWallBlinking, grid_for(SheetKey::GhostWallBlinking)));
    SpriteSheetLoader::from_path_grid_iter(grids)
}

/// Whether the sprite in the given column and row of the grid can be read from sheet data of
/// length `len`, whose rows hold `sheet_width` bytes.
pub open spec fn grid_cell_in_bounds(len: int, grid: Grid, sheet_width: int, pixel_size: int, column: int, row: int) -> bool {
    let width = grid.width * pixel_size;
    &&& sheet_width * row <= usize::MAX
    &&& sheet_width * row * grid.height <= usize::MAX
    &&& width * grid.height <= isize::MAX
    &&& sub_rect_in_bounds(len, sheet_width, column, row, width, grid.height as int)
}

/// Whether every sprite of the grid can be read from sheet data of length `len`.
pub open spec fn grid_in_bounds(len: int, grid: Grid, sheet_width: int, pixel_size: int) -> bool {
    &&& grid.width * pixel_size <= usize::MAX
    &&& grid.rows * grid.columns <= usize::MAX
    &&& forall|column: int, row: int|
        0 <= column < grid.columns && 0 <= row < grid.rows ==> #[trigger] grid_cell_in_bounds(
            len,
            grid,
            sheet_width,
            pixel_size,
            column,
            row,
        )
}

/// Whether `out` holds the bytes of the sprite in the given column and row of the grid.
pub open spec fn is_grid_cell_of(
    out: Seq<u8>,
    data: Seq<u8>,
    grid: Grid,
    sheet_width: int,
    pixel_size: int,
    column: int,
    row: int,
) -> bool {
    let width = grid.width * pixel_size;
    &&& out.len() == width * grid.height
    &&& forall|y: int, x: int|
        0 <= y < grid.height && 0 <= x < width ==> #[trigger] pixel_at(out, width, y, x) == data[(row * grid.height + y)
            * sheet_width + column * width + x]
}

/// Return the bytes of the sprite in the given column and row of the grid.
pub fn create_image(grid: &Grid, data: &[u8], sheet_width: usize, pixel_size: usize, column: usize, row: usize) -> (r: Vec<
    u8,
>)
    requires
        grid.width * pixel_size <= usize::MAX,
        grid_cell_in_bounds(data@.len() as int, *grid, sheet_width as int, pixel_size as int, column as int, row as int),
    ensures
        is_grid_cell_of(r@, data@, *grid, sheet_width as int, pixel_size as int, column as int, row as int),
{
    let width = grid.width * pixel_size;
    let height = grid.height;
    get_sub_rect(data, sheet_width, column, row, width, height)
}

/// Return the bytes of every sprite of the grid, row after row and in each row column after
/// column.
pub fn create_images(grid: &Grid, data: &[u8], sheet_width: usize, pixel_size: usize) -> (r: Vec<Vec<u8>>)
    requires
        grid_in_bounds(data@.len() as int, *grid, sheet_width as int, pixel_size as int),
    ensures
        r@.len() == grid.rows * grid.columns,
        forall|column: int, row: int|
            0 <= column < grid.columns && 0 <= row < grid.rows ==> is_grid_cell_of(
                #[trigger] r@[row * grid.columns + column]@,
                data@,
                *grid,
                sheet_width as int,
                pixel_size as int,
                column,
                row,
            ),
{
    let mut images: Vec<Vec<u8>> = Vec::new();
    let mut y: usize = 0;
    while y < grid.rows
        invariant
            0 <= y <= grid.rows,
            grid_in_bounds(data@.len() as int, *grid, sheet_width as int, pixel_size as int),
            images@.len() == y * grid.columns,
            forall|column: int, row: int|
                0 <= column < grid.columns && 0 <= row < y ==> is_grid_cell_of(
                    #[trigger] images@[row * grid.columns + column]@,
                    data@,
                    *grid,
                    sheet_width as int,
                    pixel_size as int,
                    column,
                    row,
                ),
        decreases grid.rows - y,
    {
        let mut x: usize = 0;
        while x < grid.columns
            invariant
                0 <= y < grid.rows,
                0 <= x <= grid.columns,
                grid_in_bounds(data@.len() as int, *grid, sheet_width as int, pixel_size as int),
                images@.len() == y * grid.columns + x,
                forall|column: int, row: int|
                    0 <= column < grid.columns && 0 <= row < y ==> is_grid_cell_of(
                        #[trigger] images@[row * grid.columns + column]@,
                        data@,
                        *grid,
                        sheet_width as int,
                        pixel_size as int,
                        column,
                        row,
                    ),
                forall|column: int|
                    0 <= column < x ==> is_grid_cell_of(
                        #[trigger] images@[y * grid.columns + column]@,
                        data@,
                        *grid,
                        sheet_width as int,
                        pixel_size as int,
                        column,
                        y as int,
                    ),
            decreases grid.columns - x,
        {
            assert(grid_cell_in_bounds(data@.len() as int, *grid, sheet_width as int, pixel_size as int, x as int, y as int));
            let new_image = create_image(grid, data, sheet_width, pixel_size, x, y);
            let ghost before = images@;
            images.push(new_image);
            proof {
                assert forall|column: int, row: int| 0 <= column < grid.columns && 0 <= row < y implies is_grid_cell_of(
                    #[trigger] images@[row * grid.columns + column]@,
                    data@,
                    *grid,
                    sheet_width as int,
                    pixel_size as int,
                    column,
                    row,
                ) by {
                    assert(row * grid.columns + column < y * grid.columns) by (nonlinear_arith)
                        requires
                            0 <= row < y,
                            0 <= column < grid.columns,
                    ;
                    assert(images@[row * grid.columns + column] == before[row * grid.columns + column]);
                }
                assert forall|column: int| 0 <= column < x + 1 implies is_grid_cell_of(
                    #[trigger] images@[y * grid.columns + column]@,
                    data@,
                    *grid,
                    sheet_width as int,
                    pixel_size as int,
                    column,
                    y as int,
                ) by {
                    if column < x {
                        assert(images@[y * grid.columns + column] == before[y * grid.columns + column]);
                    }
                }
            }
            x = x + 1;
        }
        proof {
            assert(y * grid.columns + grid.columns == (y + 1) * grid.columns) by (nonlinear_arith);
        }
        y = y + 1;
    }
    assert(grid.rows * grid.columns == y * grid.columns);
    images
}

/// The rectangle that covers a whole image holds all of its bytes, in order.
pub proof fn lemma_whole_image_is_one_rectangle(
    out: Seq<u8>,
    data: Seq<u8>,
    width: usize,
    height: usize,
    pixel_width: usize,
)
    requires
        data.len() == height * (width * pixel_width),
        is_rectangle_of(
            out,
            data,
            Rect { position: Position { x: 0, y: 0 }, width, height },
            width * pixel_width,
            pixel_width as int,
        ),
    ensures
        out == data,
{
    let row_len = width * pixel_width;
    assert forall|k: int| 0 <= k < data.len() implies out[k] == data[k] by {
        let y = k / row_len;
        let x = k % row_len;
        assert(row_len > 0) by (nonlinear_arith)
            requires
                0 <= k < height * row_len,
                height >= 0,
        ;
        vstd::arithmetic::div_mod::lemma_fundamental_div_mod(k, row_len);
        vstd::arithmetic::div_mod::lemma_mod_bound(k, row_len);
        assert(0 <= y < height) by (nonlinear_arith)
            requires
                0 <= k < height * row_len,
                k == row_len * y + x,
                0 <= x < row_len,
        ;
        assert(y * row_len + x == k) by (nonlinear_arith)
            requires
                k == row_len * y + x,
        ;
        assert(pixel_at(out, row_len, y, x) == data[(0 + y) * row_len + 0 * pixel_width + x]);
    }
    assert(out =~= data);
}

/// A sprite of a grid is the rectangle that starts at its column times its width and its row
/// times its height, with pixels of one byte.
pub proof fn lemma_grid_cell_is_rectangle(
    out: Seq<u8>,
    data: Seq<u8>,
    data_width: int,
    column: int,
    row: int,
    rect_width: usize,
    rect_height: usize,
)
    requires
        0 <= column,
        0 <= row,
        column * rect_width <= i32::MAX,
        row * rect_height <= i32::MAX,
        out.len() == rect_width * rect_height,
        forall|y: int, x: int|
            0 <= y < rect_height && 0 <= x < rect_width ==> #[trigger] pixel_at(out, rect_width as int, y, x)
                == data[(row * rect_height + y) * data_width + column * rect_width + x],
    ensures
        is_rectangle_of(
            out,
            data,
            Rect {
                position: Position { x: (column * rect_width) as i32, y: (row * rect_height) as i32 },
                width: rect_width,
                height: rect_height,
            },
            data_width,
            1,
        ),
{
    assert(0 <= column * rect_width) by (nonlinear_arith)
        requires
            0 <= column,
    ;
    assert(0 <= row * rect_height) by (nonlinear_arith)
        requires
            0 <= row,
    ;
    let rect = Rect {
        position: Position { x: (column * rect_width) as i32, y: (row * rect_height) as i32 },
        width: rect_width,
        height: rect_height,
    };
    assert(rect.width * 1 == rect_width);
    assert(rect.height * (rect.width * 1) == rect_width * rect_height) by (nonlinear_arith)
        requires
            rect.width == rect_width,
            rect.height == rect_height,
    ;
    assert forall|y: int, x: int| 0 <= y < rect.height && 0 <= x < rect.width * 1 implies #[trigger] pixel_at(
        out,
        rect.width * 1,
        y,
        x,
    ) == data[(rect.position.y + y) * data_width + rect.position.x * 1 + x] by {
        assert(pixel_at(out, rect_width as int, y, x) == data[(row * rect_height + y) * data_width + column * rect_width
            + x]);
    }
}

} // verus!

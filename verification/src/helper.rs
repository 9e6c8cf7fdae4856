use vstd::prelude::*;

verus! {

/// The element at column `x` of row `y` of a sequence that holds rows of `width` elements.
pub open spec fn pixel_at(s: Seq<u8>, width: int, y: int, x: int) -> u8 {
    s[y * width + x]
}

/// Whether every row of the sub rectangle lies inside data of length `len`: its last row ends
/// no later than the data does.
pub open spec fn sub_rect_in_bounds(len: int, data_width: int, column: int, row: int, rect_width: int, rect_height: int) -> bool {
    rect_height == 0 || (row * rect_height + rect_height - 1) * data_width + column * rect_width + rect_width <= len
}

/// Copy the rectangle in the given column and row out of data that holds rows of `data_width`
/// bytes and is split into rectangles of `rect_width` by `rect_height` bytes.
pub fn get_sub_rect(
    data: &[u8],
    data_width: usize,
    column: usize,
    row: usize,
    rect_width: usize,
    rect_height: usize,
) -> (rect: Vec<u8>)
    requires
        data_width * row <= usize::MAX,
        data_width * row * rect_height <= usize::MAX,
        rect_width * rect_height <= isize::MAX,
        sub_rect_in_bounds(data@.len() as int, data_width as int, column as int, row as int, rect_width as int, rect_height as int),
    ensures
        rect@.len() == rect_width * rect_height,
        forall|y: int, x: int|
            0 <= y < rect_height && 0 <= x < rect_width ==> #[trigger] pixel_at(rect@, rect_width as int, y, x)
                == data@[(row * rect_height + y) * data_width + column * rect_width + x],
{
    let ghost dw = data_width as int;
    let ghost rw = rect_width as int;
    let ghost rh = rect_height as int;
    let ghost base = column as int * rw;
    let data_len = data.len();
    assert(data_width * row * rect_height == (row * rect_height) * dw) by (nonlinear_arith)
        requires
            dw == data_width,
    ;
    let mut rect: Vec<u8> = Vec::with_capacity(rect_width * rect_height);
    let start_index = data_width * row * rect_height;
    let mut y: usize = 0;
    while y < rect_height
        invariant
            dw == data_width,
            rw == rect_width,
            rh == rect_height,
            base == column * rect_width,
            start_index == (row * rect_height) * dw,
            0 <= y <= rh,
            data_len == data@.len(),
            rect@.len() == y * rw,
            sub_rect_in_bounds(data@.len() as int, dw, column as int, row as int, rw, rh),
            forall|yy: int, xx: int|
                0 <= yy < y && 0 <= xx < rw ==> #[trigger] pixel_at(rect@, rw, yy, xx)
                    == data@[(row * rh + yy) * dw + base + xx],
        decreases rh - y,
    {
        let ghost gy = y as int;
        assert((row * rh + gy) * dw + base + rw <= data@.len()) by (nonlinear_arith)
            requires
                0 <= gy < rh,
                dw >= 0,
                rw >= 0,
                row >= 0,
                (row * rh + rh - 1) * dw + base + rw <= data@.len(),
        ;
        assert((row * rh) * dw + gy * dw == (row * rh + gy) * dw) by (nonlinear_arith);
        assert(0 <= base) by (nonlinear_arith)
            requires
                base == column * rect_width,
        ;
        assert(y * data_width == gy * dw);
        assert(0 <= (row * rh) * dw) by (nonlinear_arith)
            requires
                row >= 0,
                rh >= 0,
                dw >= 0,
        ;
        assert(0 <= gy * dw) by (nonlinear_arith)
            requires
                gy >= 0,
                dw >= 0,
        ;
        let start = start_index + y * data_width + column * rect_width;
        let mut x: usize = 0;
        while x < rect_width
            invariant
                dw == data_width,
                rw == rect_width,
                rh == rect_height,
                gy == y,
                0 <= gy < rh,
                start == (row * rh + gy) * dw + base,
                start + rw <= data@.len(),
                data_len == data@.len(),
                0 <= x <= rw,
                rect@.len() == gy * rw + x,
                forall|yy: int, xx: int|
                    0 <= yy < gy && 0 <= xx < rw ==> #[trigger] pixel_at(rect@, rw, yy, xx)
                        == data@[(row * rh + yy) * dw + base + xx],
                forall|xx: int| 0 <= xx < x ==> #[trigger] pixel_at(rect@, rw, gy, xx) == data@[start + xx],
            decreases rw - x,
        {
            let ghost old_rect = rect@;
            rect.push(data[start + x]);
            proof {
                assert forall|yy: int, xx: int| 0 <= yy < gy && 0 <= xx < rw implies #[trigger] pixel_at(rect@, rw, yy, xx)
                    == data@[(row * rh + yy) * dw + base + xx] by {
                    assert(yy * rw + xx < gy * rw) by (nonlinear_arith)
                        requires
                            0 <= yy < gy,
                            0 <= xx < rw,
                    ;
                    assert(pixel_at(old_rect, rw, yy, xx) == data@[(row * rh + yy) * dw + base + xx]);
                }
                assert forall|xx: int| 0 <= xx < x + 1 implies #[trigger] pixel_at(rect@, rw, gy, xx) == data@[start + xx] by {
                    if xx < x {
                        assert(pixel_at(old_rect, rw, gy, xx) == data@[start + xx]);
                    }
                }
            }
            x = x + 1;
        }
        proof {
            assert(gy * rw + rw == (gy + 1) * rw) by (nonlinear_arith);
        }
        y = y + 1;
    }
    assert(rh * rw == rect_width * rect_height) by (nonlinear_arith)
        requires
            rw == rect_width,
            rh == rect_height,
    ;
    rect
}

} // verus!

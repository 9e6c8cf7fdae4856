use vstd::prelude::*;

use crate::aseprite_data::{frames_fit, is_name_order, names_distinct, rect_of, AsepriteData, Frame};
use crate::sheet_paths::{data_sheet_name, lemma_sheet_pairs_in_range, pair_sheets, sheet_name_of_data, sheet_pairs, views};
use crate::sprite_sheet::{is_rectangle_of, rectangle_in_bounds, split_data_by_rectangles, Rect};

verus! {

/// A sheet description file: where it was loaded from and what it says.
#[derive(Clone, Debug)]
pub struct SheetData {
    pub path: Vec<u8>,
    pub aseprite: AsepriteData,
}

/// An image: where it was loaded from, its bytes, its width in pixels and the bytes per pixel.
#[derive(Clone, Debug)]
pub struct SheetImage {
    pub path: Vec<u8>,
    pub data: Vec<u8>,
    pub width: usize,
    pub pixel_size: usize,
}

/// The sprites cut out of one sheet: the bytes of each sprite and, at the same index, the
/// rectangle of the image it was cut from, which gives its size.
#[derive(Clone, Debug, PartialEq, Eq)]
pub struct SpriteSheet {
    pub textures: Vec<Vec<u8>>,
    pub rects: Vec<Rect>,
}

/// Every sprite sheet, under its name.
#[derive(Clone, Debug, PartialEq, Eq)]
pub struct SpriteSheets {
    pub path_sheet_map: Vec<(Vec<u8>, SpriteSheet)>,
}

/// The paths of the description files.
pub open spec fn data_paths_of(data: Seq<SheetData>) -> Seq<Seq<u8>> {
    Seq::new(data.len(), |d: int| data[d].path@)
}

/// The paths of the images.
pub open spec fn image_paths_of(images: Seq<SheetImage>) -> Seq<Seq<u8>> {
    Seq::new(images.len(), |i: int| images[i].path@)
}

/// The bytes of one row of the image.
pub open spec fn row_bytes(image: SheetImage) -> int {
    image.width * image.pixel_size
}

/// Whether every frame can be cut out of the image.
pub open spec fn fits_image(frames: Seq<(Vec<u8>, Frame)>, image: SheetImage) -> bool {
    &&& row_bytes(image) <= usize::MAX
    &&& forall|f: int|
        0 <= f < frames.len() ==> rectangle_in_bounds(
            image.data@.len() as int,
            rect_of(#[trigger] frames[f].1),
            row_bytes(image),
            image.pixel_size as int,
        )
}

/// Whether a description can be ordered: its names differ and its frames lie where positions can
/// address them.
pub open spec fn sheet_ready(data: SheetData) -> bool {
    names_distinct(data.aseprite.frames@) && frames_fit(data.aseprite.frames@)
}

/// Whether the textures are the frames cut out of the image, in the order of the frames' names,
/// and the rectangles are those of the frames in the same order.
pub open spec fn is_sheet_of(textures: Seq<Vec<u8>>, rects: Seq<Rect>, frames: Seq<(Vec<u8>, Frame)>, image: SheetImage) -> bool {
    exists|order: Seq<usize>|
        {
            &&& is_name_order(frames, order)
            &&& textures.len() == order.len()
            &&& rects.len() == order.len()
            &&& forall|j: int| 0 <= j < order.len() ==> #[trigger] rects[j] == rect_of(frames[order[j] as int].1)
            &&& forall|j: int|
                0 <= j < order.len() ==> is_rectangle_of(
                    #[trigger] textures[j]@,
                    image.data@,
                    rect_of(frames[order[j] as int].1),
                    row_bytes(image),
                    image.pixel_size as int,
                )
        }
}

/// Return a copy of the bytes.
fn copy_bytes(v: &Vec<u8>) -> (r: Vec<u8>)
    ensures
        r@ == v@,
{
    let mut r: Vec<u8> = Vec::new();
    let mut i: usize = 0;
    while i < v.len()
        invariant
            0 <= i <= v@.len(),
            r@ == v@.take(i as int),
        decreases v@.len() - i,
    {
        r.push(v[i]);
        assert(r@ == v@.take(i + 1));
        i = i + 1;
    }
    assert(v@.take(v@.len() as int) == v@);
    r
}

/// Cut every image that has a description into its sprites and name the sheet after the
/// description's path: the description pairs with the first image of the same sheet name, its
/// frames are cut in the order of their names, and a description without an image is left out.
pub fn create_sprite_sheets_from_aseprite_data(data: &Vec<SheetData>, images: &Vec<SheetImage>) -> (r: SpriteSheets)
    requires
        forall|d: int| 0 <= d < data@.len() ==> sheet_ready(#[trigger] data@[d]),
        forall|k: int|
            0 <= k < sheet_pairs(data_paths_of(data@), image_paths_of(images@)).len() ==> fits_image(
                data@[(#[trigger] sheet_pairs(data_paths_of(data@), image_paths_of(images@))[k]).0 as int].aseprite.frames@,
                images@[sheet_pairs(data_paths_of(data@), image_paths_of(images@))[k].1 as int],
            ),
    ensures
        r.path_sheet_map@.len() == sheet_pairs(data_paths_of(data@), image_paths_of(images@)).len(),
        forall|k: int|
            0 <= k < r.path_sheet_map@.len() ==> {
                let (d, i) = sheet_pairs(data_paths_of(data@), image_paths_of(images@))[k];
                &&& (#[trigger] r.path_sheet_map@[k]).0@ == sheet_name_of_data(data@[d as int].path@)
                &&& is_sheet_of(r.path_sheet_map@[k].1.textures@, r.path_sheet_map@[k].1.rects@, data@[d as int].aseprite.frames@, images@[i as int])
            },
{
    let mut data_paths: Vec<Vec<u8>> = Vec::new();
    let mut d: usize = 0;
    while d < data.len()
        invariant
            0 <= d <= data@.len(),
            data_paths@.len() == d,
            forall|k: int| 0 <= k < d ==> (#[trigger] data_paths@[k])@ == data@[k].path@,
        decreases data@.len() - d,
    {
        data_paths.push(copy_bytes(&data[d].path));
        d = d + 1;
    }
    let mut image_paths: Vec<Vec<u8>> = Vec::new();
    let mut i: usize = 0;
    while i < images.len()
        invariant
            0 <= i <= images@.len(),
            image_paths@.len() == i,
            forall|k: int| 0 <= k < i ==> (#[trigger] image_paths@[k])@ == images@[k].path@,
        decreases images@.len() - i,
    {
        image_paths.push(copy_bytes(&images[i].path));
        i = i + 1;
    }
    assert(views(data_paths@) == data_paths_of(data@));
    assert(views(image_paths@) == image_paths_of(images@));
    let pairs = pair_sheets(&data_paths, &image_paths);
    let ghost all = sheet_pairs(data_paths_of(data@), image_paths_of(images@));
    proof {
        lemma_sheet_pairs_in_range(data_paths_of(data@), image_paths_of(images@));
    }
    let mut sheets: Vec<(Vec<u8>, SpriteSheet)> = Vec::new();
    let mut k: usize = 0;
    while k < pairs.len()
        invariant
            0 <= k <= pairs@.len(),
            pairs@ == all,
            all == sheet_pairs(data_paths_of(data@), image_paths_of(images@)),
            forall|q: int| 0 <= q < all.len() ==> (#[trigger] all[q]).0 < data@.len() && all[q].1 < images@.len(),
            forall|q: int| 0 <= q < data@.len() ==> sheet_ready(#[trigger] data@[q]),
            forall|q: int|
                0 <= q < all.len() ==> fits_image(
                    data@[(#[trigger] all[q]).0 as int].aseprite.frames@,
                    images@[all[q].1 as int],
                ),
            sheets@.len() == k,
            forall|q: int|
                0 <= q < k ==> {
                    let (d, i) = all[q];
                    &&& (#[trigger] sheets@[q]).0@ == sheet_name_of_data(data@[d as int].path@)
                    &&& is_sheet_of(sheets@[q].1.textures@, sheets@[q].1.rects@, data@[d as int].aseprite.frames@, images@[i as int])
                },
        decreases pairs@.len() - k,
    {
        let (d, i) = pairs[k];
        proof {
            assert(all[k as int] == (d, i));
        }
        let sheet_data = &data[d];
        let image = &images[i];
        let rects = sheet_data.aseprite.rect_iter();
        let ghost frames = sheet_data.aseprite.frames@;
        let ghost order = choose|order: Seq<usize>|
            {
                &&& is_name_order(frames, order)
                &&& rects@.len() == order.len()
                &&& forall|j: int| 0 <= j < order.len() ==> #[trigger] rects@[j] == rect_of(frames[order[j] as int].1)
            };
        let sheet_width = image.width * image.pixel_size;
        proof {
            assert forall|j: int| 0 <= j < rects@.len() implies rectangle_in_bounds(
                image.data@.len() as int,
                #[trigger] rects@[j],
                sheet_width as int,
                image.pixel_size as int,
            ) by {
                assert(rects@[j] == rect_of(frames[order[j] as int].1));
                assert(order[j] < frames.len());
            }
        }
        let textures = split_data_by_rectangles(image.data.as_slice(), &rects, sheet_width, image.pixel_size);
        let name = data_sheet_name(&sheet_data.path);
        proof {
            assert forall|j: int| 0 <= j < order.len() implies is_rectangle_of(
                #[trigger] textures@[j]@,
                image.data@,
                rect_of(frames[order[j] as int].1),
                row_bytes(*image),
                image.pixel_size as int,
            ) by {
                assert(rects@[j] == rect_of(frames[order[j] as int].1));
            }
            assert(is_sheet_of(textures@, rects@, frames, *image));
        }
        sheets.push((name, SpriteSheet { textures, rects }));
        k = k + 1;
    }
    SpriteSheets { path_sheet_map: sheets }
}

impl SpriteSheets {
    /// Return the sheet of the given name; it has to be there. Where a name occurs twice, the later
    /// sheet counts.
    pub fn get_sheet(&self, path: &Vec<u8>) -> (r: &SpriteSheet)
        requires
            exists|k: int| 0 <= k < self.path_sheet_map@.len() && (#[trigger] self.path_sheet_map@[k]).0@ == path@,
        ensures
            exists|k: int|
                {
                    &&& 0 <= k < self.path_sheet_map@.len()
                    &&& (#[trigger] self.path_sheet_map@[k]).0@ == path@
                    &&& *r == self.path_sheet_map@[k].1
                    &&& forall|j: int| k < j < self.path_sheet_map@.len() ==> (#[trigger] self.path_sheet_map@[j]).0@ != path@
                },
    {
        let mut i: usize = self.path_sheet_map.len();
        while i > 0
            invariant
                0 <= i <= self.path_sheet_map@.len(),
                exists|k: int| 0 <= k < self.path_sheet_map@.len() && (#[trigger] self.path_sheet_map@[k]).0@ == path@,
                forall|j: int| i <= j < self.path_sheet_map@.len() ==> (#[trigger] self.path_sheet_map@[j]).0@ != path@,
            decreases i,
        {
            if same_name(&self.path_sheet_map[i - 1].0, path) {
                return &self.path_sheet_map[i - 1].1;
            }
            i = i - 1;
        }
        proof {
            let k = choose|k: int| 0 <= k < self.path_sheet_map@.len() && (#[trigger] self.path_sheet_map@[k]).0@ == path@;
        }
        vstd::pervasive::unreached()
    }
}

/// Return whether two names are equal.
fn same_name(a: &Vec<u8>, b: &Vec<u8>) -> (r: bool)
    ensures
        r == (a@ == b@),
{
    if a.len() != b.len() {
        return false;
    }
    let mut i: usize = 0;
    while i < a.len()
        invariant
            a@.len() == b@.len(),
            0 <= i <= a@.len(),
            forall|j: int| 0 <= j < i ==> a@[j] == b@[j],
        decreases a@.len() - i,
    {
        if a[i] != b[i] {
            return false;
        }
        i = i + 1;
    }
    assert(a@ == b@);
    true
}

impl SpriteSheet {
    /// Return the sprite at the index.
    pub fn image_at(&self, index: usize) -> (r: &Vec<u8>)
        requires
            index < self.textures@.len(),
        ensures
            *r == self.textures@[index as int],
    {
        &self.textures[index]
    }

    /// Return the sprites at the indices, in their order.
    pub fn images_at(&self, indexes: &Vec<usize>) -> (r: Vec<Vec<u8>>)
        requires
            forall|j: int| 0 <= j < indexes@.len() ==> #[trigger] indexes@[j] < self.textures@.len(),
        ensures
            r@.len() == indexes@.len(),
            forall|j: int| 0 <= j < indexes@.len() ==> (#[trigger] r@[j])@ == self.textures@[indexes@[j] as int]@,
    {
        let mut r: Vec<Vec<u8>> = Vec::new();
        let mut j: usize = 0;
        while j < indexes.len()
            invariant
                0 <= j <= indexes@.len(),
                forall|q: int| 0 <= q < indexes@.len() ==> #[trigger] indexes@[q] < self.textures@.len(),
                r@.len() == j,
                forall|q: int| 0 <= q < j ==> (#[trigger] r@[q])@ == self.textures@[indexes@[q] as int]@,
            decreases indexes@.len() - j,
        {
            r.push(copy_bytes(&self.textures[indexes[j]]));
            j = j + 1;
        }
        r
    }
}

} // verus!

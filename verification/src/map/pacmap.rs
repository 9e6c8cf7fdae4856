use vstd::prelude::*;

use crate::common::Position;
use crate::ghosts::GhostKind;
use crate::position_map::PositionMap;

verus! {

/// The type of one field of a text map.
#[derive(Copy, Clone, Debug, PartialEq, Eq, Hash, Structural)]
pub enum FieldType {
    Free,
    Wall,
    GhostWall,
    GhostSpawn,
    GhostCorner(GhostKind),
    PacManSpawn,
    Point,
    LeftTunnel,
    RightTunnel,
}

/// The field type a character of a text map stands for, if any.
pub open spec fn field_type_of(c: u8) -> Option<FieldType> {
    if c == 87 {
        Some(FieldType::Wall)  // 'W'
    } else if c == 32 {
        Some(FieldType::Free)  // ' '
    } else if c == 76 {
        Some(FieldType::LeftTunnel)  // 'L'
    } else if c == 82 {
        Some(FieldType::RightTunnel)  // 'R'
    } else if c == 71 {
        Some(FieldType::GhostWall)  // 'G'
    } else if c == 83 {
        Some(FieldType::GhostSpawn)  // 'S'
    } else if c == 80 {
        Some(FieldType::PacManSpawn)  // 'P'
    } else if c == 46 {
        Some(FieldType::Point)  // '.'
    } else if c == 98 {
        Some(FieldType::GhostCorner(GhostKind::Blinky))  // 'b'
    } else if c == 112 {
        Some(FieldType::GhostCorner(GhostKind::Pinky))  // 'p'
    } else if c == 105 {
        Some(FieldType::GhostCorner(GhostKind::Inky))  // 'i'
    } else if c == 99 {
        Some(FieldType::GhostCorner(GhostKind::Clyde))  // 'c'
    } else {
        None
    }
}

impl FieldType {
    /// Convert a character of a text map into the field type it stands for.
    pub fn try_from_byte(c: u8) -> (r: Option<FieldType>)
        ensures
            r == field_type_of(c),
    {
        if c == 87 {
            Some(FieldType::Wall)
        } else if c == 32 {
            Some(FieldType::Free)
        } else if c == 76 {
            Some(FieldType::LeftTunnel)
        } else if c == 82 {
            Some(FieldType::RightTunnel)
        } else if c == 71 {
            Some(FieldType::GhostWall)
        } else if c == 83 {
            Some(FieldType::GhostSpawn)
        } else if c == 80 {
            Some(FieldType::PacManSpawn)
        } else if c == 46 {
            Some(FieldType::Point)
        } else if c == 98 {
            Some(FieldType::GhostCorner(GhostKind::Blinky))
        } else if c == 112 {
            Some(FieldType::GhostCorner(GhostKind::Pinky))
        } else if c == 105 {
            Some(FieldType::GhostCorner(GhostKind::Inky))
        } else if c == 99 {
            Some(FieldType::GhostCorner(GhostKind::Clyde))
        } else {
            None
        }
    }
}

/// The index of the first line feed in `s`, or its length when it holds none.
pub open spec fn newline_index(s: Seq<u8>) -> nat
    decreases s.len(),
{
    if s.len() == 0 {
        0
    } else if s[0] == 10 {
        0
    } else {
        1 + newline_index(s.drop_first())
    }
}

/// A line without the carriage return that ended it.
pub open spec fn strip_cr(l: Seq<u8>) -> Seq<u8> {
    if l.len() > 0 && l.last() == 13 {
        l.drop_last()
    } else {
        l
    }
}

/// The lines of a text: split at every line feed, a carriage return right before a line feed
/// dropped; a last line without line feed counts, an empty rest after the last line feed does not.
pub open spec fn split_lines(s: Seq<u8>) -> Seq<Seq<u8>>
    decreases s.len(),
{
    if s.len() == 0 {
        seq![]
    } else {
        let k = newline_index(s);
        if k >= s.len() {
            seq![s]
        } else {
            seq![strip_cr(s.take(k as int))].add(split_lines(s.skip(k + 1 as int)))
        }
    }
}

/// Whether every character of every line stands for a field type.
pub open spec fn lines_are_valid(lines: Seq<Seq<u8>>) -> bool {
    forall|i: int, j: int|
        0 <= i < lines.len() && 0 <= j < lines[i].len() ==> (#[trigger] field_type_of(lines[i][j])) is Some
}

/// The length of the longest line.
pub open spec fn max_len(lines: Seq<Seq<u8>>) -> nat
    decreases lines.len(),
{
    if lines.len() == 0 {
        0
    } else {
        let rest = max_len(lines.drop_last());
        if lines.last().len() > rest {
            lines.last().len()
        } else {
            rest
        }
    }
}

/// The field types of a line, padded with free fields up to `width`.
pub open spec fn line_fields(line: Seq<u8>, width: nat) -> Seq<FieldType> {
    Seq::new(
        if width > line.len() { width } else { line.len() },
        |j: int|
            if j < line.len() {
                field_type_of(line[j])->0
            } else {
                FieldType::Free
            },
    )
}

/// Holds width, height and a matrix with all fields of the map.
#[derive(Clone, Debug, PartialEq, Eq)]
pub struct PacMap {
    pub field_types: Vec<Vec<FieldType>>,
    pub width: usize,
    pub height: usize,
}

/// The matrix as sequences.
pub open spec fn matrix_view(m: Seq<Vec<FieldType>>) -> Seq<Seq<FieldType>> {
    Seq::new(m.len(), |i: int| m[i]@)
}

/// Whether the map's matrix has `height` rows of `width` fields each.
pub open spec fn is_rectangular(m: PacMap) -> bool {
    &&& m.field_types@.len() == m.height
    &&& forall|y: int| 0 <= y < m.height ==> (#[trigger] m.field_types@[y])@.len() == m.width
}

/// Whether the map's matrix holds at least `height` rows, each of the first `height` with at least
/// `width` fields.
pub open spec fn covers_size(m: PacMap) -> bool {
    &&& m.field_types@.len() >= m.height
    &&& forall|y: int| 0 <= y < m.height ==> (#[trigger] m.field_types@[y])@.len() >= m.width
}

/// The map a text describes.
pub open spec fn pacmap_of_lines(lines: Seq<Seq<u8>>) -> (Seq<Seq<FieldType>>, nat, nat) {
    (
        Seq::new(lines.len(), |i: int| line_fields(lines[i], max_len(lines))),
        max_len(lines),
        lines.len(),
    )
}

proof fn lemma_newline_index_at(s: Seq<u8>, k: int)
    requires
        0 <= k <= s.len(),
        forall|j: int| 0 <= j < k ==> s[j] != 10,
        k < s.len() ==> s[k] == 10,
    ensures
        newline_index(s) == k,
    decreases s.len(),
{
    if s.len() == 0 {
    } else if s[0] == 10 {
    } else {
        lemma_newline_index_at(s.drop_first(), k - 1);
    }
}

proof fn lemma_max_len(lines: Seq<Seq<u8>>)
    ensures
        forall|i: int| 0 <= i < lines.len() ==> (#[trigger] lines[i]).len() <= max_len(lines),
        lines.len() > 0 ==> exists|i: int| 0 <= i < lines.len() && (#[trigger] lines[i]).len() == max_len(lines),
    decreases lines.len(),
{
    if lines.len() > 0 {
        lemma_max_len(lines.drop_last());
        let rest = lines.drop_last();
        assert forall|i: int| 0 <= i < lines.len() implies (#[trigger] lines[i]).len() <= max_len(lines) by {
            if i < lines.len() - 1 {
                assert(lines[i] == rest[i]);
            }
        }
        if lines.last().len() <= max_len(rest) && rest.len() > 0 {
            let i = choose|i: int| 0 <= i < rest.len() && (#[trigger] rest[i]).len() == max_len(rest);
            assert(lines[i] == rest[i]);
        }
    }
}


/// A map of a Position to a FieldType.
pub type PositionTypeMap = PositionMap<FieldType>;

/// Whether the position lies on a map of the given size.
pub open spec fn on_map(p: Position, width: int, height: int) -> bool {
    0 <= p.x < width && 0 <= p.y < height
}

impl PacMap {
    /// Split a text into its lines.
    pub fn read_lines(data: &[u8]) -> (r: Vec<Vec<u8>>)
        ensures
            r@.len() == split_lines(data@).len(),
            forall|i: int| 0 <= i < r@.len() ==> (#[trigger] r@[i])@ == split_lines(data@)[i],
    {
        let mut lines: Vec<Vec<u8>> = Vec::new();
        let ghost mut done: Seq<Seq<u8>> = seq![];
        let mut start: usize = 0;
        let mut current: Vec<u8> = Vec::new();
        let mut i: usize = 0;
        assert(data@.skip(0) == data@);
        assert(done + split_lines(data@) == split_lines(data@));
        while i < data.len()
            invariant
                0 <= start <= i <= data@.len(),
                lines@.len() == done.len(),
                forall|k: int| 0 <= k < lines@.len() ==> (#[trigger] lines@[k])@ == done[k],
                done + split_lines(data@.skip(start as int)) == split_lines(data@),
                current@ == data@.subrange(start as int, i as int),
                forall|j: int| start <= j < i ==> data@[j] != 10,
            decreases data@.len() - i,
        {
            if data[i] == 10 {
                let ghost rest = data@.skip(start as int);
                proof {
                    lemma_newline_index_at(rest, i - start);
                    assert(rest.take(i - start) == current@);
                    assert(rest.skip(i - start + 1) == data@.skip(i + 1));
                    assert(split_lines(rest) == seq![strip_cr(current@)].add(split_lines(data@.skip(i + 1))));
                }
                let mut line = current;
                if line.len() > 0 && line[line.len() - 1] == 13 {
                    line.pop();
                }
                proof {
                    done = done.push(line@);
                    assert(done + split_lines(data@.skip(i + 1)) == split_lines(data@));
                }
                lines.push(line);
                current = Vec::new();
                start = i + 1;
            } else {
                current.push(data[i]);
            }
            i = i + 1;
        }
        let ghost rest = data@.skip(start as int);
        if start < data.len() {
            proof {
                lemma_newline_index_at(rest, rest.len() as int);
                assert(current@ == rest);
                assert(split_lines(rest) == seq![current@]);
                done = done.push(current@);
            }
            lines.push(current);
        } else {
            assert(rest.len() == 0);
            assert(split_lines(rest) == Seq::<Seq<u8>>::empty());
            assert(done + split_lines(rest) == done);
        }
        assert(done == split_lines(data@));
        lines
    }

    /// Read a map from the bytes of a text map: one line per row, one character per field.
    pub fn from_read(read: &[u8]) -> (r: PacMap)
        requires
            split_lines(read@).len() > 0,
            lines_are_valid(split_lines(read@)),
        ensures
            matrix_view(r.field_types@) == pacmap_of_lines(split_lines(read@)).0,
            r.width == pacmap_of_lines(split_lines(read@)).1,
            r.height == pacmap_of_lines(split_lines(read@)).2,
            is_rectangular(r),
    {
        let lines = Self::read_lines(read);
        proof {
            assert(lines@.len() > 0);
        }
        let (width, height) = Self::read_width_and_height(&lines);
        let field_types = Self::lines_to_field_type_matrix(&lines, width);
        let r = PacMap { field_types, width, height };
        proof {
            let sl = split_lines(read@);
            let lv = Seq::new(lines@.len(), |i: int| lines@[i]@);
            assert(lv == sl);
            lemma_max_len(sl);
            assert(matrix_view(r.field_types@) == pacmap_of_lines(sl).0);
            assert forall|y: int| 0 <= y < r.height implies (#[trigger] r.field_types@[y])@.len() == r.width by {
                assert(r.field_types@[y]@ == line_fields(sl[y], max_len(sl)));
            }
        }
        r
    }


    /// Transforms this pacmap into a map of a Position to a FieldType. The first row is the top
    /// of the map, so it gets the highest y coordinate.
    pub fn into_position_type_map(self) -> (r: PositionTypeMap)
        requires
            covers_size(self),
            self.width <= 0x8000_0000,
            self.height <= 0x8000_0000,
        ensures
            forall|p: Position| #[trigger] r@.contains_key(p) <==> on_map(p, self.width as int, self.height as int),
            forall|p: Position|
                on_map(p, self.width as int, self.height as int) ==> #[trigger] r@[p]
                    == self.field_types@[self.height - 1 - p.y]@[p.x as int],
    {
        let mut position_type_map = PositionTypeMap::new();
        let h = self.height;
        let w = self.width;
        let mut y: usize = 0;
        while y < h
            invariant
                covers_size(self),
                h == self.height,
                w == self.width,
                w <= 0x8000_0000,
                h <= 0x8000_0000,
                0 <= y <= h,
                forall|p: Position| #[trigger] position_type_map@.contains_key(p) <==> (0 <= p.x < w && h - y <= p.y < h),
                forall|p: Position|
                    #[trigger] position_type_map@.contains_key(p) ==> position_type_map@[p]
                        == self.field_types@[h - 1 - p.y]@[p.x as int],
            decreases h - y,
        {
            let mut x: usize = 0;
            while x < w
                invariant
                    covers_size(self),
                    h == self.height,
                    w == self.width,
                    w <= 0x8000_0000,
                    h <= 0x8000_0000,
                    0 <= y < h,
                    0 <= x <= w,
                    forall|p: Position| #[trigger] position_type_map@.contains_key(p) <==> (
                        (0 <= p.x < w && h - y <= p.y < h) || (p.y == h - 1 - y && 0 <= p.x < x)),
                    forall|p: Position|
                        #[trigger] position_type_map@.contains_key(p) ==> position_type_map@[p]
                            == self.field_types@[h - 1 - p.y]@[p.x as int],
                decreases w - x,
            {
                let row = &self.field_types[y];
                assert(row@.len() >= w);
                let p = Position::new(x as i32, (h - 1 - y) as i32);
                position_type_map.insert(p, row[x]);
                x = x + 1;
            }
            y = y + 1;
        }
        assert forall|p: Position| on_map(p, w as int, h as int) implies #[trigger] position_type_map@[p]
            == self.field_types@[h - 1 - p.y]@[p.x as int] by {
            assert(position_type_map@.contains_key(p));
        }
        position_type_map
    }

    /// The width is the length of the longest line, the height the number of lines.
    pub fn read_width_and_height(lines: &Vec<Vec<u8>>) -> (r: (usize, usize))
        requires
            lines@.len() > 0,
        ensures
            r.0 == max_len(Seq::new(lines@.len(), |i: int| lines@[i]@)),
            r.1 == lines@.len(),
    {
        let ghost lv = Seq::new(lines@.len(), |i: int| lines@[i]@);
        let mut width: usize = 0;
        let mut i: usize = 0;
        while i < lines.len()
            invariant
                0 <= i <= lines@.len(),
                lv == Seq::new(lines@.len(), |i: int| lines@[i]@),
                width == max_len(lv.take(i as int)),
            decreases lines@.len() - i,
        {
            proof {
                assert(lv.take(i + 1).drop_last() == lv.take(i as int));
            }
            if lines[i].len() > width {
                width = lines[i].len();
            }
            i = i + 1;
        }
        assert(lv.take(lines@.len() as int) == lv);
        (width, lines.len())
    }

    pub fn lines_to_field_type_matrix(lines: &Vec<Vec<u8>>, width: usize) -> (r: Vec<Vec<FieldType>>)
        requires
            lines_are_valid(Seq::new(lines@.len(), |i: int| lines@[i]@)),
        ensures
            r@.len() == lines@.len(),
            forall|i: int| 0 <= i < lines@.len() ==> (#[trigger] r@[i])@ == line_fields(lines@[i]@, width as nat),
    {
        let mut matrix: Vec<Vec<FieldType>> = Vec::new();
        let mut i: usize = 0;
        while i < lines.len()
            invariant
                0 <= i <= lines@.len(),
                lines_are_valid(Seq::new(lines@.len(), |i: int| lines@[i]@)),
                matrix@.len() == i,
                forall|k: int| 0 <= k < i ==> (#[trigger] matrix@[k])@ == line_fields(lines@[k]@, width as nat),
            decreases lines@.len() - i,
        {
            proof {
                let lv = Seq::new(lines@.len(), |i: int| lines@[i]@);
                assert forall|j: int| 0 <= j < lines@[i as int]@.len() implies (#[trigger] field_type_of(lines@[i as int]@[j])) is Some by {
                    assert(lv[i as int][j] == lines@[i as int]@[j]);
                }
            }
            matrix.push(Self::line_to_field_types(&lines[i], width));
            i = i + 1;
        }
        matrix
    }

    /// Converts a line into a Vec of Field types.
    /// If the line is shorter than the width, the remaining space is
    /// filled with FieldType::Free.
    pub fn line_to_field_types(line: &Vec<u8>, width: usize) -> (r: Vec<FieldType>)
        requires
            forall|j: int| 0 <= j < line@.len() ==> (#[trigger] field_type_of(line@[j])) is Some,
        ensures
            r@ == line_fields(line@, width as nat),
    {
        let mut field_types: Vec<FieldType> = Vec::new();
        let mut j: usize = 0;
        while j < line.len()
            invariant
                0 <= j <= line@.len(),
                forall|j: int| 0 <= j < line@.len() ==> (#[trigger] field_type_of(line@[j])) is Some,
                field_types@.len() == j,
                forall|k: int| 0 <= k < j ==> #[trigger] field_types@[k] == field_type_of(line@[k])->0,
            decreases line@.len() - j,
        {
            match FieldType::try_from_byte(line[j]) {
                Some(t) => field_types.push(t),
                None => {
                    proof {
                        assert(field_type_of(line@[j as int]) is Some);
                    }
                    vstd::pervasive::unreached::<()>();
                },
            }
            j = j + 1;
        }
        while field_types.len() < width
            invariant
                line@.len() <= field_types@.len(),
                forall|k: int| 0 <= k < line@.len() ==> #[trigger] field_types@[k] == field_type_of(line@[k])->0,
                forall|k: int| line@.len() <= k < field_types@.len() ==> #[trigger] field_types@[k] == FieldType::Free,
                field_types@.len() <= width || field_types@.len() == line@.len(),
            decreases width - field_types@.len(),
        {
            field_types.push(FieldType::Free);
        }
        assert(field_types@ =~= line_fields(line@, width as nat));
        field_types
    }
}

/// The field type a text map gives a position: that of the character in the position's column
/// of the line counted from the bottom, or a free field past the end of a short line.
pub open spec fn text_map_field(lines: Seq<Seq<u8>>, p: Position) -> FieldType {
    let line = lines[lines.len() - 1 - p.y];
    if p.x < line.len() {
        field_type_of(line[p.x as int])->0
    } else {
        FieldType::Free
    }
}

/// Read as a map and turned into positions, a text map puts its last line at the bottom row and
/// every character in its column; short lines are filled with free fields up to the longest one.
pub proof fn lemma_text_map_positions(lines: Seq<Seq<u8>>, p: Position)
    requires
        on_map(p, pacmap_of_lines(lines).1 as int, pacmap_of_lines(lines).2 as int),
    ensures
        pacmap_of_lines(lines).0[pacmap_of_lines(lines).2 - 1 - p.y][p.x as int] == text_map_field(lines, p),
{
    lemma_max_len(lines);
}

} // verus!

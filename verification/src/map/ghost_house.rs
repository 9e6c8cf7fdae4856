use vstd::prelude::*;

use crate::common::{Direction, Position};
use crate::ghosts::GhostKind;
use crate::map::board::matching_positions;
use crate::map::tile_map::{Element, ElementFilter, Rotation, TileMap};

verus! {

/// Where a ghost spawns: two neighbouring fields, between which it stands, and the direction it
/// looks at first.
#[derive(Copy, Clone, Debug, PartialEq, Eq, Structural)]
pub struct GhostSpawn {
    pub kind: GhostKind,
    pub spawn_direction: Direction,
    pub first_position: Position,
    pub second_position: Position,
}

/// Whether a ghost house with the given lower left corner fits the coordinate type, with all its
/// pieces and the fields in front of it.
pub open spec fn house_fits(bottom_left: Position) -> bool {
    i32::MIN + 1 <= bottom_left.x <= i32::MAX - 7 && i32::MIN + 1 <= bottom_left.y <= i32::MAX - 7
}

/// Return the lower left corner of the ghost house: the smallest column and the smallest row of
/// its fields, or the largest coordinates when the map has no ghost house. The corner is given
/// as a pair of `isize` coordinates, so that it can start from the largest ones.
pub fn get_bottom_left(tile_map: &TileMap) -> (r: (isize, isize))
    ensures
        forall|p: Position|
            #[trigger] matching_positions(tile_map.elements_map@, ElementFilter::GhostHouses).contains(p) ==> r.0 <= p.x
                && r.1 <= p.y,
        r.0 == isize::MAX || exists|p: Position|
            #[trigger] matching_positions(tile_map.elements_map@, ElementFilter::GhostHouses).contains(p) && p.x == r.0,
        r.1 == isize::MAX || exists|p: Position|
            #[trigger] matching_positions(tile_map.elements_map@, ElementFilter::GhostHouses).contains(p) && p.y == r.1,
{
    let ghost houses = matching_positions(tile_map.elements_map@, ElementFilter::GhostHouses);
    let positions = tile_map.get_positions_matching(ElementFilter::GhostHouses);
    let mut acc_x: isize = isize::MAX;
    let mut acc_y: isize = isize::MAX;
    let mut i: usize = 0;
    while i < positions.len()
        invariant
            0 <= i <= positions@.len(),
            forall|p: Position| positions@.contains(p) <==> houses.contains(p),
            forall|j: int| 0 <= j < i ==> acc_x <= (#[trigger] positions@[j]).x && acc_y <= positions@[j].y,
            acc_x == isize::MAX || exists|j: int| 0 <= j < i && (#[trigger] positions@[j]).x == acc_x,
            acc_y == isize::MAX || exists|j: int| 0 <= j < i && (#[trigger] positions@[j]).y == acc_y,
        decreases positions@.len() - i,
    {
        let pos = positions[i];
        let x = pos.x as isize;
        let y = pos.y as isize;
        if x < acc_x {
            acc_x = x;
        }
        if y < acc_y {
            acc_y = y;
        }
        i = i + 1;
    }
    proof {
        if acc_x != isize::MAX {
            let j = choose|j: int| 0 <= j < positions@.len() && (#[trigger] positions@[j]).x == acc_x;
            assert(positions@.contains(positions@[j]));
            assert(houses.contains(positions@[j]));
        }
        if acc_y != isize::MAX {
            let j = choose|j: int| 0 <= j < positions@.len() && (#[trigger] positions@[j]).y == acc_y;
            assert(positions@.contains(positions@[j]));
            assert(houses.contains(positions@[j]));
        }
        assert forall|p: Position| #[trigger] houses.contains(p) implies acc_x <= p.x && acc_y <= p.y by {
            assert(positions@.contains(p));
            let j = choose|j: int| 0 <= j < positions@.len() && positions@[j] == p;
        }
    }
    (acc_x, acc_y)
}

/// The corner as a position, when the house with it fits the coordinate type.
pub open spec fn corner_position(corner: (isize, isize)) -> Option<Position> {
    if i32::MIN + 1 <= corner.0 <= i32::MAX - 7 && i32::MIN + 1 <= corner.1 <= i32::MAX - 7 {
        Some(Position { x: corner.0 as i32, y: corner.1 as i32 })
    } else {
        None
    }
}

/// Return the corner as a position, if a house with it fits the coordinate type.
pub fn bottom_left_position(corner: (isize, isize)) -> (r: Option<Position>)
    ensures
        r == corner_position(corner),
        r matches Some(p) ==> house_fits(p),
{
    let min: isize = -2147483647;
    let max: isize = 2147483640;
    if min <= corner.0 && corner.0 <= max && min <= corner.1 && corner.1 <= max {
        Some(Position::new(corner.0 as i32, corner.1 as i32))
    } else {
        None
    }
}

/// Whether the element is a ghost house field.
pub open spec fn is_ghost_house(e: Element) -> bool {
    e is GhostHouse
}

/// Whether the map holds a ghost house field.
pub open spec fn has_ghost_house(m: Map<Position, Element>) -> bool {
    exists|p: Position| m.contains_key(p) && m[p] is GhostHouse
}

/// Return the rotation of a ghost house field of the map.
pub fn get_rotation(tile_map: &TileMap) -> (r: Rotation)
    requires
        has_ghost_house(tile_map.elements_map@),
    ensures
        exists|p: Position|
            tile_map.elements_map@.contains_key(p) && tile_map.elements_map@[p] == (Element::GhostHouse { rotation: r }),
{
    let elements = tile_map.position_element_iter();
    let ghost m = tile_map.elements_map@;
    let mut i: usize = 0;
    while i < elements.len()
        invariant
            0 <= i <= elements@.len(),
            m == tile_map.elements_map@,
            forall|p: Position, e: Element| elements@.contains((p, e)) <==> (m.contains_key(p) && m[p] == e),
            forall|j: int| 0 <= j < i ==> !is_ghost_house((#[trigger] elements@[j]).1),
        decreases elements@.len() - i,
    {
        match elements[i].1 {
            Element::GhostHouse { rotation } => {
                proof {
                    let (p, e) = elements@[i as int];
                    assert(elements@.contains((p, e)));
                    assert(m.contains_key(p) && m[p] == e);
                }
                return rotation;
            },
            _ => {},
        }
        i = i + 1;
    }
    proof {
        let p = choose|p: Position| m.contains_key(p) && m[p] is GhostHouse;
        assert(elements@.contains((p, m[p])));
        let j = choose|j: int| 0 <= j < elements@.len() && elements@[j] == (p, m[p]);
        assert(is_ghost_house(elements@[j].1));
    }
    vstd::pervasive::unreached()
}

/// The offsets of the two spawn fields of a ghost from the lower left corner of the house, and the
/// direction the ghost looks at first, for each rotation of the house.
pub open spec fn spawn_layout(ghost: GhostKind, rotation: Rotation) -> (int, int, int, int, Direction) {
    match ghost {
        GhostKind::Blinky => match rotation {
            Rotation::D0 => (3, 5, 4, 5, Direction::Left),
            Rotation::D90 => (5, 3, 5, 4, Direction::Up),
            Rotation::D180 => (3, -1, 4, -1, Direction::Right),
            Rotation::D270 => (-1, 3, -1, 4, Direction::Down),
        },
        GhostKind::Pinky => match rotation {
            Rotation::D0 => (3, 2, 4, 2, Direction::Up),
            Rotation::D90 => (2, 3, 2, 4, Direction::Right),
            Rotation::D180 => (3, 2, 4, 2, Direction::Down),
            Rotation::D270 => (2, 3, 2, 4, Direction::Left),
        },
        GhostKind::Inky => match rotation {
            Rotation::D0 => (1, 2, 2, 2, Direction::Down),
            Rotation::D90 => (2, 5, 2, 6, Direction::Left),
            Rotation::D180 => (5, 2, 6, 2, Direction::Up),
            Rotation::D270 => (2, 1, 2, 2, Direction::Right),
        },
        GhostKind::Clyde => match rotation {
            Rotation::D0 => (5, 2, 6, 2, Direction::Down),
            Rotation::D90 => (2, 1, 2, 2, Direction::Left),
            Rotation::D180 => (1, 2, 2, 2, Direction::Up),
            Rotation::D270 => (2, 5, 2, 6, Direction::Right),
        },
    }
}

/// The spawn of a ghost in a house with the given rotation and lower left corner.
pub open spec fn spawn_of(ghost: GhostKind, rotation: Rotation, bottom_left: Position) -> GhostSpawn {
    let (x0, y0, x1, y1, d) = spawn_layout(ghost, rotation);
    GhostSpawn {
        kind: ghost,
        spawn_direction: d,
        first_position: Position { x: (bottom_left.x + x0) as i32, y: (bottom_left.y + y0) as i32 },
        second_position: Position { x: (bottom_left.x + x1) as i32, y: (bottom_left.y + y1) as i32 },
    }
}

/// Return the spawn of a ghost two fields given by their offsets from the lower left corner.
pub fn create_spawn_with_offsets(
    bottom_left: Position,
    offsets_0: (i32, i32),
    offsets_1: (i32, i32),
    ghost: GhostKind,
    spawn_direction: Direction,
) -> (r: GhostSpawn)
    requires
        -1 <= offsets_0.0 <= 7,
        -1 <= offsets_0.1 <= 7,
        -1 <= offsets_1.0 <= 7,
        -1 <= offsets_1.1 <= 7,
        house_fits(bottom_left),
    ensures
        r.kind == ghost,
        r.spawn_direction == spawn_direction,
        r.first_position == (Position { x: (bottom_left.x + offsets_0.0) as i32, y: (bottom_left.y + offsets_0.1) as i32 }),
        r.second_position == (Position { x: (bottom_left.x + offsets_1.0) as i32, y: (bottom_left.y + offsets_1.1) as i32 }),
{
    let x = bottom_left.x;
    let y = bottom_left.y;
    GhostSpawn {
        kind: ghost,
        spawn_direction,
        first_position: Position::new(x + offsets_0.0, y + offsets_0.1),
        second_position: Position::new(x + offsets_1.0, y + offsets_1.1),
    }
}

pub fn create_blinky_spawn(rotation: Rotation, bottom_left: Position) -> (r: GhostSpawn)
    requires
        house_fits(bottom_left),
    ensures
        r == spawn_of(GhostKind::Blinky, rotation, bottom_left),
{
    match rotation {
        Rotation::D0 => create_spawn_with_offsets(bottom_left, (3, 5), (4, 5), GhostKind::Blinky, Direction::Left),
        Rotation::D90 => create_spawn_with_offsets(bottom_left, (5, 3), (5, 4), GhostKind::Blinky, Direction::Up),
        Rotation::D180 => create_spawn_with_offsets(bottom_left, (3, -1), (4, -1), GhostKind::Blinky, Direction::Right),
        Rotation::D270 => create_spawn_with_offsets(bottom_left, (-1, 3), (-1, 4), GhostKind::Blinky, Direction::Down),
    }
}

pub fn create_pinky_spawn(rotation: Rotation, bottom_left: Position) -> (r: GhostSpawn)
    requires
        house_fits(bottom_left),
    ensures
        r == spawn_of(GhostKind::Pinky, rotation, bottom_left),
{
    match rotation {
        Rotation::D0 => create_spawn_with_offsets(bottom_left, (3, 2), (4, 2), GhostKind::Pinky, Direction::Up),
        Rotation::D90 => create_spawn_with_offsets(bottom_left, (2, 3), (2, 4), GhostKind::Pinky, Direction::Right),
        Rotation::D180 => create_spawn_with_offsets(bottom_left, (3, 2), (4, 2), GhostKind::Pinky, Direction::Down),
        Rotation::D270 => create_spawn_with_offsets(bottom_left, (2, 3), (2, 4), GhostKind::Pinky, Direction::Left),
    }
}

pub fn create_inky_spawn(rotation: Rotation, bottom_left: Position) -> (r: GhostSpawn)
    requires
        house_fits(bottom_left),
    ensures
        r == spawn_of(GhostKind::Inky, rotation, bottom_left),
{
    match rotation {
        Rotation::D0 => create_spawn_with_offsets(bottom_left, (1, 2), (2, 2), GhostKind::Inky, Direction::Down),
        Rotation::D90 => create_spawn_with_offsets(bottom_left, (2, 5), (2, 6), GhostKind::Inky, Direction::Left),
        Rotation::D180 => create_spawn_with_offsets(bottom_left, (5, 2), (6, 2), GhostKind::Inky, Direction::Up),
        Rotation::D270 => create_spawn_with_offsets(bottom_left, (2, 1), (2, 2), GhostKind::Inky, Direction::Right),
    }
}

pub fn create_clyde_spawn(rotation: Rotation, bottom_left: Position) -> (r: GhostSpawn)
    requires
        house_fits(bottom_left),
    ensures
        r == spawn_of(GhostKind::Clyde, rotation, bottom_left),
{
    match rotation {
        Rotation::D0 => create_spawn_with_offsets(bottom_left, (5, 2), (6, 2), GhostKind::Clyde, Direction::Down),
        Rotation::D90 => create_spawn_with_offsets(bottom_left, (2, 1), (2, 2), GhostKind::Clyde, Direction::Left),
        Rotation::D180 => create_spawn_with_offsets(bottom_left, (1, 2), (2, 2), GhostKind::Clyde, Direction::Up),
        Rotation::D270 => create_spawn_with_offsets(bottom_left, (2, 5), (2, 6), GhostKind::Clyde, Direction::Right),
    }
}

/// The eight spawn fields of blinky, pinky, inky and clyde, in this order, two per ghost.
pub open spec fn spawn_fields_of(rotation: Rotation, bottom_left: Position) -> Seq<Position> {
    seq![
        spawn_of(GhostKind::Blinky, rotation, bottom_left).first_position,
        spawn_of(GhostKind::Blinky, rotation, bottom_left).second_position,
        spawn_of(GhostKind::Pinky, rotation, bottom_left).first_position,
        spawn_of(GhostKind::Pinky, rotation, bottom_left).second_position,
        spawn_of(GhostKind::Inky, rotation, bottom_left).first_position,
        spawn_of(GhostKind::Inky, rotation, bottom_left).second_position,
        spawn_of(GhostKind::Clyde, rotation, bottom_left).first_position,
        spawn_of(GhostKind::Clyde, rotation, bottom_left).second_position,
    ]
}

/// No two ghosts share a spawn field, in any rotation of the house, and each ghost spawns on two
/// different fields. In an upright house pinky spawns in the middle of the house, on the fields
/// three and four to the right of its lower left corner and two up, right below blinky's spawn in
/// front of the entrance and between inky's spawn on its left and clyde's on its right.
pub proof fn lemma_spawn_fields_are_distinct(rotation: Rotation, bottom_left: Position)
    requires
        house_fits(bottom_left),
    ensures
        forall|i: int, j: int|
            0 <= i < j < 8 ==> #[trigger] spawn_fields_of(rotation, bottom_left)[i] != #[trigger] spawn_fields_of(
                rotation,
                bottom_left,
            )[j],
        rotation == Rotation::D0 ==> {
            let pinky = spawn_of(GhostKind::Pinky, rotation, bottom_left);
            let blinky = spawn_of(GhostKind::Blinky, rotation, bottom_left);
            let inky = spawn_of(GhostKind::Inky, rotation, bottom_left);
            let clyde = spawn_of(GhostKind::Clyde, rotation, bottom_left);
            &&& pinky.first_position == (Position { x: (bottom_left.x + 3) as i32, y: (bottom_left.y + 2) as i32 })
            &&& pinky.second_position == (Position { x: (bottom_left.x + 4) as i32, y: (bottom_left.y + 2) as i32 })
            &&& pinky.spawn_direction == Direction::Up
            &&& pinky.first_position.x == blinky.first_position.x && pinky.second_position.x == blinky.second_position.x
            &&& pinky.first_position.y < blinky.first_position.y
            &&& inky.second_position.x < pinky.first_position.x && pinky.second_position.x < clyde.first_position.x
            &&& inky.first_position.y == pinky.first_position.y && clyde.first_position.y == pinky.first_position.y
        },
{
}

/// Return the spawns of blinky, pinky, inky and clyde, in this order.
pub fn create_spawns(rotation: Rotation, bottom_left: Position) -> (r: Vec<GhostSpawn>)
    requires
        house_fits(bottom_left),
    ensures
        r@ == seq![
            spawn_of(GhostKind::Blinky, rotation, bottom_left),
            spawn_of(GhostKind::Pinky, rotation, bottom_left),
            spawn_of(GhostKind::Inky, rotation, bottom_left),
            spawn_of(GhostKind::Clyde, rotation, bottom_left),
        ],
        forall|k: int, l: int|
            0 <= k < l < 4 ==> {
                &&& (#[trigger] r@[k]).first_position != (#[trigger] r@[l]).first_position
                &&& r@[k].first_position != r@[l].second_position
                &&& r@[k].second_position != r@[l].first_position
                &&& r@[k].second_position != r@[l].second_position
            },
        forall|k: int| 0 <= k < 4 ==> (#[trigger] r@[k]).first_position != r@[k].second_position,
{
    proof {
        lemma_spawn_fields_are_distinct(rotation, bottom_left);
        let f = spawn_fields_of(rotation, bottom_left);
        assert(f[0] != f[1] && f[2] != f[3] && f[4] != f[5] && f[6] != f[7]);
    }
    let mut spawns: Vec<GhostSpawn> = Vec::new();
    spawns.push(create_blinky_spawn(rotation, bottom_left));
    spawns.push(create_pinky_spawn(rotation, bottom_left));
    spawns.push(create_inky_spawn(rotation, bottom_left));
    spawns.push(create_clyde_spawn(rotation, bottom_left));
    spawns
}

/// What a piece of the ghost house wall is.
#[derive(Copy, Clone, Debug, PartialEq, Eq, Structural)]
pub enum PieceKind {
    Corner,
    Wall,
    Entrance,
}

/// One piece of the ghost house wall: what it is, how it is turned and where it stands.
#[derive(Copy, Clone, Debug, PartialEq, Eq, Structural)]
pub struct HousePiece {
    pub kind: PieceKind,
    pub rotation: Rotation,
    pub position: Position,
}

/// The upper right corner of the ghost house: a house opening up or down is eight fields wide and
/// five high, one opening to the side five wide and eight high.
pub open spec fn top_right_of(rotation: Rotation, bottom_left: Position) -> Position {
    match rotation {
        Rotation::D0 | Rotation::D180 => Position { x: (bottom_left.x + 7) as i32, y: (bottom_left.y + 4) as i32 },
        _ => Position { x: (bottom_left.x + 4) as i32, y: (bottom_left.y + 7) as i32 },
    }
}

/// `count` pieces in a line from `start`, to the right or upwards; the third and fourth are the
/// entrance when `with_entrance` holds.
pub open spec fn pieces_in_line(start: Position, horizontal: bool, count: nat, rotation: Rotation, with_entrance: bool) -> Seq<
    HousePiece,
> {
    Seq::new(
        count,
        |i: int|
            HousePiece {
                kind: if with_entrance && (i == 2 || i == 3) {
                    PieceKind::Entrance
                } else {
                    PieceKind::Wall
                },
                rotation,
                position: if horizontal {
                    Position { x: (start.x + i) as i32, y: start.y }
                } else {
                    Position { x: start.x, y: (start.y + i) as i32 }
                },
            },
    )
}

/// The four corner pieces of the house.
pub open spec fn corner_pieces(bottom_left: Position, top_right: Position) -> Seq<HousePiece> {
    seq![
        HousePiece { kind: PieceKind::Corner, rotation: Rotation::D0, position: Position { x: bottom_left.x, y: top_right.y } },
        HousePiece { kind: PieceKind::Corner, rotation: Rotation::D90, position: top_right },
        HousePiece { kind: PieceKind::Corner, rotation: Rotation::D180, position: Position { x: top_right.x, y: bottom_left.y } },
        HousePiece { kind: PieceKind::Corner, rotation: Rotation::D270, position: bottom_left },
    ]
}

/// Return the four corner pieces of the house.
pub fn spawn_corners(bottom_left: Position, top_right: Position) -> (r: Vec<HousePiece>)
    ensures
        r@ == corner_pieces(bottom_left, top_right),
{
    let mut pieces: Vec<HousePiece> = Vec::new();
    pieces.push(HousePiece { kind: PieceKind::Corner, rotation: Rotation::D0, position: Position::new(bottom_left.x, top_right.y) });
    pieces.push(HousePiece { kind: PieceKind::Corner, rotation: Rotation::D90, position: top_right });
    pieces.push(HousePiece { kind: PieceKind::Corner, rotation: Rotation::D180, position: Position::new(top_right.x, bottom_left.y) });
    pieces.push(HousePiece { kind: PieceKind::Corner, rotation: Rotation::D270, position: bottom_left });
    pieces
}

/// Return `count` pieces in a line from `start`, to the right or upwards; the third and fourth
/// are the entrance when `with_entrance` holds.
pub fn line_of_pieces(start: Position, horizontal: bool, count: usize, rotation: Rotation, with_entrance: bool) -> (r: Vec<
    HousePiece,
>)
    requires
        count <= 6,
        horizontal ==> start.x + 6 <= i32::MAX,
        !horizontal ==> start.y + 6 <= i32::MAX,
    ensures
        r@ == pieces_in_line(start, horizontal, count as nat, rotation, with_entrance),
{
    let mut pieces: Vec<HousePiece> = Vec::new();
    let mut i: usize = 0;
    while i < count
        invariant
            0 <= i <= count <= 6,
            horizontal ==> start.x + 6 <= i32::MAX,
            !horizontal ==> start.y + 6 <= i32::MAX,
            pieces@ == pieces_in_line(start, horizontal, count as nat, rotation, with_entrance).take(i as int),
        decreases count - i,
    {
        let offset: i32 = if i == 0 { 0 } else if i == 1 { 1 } else if i == 2 { 2 } else if i == 3 { 3 } else if i == 4 { 4 } else { 5 };
        let kind = if with_entrance && (i == 2 || i == 3) {
            PieceKind::Entrance
        } else {
            PieceKind::Wall
        };
        let position = if horizontal {
            Position::new(start.x + offset, start.y)
        } else {
            Position::new(start.x, start.y + offset)
        };
        pieces.push(HousePiece { kind, rotation, position });
        proof {
            assert(pieces@ == pieces_in_line(start, horizontal, count as nat, rotation, with_entrance).take(i + 1));
        }
        i = i + 1;
    }
    assert(pieces@ == pieces_in_line(start, horizontal, count as nat, rotation, with_entrance));
    pieces
}

/// The pieces of the upper side of the house: the entrance is there when the house opens up.
pub open spec fn top_pieces(rotation: Rotation, bottom_left: Position, top_right: Position) -> Seq<HousePiece> {
    let start = Position { x: (bottom_left.x + 1) as i32, y: top_right.y };
    match rotation {
        Rotation::D0 => pieces_in_line(start, true, 6, rotation, true),
        Rotation::D180 => pieces_in_line(start, true, 6, rotation, false),
        _ => pieces_in_line(start, true, 3, rotation, false),
    }
}

/// The pieces of the lower side of the house: the entrance is there when the house opens down.
pub open spec fn bottom_pieces(rotation: Rotation, bottom_left: Position) -> Seq<HousePiece> {
    let start = Position { x: (bottom_left.x + 1) as i32, y: bottom_left.y };
    match rotation {
        Rotation::D180 => pieces_in_line(start, true, 6, rotation, true),
        Rotation::D0 => pieces_in_line(start, true, 6, rotation, false),
        _ => pieces_in_line(start, true, 3, rotation, false),
    }
}

/// The pieces of the left side of the house: the entrance is there when the house opens left.
pub open spec fn left_pieces(rotation: Rotation, bottom_left: Position) -> Seq<HousePiece> {
    let start = Position { x: bottom_left.x, y: (bottom_left.y + 1) as i32 };
    match rotation {
        Rotation::D270 => pieces_in_line(start, false, 6, Rotation::D90, true),
        Rotation::D90 => pieces_in_line(start, false, 6, Rotation::D90, false),
        _ => pieces_in_line(start, false, 3, Rotation::D90, false),
    }
}

/// The pieces of the right side of the house: the entrance is there when the house opens right.
pub open spec fn right_pieces(rotation: Rotation, bottom_left: Position, top_right: Position) -> Seq<HousePiece> {
    let start = Position { x: top_right.x, y: (bottom_left.y + 1) as i32 };
    match rotation {
        Rotation::D90 => pieces_in_line(start, false, 6, Rotation::D90, true),
        Rotation::D270 => pieces_in_line(start, false, 6, Rotation::D90, false),
        _ => pieces_in_line(start, false, 3, Rotation::D90, false),
    }
}

pub fn spawn_top(rotation: Rotation, bottom_left: Position, top_right: Position) -> (r: Vec<HousePiece>)
    requires
        house_fits(bottom_left),
        top_right == top_right_of(rotation, bottom_left),
    ensures
        r@ == top_pieces(rotation, bottom_left, top_right),
{
    let start = Position::new(bottom_left.x + 1, top_right.y);
    match rotation {
        Rotation::D0 => line_of_pieces(start, true, 6, rotation, true),
        Rotation::D180 => line_of_pieces(start, true, 6, rotation, false),
        _ => line_of_pieces(start, true, 3, rotation, false),
    }
}

pub fn spawn_bottom(rotation: Rotation, bottom_left: Position) -> (r: Vec<HousePiece>)
    requires
        house_fits(bottom_left),
    ensures
        r@ == bottom_pieces(rotation, bottom_left),
{
    let start = Position::new(bottom_left.x + 1, bottom_left.y);
    match rotation {
        Rotation::D180 => line_of_pieces(start, true, 6, rotation, true),
        Rotation::D0 => line_of_pieces(start, true, 6, rotation, false),
        _ => line_of_pieces(start, true, 3, rotation, false),
    }
}

pub fn spawn_left(rotation: Rotation, bottom_left: Position) -> (r: Vec<HousePiece>)
    requires
        house_fits(bottom_left),
    ensures
        r@ == left_pieces(rotation, bottom_left),
{
    let start = Position::new(bottom_left.x, bottom_left.y + 1);
    match rotation {
        Rotation::D270 => line_of_pieces(start, false, 6, Rotation::D90, true),
        Rotation::D90 => line_of_pieces(start, false, 6, Rotation::D90, false),
        _ => line_of_pieces(start, false, 3, Rotation::D90, false),
    }
}

pub fn spawn_right(rotation: Rotation, bottom_left: Position, top_right: Position) -> (r: Vec<HousePiece>)
    requires
        house_fits(bottom_left),
        top_right == top_right_of(rotation, bottom_left),
    ensures
        r@ == right_pieces(rotation, bottom_left, top_right),
{
    let start = Position::new(top_right.x, bottom_left.y + 1);
    match rotation {
        Rotation::D90 => line_of_pieces(start, false, 6, Rotation::D90, true),
        Rotation::D270 => line_of_pieces(start, false, 6, Rotation::D90, false),
        _ => line_of_pieces(start, false, 3, Rotation::D90, false),
    }
}

/// All pieces of the ghost house wall: corners, then the upper, lower, left and right side.
pub open spec fn house_pieces(bottom_left: Position, rotation: Rotation) -> Seq<HousePiece> {
    let top_right = top_right_of(rotation, bottom_left);
    corner_pieces(bottom_left, top_right) + top_pieces(rotation, bottom_left, top_right) + bottom_pieces(
        rotation,
        bottom_left,
    ) + left_pieces(rotation, bottom_left) + right_pieces(rotation, bottom_left, top_right)
}

/// Return all pieces of the ghost house wall.
pub fn spawn_house_walls(bottom_left: Position, rotation: Rotation) -> (r: Vec<HousePiece>)
    requires
        house_fits(bottom_left),
    ensures
        r@ == house_pieces(bottom_left, rotation),
{
    let top_right = match rotation {
        Rotation::D0 | Rotation::D180 => Position::new(bottom_left.x + 7, bottom_left.y + 4),
        _ => Position::new(bottom_left.x + 4, bottom_left.y + 7),
    };
    let mut pieces = spawn_corners(bottom_left, top_right);
    let mut top = spawn_top(rotation, bottom_left, top_right);
    let mut bottom = spawn_bottom(rotation, bottom_left);
    let mut left = spawn_left(rotation, bottom_left);
    let mut right = spawn_right(rotation, bottom_left, top_right);
    pieces.append(&mut top);
    pieces.append(&mut bottom);
    pieces.append(&mut left);
    pieces.append(&mut right);
    pieces
}

} // verus!

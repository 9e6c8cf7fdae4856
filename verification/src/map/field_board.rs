use vstd::prelude::*;

use crate::common::{can_step, stepped, Direction, Position};
use crate::map::pacmap::{covers_size, on_map, FieldType, PacMap, PositionTypeMap};
use crate::map::tile_map::contains_position;
use crate::position_map::{distinct, lemma_entries_map_has_entry, lemma_entries_map_key_entry};

verus! {

/// A field next to a given one: where it is, what it holds and in which direction it lies.
#[derive(Copy, Clone, Debug, PartialEq, Eq, Structural)]
pub struct Neighbour {
    pub position: Position,
    pub field_type: FieldType,
    pub direction: Direction,
}

/// Knows the type of every field of a text map.
#[derive(Clone, Debug)]
pub struct FieldBoard {
    pub position_type_map: PositionTypeMap,
    pub width: usize,
    pub height: usize,
}

/// The neighbour of `p` in direction `d`, as a sequence of at most one element: empty when that
/// field is not on the map.
pub open spec fn neighbour_if_present(m: Map<Position, FieldType>, p: Position, d: Direction) -> Seq<Neighbour> {
    if can_step(p, d, 1) && m.contains_key(stepped(p, d, 1)) {
        seq![Neighbour { position: stepped(p, d, 1), field_type: m[stepped(p, d, 1)], direction: d }]
    } else {
        seq![]
    }
}

/// The neighbours of `p` that are on the map, in the order up, down, left, right.
pub open spec fn field_neighbours(m: Map<Position, FieldType>, p: Position) -> Seq<Neighbour> {
    neighbour_if_present(m, p, Direction::Up) + neighbour_if_present(m, p, Direction::Down)
        + neighbour_if_present(m, p, Direction::Left) + neighbour_if_present(m, p, Direction::Right)
}

/// Every neighbour that `field_neighbours` lists is on the map, with the type the map gives it.
pub proof fn lemma_field_neighbours_on_map(m: Map<Position, FieldType>, p: Position)
    ensures
        forall|k: int|
            0 <= k < field_neighbours(m, p).len() ==> m.contains_key(#[trigger] field_neighbours(m, p)[k].position)
                && m[field_neighbours(m, p)[k].position] == field_neighbours(m, p)[k].field_type,
{
    let a = neighbour_if_present(m, p, Direction::Up);
    let b = neighbour_if_present(m, p, Direction::Down);
    let c = neighbour_if_present(m, p, Direction::Left);
    let d = neighbour_if_present(m, p, Direction::Right);
    assert forall|k: int| 0 <= k < field_neighbours(m, p).len() implies m.contains_key(
        #[trigger] field_neighbours(m, p)[k].position,
    ) && m[field_neighbours(m, p)[k].position] == field_neighbours(m, p)[k].field_type by {
        let s = field_neighbours(m, p);
        if k < a.len() {
            assert(s[k] == a[k]);
        } else if k < a.len() + b.len() {
            assert(s[k] == b[k - a.len()]);
        } else if k < a.len() + b.len() + c.len() {
            assert(s[k] == c[k - a.len() - b.len()]);
        } else {
            assert(s[k] == d[k - a.len() - b.len() - c.len()]);
        }
    }
}

/// Return the position one field away in the given direction, if it fits the coordinate type.
pub fn checked_step(p: &Position, d: &Direction) -> (r: Option<Position>)
    ensures
        r is Some <==> can_step(*p, *d, 1),
        r is Some ==> r->0 == stepped(*p, *d, 1),
{
    match d {
        Direction::Up => if p.y < i32::MAX { Some(Position::new(p.x, p.y + 1)) } else { None },
        Direction::Down => if p.y > i32::MIN { Some(Position::new(p.x, p.y - 1)) } else { None },
        Direction::Left => if p.x > i32::MIN { Some(Position::new(p.x - 1, p.y)) } else { None },
        Direction::Right => if p.x < i32::MAX { Some(Position::new(p.x + 1, p.y)) } else { None },
    }
}

impl FieldBoard {
    /// Create the board of a text map.
    pub fn new(pacmap: PacMap) -> (r: FieldBoard)
        requires
            covers_size(pacmap),
            pacmap.width <= 0x8000_0000,
            pacmap.height <= 0x8000_0000,
        ensures
            r.width == pacmap.width,
            r.height == pacmap.height,
            forall|p: Position| #[trigger] r.position_type_map@.contains_key(p) <==> on_map(p, pacmap.width as int, pacmap.height as int),
            forall|p: Position|
                on_map(p, pacmap.width as int, pacmap.height as int) ==> #[trigger] r.position_type_map@[p]
                    == pacmap.field_types@[pacmap.height - 1 - p.y]@[p.x as int],
    {
        let width = pacmap.width;
        let height = pacmap.height;
        FieldBoard { position_type_map: pacmap.into_position_type_map(), width, height }
    }

    /// Return the type of a field on the board.
    pub fn type_of_position(&self, position: &Position) -> (r: &FieldType)
        requires
            self.position_type_map@.contains_key(*position),
        ensures
            *r == self.position_type_map@[*position],
    {
        match self.position_type_map.get(position) {
            Some(t) => t,
            None => vstd::pervasive::unreached(),
        }
    }

    /// Return every position of the given type.
    pub fn positions_of_type(&self, field_type: FieldType) -> (r: Vec<Position>)
        ensures
            distinct(r@),
            forall|p: Position| r@.contains(p) <==> (self.position_type_map@.contains_key(p)
                && self.position_type_map@[p] == field_type),
    {
        let mut result: Vec<Position> = Vec::new();
        let entries = &self.position_type_map.entries;
        let ghost m = self.position_type_map@;
        let mut i: usize = 0;
        while i < entries.len()
            invariant
                0 <= i <= entries@.len(),
                entries == &self.position_type_map.entries,
                m == self.position_type_map@,
                distinct(result@),
                forall|k: int| 0 <= k < result@.len() ==> m.contains_key(#[trigger] result@[k])
                    && m[result@[k]] == field_type,
                forall|j: int| 0 <= j < i && m[(#[trigger] entries@[j]).0] == field_type
                    ==> result@.contains(entries@[j].0),
            decreases entries@.len() - i,
        {
            let ghost old_result = result@;
            let p = entries[i].0;
            proof {
                lemma_entries_map_has_entry(entries@, i as int);
            }
            match self.position_type_map.get(&p) {
                Some(t) => {
                    if *t == field_type && !contains_position(&result, &p) {
                        result.push(p);
                    }
                },
                None => {},
            }
            proof {
                assert forall|j: int| 0 <= j < i + 1 && m[(#[trigger] entries@[j]).0] == field_type
                    implies result@.contains(entries@[j].0) by {
                    if j < i {
                        let k = choose|k: int| 0 <= k < old_result.len() && old_result[k] == entries@[j].0;
                        assert(result@[k] == old_result[k]);
                    } else if result@.len() > old_result.len() {
                        assert(result@[result@.len() - 1] == p);
                    } else {
                        let k = choose|k: int| 0 <= k < old_result.len() && old_result[k] == p;
                        assert(result@[k] == old_result[k]);
                    }
                }
            }
            i = i + 1;
        }
        proof {
            assert forall|p: Position| result@.contains(p) implies (m.contains_key(p) && m[p] == field_type) by {
                let k = choose|k: int| 0 <= k < result@.len() && result@[k] == p;
            }
            assert forall|p: Position| (m.contains_key(p) && m[p] == field_type) implies result@.contains(p) by {
                let j = lemma_entries_map_key_entry(entries@, p);
            }
        }
        result
    }

    /// Return a position of the given type.
    pub fn position_of_type(&self, field_type: FieldType) -> (r: Position)
        requires
            exists|p: Position| self.position_type_map@.contains_key(p) && self.position_type_map@[p] == field_type,
        ensures
            self.position_type_map@.contains_key(r),
            self.position_type_map@[r] == field_type,
    {
        let positions = self.positions_of_type(field_type);
        if positions.len() == 0 {
            proof {
                let p = choose|p: Position| self.position_type_map@.contains_key(p) && self.position_type_map@[p] == field_type;
                assert(positions@.contains(p));
            }
            return vstd::pervasive::unreached();
        }
        assert(positions@.contains(positions@[0]));
        positions[0]
    }

    /// Return the neighbours of a position that are on the board, in the order up, down, left,
    /// right.
    pub fn neighbours_of(&self, position: &Position) -> (r: Vec<Neighbour>)
        ensures
            r@ == field_neighbours(self.position_type_map@, *position),
    {
        let mut result: Vec<Neighbour> = Vec::new();
        self.push_neighbour(position, Direction::Up, &mut result);
        self.push_neighbour(position, Direction::Down, &mut result);
        self.push_neighbour(position, Direction::Left, &mut result);
        self.push_neighbour(position, Direction::Right, &mut result);
        result
    }

    fn push_neighbour(&self, position: &Position, direction: Direction, result: &mut Vec<Neighbour>)
        ensures
            final(result)@ == old(result)@ + neighbour_if_present(self.position_type_map@, *position, direction),
    {
        match checked_step(position, &direction) {
            Some(p) => match self.position_type_map.get(&p) {
                Some(t) => {
                    result.push(Neighbour { position: p, field_type: *t, direction });
                },
                None => {},
            },
            None => {},
        }
        assert(final(result)@ == old(result)@ + neighbour_if_present(self.position_type_map@, *position, direction));
    }
}

} // verus!

use vstd::prelude::*;

use crate::common::{opposite_of, Direction, Position};
use crate::new_map::{kind_of, matches_filter, Element, ElementFilter, ElementKind, Field, Neighbour};
use crate::position_map::{
    columns_of, count_columns, count_rows, distinct, lemma_entries_map_has_entry, lemma_entries_map_key_entry, rows_of,
    PositionMap,
};

verus! {

/// The elements on a position of the map; none where the map has no field.
pub open spec fn elements_at(m: Map<Position, Vec<Element>>, p: Position) -> Seq<Element> {
    if m.contains_key(p) {
        m[p]@
    } else {
        seq![]
    }
}

/// The position next to `p` in direction `d` on a board of the given size, if it is on the board
/// in that direction.
pub open spec fn next_on_board(p: Position, d: Direction, width: int, height: int) -> Option<Position> {
    match d {
        Direction::Up => if p.y < height - 1 {
            Some(Position { x: p.x, y: (p.y + 1) as i32 })
        } else {
            None
        },
        Direction::Down => if p.y > 0 {
            Some(Position { x: p.x, y: (p.y - 1) as i32 })
        } else {
            None
        },
        Direction::Left => if p.x > 0 {
            Some(Position { x: (p.x - 1) as i32, y: p.y })
        } else {
            None
        },
        Direction::Right => if p.x < width - 1 {
            Some(Position { x: (p.x + 1) as i32, y: p.y })
        } else {
            None
        },
    }
}

/// Whether some element on the position matches the filter.
pub open spec fn position_matches(m: Map<Position, Vec<Element>>, p: Position, filter: Seq<ElementKind>) -> bool {
    exists|i: int| 0 <= i < elements_at(m, p).len() && matches_filter(filter, #[trigger] elements_at(m, p)[i])
}

/// Whether `q` is the only position with an element that matches the filter.
pub open spec fn only_match(m: Map<Position, Vec<Element>>, filter: Seq<ElementKind>, q: Position) -> bool {
    forall|p: Position| #[trigger] position_matches(m, p, filter) <==> p == q
}

/// Whether an element belongs to a tunnel.
pub open spec fn is_tunnel_part(e: Element) -> bool {
    kind_of(e) == ElementKind::Tunnel || kind_of(e) == ElementKind::TunnelEntrance || kind_of(e)
        == ElementKind::TunnelHallway
}

/// The neighbour of `p` in direction `d`, as a sequence of at most one element.
pub open spec fn neighbour_on_board(m: Map<Position, Vec<Element>>, p: Position, d: Direction, width: int, height: int) -> Seq<
    (Position, Seq<Element>, Direction),
> {
    match next_on_board(p, d, width, height) {
        Some(q) => seq![(q, elements_at(m, q), d)],
        None => seq![],
    }
}

/// The neighbours of `p` on the board, in the order up, down, left, right.
pub open spec fn neighbours_on_board(m: Map<Position, Vec<Element>>, p: Position, width: int, height: int) -> Seq<
    (Position, Seq<Element>, Direction),
> {
    neighbour_on_board(m, p, Direction::Up, width, height) + neighbour_on_board(m, p, Direction::Down, width, height)
        + neighbour_on_board(m, p, Direction::Left, width, height) + neighbour_on_board(
        m,
        p,
        Direction::Right,
        width,
        height,
    )
}

/// What a neighbour is, as the specification sees it.
pub open spec fn neighbour_view(n: Neighbour) -> (Position, Seq<Element>, Direction) {
    (n.position, n.elements@, n.direction)
}

/// Return a copy of the elements.
fn copy_elements(v: &Vec<Element>) -> (r: Vec<Element>)
    ensures
        r@ == v@,
{
    let mut r: Vec<Element> = Vec::new();
    let mut i: usize = 0;
    while i < v.len()
        invariant
            0 <= i <= v@.len(),
            r@ == v@.take(i as int),
        decreases v@.len() - i,
    {
        r.push(v[i]);
        assert(r@ == v@.take(i + 1));
        i = i + 1;
    }
    assert(v@.take(v@.len() as int) == v@);
    r
}

/// Knows what lies on every field of the maze, and the dimension of the maze.
#[derive(Clone, Debug)]
pub struct Board {
    pub elements_map: PositionMap<Vec<Element>>,
    pub width: usize,
    pub height: usize,
}

impl Board {
    /// Whether positions next to the board's fields fit the coordinate type.
    pub open spec fn fits(&self) -> bool {
        self.width <= i32::MAX && self.height <= i32::MAX
    }

    /// Create the board of the given fields; a later field replaces an earlier one on the same
    /// position.
    pub fn new(fields: &Vec<Field>) -> (r: Self)
        ensures
            forall|p: Position|
                #[trigger] r.elements_map@.contains_key(p) <==> exists|i: int|
                    0 <= i < fields@.len() && fields@[i].position == p,
            forall|i: int|
                0 <= i < fields@.len() && (forall|j: int| i < j < fields@.len() ==> fields@[j].position
                    != fields@[i].position) ==> #[trigger] r.elements_map@[fields@[i].position]@ == fields@[i].elements@,
            r.width == columns_of(r.elements_map@).len(),
            r.height == rows_of(r.elements_map@).len(),
    {
        let mut elements_map: PositionMap<Vec<Element>> = PositionMap::new();
        let mut i: usize = 0;
        while i < fields.len()
            invariant
                0 <= i <= fields@.len(),
                forall|p: Position|
                    #[trigger] elements_map@.contains_key(p) <==> exists|k: int| 0 <= k < i && fields@[k].position == p,
                forall|k: int|
                    0 <= k < i && (forall|j: int| k < j < i ==> fields@[j].position != fields@[k].position)
                        ==> #[trigger] elements_map@[fields@[k].position]@ == fields@[k].elements@,
            decreases fields@.len() - i,
        {
            let elements = copy_elements(&fields[i].elements);
            let ghost before = elements_map@;
            elements_map.insert(fields[i].position, elements);
            proof {
                assert forall|p: Position| #[trigger] elements_map@.contains_key(p) <==> exists|k: int|
                    0 <= k < i + 1 && fields@[k].position == p by {
                    if p == fields@[i as int].position {
                        assert(fields@[i as int].position == p);
                    } else if before.contains_key(p) {
                        let k = choose|k: int| 0 <= k < i && fields@[k].position == p;
                        assert(0 <= k < i + 1 && fields@[k].position == p);
                    }
                }
                assert forall|k: int|
                    0 <= k < i + 1 && (forall|j: int| k < j < i + 1 ==> fields@[j].position != fields@[k].position)
                        implies #[trigger] elements_map@[fields@[k].position]@ == fields@[k].elements@ by {
                    if k < i {
                        assert(fields@[i as int].position != fields@[k].position);
                        assert(forall|j: int| k < j < i ==> fields@[j].position != fields@[k].position);
                    }
                }
            }
            i = i + 1;
        }
        let width = count_columns(&elements_map);
        let height = count_rows(&elements_map);
        Board { elements_map, width, height }
    }

    /// Return the position next to the given one in the direction, if it is on the board.
    pub fn position_in_direction(&self, position: &Position, direction: &Direction) -> (r: Option<Position>)
        requires
            self.fits(),
            *direction == Direction::Up ==> self.height > 0,
            *direction == Direction::Right ==> self.width > 0,
        ensures
            r == next_on_board(*position, *direction, self.width as int, self.height as int),
    {
        match direction {
            Direction::Up => self.position_up_of(position),
            Direction::Down => self.position_down_of(position),
            Direction::Left => self.position_left_of(position),
            Direction::Right => self.position_right_of(position),
        }
    }

    fn position_up_of(&self, position: &Position) -> (r: Option<Position>)
        requires
            self.fits(),
            self.height > 0,
        ensures
            r == next_on_board(*position, Direction::Up, self.width as int, self.height as int),
    {
        let last_row = self.height as i64 - 1;
        if (position.y as i64) < last_row {
            Some(Position::new(position.x, position.y + 1))
        } else {
            None
        }
    }

    fn position_down_of(&self, position: &Position) -> (r: Option<Position>)
        ensures
            r == next_on_board(*position, Direction::Down, self.width as int, self.height as int),
    {
        if position.y > 0 {
            Some(Position::new(position.x, position.y - 1))
        } else {
            None
        }
    }

    fn position_left_of(&self, position: &Position) -> (r: Option<Position>)
        ensures
            r == next_on_board(*position, Direction::Left, self.width as int, self.height as int),
    {
        if position.x > 0 {
            Some(Position::new(position.x - 1, position.y))
        } else {
            None
        }
    }

    fn position_right_of(&self, position: &Position) -> (r: Option<Position>)
        requires
            self.fits(),
            self.width > 0,
        ensures
            r == next_on_board(*position, Direction::Right, self.width as int, self.height as int),
    {
        let last_column = self.width as i64 - 1;
        if (position.x as i64) < last_column {
            Some(Position::new(position.x + 1, position.y))
        } else {
            None
        }
    }

    /// Return the elements on the given position; none where the board has no field.
    pub fn elements_on_position(&self, position: &Position) -> (r: Vec<Element>)
        ensures
            r@ == elements_at(self.elements_map@, *position),
    {
        match self.elements_map.get(position) {
            Some(elements) => copy_elements(elements),
            None => Vec::new(),
        }
    }

    /// Return whether some element on the position matches the filter.
    pub fn position_matches_filter(&self, position: &Position, filter: &ElementFilter) -> (r: bool)
        ensures
            r == position_matches(self.elements_map@, *position, filter.kinds@),
    {
        let elements = self.elements_on_position(position);
        Self::elements_match_filter(&elements, filter)
    }

    fn elements_match_filter(elements: &Vec<Element>, filter: &ElementFilter) -> (r: bool)
        ensures
            r == exists|i: int| 0 <= i < elements@.len() && matches_filter(filter.kinds@, #[trigger] elements@[i]),
    {
        let mut i: usize = 0;
        while i < elements.len()
            invariant
                0 <= i <= elements@.len(),
                forall|j: int| 0 <= j < i ==> !matches_filter(filter.kinds@, #[trigger] elements@[j]),
            decreases elements@.len() - i,
        {
            if filter.accepts(&elements[i]) {
                return true;
            }
            i = i + 1;
        }
        false
    }

    /// Return the first element on the position that matches the filter, if there is one.
    pub fn element_on_position_matching(&self, position: &Position, filter: &ElementFilter) -> (r: Option<Element>)
        ensures
            r is None <==> !position_matches(self.elements_map@, *position, filter.kinds@),
            r is Some ==> exists|i: int|
                {
                    &&& 0 <= i < elements_at(self.elements_map@, *position).len()
                    &&& r->0 == elements_at(self.elements_map@, *position)[i]
                    &&& matches_filter(filter.kinds@, r->0)
                    &&& forall|j: int|
                        0 <= j < i ==> !matches_filter(filter.kinds@, #[trigger] elements_at(self.elements_map@, *position)[j])
                },
    {
        let elements = self.elements_on_position(position);
        let mut i: usize = 0;
        while i < elements.len()
            invariant
                0 <= i <= elements@.len(),
                elements@ == elements_at(self.elements_map@, *position),
                forall|j: int| 0 <= j < i ==> !matches_filter(filter.kinds@, #[trigger] elements@[j]),
            decreases elements@.len() - i,
        {
            if filter.accepts(&elements[i]) {
                return Some(elements[i]);
            }
            i = i + 1;
        }
        None
    }

    /// Return every position with an element that matches the filter, each once.
    pub fn get_positions_matching(&self, filter: &ElementFilter) -> (r: Vec<Position>)
        ensures
            distinct(r@),
            forall|p: Position| r@.contains(p) <==> position_matches(self.elements_map@, p, filter.kinds@),
    {
        let entries = &self.elements_map.entries;
        let ghost m = self.elements_map@;
        let mut result: Vec<Position> = Vec::new();
        let mut i: usize = 0;
        while i < entries.len()
            invariant
                0 <= i <= entries@.len(),
                entries == &self.elements_map.entries,
                m == self.elements_map@,
                distinct(result@),
                forall|k: int| 0 <= k < result@.len() ==> position_matches(m, #[trigger] result@[k], filter.kinds@),
                forall|j: int|
                    0 <= j < i && position_matches(m, (#[trigger] entries@[j]).0, filter.kinds@) ==> result@.contains(
                        entries@[j].0,
                    ),
            decreases entries@.len() - i,
        {
            let p = entries[i].0;
            let ghost before = result@;
            if self.position_matches_filter(&p, filter) && !crate::map::tile_map::contains_position(&result, &p) {
                result.push(p);
                proof {
                    assert(result@.last() == p);
                }
            }
            proof {
                assert forall|j: int|
                    0 <= j < i + 1 && position_matches(m, (#[trigger] entries@[j]).0, filter.kinds@) implies result@.contains(
                    entries@[j].0,
                ) by {
                    if j < i {
                        let k = choose|k: int| 0 <= k < before.len() && before[k] == entries@[j].0;
                        assert(result@[k] == before[k]);
                    }
                }
            }
            i = i + 1;
        }
        proof {
            assert forall|p: Position| position_matches(m, p, filter.kinds@) implies result@.contains(p) by {
                let w = choose|w: int| 0 <= w < elements_at(m, p).len() && matches_filter(filter.kinds@, #[trigger] elements_at(m, p)[w]);
                assert(m.contains_key(p));
                let j = lemma_entries_map_key_entry(entries@, p);
            }
            assert forall|p: Position| result@.contains(p) implies position_matches(m, p, filter.kinds@) by {
                let k = choose|k: int| 0 <= k < result@.len() && result@[k] == p;
            }
        }
        result
    }

    /// Return the one position with an element that matches the filter; there has to be exactly
    /// one.
    pub fn get_position_matching(&self, filter: &ElementFilter) -> (r: Position)
        requires
            exists|q: Position| #[trigger] only_match(self.elements_map@, filter.kinds@, q),
        ensures
            position_matches(self.elements_map@, r, filter.kinds@),
    {
        let positions = self.get_positions_matching(filter);
        if positions.len() == 1 {
            assert(positions@.contains(positions@[0]));
            positions[0]
        } else {
            proof {
                let q = choose|q: Position| #[trigger] only_match(self.elements_map@, filter.kinds@, q);
                assert(position_matches(self.elements_map@, q, filter.kinds@));
                assert(positions@.contains(q));
                if positions@.len() > 1 {
                    assert(positions@.contains(positions@[0]));
                    assert(positions@.contains(positions@[1]));
                    assert(positions@[0] == q && positions@[1] == q);
                }
            }
            vstd::pervasive::unreached()
        }
    }

    /// Return the neighbours of a position that are on the board, in the order up, down, left,
    /// right.
    pub fn neighbours_of(&self, position: &Position) -> (r: Vec<Neighbour>)
        requires
            self.fits(),
            self.width > 0,
            self.height > 0,
        ensures
            r@.map_values(|n: Neighbour| neighbour_view(n)) == neighbours_on_board(
                self.elements_map@,
                *position,
                self.width as int,
                self.height as int,
            ),
    {
        let mut result: Vec<Neighbour> = Vec::new();
        self.push_neighbour(position, Direction::Up, &mut result);
        self.push_neighbour(position, Direction::Down, &mut result);
        self.push_neighbour(position, Direction::Left, &mut result);
        self.push_neighbour(position, Direction::Right, &mut result);
        result
    }

    fn push_neighbour(&self, position: &Position, direction: Direction, result: &mut Vec<Neighbour>)
        requires
            self.fits(),
            self.width > 0,
            self.height > 0,
        ensures
            final(result)@.map_values(|n: Neighbour| neighbour_view(n)) == old(result)@.map_values(
                |n: Neighbour| neighbour_view(n),
            ) + neighbour_on_board(self.elements_map@, *position, direction, self.width as int, self.height as int),
    {
        let ghost before = old(result)@;
        match self.position_in_direction(position, &direction) {
            Some(pos) => {
                let elements = self.elements_on_position(&pos);
                result.push(Neighbour { position: pos, elements, direction });
            },
            None => {},
        }
        assert(result@.map_values(|n: Neighbour| neighbour_view(n)) == before.map_values(|n: Neighbour| neighbour_view(n))
            + neighbour_on_board(self.elements_map@, *position, direction, self.width as int, self.height as int));
    }

    /// Return the neighbour behind an entity moving in the given direction.
    pub fn neighbour_behind(&self, position: &Position, direction: &Direction) -> (r: Neighbour)
        requires
            self.fits(),
            self.width > 0,
            self.height > 0,
            next_on_board(*position, opposite_of(*direction), self.width as int, self.height as int) is Some,
        ensures
            r.position == next_on_board(*position, opposite_of(*direction), self.width as int, self.height as int)->0,
            r.elements@ == elements_at(self.elements_map@, r.position),
            r.direction == opposite_of(*direction),
    {
        let behind = direction.opposite();
        let position = match self.position_in_direction(position, &behind) {
            Some(p) => p,
            None => vstd::pervasive::unreached(),
        };
        let elements = self.elements_on_position(&position);
        Neighbour { position, elements, direction: behind }
    }

    /// Return whether the position lies in a tunnel: there are elements on it, and all of them
    /// belong to a tunnel.
    pub fn position_is_tunnel(&self, position: &Position) -> (r: bool)
        ensures
            r == (elements_at(self.elements_map@, *position).len() > 0 && forall|i: int|
                0 <= i < elements_at(self.elements_map@, *position).len() ==> is_tunnel_part(
                    #[trigger] elements_at(self.elements_map@, *position)[i],
                )),
    {
        let elements = self.elements_on_position(position);
        if elements.len() == 0 {
            return false;
        }
        let mut i: usize = 0;
        while i < elements.len()
            invariant
                0 <= i <= elements@.len(),
                elements@ == elements_at(self.elements_map@, *position),
                forall|j: int| 0 <= j < i ==> is_tunnel_part(#[trigger] elements@[j]),
            decreases elements@.len() - i,
        {
            let is_tunnel = match elements[i] {
                Element::Tunnel { .. } | Element::TunnelEntrance | Element::TunnelHallway => true,
                _ => false,
            };
            if !is_tunnel {
                return false;
            }
            i = i + 1;
        }
        true
    }
}

} // verus!

use vstd::prelude::*;

use crate::common::{Direction, Position};
use crate::ghosts::GhostKind;
use crate::position_map::{
    columns_of, count_columns, count_rows, distinct, lemma_entries_map_has_entry, lemma_entries_map_key_entry, rows_of,
    PositionMap,
};

verus! {

/// Whether a wall belongs to the outer border of the labyrinth or to its inside.
#[derive(Copy, Clone, Debug, PartialEq, Eq, Hash, Structural)]
pub enum WallType {
    Outer,
    Inner,
}

/// How far a tile is turned, counter clockwise.
#[derive(Copy, Clone, Debug, PartialEq, Eq, Structural)]
pub enum Rotation {
    D0,
    D90,
    D180,
    D270,
}

/// What a field of the tile map holds.
#[derive(Copy, Clone, Debug, PartialEq, Eq, Structural)]
pub enum Element {
    Wall { wall_type: WallType, rotation: Rotation, is_corner: bool },
    GhostHouseEntrance { rotation: Rotation },
    GhostHouse { rotation: Rotation },
    PacManSpawn,
    DotSpawn,
    EnergizerSpawn,
    FruitSpawn,
    Tunnel { index: usize, opening_direction: Direction },
    TunnelHallway,
}

/// A group of elements that a search over the tile map looks for.
#[derive(Copy, Clone, Debug, PartialEq, Eq, Structural)]
pub enum ElementFilter {
    Walls,
    GhostHouseEntrances,
    GhostHouses,
    Tunnels,
    PacManSpawns,
    DotSpawns,
    EnergizerSpawns,
    FruitSpawns,
}

/// Whether the element belongs to the group the filter looks for.
pub open spec fn filter_matches(filter: ElementFilter, e: Element) -> bool {
    match filter {
        ElementFilter::Walls => e is Wall,
        ElementFilter::GhostHouseEntrances => e is GhostHouseEntrance,
        ElementFilter::GhostHouses => e is GhostHouse,
        ElementFilter::Tunnels => e is Tunnel || e is TunnelHallway,
        ElementFilter::PacManSpawns => e is PacManSpawn,
        ElementFilter::DotSpawns => e is DotSpawn,
        ElementFilter::EnergizerSpawns => e is EnergizerSpawn,
        ElementFilter::FruitSpawns => e is FruitSpawn,
    }
}

impl ElementFilter {
    /// Return whether the element belongs to the group this filter looks for.
    pub fn matches(&self, e: &Element) -> (r: bool)
        ensures
            r == filter_matches(*self, *e),
    {
        match self {
            ElementFilter::Walls => matches!(e, Element::Wall { .. }),
            ElementFilter::GhostHouseEntrances => matches!(e, Element::GhostHouseEntrance { .. }),
            ElementFilter::GhostHouses => matches!(e, Element::GhostHouse { .. }),
            ElementFilter::Tunnels => matches!(e, Element::Tunnel { .. } | Element::TunnelHallway),
            ElementFilter::PacManSpawns => matches!(e, Element::PacManSpawn),
            ElementFilter::DotSpawns => matches!(e, Element::DotSpawn),
            ElementFilter::EnergizerSpawns => matches!(e, Element::EnergizerSpawn),
            ElementFilter::FruitSpawns => matches!(e, Element::FruitSpawn),
        }
    }
}

/// One field of a map file: a position and the element on it.
#[derive(Copy, Clone, Debug, PartialEq, Eq, Structural)]
pub struct Field {
    pub position: Position,
    pub element: Element,
}

/// The content of a map file.
#[derive(Clone, Debug, PartialEq, Eq)]
pub struct RawMap {
    pub blinky_corner: Position,
    pub pinky_corner: Position,
    pub inky_corner: Position,
    pub clyde_corner: Position,
    pub fields: Vec<Field>,
}

/// The map that results from placing the fields in order, a later field replacing an earlier one
/// on the same position.
pub open spec fn fields_map(fields: Seq<Field>) -> Map<Position, Element>
    decreases fields.len(),
{
    if fields.len() == 0 {
        Map::empty()
    } else {
        fields_map(fields.drop_last()).insert(fields.last().position, fields.last().element)
    }
}

/// Knows the spawn locations of every entity, based on a map file.
#[derive(Clone, Debug)]
pub struct TileMap {
    pub blinky_corner: Position,
    pub pinky_corner: Position,
    pub inky_corner: Position,
    pub clyde_corner: Position,
    pub elements_map: PositionMap<Element>,
}

impl TileMap {
    pub fn new(raw_map: &RawMap) -> (r: Self)
        ensures
            r.blinky_corner == raw_map.blinky_corner,
            r.pinky_corner == raw_map.pinky_corner,
            r.inky_corner == raw_map.inky_corner,
            r.clyde_corner == raw_map.clyde_corner,
            r.elements_map@ == fields_map(raw_map.fields@),
    {
        let mut elements_map: PositionMap<Element> = PositionMap::new();
        let mut i: usize = 0;
        while i < raw_map.fields.len()
            invariant
                0 <= i <= raw_map.fields@.len(),
                elements_map@ == fields_map(raw_map.fields@.take(i as int)),
            decreases raw_map.fields@.len() - i,
        {
            let field = raw_map.fields[i];
            elements_map.insert(field.position, field.element);
            proof {
                assert(raw_map.fields@.take(i + 1).drop_last() == raw_map.fields@.take(i as int));
            }
            i = i + 1;
        }
        assert(raw_map.fields@.take(raw_map.fields@.len() as int) == raw_map.fields@);
        TileMap {
            blinky_corner: raw_map.blinky_corner,
            pinky_corner: raw_map.pinky_corner,
            inky_corner: raw_map.inky_corner,
            clyde_corner: raw_map.clyde_corner,
            elements_map,
        }
    }

    /// Return the corner the given ghost heads for when scattering.
    pub fn corner_of(&self, ghost: GhostKind) -> (r: Position)
        ensures
            r == (match ghost {
                GhostKind::Blinky => self.blinky_corner,
                GhostKind::Pinky => self.pinky_corner,
                GhostKind::Inky => self.inky_corner,
                GhostKind::Clyde => self.clyde_corner,
            }),
    {
        match ghost {
            GhostKind::Blinky => self.blinky_corner,
            GhostKind::Pinky => self.pinky_corner,
            GhostKind::Inky => self.inky_corner,
            GhostKind::Clyde => self.clyde_corner,
        }
    }

    /// Return the number of distinct columns of the map.
    pub fn get_width(&self) -> (r: usize)
        ensures
            r == columns_of(self.elements_map@).len(),
    {
        count_columns(&self.elements_map)
    }

    /// Return the number of distinct rows of the map.
    pub fn get_height(&self) -> (r: usize)
        ensures
            r == rows_of(self.elements_map@).len(),
    {
        count_rows(&self.elements_map)
    }

    /// Return every position whose element the filter looks for, each once.
    pub fn get_positions_matching(&self, filter: ElementFilter) -> (r: Vec<Position>)
        ensures
            distinct(r@),
            forall|p: Position|
                r@.contains(p) <==> (self.elements_map@.contains_key(p) && filter_matches(filter, self.elements_map@[p])),
    {
        let entries = &self.elements_map.entries;
        let ghost m = self.elements_map@;
        let mut result: Vec<Position> = Vec::new();
        let mut i: usize = 0;
        while i < entries.len()
            invariant
                0 <= i <= entries@.len(),
                entries == &self.elements_map.entries,
                m == self.elements_map@,
                distinct(result@),
                forall|k: int|
                    0 <= k < result@.len() ==> m.contains_key(#[trigger] result@[k]) && filter_matches(
                        filter,
                        m[result@[k]],
                    ),
                forall|j: int|
                    0 <= j < i && filter_matches(filter, m[(#[trigger] entries@[j]).0]) ==> result@.contains(
                        entries@[j].0,
                    ),
            decreases entries@.len() - i,
        {
            let p = entries[i].0;
            proof {
                lemma_entries_map_has_entry(entries@, i as int);
            }
            let element = match self.elements_map.get(&p) {
                Some(e) => *e,
                None => vstd::pervasive::unreached(),
            };
            let ghost before = result@;
            if filter.matches(&element) && !contains_position(&result, &p) {
                result.push(p);
                proof {
                    assert(result@.last() == p);
                }
            }
            proof {
                assert forall|j: int|
                    0 <= j < i + 1 && filter_matches(filter, m[(#[trigger] entries@[j]).0]) implies result@.contains(
                    entries@[j].0,
                ) by {
                    if j < i {
                        let k = choose|k: int| 0 <= k < before.len() && before[k] == entries@[j].0;
                        assert(result@[k] == before[k]);
                    }
                }
            }
            i = i + 1;
        }
        proof {
            assert forall|p: Position| (m.contains_key(p) && filter_matches(filter, m[p])) implies result@.contains(p) by {
                let j = lemma_entries_map_key_entry(entries@, p);
            }
            assert forall|p: Position| result@.contains(p) implies (m.contains_key(p) && filter_matches(filter, m[p])) by {
                let k = choose|k: int| 0 <= k < result@.len() && result@[k] == p;
            }
        }
        result
    }

    /// Return every position together with its element, each position once.
    pub fn position_element_iter(&self) -> (r: Vec<(Position, Element)>)
        ensures
            distinct(r@),
            forall|p: Position, e: Element|
                r@.contains((p, e)) <==> (self.elements_map@.contains_key(p) && self.elements_map@[p] == e),
    {
        let entries = &self.elements_map.entries;
        let ghost m = self.elements_map@;
        let mut result: Vec<(Position, Element)> = Vec::new();
        let mut i: usize = 0;
        while i < entries.len()
            invariant
                0 <= i <= entries@.len(),
                entries == &self.elements_map.entries,
                m == self.elements_map@,
                distinct(result@),
                forall|k: int|
                    0 <= k < result@.len() ==> m.contains_key((#[trigger] result@[k]).0) && m[result@[k].0]
                        == result@[k].1,
                forall|j: int| 0 <= j < i ==> result@.contains((entries@[j].0, m[(#[trigger] entries@[j]).0])),
            decreases entries@.len() - i,
        {
            let p = entries[i].0;
            proof {
                lemma_entries_map_has_entry(entries@, i as int);
            }
            let element = match self.elements_map.get(&p) {
                Some(e) => *e,
                None => vstd::pervasive::unreached(),
            };
            let ghost before = result@;
            if !contains_position_of(&result, &p) {
                result.push((p, element));
                proof {
                    assert(result@.last() == (p, element));
                    assert forall|a: int, b: int| 0 <= a < b < result@.len() implies result@[a] != result@[b] by {
                        if b == result@.len() - 1 {
                            assert(result@[a].0 != p);
                        }
                    }
                }
            } else {
                proof {
                    let k = choose|k: int| 0 <= k < result@.len() && (#[trigger] result@[k]).0 == p;
                    assert(result@[k] == (p, element));
                }
            }
            proof {
                assert forall|j: int| 0 <= j < i + 1 implies result@.contains(
                    (entries@[j].0, m[(#[trigger] entries@[j]).0]),
                ) by {
                    if j < i {
                        let k = choose|k: int| 0 <= k < before.len() && before[k] == (entries@[j].0, m[entries@[j].0]);
                        assert(result@[k] == before[k]);
                    }
                }
            }
            i = i + 1;
        }
        proof {
            assert forall|p: Position, e: Element| (m.contains_key(p) && m[p] == e) implies result@.contains((p, e)) by {
                let j = lemma_entries_map_key_entry(entries@, p);
            }
            assert forall|p: Position, e: Element| result@.contains((p, e)) implies (m.contains_key(p) && m[p] == e) by {
                let k = choose|k: int| 0 <= k < result@.len() && result@[k] == (p, e);
            }
        }
        result
    }
}

/// Return whether the vector holds the position.
pub fn contains_position(v: &Vec<Position>, p: &Position) -> (r: bool)
    ensures
        r == v@.contains(*p),
{
    let mut i: usize = 0;
    while i < v.len()
        invariant
            0 <= i <= v@.len(),
            forall|j: int| 0 <= j < i ==> v@[j] != *p,
        decreases v@.len() - i,
    {
        if v[i] == *p {
            return true;
        }
        i = i + 1;
    }
    false
}

/// Return whether the vector holds an entry for the position.
fn contains_position_of(v: &Vec<(Position, Element)>, p: &Position) -> (r: bool)
    ensures
        r == exists|k: int| 0 <= k < v@.len() && (#[trigger] v@[k]).0 == *p,
{
    let mut i: usize = 0;
    while i < v.len()
        invariant
            0 <= i <= v@.len(),
            forall|j: int| 0 <= j < i ==> (#[trigger] v@[j]).0 != *p,
        decreases v@.len() - i,
    {
        if v[i].0 == *p {
            return true;
        }
        i = i + 1;
    }
    false
}

} // verus!

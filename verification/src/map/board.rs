use vstd::prelude::*;

use crate::common::Position;
use crate::map::tile_map::{contains_position, filter_matches, ElementFilter, TileMap};
use crate::position_map::{columns_of, rows_of};

verus! {

/// The positions of the map whose element the filter looks for.
pub open spec fn matching_positions(m: Map<Position, crate::map::tile_map::Element>, filter: ElementFilter) -> Set<Position> {
    Set::new(|p: Position| m.contains_key(p) && filter_matches(filter, m[p]))
}

/// Knows where the board elements are that never change position, and the dimension of the
/// board. It answers collision ("am I hitting a wall?") and area ("am I in a tunnel?") checks.
#[derive(Clone, Debug)]
pub struct Board {
    pub wall_positions: Vec<Position>,
    pub ghost_house_entrance_positions: Vec<Position>,
    pub tunnel_positions: Vec<Position>,
    pub width: usize,
    pub height: usize,
}

impl Board {
    /// The positions of walls.
    pub open spec fn walls(&self) -> Set<Position> {
        self.wall_positions@.to_set()
    }

    /// The positions of ghost house entrances.
    pub open spec fn entrances(&self) -> Set<Position> {
        self.ghost_house_entrance_positions@.to_set()
    }

    /// The positions of tunnels and tunnel hallways.
    pub open spec fn tunnels(&self) -> Set<Position> {
        self.tunnel_positions@.to_set()
    }

    pub fn new(map: &TileMap) -> (r: Self)
        ensures
            r.width == columns_of(map.elements_map@).len(),
            r.height == rows_of(map.elements_map@).len(),
            r.walls() == matching_positions(map.elements_map@, ElementFilter::Walls),
            r.entrances() == matching_positions(map.elements_map@, ElementFilter::GhostHouseEntrances),
            r.tunnels() == matching_positions(map.elements_map@, ElementFilter::Tunnels),
    {
        let width = map.get_width();
        let height = map.get_height();
        let wall_positions = map.get_positions_matching(ElementFilter::Walls);
        let ghost_house_entrance_positions = map.get_positions_matching(ElementFilter::GhostHouseEntrances);
        let tunnel_positions = map.get_positions_matching(ElementFilter::Tunnels);
        let r = Board { wall_positions, ghost_house_entrance_positions, tunnel_positions, width, height };
        assert(r.walls() == matching_positions(map.elements_map@, ElementFilter::Walls));
        assert(r.entrances() == matching_positions(map.elements_map@, ElementFilter::GhostHouseEntrances));
        assert(r.tunnels() == matching_positions(map.elements_map@, ElementFilter::Tunnels));
        r
    }

    pub fn position_is_wall(&self, pos: &Position) -> (r: bool)
        ensures
            r == self.walls().contains(*pos),
    {
        contains_position(&self.wall_positions, pos)
    }

    pub fn position_is_ghost_house_entrance(&self, pos: &Position) -> (r: bool)
        ensures
            r == self.entrances().contains(*pos),
    {
        contains_position(&self.ghost_house_entrance_positions, pos)
    }

    /// Return whether a position is a wall or a ghost house entrance.
    pub fn position_is_wall_or_entrance(&self, pos: &Position) -> (r: bool)
        ensures
            r == (self.walls().contains(*pos) || self.entrances().contains(*pos)),
    {
        self.position_is_wall(pos) || self.position_is_ghost_house_entrance(pos)
    }

    pub fn position_is_tunnel(&self, pos: &Position) -> (r: bool)
        ensures
            r == self.tunnels().contains(*pos),
    {
        contains_position(&self.tunnel_positions, pos)
    }
}

} // verus!

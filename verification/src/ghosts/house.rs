use vstd::prelude::*;

use crate::common::{all_neighbours, has_all_neighbours, is_first_nearest, neighbour_at, opposite_of, sq_distance, Direction, Neighbour, Position};
use crate::ghosts::target::{first_nearest_step, is_first_nearest_step, lemma_first_nearest_step_exists};
use crate::map::board::Board;

verus! {

/// Where a ghost inside the ghost house heads for next.
#[derive(Copy, Clone, Debug, PartialEq, Eq, Structural)]
pub enum HouseTarget {
    /// The place in front of the house entrance.
    InFrontOfEntrance,
    /// The center of the house.
    Center,
    /// The place where the ghost respawns.
    Respawn,
    /// A neighbouring field, on the way to the house.
    Field(Position),
}

/// Where a spawned ghost stands in the house, as far as the house logic looks at it. These are
/// equalities and comparisons of screen coordinates, measured outside.
#[derive(Copy, Clone, Debug, PartialEq, Eq, Structural)]
pub struct SpawnedSpot {
    /// Exactly at the center of the house.
    pub in_center: bool,
    /// Exactly at the coordinates where the ghost respawns.
    pub at_respawn: bool,
    /// Whether the ghost's respawn has a smaller x coordinate than the center of the house.
    pub respawn_left_of_center: bool,
}

/// What a spawned ghost does: from the center of the house it walks up to the place in front of
/// the entrance; from its respawn it walks sideways to the center; anywhere else it keeps its
/// target and direction.
pub open spec fn spawned_step(spot: SpawnedSpot) -> Option<(HouseTarget, Direction)> {
    if spot.in_center {
        Some((HouseTarget::InFrontOfEntrance, Direction::Up))
    } else if spot.at_respawn {
        Some((HouseTarget::Center, if spot.respawn_left_of_center { Direction::Right } else { Direction::Left }))
    } else {
        None
    }
}

/// Return where a spawned ghost heads for next and in which direction it walks; `None` leaves
/// its target and direction as they are.
pub fn set_spawned_target(spot: SpawnedSpot) -> (r: Option<(HouseTarget, Direction)>)
    ensures
        r == spawned_step(spot),
{
    if spot.in_center {
        Some((HouseTarget::InFrontOfEntrance, Direction::Up))
    } else if spot.at_respawn {
        let d = if spot.respawn_left_of_center {
            Direction::Right
        } else {
            Direction::Left
        };
        Some((HouseTarget::Center, d))
    } else {
        None
    }
}

/// Where an eaten ghost stands, as far as the house logic looks at it. These are equalities and
/// comparisons of screen coordinates, measured outside.
#[derive(Copy, Clone, Debug, PartialEq, Eq, Structural)]
pub struct EatenSpot {
    /// Exactly at the coordinates where the ghost respawns.
    pub at_respawn: bool,
    /// Exactly at the coordinates in front of the house entrance.
    pub in_front_of_house: bool,
    /// Exactly at the center of the house.
    pub in_center: bool,
    /// Whether the x coordinate of the ghost's field is smaller than that of the place in front
    /// of the house.
    pub left_of_front: bool,
    /// Whether the ghost's respawn has a smaller x coordinate than the center of the house.
    pub respawn_left_of_center: bool,
}

/// The rule that picks the neighbours an eaten ghost walking in `direction` may step onto: not
/// the one behind it and no wall. House entrances are open to it.
pub open spec fn walkable_rule(board: Board, direction: Direction) -> spec_fn(Neighbour) -> bool {
    |n: Neighbour| n.direction != opposite_of(direction) && !board.walls().contains(n.position)
}

/// The neighbours of `p` an eaten ghost walking in `direction` may step onto, in the order up,
/// down, left, right.
pub open spec fn walkable_neighbours(board: Board, p: Position, direction: Direction) -> Seq<Neighbour> {
    all_neighbours(p).filter(walkable_rule(board, direction))
}

/// The neighbour an eaten ghost steps onto to get closer to `target`: the first walkable
/// neighbour closest to it, or the one behind it when none is walkable.
pub open spec fn nearest_walkable_step_to(board: Board, p: Position, direction: Direction, target: Position) -> Neighbour {
    let s = walkable_neighbours(board, p, direction);
    if s.len() == 0 {
        neighbour_at(p, opposite_of(direction))
    } else {
        s[choose|i: int| is_first_nearest_step(s, target, i)]
    }
}

/// The first of the positions closest to `p`.
pub open spec fn nearest_of(positions: Seq<Position>, p: Position) -> Position {
    positions[choose|i: int| is_first_nearest(positions, p, i)]
}

/// What an eaten ghost does on its way home: at its respawn it has arrived and gets no target;
/// in front of the house it enters to the center; on a field in front of the entrance it walks
/// to the place in front of the house; from the center it goes on to its respawn; anywhere else
/// it walks towards the field in front of the entrance nearest to it.
pub open spec fn eaten_step(
    board: Board,
    position: Position,
    direction: Direction,
    spot: EatenSpot,
    in_front: Seq<Position>,
) -> Option<(HouseTarget, Direction)> {
    if spot.at_respawn {
        None
    } else if spot.in_front_of_house {
        Some((HouseTarget::Center, Direction::Down))
    } else if in_front.contains(position) {
        Some((HouseTarget::InFrontOfEntrance, if spot.left_of_front { Direction::Left } else { Direction::Right }))
    } else if spot.in_center {
        Some((HouseTarget::Respawn, if spot.respawn_left_of_center { Direction::Left } else { Direction::Right }))
    } else {
        let step = nearest_walkable_step_to(board, position, direction, nearest_of(in_front, position));
        Some((HouseTarget::Field(step.position), step.direction))
    }
}

/// An eaten ghost on its way home never steps onto a wall and never turns around, as long as it
/// has another way to go; when it has none, it turns around. Entrances do not stop it.
pub proof fn lemma_walkable_step_follows_the_rules(board: Board, p: Position, direction: Direction, target: Position)
    ensures
        walkable_neighbours(board, p, direction).len() > 0 ==> {
            let n = nearest_walkable_step_to(board, p, direction, target);
            &&& n.direction != opposite_of(direction)
            &&& !board.walls().contains(n.position)
            &&& all_neighbours(p).contains(n)
        },
        walkable_neighbours(board, p, direction).len() == 0 ==> nearest_walkable_step_to(board, p, direction, target)
            == neighbour_at(p, opposite_of(direction)),
{
    let s = walkable_neighbours(board, p, direction);
    if s.len() > 0 {
        lemma_first_nearest_step_exists(s, target);
        let i = choose|i: int| is_first_nearest_step(s, target, i);
        all_neighbours(p).lemma_filter_pred(walkable_rule(board, direction), i);
        assert(s.contains(s[i]));
        all_neighbours(p).lemma_filter_contains_rev(walkable_rule(board, direction), s[i]);
    }
}

proof fn lemma_first_nearest_unique(s: Seq<Position>, p: Position, i: int, k: int)
    requires
        is_first_nearest(s, p, i),
        is_first_nearest(s, p, k),
    ensures
        i == k,
{
    if i < k {
        assert(sq_distance(p, s[k]) < sq_distance(p, s[i]));
    } else if k < i {
        assert(sq_distance(p, s[i]) < sq_distance(p, s[k]));
    }
}

/// Return the neighbours of `position` an eaten ghost walking in `direction` may step onto.
fn walkable_neighbours_of(board: &Board, position: &Position, direction: &Direction) -> (r: Vec<Neighbour>)
    requires
        has_all_neighbours(*position),
    ensures
        r@ == walkable_neighbours(*board, *position, *direction),
{
    let ghost rule = walkable_rule(*board, *direction);
    let neighbours = position.get_neighbours();
    let behind = direction.opposite();
    let mut result: Vec<Neighbour> = Vec::new();
    let mut i: usize = 0;
    while i < neighbours.len()
        invariant
            0 <= i <= neighbours@.len(),
            rule == walkable_rule(*board, *direction),
            behind == opposite_of(*direction),
            neighbours@ == all_neighbours(*position),
            result@ == neighbours@.take(i as int).filter(rule),
        decreases neighbours@.len() - i,
    {
        let n = neighbours[i];
        if n.direction != behind && !board.position_is_wall(&n.position) {
            result.push(n);
        }
        proof {
            let next = neighbours@.take(i + 1);
            assert(next.drop_last() == neighbours@.take(i as int));
            assert(next.last() == n);
            reveal(Seq::filter);
        }
        i = i + 1;
    }
    assert(neighbours@.take(neighbours@.len() as int) == neighbours@);
    result
}

/// Return whether the position is one of the given ones.
fn contains_position(positions: &Vec<Position>, position: &Position) -> (r: bool)
    ensures
        r == positions@.contains(*position),
{
    let mut i: usize = 0;
    while i < positions.len()
        invariant
            0 <= i <= positions@.len(),
            forall|j: int| 0 <= j < i ==> positions@[j] != *position,
        decreases positions@.len() - i,
    {
        if positions[i] == *position {
            assert(positions@[i as int] == *position);
            return true;
        }
        i = i + 1;
    }
    false
}

/// Return where an eaten ghost heads for next and in which direction it walks; `None` when it
/// has arrived at its respawn, which leaves its target unset and its direction as it is.
/// `in_front_positions` are the fields in front of the house entrance.
pub fn set_eaten_target(
    board: &Board,
    position: &Position,
    direction: &Direction,
    spot: EatenSpot,
    in_front_positions: &Vec<Position>,
) -> (r: Option<(HouseTarget, Direction)>)
    requires
        has_all_neighbours(*position),
        in_front_positions@.len() > 0,
    ensures
        r == eaten_step(*board, *position, *direction, spot, in_front_positions@),
{
    if spot.at_respawn {
        None
    } else if spot.in_front_of_house {
        Some((HouseTarget::Center, Direction::Down))
    } else if contains_position(in_front_positions, position) {
        let d = if spot.left_of_front {
            Direction::Left
        } else {
            Direction::Right
        };
        Some((HouseTarget::InFrontOfEntrance, d))
    } else if spot.in_center {
        let d = if spot.respawn_left_of_center {
            Direction::Left
        } else {
            Direction::Right
        };
        Some((HouseTarget::Respawn, d))
    } else {
        let nearest = position.get_nearest_position_from(in_front_positions.as_slice());
        proof {
            let i = choose|i: int| is_first_nearest(in_front_positions@, *position, i) && nearest == in_front_positions@[i];
            let c = choose|i: int| is_first_nearest(in_front_positions@, *position, i);
            lemma_first_nearest_unique(in_front_positions@, *position, i, c);
        }
        let candidates = walkable_neighbours_of(board, position, direction);
        let step = if candidates.len() == 0 {
            position.neighbour_behind(direction)
        } else {
            first_nearest_step(&candidates, &nearest)
        };
        Some((HouseTarget::Field(step.position), step.direction))
    }
}

} // verus!

use std::cmp::Ordering;

use rand::Rng;
use vstd::prelude::*;

use crate::common::{
    all_neighbours, can_step, fits, has_all_neighbours, neighbour_at, opposite_of, sq_distance, stepped, Direction,
    Neighbour, Position,
};
use crate::ghosts::target_set_strategy::minimal_distance_to_positions;
use crate::ghosts::{GhostKind, Target};
use crate::map::board::Board;

verus! {

/// Hands out random numbers.
pub struct Random;

impl Random {
    /// Return a random number in `0..n`. Calls `rand::Rng::gen_range` on `rand::thread_rng()`,
    /// which panics on an empty range and otherwise returns a number of the range; which one
    /// is left to chance, so nothing more is claimed.
    #[verifier::external_body]
    pub fn zero_to(&self, n: usize) -> (r: usize)
        requires
            n > 0,
        ensures
            r < n,
    {
        let mut rng = rand::thread_rng();
        rng.gen_range(0..n)
    }
}

/// The corner every ghost heads for when scattering.
#[derive(Copy, Clone, Debug, PartialEq, Eq, Structural)]
pub struct GhostCorners {
    pub blinky: Position,
    pub pinky: Position,
    pub inky: Position,
    pub clyde: Position,
}

/// The corner of the given ghost.
pub open spec fn corner_of(corners: GhostCorners, ghost: GhostKind) -> Position {
    match ghost {
        GhostKind::Blinky => corners.blinky,
        GhostKind::Pinky => corners.pinky,
        GhostKind::Inky => corners.inky,
        GhostKind::Clyde => corners.clyde,
    }
}

impl GhostCorners {
    pub fn get_corner(&self, ghost: &GhostKind) -> (r: Position)
        ensures
            r == corner_of(*self, *ghost),
    {
        match ghost {
            GhostKind::Blinky => self.blinky,
            GhostKind::Pinky => self.pinky,
            GhostKind::Inky => self.inky,
            GhostKind::Clyde => self.clyde,
        }
    }
}

/// The rule that picks the neighbours a ghost walking in `direction` may step onto: not the one
/// behind it, and neither a wall nor a ghost house entrance.
pub open spec fn allowed_rule(board: Board, direction: Direction) -> spec_fn(Neighbour) -> bool {
    |n: Neighbour|
        n.direction != opposite_of(direction) && !board.walls().contains(n.position) && !board.entrances().contains(
            n.position,
        )
}

/// The neighbours of `p` a ghost walking in `direction` may step onto, in the order up, down,
/// left, right.
pub open spec fn allowed_neighbours(board: Board, p: Position, direction: Direction) -> Seq<Neighbour> {
    all_neighbours(p).filter(allowed_rule(board, direction))
}

/// Whether `i` is the index of the first neighbour in `s` closest to `target`.
pub open spec fn is_first_nearest_step(s: Seq<Neighbour>, target: Position, i: int) -> bool {
    &&& 0 <= i < s.len()
    &&& forall|j: int|
        0 <= j < s.len() ==> sq_distance(target, s[i].position) <= sq_distance(target, #[trigger] s[j].position)
    &&& forall|j: int| 0 <= j < i ==> sq_distance(target, s[i].position) < sq_distance(target, #[trigger] s[j].position)
}

/// The neighbour a ghost at `p` walking in `direction` steps onto to get closer to `target`: the
/// first allowed neighbour closest to it, or the one behind it when no neighbour is allowed.
pub open spec fn nearest_step_to(board: Board, p: Position, direction: Direction, target: Position) -> Neighbour {
    let s = allowed_neighbours(board, p, direction);
    if s.len() == 0 {
        neighbour_at(p, opposite_of(direction))
    } else {
        s[choose|i: int| is_first_nearest_step(s, target, i)]
    }
}

/// At most one index is that of the first closest neighbour.
pub proof fn lemma_first_nearest_step_unique(s: Seq<Neighbour>, target: Position, i: int, k: int)
    requires
        is_first_nearest_step(s, target, i),
        is_first_nearest_step(s, target, k),
    ensures
        i == k,
{
    if i < k {
        assert(sq_distance(target, s[k].position) < sq_distance(target, s[i].position));
    } else if k < i {
        assert(sq_distance(target, s[i].position) < sq_distance(target, s[k].position));
    }
}

/// A sequence with at least one neighbour has a first closest one.
pub proof fn lemma_first_nearest_step_exists(s: Seq<Neighbour>, target: Position)
    requires
        s.len() > 0,
    ensures
        exists|i: int| is_first_nearest_step(s, target, i),
    decreases s.len(),
{
    if s.len() == 1 {
        assert(is_first_nearest_step(s, target, 0));
    } else {
        let rest = s.drop_last();
        lemma_first_nearest_step_exists(rest, target);
        let i = choose|i: int| is_first_nearest_step(rest, target, i);
        let last = s.len() - 1;
        if sq_distance(target, s[last].position) < sq_distance(target, s[i].position) {
            assert forall|j: int| 0 <= j < last implies sq_distance(target, s[last].position) < sq_distance(
                target,
                #[trigger] s[j].position,
            ) by {
                assert(s[j] == rest[j]);
            }
            assert(is_first_nearest_step(s, target, last));
        } else {
            assert forall|j: int| 0 <= j < s.len() implies sq_distance(target, s[i].position) <= sq_distance(
                target,
                #[trigger] s[j].position,
            ) by {
                if j < last {
                    assert(s[j] == rest[j]);
                }
            }
            assert forall|j: int| 0 <= j < i implies sq_distance(target, s[i].position) < sq_distance(
                target,
                #[trigger] s[j].position,
            ) by {
                assert(s[j] == rest[j]);
            }
            assert(is_first_nearest_step(s, target, i));
        }
    }
}

/// A ghost never steps onto a wall or a ghost house entrance and never turns around, as long as
/// it has another way to go; when it has none, it turns around.
pub proof fn lemma_nearest_step_follows_the_rules(board: Board, p: Position, direction: Direction, target: Position)
    ensures
        allowed_neighbours(board, p, direction).len() > 0 ==> {
            let n = nearest_step_to(board, p, direction, target);
            &&& n.direction != opposite_of(direction)
            &&& !board.walls().contains(n.position)
            &&& !board.entrances().contains(n.position)
            &&& all_neighbours(p).contains(n)
        },
        allowed_neighbours(board, p, direction).len() == 0 ==> nearest_step_to(board, p, direction, target)
            == neighbour_at(p, opposite_of(direction)),
{
    let s = allowed_neighbours(board, p, direction);
    if s.len() > 0 {
        lemma_first_nearest_step_exists(s, target);
        let i = choose|i: int| is_first_nearest_step(s, target, i);
        all_neighbours(p).lemma_filter_pred(allowed_rule(board, direction), i);
        assert(s.contains(s[i]));
        all_neighbours(p).lemma_filter_contains_rev(allowed_rule(board, direction), s[i]);
    }
}

/// Return the neighbours of `position` a ghost walking in `direction` may step onto.
pub fn allowed_neighbours_of(board: &Board, position: &Position, direction: &Direction) -> (r: Vec<Neighbour>)
    requires
        has_all_neighbours(*position),
    ensures
        r@ == allowed_neighbours(*board, *position, *direction),
{
    let ghost rule = allowed_rule(*board, *direction);
    let neighbours = position.get_neighbours();
    let behind = direction.opposite();
    let mut result: Vec<Neighbour> = Vec::new();
    let mut i: usize = 0;
    while i < neighbours.len()
        invariant
            0 <= i <= neighbours@.len(),
            rule == allowed_rule(*board, *direction),
            behind == opposite_of(*direction),
            neighbours@ == all_neighbours(*position),
            result@ == neighbours@.take(i as int).filter(rule),
        decreases neighbours@.len() - i,
    {
        let n = neighbours[i];
        if n.direction != behind && !board.position_is_wall_or_entrance(&n.position) {
            result.push(n);
        }
        proof {
            let next = neighbours@.take(i + 1);
            assert(next.drop_last() == neighbours@.take(i as int));
            assert(next.last() == n);
            reveal(Seq::filter);
        }
        i = i + 1;
    }
    assert(neighbours@.take(neighbours@.len() as int) == neighbours@);
    result
}

/// Return the first of the candidates closest to the target; there has to be a candidate.
pub(crate) fn first_nearest_step(candidates: &Vec<Neighbour>, target: &Position) -> (r: Neighbour)
    requires
        candidates@.len() > 0,
    ensures
        r == candidates@[choose|i: int| is_first_nearest_step(candidates@, *target, i)],
{
    let mut best: usize = 0;
    let mut i: usize = 1;
    let ghost mut gi: int = 1;
    let ghost mut gbest: int = 0;
    while i < candidates.len()
        invariant
            gi == i,
            gbest == best,
            1 <= gi <= candidates@.len(),
            0 <= gbest < gi,
            forall|j: int|
                0 <= j < gi ==> sq_distance(*target, candidates@[gbest].position) <= sq_distance(
                    *target,
                    #[trigger] candidates@[j].position,
                ),
            forall|j: int|
                0 <= j < gbest ==> sq_distance(*target, candidates@[gbest].position) < sq_distance(
                    *target,
                    #[trigger] candidates@[j].position,
                ),
        decreases candidates@.len() - gi,
    {
        match minimal_distance_to_positions(target, &candidates[i].position, &candidates[best].position) {
            Ordering::Less => {
                best = i;
                proof {
                    gbest = gi;
                }
            },
            _ => {},
        }
        i = i + 1;
        proof {
            gi = gi + 1;
        }
    }
    proof {
        assert(is_first_nearest_step(candidates@, *target, gbest));
        let c = choose|k: int| is_first_nearest_step(candidates@, *target, k);
        lemma_first_nearest_step_unique(candidates@, *target, c, gbest);
    }
    candidates[best]
}

/// Return the neighbour with the shortest (euclidean) distance to the target among those the
/// ghost may step onto. A ghost does not turn around, unless it has no other way to go.
pub fn get_nearest_neighbour_to(board: &Board, ghost_position: &Position, direction: &Direction, target: &Position) -> (r:
    Neighbour)
    requires
        has_all_neighbours(*ghost_position),
    ensures
        r == nearest_step_to(*board, *ghost_position, *direction, *target),
{
    let candidates = allowed_neighbours_of(board, ghost_position, direction);
    if candidates.len() == 0 {
        ghost_position.neighbour_behind(direction)
    } else {
        first_nearest_step(&candidates, target)
    }
}

/// The field pinky heads for: four fields in front of pacman.
pub open spec fn pinky_target(pacman: Position, pacman_direction: Direction) -> Position {
    stepped(pacman, pacman_direction, 4)
}

/// Return the field four fields in front of pacman.
pub fn calculate_pinky_target(pacman_position: &Position, pacman_direction: &Direction) -> (r: Position)
    requires
        can_step(*pacman_position, *pacman_direction, 4),
    ensures
        r == pinky_target(*pacman_position, *pacman_direction),
{
    let x = pacman_position.x;
    let y = pacman_position.y;
    match pacman_direction {
        Direction::Up => Position::new(x, y + 4),
        Direction::Down => Position::new(x, y - 4),
        Direction::Left => Position::new(x - 4, y),
        Direction::Right => Position::new(x + 4, y),
    }
}

/// The field inky heads for: take the field two fields in front of pacman, draw a line from blinky
/// through it and double its length.
pub open spec fn inky_target(pacman: Position, pacman_direction: Direction, blinky: Position) -> Position {
    let facing = stepped(pacman, pacman_direction, 2);
    Position { x: (blinky.x + 2 * (facing.x - blinky.x)) as i32, y: (blinky.y + 2 * (facing.y - blinky.y)) as i32 }
}

/// Whether inky's target can be computed without leaving the coordinate type.
pub open spec fn inky_target_fits(pacman: Position, pacman_direction: Direction, blinky: Position) -> bool {
    let facing = stepped(pacman, pacman_direction, 2);
    &&& can_step(pacman, pacman_direction, 2)
    &&& fits(facing.x - blinky.x)
    &&& fits(facing.y - blinky.y)
    &&& fits(2 * (facing.x - blinky.x))
    &&& fits(2 * (facing.y - blinky.y))
    &&& fits(blinky.x + 2 * (facing.x - blinky.x))
    &&& fits(blinky.y + 2 * (facing.y - blinky.y))
}

/// Return inky's target, computed from the positions of pacman and blinky.
pub fn calculate_inky_target(pacman_position: &Position, pacman_direction: &Direction, blinky_position: &Position) -> (r:
    Position)
    requires
        inky_target_fits(*pacman_position, *pacman_direction, *blinky_position),
    ensures
        r == inky_target(*pacman_position, *pacman_direction, *blinky_position),
{
    let position_pacman_is_facing = pacman_position.get_position_in_direction_with_offset(pacman_direction, 2);
    let x_diff = position_pacman_is_facing.x - blinky_position.x;
    let y_diff = position_pacman_is_facing.y - blinky_position.y;
    Position::new(blinky_position.x + 2 * x_diff, blinky_position.y + 2 * y_diff)
}

/// The field clyde heads for: its corner when it is near pacman, else pacman.
pub open spec fn clyde_target(near_pacman: bool, corner: Position, pacman: Position) -> Position {
    if near_pacman {
        corner
    } else {
        pacman
    }
}

/// Return the neighbour a frightened ghost steps onto: the one behind it when no neighbour is
/// allowed, the only allowed one, or the allowed one at a drawn index.
pub open spec fn frightened_step(candidates: Seq<Neighbour>, behind: Neighbour, drawn: int) -> Neighbour {
    if candidates.len() == 0 {
        behind
    } else if candidates.len() == 1 {
        candidates[0]
    } else {
        candidates[drawn]
    }
}

/// Return the neighbour a frightened ghost steps onto, given the index drawn among two or more
/// candidates.
pub fn choose_frightened_neighbour(candidates: &Vec<Neighbour>, behind: Neighbour, drawn: usize) -> (r: Neighbour)
    requires
        candidates@.len() >= 2 ==> drawn < candidates@.len(),
    ensures
        r == frightened_step(candidates@, behind, drawn as int),
{
    match candidates.len() {
        0 => behind,
        1 => candidates[0],
        _ => candidates[drawn],
    }
}

/// Clyde chases pacman only from afar: within eight fields of pacman he heads for his own
/// corner, and farther away for pacman's field.
pub proof fn lemma_clyde_retreats_when_near_pacman(near_pacman: bool, corner: Position, pacman: Position)
    ensures
        near_pacman ==> clyde_target(near_pacman, corner, pacman) == corner,
        !near_pacman ==> clyde_target(near_pacman, corner, pacman) == pacman,
        clyde_target(true, corner, pacman) == corner,
        clyde_target(false, corner, pacman) == pacman,
{
}

/// Pinky aims four fields in front of pacman, in the direction pacman moves.
pub proof fn lemma_pinky_aims_four_fields_ahead(pacman: Position, pacman_direction: Direction)
    requires
        can_step(pacman, pacman_direction, 4),
    ensures
        pacman_direction == Direction::Up ==> pinky_target(pacman, pacman_direction).x == pacman.x
            && pinky_target(pacman, pacman_direction).y == pacman.y + 4,
        pacman_direction == Direction::Down ==> pinky_target(pacman, pacman_direction).x == pacman.x
            && pinky_target(pacman, pacman_direction).y == pacman.y - 4,
        pacman_direction == Direction::Left ==> pinky_target(pacman, pacman_direction).x == pacman.x - 4
            && pinky_target(pacman, pacman_direction).y == pacman.y,
        pacman_direction == Direction::Right ==> pinky_target(pacman, pacman_direction).x == pacman.x + 4
            && pinky_target(pacman, pacman_direction).y == pacman.y,
        sq_distance(pacman, pinky_target(pacman, pacman_direction)) == 16,
{
    let t = pinky_target(pacman, pacman_direction);
    assert((pacman.x - t.x) * (pacman.x - t.x) + (pacman.y - t.y) * (pacman.y - t.y) == 16) by (nonlinear_arith)
        requires
            (pacman.x - t.x == 0 && (pacman.y - t.y == 4 || pacman.y - t.y == -4)) || (pacman.y - t.y == 0 && (
                pacman.x - t.x == 4 || pacman.x - t.x == -4)),
    ;
}

/// Inky's target lies on the line from blinky through the field two in front of pacman, twice as
/// far from blinky as that field: the field is the middle between blinky and the target.
pub proof fn lemma_inky_doubles_blinkys_line(pacman: Position, pacman_direction: Direction, blinky: Position)
    requires
        inky_target_fits(pacman, pacman_direction, blinky),
    ensures
        blinky.x + inky_target(pacman, pacman_direction, blinky).x == 2 * stepped(pacman, pacman_direction, 2).x,
        blinky.y + inky_target(pacman, pacman_direction, blinky).y == 2 * stepped(pacman, pacman_direction, 2).y,
        sq_distance(pacman, stepped(pacman, pacman_direction, 2)) == 4,
{
    let f = stepped(pacman, pacman_direction, 2);
    assert((pacman.x - f.x) * (pacman.x - f.x) + (pacman.y - f.y) * (pacman.y - f.y) == 4) by (nonlinear_arith)
        requires
            (pacman.x - f.x == 0 && (pacman.y - f.y == 2 || pacman.y - f.y == -2)) || (pacman.y - f.y == 0 && (
                pacman.x - f.x == 2 || pacman.x - f.x == -2)),
    ;
}

/// Whether `drawn` is an index a frightened ghost at `p` walking in `direction` may draw: one
/// of its allowed neighbours when it has two or more.
pub open spec fn can_draw(board: Board, p: Position, direction: Direction, drawn: int) -> bool {
    allowed_neighbours(board, p, direction).len() >= 2 ==> 0 <= drawn < allowed_neighbours(board, p, direction).len()
}

/// The neighbour a frightened ghost at `p` walking in `direction` steps onto for a drawn index.
pub open spec fn frightened_outcome(board: Board, p: Position, direction: Direction, drawn: int) -> Neighbour {
    frightened_step(allowed_neighbours(board, p, direction), neighbour_at(p, opposite_of(direction)), drawn)
}

/// The target and direction a ghost takes on, once the next neighbour is known.
pub open spec fn aimed_at(target: Target, direction: Direction, n: Neighbour) -> bool {
    target.target == Some(n.position) && direction == n.direction
}

/// Sets the next target of a ghost outside the ghost house.
pub struct TargetSetter<'a> {
    pub board: &'a Board,
    pub random: &'a Random,
    pub ghost_corners: &'a GhostCorners,
    pub pacman_position: Position,
    pub pacman_direction: Direction,
    pub blinky_position: Position,
    pub kind: GhostKind,
    pub ghost_position: Position,
    /// Whether clyde is closer to pacman than eight fields, measured on the screen.
    pub clyde_near_pacman: bool,
    pub direction: &'a mut Direction,
    pub target: &'a mut Target,
}

impl<'a> TargetSetter<'a> {
    /// The ghost's direction as the setter sees it now.
    pub open spec fn heading(&self) -> Direction {
        *self.direction
    }

    /// The ghost's target as the setter sees it now.
    pub open spec fn aim(&self) -> Target {
        *self.target
    }

    /// The neighbour the ghost steps onto to get closer to `goal`.
    pub open spec fn step_to(&self, goal: Position) -> Neighbour {
        nearest_step_to(*self.board, self.ghost_position, self.heading(), goal)
    }

    fn set_target_to_neighbour(&mut self, neighbour: Neighbour)
        ensures
            aimed_at(final(self).aim(), final(self).heading(), neighbour),
            final(self).board == old(self).board,
            final(self).ghost_position == old(self).ghost_position,
    {
        *self.direction = neighbour.direction;
        self.target.set_to(neighbour.position);
    }

    pub fn set_blinky_chase_target(&mut self)
        requires
            has_all_neighbours(old(self).ghost_position),
        ensures
            aimed_at(final(self).aim(), final(self).heading(), old(self).step_to(old(self).pacman_position)),
    {
        let pacman_position = self.pacman_position;
        let next_target_neighbour = get_nearest_neighbour_to(self.board, &self.ghost_position, self.direction, &pacman_position);
        self.set_target_to_neighbour(next_target_neighbour)
    }

    pub fn set_pinky_chase_target(&mut self)
        requires
            has_all_neighbours(old(self).ghost_position),
            can_step(old(self).pacman_position, old(self).pacman_direction, 4),
        ensures
            aimed_at(
                final(self).aim(),
                final(self).heading(),
                old(self).step_to(pinky_target(old(self).pacman_position, old(self).pacman_direction)),
            ),
    {
        let pinky_target = calculate_pinky_target(&self.pacman_position, &self.pacman_direction);
        let next_target_neighbour = get_nearest_neighbour_to(self.board, &self.ghost_position, self.direction, &pinky_target);
        self.set_target_to_neighbour(next_target_neighbour)
    }

    pub fn set_inky_chase_target(&mut self)
        requires
            has_all_neighbours(old(self).ghost_position),
            inky_target_fits(old(self).pacman_position, old(self).pacman_direction, old(self).blinky_position),
        ensures
            aimed_at(
                final(self).aim(),
                final(self).heading(),
                old(self).step_to(
                    inky_target(old(self).pacman_position, old(self).pacman_direction, old(self).blinky_position),
                ),
            ),
    {
        let target = calculate_inky_target(&self.pacman_position, &self.pacman_direction, &self.blinky_position);
        let next_target_neighbour = get_nearest_neighbour_to(self.board, &self.ghost_position, self.direction, &target);
        self.set_target_to_neighbour(next_target_neighbour)
    }

    pub fn set_clyde_chase_target(&mut self)
        requires
            has_all_neighbours(old(self).ghost_position),
        ensures
            aimed_at(
                final(self).aim(),
                final(self).heading(),
                old(self).step_to(
                    clyde_target(
                        old(self).clyde_near_pacman,
                        corner_of(*old(self).ghost_corners, old(self).kind),
                        old(self).pacman_position,
                    ),
                ),
            ),
            old(self).clyde_near_pacman ==> aimed_at(
                final(self).aim(),
                final(self).heading(),
                old(self).step_to(corner_of(*old(self).ghost_corners, old(self).kind)),
            ),
            !old(self).clyde_near_pacman ==> aimed_at(
                final(self).aim(),
                final(self).heading(),
                old(self).step_to(old(self).pacman_position),
            ),
    {
        let target = if self.clyde_near_pacman {
            self.ghost_corners.get_corner(&self.kind)
        } else {
            self.pacman_position
        };
        let next_target_neighbour = get_nearest_neighbour_to(self.board, &self.ghost_position, self.direction, &target);
        self.set_target_to_neighbour(next_target_neighbour)
    }

    pub fn set_scatter_target(&mut self)
        requires
            has_all_neighbours(old(self).ghost_position),
        ensures
            aimed_at(
                final(self).aim(),
                final(self).heading(),
                old(self).step_to(corner_of(*old(self).ghost_corners, old(self).kind)),
            ),
    {
        let corner_pos = self.ghost_corners.get_corner(&self.kind);
        let next_target_neighbour = get_nearest_neighbour_to(self.board, &self.ghost_position, self.direction, &corner_pos);
        self.set_target_to_neighbour(next_target_neighbour)
    }

    /// Let a frightened ghost step onto a random neighbour it may step onto, or turn around when
    /// there is none.
    pub fn set_frightened_target(&mut self)
        requires
            has_all_neighbours(old(self).ghost_position),
        ensures
            exists|drawn: int|
                can_draw(*old(self).board, old(self).ghost_position, old(self).heading(), drawn) && aimed_at(
                    final(self).aim(),
                    final(self).heading(),
                    #[trigger] frightened_outcome(*old(self).board, old(self).ghost_position, old(self).heading(), drawn),
                ),
    {
        let possible_neighbours = allowed_neighbours_of(self.board, &self.ghost_position, self.direction);
        let behind = self.ghost_position.neighbour_behind(self.direction);
        let drawn = if possible_neighbours.len() >= 2 {
            self.random.zero_to(possible_neighbours.len())
        } else {
            0
        };
        let next_target_neighbour = choose_frightened_neighbour(&possible_neighbours, behind, drawn);
        self.set_target_to_neighbour(next_target_neighbour);
        assert(aimed_at(
            self.aim(),
            self.heading(),
            frightened_outcome(*old(self).board, old(self).ghost_position, old(self).heading(), drawn as int),
        ));
    }
}

} // verus!

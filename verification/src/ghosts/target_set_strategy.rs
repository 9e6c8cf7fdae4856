use std::cmp::Ordering;

use vstd::prelude::*;

use crate::common::{opposite_of, sq_distance, Movement, Position};
use crate::ghosts::GhostKind;
use crate::map::field_board::{field_neighbours, lemma_field_neighbours_on_map, FieldBoard, Neighbour};
use crate::map::pacmap::FieldType;

verus! {

/// How two integers compare.
pub open spec fn ordering_of(a: int, b: int) -> Ordering {
    if a < b {
        Ordering::Less
    } else if a == b {
        Ordering::Equal
    } else {
        Ordering::Greater
    }
}

/// Compare the distances of two positions to a target.
pub fn minimal_distance_to_positions(big_target: &Position, position_a: &Position, position_b: &Position) -> (r: Ordering)
    ensures
        r == ordering_of(sq_distance(*big_target, *position_a), sq_distance(*big_target, *position_b)),
{
    let distance_a = big_target.distance_to(position_a);
    let distance_b = big_target.distance_to(position_b);
    if distance_a < distance_b {
        Ordering::Less
    } else if distance_a == distance_b {
        Ordering::Equal
    } else {
        Ordering::Greater
    }
}

/// Compare the distances of two neighbours to a target.
pub fn minimal_distance_to_neighbours(big_target: &Position, neighbour_a: &Neighbour, neighbour_b: &Neighbour) -> (r: Ordering)
    ensures
        r == ordering_of(
            sq_distance(*big_target, neighbour_a.position),
            sq_distance(*big_target, neighbour_b.position),
        ),
{
    minimal_distance_to_positions(big_target, &neighbour_a.position, &neighbour_b.position)
}

/// Whether `i` is the index of the first position in `s` closest to `target`.
pub open spec fn is_first_nearest_position(s: Seq<Position>, target: Position, i: int) -> bool {
    &&& 0 <= i < s.len()
    &&& forall|j: int| 0 <= j < s.len() ==> sq_distance(target, s[i]) <= sq_distance(target, #[trigger] s[j])
    &&& forall|j: int| 0 <= j < i ==> sq_distance(target, s[i]) < sq_distance(target, #[trigger] s[j])
}

/// Whether `i` is the index of the first neighbour in `s` closest to `target`.
pub open spec fn is_first_nearest_neighbour(s: Seq<Neighbour>, target: Position, i: int) -> bool {
    &&& 0 <= i < s.len()
    &&& forall|j: int|
        0 <= j < s.len() ==> sq_distance(target, s[i].position) <= sq_distance(target, #[trigger] s[j].position)
    &&& forall|j: int| 0 <= j < i ==> sq_distance(target, s[i].position) < sq_distance(target, #[trigger] s[j].position)
}

/// The first neighbour in `s` closest to `target`, or `None` for an empty sequence.
pub open spec fn nearest_neighbour_of(s: Seq<Neighbour>, target: Position) -> Option<Neighbour> {
    if s.len() == 0 {
        None
    } else {
        Some(s[choose|i: int| is_first_nearest_neighbour(s, target, i)])
    }
}

/// At most one index is that of the first closest neighbour.
pub proof fn lemma_first_nearest_neighbour_unique(s: Seq<Neighbour>, target: Position, i: int, k: int)
    requires
        is_first_nearest_neighbour(s, target, i),
        is_first_nearest_neighbour(s, target, k),
    ensures
        i == k,
{
    if i < k {
        assert(sq_distance(target, s[k].position) < sq_distance(target, s[i].position));
    } else if k < i {
        assert(sq_distance(target, s[i].position) < sq_distance(target, s[k].position));
    }
}

/// A sequence with at least one neighbour has a first closest one.
pub proof fn lemma_first_nearest_neighbour_exists(s: Seq<Neighbour>, target: Position)
    requires
        s.len() > 0,
    ensures
        exists|i: int| is_first_nearest_neighbour(s, target, i),
    decreases s.len(),
{
    if s.len() == 1 {
        assert(is_first_nearest_neighbour(s, target, 0));
    } else {
        let rest = s.drop_last();
        lemma_first_nearest_neighbour_exists(rest, target);
        let i = choose|i: int| is_first_nearest_neighbour(rest, target, i);
        let last = s.len() - 1;
        if sq_distance(target, s[last].position) < sq_distance(target, s[i].position) {
            assert forall|j: int| 0 <= j < last implies sq_distance(target, s[last].position) < sq_distance(
                target,
                #[trigger] s[j].position,
            ) by {
                assert(s[j] == rest[j]);
            }
            assert(is_first_nearest_neighbour(s, target, last));
        } else {
            assert forall|j: int| 0 <= j < s.len() implies sq_distance(target, s[i].position) <= sq_distance(
                target,
                #[trigger] s[j].position,
            ) by {
                if j < last {
                    assert(s[j] == rest[j]);
                }
            }
            assert forall|j: int| 0 <= j < i implies sq_distance(target, s[i].position) < sq_distance(
                target,
                #[trigger] s[j].position,
            ) by {
                assert(s[j] == rest[j]);
            }
            assert(is_first_nearest_neighbour(s, target, i));
        }
    }
}

/// Return the first neighbour closest to the target, or `None` if there is no candidate.
pub fn nearest_neighbour(target: &Position, candidates: &Vec<Neighbour>) -> (r: Option<Neighbour>)
    ensures
        r == nearest_neighbour_of(candidates@, *target),
{
    if candidates.len() == 0 {
        return None;
    }
    let mut best: usize = 0;
    let mut i: usize = 1;
    let ghost mut gi: int = 1;
    let ghost mut gbest: int = 0;
    while i < candidates.len()
        invariant
            gi == i,
            gbest == best,
            1 <= gi <= candidates@.len(),
            0 <= gbest < gi,
            forall|j: int|
                0 <= j < gi ==> sq_distance(*target, candidates@[gbest].position) <= sq_distance(
                    *target,
                    #[trigger] candidates@[j].position,
                ),
            forall|j: int|
                0 <= j < gbest ==> sq_distance(*target, candidates@[gbest].position) < sq_distance(
                    *target,
                    #[trigger] candidates@[j].position,
                ),
        decreases candidates@.len() - gi,
    {
        match minimal_distance_to_neighbours(target, &candidates[i], &candidates[best]) {
            Ordering::Less => {
                best = i;
                proof {
                    gbest = gi;
                }
            },
            _ => {},
        }
        i = i + 1;
        proof {
            gi = gi + 1;
        }
    }
    proof {
        assert(is_first_nearest_neighbour(candidates@, *target, gbest));
        let c = choose|k: int| is_first_nearest_neighbour(candidates@, *target, k);
        lemma_first_nearest_neighbour_unique(candidates@, *target, c, gbest);
    }
    Some(candidates[best])
}

/// Return the first position closest to the target, or `None` if there is no position.
pub fn nearest_position(target: &Position, positions: &Vec<Position>) -> (r: Option<Position>)
    ensures
        r is None <==> positions@.len() == 0,
        r is Some ==> exists|i: int| is_first_nearest_position(positions@, *target, i) && r->0 == positions@[i],
{
    if positions.len() == 0 {
        return None;
    }
    let mut best: usize = 0;
    let mut i: usize = 1;
    let ghost mut gi: int = 1;
    let ghost mut gbest: int = 0;
    while i < positions.len()
        invariant
            gi == i,
            gbest == best,
            1 <= gi <= positions@.len(),
            0 <= gbest < gi,
            forall|j: int|
                0 <= j < gi ==> sq_distance(*target, positions@[gbest]) <= sq_distance(*target, #[trigger] positions@[j]),
            forall|j: int|
                0 <= j < gbest ==> sq_distance(*target, positions@[gbest]) < sq_distance(*target, #[trigger] positions@[j]),
        decreases positions@.len() - gi,
    {
        match minimal_distance_to_positions(target, &positions[i], &positions[best]) {
            Ordering::Less => {
                best = i;
                proof {
                    gbest = gi;
                }
            },
            _ => {},
        }
        i = i + 1;
        proof {
            gi = gi + 1;
        }
    }
    assert(is_first_nearest_position(positions@, *target, gbest));
    Some(positions[best])
}

/// Whether a neighbour does not lie behind an entity with the given movement.
pub open spec fn not_opposite(movement: Movement, n: Neighbour) -> bool {
    match movement {
        Movement::Idle => true,
        Movement::Moving(d) => n.direction != opposite_of(d),
    }
}

/// Whether a ghost may walk onto a field of the given type.
pub open spec fn is_passable(t: FieldType) -> bool {
    t != FieldType::Wall && t != FieldType::GhostWall
}

/// Whether a ghost that stands on a field of type `own` and leaves the ghost house may step onto
/// the neighbour: from the house wall it must not go back into the spawn.
pub open spec fn is_passable_from(own: FieldType, n: Neighbour) -> bool {
    if own == FieldType::GhostWall {
        n.field_type != FieldType::Wall && n.field_type != FieldType::GhostSpawn
    } else {
        n.field_type != FieldType::Wall
    }
}

/// The rule that picks the neighbours a ghost outside the house may walk to.
pub open spec fn open_rule(movement: Movement) -> spec_fn(Neighbour) -> bool {
    |n: Neighbour| not_opposite(movement, n) && is_passable(n.field_type)
}

/// The rule that picks the neighbours a ghost leaving the house may walk to.
pub open spec fn spawn_exit_rule(movement: Movement, own: FieldType) -> spec_fn(Neighbour) -> bool {
    |n: Neighbour| not_opposite(movement, n) && is_passable_from(own, n)
}

/// The neighbours of `p` a ghost outside the house may walk to, in the order up, down, left, right.
pub open spec fn open_candidates(m: Map<Position, FieldType>, p: Position, movement: Movement) -> Seq<Neighbour> {
    field_neighbours(m, p).filter(open_rule(movement))
}

/// The neighbours of `p` a ghost leaving the house may walk to, in the order up, down, left, right.
pub open spec fn spawn_exit_candidates(m: Map<Position, FieldType>, p: Position, movement: Movement) -> Seq<
    Neighbour,
> {
    field_neighbours(m, p).filter(spawn_exit_rule(movement, m[p]))
}

/// Whether `w` is a ghost house wall at the smallest distance to `p`.
pub open spec fn is_nearest_of_type(m: Map<Position, FieldType>, p: Position, t: FieldType, w: Position) -> bool {
    &&& m.contains_key(w)
    &&& m[w] == t
    &&& forall|q: Position| m.contains_key(q) && m[q] == t ==> sq_distance(p, w) <= #[trigger] sq_distance(p, q)
}

/// Whether the map holds a field of the given type.
pub open spec fn has_field_of_type(m: Map<Position, FieldType>, t: FieldType) -> bool {
    exists|q: Position| m.contains_key(q) && m[q] == t
}

/// Return whether a neighbour does not lie behind an entity with the given movement.
pub fn neighbour_not_in_opposite_direction(movement: &Movement, neighbour: &Neighbour) -> (r: bool)
    ensures
        r == not_opposite(*movement, *neighbour),
{
    match *movement {
        Movement::Idle => true,
        Movement::Moving(dir) => neighbour.direction != dir.opposite(),
    }
}

/// Return whether a ghost may walk onto the field at the given position.
pub fn neighbour_is_no_wall(board: &FieldBoard, neighbour_position: &Position) -> (r: bool)
    requires
        board.position_type_map@.contains_key(*neighbour_position),
    ensures
        r == is_passable(board.position_type_map@[*neighbour_position]),
{
    match board.type_of_position(neighbour_position) {
        FieldType::Wall | FieldType::GhostWall => false,
        _ => true,
    }
}

/// Return whether a ghost leaving the house from `ghost_position` may step onto the neighbour.
pub fn neighbour_is_no_wall_in_spawn(board: &FieldBoard, ghost_position: &Position, neighbour: &Neighbour) -> (r: bool)
    requires
        board.position_type_map@.contains_key(*ghost_position),
    ensures
        r == is_passable_from(board.position_type_map@[*ghost_position], *neighbour),
{
    match *board.type_of_position(ghost_position) == FieldType::GhostWall {
        true => neighbour.field_type != FieldType::Wall && neighbour.field_type != FieldType::GhostSpawn,
        false => neighbour.field_type != FieldType::Wall,
    }
}

/// Return the neighbours of `position` a ghost outside the house may walk to.
pub fn open_neighbours(board: &FieldBoard, position: &Position, movement: &Movement) -> (r: Vec<Neighbour>)
    ensures
        r@ == open_candidates(board.position_type_map@, *position, *movement),
{
    let ghost m = board.position_type_map@;
    let ghost rule = open_rule(*movement);
    let neighbours = board.neighbours_of(position);
    proof {
        lemma_field_neighbours_on_map(m, *position);
    }
    let mut result: Vec<Neighbour> = Vec::new();
    let mut i: usize = 0;
    while i < neighbours.len()
        invariant
            0 <= i <= neighbours@.len(),
            m == board.position_type_map@,
            rule == open_rule(*movement),
            neighbours@ == field_neighbours(m, *position),
            forall|k: int|
                0 <= k < neighbours@.len() ==> m.contains_key(#[trigger] neighbours@[k].position)
                    && m[neighbours@[k].position] == neighbours@[k].field_type,
            result@ == neighbours@.take(i as int).filter(rule),
        decreases neighbours@.len() - i,
    {
        let neighbour = neighbours[i];
        let keep = neighbour_not_in_opposite_direction(movement, &neighbour) && neighbour_is_no_wall(
            board,
            &neighbour.position,
        );
        if keep {
            result.push(neighbour);
        }
        proof {
            let next = neighbours@.take(i + 1);
            assert(next.drop_last() == neighbours@.take(i as int));
            assert(next.last() == neighbour);
            reveal(Seq::filter);
        }
        i = i + 1;
    }
    assert(neighbours@.take(neighbours@.len() as int) == neighbours@);
    result
}

/// Return the neighbours of `position` a ghost leaving the house may walk to.
pub fn spawn_exit_neighbours(board: &FieldBoard, position: &Position, movement: &Movement) -> (r: Vec<Neighbour>)
    requires
        board.position_type_map@.contains_key(*position),
    ensures
        r@ == spawn_exit_candidates(board.position_type_map@, *position, *movement),
{
    let ghost m = board.position_type_map@;
    let ghost rule = spawn_exit_rule(*movement, m[*position]);
    let neighbours = board.neighbours_of(position);
    let mut result: Vec<Neighbour> = Vec::new();
    let mut i: usize = 0;
    while i < neighbours.len()
        invariant
            0 <= i <= neighbours@.len(),
            m == board.position_type_map@,
            m.contains_key(*position),
            rule == spawn_exit_rule(*movement, m[*position]),
            neighbours@ == field_neighbours(m, *position),
            result@ == neighbours@.take(i as int).filter(rule),
        decreases neighbours@.len() - i,
    {
        let neighbour = neighbours[i];
        let keep = neighbour_not_in_opposite_direction(movement, &neighbour) && neighbour_is_no_wall_in_spawn(
            board,
            position,
            &neighbour,
        );
        if keep {
            result.push(neighbour);
        }
        proof {
            let next = neighbours@.take(i + 1);
            assert(next.drop_last() == neighbours@.take(i as int));
            assert(next.last() == neighbour);
            reveal(Seq::filter);
        }
        i = i + 1;
    }
    assert(neighbours@.take(neighbours@.len() as int) == neighbours@);
    result
}

/// Chooses the neighbour a ghost walks to next.
pub trait TargetSetStrategy {
    /// Whether the board holds what the strategy looks for.
    spec fn can_choose(&self) -> bool;

    /// Whether `r` is an answer the strategy may give.
    spec fn is_choice(&self, r: Option<Neighbour>) -> bool;

    fn get_next_target_neighbour(&self) -> (r: Option<Neighbour>)
        requires
            self.can_choose(),
        ensures
            self.is_choice(r),
    ;
}

/// The answer of a ghost that leaves the house: of the neighbours it may step onto, the one
/// closest to a nearest house wall `w`.
pub open spec fn spawned_choice(m: Map<Position, FieldType>, p: Position, movement: Movement, r: Option<Neighbour>) -> bool {
    exists|w: Position|
        is_nearest_of_type(m, p, FieldType::GhostWall, w) && r == nearest_neighbour_of(
            spawn_exit_candidates(m, p, movement),
            w,
        )
}

/// The answer of a ghost that walks to its corner: of the neighbours it may step onto, the one
/// closest to a field of its corner `c`.
pub open spec fn scatter_choice(
    m: Map<Position, FieldType>,
    p: Position,
    movement: Movement,
    kind: GhostKind,
    r: Option<Neighbour>,
) -> bool {
    exists|c: Position|
        m.contains_key(c) && m[c] == FieldType::GhostCorner(kind) && r == nearest_neighbour_of(
            open_candidates(m, p, movement),
            c,
        )
}

/// Leads a ghost out of the ghost house.
pub struct SpawnedStrategy<'a> {
    pub board: &'a FieldBoard,
    pub position: &'a Position,
    pub movement: Movement,
}

impl<'a> SpawnedStrategy<'a> {
    pub fn new(board: &'a FieldBoard, position: &'a Position, movement: Movement) -> (r: Self)
        ensures
            r.board == board,
            r.position == position,
            r.movement == movement,
    {
        SpawnedStrategy { board, position, movement }
    }
}

impl<'a> TargetSetStrategy for SpawnedStrategy<'a> {
    open spec fn can_choose(&self) -> bool {
        &&& self.board.position_type_map@.contains_key(*self.position)
        &&& has_field_of_type(self.board.position_type_map@, FieldType::GhostWall)
    }

    open spec fn is_choice(&self, r: Option<Neighbour>) -> bool {
        spawned_choice(self.board.position_type_map@, *self.position, self.movement, r)
    }

    fn get_next_target_neighbour(&self) -> (r: Option<Neighbour>) {
        let ghost m = self.board.position_type_map@;
        let ghost_wall_positions = self.board.positions_of_type(FieldType::GhostWall);
        proof {
            let q = choose|q: Position| m.contains_key(q) && m[q] == FieldType::GhostWall;
            assert(ghost_wall_positions@.contains(q));
        }
        let nearest_wall_position = match nearest_position(self.position, &ghost_wall_positions) {
            Some(w) => w,
            None => vstd::pervasive::unreached(),
        };
        proof {
            let i = choose|i: int|
                is_first_nearest_position(ghost_wall_positions@, *self.position, i) && nearest_wall_position
                    == ghost_wall_positions@[i];
            assert(ghost_wall_positions@.contains(nearest_wall_position));
            assert forall|q: Position| m.contains_key(q) && m[q] == FieldType::GhostWall implies sq_distance(
                *self.position,
                nearest_wall_position,
            ) <= #[trigger] sq_distance(*self.position, q) by {
                assert(ghost_wall_positions@.contains(q));
                let j = choose|j: int| 0 <= j < ghost_wall_positions@.len() && ghost_wall_positions@[j] == q;
                assert(sq_distance(*self.position, ghost_wall_positions@[i]) <= sq_distance(
                    *self.position,
                    ghost_wall_positions@[j],
                ));
            }
            assert(is_nearest_of_type(m, *self.position, FieldType::GhostWall, nearest_wall_position));
        }
        let candidates = spawn_exit_neighbours(self.board, self.position, &self.movement);
        nearest_neighbour(&nearest_wall_position, &candidates)
    }
}

/// Leads a ghost to its corner.
pub struct ScatterStrategy<'a> {
    pub board: &'a FieldBoard,
    pub position: &'a Position,
    pub movement: Movement,
    pub kind: &'a GhostKind,
}

impl<'a> ScatterStrategy<'a> {
    pub fn new(board: &'a FieldBoard, position: &'a Position, movement: Movement, kind: &'a GhostKind) -> (r: Self)
        ensures
            r.board == board,
            r.position == position,
            r.movement == movement,
            r.kind == kind,
    {
        ScatterStrategy { board, position, movement, kind }
    }
}

impl<'a> TargetSetStrategy for ScatterStrategy<'a> {
    open spec fn can_choose(&self) -> bool {
        has_field_of_type(self.board.position_type_map@, FieldType::GhostCorner(*self.kind))
    }

    open spec fn is_choice(&self, r: Option<Neighbour>) -> bool {
        scatter_choice(self.board.position_type_map@, *self.position, self.movement, *self.kind, r)
    }

    fn get_next_target_neighbour(&self) -> (r: Option<Neighbour>) {
        let ghost_corner_position = self.board.position_of_type(FieldType::GhostCorner(*self.kind));
        let candidates = open_neighbours(self.board, self.position, &self.movement);
        nearest_neighbour(&ghost_corner_position, &candidates)
    }
}

/// A ghost outside the house heading for a target never walks into a wall or the house wall and
/// never turns around: it picks one of the neighbours on the map that it may step onto, and it
/// finds one exactly when there is one.
pub proof fn lemma_open_choice_follows_the_rules(m: Map<Position, FieldType>, p: Position, movement: Movement, target: Position)
    ensures
        (nearest_neighbour_of(open_candidates(m, p, movement), target) is Some) <==> open_candidates(m, p, movement).len()
            > 0,
        (nearest_neighbour_of(open_candidates(m, p, movement), target) is Some) ==> {
            let n = nearest_neighbour_of(open_candidates(m, p, movement), target)->0;
            &&& not_opposite(movement, n)
            &&& is_passable(n.field_type)
            &&& field_neighbours(m, p).contains(n)
        },
{
    let s = open_candidates(m, p, movement);
    if s.len() > 0 {
        lemma_first_nearest_neighbour_exists(s, target);
        let i = choose|i: int| is_first_nearest_neighbour(s, target, i);
        field_neighbours(m, p).lemma_filter_pred(open_rule(movement), i);
        assert(s.contains(s[i]));
        field_neighbours(m, p).lemma_filter_contains_rev(open_rule(movement), s[i]);
    }
}

/// A ghost leaving the house never walks into a wall, and from the house wall never back into the
/// spawn; it never turns around, and it finds a neighbour exactly when there is one it may step
/// onto.
pub proof fn lemma_spawn_exit_choice_follows_the_rules(
    m: Map<Position, FieldType>,
    p: Position,
    movement: Movement,
    target: Position,
)
    ensures
        (nearest_neighbour_of(spawn_exit_candidates(m, p, movement), target) is Some) <==> spawn_exit_candidates(
            m,
            p,
            movement,
        ).len() > 0,
        (nearest_neighbour_of(spawn_exit_candidates(m, p, movement), target) is Some) ==> {
            let n = nearest_neighbour_of(spawn_exit_candidates(m, p, movement), target)->0;
            &&& not_opposite(movement, n)
            &&& is_passable_from(m[p], n)
            &&& field_neighbours(m, p).contains(n)
        },
{
    let s = spawn_exit_candidates(m, p, movement);
    if s.len() > 0 {
        lemma_first_nearest_neighbour_exists(s, target);
        let i = choose|i: int| is_first_nearest_neighbour(s, target, i);
        field_neighbours(m, p).lemma_filter_pred(spawn_exit_rule(movement, m[p]), i);
        assert(s.contains(s[i]));
        field_neighbours(m, p).lemma_filter_contains_rev(spawn_exit_rule(movement, m[p]), s[i]);
    }
}

} // verus!

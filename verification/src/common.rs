use vstd::prelude::*;

verus! {

/// One of the four directions an entity can move on the board.
#[derive(Copy, Clone, Debug, PartialEq, Eq, Hash, Structural)]
pub enum Direction {
    Up,
    Down,
    Left,
    Right,
}

/// The direction pointing the other way.
pub open spec fn opposite_of(d: Direction) -> Direction {
    match d {
        Direction::Up => Direction::Down,
        Direction::Down => Direction::Up,
        Direction::Left => Direction::Right,
        Direction::Right => Direction::Left,
    }
}

/// The direction after a quarter turn counter clockwise.
pub open spec fn rotated_left(d: Direction) -> Direction {
    match d {
        Direction::Up => Direction::Left,
        Direction::Left => Direction::Down,
        Direction::Down => Direction::Right,
        Direction::Right => Direction::Up,
    }
}

/// The change of the x coordinate when moving one field in the given direction.
pub open spec fn dx_of(d: Direction) -> int {
    match d {
        Direction::Left => -1,
        Direction::Right => 1,
        _ => 0,
    }
}

/// The change of the y coordinate when moving one field in the given direction.
pub open spec fn dy_of(d: Direction) -> int {
    match d {
        Direction::Up => 1,
        Direction::Down => -1,
        _ => 0,
    }
}

impl Direction {
    /// Return the direction pointing the other way.
    pub fn opposite(&self) -> (r: Direction)
        ensures
            r == opposite_of(*self),
    {
        match self {
            Direction::Up => Direction::Down,
            Direction::Down => Direction::Up,
            Direction::Left => Direction::Right,
            Direction::Right => Direction::Left,
        }
    }

    /// Return the direction after a quarter turn counter clockwise.
    pub fn rotate_left(&self) -> (r: Direction)
        ensures
            r == rotated_left(*self),
    {
        match self {
            Direction::Up => Direction::Left,
            Direction::Left => Direction::Down,
            Direction::Down => Direction::Right,
            Direction::Right => Direction::Up,
        }
    }

    /// Turn this direction around.
    pub fn reverse(&mut self)
        ensures
            *final(self) == opposite_of(*old(self)),
    {
        *self = self.opposite();
    }
}

/// Whether an entity stands still or moves in a direction.
#[derive(Copy, Clone, Debug, PartialEq, Eq, Structural)]
pub enum Movement {
    Idle,
    Moving(Direction),
}

/// Whether a coordinate moved by `delta` still fits the coordinate type.
pub open spec fn fits(v: int) -> bool {
    i32::MIN <= v <= i32::MAX
}

/// A field on the board, addressed by its column and row. Rows grow upwards.
#[derive(Copy, Clone, Debug, PartialEq, Eq, Hash, Structural)]
pub struct Position {
    pub x: i32,
    pub y: i32,
}

/// The squared euclidean distance between two positions. It orders positions exactly as the
/// euclidean distance does.
pub open spec fn sq_distance(a: Position, b: Position) -> int {
    (a.x - b.x) * (a.x - b.x) + (a.y - b.y) * (a.y - b.y)
}

/// Whether the position `steps` fields away in direction `d` fits the coordinate type.
pub open spec fn can_step(p: Position, d: Direction, steps: int) -> bool {
    fits(p.x + dx_of(d) * steps) && fits(p.y + dy_of(d) * steps)
}

/// The position `steps` fields away from `p` in direction `d`.
pub open spec fn stepped(p: Position, d: Direction, steps: int) -> Position {
    Position { x: (p.x + dx_of(d) * steps) as i32, y: (p.y + dy_of(d) * steps) as i32 }
}

/// Whether every direct neighbour of the position fits the coordinate type.
pub open spec fn has_all_neighbours(p: Position) -> bool {
    i32::MIN < p.x < i32::MAX && i32::MIN < p.y < i32::MAX
}

/// A neighbouring position together with the direction leading to it.
#[derive(Copy, Clone, Debug, PartialEq, Eq, Structural)]
pub struct Neighbour {
    pub position: Position,
    pub direction: Direction,
}

impl Neighbour {
    pub fn new(position: Position, direction: Direction) -> (r: Neighbour)
        ensures
            r.position == position,
            r.direction == direction,
    {
        Neighbour { position, direction }
    }
}

/// The neighbour of `p` in direction `d`.
pub open spec fn neighbour_at(p: Position, d: Direction) -> Neighbour {
    Neighbour { position: stepped(p, d, 1), direction: d }
}

/// The four neighbours of a position, in the order up, down, left, right.
pub open spec fn all_neighbours(p: Position) -> Seq<Neighbour> {
    seq![
        neighbour_at(p, Direction::Up),
        neighbour_at(p, Direction::Down),
        neighbour_at(p, Direction::Left),
        neighbour_at(p, Direction::Right),
    ]
}

/// Whether `i` is the index of the first element of `s` with the smallest squared distance
/// to `target`.
pub open spec fn is_first_nearest(s: Seq<Position>, target: Position, i: int) -> bool {
    &&& 0 <= i < s.len()
    &&& forall|j: int| 0 <= j < s.len() ==> sq_distance(target, s[i]) <= sq_distance(target, #[trigger] s[j])
    &&& forall|j: int| 0 <= j < i ==> sq_distance(target, s[i]) < sq_distance(target, #[trigger] s[j])
}

proof fn lemma_sq_distance_bound(a: Position, b: Position)
    ensures
        0 <= sq_distance(a, b) < 0x8_0000_0000_0000_0000,
{
    let dx = a.x - b.x;
    let dy = a.y - b.y;
    assert(-0x1_0000_0000 < dx < 0x1_0000_0000);
    assert(-0x1_0000_0000 < dy < 0x1_0000_0000);
    assert(0 <= dx * dx < 0x1_0000_0000_0000_0000) by (nonlinear_arith)
        requires
            -0x1_0000_0000 < dx < 0x1_0000_0000,
    ;
    assert(0 <= dy * dy < 0x1_0000_0000_0000_0000) by (nonlinear_arith)
        requires
            -0x1_0000_0000 < dy < 0x1_0000_0000,
    ;
}

impl Position {
    pub fn new(x: i32, y: i32) -> (r: Position)
        ensures
            r.x == x,
            r.y == y,
    {
        Position { x, y }
    }

    /// The squared euclidean distance to another position.
    pub fn distance_to(&self, other: &Position) -> (r: u128)
        ensures
            r == sq_distance(*self, *other),
    {
        proof {
            lemma_sq_distance_bound(*self, *other);
        }
        let dx: i64 = self.x as i64 - other.x as i64;
        let dy: i64 = self.y as i64 - other.y as i64;
        let ax: u128 = if dx < 0 { (-dx) as u128 } else { dx as u128 };
        let ay: u128 = if dy < 0 { (-dy) as u128 } else { dy as u128 };
        assert(ax * ax == dx * dx) by (nonlinear_arith)
            requires
                ax == dx || ax == -dx,
        ;
        assert(ay * ay == dy * dy) by (nonlinear_arith)
            requires
                ay == dy || ay == -dy,
        ;
        assert(ax * ax < 0x1_0000_0000_0000_0000) by (nonlinear_arith)
            requires
                ax < 0x1_0000_0000,
        ;
        assert(ay * ay < 0x1_0000_0000_0000_0000) by (nonlinear_arith)
            requires
                ay < 0x1_0000_0000,
        ;
        ax * ax + ay * ay
    }

    /// Return the position `offset` fields away in the given direction.
    pub fn get_position_in_direction_with_offset(&self, direction: &Direction, offset: i32) -> (r: Position)
        requires
            can_step(*self, *direction, offset as int),
        ensures
            r == stepped(*self, *direction, offset as int),
    {
        match direction {
            Direction::Up => Position::new(self.x, self.y + offset),
            Direction::Down => Position::new(self.x, self.y - offset),
            Direction::Left => Position::new(self.x - offset, self.y),
            Direction::Right => Position::new(self.x + offset, self.y),
        }
    }

    /// Return the position next to this one in the given direction.
    pub fn neighbour_position(&self, direction: &Direction) -> (r: Position)
        requires
            can_step(*self, *direction, 1),
        ensures
            r == stepped(*self, *direction, 1),
    {
        self.get_position_in_direction_with_offset(direction, 1)
    }

    /// Return the neighbour in the given direction.
    pub fn get_neighbour_in_direction(&self, direction: &Direction) -> (r: Neighbour)
        requires
            can_step(*self, *direction, 1),
        ensures
            r == neighbour_at(*self, *direction),
    {
        Neighbour::new(self.neighbour_position(direction), *direction)
    }

    /// Return the four neighbours in the order up, down, left, right.
    pub fn get_neighbours(&self) -> (r: Vec<Neighbour>)
        requires
            has_all_neighbours(*self),
        ensures
            r@ == all_neighbours(*self),
    {
        let mut v: Vec<Neighbour> = Vec::new();
        v.push(self.get_neighbour_in_direction(&Direction::Up));
        v.push(self.get_neighbour_in_direction(&Direction::Down));
        v.push(self.get_neighbour_in_direction(&Direction::Left));
        v.push(self.get_neighbour_in_direction(&Direction::Right));
        v
    }

    /// Return the entrance of a tunnel that opens in the given direction: the field next to the
    /// tunnel on the other side.
    pub fn tunnel_entrance_position(&self, opening_direction: &Direction) -> (r: Position)
        requires
            can_step(*self, opposite_of(*opening_direction), 1),
        ensures
            r == stepped(*self, opposite_of(*opening_direction), 1),
    {
        self.neighbour_position(&opening_direction.opposite())
    }

    /// Return the neighbour behind an entity moving in the given direction: the neighbour in
    /// the opposite direction, reached by moving in the opposite direction.
    pub fn neighbour_behind(&self, direction: &Direction) -> (r: Neighbour)
        requires
            has_all_neighbours(*self),
        ensures
            r == neighbour_at(*self, opposite_of(*direction)),
    {
        self.get_neighbour_in_direction(&direction.opposite())
    }

    /// Return the position from the given ones with the smallest distance to this one. On a tie,
    /// the first such position is returned.
    pub fn get_nearest_position_from(&self, positions: &[Position]) -> (r: Position)
        requires
            positions@.len() > 0,
        ensures
            exists|i: int| is_first_nearest(positions@, *self, i) && r == positions@[i],
    {
        let mut best: usize = 0;
        let mut best_distance = self.distance_to(&positions[0]);
        let mut i: usize = 1;
        while i < positions.len()
            invariant
                1 <= i <= positions@.len(),
                best < i,
                best_distance == sq_distance(*self, positions@[best as int]),
                forall|j: int| 0 <= j < i ==> sq_distance(*self, positions@[best as int]) <= sq_distance(*self, #[trigger] positions@[j]),
                forall|j: int| 0 <= j < best ==> sq_distance(*self, positions@[best as int]) < sq_distance(*self, #[trigger] positions@[j]),
            decreases positions@.len() - i,
        {
            let d = self.distance_to(&positions[i]);
            if d < best_distance {
                best = i;
                best_distance = d;
            }
            i = i + 1;
        }
        assert(is_first_nearest(positions@, *self, best as int));
        positions[best]
    }
}

/// Turning around twice faces the same direction again.
pub proof fn lemma_opposite_is_involutive(d: Direction)
    ensures
        opposite_of(opposite_of(d)) == d,
        opposite_of(d) != d,
{
}

/// Four quarter turns to the left face the first direction again, and two face the opposite
/// one.
pub proof fn lemma_left_turns(d: Direction)
    ensures
        rotated_left(rotated_left(d)) == opposite_of(d),
        rotated_left(rotated_left(rotated_left(rotated_left(d)))) == d,
{
}

/// The field behind the neighbour in a direction is the field one started from.
pub proof fn lemma_step_back(p: Position, d: Direction)
    requires
        can_step(p, d, 1),
    ensures
        can_step(stepped(p, d, 1), opposite_of(d), 1),
        stepped(stepped(p, d, 1), opposite_of(d), 1) == p,
{
}

} // verus!

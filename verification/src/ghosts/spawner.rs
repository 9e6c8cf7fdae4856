use vstd::prelude::*;

use crate::common::{Direction, Position};
use crate::ghosts::{GhostKind, State, Target};
use crate::map::ghost_house::GhostSpawn;
use crate::map::field_board::FieldBoard;
use crate::map::pacmap::FieldType;

verus! {

/// The positions of the map's ghost spawn fields.
pub open spec fn spawn_fields(m: Map<Position, FieldType>) -> Set<Position> {
    Set::new(|p: Position| m.contains_key(p) && m[p] == FieldType::GhostSpawn)
}

/// The ghosts in the order they take the spawn fields.
pub open spec fn ghost_order() -> Seq<GhostKind> {
    seq![GhostKind::Blinky, GhostKind::Pinky, GhostKind::Inky, GhostKind::Clyde]
}

/// Return where each ghost spawns: blinky, pinky, inky and clyde take four different spawn
/// fields of the map.
pub fn spawn(board: &FieldBoard) -> (r: Vec<(Position, GhostKind)>)
    requires
        spawn_fields(board.position_type_map@).len() >= 4,
    ensures
        r@.len() == 4,
        forall|k: int| 0 <= k < 4 ==> (#[trigger] r@[k]).1 == ghost_order()[k],
        forall|k: int| 0 <= k < 4 ==> spawn_fields(board.position_type_map@).contains((#[trigger] r@[k]).0),
        forall|k: int, l: int| 0 <= k < l < 4 ==> r@[k].0 != r@[l].0,
{
    let spawn_positions = board.positions_of_type(FieldType::GhostSpawn);
    proof {
        assert(spawn_positions@.to_set() == spawn_fields(board.position_type_map@));
        spawn_positions@.unique_seq_to_set();
    }
    let mut spawns: Vec<(Position, GhostKind)> = Vec::new();
    spawns.push((spawn_positions[0], GhostKind::Blinky));
    spawns.push((spawn_positions[1], GhostKind::Pinky));
    spawns.push((spawn_positions[2], GhostKind::Inky));
    spawns.push((spawn_positions[3], GhostKind::Clyde));
    proof {
        assert forall|k: int| 0 <= k < 4 implies spawn_fields(board.position_type_map@).contains((#[trigger] spawns@[k]).0) by {
            assert(spawn_positions@.contains(spawn_positions@[k]));
        }
    }
    spawns
}

/// What a ghost starts with when it spawns: which ghost it is, the direction of its spawn, no
/// target yet and the state Spawned. Its place is the spawn's, its speed and looks are set on the
/// screen.
#[derive(Copy, Clone, Debug, PartialEq, Eq)]
pub struct NewGhost {
    pub kind: GhostKind,
    pub direction: Direction,
    pub target: Target,
    pub state: State,
}

/// Return what a ghost spawning at the given spawn starts with.
pub fn spawn_ghost(spawn: &GhostSpawn) -> (r: NewGhost)
    ensures
        r.kind == spawn.kind,
        r.direction == spawn.spawn_direction,
        r.target.target is None,
        r.state == State::Spawned,
{
    NewGhost { kind: spawn.kind, direction: spawn.spawn_direction, target: Target::new(), state: State::Spawned }
}

} // verus!

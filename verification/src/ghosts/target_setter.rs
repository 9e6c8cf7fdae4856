use vstd::prelude::*;

use crate::common::{Movement, Position};
use crate::ghosts::target_set_strategy::{
    has_field_of_type, nearest_neighbour, nearest_neighbour_of, open_candidates, open_neighbours, scatter_choice,
    spawn_exit_candidates, spawned_choice, ScatterStrategy, SpawnedStrategy, TargetSetStrategy,
};
use crate::ghosts::target::Random;
use crate::ghosts::{GhostKind, State, Target};
use crate::map::field_board::{FieldBoard, Neighbour};
use crate::map::pacmap::FieldType;

verus! {

/// The first element of a sequence of neighbours, if it has one.
pub open spec fn first_of(s: Seq<Neighbour>) -> Option<Neighbour> {
    if s.len() == 0 {
        None
    } else {
        Some(s[0])
    }
}

/// Whether `r` is a neighbour a ghost in the given state may choose as its next target.
///
/// A ghost leaving the house heads for a nearest house wall, a scattering ghost for its corner,
/// a chasing ghost for pacman; a frightened ghost takes the first field it may step onto. An
/// eaten ghost chooses nothing here.
pub open spec fn next_target_choice(
    m: Map<Position, FieldType>,
    p: Position,
    movement: Movement,
    state: State,
    kind: GhostKind,
    pacman: Position,
    r: Option<Neighbour>,
) -> bool {
    match state {
        State::Spawned => spawned_choice(m, p, movement, r),
        State::Scatter => scatter_choice(m, p, movement, kind, r),
        State::Chase => r == nearest_neighbour_of(open_candidates(m, p, movement), pacman),
        State::Frightened => r == first_of(open_candidates(m, p, movement)),
        State::Eaten => r is None,
    }
}

/// Whether a ghost in the given state finds a next target: the board holds what it heads for and
/// there is a field it may step onto.
pub open spec fn finds_target(
    m: Map<Position, FieldType>,
    p: Position,
    movement: Movement,
    state: State,
    kind: GhostKind,
) -> bool {
    match state {
        State::Spawned => m.contains_key(p) && has_field_of_type(m, FieldType::GhostWall)
            && spawn_exit_candidates(m, p, movement).len() > 0,
        State::Scatter => has_field_of_type(m, FieldType::GhostCorner(kind)) && open_candidates(
            m,
            p,
            movement,
        ).len() > 0,
        State::Chase | State::Frightened => open_candidates(m, p, movement).len() > 0,
        State::Eaten => true,
    }
}

/// Sets the next target for a ghost.
pub struct TargetSetter<'a> {
    pub board: &'a FieldBoard,
    pub ghost_position: &'a Position,
    pub movement: &'a mut Movement,
    pub current_target: &'a mut Target,
    pub state: &'a State,
    pub kind: &'a GhostKind,
    pub pacman_position: &'a Position,
}

impl<'a> TargetSetter<'a> {
    /// The ghost's movement as the setter sees it now.
    pub open spec fn moving(&self) -> Movement {
        *self.movement
    }

    /// The ghost's target as the setter sees it now.
    pub open spec fn aim(&self) -> Target {
        *self.current_target
    }

    pub fn new(
        board: &'a FieldBoard,
        ghost_position: &'a Position,
        movement: &'a mut Movement,
        current_target: &'a mut Target,
        state: &'a State,
        kind: &'a GhostKind,
        pacman_position: &'a Position,
    ) -> (r: Self)
        ensures
            r.board == board,
            r.ghost_position == ghost_position,
            r.moving() == *old(movement),
            r.aim() == *old(current_target),
            r.state == state,
            r.kind == kind,
            r.pacman_position == pacman_position,
    {
        TargetSetter { board, ghost_position, movement, current_target, state, kind, pacman_position }
    }

    /// Give the ghost a new target and movement, unless it already has a target or is eaten.
    pub fn set_target(&mut self)
        requires
            old(self).aim().target is None ==> finds_target(
                old(self).board.position_type_map@,
                *old(self).ghost_position,
                old(self).moving(),
                *old(self).state,
                *old(self).kind,
            ),
        ensures
            old(self).aim().target is Some || *old(self).state == State::Eaten ==> {
                &&& final(self).moving() == old(self).moving()
                &&& final(self).aim() == old(self).aim()
            },
            old(self).aim().target is None && *old(self).state != State::Eaten ==> exists|n: Neighbour|
                {
                    &&& next_target_choice(
                        old(self).board.position_type_map@,
                        *old(self).ghost_position,
                        old(self).moving(),
                        *old(self).state,
                        *old(self).kind,
                        *old(self).pacman_position,
                        Some(n),
                    )
                    &&& final(self).aim().target == Some(n.position)
                    &&& final(self).moving() == Movement::Moving(n.direction)
                },
    {
        if self.current_target.is_set() {
            return;
        }
        let next_target_neighbour = match self.state {
            State::Spawned => self.determine_spawned_target_neighbour(),
            State::Scatter => self.determine_scatter_target_neighbour(),
            State::Chase => self.determine_chase_target_neighbour(),
            State::Frightened => self.determine_frightened_target_neighbour(),
            _ => return ,
        };
        match next_target_neighbour {
            Some(neighbour) => {
                self.current_target.set_to(neighbour.position);
                *self.movement = Movement::Moving(neighbour.direction);
                assert(self.aim().target == Some(neighbour.position));
                assert(self.moving() == Movement::Moving(neighbour.direction));
                assert(next_target_choice(
                    old(self).board.position_type_map@,
                    *old(self).ghost_position,
                    old(self).moving(),
                    *old(self).state,
                    *old(self).kind,
                    *old(self).pacman_position,
                    Some(neighbour),
                ));
            },
            None => vstd::pervasive::unreached(),
        }
    }

    fn determine_spawned_target_neighbour(&self) -> (r: Option<Neighbour>)
        requires
            *self.state == State::Spawned,
            finds_target(self.board.position_type_map@, *self.ghost_position, self.moving(), *self.state, *self.kind),
        ensures
            r is Some,
            next_target_choice(
                self.board.position_type_map@,
                *self.ghost_position,
                self.moving(),
                *self.state,
                *self.kind,
                *self.pacman_position,
                r,
            ),
    {
        let strategy = SpawnedStrategy::new(self.board, self.ghost_position, *self.movement);
        let r = strategy.get_next_target_neighbour();
        proof {
            let m = self.board.position_type_map@;
            let w = choose|w: Position|
                crate::ghosts::target_set_strategy::is_nearest_of_type(m, *self.ghost_position, FieldType::GhostWall, w)
                    && r == nearest_neighbour_of(spawn_exit_candidates(m, *self.ghost_position, self.moving()), w);
        }
        r
    }

    fn determine_scatter_target_neighbour(&self) -> (r: Option<Neighbour>)
        requires
            *self.state == State::Scatter,
            finds_target(self.board.position_type_map@, *self.ghost_position, self.moving(), *self.state, *self.kind),
        ensures
            r is Some,
            next_target_choice(
                self.board.position_type_map@,
                *self.ghost_position,
                self.moving(),
                *self.state,
                *self.kind,
                *self.pacman_position,
                r,
            ),
    {
        let strategy = ScatterStrategy::new(self.board, self.ghost_position, *self.movement, self.kind);
        strategy.get_next_target_neighbour()
    }

    fn determine_chase_target_neighbour(&self) -> (r: Option<Neighbour>)
        ensures
            r == nearest_neighbour_of(
                open_candidates(self.board.position_type_map@, *self.ghost_position, self.moving()),
                *self.pacman_position,
            ),
    {
        match self.kind {
            GhostKind::Blinky => self.get_blinky_target(),
            _ => self.get_blinky_target(),
        }
    }

    fn get_blinky_target(&self) -> (r: Option<Neighbour>)
        ensures
            r == nearest_neighbour_of(
                open_candidates(self.board.position_type_map@, *self.ghost_position, self.moving()),
                *self.pacman_position,
            ),
    {
        let candidates = open_neighbours(self.board, self.ghost_position, self.movement);
        nearest_neighbour(self.pacman_position, &candidates)
    }

    fn determine_frightened_target_neighbour(&self) -> (r: Option<Neighbour>)
        ensures
            r == first_of(open_candidates(self.board.position_type_map@, *self.ghost_position, self.moving())),
    {
        let possible_neighbours = open_neighbours(self.board, self.ghost_position, self.movement);
        match possible_neighbours.len() {
            0 => None,
            1 => Some(possible_neighbours[0]),
            _ => Some(possible_neighbours[0]),
        }
    }
}

/// Return the neighbour a frightened ghost walks to: none when it may step nowhere, the only one
/// it may step onto, or a random one of them.
pub fn determine_frightened_target(board: &FieldBoard, random: &Random, position: &Position, movement: &Movement) -> (r:
    Option<Neighbour>)
    ensures
        open_candidates(board.position_type_map@, *position, *movement).len() == 0 ==> r is None,
        open_candidates(board.position_type_map@, *position, *movement).len() == 1 ==> r == Some(
            open_candidates(board.position_type_map@, *position, *movement)[0],
        ),
        open_candidates(board.position_type_map@, *position, *movement).len() > 1 ==> exists|i: int|
            0 <= i < open_candidates(board.position_type_map@, *position, *movement).len() && r == Some(
                #[trigger] open_candidates(board.position_type_map@, *position, *movement)[i],
            ),
{
    let possible_neighbours = open_neighbours(board, position, movement);
    match possible_neighbours.len() {
        0 => None,
        1 => Some(possible_neighbours[0]),
        len => {
            let i = random.zero_to(len);
            Some(possible_neighbours[i])
        },
    }
}

/// Give a ghost without a target the chosen neighbour as target and walk towards it; a ghost
/// that has a target keeps it.
pub fn update_target(next_target_neighbour: Option<Neighbour>, target: &mut Target, movement: &mut Movement)
    requires
        old(target).target is None ==> next_target_neighbour is Some,
    ensures
        old(target).target is None ==> {
            &&& final(target).target == Some(next_target_neighbour->0.position)
            &&& *final(movement) == Movement::Moving(next_target_neighbour->0.direction)
        },
        old(target).target is Some ==> *final(target) == *old(target) && *final(movement) == *old(movement),
{
    if !target.is_set() {
        match next_target_neighbour {
            Some(neighbour) => {
                target.set_to(neighbour.position);
                *movement = Movement::Moving(neighbour.direction);
            },
            None => vstd::pervasive::unreached(),
        }
    }
}

} // verus!

use vstd::prelude::*;

use crate::common::{can_step, opposite_of, rotated_left, stepped, Direction, Position};
use crate::ghosts::{State, Target};
use crate::map::field_board::FieldBoard;
use crate::map::pacmap::FieldType;
use crate::schedule::{phase_state, phases_after_tick, timer_ticked, Phase, Schedule, Timer, NANOS_PER_SECOND};

verus! {

/// Whether a ghost in this state follows its schedule.
pub open spec fn follows_schedule(state: State) -> bool {
    state == State::Chase || state == State::Scatter
}

/// Sets the next state of a ghost from its schedule.
pub struct StateSetter<'a> {
    pub state: &'a mut State,
    pub position: &'a Position,
    pub schedule: &'a mut Schedule,
    pub board: &'a FieldBoard,
    pub elapsed_time: u64,
}

impl<'a> StateSetter<'a> {
    /// The ghost's state as the setter sees it now.
    pub open spec fn current(&self) -> State {
        *self.state
    }

    /// The ghost's schedule as the setter sees it now.
    pub open spec fn phases(&self) -> Seq<Phase> {
        self.schedule.phases@
    }

    /// Whether the ghost moves on in its schedule: it follows it, or it just left the house and
    /// stands on the house wall.
    pub open spec fn moves_on(&self) -> bool {
        ||| follows_schedule(self.current())
        ||| (self.current() == State::Spawned && self.board.position_type_map@[*self.position] == FieldType::GhostWall)
    }

    pub fn new(
        state: &'a mut State,
        position: &'a Position,
        schedule: &'a mut Schedule,
        board: &'a FieldBoard,
        elapsed_time: u64,
    ) -> (r: Self)
        ensures
            r.current() == *old(state),
            r.phases() == old(schedule).phases@,
            r.position == position,
            r.board == board,
            r.elapsed_time == elapsed_time,
    {
        StateSetter { state, position, schedule, board, elapsed_time }
    }

    /// Let the ghost's schedule go on and take over its state, unless the ghost is frightened,
    /// eaten, or still inside the house.
    pub fn set_next_state(&mut self)
        requires
            old(self).phases().len() > 0,
            old(self).current() == State::Spawned ==> old(self).board.position_type_map@.contains_key(
                *old(self).position,
            ),
        ensures
            final(self).phases().len() > 0,
            old(self).moves_on() ==> {
                &&& final(self).phases() == phases_after_tick(old(self).phases(), old(self).elapsed_time)
                &&& final(self).current() == phase_state(final(self).phases()[0])
            },
            !old(self).moves_on() ==> final(self).phases() == old(self).phases() && final(self).current()
                == old(self).current(),
    {
        match *self.state {
            State::Frightened | State::Eaten => return ,
            State::Spawned => {
                if *self.board.type_of_position(self.position) == FieldType::GhostWall {
                    self.update_and_set_state()
                }
            },
            _ => self.update_and_set_state(),
        }
    }

    fn update_and_set_state(&mut self)
        requires
            old(self).phases().len() > 0,
        ensures
            final(self).phases() == phases_after_tick(old(self).phases(), old(self).elapsed_time),
            final(self).phases().len() > 0,
            final(self).current() == phase_state(final(self).phases()[0]),
            final(self).position == old(self).position,
            final(self).board == old(self).board,
            final(self).elapsed_time == old(self).elapsed_time,
    {
        *self.state = self.schedule.state_after_tick(self.elapsed_time)
    }
}

/// A ghost that just left the house takes on the state of its schedule once it stands in front of
/// the entrance, and turns to the right of the direction the entrance faces.
pub fn update_spawned_state(
    state: &mut State,
    direction: &mut Direction,
    in_front_of_entrance: bool,
    schedule_state: State,
    entrance_direction: Direction,
)
    ensures
        *old(state) == State::Spawned && in_front_of_entrance ==> *final(state) == schedule_state && *final(direction)
            == opposite_of(rotated_left(entrance_direction)),
        !(*old(state) == State::Spawned && in_front_of_entrance) ==> *final(state) == *old(state) && *final(direction)
            == *old(direction),
{
    if *state == State::Spawned && in_front_of_entrance {
        *state = schedule_state;
        *direction = entrance_direction.rotate_left().opposite();
    }
}

/// The field a ghost walks back to when it turns around: the field behind its target, or behind
/// the field it stands on when it has no target.
pub open spec fn way_back(target: Target, direction: Direction, position: Position) -> Position {
    let from = match target.target {
        Some(t) => t,
        None => position,
    };
    stepped(from, opposite_of(direction), 1)
}

/// Whether the field a ghost walks back to fits the coordinate type.
pub open spec fn can_turn_back(target: Target, direction: Direction, position: Position) -> bool {
    let from = match target.target {
        Some(t) => t,
        None => position,
    };
    can_step(from, opposite_of(direction), 1)
}

/// Turn the ghost around and let it walk back to the field it came from.
pub fn turn_back(direction: &mut Direction, target: &mut Target, position: Position)
    requires
        can_turn_back(*old(target), *old(direction), position),
    ensures
        *final(direction) == opposite_of(*old(direction)),
        final(target).target == Some(way_back(*old(target), *old(direction), position)),
{
    let target_position = match target.get_position_opt() {
        Some(t) => *t,
        None => position,
    };
    let coordinates_ghost_came_from = target_position.neighbour_position(&direction.opposite());
    direction.reverse();
    target.set_to(coordinates_ghost_came_from);
}

/// When the schedule switches between chase and scatter, a ghost in one of these states takes on
/// the new state and turns around.
pub fn update_chase_and_scatter_state(
    state: &mut State,
    direction: &mut Direction,
    target: &mut Target,
    position: Position,
    new_state: State,
)
    requires
        follows_schedule(*old(state)) ==> can_turn_back(*old(target), *old(direction), position),
    ensures
        follows_schedule(*old(state)) ==> {
            &&& *final(state) == new_state
            &&& *final(direction) == opposite_of(*old(direction))
            &&& final(target).target == Some(way_back(*old(target), *old(direction), position))
        },
        !follows_schedule(*old(state)) ==> *final(state) == *old(state) && *final(direction) == *old(direction)
            && *final(target) == *old(target),
{
    match *state {
        State::Scatter | State::Chase => {
            *state = new_state;
            turn_back(direction, target, position);
        },
        _ => {},
    }
}

/// When pacman's energizer wears off, a frightened ghost takes on the state of its schedule.
pub fn update_frightened_state(state: &mut State, schedule_state: State)
    ensures
        *old(state) == State::Frightened ==> *final(state) == schedule_state,
        *old(state) != State::Frightened ==> *final(state) == *old(state),
{
    if *state == State::Frightened {
        *state = schedule_state;
    }
}

/// An eaten ghost is spawned again once it reached its respawn field.
pub fn update_eaten_state(state: &mut State, at_respawn: bool)
    ensures
        *old(state) == State::Eaten && at_respawn ==> *final(state) == State::Spawned,
        !(*old(state) == State::Eaten && at_respawn) ==> *final(state) == *old(state),
{
    if *state == State::Eaten && at_respawn {
        *state = State::Spawned;
    }
}

/// When pacman eats an energizer, a chasing or scattering ghost becomes frightened and turns
/// around.
pub fn set_frightened_when_pacman_ate_energizer(
    state: &mut State,
    direction: &mut Direction,
    target: &mut Target,
    position: Position,
)
    requires
        follows_schedule(*old(state)) ==> can_turn_back(*old(target), *old(direction), position),
    ensures
        follows_schedule(*old(state)) ==> {
            &&& *final(state) == State::Frightened
            &&& *final(direction) == opposite_of(*old(direction))
            &&& final(target).target == Some(way_back(*old(target), *old(direction), position))
        },
        !follows_schedule(*old(state)) ==> *final(state) == *old(state) && *final(direction) == *old(direction)
            && *final(target) == *old(target),
{
    match *state {
        State::Scatter | State::Chase => {
            *state = State::Frightened;
            turn_back(direction, target, position);
        },
        _ => {},
    }
}

/// A ghost that pacman runs into gets eaten if it is frightened.
pub fn set_eaten_when_hit_by_pacman(state: &mut State)
    ensures
        *old(state) == State::Frightened ==> *final(state) == State::Eaten,
        *old(state) != State::Frightened ==> *final(state) == *old(state),
{
    if *state == State::Frightened {
        *state = State::Eaten;
    }
}

/// How long ghosts stay frightened after pacman ate an energizer: five seconds.
pub struct FrightenedTimer {
    pub timer: Timer,
}

impl FrightenedTimer {
    pub fn new() -> (r: Self)
        ensures
            r.timer == (Timer { duration: 5_000_000_000u64, elapsed: 0, finished: false }),
    {
        FrightenedTimer { timer: Timer::from_nanos(5 * NANOS_PER_SECOND) }
    }

    /// Start counting from zero again.
    pub fn start(&mut self)
        ensures
            final(self).timer == (Timer { duration: old(self).timer.duration, elapsed: 0, finished: false }),
    {
        self.timer = Timer::from_nanos(self.timer.duration);
    }

    pub fn tick(&mut self, delta: u64)
        ensures
            final(self).timer == timer_ticked(old(self).timer, delta),
    {
        self.timer.tick(delta);
    }

    pub fn is_finished(&self) -> (r: bool)
        ensures
            r == self.timer.finished,
    {
        self.timer.finished()
    }
}

} // verus!

use vstd::prelude::*;

use crate::common::Direction;
use crate::ghosts::State;

verus! {

/// The animation a ghost shows.
#[derive(Copy, Clone, Debug, PartialEq, Eq, Structural)]
pub enum GhostAnimation {
    Normal(Direction),
    Eaten(Direction),
    Frightened,
    FrightenedBlinking,
}

/// How long before the energizer wears off a frightened ghost starts blinking: two seconds, in
/// nanoseconds.
pub const BLINKING_TIME: u64 = 2_000_000_000;

/// The animation of a ghost: frightened ghosts blink when the energizer almost wore off, eaten
/// ghosts show their eyes looking where they go, others their body looking where they go.
pub open spec fn ghost_animation(state: State, direction: Direction, energizer_remaining: Option<u64>) -> GhostAnimation {
    match state {
        State::Frightened => match energizer_remaining {
            Some(t) => if t < BLINKING_TIME {
                GhostAnimation::FrightenedBlinking
            } else {
                GhostAnimation::Frightened
            },
            None => GhostAnimation::Frightened,
        },
        State::Eaten => GhostAnimation::Eaten(direction),
        _ => GhostAnimation::Normal(direction),
    }
}

/// Return the animation a ghost shows, given the time the energizer still works, if one does.
pub fn update_ghost_appearance(state: &State, direction: &Direction, energizer_remaining: Option<u64>) -> (r: GhostAnimation)
    ensures
        r == ghost_animation(*state, *direction, energizer_remaining),
{
    match state {
        State::Frightened => match energizer_remaining {
            Some(t) => {
                if t < BLINKING_TIME {
                    GhostAnimation::FrightenedBlinking
                } else {
                    GhostAnimation::Frightened
                }
            },
            None => GhostAnimation::Frightened,
        },
        State::Eaten => GhostAnimation::Eaten(*direction),
        _ => GhostAnimation::Normal(*direction),
    }
}

} // verus!

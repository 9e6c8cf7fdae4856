use vstd::prelude::*;

use crate::ghosts::State;

verus! {

/// Which of the speed factors of the current level applies to an entity.
#[derive(Copy, Clone, Debug, PartialEq, Eq, Structural)]
pub enum SpeedKind {
    /// Twice the base speed, for an eaten ghost returning home.
    Eaten,
    Tunnel,
    Frightened,
    /// Blinky's second speed bonus, when few dots are left.
    Elroy2,
    /// Blinky's first speed bonus.
    Elroy1,
    Normal,
}

/// The speed factor that applies to a ghost.
pub open spec fn ghost_speed_kind(state: State, in_tunnel: bool) -> SpeedKind {
    if state == State::Eaten {
        SpeedKind::Eaten
    } else if in_tunnel {
        SpeedKind::Tunnel
    } else if state == State::Frightened {
        SpeedKind::Frightened
    } else {
        SpeedKind::Normal
    }
}

/// The speed factor that applies to blinky, who speeds up when few dots are left.
pub open spec fn blinky_speed_kind(
    state: State,
    in_tunnel: bool,
    remaining_dots: usize,
    elroy_1_dots_left: usize,
    elroy_2_dots_left: usize,
) -> SpeedKind {
    if state == State::Eaten {
        SpeedKind::Eaten
    } else if in_tunnel {
        SpeedKind::Tunnel
    } else if state == State::Frightened {
        SpeedKind::Frightened
    } else if remaining_dots <= elroy_2_dots_left {
        SpeedKind::Elroy2
    } else if remaining_dots <= elroy_1_dots_left {
        SpeedKind::Elroy1
    } else {
        SpeedKind::Normal
    }
}

/// Return the speed factor that applies to a ghost other than blinky.
pub fn update_ghost_speed(state: &State, in_tunnel: bool) -> (r: SpeedKind)
    ensures
        r == ghost_speed_kind(*state, in_tunnel),
{
    if *state == State::Eaten {
        SpeedKind::Eaten
    } else if in_tunnel {
        SpeedKind::Tunnel
    } else if *state == State::Frightened {
        SpeedKind::Frightened
    } else {
        SpeedKind::Normal
    }
}

/// Return the speed factor that applies to blinky.
pub fn update_blinky_speed(
    state: &State,
    in_tunnel: bool,
    remaining_dots: usize,
    elroy_1_dots_left: usize,
    elroy_2_dots_left: usize,
) -> (r: SpeedKind)
    ensures
        r == blinky_speed_kind(*state, in_tunnel, remaining_dots, elroy_1_dots_left, elroy_2_dots_left),
        *state == State::Eaten ==> r == SpeedKind::Eaten,
        *state != State::Eaten && in_tunnel ==> r == SpeedKind::Tunnel,
        *state == State::Frightened && !in_tunnel ==> r == SpeedKind::Frightened,
        *state != State::Eaten && *state != State::Frightened && !in_tunnel ==> {
            &&& remaining_dots <= elroy_2_dots_left ==> r == SpeedKind::Elroy2
            &&& elroy_2_dots_left < remaining_dots <= elroy_1_dots_left ==> r == SpeedKind::Elroy1
            &&& remaining_dots > elroy_1_dots_left && remaining_dots > elroy_2_dots_left ==> r == SpeedKind::Normal
        },
{
    if *state == State::Eaten {
        SpeedKind::Eaten
    } else if in_tunnel {
        SpeedKind::Tunnel
    } else if *state == State::Frightened {
        SpeedKind::Frightened
    } else if remaining_dots <= elroy_2_dots_left {
        SpeedKind::Elroy2
    } else if remaining_dots <= elroy_1_dots_left {
        SpeedKind::Elroy1
    } else {
        SpeedKind::Normal
    }
}

/// Return the speed factor that applies to pacman: the frightened one while an energizer works.
pub fn update_pacman_speed(energizer_active: bool) -> (r: SpeedKind)
    ensures
        r == (if energizer_active {
            SpeedKind::Frightened
        } else {
            SpeedKind::Normal
        }),
{
    if energizer_active {
        SpeedKind::Frightened
    } else {
        SpeedKind::Normal
    }
}

/// Blinky moves like any other ghost except when he chases or scatters outside a tunnel.
pub proof fn lemma_blinky_differs_only_by_elroy(
    state: State,
    in_tunnel: bool,
    remaining_dots: usize,
    elroy_1_dots_left: usize,
    elroy_2_dots_left: usize,
)
    ensures
        blinky_speed_kind(state, in_tunnel, remaining_dots, elroy_1_dots_left, elroy_2_dots_left) != ghost_speed_kind(
            state,
            in_tunnel,
        ) ==> ghost_speed_kind(state, in_tunnel) == SpeedKind::Normal,
        remaining_dots > elroy_1_dots_left && remaining_dots > elroy_2_dots_left ==> blinky_speed_kind(
            state,
            in_tunnel,
            remaining_dots,
            elroy_1_dots_left,
            elroy_2_dots_left,
        ) == ghost_speed_kind(state, in_tunnel),
{
}

/// Blinky's speed-ups depend on the dots left alone, not on whether he scatters, chases or has
/// just spawned: outside a tunnel, and neither eaten nor frightened, he gets the second bonus
/// once at most `elroy_2_dots_left` dots are left, else the first once at most
/// `elroy_1_dots_left` are left.
pub proof fn lemma_elroy_depends_on_dots_alone(
    state: State,
    remaining_dots: usize,
    elroy_1_dots_left: usize,
    elroy_2_dots_left: usize,
)
    requires
        state != State::Eaten,
        state != State::Frightened,
    ensures
        remaining_dots <= elroy_2_dots_left ==> blinky_speed_kind(state, false, remaining_dots, elroy_1_dots_left, elroy_2_dots_left)
            == SpeedKind::Elroy2,
        elroy_2_dots_left < remaining_dots <= elroy_1_dots_left ==> blinky_speed_kind(
            state,
            false,
            remaining_dots,
            elroy_1_dots_left,
            elroy_2_dots_left,
        ) == SpeedKind::Elroy1,
        blinky_speed_kind(state, false, remaining_dots, elroy_1_dots_left, elroy_2_dots_left) == blinky_speed_kind(
            State::Chase,
            false,
            remaining_dots,
            elroy_1_dots_left,
            elroy_2_dots_left,
        ),
        blinky_speed_kind(State::Scatter, false, remaining_dots, elroy_1_dots_left, elroy_2_dots_left) == blinky_speed_kind(
            State::Chase,
            false,
            remaining_dots,
            elroy_1_dots_left,
            elroy_2_dots_left,
        ),
{
}

} // verus!

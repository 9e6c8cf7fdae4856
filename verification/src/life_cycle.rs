use vstd::prelude::*;

use crate::schedule::{timer_ticked, Timer, NANOS_PER_SECOND};

verus! {

/// The phases of a game.
#[derive(Copy, Clone, Debug, PartialEq, Eq, Hash, Structural)]
pub enum LifeCycle {
    Start,
    Ready,
    Running,
    PacmanHit,
    PacmanDying,
    PacmanDead,
    GameOver,
    LevelTransition,
}

/// What happens to the game that may move it into another phase.
#[derive(Copy, Clone, Debug, PartialEq, Eq, Structural)]
pub enum LifeCycleEvent {
    /// The timer of a waiting phase ran out; `lives_left` is how many lives pacman still has.
    TimerFinished { lives_left: usize },
    /// A ghost hit pacman.
    PacmanWasHit,
    /// Pacman's dying animation is over.
    PacmanIsDead,
}

/// The phases that wait for a while before they end by themselves.
pub open spec fn waits(state: LifeCycle) -> bool {
    state == LifeCycle::Start || state == LifeCycle::Ready || state == LifeCycle::PacmanHit
        || state == LifeCycle::PacmanDead
}

/// The phase that follows `state` when `event` happens in it.
pub open spec fn next_life_cycle(state: LifeCycle, event: LifeCycleEvent) -> LifeCycle {
    match (state, event) {
        (LifeCycle::Start, LifeCycleEvent::TimerFinished { .. }) => LifeCycle::Ready,
        (LifeCycle::Ready, LifeCycleEvent::TimerFinished { .. }) => LifeCycle::Running,
        (LifeCycle::PacmanHit, LifeCycleEvent::TimerFinished { .. }) => LifeCycle::PacmanDying,
        (LifeCycle::PacmanDead, LifeCycleEvent::TimerFinished { lives_left }) => if lives_left > 0 {
            LifeCycle::Ready
        } else {
            LifeCycle::GameOver
        },
        (LifeCycle::Running, LifeCycleEvent::PacmanWasHit) => LifeCycle::PacmanHit,
        (LifeCycle::PacmanDying, LifeCycleEvent::PacmanIsDead) => LifeCycle::PacmanDead,
        _ => state,
    }
}

/// The timer a waiting phase starts when it is entered: one second.
pub fn start_state_timer(state: &LifeCycle) -> (r: Option<Timer>)
    ensures
        r is Some <==> waits(*state),
        r is Some ==> r->0 == (Timer { duration: NANOS_PER_SECOND, elapsed: 0, finished: false }),
{
    match state {
        LifeCycle::Start | LifeCycle::Ready | LifeCycle::PacmanHit | LifeCycle::PacmanDead => Some(
            Timer::from_nanos(NANOS_PER_SECOND),
        ),
        _ => None,
    }
}

/// Return the phase that follows when the event happens.
pub fn switch_state(state: &LifeCycle, event: &LifeCycleEvent) -> (r: LifeCycle)
    ensures
        r == next_life_cycle(*state, *event),
{
    match (state, event) {
        (LifeCycle::Start, LifeCycleEvent::TimerFinished { .. }) => LifeCycle::Ready,
        (LifeCycle::Ready, LifeCycleEvent::TimerFinished { .. }) => LifeCycle::Running,
        (LifeCycle::PacmanHit, LifeCycleEvent::TimerFinished { .. }) => LifeCycle::PacmanDying,
        (LifeCycle::PacmanDead, LifeCycleEvent::TimerFinished { lives_left }) => {
            if *lives_left > 0 {
                LifeCycle::Ready
            } else {
                LifeCycle::GameOver
            }
        },
        (LifeCycle::Running, LifeCycleEvent::PacmanWasHit) => LifeCycle::PacmanHit,
        (LifeCycle::PacmanDying, LifeCycleEvent::PacmanIsDead) => LifeCycle::PacmanDead,
        _ => *state,
    }
}

/// The phase that follows `state` when its timer ran out, for the phases that end by their timer
/// alone; every other phase stays as it is.
pub open spec fn timer_successor(state: LifeCycle) -> LifeCycle {
    match state {
        LifeCycle::Start => LifeCycle::Ready,
        LifeCycle::Ready => LifeCycle::Running,
        LifeCycle::PacmanHit => LifeCycle::PacmanDying,
        _ => state,
    }
}

/// Advance the timer of a waiting phase by `delta` nanoseconds, and return the phase that
/// follows when it ran out: Start is followed by Ready, Ready by Running and PacmanHit by
/// PacmanDying. Any other phase stays as it is.
pub fn switch_state_when_state_timer_finished(state: &LifeCycle, state_timer: &mut Timer, delta: u64) -> (r: LifeCycle)
    ensures
        *final(state_timer) == timer_ticked(*old(state_timer), delta),
        final(state_timer).finished ==> r == timer_successor(*state),
        !final(state_timer).finished ==> r == *state,
{
    state_timer.tick(delta);
    if state_timer.finished() {
        match state {
            LifeCycle::Start => LifeCycle::Ready,
            LifeCycle::Ready => LifeCycle::Running,
            LifeCycle::PacmanHit => LifeCycle::PacmanDying,
            _ => *state,
        }
    } else {
        *state
    }
}

/// The phase after pacman died and its timer ran out: Ready while lives are left, else GameOver.
pub open spec fn dead_successor(lives_left: usize) -> LifeCycle {
    if lives_left > 0 {
        LifeCycle::Ready
    } else {
        LifeCycle::GameOver
    }
}

/// Advance the timer of the PacmanDead phase by `delta` nanoseconds, and return the phase that
/// follows: once it ran out, Ready while pacman has lives left and GameOver when he has none;
/// before that, PacmanDead.
pub fn switch_dead_state_when_timer_finished(state_timer: &mut Timer, delta: u64, lives_left: usize) -> (r: LifeCycle)
    ensures
        *final(state_timer) == timer_ticked(*old(state_timer), delta),
        final(state_timer).finished ==> r == dead_successor(lives_left),
        !final(state_timer).finished ==> r == LifeCycle::PacmanDead,
{
    state_timer.tick(delta);
    if state_timer.finished() {
        if lives_left > 0 {
            LifeCycle::Ready
        } else {
            LifeCycle::GameOver
        }
    } else {
        LifeCycle::PacmanDead
    }
}

/// The phases the game goes through by timers alone agree with its state machine: where a timer
/// ends a phase, the two functions give the phase that the event of a finished timer leads to.
pub proof fn lemma_timer_switches_follow_the_state_machine(state: LifeCycle, lives_left: usize)
    ensures
        state != LifeCycle::PacmanDead ==> timer_successor(state) == next_life_cycle(
            state,
            LifeCycleEvent::TimerFinished { lives_left },
        ),
        dead_successor(lives_left) == next_life_cycle(LifeCycle::PacmanDead, LifeCycleEvent::TimerFinished { lives_left }),
        timer_successor(LifeCycle::PacmanDead) == LifeCycle::PacmanDead,
{
}

/// Once over, a game stays over, whatever happens.
pub proof fn lemma_game_over_is_final(event: LifeCycleEvent)
    ensures
        next_life_cycle(LifeCycle::GameOver, event) == LifeCycle::GameOver,
{
}

/// A running game only stops when pacman is hit.
pub proof fn lemma_running_ends_only_by_hit(event: LifeCycleEvent)
    ensures
        next_life_cycle(LifeCycle::Running, event) != LifeCycle::Running <==> event == LifeCycleEvent::PacmanWasHit,
{
}

/// After pacman died, the game goes on exactly when lives are left.
pub proof fn lemma_dead_pacman_continues_with_lives(lives_left: usize)
    ensures
        next_life_cycle(LifeCycle::PacmanDead, LifeCycleEvent::TimerFinished { lives_left }) == (if lives_left > 0 {
            LifeCycle::Ready
        } else {
            LifeCycle::GameOver
        }),
{
}

/// A phase that ends by itself waits for its timer, and any other phase starts none.
pub proof fn lemma_only_waiting_phases_end_by_timer(state: LifeCycle, lives_left: usize)
    ensures
        !waits(state) ==> next_life_cycle(state, LifeCycleEvent::TimerFinished { lives_left }) == state,
        waits(state) ==> next_life_cycle(state, LifeCycleEvent::TimerFinished { lives_left }) != state,
{
}

} // verus!

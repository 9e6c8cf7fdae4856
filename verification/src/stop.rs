use vstd::prelude::*;

use crate::ghosts::State;
use crate::schedule::{timer_ticked, Timer, NANOS_PER_SECOND};

verus! {

/// A pause of an entity, counted down by a timer.
#[derive(Copy, Clone, Debug, PartialEq, Eq)]
pub struct Stop(pub Timer);

impl Stop {
    /// A pause of the given number of nanoseconds.
    pub fn for_nanos(nanos: u64) -> (r: Self)
        ensures
            r.0 == (Timer { duration: nanos, elapsed: 0, finished: false }),
    {
        Stop(Timer::from_nanos(nanos))
    }

    /// Let time pass and return whether the pause is over.
    pub fn tick(&mut self, delta: u64) -> (r: bool)
        ensures
            final(self).0 == timer_ticked(old(self).0, delta),
            r == final(self).0.finished,
    {
        self.0.tick(delta);
        self.0.finished()
    }
}

/// Let time pass for a paused entity and return whether it is no longer stopped.
pub fn update_stop(stop: &mut Stop, delta: u64) -> (no_longer_stopped: bool)
    ensures
        final(stop).0 == timer_ticked(old(stop).0, delta),
        no_longer_stopped == final(stop).0.finished,
{
    stop.tick(delta)
}

/// A playing sound effect. After one second its entity can go, whether or not the sound still
/// plays.
#[derive(Copy, Clone, Debug, PartialEq, Eq)]
pub struct SoundEfect {
    pub timer: Timer,
}

impl SoundEfect {
    /// A new sound effect with a timer of one second.
    pub fn new() -> (r: Self)
        ensures
            r.timer == (Timer { duration: NANOS_PER_SECOND, elapsed: 0, finished: false }),
    {
        SoundEfect { timer: Timer::from_nanos(NANOS_PER_SECOND) }
    }

    pub fn update(&mut self, delta: u64)
        ensures
            final(self).timer == timer_ticked(old(self).timer, delta),
    {
        self.timer.tick(delta);
    }

    pub fn finished(&self) -> (r: bool)
        ensures
            r == self.timer.finished,
    {
        self.timer.finished()
    }
}

/// Let time pass for a sound effect and return whether its entity can go.
pub fn update_sound_effect(sound: &mut SoundEfect, delta: u64) -> (despawn: bool)
    ensures
        final(sound).timer == timer_ticked(old(sound).timer, delta),
        despawn == final(sound).timer.finished,
{
    sound.update(delta);
    sound.finished()
}

/// How long everything pauses when pacman eats a ghost: one second.
pub const GHOST_EATEN_PAUSE: u64 = 1_000_000_000;

/// What the pause after pacman ate a ghost does to one ghost.
#[derive(Copy, Clone, Debug, PartialEq, Eq)]
pub struct GhostPause {
    /// The pause of the ghost.
    pub stop: Stop,
    /// Whether this is the ghost that was eaten; it is hidden during the pause.
    pub eaten_one: bool,
    /// Whether the ghost's animation stops during the pause.
    pub stop_animation: bool,
}

/// Return the pause a ghost gets when pacman eats a ghost: the eaten ghost is hidden, every other
/// ghost stands still and, unless it is eaten itself, stops its animation.
pub fn add_stop_when_ghost_eaten(is_eaten_ghost: bool, state: &State) -> (r: GhostPause)
    ensures
        r.stop.0 == (Timer { duration: GHOST_EATEN_PAUSE, elapsed: 0, finished: false }),
        r.eaten_one == is_eaten_ghost,
        r.stop_animation == (!is_eaten_ghost && *state != State::Eaten),
{
    if is_eaten_ghost {
        GhostPause { stop: Stop::for_nanos(GHOST_EATEN_PAUSE), eaten_one: true, stop_animation: false }
    } else {
        GhostPause { stop: Stop::for_nanos(GHOST_EATEN_PAUSE), eaten_one: false, stop_animation: *state != State::Eaten }
    }
}

/// Return the pause pacman gets when he eats a ghost; he is hidden during it.
pub fn add_ghost_stop_when_ghost_eaten() -> (r: Stop)
    ensures
        r.0 == (Timer { duration: GHOST_EATEN_PAUSE, elapsed: 0, finished: false }),
{
    Stop::for_nanos(GHOST_EATEN_PAUSE)
}

/// Let time pass in a ghost's pause and return whether it ended: then the eaten ghost shows again
/// and the others resume their animation.
pub fn remove_stop_when_timer_ended(pause: &mut GhostPause, delta: u64) -> (ended: bool)
    ensures
        final(pause).stop.0 == timer_ticked(old(pause).stop.0, delta),
        final(pause).eaten_one == old(pause).eaten_one,
        final(pause).stop_animation == old(pause).stop_animation,
        ended == final(pause).stop.0.finished,
{
    pause.stop.tick(delta)
}

/// The sum of the time steps.
pub open spec fn sum_of(deltas: Seq<u64>) -> int
    decreases deltas.len(),
{
    if deltas.len() == 0 {
        0
    } else {
        sum_of(deltas.drop_last()) + deltas.last()
    }
}

/// The timer after each of the time steps passed in turn, as a stop, a sound effect or a pause
/// sees it over successive updates.
pub open spec fn timer_after(t: Timer, deltas: Seq<u64>) -> Timer
    decreases deltas.len(),
{
    if deltas.len() == 0 {
        t
    } else {
        timer_ticked(timer_after(t, deltas.drop_last()), deltas.last())
    }
}

proof fn lemma_fresh_timer_after(duration: u64, deltas: Seq<u64>)
    requires
        deltas.len() > 0,
    ensures
        timer_after(Timer { duration, elapsed: 0, finished: false }, deltas).finished <==> sum_of(deltas) >= duration,
        sum_of(deltas) < duration ==> timer_after(Timer { duration, elapsed: 0, finished: false }, deltas).elapsed
            == sum_of(deltas),
        sum_of(deltas) >= 0,
        timer_after(Timer { duration, elapsed: 0, finished: false }, deltas).duration == duration,
    decreases deltas.len(),
{
    let fresh = Timer { duration, elapsed: 0, finished: false };
    let prev = deltas.drop_last();
    let before = timer_after(fresh, prev);
    if prev.len() > 0 {
        lemma_fresh_timer_after(duration, prev);
    } else {
        assert(before == fresh);
        assert(sum_of(prev) == 0);
    }
    assert(sum_of(deltas) == sum_of(prev) + deltas.last());
    assert(timer_after(fresh, deltas) == timer_ticked(before, deltas.last()));
    let d = deltas.last();
    let after = timer_ticked(before, d);
    if !before.finished {
        assert(before.elapsed == sum_of(prev));
        if before.elapsed + d >= duration {
            assert(after.finished);
        } else {
            assert(after.elapsed == before.elapsed + d);
            assert(!after.finished);
        }
    }
}

/// A fresh timer of a stop, a sound effect or a pause finishes in the first update where the
/// time steps so far add up to its duration: after the first `k` updates it is finished exactly
/// when their steps sum to at least its duration, and before any update it is not.
pub proof fn lemma_timer_ends_when_the_steps_reach_its_duration(duration: u64, deltas: Seq<u64>)
    ensures
        !timer_after(Timer { duration, elapsed: 0, finished: false }, deltas.take(0)).finished,
        forall|k: int|
            1 <= k <= deltas.len() ==> (#[trigger] timer_after(
                Timer { duration, elapsed: 0, finished: false },
                deltas.take(k),
            ).finished <==> sum_of(deltas.take(k)) >= duration),
{
    assert(deltas.take(0).len() == 0);
    assert forall|k: int| 1 <= k <= deltas.len() implies (#[trigger] timer_after(
        Timer { duration, elapsed: 0, finished: false },
        deltas.take(k),
    ).finished <==> sum_of(deltas.take(k)) >= duration) by {
        lemma_fresh_timer_after(duration, deltas.take(k));
    }
}

} // verus!

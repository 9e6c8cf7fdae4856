use vstd::prelude::*;

use crate::common::Position;
use crate::ghosts::State;

verus! {

/// What happens when pacman and a ghost meet.
#[derive(Copy, Clone, Debug, PartialEq, Eq, Structural)]
pub enum HitOutcome {
    /// They are on different fields, or the ghost is eaten or in the house.
    Nothing,
    /// A chasing or scattering ghost hit pacman.
    PacmanHit,
    /// Pacman eats a frightened ghost.
    GhostEaten,
}

/// The outcome of pacman and a ghost being on the given fields.
pub open spec fn hit_outcome(pacman: Position, ghost: Position, state: State) -> HitOutcome {
    if pacman != ghost {
        HitOutcome::Nothing
    } else if state == State::Scatter || state == State::Chase {
        HitOutcome::PacmanHit
    } else if state == State::Frightened {
        HitOutcome::GhostEaten
    } else {
        HitOutcome::Nothing
    }
}

/// Return what happens when pacman and a ghost are on the given fields.
pub fn pacman_hits_ghost(pacman_position: &Position, ghost_position: &Position, state: &State) -> (r: HitOutcome)
    ensures
        r == hit_outcome(*pacman_position, *ghost_position, *state),
{
    if *pacman_position == *ghost_position {
        match state {
            State::Scatter | State::Chase => HitOutcome::PacmanHit,
            State::Frightened => HitOutcome::GhostEaten,
            _ => HitOutcome::Nothing,
        }
    } else {
        HitOutcome::Nothing
    }
}

/// Pacman eats every edible on his field: remove them and return how many there were.
pub fn pacman_eat(pacman_position: &Position, edibles: &mut Vec<Position>) -> (eaten: usize)
    ensures
        final(edibles)@ == old(edibles)@.filter(|p: Position| p != *pacman_position),
        eaten == old(edibles)@.len() - final(edibles)@.len(),
{
    let ghost before = edibles@;
    let ghost keep = |p: Position| p != *pacman_position;
    let mut remaining: Vec<Position> = Vec::new();
    let mut i: usize = 0;
    while i < edibles.len()
        invariant
            0 <= i <= edibles@.len(),
            edibles@ == before,
            keep == (|p: Position| p != *pacman_position),
            remaining@ == before.take(i as int).filter(keep),
            remaining@.len() <= i,
        decreases edibles@.len() - i,
    {
        let p = edibles[i];
        if p != *pacman_position {
            remaining.push(p);
        }
        proof {
            let next = before.take(i + 1);
            assert(next.drop_last() == before.take(i as int));
            assert(next.last() == p);
            reveal(Seq::filter);
        }
        i = i + 1;
    }
    assert(before.take(before.len() as int) == before);
    let eaten = edibles.len() - remaining.len();
    *edibles = remaining;
    eaten
}

/// Pacman and a ghost only interact on the same field, and pacman is only hit by a ghost that
/// hunts him.
pub proof fn lemma_hits_need_same_field(pacman: Position, ghost: Position, state: State)
    ensures
        hit_outcome(pacman, ghost, state) != HitOutcome::Nothing ==> pacman == ghost,
        hit_outcome(pacman, ghost, state) == HitOutcome::PacmanHit ==> (state == State::Scatter || state
            == State::Chase),
        hit_outcome(pacman, ghost, state) == HitOutcome::GhostEaten ==> state == State::Frightened,
{
}

} // verus!

use vstd::arithmetic::power2::{lemma_pow2_strictly_increases, lemma_pow2_unfold, pow2};
use vstd::prelude::*;

verus! {

/// How many points the player has collected so far.
#[derive(Copy, Clone, Debug, PartialEq, Eq, Structural)]
pub struct Score(pub usize);

impl Score {
    pub fn new() -> (r: Score)
        ensures
            r.0 == 0,
    {
        Score(0)
    }

    pub fn add(&mut self, points: usize)
        requires
            old(self).0 + points <= usize::MAX,
        ensures
            final(self).0 == old(self).0 + points,
    {
        self.0 = self.0 + points;
    }
}

/// How many ghosts pacman ate since the last energizer wore off.
#[derive(Copy, Clone, Debug, PartialEq, Eq, Structural)]
pub struct EatenGhostCounter(pub usize);

/// The points for the next eaten ghost: the base points, doubled for every ghost eaten before
/// under the same energizer.
pub open spec fn ghost_points(points_per_ghost: nat, eaten_before: nat) -> nat {
    points_per_ghost * pow2(eaten_before)
}

/// Return the points for eating a ghost after `eaten_before` others.
pub fn points_for_eaten_ghost(points_per_ghost: usize, eaten_before: usize) -> (r: usize)
    requires
        pow2(eaten_before as nat) <= usize::MAX,
        ghost_points(points_per_ghost as nat, eaten_before as nat) <= usize::MAX,
    ensures
        r == ghost_points(points_per_ghost as nat, eaten_before as nat),
{
    let mut factor: usize = 1;
    let mut i: usize = 0;
    assert(pow2(0) == 1) by {
        vstd::arithmetic::power2::lemma2_to64();
    }
    while i < eaten_before
        invariant
            0 <= i <= eaten_before,
            factor == pow2(i as nat),
            pow2(eaten_before as nat) <= usize::MAX,
        decreases eaten_before - i,
    {
        proof {
            lemma_pow2_unfold((i + 1) as nat);
            if i + 1 < eaten_before {
                lemma_pow2_strictly_increases((i + 1) as nat, eaten_before as nat);
            }
        }
        factor = factor * 2;
        i = i + 1;
    }
    points_per_ghost * factor
}

/// Add the points for an eaten ghost and count the ghost.
pub fn add_points_for_eaten_ghost(score: &mut Score, eaten_ghost_counter: &mut EatenGhostCounter, points_per_ghost: usize)
    requires
        pow2(old(eaten_ghost_counter).0 as nat) <= usize::MAX,
        old(score).0 + ghost_points(points_per_ghost as nat, old(eaten_ghost_counter).0 as nat) <= usize::MAX,
        old(eaten_ghost_counter).0 < usize::MAX,
    ensures
        final(score).0 == old(score).0 + ghost_points(points_per_ghost as nat, old(eaten_ghost_counter).0 as nat),
        final(eaten_ghost_counter).0 == old(eaten_ghost_counter).0 + 1,
{
    let points = points_for_eaten_ghost(points_per_ghost, eaten_ghost_counter.0);
    score.add(points);
    eaten_ghost_counter.0 = eaten_ghost_counter.0 + 1;
}

/// When the energizer wears off, the next ghost is worth the base points again.
pub fn reset_eaten_ghost_counter_when_energizer_is_over(eaten_ghost_counter: &mut EatenGhostCounter)
    ensures
        final(eaten_ghost_counter).0 == 0,
{
    eaten_ghost_counter.0 = 0;
}

/// Each ghost eaten under the same energizer is worth twice the one before.
pub proof fn lemma_ghost_points_double(points_per_ghost: nat, eaten_before: nat)
    ensures
        ghost_points(points_per_ghost, eaten_before + 1) == 2 * ghost_points(points_per_ghost, eaten_before),
{
    lemma_pow2_unfold(eaten_before + 1);
    assert(points_per_ghost * (2 * pow2(eaten_before)) == 2 * (points_per_ghost * pow2(eaten_before))) by (nonlinear_arith);
}

} // verus!

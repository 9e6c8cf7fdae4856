use vstd::prelude::*;

use crate::score::Score;

verus! {

/// How many lives pacman has when a game starts.
pub const LIVES: usize = 3;

/// The points between two extra lives.
pub const POINTS_PER_EXTRA_LIFE: usize = 10000;

/// A life of pacman, numbered from zero in the order the lives were given.
#[derive(Copy, Clone, Debug, PartialEq, Eq, Structural)]
pub struct Life(pub usize);

/// The lives numbered `0..n`, in order.
pub open spec fn numbered_lives(n: nat) -> Seq<Life> {
    Seq::new(n, |i: int| Life(i as usize))
}

/// Return the lives of a new game.
pub fn spawn_lives() -> (r: Vec<Life>)
    ensures
        r@ == numbered_lives(LIVES as nat),
{
    let mut lives: Vec<Life> = Vec::new();
    let mut i: usize = 0;
    while i < LIVES
        invariant
            0 <= i <= LIVES,
            lives@ == numbered_lives(i as nat),
        decreases LIVES - i,
    {
        lives.push(Life(i));
        assert(lives@ == numbered_lives((i + 1) as nat));
        i = i + 1;
    }
    lives
}

/// Whether `k` is the index of the last life with the highest number.
pub open spec fn is_last_max(lives: Seq<Life>, k: int) -> bool {
    &&& 0 <= k < lives.len()
    &&& forall|j: int| 0 <= j < lives.len() ==> (#[trigger] lives[j]).0 <= lives[k].0
    &&& forall|j: int| k < j < lives.len() ==> (#[trigger] lives[j]).0 < lives[k].0
}

/// When pacman dies he loses the life with the highest number.
pub fn remove_life_when_pacman_dies(lives: &mut Vec<Life>)
    ensures
        old(lives)@.len() == 0 ==> final(lives)@ == old(lives)@,
        old(lives)@.len() > 0 ==> exists|k: int| is_last_max(old(lives)@, k) && final(lives)@ == old(lives)@.remove(k),
{
    if lives.len() == 0 {
        return;
    }
    let mut best: usize = 0;
    let mut i: usize = 1;
    while i < lives.len()
        invariant
            1 <= i <= lives@.len(),
            best < i,
            forall|j: int| 0 <= j < i ==> (#[trigger] lives@[j]).0 <= lives@[best as int].0,
            forall|j: int| best < j < i ==> (#[trigger] lives@[j]).0 < lives@[best as int].0,
        decreases lives@.len() - i,
    {
        if lives[i].0 >= lives[best].0 {
            best = i;
        }
        i = i + 1;
    }
    assert(is_last_max(lives@, best as int));
    lives.remove(best);
}

/// How many points the player needs to get the next extra life.
#[derive(Copy, Clone, Debug, PartialEq, Eq, Structural)]
pub struct PointsRequiredForExtraLife(pub usize);

impl PointsRequiredForExtraLife {
    pub fn new() -> (r: Self)
        ensures
            r.0 == POINTS_PER_EXTRA_LIFE,
    {
        PointsRequiredForExtraLife(POINTS_PER_EXTRA_LIFE)
    }

    pub fn increase_limit(&mut self)
        requires
            old(self).0 + POINTS_PER_EXTRA_LIFE <= usize::MAX,
        ensures
            final(self).0 == old(self).0 + POINTS_PER_EXTRA_LIFE,
    {
        self.0 = self.0 + POINTS_PER_EXTRA_LIFE;
    }
}

/// Once the score reaches the required points, pacman gets a life, numbered after the lives he
/// has, and the next extra life needs more points.
pub fn add_life_if_player_reaches_specific_score(
    score: &Score,
    points_required_for_extra_life: &mut PointsRequiredForExtraLife,
    lives: &mut Vec<Life>,
)
    requires
        old(points_required_for_extra_life).0 + POINTS_PER_EXTRA_LIFE <= usize::MAX,
    ensures
        score.0 >= old(points_required_for_extra_life).0 ==> {
            &&& final(lives)@ == old(lives)@.push(Life(old(lives)@.len() as usize))
            &&& final(points_required_for_extra_life).0 == old(points_required_for_extra_life).0 + POINTS_PER_EXTRA_LIFE
        },
        score.0 < old(points_required_for_extra_life).0 ==> final(lives)@ == old(lives)@
            && *final(points_required_for_extra_life) == *old(points_required_for_extra_life),
{
    if score.0 >= points_required_for_extra_life.0 {
        let index = lives.len();
        lives.push(Life(index));
        points_required_for_extra_life.increase_limit();
    }
}

/// Losing a life from lives numbered `0..n` leaves the lives numbered `0..n-1`: the numbering of
/// the lives stays without gaps.
pub proof fn lemma_losing_a_life_keeps_numbering(n: nat, k: int)
    requires
        n > 0,
        n <= usize::MAX,
        is_last_max(numbered_lives(n), k),
    ensures
        numbered_lives(n).remove(k) == numbered_lives((n - 1) as nat),
{
    let s = numbered_lives(n);
    if k < n - 1 {
        assert(s[n - 1].0 <= s[k].0);
    }
    assert(k == n - 1);
    assert(s.remove(k) == numbered_lives((n - 1) as nat));
}

/// Gaining a life after lives numbered `0..n` gives the lives numbered `0..n+1`.
pub proof fn lemma_gaining_a_life_keeps_numbering(n: nat)
    requires
        n < usize::MAX,
    ensures
        numbered_lives(n).push(Life(n as usize)) == numbered_lives(n + 1),
{
    assert(numbered_lives(n).push(Life(n as usize)) == numbered_lives(n + 1));
}

} // verus!

pub mod appearance;
pub mod house;
pub mod spawner;
pub mod state;
pub mod target;
pub mod target_set_strategy;
pub mod target_setter;

use vstd::prelude::*;

use crate::common::Position;

verus! {

/// The four ghosts, told apart by name.
#[derive(Copy, Clone, Debug, PartialEq, Eq, Hash, Structural)]
pub enum GhostKind {
    Blinky,
    Pinky,
    Inky,
    Clyde,
}

/// The different states of a ghost
///
/// Spawned - just spawned, try to leave the spawn area
/// Chase - use your hunting strategy to kill pacman
/// Scatter - be inactive and return to your home corner
/// Eaten - return to the home to respawn
/// Frightened - you are vulnerable, dodge pacman
#[derive(Copy, Clone, Debug, PartialEq, Eq, Hash, Structural)]
pub enum State {
    Scatter,
    Chase,
    Frightened,
    Eaten,
    Spawned,
}

/// The position a ghost currently walks to, if it has one.
#[derive(Copy, Clone, Debug, PartialEq, Eq)]
pub struct Target {
    pub target: Option<Position>,
}

impl Target {
    pub fn new() -> (r: Target)
        ensures
            r.target is None,
    {
        Target { target: None }
    }

    pub fn is_set(&self) -> (r: bool)
        ensures
            r == self.target is Some,
    {
        self.target.is_some()
    }

    pub fn is_not_set(&self) -> (r: bool)
        ensures
            r == self.target is None,
    {
        !self.is_set()
    }

    pub fn set_to(&mut self, position: Position)
        ensures
            final(self).target == Some(position),
    {
        self.target = Some(position)
    }

    /// Return the target position; the target has to be set.
    pub fn get_position(&self) -> (r: &Position)
        requires
            self.target is Some,
        ensures
            Some(*r) == self.target,
    {
        match &self.target {
            Some(p) => p,
            None => vstd::pervasive::unreached(),
        }
    }

    pub fn get_position_opt(&self) -> (r: &Option<Position>)
        ensures
            *r == self.target,
    {
        &self.target
    }

    pub fn clear(&mut self)
        ensures
            final(self).target is None,
    {
        self.target = None
    }
}

} // verus!

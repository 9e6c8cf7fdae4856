pub mod board;

use vstd::prelude::*;

use crate::common::{Direction, Position};

verus! {

/// The kind of a wall of the maze.
#[derive(Copy, Clone, Debug, PartialEq, Eq, Structural)]
pub enum WallType {
    Outer,
    Inner,
    GhostHouseWall,
}

/// What may lie on a field of the maze. Several elements may share a field.
#[derive(Copy, Clone, Debug, PartialEq, Eq, Structural)]
pub enum Element {
    Empty,
    Wall { wall_type: WallType, is_corner: bool },
    GhostHouseEntrance,
    GhostHouse,
    PacManSpawn,
    GhostSpawn,
    DotSpawn,
    EnergizerSpawn,
    BlinkySpawn,
    PinkySpawn,
    InkySpawn,
    ClydeSpawn,
    BlinkyCorner,
    PinkyCorner,
    InkyCorner,
    ClydeCorner,
    Tunnel { index: usize, opening_direction: Direction },
    TunnelEntrance,
    TunnelHallway,
    InvisibleWall,
}

/// The variant of an element, without its data.
#[derive(Copy, Clone, Debug, PartialEq, Eq, Structural)]
pub enum ElementKind {
    Empty,
    Wall,
    GhostHouseEntrance,
    GhostHouse,
    PacManSpawn,
    GhostSpawn,
    DotSpawn,
    EnergizerSpawn,
    BlinkySpawn,
    PinkySpawn,
    InkySpawn,
    ClydeSpawn,
    BlinkyCorner,
    PinkyCorner,
    InkyCorner,
    ClydeCorner,
    Tunnel,
    TunnelEntrance,
    TunnelHallway,
    InvisibleWall,
}

/// The variant of an element.
pub open spec fn kind_of(e: Element) -> ElementKind {
    match e {
        Element::Empty => ElementKind::Empty,
        Element::Wall { .. } => ElementKind::Wall,
        Element::GhostHouseEntrance => ElementKind::GhostHouseEntrance,
        Element::GhostHouse => ElementKind::GhostHouse,
        Element::PacManSpawn => ElementKind::PacManSpawn,
        Element::GhostSpawn => ElementKind::GhostSpawn,
        Element::DotSpawn => ElementKind::DotSpawn,
        Element::EnergizerSpawn => ElementKind::EnergizerSpawn,
        Element::BlinkySpawn => ElementKind::BlinkySpawn,
        Element::PinkySpawn => ElementKind::PinkySpawn,
        Element::InkySpawn => ElementKind::InkySpawn,
        Element::ClydeSpawn => ElementKind::ClydeSpawn,
        Element::BlinkyCorner => ElementKind::BlinkyCorner,
        Element::PinkyCorner => ElementKind::PinkyCorner,
        Element::InkyCorner => ElementKind::InkyCorner,
        Element::ClydeCorner => ElementKind::ClydeCorner,
        Element::Tunnel { .. } => ElementKind::Tunnel,
        Element::TunnelEntrance => ElementKind::TunnelEntrance,
        Element::TunnelHallway => ElementKind::TunnelHallway,
        Element::InvisibleWall => ElementKind::InvisibleWall,
    }
}

impl Element {
    /// Return the variant of this element.
    pub fn kind(&self) -> (r: ElementKind)
        ensures
            r == kind_of(*self),
    {
        match self {
            Element::Empty => ElementKind::Empty,
            Element::Wall { .. } => ElementKind::Wall,
            Element::GhostHouseEntrance => ElementKind::GhostHouseEntrance,
            Element::GhostHouse => ElementKind::GhostHouse,
            Element::PacManSpawn => ElementKind::PacManSpawn,
            Element::GhostSpawn => ElementKind::GhostSpawn,
            Element::DotSpawn => ElementKind::DotSpawn,
            Element::EnergizerSpawn => ElementKind::EnergizerSpawn,
            Element::BlinkySpawn => ElementKind::BlinkySpawn,
            Element::PinkySpawn => ElementKind::PinkySpawn,
            Element::InkySpawn => ElementKind::InkySpawn,
            Element::ClydeSpawn => ElementKind::ClydeSpawn,
            Element::BlinkyCorner => ElementKind::BlinkyCorner,
            Element::PinkyCorner => ElementKind::PinkyCorner,
            Element::InkyCorner => ElementKind::InkyCorner,
            Element::ClydeCorner => ElementKind::ClydeCorner,
            Element::Tunnel { .. } => ElementKind::Tunnel,
            Element::TunnelEntrance => ElementKind::TunnelEntrance,
            Element::TunnelHallway => ElementKind::TunnelHallway,
            Element::InvisibleWall => ElementKind::InvisibleWall,
        }
    }
}

/// Picks elements by their variant: an element matches when its variant is one of the listed.
#[derive(Clone, Debug, PartialEq, Eq)]
pub struct ElementFilter {
    pub kinds: Vec<ElementKind>,
}

/// Whether the element matches the filter.
pub open spec fn matches_filter(filter: Seq<ElementKind>, e: Element) -> bool {
    filter.contains(kind_of(e))
}

impl ElementFilter {
    /// Return whether the element matches this filter.
    pub fn accepts(&self, e: &Element) -> (r: bool)
        ensures
            r == matches_filter(self.kinds@, *e),
    {
        let k = e.kind();
        let mut i: usize = 0;
        while i < self.kinds.len()
            invariant
                0 <= i <= self.kinds@.len(),
                k == kind_of(*e),
                forall|j: int| 0 <= j < i ==> self.kinds@[j] != k,
            decreases self.kinds@.len() - i,
        {
            if self.kinds[i] == k {
                assert(self.kinds@[i as int] == k);
                return true;
            }
            i = i + 1;
        }
        false
    }
}

/// One field of the maze: a position and what lies on it.
#[derive(Clone, Debug, PartialEq, Eq)]
pub struct Field {
    pub position: Position,
    pub elements: Vec<Element>,
}

/// A field next to another one: where it is, what lies on it and in which direction it lies.
#[derive(Clone, Debug, PartialEq, Eq)]
pub struct Neighbour {
    pub position: Position,
    pub elements: Vec<Element>,
    pub direction: Direction,
}

} // verus!

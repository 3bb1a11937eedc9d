use vstd::prelude::*;
use super::Dimension;

verus! {

/// Which ground tile fills the space beside or below a strip of spikes.
#[derive(Clone, Copy, Debug, PartialEq, Eq, Structural)]
pub enum GroundKind {
    Top,
    Middle,
}

/// Whether a cat stays where it is, or patrols over so many tiles.
#[derive(Clone, Copy, Debug, PartialEq, Eq, Structural)]
pub enum CatKind {
    Idle,
    Moving(u32),
}

/// A cat, by the tile its bottom-left corner stands on.
#[derive(Clone, Copy, Debug)]
pub struct Cat {
    pub kind: CatKind,
    pub bottom_left: Dimension,
}

/// A run of solid ground, in tiles.
#[derive(Clone, Copy, Debug)]
pub struct Obstacle {
    pub count: Dimension,
    pub bottom_left: Dimension,
}

/// A strip of spikes, in tiles, and what is drawn around it.
#[derive(Clone, Copy, Debug)]
pub struct Spike {
    pub count: u32,
    pub bottom_left: Dimension,
    pub left: Option<GroundKind>,
    pub right: Option<GroundKind>,
    pub bottom: Option<GroundKind>,
}

/// One level, on the tile grid. Tile rows count upwards from the bottom of the
/// screen.
#[derive(Clone, Debug)]
pub struct Level {
    pub obstacles: Vec<Obstacle>,
    pub goal: Dimension,
    pub gems: Vec<Dimension>,
    pub coins: Vec<Dimension>,
    pub cats: Vec<Cat>,
    pub spikes: Vec<Spike>,
}

} // verus!

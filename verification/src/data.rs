use vstd::prelude::*;

pub mod level;

pub use self::level::{CatKind, GroundKind, Level, Obstacle};

verus! {

/// A pair of whole numbers: a size, a position on the tile grid, or a pair of
/// percentages.
#[derive(Clone, Copy, Debug, PartialEq, Eq, Structural)]
pub struct Dimension {
    pub x: u32,
    pub y: u32,
}

/// The file name of an image, below the sprite directory.
#[derive(Clone, Debug)]
pub struct Texture(pub String);

/// A tile sheet and the time one pass through its frames takes, in
/// milliseconds.
#[derive(Clone, Debug)]
pub struct Sprite {
    pub texture: Texture,
    pub frames: u32,
    pub tiles: Dimension,
    pub duration: u64,
}

impl Sprite {
    /// The time one frame is shown, in milliseconds.
    pub fn frame_millis(&self) -> (r: u64)
        requires
            self.frames > 0,
        ensures
            r == self.duration / (self.frames as u64),
    {
        self.duration / (self.frames as u64)
    }
}

/// The parts of a percent in which the radius of a circle is given.
pub const FINE: u32 = 100;

/// One part of a hit-volume, in percentages of the box of its owner.
#[derive(Clone, Copy, Debug, PartialEq, Eq, Structural)]
pub enum Shape {
    /// Top-left corner and extent.
    Rectangle(Dimension, Dimension),
    /// Centre, and radius in hundredths of a percent of the shorter side of
    /// the box. A finer fraction is not held.
    Circle(Dimension, u32),
}

impl Shape {
    /// Every percentage is at most 100, and a rectangle ends within the box
    /// horizontally, so that its mirror image does too.
    pub open spec fn wf(self) -> bool {
        match self {
            Shape::Rectangle(tl, d) => tl.x + d.x <= 100 && tl.y <= 100 && d.y <= 100,
            Shape::Circle(c, r) => c.x <= 100 && c.y <= 100 && r <= 100 * FINE,
        }
    }

    /// The descriptor reflected about the vertical centre line of the box.
    pub open spec fn mirrored(self) -> Shape {
        match self {
            Shape::Rectangle(tl, d) => Shape::Rectangle(
                Dimension { x: (100 - tl.x - d.x) as u32, y: tl.y },
                d,
            ),
            Shape::Circle(c, r) => Shape::Circle(Dimension { x: (100 - c.x) as u32, y: c.y }, r),
        }
    }

    /// Whether the descriptor is well-formed.
    pub fn is_wf(&self) -> (r: bool)
        ensures
            r == self.wf(),
    {
        match *self {
            Shape::Rectangle(tl, d) => tl.x <= 100 && d.x <= 100 - tl.x && tl.y <= 100 && d.y
                <= 100,
            Shape::Circle(c, r) => c.x <= 100 && c.y <= 100 && r <= 100 * FINE,
        }
    }

    /// The descriptor reflected about the vertical centre line of the box.
    pub fn mirror(&self) -> (r: Shape)
        requires
            self.wf(),
        ensures
            r == self.mirrored(),
            r.wf(),
    {
        match *self {
            Shape::Rectangle(tl, d) => Shape::Rectangle(
                Dimension { x: 100 - tl.x - d.x, y: tl.y },
                d,
            ),
            Shape::Circle(c, r) => Shape::Circle(Dimension { x: 100 - c.x, y: c.y }, r),
        }
    }
}

/// Every descriptor of the list is well-formed.
pub open spec fn shapes_wf(shapes: Seq<Shape>) -> bool {
    forall|i: int| 0 <= i < shapes.len() ==> (#[trigger] shapes[i]).wf()
}

/// Whether every descriptor of the list is well-formed.
pub fn all_wf(shapes: &[Shape]) -> (r: bool)
    ensures
        r == shapes_wf(shapes@),
{
    let mut i: usize = 0;
    while i < shapes.len()
        invariant
            i <= shapes.len(),
            forall|j: int| 0 <= j < i ==> (#[trigger] shapes@[j]).wf(),
        decreases shapes.len() - i,
    {
        if !shapes[i].is_wf() {
            return false;
        }
        i += 1;
    }
    true
}

/// A playable character.
#[derive(Clone, Debug)]
pub struct Player {
    pub animation: Sprite,
    pub idle_texture: Texture,
    pub out_size: Dimension,
    pub body: Vec<Shape>,
    pub legs: Vec<Shape>,
}

/// The patrolling cat.
#[derive(Clone, Debug)]
pub struct Cat {
    pub idle: Sprite,
    pub walking: Sprite,
    pub out_size: Dimension,
    pub body: Vec<Shape>,
}

/// A still image and the size it is drawn at.
#[derive(Clone, Debug)]
pub struct Image {
    pub texture: Texture,
    pub out_size: Dimension,
}

/// Something to pick up, and what it is worth.
#[derive(Clone, Debug)]
pub struct Collectable {
    pub animation: Sprite,
    pub out_size: Dimension,
    pub score: u32,
}

/// The tiles that the ground is drawn with, and the size of one tile.
#[derive(Clone, Debug)]
pub struct Ground {
    pub center: Texture,
    pub left: Texture,
    pub right: Texture,
    pub top: Texture,
    pub top_left: Texture,
    pub top_right: Texture,
    pub out_size: Dimension,
}

/// Everything that is the same in every level.
#[derive(Clone, Debug)]
pub struct Game {
    pub duck: Player,
    pub husky: Player,
    pub ground: Ground,
    pub gem: Collectable,
    pub coin: Collectable,
    pub cat: Cat,
    pub background: Image,
    pub goal: Image,
    pub heart: Image,
    pub spike: Image,
}

} // verus!

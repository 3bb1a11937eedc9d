use vstd::prelude::*;
use crate::body::{Body, Volume};
use crate::data;
use crate::data::level::GroundKind;
use crate::data::Dimension;
use crate::obstacle::{span, within_reach};
use crate::shape::{Rectangle, Region};
use crate::vector::{Frame, Point, Vec2, Vector, FIELD, SCREEN_HEIGHT, UNIT};

verus! {

/// How far below the top of its image the hitbox of a spike begins, in screen
/// units: only the tips wound.
pub const INSET: u32 = 9;


/// A strip of spikes. It wounds through a rectangle that is lower than the one
/// it is drawn in.
#[derive(Clone, Copy, Debug)]
pub struct Spike {
    /// The number of spikes side by side.
    pub count: u32,
    /// The size of one spike as drawn, in screen units.
    pub dims: Dimension,
    /// The top-left corner of the strip as drawn, in screen units.
    pub top_left: Point,
    /// The rectangle that wounds, in sub-units.
    pub body: Rectangle,
    pub expand_left: Option<GroundKind>,
    pub expand_right: Option<GroundKind>,
    pub expand_bottom: Option<GroundKind>,
}

impl Spike {
    /// The rectangle that the strip is drawn in, in sub-units.
    pub open spec fn visual(&self) -> Region {
        Region {
            top_left: Vector { x: self.top_left.x * UNIT, y: self.top_left.y * UNIT },
            dims: Vector { x: self.dims.x * self.count * UNIT, y: self.dims.y * UNIT },
        }
    }

    /// The rectangle that wounds: the drawn one without its top [`INSET`]
    /// screen units.
    pub open spec fn hazard(&self) -> Region {
        Region {
            top_left: Vector { x: self.top_left.x * UNIT, y: (self.top_left.y + INSET) * UNIT },
            dims: Vector { x: self.dims.x * self.count * UNIT, y: (self.dims.y - INSET) * UNIT },
        }
    }

    /// The strip lies within the playing field, is at least as high as the
    /// inset, and its body is the rectangle that wounds.
    pub open spec fn wf(&self) -> bool {
        &&& self.dims.y >= INSET
        &&& -FIELD <= self.top_left.x && self.top_left.x + self.dims.x * self.count <= FIELD
        &&& -FIELD <= self.top_left.y && self.top_left.y + self.dims.y <= FIELD
        &&& self.body@ == self.hazard()
    }

    /// `self` is the strip that `spike` describes: drawn with its bottom-left
    /// corner on that of its tile, and wounding through the rectangle below
    /// the inset.
    pub open spec fn loads(&self, tile: Dimension, size: Dimension, spike: data::level::Spike) -> bool {
        &&& self.wf()
        &&& self.count == spike.count
        &&& self.dims == size
        &&& self.top_left.x == spike.bottom_left.x * tile.x
        &&& self.top_left.y == SCREEN_HEIGHT - spike.bottom_left.y * tile.y - size.y
        &&& self.expand_left == spike.left
        &&& self.expand_right == spike.right
        &&& self.expand_bottom == spike.bottom
    }

    /// The strip can be placed: it lies within the playing field and is at
    /// least as high as the inset.
    pub open spec fn loadable(tile: Dimension, size: Dimension, spike: data::level::Spike) -> bool {
        &&& size.y >= INSET
        &&& spike.bottom_left.x * tile.x + size.x * spike.count <= FIELD
        &&& spike.bottom_left.y * tile.y + size.y <= FIELD
    }

    /// The strip that `spike` describes on the grid of tiles of size `tile`,
    /// each spike drawn at the size of `image`. Its bottom-left corner is that
    /// of the tile it stands on. `None` where it cannot be placed.
    pub fn load(tile: Dimension, image: &data::Image, spike: &data::level::Spike) -> (r: Option<
        Spike,
    >)
        ensures
            r.is_some() == Self::loadable(tile, image.out_size, *spike),
            r.is_some() ==> r.unwrap().loads(tile, image.out_size, *spike),
    {
        let dims = image.out_size;
        let left = span(spike.bottom_left.x as u64, tile.x);
        let rise = span(spike.bottom_left.y as u64, tile.y);
        let width = span(spike.count as u64, dims.x);
        proof {
            assert(dims.x * spike.count == spike.count * dims.x) by (nonlinear_arith);
            assert(0 <= spike.bottom_left.x * tile.x && 0 <= spike.bottom_left.y * tile.y && 0
                <= spike.count * dims.x) by (nonlinear_arith)
                requires
                    0 <= spike.bottom_left.x,
                    0 <= tile.x,
                    0 <= spike.bottom_left.y,
                    0 <= tile.y,
                    0 <= spike.count,
                    0 <= dims.x,
            ;
        }
        match (left, rise, width) {
            (Some(left), Some(rise), Some(width)) => {
                if dims.y < INSET || left as i64 + width as i64 > FIELD || rise as i64
                    + dims.y as i64 > FIELD {
                    return None;
                }
                let top: i32 = SCREEN_HEIGHT as i32 - rise - dims.y as i32;
                Some(
                    Spike {
                        count: spike.count,
                        dims,
                        top_left: Point { x: left, y: top },
                        body: Rectangle {
                            top_left: Vec2 {
                                x: left as i64 * UNIT,
                                y: (top as i64 + INSET as i64) * UNIT,
                            },
                            dims: Vec2 {
                                x: width as i64 * UNIT,
                                y: (dims.y as i64 - INSET as i64) * UNIT,
                            },
                        },
                        expand_left: spike.left,
                        expand_right: spike.right,
                        expand_bottom: spike.bottom,
                    },
                )
            },
            _ => None,
        }
    }

    /// The frame that column `i` of the strip is drawn in. The spikes are the
    /// columns from 0 on; column -1 is the ground to the left of them and
    /// column `count` the ground to their right.
    pub fn column(&self, i: i32) -> (r: Frame)
        requires
            self.wf(),
            self.dims.x <= FIELD,
            -1 <= i <= self.count,
        ensures
            r.x == self.top_left.x + self.dims.x * i,
            r.y == self.top_left.y,
            r.w == self.dims.x,
            r.h == self.dims.y,
    {
        assert(-self.dims.x <= self.dims.x * i <= self.dims.x * self.count) by (nonlinear_arith)
            requires
                -1 <= i <= self.count,
                0 <= self.dims.x,
        ;
        let x: i64 = self.top_left.x as i64 + (self.dims.x as i64) * (i as i64);
        Frame { x: x as i32, y: self.top_left.y, w: self.dims.x as i32, h: self.dims.y as i32 }
    }

    /// The frame of the ground below a column of the strip.
    pub fn under(&self, column: &Frame) -> (r: Frame)
        requires
            self.wf(),
            column.y == self.top_left.y,
        ensures
            r.x == column.x,
            r.y == column.y + self.dims.y,
            r.w == column.w,
            r.h == column.h,
    {
        Frame { x: column.x, y: column.y + self.dims.y as i32, w: column.w, h: column.h }
    }

    /// The displacement that moves `object` off the rectangle that wounds, and
    /// `None` where no part of it overlaps that rectangle, whatever it does to
    /// the drawn one.
    pub fn mtv(&self, object: &Body) -> (r: Option<Vec2>)
        requires
            self.wf(),
            object.wf(),
        ensures
            r.deep_view() == object@.mtv(self.hazard()),
            r.is_some() == object@.overlaps_region(self.hazard()),
    {
        proof {
            self.lemma_hazard_within();
            object.lemma_overlaps_rectangle(&self.body);
        }
        object.mtv(&self.body)
    }

    /// The rectangle that wounds lies within the drawn one, [`INSET`] screen
    /// units below its top, and within the playing field.
    pub proof fn lemma_hazard_within(&self)
        requires
            self.wf(),
        ensures
            self.visual().contains(self.hazard()),
            self.hazard().top() == self.visual().top() + INSET * UNIT,
            self.hazard().bottom() == self.visual().bottom(),
            within_reach(self.hazard()),
            self.hazard().bounded(),
    {
        assert(0 <= self.dims.x * self.count) by (nonlinear_arith)
            requires
                0 <= self.dims.x,
                0 <= self.count,
        ;
    }
}

impl Spike {
    /// What overlaps only the part of the drawn strip above the rectangle that
    /// wounds gets no displacement from the strip. A rectangle that ends no
    /// lower than [`INSET`] screen units below the top of the drawn strip is
    /// such a thing, wherever else it overlaps the drawn strip.
    pub proof fn lemma_inset(&self, object: Volume, part: Region)
        requires
            self.wf(),
        ensures
            !object.overlaps_region(self.hazard()) ==> object.mtv(self.hazard()) is None,
            part.bottom() <= self.visual().top() + INSET * UNIT ==> !part.overlaps(self.hazard()),
    {
        object.lemma_mtv_iff_overlap(self.hazard());
    }
}


} // verus!

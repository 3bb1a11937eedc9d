use vstd::prelude::*;
use crate::data;
use crate::vector::{Frame, Point, FIELD, SCREEN_HEIGHT};

verus! {

/// Where the level ends.
#[derive(Clone, Copy, Debug, PartialEq, Eq, Structural)]
pub struct Goal {
    pub dst: Frame,
}

impl Goal {
    /// The goal lies within the playing field.
    pub open spec fn loadable(bl: Point, data: data::Image) -> bool {
        &&& -FIELD <= bl.x && bl.x + data.out_size.x <= FIELD
        &&& 0 <= bl.y && bl.y + data.out_size.y <= FIELD
    }

    /// The goal whose bottom-left corner is `bl.x` screen units from the left
    /// and `bl.y` above the bottom of the screen.
    pub open spec fn loaded(bl: Point, data: data::Image) -> Goal {
        Goal {
            dst: Frame {
                x: bl.x,
                y: (SCREEN_HEIGHT - bl.y - data.out_size.y) as i32,
                w: data.out_size.x as i32,
                h: data.out_size.y as i32,
            },
        }
    }

    /// The goal with its bottom-left corner at `bl`: see [`Goal::loaded`].
    /// `None` where it leaves the playing field.
    pub fn load(bl: Point, data: &data::Image) -> (r: Option<Goal>)
        ensures
            r == if Self::loadable(bl, *data) {
                Some(Self::loaded(bl, *data))
            } else {
                None
            },
    {
        let (w, h): (i64, i64) = (data.out_size.x as i64, data.out_size.y as i64);
        let (x, y): (i64, i64) = (bl.x as i64, bl.y as i64);
        if x < -FIELD || x + w > FIELD || y < 0 || y + h > FIELD {
            return None;
        }
        Some(Goal { dst: Frame { x: bl.x, y: (SCREEN_HEIGHT - y - h) as i32, w: w as i32, h: h as i32 } })
    }
}

} // verus!

use vstd::prelude::*;
use crate::data;
use crate::data::Dimension;
use crate::vector::{Frame, FIELD};

verus! {

/// How often the picture is drawn side by side.
pub const REPEATS: u32 = 4;

/// The picture behind the playing field.
#[derive(Clone, Copy, Debug, PartialEq, Eq, Structural)]
pub struct Background {
    pub dimensions: Dimension,
}

impl Background {
    /// The picture is no larger than the playing field.
    pub open spec fn wf(&self) -> bool {
        self.dimensions.x <= FIELD && self.dimensions.y <= FIELD
    }

    /// The background of the size that `data` give, if it is no larger than
    /// the playing field.
    pub fn load(data: &data::Image) -> (r: Option<Background>)
        ensures
            r == if data.out_size.x <= FIELD && data.out_size.y <= FIELD {
                Some(Background { dimensions: data.out_size })
            } else {
                None
            },
    {
        if data.out_size.x as i64 <= FIELD && data.out_size.y as i64 <= FIELD {
            Some(Background { dimensions: data.out_size })
        } else {
            None
        }
    }

    /// The frame of the `i`-th copy of the picture, from the left edge of the
    /// field on.
    pub fn frame(&self, i: u32) -> (r: Frame)
        requires
            self.wf(),
            i < REPEATS,
        ensures
            r == (Frame {
                x: (self.dimensions.x * i) as i32,
                y: 0,
                w: self.dimensions.x as i32,
                h: self.dimensions.y as i32,
            }),
    {
        assert(0 <= self.dimensions.x * i <= FIELD * 3) by (nonlinear_arith)
            requires
                0 <= i <= 3,
                0 <= self.dimensions.x <= FIELD,
        ;
        Frame {
            x: (self.dimensions.x * i) as i32,
            y: 0,
            w: self.dimensions.x as i32,
            h: self.dimensions.y as i32,
        }
    }
}

} // verus!

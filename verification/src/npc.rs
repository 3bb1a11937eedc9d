use vstd::prelude::*;
use crate::data;
use crate::data::Dimension;
use crate::vector::{Frame, FIELD};

verus! {

/// The one who waits at the goal.
#[derive(Clone, Copy, Debug, PartialEq, Eq, Structural)]
pub struct Npc {
    pub dst: Frame,
}

impl Npc {
    /// The frame lies within the playing field.
    pub open spec fn wf(&self) -> bool {
        &&& 0 <= self.dst.x && 0 <= self.dst.w && self.dst.x + self.dst.w <= FIELD
        &&& 0 <= self.dst.y && 0 <= self.dst.h && self.dst.y + self.dst.h <= FIELD
    }

    /// The character lies within the playing field.
    pub open spec fn loadable(data: data::Player, tl: Dimension) -> bool {
        tl.x + data.out_size.x <= FIELD && tl.y + data.out_size.y <= FIELD
    }

    /// The character `data` with its top-left corner at `tl`, in screen units.
    /// `None` where it leaves the playing field.
    pub fn load(data: &data::Player, tl: Dimension) -> (r: Option<Npc>)
        ensures
            r.is_some() == Self::loadable(*data, tl),
            r.is_some() ==> r.unwrap().wf() && r.unwrap().dst == (Frame {
                x: tl.x as i32,
                y: tl.y as i32,
                w: data.out_size.x as i32,
                h: data.out_size.y as i32,
            }),
    {
        if tl.x as i64 + data.out_size.x as i64 > FIELD || tl.y as i64 + data.out_size.y as i64
            > FIELD {
            return None;
        }
        Some(
            Npc {
                dst: Frame {
                    x: tl.x as i32,
                    y: tl.y as i32,
                    w: data.out_size.x as i32,
                    h: data.out_size.y as i32,
                },
            },
        )
    }

    /// The left edge, in screen units.
    pub fn x(&self) -> (r: i32)
        ensures
            r == self.dst.x,
    {
        self.dst.x
    }

    /// The top edge, in screen units.
    pub fn y(&self) -> (r: i32)
        ensures
            r == self.dst.y,
    {
        self.dst.y
    }

    /// The bottom edge, in screen units.
    pub fn bottom(&self) -> (r: i32)
        requires
            self.wf(),
        ensures
            r == self.dst.y + self.dst.h,
    {
        self.dst.y + self.dst.h
    }
}

} // verus!

use vstd::prelude::*;
use crate::vector::{Frame, Point};

verus! {

/// The part of the playing field that is on the screen: its size, and where
/// its top-left corner is on the field, in screen units.
#[derive(Clone, Copy, Debug, PartialEq, Eq, Structural)]
pub struct ViewPort {
    pub dims: Point,
    pub translation: Point,
}

impl ViewPort {
    /// Whether the frame touches the part of the field that is on the screen.
    pub open spec fn sees(&self, rect: Frame) -> bool {
        &&& self.translation.x <= rect.x + rect.w
        &&& self.translation.x + self.dims.x >= rect.x
        &&& self.translation.y <= rect.y + rect.h
        &&& self.translation.y + self.dims.y >= rect.y
    }

    /// The frame as it lies on the screen.
    pub open spec fn shifted(&self, rect: Frame) -> Frame {
        Frame {
            x: (rect.x - self.translation.x) as i32,
            y: (rect.y - self.translation.y) as i32,
            w: rect.w,
            h: rect.h,
        }
    }

    /// A view of the given size on the top-left corner of the field.
    pub fn new(dims: Point) -> (r: ViewPort)
        ensures
            r.dims == dims,
            r.translation == (Point { x: 0, y: 0 }),
    {
        ViewPort { dims, translation: Point { x: 0, y: 0 } }
    }

    /// Moves the view by `t`.
    pub fn translate(&mut self, t: Point)
        requires
            i32::MIN <= old(self).translation.x + t.x <= i32::MAX,
            i32::MIN <= old(self).translation.y + t.y <= i32::MAX,
        ensures
            final(self).translation.x == old(self).translation.x + t.x,
            final(self).translation.y == old(self).translation.y + t.y,
            final(self).dims == old(self).dims,
    {
        self.translation.x = self.translation.x + t.x;
        self.translation.y = self.translation.y + t.y;
    }

    /// Puts `center` in the middle of the view horizontally, as far as the
    /// left end of the field allows.
    pub fn center(&mut self, center: Point)
        requires
            old(self).dims.x >= 0,
        ensures
            final(self).translation.x == if center.x - old(self).dims.x / 2 >= 0 {
                center.x - old(self).dims.x / 2
            } else {
                0
            },
            final(self).translation.y == old(self).translation.y,
            final(self).dims == old(self).dims,
    {
        let half: i32 = self.dims.x / 2;
        self.translation.x = if center.x >= half {
            center.x - half
        } else {
            0
        };
    }

    /// Whether the frame touches the part of the field that is on the screen.
    pub fn contains(&self, rect: &Frame) -> (r: bool)
        ensures
            r == self.sees(*rect),
    {
        let (tx, ty): (i64, i64) = (self.translation.x as i64, self.translation.y as i64);
        let (x, y): (i64, i64) = (rect.x as i64, rect.y as i64);
        !(tx > x + rect.w as i64) && !(tx + (self.dims.x as i64) < x) && !(ty > y + rect.h as i64)
            && !(ty + (self.dims.y as i64) < y)
    }

    /// Where the frame lies on the screen, if it touches the part of the field
    /// that is on the screen.
    pub fn on_screen(&self, rect: &Frame) -> (r: Option<Frame>)
        ensures
            r == if self.sees(*rect) {
                Some(self.shifted(*rect))
            } else {
                None
            },
    {
        if !self.contains(rect) {
            return None;
        }
        let x: i64 = rect.x as i64 - self.translation.x as i64;
        let y: i64 = rect.y as i64 - self.translation.y as i64;
        Some(Frame { x: x as i32, y: y as i32, w: rect.w, h: rect.h })
    }
}

} // verus!

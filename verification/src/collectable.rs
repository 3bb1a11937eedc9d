use vstd::prelude::*;
use crate::data;
use crate::obstacle::within_reach;
use crate::shape::{Rectangle, Region};
use crate::vector::{Point, Vec2, Vector, FIELD, UNIT};

verus! {

/// What there is to pick up.
#[derive(Clone, Copy, Debug, PartialEq, Eq, Structural)]
pub enum Kind {
    Coin,
    Gem,
}

/// Something to pick up, as a level places it: what it is, where it is and
/// what it is worth.
#[derive(Clone, Copy, Debug, PartialEq, Eq, Structural)]
pub struct Data {
    pub kind: Kind,
    pub body: Rectangle,
    pub score: u32,
}

impl Data {
    /// The thing lies within the playing field.
    pub open spec fn loadable(bl: Point, data: data::Collectable) -> bool {
        &&& -FIELD <= bl.x && bl.x + data.out_size.x <= FIELD
        &&& -FIELD <= bl.y - data.out_size.y && bl.y <= FIELD
    }

    /// The box of a thing whose bottom-left corner is at `bl`, in sub-units.
    pub open spec fn placed(bl: Point, data: data::Collectable) -> Region {
        Region {
            top_left: Vector { x: bl.x * UNIT, y: (bl.y - data.out_size.y) * UNIT },
            dims: Vector { x: data.out_size.x * UNIT, y: data.out_size.y * UNIT },
        }
    }

    /// `self` is the thing of the given kind, sized and valued as `data` say,
    /// with its bottom-left corner at `bl`.
    pub open spec fn loads(&self, bl: Point, kind: Kind, data: data::Collectable) -> bool {
        &&& self.kind == kind
        &&& self.body@ == Self::placed(bl, data)
        &&& self.score == data.score
        &&& within_reach(self.body@)
    }

    /// A thing of the given kind, sized and valued as `data` say, with its
    /// bottom-left corner at `bl`, in screen units. `None` where it leaves the
    /// playing field.
    pub fn load(bl: Point, kind: Kind, data: &data::Collectable) -> (r: Option<Data>)
        ensures
            r.is_some() == Self::loadable(bl, *data),
            r.is_some() ==> r.unwrap().loads(bl, kind, *data),
    {
        let (w, h): (i64, i64) = (data.out_size.x as i64, data.out_size.y as i64);
        let (x, y): (i64, i64) = (bl.x as i64, bl.y as i64);
        if x < -FIELD || x + w > FIELD || y - h < -FIELD || y > FIELD {
            return None;
        }
        Some(
            Data {
                kind,
                body: Rectangle {
                    top_left: Vec2 { x: x * UNIT, y: (y - h) * UNIT },
                    dims: Vec2 { x: w * UNIT, y: h * UNIT },
                },
                score: data.score,
            },
        )
    }
}

/// Something to pick up, in a running game.
#[derive(Clone, Copy, Debug, PartialEq, Eq, Structural)]
pub struct Collectable {
    pub kind: Kind,
    pub body: Rectangle,
    pub score: u32,
}

impl Collectable {
    /// The thing that `data` places.
    pub fn new(data: &Data) -> (r: Collectable)
        ensures
            r.kind == data.kind,
            r.body == data.body,
            r.score == data.score,
    {
        Collectable { kind: data.kind, body: data.body, score: data.score }
    }
}

} // verus!

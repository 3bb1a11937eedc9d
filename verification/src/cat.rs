use vstd::prelude::*;
use crate::body::{Body, Volume};
use crate::data;
use crate::data::{shapes_wf, Shape};
use crate::player::copy_shapes;
use crate::shape::{Rectangle, Region};
use crate::vector::{Point, Vec2, Vector, FIELD, REACH, UNIT};

verus! {

/// How far a patrolling cat walks in a tick, in screen units.
pub const STEP: u32 = 2;

/// What a cat does: it sits, or it walks to and fro over `total` screen units,
/// `current` of them behind it, towards the left or the right.
#[derive(Clone, Copy, Debug, PartialEq, Eq, Structural)]
pub enum Kind {
    Idle,
    Moving { total: u32, current: u32, left: bool },
}

impl Kind {
    /// A walking cat is within its stretch.
    pub open spec fn wf(self) -> bool {
        match self {
            Kind::Idle => true,
            Kind::Moving { total, current, left } => current <= total,
        }
    }

    /// Whether the cat is drawn, and its hit-volume built, mirrored: a sitting
    /// cat and one that walks left.
    pub open spec fn faces_left(self) -> bool {
        match self {
            Kind::Idle => true,
            Kind::Moving { total, current, left } => left,
        }
    }

    /// The cat one tick later. It walks a step on. A step that reaches an end
    /// of the stretch, or would pass it, turns the cat round in that very
    /// tick; what of the step would pass the end is walked back from it.
    /// Where the stretch is shorter than a step, the cat stops at the other
    /// end.
    pub open spec fn next(self) -> Kind {
        match self {
            Kind::Idle => Kind::Idle,
            Kind::Moving { total, current, left } => {
                if left {
                    if current <= STEP {
                        Kind::Moving {
                            total,
                            current: if STEP - current <= total {
                                (STEP - current) as u32
                            } else {
                                total
                            },
                            left: false,
                        }
                    } else {
                        Kind::Moving { total, current: (current - STEP) as u32, left: true }
                    }
                } else if current + STEP >= total {
                    Kind::Moving {
                        total,
                        current: if 2 * total - current - STEP >= 0 {
                            (2 * total - current - STEP) as u32
                        } else {
                            0
                        },
                        left: true,
                    }
                } else {
                    Kind::Moving { total, current: (current + STEP) as u32, left: false }
                }
            },
        }
    }

    /// How far along its stretch the cat is, in screen units.
    pub open spec fn offset(self) -> int {
        match self {
            Kind::Idle => 0,
            Kind::Moving { total, current, left } => current as int,
        }
    }

    /// The length of the stretch, in screen units.
    pub open spec fn stretch(self) -> int {
        match self {
            Kind::Idle => 0,
            Kind::Moving { total, current, left } => total as int,
        }
    }

    /// The cat one tick later.
    pub fn step(self) -> (r: Kind)
        requires
            self.wf(),
        ensures
            r == self.next(),
            r.wf(),
            r.stretch() == self.stretch(),
    {
        match self {
            Kind::Idle => Kind::Idle,
            Kind::Moving { total, current, left } => {
                if left {
                    if current <= STEP {
                        let back: u32 = STEP - current;
                        Kind::Moving {
                            total,
                            current: if back <= total {
                                back
                            } else {
                                total
                            },
                            left: false,
                        }
                    } else {
                        Kind::Moving { total, current: current - STEP, left: true }
                    }
                } else if total - current <= STEP {
                    let over: u32 = STEP - (total - current);
                    Kind::Moving {
                        total,
                        current: if over <= total {
                            total - over
                        } else {
                            0
                        },
                        left: true,
                    }
                } else {
                    Kind::Moving { total, current: current + STEP, left: false }
                }
            },
        }
    }
}

/// On a stretch longer than a step, a cat that has reached an end of it has
/// turned round, and the tick after takes it away from that end.
pub proof fn lemma_ping_pong(kind: Kind)
    requires
        kind.wf(),
        kind is Moving,
        kind.stretch() > STEP,
    ensures
        kind.next().offset() == kind.stretch() ==> kind.next().faces_left()
            && kind.next().next().offset() < kind.stretch(),
        kind.next().offset() == 0 ==> !kind.next().faces_left() && kind.next().next().offset()
            > 0,
{
}

/// Whether the box and the whole stretch of a cat lie within the playing
/// field.
pub open spec fn stays_within(dst: Region, kind: Kind) -> bool {
    &&& 0 <= dst.dims.x && 0 <= dst.dims.y
    &&& -REACH <= dst.left() - kind.offset() * UNIT
    &&& dst.right() + (kind.stretch() - kind.offset()) * UNIT <= REACH
    &&& -REACH <= dst.top() && dst.bottom() <= REACH
}

/// A cat as a level places it.
#[derive(Clone, Debug)]
pub struct Data {
    pub dst: Rectangle,
    pub body: Vec<Shape>,
    pub kind: Kind,
}

impl Data {
    pub open spec fn wf(&self) -> bool {
        &&& self.kind.wf()
        &&& shapes_wf(self.body@)
        &&& stays_within(self.dst@, self.kind)
    }

    /// The cat can be placed: it and its stretch lie within the playing field,
    /// and its descriptors are well-formed.
    pub open spec fn loadable(bl: Point, kind: Kind, data: data::Cat) -> bool {
        &&& kind.wf()
        &&& shapes_wf(data.body@)
        &&& -FIELD <= bl.x - kind.offset()
        &&& bl.x + data.out_size.x + kind.stretch() - kind.offset() <= FIELD
        &&& -FIELD <= bl.y - data.out_size.y
        &&& bl.y <= FIELD
    }

    /// The box of a cat whose bottom-left corner is at `bl`, in sub-units.
    pub open spec fn placed(bl: Point, data: data::Cat) -> Region {
        Region {
            top_left: Vector { x: bl.x * UNIT, y: (bl.y - data.out_size.y) * UNIT },
            dims: Vector { x: data.out_size.x * UNIT, y: data.out_size.y * UNIT },
        }
    }

    /// `self` is the cat of the given kind with its bottom-left corner at
    /// `bl`.
    pub open spec fn loads(&self, bl: Point, kind: Kind, data: data::Cat) -> bool {
        &&& self.wf()
        &&& self.dst@ == Self::placed(bl, data)
        &&& self.body@ == data.body@
        &&& self.kind == kind
    }

    /// A cat of the given kind with its bottom-left corner at `bl`, in screen
    /// units. `None` where it cannot be placed.
    pub fn load(bl: Point, kind: Kind, data: &data::Cat) -> (r: Option<Data>)
        ensures
            r.is_some() == Self::loadable(bl, kind, *data),
            r.is_some() ==> r.unwrap().loads(bl, kind, *data),
    {
        let (offset, stretch): (i64, i64) = match kind {
            Kind::Idle => (0, 0),
            Kind::Moving { total, current, left } => {
                if current > total {
                    return None;
                }
                (current as i64, total as i64)
            },
        };
        let (w, h): (i64, i64) = (data.out_size.x as i64, data.out_size.y as i64);
        let (x, y): (i64, i64) = (bl.x as i64, bl.y as i64);
        if x - offset < -FIELD || x + w + stretch - offset > FIELD || y - h < -FIELD || y
            > FIELD {
            return None;
        }
        if !data::all_wf(data.body.as_slice()) {
            return None;
        }
        Some(
            Data {
                dst: Rectangle {
                    top_left: Vec2 { x: x * UNIT, y: (y - h) * UNIT },
                    dims: Vec2 { x: w * UNIT, y: h * UNIT },
                },
                body: copy_shapes(&data.body),
                kind,
            },
        )
    }
}

/// A cat: a sprite that hurts. It sits, or it walks to and fro.
#[derive(Clone, Debug)]
pub struct Cat {
    pub dst: Rectangle,
    pub body: Vec<Shape>,
    pub kind: Kind,
}

impl Cat {
    pub open spec fn wf(&self) -> bool {
        &&& self.kind.wf()
        &&& shapes_wf(self.body@)
        &&& stays_within(self.dst@, self.kind)
    }

    /// The hit-volume of the cat, as it stands.
    pub open spec fn volume(&self) -> Volume {
        Volume::placed(self.dst@, self.body@, self.kind.faces_left())
    }

    /// The cat that `data` places.
    pub fn new(data: &Data) -> (r: Cat)
        ensures
            r.dst == data.dst,
            r.body@ == data.body@,
            r.kind == data.kind,
            data.wf() ==> r.wf(),
    {
        Cat { body: copy_shapes(&data.body), dst: data.dst, kind: data.kind }
    }

    /// Lets one tick pass: the cat walks as [`Kind::next`] says, and its box
    /// moves with it, [`UNIT`] sub-units for each screen unit.
    pub fn update(&mut self)
        requires
            old(self).wf(),
        ensures
            final(self).wf(),
            final(self).kind == old(self).kind.next(),
            final(self).dst@ == old(self).dst@.nudged(
                Vector {
                    x: (final(self).kind.offset() - old(self).kind.offset()) * UNIT,
                    y: 0,
                },
            ),
            final(self).body == old(self).body,
    {
        let before: i64 = match self.kind {
            Kind::Idle => 0,
            Kind::Moving { total, current, left } => current as i64,
        };
        self.kind = self.kind.step();
        let after: i64 = match self.kind {
            Kind::Idle => 0,
            Kind::Moving { total, current, left } => current as i64,
        };
        self.dst.top_left.x = self.dst.top_left.x + (after - before) * UNIT;
    }

    /// The hit-volume of the cat, as it stands.
    pub fn body(&self) -> (r: Body)
        requires
            self.wf(),
        ensures
            r@ == self.volume(),
            r.wf(),
            r@.held_by(self.dst@),
    {
        let backwards = match self.kind {
            Kind::Idle => true,
            Kind::Moving { total, current, left } => left,
        };
        Body::new(&self.dst, self.body.as_slice(), backwards)
    }
}

} // verus!

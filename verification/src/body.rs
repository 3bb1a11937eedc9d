use vstd::prelude::*;
use crate::data::{Dimension, Shape};
use crate::shape::{Circle, Disc, Intersect, Rectangle, Region};
use crate::vector::{Vec2, Vector, BOUND};

verus! {

/// `p` percent of `len`, rounded down.
pub open spec fn percent(len: int, p: int) -> int {
    len * p / 100
}

/// The rectangle that the percentages `tl` and `d` describe within `owner`.
pub open spec fn place_rectangle(owner: Region, tl: Dimension, d: Dimension) -> Region {
    Region {
        top_left: Vector {
            x: owner.top_left.x + percent(owner.dims.x, tl.x as int),
            y: owner.top_left.y + percent(owner.dims.y, tl.y as int),
        },
        dims: Vector {
            x: percent(owner.dims.x, d.x as int),
            y: percent(owner.dims.y, d.y as int),
        },
    }
}

/// `r` hundredths of a percent of `len`, rounded down.
pub open spec fn share(len: int, r: int) -> int {
    len * r / 10000
}

/// The circle that the percentages `c` and the hundredths of a percent `r`
/// describe within `owner`; the radius is a share of the shorter side.
pub open spec fn place_circle(owner: Region, c: Dimension, r: u32) -> Disc {
    Disc {
        center: Vector {
            x: owner.top_left.x + percent(owner.dims.x, c.x as int),
            y: owner.top_left.y + percent(owner.dims.y, c.y as int),
        },
        radius: share(
            if owner.dims.x <= owner.dims.y {
                owner.dims.x
            } else {
                owner.dims.y
            },
            r as int,
        ),
    }
}

/// The rectangle as it stands for an owner that faces the given way: where
/// `flip` is set, reflected about the vertical centre line of the box.
pub open spec fn facing(owner: Region, part: Region, flip: bool) -> Region {
    if flip {
        part.reflected_in(owner)
    } else {
        part
    }
}

/// The circle as it stands for an owner that faces the given way.
pub open spec fn facing_disc(owner: Region, part: Disc, flip: bool) -> Disc {
    if flip {
        part.reflected_in(owner)
    } else {
        part
    }
}

/// The rectangles among the descriptors, placed within `owner`, in the order
/// of the descriptors. Where `flip` is set, each stands as the mirror image of
/// where its percentages put it; that is where the mirrored percentages put
/// it, but for the rounding: see [`lemma_mirrored_part`].
pub open spec fn placed_rectangles(owner: Region, shapes: Seq<Shape>, flip: bool) -> Seq<Region>
    decreases shapes.len(),
{
    if shapes.len() == 0 {
        Seq::empty()
    } else {
        let rest = placed_rectangles(owner, shapes.drop_last(), flip);
        match shapes.last() {
            Shape::Rectangle(tl, d) => rest.push(
                facing(owner, place_rectangle(owner, tl, d), flip),
            ),
            Shape::Circle(_, _) => rest,
        }
    }
}

/// The circles among the descriptors, placed within `owner`, in the order of
/// the descriptors.
pub open spec fn placed_circles(owner: Region, shapes: Seq<Shape>, flip: bool) -> Seq<Disc>
    decreases shapes.len(),
{
    if shapes.len() == 0 {
        Seq::empty()
    } else {
        let rest = placed_circles(owner, shapes.drop_last(), flip);
        match shapes.last() {
            Shape::Rectangle(_, _) => rest,
            Shape::Circle(c, r) => rest.push(facing_disc(owner, place_circle(owner, c, r), flip)),
        }
    }
}

/// The first displacement of the list, if it holds any.
pub open spec fn first_some(s: Seq<Option<Vector>>) -> Option<Vector>
    decreases s.len(),
{
    if s.len() == 0 {
        None
    } else if s[0] is Some {
        s[0]
    } else {
        first_some(s.drop_first())
    }
}

/// The rectangle begins within `owner`, is no larger than it, ends within its
/// width, and hangs out of it below by no more than its height.
pub open spec fn held_part(owner: Region, part: Region) -> bool {
    &&& owner.left() <= part.left() && part.right() <= owner.right()
    &&& owner.top() <= part.top() && part.bottom() <= owner.bottom() + owner.dims.y
    &&& 0 <= part.dims.x && 0 <= part.dims.y <= owner.dims.y
}

/// A hit-volume as mathematical values: its rectangles and its circles.
pub struct Volume {
    pub rectangles: Seq<Region>,
    pub circles: Seq<Disc>,
}

impl Volume {
    /// The hit-volume that the descriptors describe within `owner`.
    pub open spec fn placed(owner: Region, shapes: Seq<Shape>, flip: bool) -> Volume {
        Volume {
            rectangles: placed_rectangles(owner, shapes, flip),
            circles: placed_circles(owner, shapes, flip),
        }
    }

    /// Every part moved by `delta`.
    pub open spec fn nudged(self, delta: Vector) -> Volume {
        Volume {
            rectangles: Seq::new(self.rectangles.len(), |i: int| self.rectangles[i].nudged(delta)),
            circles: Seq::new(self.circles.len(), |i: int| self.circles[i].nudged(delta)),
        }
    }

    /// Every rectangle begins within `owner`, is no larger than it and ends
    /// within its width, and every circle has its centre within `owner` and a
    /// radius no longer than either side of it. A rectangle may hang out of
    /// `owner` below, by no more than the height of `owner`.
    pub open spec fn held_by(self, owner: Region) -> bool {
        &&& forall|i: int|
            0 <= i < self.rectangles.len() ==> held_part(owner, #[trigger] self.rectangles[i])
        &&& forall|i: int|
            0 <= i < self.circles.len() ==> {
                let c = #[trigger] self.circles[i];
                &&& owner.left() <= c.center.x <= owner.right()
                &&& owner.top() <= c.center.y <= owner.bottom()
                &&& 0 <= c.radius <= owner.dims.x
                &&& c.radius <= owner.dims.y
            }
    }

    /// Every part is bounded.
    pub open spec fn bounded(self) -> bool {
        &&& forall|i: int| 0 <= i < self.rectangles.len() ==> (#[trigger] self.rectangles[i]).bounded()
        &&& forall|i: int| 0 <= i < self.circles.len() ==> (#[trigger] self.circles[i]).bounded()
    }

    /// What each part answers to `fixed`: the circles first, then the
    /// rectangles.
    pub open spec fn candidates(self, fixed: Region) -> Seq<Option<Vector>> {
        Seq::new(self.circles.len(), |i: int| self.circles[i].mtv_region(fixed)) + Seq::new(
            self.rectangles.len(),
            |i: int| self.rectangles[i].mtv(fixed),
        )
    }

    /// The displacement that the first overlapping part needs to leave
    /// `fixed`, the circles asked before the rectangles.
    pub open spec fn mtv(self, fixed: Region) -> Option<Vector> {
        first_some(self.candidates(fixed))
    }

    /// Some part overlaps the region.
    pub open spec fn overlaps_region(self, other: Region) -> bool {
        ||| exists|i: int| 0 <= i < self.rectangles.len() && (#[trigger] self.rectangles[i]).overlaps(other)
        ||| exists|i: int| 0 <= i < self.circles.len() && (#[trigger] self.circles[i]).overlaps_region(other)
    }

    /// Some part overlaps the disc.
    pub open spec fn overlaps_disc(self, other: Disc) -> bool {
        ||| exists|i: int| 0 <= i < self.rectangles.len() && (#[trigger] self.rectangles[i]).overlaps_disc(other)
        ||| exists|i: int| 0 <= i < self.circles.len() && (#[trigger] self.circles[i]).overlaps_disc(other)
    }

    /// Some part of `self` overlaps some part of `other`.
    pub open spec fn collides(self, other: Volume) -> bool {
        ||| exists|i: int| 0 <= i < other.rectangles.len() && self.overlaps_region(#[trigger] other.rectangles[i])
        ||| exists|i: int| 0 <= i < other.circles.len() && self.overlaps_disc(#[trigger] other.circles[i])
    }
}

/// A hit-volume: rectangles and circles that move together.
#[derive(Clone, Debug)]
pub struct Body {
    pub rectangles: Vec<Rectangle>,
    pub circles: Vec<Circle>,
}

impl View for Body {
    type V = Volume;

    open spec fn view(&self) -> Volume {
        Volume { rectangles: self.rectangles.deep_view(), circles: self.circles.deep_view() }
    }
}

/// `p` percent of `len`, rounded down.
fn scaled(len: i64, p: u32) -> (r: i64)
    requires
        0 <= len <= 2 * BOUND,
        p <= 100,
    ensures
        r == percent(len as int, p as int),
        0 <= r <= len,
{
    assert(len * p <= 2 * BOUND * 100) by (nonlinear_arith)
        requires
            0 <= len <= 2 * BOUND,
            0 <= p <= 100,
    ;
    let wide: u128 = (len as u128) * (p as u128);
    assert(wide / 100 <= len) by (nonlinear_arith)
        requires
            wide == len * p,
            0 <= len,
            0 <= p <= 100,
    ;
    (wide / 100) as i64
}

/// `r` hundredths of a percent of `len`, rounded down.
fn scaled_fine(len: i64, r: u32) -> (s: i64)
    requires
        0 <= len <= 2 * BOUND,
        r <= 10000,
    ensures
        s == share(len as int, r as int),
        0 <= s <= len,
{
    assert(len * r <= 2 * BOUND * 10000) by (nonlinear_arith)
        requires
            0 <= len <= 2 * BOUND,
            0 <= r <= 10000,
    ;
    let wide: u128 = (len as u128) * (r as u128);
    assert(wide / 10000 <= len) by (nonlinear_arith)
        requires
            wide == len * r,
            0 <= len,
            0 <= r <= 10000,
    ;
    (wide / 10000) as i64
}

/// Shares of one length add up to no more than the share of their sum.
pub proof fn lemma_percent_adds(len: int, p: int, q: int)
    requires
        0 <= len,
        0 <= p,
        0 <= q,
    ensures
        0 <= percent(len, p),
        percent(len, p) + percent(len, q) <= percent(len, p + q),
        p + q <= 100 ==> percent(len, p + q) <= len,
        len % 100 == 0 ==> percent(len, p) + percent(len, q) == percent(len, p + q),
        percent(len, 100) == len,
{
    assert(len * (p + q) == len * p + len * q) by (nonlinear_arith);
    assert(0 <= len * p && 0 <= len * q) by (nonlinear_arith)
        requires
            0 <= len,
            0 <= p,
            0 <= q,
    ;
    if p + q <= 100 {
        assert(len * (p + q) <= len * 100) by (nonlinear_arith)
            requires
                0 <= len,
                p + q <= 100,
        ;
    }
    if len % 100 == 0 {
        let k = len / 100;
        assert(len * p == 100 * (k * p)) by (nonlinear_arith)
            requires
                len == 100 * k,
        ;
        assert(len * q == 100 * (k * q)) by (nonlinear_arith)
            requires
                len == 100 * k,
        ;
    }
}

/// The share that is left of a length after two shares of it is what is left
/// after taking them one by one, less at most two for the rounding, and
/// exactly that where the length is a multiple of 100.
pub proof fn lemma_percent_rest(len: int, p: int, q: int)
    requires
        0 <= len,
        0 <= p,
        0 <= q,
        p + q <= 100,
    ensures
        len - percent(len, p) - percent(len, q) - 2 <= percent(len, 100 - p - q) <= len - percent(
            len,
            p,
        ) - percent(len, q),
        len % 100 == 0 ==> percent(len, 100 - p - q) == len - percent(len, p) - percent(len, q),
{
    let a = len * p;
    let b = len * q;
    assert(len * (100 - p - q) == 100 * len - a - b) by (nonlinear_arith)
        requires
            a == len * p,
            b == len * q,
    ;
    assert(0 <= a && 0 <= b) by (nonlinear_arith)
        requires
            a == len * p,
            b == len * q,
            0 <= len,
            0 <= p,
            0 <= q,
    ;
    if len % 100 == 0 {
        let k = len / 100;
        assert(a == 100 * (k * p) && b == 100 * (k * q)) by (nonlinear_arith)
            requires
                len == 100 * k,
                a == len * p,
                b == len * q,
        ;
    }
}

/// The mirror image of a part is what the mirrored descriptor describes: the
/// same size, the same height in the box, and the same place exactly where
/// the width of the box is a multiple of 100 sub-units. Otherwise the mirrored
/// percentages, rounded down, come to at most two sub-units further left.
pub proof fn lemma_mirrored_part(owner: Region, shape: Shape)
    requires
        0 <= owner.dims.x,
        shape.wf(),
    ensures
        match (shape, shape.mirrored()) {
            (Shape::Rectangle(tl, d), Shape::Rectangle(mtl, md)) => {
                let plain = place_rectangle(owner, tl, d);
                let turned = place_rectangle(owner, mtl, md);
                &&& turned.dims == plain.dims
                &&& turned.top_left.y == plain.top_left.y
                &&& plain.reflected_in(owner).left() - 2 <= turned.left() <= plain.reflected_in(
                    owner,
                ).left()
                &&& owner.dims.x % 100 == 0 ==> turned == plain.reflected_in(owner)
            },
            (Shape::Circle(c, r), Shape::Circle(mc, mr)) => {
                let plain = place_circle(owner, c, r);
                let turned = place_circle(owner, mc, mr);
                &&& turned.radius == plain.radius
                &&& turned.center.y == plain.center.y
                &&& plain.reflected_in(owner).center.x - 2 <= turned.center.x
                    <= plain.reflected_in(owner).center.x
                &&& owner.dims.x % 100 == 0 ==> turned == plain.reflected_in(owner)
            },
            _ => false,
        },
{
    match shape {
        Shape::Rectangle(tl, d) => {
            lemma_percent_rest(owner.dims.x, tl.x as int, d.x as int);
        },
        Shape::Circle(c, r) => {
            lemma_percent_rest(owner.dims.x, c.x as int, 0);
            assert(percent(owner.dims.x, 0) == 0) by (nonlinear_arith);
        },
    }
}

/// The hit-volume of an owner that faces the other way is the mirror image of
/// its hit-volume, part by part and for every box and every list of
/// descriptors: each part keeps its size, its radius and its height in the
/// box, and stands reflected about the vertical centre line of the box.
pub proof fn lemma_mirroring(owner: Region, shapes: Seq<Shape>)
    ensures
        ({
            let plain = Volume::placed(owner, shapes, false);
            let turned = Volume::placed(owner, shapes, true);
            &&& turned.rectangles.len() == plain.rectangles.len()
            &&& turned.circles.len() == plain.circles.len()
            &&& forall|i: int|
                0 <= i < plain.rectangles.len() ==> {
                    let (was, is) = (#[trigger] plain.rectangles[i], turned.rectangles[i]);
                    &&& is == was.reflected_in(owner)
                    &&& is.dims == was.dims
                    &&& is.top() == was.top()
                    &&& is.left() + is.right() + was.left() + was.right() == 2 * (owner.left()
                        + owner.right())
                }
            &&& forall|i: int|
                0 <= i < plain.circles.len() ==> {
                    let (was, is) = (#[trigger] plain.circles[i], turned.circles[i]);
                    &&& is == was.reflected_in(owner)
                    &&& is.radius == was.radius
                    &&& is.center.y == was.center.y
                    &&& is.center.x + was.center.x == owner.left() + owner.right()
                }
        }),
    decreases shapes.len(),
{
    if shapes.len() > 0 {
        lemma_mirroring(owner, shapes.drop_last());
    }
}

/// The first displacement of a list is the entry before which every entry is
/// empty, and there is none where every entry is empty.
pub proof fn lemma_first_some(s: Seq<Option<Vector>>, k: int)
    requires
        0 <= k <= s.len(),
        forall|j: int| 0 <= j < k ==> (#[trigger] s[j]) is None,
    ensures
        k < s.len() && s[k] is Some ==> first_some(s) == s[k],
        k == s.len() ==> first_some(s) is None,
    decreases k,
{
    if k > 0 {
        assert(s[0] is None);
        let t = s.drop_first();
        assert forall|j: int| 0 <= j < k - 1 implies (#[trigger] t[j]) is None by {
            assert(t[j] == s[j + 1]);
        }
        lemma_first_some(t, k - 1);
        if k < s.len() {
            assert(t[k - 1] == s[k]);
        }
    }
}

/// The place of the first displacement in a list: every entry before it is
/// empty, and it is the length of the list where every entry is empty.
pub proof fn lemma_first_some_index(s: Seq<Option<Vector>>) -> (k: int)
    ensures
        0 <= k <= s.len(),
        forall|j: int| 0 <= j < k ==> (#[trigger] s[j]) is None,
        k < s.len() ==> s[k] is Some && first_some(s) == s[k],
        k == s.len() ==> first_some(s) is None,
    decreases s.len(),
{
    if s.len() == 0 {
        0
    } else if s[0] is Some {
        0
    } else {
        let t = s.drop_first();
        let k = lemma_first_some_index(t);
        assert forall|j: int| 0 <= j < k + 1 implies (#[trigger] s[j]) is None by {
            if j > 0 {
                assert(t[j - 1] == s[j]);
            }
        }
        if k < t.len() {
            assert(t[k] == s[k + 1]);
        }
        k + 1
    }
}

impl Volume {
    /// A hit-volume has a displacement off a region exactly where it overlaps
    /// the region.
    pub proof fn lemma_mtv_iff_overlap(self, fixed: Region)
        ensures
            self.mtv(fixed) is Some <==> self.overlaps_region(fixed),
    {
        let all = self.candidates(fixed);
        let k = lemma_first_some_index(all);
        if k < all.len() {
            if k < self.circles.len() {
                assert(self.circles[k].overlaps_region(fixed));
            } else {
                assert(self.rectangles[k - self.circles.len()].overlaps(fixed));
            }
        } else {
            assert forall|i: int| 0 <= i < self.rectangles.len() implies !(
            #[trigger] self.rectangles[i]).overlaps(fixed) by {
                assert(all[self.circles.len() + i] is None);
            }
            assert forall|i: int| 0 <= i < self.circles.len() implies !(
            #[trigger] self.circles[i]).overlaps_region(fixed) by {
                assert(all[i] is None);
            }
        }
    }

    /// Moving by `a` and then by `b` is moving by their sum, for every part.
    pub proof fn lemma_nudge_additive(self, a: Vector, b: Vector)
        ensures
            self.nudged(a).nudged(b) == self.nudged(a.plus(b)),
            self.nudged(Vector::zero()) == self,
    {
        assert(self.nudged(a).nudged(b).rectangles =~= self.nudged(a.plus(b)).rectangles);
        assert(self.nudged(a).nudged(b).circles =~= self.nudged(a.plus(b)).circles);
        assert(self.nudged(Vector::zero()).rectangles =~= self.rectangles) by {
            assert forall|i: int| 0 <= i < self.rectangles.len() implies self.rectangles[i].nudged(
                Vector::zero(),
            ) == self.rectangles[i] by {}
        }
        assert(self.nudged(Vector::zero()).circles =~= self.circles) by {
            assert forall|i: int| 0 <= i < self.circles.len() implies self.circles[i].nudged(
                Vector::zero(),
            ) == self.circles[i] by {}
        }
    }
}

impl Body {
    /// Every part is well-formed.
    pub open spec fn wf(&self) -> bool {
        self@.bounded()
    }

    /// What each part answers to `fixed`: the circles first, then the
    /// rectangles.
    pub open spec fn candidates<S>(&self, fixed: &S) -> Seq<Option<Vector>> where
        Rectangle: Intersect<S>,
        Circle: Intersect<S>,
     {
        Seq::new(self.circles@.len(), |i: int| Intersect::separation(&self.circles@[i], fixed))
            + Seq::new(
            self.rectangles@.len(),
            |i: int| Intersect::separation(&self.rectangles@[i], fixed),
        )
    }

    /// Every part is well-formed, and so is `other`.
    pub open spec fn fits<S>(&self, other: &S) -> bool where
        Rectangle: Intersect<S>,
        Circle: Intersect<S>,
     {
        &&& forall|i: int|
            0 <= i < self.rectangles@.len() ==> Intersect::fits(
                &#[trigger] self.rectangles@[i],
                other,
            )
        &&& forall|i: int|
            0 <= i < self.circles@.len() ==> Intersect::fits(&#[trigger] self.circles@[i], other)
    }

    /// Some part overlaps `other`.
    pub open spec fn overlaps<S>(&self, other: &S) -> bool where
        Rectangle: Intersect<S>,
        Circle: Intersect<S>,
     {
        ||| exists|i: int|
            0 <= i < self.rectangles@.len() && Intersect::overlaps(
                &#[trigger] self.rectangles@[i],
                other,
            )
        ||| exists|i: int|
            0 <= i < self.circles@.len() && Intersect::overlaps(&#[trigger] self.circles@[i], other)
    }

    /// The hit-volume that the descriptors describe within the box `rect` of
    /// their owner. Each descriptor gives one part, and the parts of a kind
    /// keep the order of the descriptors. Where `flip` is set, every part is
    /// the mirror image, about the vertical centre line of the box, of the
    /// part that stands there otherwise.
    pub fn new(rect: &Rectangle, body: &[Shape], flip: bool) -> (r: Body)
        requires
            rect.roomy(),
            crate::data::shapes_wf(body@),
        ensures
            r@ == Volume::placed(rect@, body@, flip),
            r.rectangles@.len() + r.circles@.len() == body@.len(),
            r.wf(),
            r@.held_by(rect@),
    {
        let mut rectangles: Vec<Rectangle> = Vec::new();
        let mut circles: Vec<Circle> = Vec::new();
        let side: i64 = if rect.dims.x <= rect.dims.y {
            rect.dims.x
        } else {
            rect.dims.y
        };
        let mut i: usize = 0;
        while i < body.len()
            invariant
                i <= body.len(),
                rect.roomy(),
                crate::data::shapes_wf(body@),
                side == if rect.dims.x <= rect.dims.y {
                    rect.dims.x
                } else {
                    rect.dims.y
                },
                rectangles.deep_view() == placed_rectangles(rect@, body@.take(i as int), flip),
                circles.deep_view() == placed_circles(rect@, body@.take(i as int), flip),
                rectangles@.len() + circles@.len() == i,
                forall|j: int| 0 <= j < rectangles@.len() ==> (#[trigger] rectangles@[j]).wf(),
                forall|j: int| 0 <= j < circles@.len() ==> (#[trigger] circles@[j]).wf(),
                (Volume { rectangles: rectangles.deep_view(), circles: circles.deep_view() }).held_by(
                    rect@,
                ),
            decreases body.len() - i,
        {
            assert(body@[i as int].wf());
            let ghost held = Volume {
                rectangles: rectangles.deep_view(),
                circles: circles.deep_view(),
            };
            proof {
                let next = body@.take(i as int + 1);
                assert(next.drop_last() == body@.take(i as int));
                assert(next.last() == body@[i as int]);
            }
            match body[i] {
                Shape::Rectangle(tl, d) => {
                    proof {
                        lemma_percent_adds(rect.dims.x as int, tl.x as int, d.x as int);
                        lemma_percent_adds(rect.dims.y as int, tl.y as int, 0);
                        lemma_percent_adds(rect.dims.y as int, d.y as int, 0);
                    }
                    let from_left: i64 = scaled(rect.dims.x, tl.x);
                    let width: i64 = scaled(rect.dims.x, d.x);
                    let placed = Rectangle {
                        top_left: Vec2 {
                            x: if flip {
                                rect.top_left.x + (rect.dims.x - from_left - width)
                            } else {
                                rect.top_left.x + from_left
                            },
                            y: rect.top_left.y + scaled(rect.dims.y, tl.y),
                        },
                        dims: Vec2 { x: width, y: scaled(rect.dims.y, d.y) },
                    };
                    assert(placed@ == facing(rect@, place_rectangle(rect@, tl, d), flip));
                    let ghost before = rectangles.deep_view();
                    rectangles.push(placed);
                    assert(rectangles.deep_view() == before.push(placed@));
                    assert forall|j: int| 0 <= j < rectangles.deep_view().len() implies held_part(
                        rect@,
                        #[trigger] rectangles.deep_view()[j],
                    ) by {
                        if j < before.len() {
                            assert(rectangles.deep_view()[j] == held.rectangles[j]);
                        }
                    }
                    assert(circles.deep_view() == held.circles);
                },
                Shape::Circle(c, r) => {
                    let from_left: i64 = scaled(rect.dims.x, c.x);
                    let placed = Circle {
                        center: Vec2 {
                            x: if flip {
                                rect.top_left.x + (rect.dims.x - from_left)
                            } else {
                                rect.top_left.x + from_left
                            },
                            y: rect.top_left.y + scaled(rect.dims.y, c.y),
                        },
                        radius: scaled_fine(side, r),
                    };
                    assert(placed@ == facing_disc(rect@, place_circle(rect@, c, r), flip));
                    proof {
                        lemma_percent_adds(rect.dims.x as int, c.x as int, 0);
                        lemma_percent_adds(rect.dims.y as int, c.y as int, 0);
                    }
                    let ghost before = circles.deep_view();
                    circles.push(placed);
                    assert(circles.deep_view() == before.push(placed@));
                    assert forall|j: int| 0 <= j < circles.deep_view().len() implies {
                        let c = #[trigger] circles.deep_view()[j];
                        &&& rect@.left() <= c.center.x <= rect@.right()
                        &&& rect@.top() <= c.center.y <= rect@.bottom()
                        &&& 0 <= c.radius <= rect@.dims.x
                        &&& c.radius <= rect@.dims.y
                    } by {
                        if j < before.len() {
                            assert(circles.deep_view()[j] == held.circles[j]);
                        }
                    }
                    assert(rectangles.deep_view() == held.rectangles);
                },
            }
            i += 1;
        }
        assert(body@.take(i as int) == body@);
        Body { rectangles, circles }
    }

    /// Every part moved by `delta`.
    pub fn nudge(self, delta: Vec2) -> (r: Body)
        requires
            self.wf(),
            delta@.within(6 * BOUND),
        ensures
            r@ == self@.nudged(delta@),
    {
        let mut rectangles: Vec<Rectangle> = Vec::new();
        let mut circles: Vec<Circle> = Vec::new();
        let mut i: usize = 0;
        while i < self.rectangles.len()
            invariant
                i <= self.rectangles.len(),
                self.wf(),
                delta@.within(6 * BOUND),
                rectangles@.len() == i,
                forall|j: int| 0 <= j < i ==> (#[trigger] rectangles@[j])@ == self.rectangles@[j]@.nudged(delta@),
            decreases self.rectangles.len() - i,
        {
            assert(self@.rectangles[i as int].bounded());
            rectangles.push(self.rectangles[i].nudge(delta));
            i += 1;
        }
        let mut k: usize = 0;
        while k < self.circles.len()
            invariant
                k <= self.circles.len(),
                self.wf(),
                delta@.within(6 * BOUND),
                circles@.len() == k,
                forall|j: int| 0 <= j < k ==> (#[trigger] circles@[j])@ == self.circles@[j]@.nudged(delta@),
            decreases self.circles.len() - k,
        {
            assert(self@.circles[k as int].bounded());
            circles.push(self.circles[k].nudge(delta));
            k += 1;
        }
        let r = Body { rectangles, circles };
        assert(r@.rectangles =~= self@.nudged(delta@).rectangles);
        assert(r@.circles =~= self@.nudged(delta@).circles);
        r
    }

    /// The displacement that the first overlapping part needs to leave
    /// `fixed`: every circle is asked, then every rectangle, each kind in its
    /// order, and the first answer is returned. `None` where no part overlaps.
    pub fn mtv<S>(&self, fixed: &S) -> (r: Option<Vec2>) where
        Rectangle: Intersect<S>,
        Circle: Intersect<S>,

        requires
            self.fits(fixed),
        ensures
            r.deep_view() == first_some(self.candidates(fixed)),
            r.is_some() == self.overlaps(fixed),
    {
        let ghost all = self.candidates(fixed);
        let mut i: usize = 0;
        while i < self.circles.len()
            invariant
                i <= self.circles.len(),
                self.fits(fixed),
                all == self.candidates(fixed),
                forall|j: int| 0 <= j < i ==> (#[trigger] all[j]) is None,
                forall|j: int|
                    0 <= j < i ==> !Intersect::overlaps(&#[trigger] self.circles@[j], fixed),
            decreases self.circles.len() - i,
        {
            let found = Intersect::mtv(&self.circles[i], fixed);
            assert(all[i as int] == Intersect::separation(&self.circles@[i as int], fixed));
            if found.is_some() {
                proof {
                    lemma_first_some(all, i as int);
                }
                return found;
            }
            i += 1;
        }
        let mut k: usize = 0;
        while k < self.rectangles.len()
            invariant
                k <= self.rectangles.len(),
                i == self.circles.len(),
                self.fits(fixed),
                all == self.candidates(fixed),
                forall|j: int| 0 <= j < i + k ==> (#[trigger] all[j]) is None,
                forall|j: int|
                    0 <= j < i ==> !Intersect::overlaps(&#[trigger] self.circles@[j], fixed),
                forall|j: int|
                    0 <= j < k ==> !Intersect::overlaps(&#[trigger] self.rectangles@[j], fixed),
            decreases self.rectangles.len() - k,
        {
            let found = Intersect::mtv(&self.rectangles[k], fixed);
            assert(all[i + k] == Intersect::separation(&self.rectangles@[k as int], fixed));
            if found.is_some() {
                proof {
                    lemma_first_some(all, i + k);
                }
                return found;
            }
            k += 1;
        }
        proof {
            lemma_first_some(all, all.len() as int);
        }
        None
    }

    /// Whether some part overlaps `other`.
    pub fn intersects<S>(&self, other: &S) -> (r: bool) where
        Rectangle: Intersect<S>,
        Circle: Intersect<S>,

        requires
            self.fits(other),
        ensures
            r == self.overlaps(other),
    {
        let mut i: usize = 0;
        while i < self.rectangles.len()
            invariant
                i <= self.rectangles.len(),
                self.fits(other),
                forall|j: int|
                    0 <= j < i ==> !Intersect::overlaps(&#[trigger] self.rectangles@[j], other),
            decreases self.rectangles.len() - i,
        {
            if Intersect::intersects(&self.rectangles[i], other) {
                return true;
            }
            i += 1;
        }
        let mut k: usize = 0;
        while k < self.circles.len()
            invariant
                k <= self.circles.len(),
                i == self.rectangles.len(),
                self.fits(other),
                forall|j: int|
                    0 <= j < i ==> !Intersect::overlaps(&#[trigger] self.rectangles@[j], other),
                forall|j: int|
                    0 <= j < k ==> !Intersect::overlaps(&#[trigger] self.circles@[j], other),
            decreases self.circles.len() - k,
        {
            if Intersect::intersects(&self.circles[k], other) {
                return true;
            }
            k += 1;
        }
        false
    }

    /// Whether some part of `self` overlaps some part of `other`.
    pub fn collides(&self, other: &Body) -> (r: bool)
        requires
            self.wf(),
            other.wf(),
        ensures
            r == self@.collides(other@),
    {
        let mut i: usize = 0;
        while i < other.rectangles.len()
            invariant
                i <= other.rectangles.len(),
                self.wf(),
                other.wf(),
                forall|j: int| 0 <= j < i ==> !self@.overlaps_region(#[trigger] other@.rectangles[j]),
            decreases other.rectangles.len() - i,
        {
            assert(other@.rectangles[i as int].bounded());
            proof {
                self.lemma_overlaps_rectangle(&other.rectangles@[i as int]);
            }
            if self.intersects(&other.rectangles[i]) {
                return true;
            }
            i += 1;
        }
        let mut k: usize = 0;
        while k < other.circles.len()
            invariant
                k <= other.circles.len(),
                i == other.rectangles.len(),
                self.wf(),
                other.wf(),
                forall|j: int| 0 <= j < i ==> !self@.overlaps_region(#[trigger] other@.rectangles[j]),
                forall|j: int| 0 <= j < k ==> !self@.overlaps_disc(#[trigger] other@.circles[j]),
            decreases other.circles.len() - k,
        {
            assert(other@.circles[k as int].bounded());
            proof {
                self.lemma_overlaps_circle(&other.circles@[k as int]);
            }
            if self.intersects(&other.circles[k]) {
                return true;
            }
            k += 1;
        }
        false
    }

    /// Against a rectangle, what the parts answer is what their views answer.
    pub proof fn lemma_overlaps_rectangle(&self, other: &Rectangle)
        requires
            self.wf(),
            other.wf(),
        ensures
            self.fits(other),
            self.overlaps(other) == self@.overlaps_region(other@),
            self.candidates(other) == self@.candidates(other@),
            first_some(self.candidates(other)) == self@.mtv(other@),
    {
        assert forall|i: int| 0 <= i < self.rectangles@.len() implies Intersect::fits(
            &#[trigger] self.rectangles@[i],
            other,
        ) by {
            assert(self@.rectangles[i].bounded());
        }
        assert forall|i: int| 0 <= i < self.circles@.len() implies Intersect::fits(
            &#[trigger] self.circles@[i],
            other,
        ) by {
            assert(self@.circles[i].bounded());
        }
        if self.overlaps(other) {
            if exists|i: int|
                0 <= i < self.rectangles@.len() && Intersect::overlaps(
                    &#[trigger] self.rectangles@[i],
                    other,
                ) {
                let i = choose|i: int|
                    0 <= i < self.rectangles@.len() && Intersect::overlaps(
                        &#[trigger] self.rectangles@[i],
                        other,
                    );
                assert(self@.rectangles[i].overlaps(other@));
            } else {
                let i = choose|i: int|
                    0 <= i < self.circles@.len() && Intersect::overlaps(
                        &#[trigger] self.circles@[i],
                        other,
                    );
                assert(self@.circles[i].overlaps_region(other@));
            }
        }
        if self@.overlaps_region(other@) {
            if exists|i: int|
                0 <= i < self@.rectangles.len() && (#[trigger] self@.rectangles[i]).overlaps(
                    other@,
                ) {
                let i = choose|i: int|
                    0 <= i < self@.rectangles.len() && (#[trigger] self@.rectangles[i]).overlaps(
                        other@,
                    );
                assert(Intersect::overlaps(&self.rectangles@[i], other));
            } else {
                let i = choose|i: int|
                    0 <= i < self@.circles.len() && (#[trigger] self@.circles[i]).overlaps_region(
                        other@,
                    );
                assert(Intersect::overlaps(&self.circles@[i], other));
            }
        }
        assert(self.candidates(other) =~= self@.candidates(other@));
    }

    /// Against a circle, what the parts answer is what their views answer.
    pub proof fn lemma_overlaps_circle(&self, other: &Circle)
        requires
            self.wf(),
            other.wf(),
        ensures
            self.fits(other),
            self.overlaps(other) == self@.overlaps_disc(other@),
    {
        assert forall|i: int| 0 <= i < self.rectangles@.len() implies Intersect::fits(
            &#[trigger] self.rectangles@[i],
            other,
        ) by {
            assert(self@.rectangles[i].bounded());
        }
        assert forall|i: int| 0 <= i < self.circles@.len() implies Intersect::fits(
            &#[trigger] self.circles@[i],
            other,
        ) by {
            assert(self@.circles[i].bounded());
        }
        if self.overlaps(other) {
            if exists|i: int|
                0 <= i < self.rectangles@.len() && Intersect::overlaps(
                    &#[trigger] self.rectangles@[i],
                    other,
                ) {
                let i = choose|i: int|
                    0 <= i < self.rectangles@.len() && Intersect::overlaps(
                        &#[trigger] self.rectangles@[i],
                        other,
                    );
                assert(self@.rectangles[i].overlaps_disc(other@));
            } else {
                let i = choose|i: int|
                    0 <= i < self.circles@.len() && Intersect::overlaps(
                        &#[trigger] self.circles@[i],
                        other,
                    );
                assert(self@.circles[i].overlaps_disc(other@));
            }
        }
        if self@.overlaps_disc(other@) {
            if exists|i: int|
                0 <= i < self@.rectangles.len() && (#[trigger] self@.rectangles[i]).overlaps_disc(
                    other@,
                ) {
                let i = choose|i: int|
                    0 <= i < self@.rectangles.len() && (
                    #[trigger] self@.rectangles[i]).overlaps_disc(other@);
                assert(Intersect::overlaps(&self.rectangles@[i], other));
            } else {
                let i = choose|i: int|
                    0 <= i < self@.circles.len() && (#[trigger] self@.circles[i]).overlaps_disc(
                        other@,
                    );
                assert(Intersect::overlaps(&self.circles@[i], other));
            }
        }
    }
}

} // verus!

use vstd::prelude::*;
use crate::math::{isqrt, lemma_stretch_range, root, stretch, stretched};
use crate::vector::{Vec2, Vector, BOUND};

verus! {

/// The shortest of four displacements, each given by its length: up, down,
/// left, right. Of equal lengths the first in that order is taken.
pub open spec fn shortest_escape(up: int, down: int, left: int, right: int) -> Vector {
    if up <= down && up <= left && up <= right {
        Vector { x: 0, y: -up }
    } else if down <= left && down <= right {
        Vector { x: 0, y: down }
    } else if left <= right {
        Vector { x: -left, y: 0 }
    } else {
        Vector { x: right, y: 0 }
    }
}

/// The displacement that carries a point at offset `v` from an anchor, along
/// `v`, to the distance `reach` from that anchor. Each component of the target
/// is rounded away from zero, so the point ends no nearer than `reach`.
pub open spec fn radial_push(v: Vector, reach: int) -> Vector {
    let s = root(v.norm2());
    Vector { x: stretch(v.x, reach, s) - v.x, y: stretch(v.y, reach, s) - v.y }
}

/// `p` limited to the span from `low` to `high`.
pub open spec fn clamp(p: int, low: int, high: int) -> int {
    if p < low {
        low
    } else if p > high {
        high
    } else {
        p
    }
}

/// An axis-aligned rectangle as mathematical integers: its top-left corner and
/// its extent, `y` growing downwards.
pub struct Region {
    pub top_left: Vector,
    pub dims: Vector,
}

/// A circle as mathematical integers.
pub struct Disc {
    pub center: Vector,
    pub radius: int,
}

impl Region {
    pub open spec fn left(self) -> int {
        self.top_left.x
    }

    pub open spec fn right(self) -> int {
        self.top_left.x + self.dims.x
    }

    pub open spec fn top(self) -> int {
        self.top_left.y
    }

    pub open spec fn bottom(self) -> int {
        self.top_left.y + self.dims.y
    }

    /// The same region moved by `delta`.
    pub open spec fn nudged(self, delta: Vector) -> Region {
        Region { top_left: self.top_left.plus(delta), dims: self.dims }
    }

    /// The extent is not negative and every corner is within [`BOUND`] of the
    /// origin on both axes.
    pub open spec fn bounded(self) -> bool {
        &&& 0 <= self.dims.x && 0 <= self.dims.y
        &&& -BOUND <= self.left() && self.right() <= BOUND
        &&& -BOUND <= self.top() && self.bottom() <= BOUND
    }

    /// The region reflected about the vertical centre line of `owner`.
    pub open spec fn reflected_in(self, owner: Region) -> Region {
        Region {
            top_left: Vector { x: owner.left() + owner.right() - self.right(), y: self.top_left.y },
            dims: self.dims,
        }
    }

    /// The region is bounded, and so is the one of the same width that reaches
    /// down once more by its height: there is room for parts that hang out of
    /// it below.
    pub open spec fn roomy(self) -> bool {
        self.bounded() && self.bottom() + self.dims.y <= BOUND
    }

    /// `inner` lies within `self`.
    pub open spec fn contains(self, inner: Region) -> bool {
        &&& self.left() <= inner.left() && inner.right() <= self.right()
        &&& self.top() <= inner.top() && inner.bottom() <= self.bottom()
    }

    /// The point of the region that is nearest to `p`.
    pub open spec fn nearest(self, p: Vector) -> Vector {
        Vector {
            x: clamp(p.x, self.left(), self.right()),
            y: clamp(p.y, self.top(), self.bottom()),
        }
    }

    /// The two regions share an area that is more than a line. A region without
    /// width or height overlaps nothing.
    pub open spec fn overlaps(self, other: Region) -> bool {
        &&& self.left() < other.right() && other.left() < self.right()
        &&& self.top() < other.bottom() && other.top() < self.bottom()
        &&& self.left() < self.right() && other.left() < other.right()
        &&& self.top() < self.bottom() && other.top() < other.bottom()
    }

    /// The smallest displacement along one axis that moves `self` off `fixed`,
    /// or `None` where they do not overlap.
    pub open spec fn mtv(self, fixed: Region) -> Option<Vector> {
        if self.overlaps(fixed) {
            Some(
                shortest_escape(
                    self.bottom() - fixed.top(),
                    fixed.bottom() - self.top(),
                    self.right() - fixed.left(),
                    fixed.right() - self.left(),
                ),
            )
        } else {
            None
        }
    }

    /// Whether the region and the disc overlap.
    pub open spec fn overlaps_disc(self, other: Disc) -> bool {
        other.overlaps_region(self)
    }

    /// The displacement that moves `self` off the fixed disc: the opposite of
    /// the one that would move the disc off `self`.
    pub open spec fn mtv_disc(self, fixed: Disc) -> Option<Vector> {
        match fixed.mtv_region(self) {
            Some(d) => Some(d.negated()),
            None => None,
        }
    }
}

impl Disc {
    /// The same disc moved by `delta`.
    pub open spec fn nudged(self, delta: Vector) -> Disc {
        Disc { center: self.center.plus(delta), radius: self.radius }
    }

    /// The centre is within [`BOUND`] of the origin on both axes, and the
    /// radius is not negative and at most twice [`BOUND`].
    pub open spec fn bounded(self) -> bool {
        self.center.within(BOUND as int) && 0 <= self.radius <= 2 * BOUND
    }

    /// The disc reflected about the vertical centre line of `owner`.
    pub open spec fn reflected_in(self, owner: Region) -> Disc {
        Disc {
            center: Vector { x: owner.left() + owner.right() - self.center.x, y: self.center.y },
            radius: self.radius,
        }
    }

    /// The offset of the centre from the nearest point of `r`.
    pub open spec fn offset_from(self, r: Region) -> Vector {
        self.center.minus(r.nearest(self.center))
    }

    /// The nearest point of the region is closer to the centre than the radius.
    /// A disc without radius and a region without width or height overlap
    /// nothing.
    pub open spec fn overlaps_region(self, r: Region) -> bool {
        &&& self.radius > 0 && r.dims.x > 0 && r.dims.y > 0
        &&& self.offset_from(r).norm2() < self.radius * self.radius
    }

    /// The centres are closer than the sum of the radii.
    pub open spec fn overlaps_disc(self, other: Disc) -> bool {
        &&& self.radius > 0 && other.radius > 0
        &&& self.center.minus(other.center).norm2() < (self.radius + other.radius) * (self.radius
            + other.radius)
    }

    /// The displacement that moves the disc off `fixed`. A centre outside the
    /// region is pushed straight away from the nearest point of the region
    /// until it is a radius away; a centre inside leaves through the nearest
    /// edge.
    pub open spec fn mtv_region(self, fixed: Region) -> Option<Vector> {
        let v = self.offset_from(fixed);
        if !self.overlaps_region(fixed) {
            None
        } else if v == Vector::zero() {
            Some(
                shortest_escape(
                    self.center.y + self.radius - fixed.top(),
                    fixed.bottom() - self.center.y + self.radius,
                    self.center.x + self.radius - fixed.left(),
                    fixed.right() - self.center.x + self.radius,
                ),
            )
        } else {
            Some(radial_push(v, self.radius))
        }
    }

    /// The displacement that moves the disc off the fixed disc: straight away
    /// from its centre until the centres are the two radii apart, and upwards
    /// where the centres coincide.
    pub open spec fn mtv_disc(self, fixed: Disc) -> Option<Vector> {
        let v = self.center.minus(fixed.center);
        if !self.overlaps_disc(fixed) {
            None
        } else if v == Vector::zero() {
            Some(Vector { x: 0, y: -(self.radius + fixed.radius) })
        } else {
            Some(radial_push(v, self.radius + fixed.radius))
        }
    }
}

/// An axis-aligned rectangle, in sub-units.
#[derive(Clone, Copy, Debug, PartialEq, Eq, Structural)]
pub struct Rectangle {
    pub top_left: Vec2,
    pub dims: Vec2,
}

/// A circle, in sub-units.
#[derive(Clone, Copy, Debug, PartialEq, Eq, Structural)]
pub struct Circle {
    pub center: Vec2,
    pub radius: i64,
}

impl View for Rectangle {
    type V = Region;

    open spec fn view(&self) -> Region {
        Region { top_left: self.top_left@, dims: self.dims@ }
    }
}

impl DeepView for Rectangle {
    type V = Region;

    open spec fn deep_view(&self) -> Region {
        self@
    }
}

impl View for Circle {
    type V = Disc;

    open spec fn view(&self) -> Disc {
        Disc { center: self.center@, radius: self.radius as int }
    }
}

impl DeepView for Circle {
    type V = Disc;

    open spec fn deep_view(&self) -> Disc {
        self@
    }
}

/// What a moving shape and a shape of kind `S` have to do with each other.
pub trait Intersect<S> {
    /// Both shapes are well-formed.
    spec fn fits(&self, other: &S) -> bool;

    /// The two shapes overlap.
    spec fn overlaps(&self, other: &S) -> bool;

    /// The displacement that moves `self` off `fixed`, if they overlap.
    spec fn separation(&self, fixed: &S) -> Option<Vector>;

    /// Whether the two shapes overlap.
    fn intersects(&self, other: &S) -> (r: bool)
        requires
            self.fits(other),
        ensures
            r == self.overlaps(other),
    ;

    /// The displacement that moves `self` off `fixed`, and `None` exactly where
    /// they do not overlap.
    fn mtv(&self, fixed: &S) -> (r: Option<Vec2>)
        requires
            self.fits(fixed),
        ensures
            r.deep_view() == self.separation(fixed),
            r.is_some() == self.overlaps(fixed),
    ;
}

/// The shortest of four displacements given by their lengths.
fn escape(up: i64, down: i64, left: i64, right: i64) -> (r: Vec2)
    requires
        i64::MIN < up && i64::MIN < left,
    ensures
        r@ == shortest_escape(up as int, down as int, left as int, right as int),
{
    if up <= down && up <= left && up <= right {
        Vec2 { x: 0, y: -up }
    } else if down <= left && down <= right {
        Vec2 { x: 0, y: down }
    } else if left <= right {
        Vec2 { x: -left, y: 0 }
    } else {
        Vec2 { x: right, y: 0 }
    }
}

fn clamped(p: i64, low: i64, high: i64) -> (r: i64)
    ensures
        r == clamp(p as int, low as int, high as int),
{
    if p < low {
        low
    } else if p > high {
        high
    } else {
        p
    }
}

/// The square of the length of `(x, y)`.
fn norm2(x: i64, y: i64) -> (n: u128)
    requires
        -4 * BOUND <= x <= 4 * BOUND,
        -4 * BOUND <= y <= 4 * BOUND,
    ensures
        n as int == (Vector { x: x as int, y: y as int }).norm2(),
        n <= 32 * BOUND * BOUND,
{
    let mx: u128 = if x >= 0 { x as u128 } else { (-x) as u128 };
    let my: u128 = if y >= 0 { y as u128 } else { (-y) as u128 };
    assert(mx * mx == x * x && mx * mx <= 16 * BOUND * BOUND) by (nonlinear_arith)
        requires
            mx == x || mx == -x,
            0 <= mx <= 4 * BOUND,
    ;
    assert(my * my == y * y && my * my <= 16 * BOUND * BOUND) by (nonlinear_arith)
        requires
            my == y || my == -y,
            0 <= my <= 4 * BOUND,
    ;
    mx * mx + my * my
}

/// The push along `(x, y)` out to the distance `reach`.
fn push(x: i64, y: i64, reach: i64) -> (r: Vec2)
    requires
        -4 * BOUND <= x <= 4 * BOUND,
        -4 * BOUND <= y <= 4 * BOUND,
        0 < reach <= 4 * BOUND,
        x != 0 || y != 0,
        (Vector { x: x as int, y: y as int }).norm2() < reach * reach,
    ensures
        r@ == radial_push(Vector { x: x as int, y: y as int }, reach as int),
{
    let n: u128 = norm2(x, y);
    assert(reach * reach <= 16 * BOUND * BOUND) by (nonlinear_arith)
        requires
            0 < reach <= 4 * BOUND,
    ;
    let s: u64 = isqrt(n);
    proof {
        lemma_components_within_root(x as int, y as int, s as int);
        lemma_stretch_range(x as int, reach as int, s as int);
        lemma_stretch_range(y as int, reach as int, s as int);
    }
    Vec2 { x: stretched(x, reach, s) - x, y: stretched(y, reach, s) - y }
}

/// Neither component of a vector is longer than the whole root of its squared
/// length, and that root is positive unless the vector is zero.
pub proof fn lemma_components_within_root(x: int, y: int, s: int)
    requires
        0 <= s,
        x * x + y * y < (s + 1) * (s + 1),
        s * s <= x * x + y * y,
    ensures
        -s <= x <= s,
        -s <= y <= s,
        (x != 0 || y != 0) ==> s > 0,
{
    assert(-s <= x <= s) by (nonlinear_arith)
        requires
            0 <= s,
            x * x + y * y < (s + 1) * (s + 1),
    ;
    assert(-s <= y <= s) by (nonlinear_arith)
        requires
            0 <= s,
            x * x + y * y < (s + 1) * (s + 1),
    ;
    if x != 0 || y != 0 {
        assert(x * x + y * y > 0) by (nonlinear_arith)
            requires
                x != 0 || y != 0,
        ;
    }
}

impl Rectangle {
    pub open spec fn wf(&self) -> bool {
        self@.bounded()
    }

    /// The rectangle can own a hit-volume: see [`Region::roomy`].
    pub open spec fn roomy(&self) -> bool {
        self@.roomy()
    }

    /// The rectangle moved by `delta`.
    pub fn nudge(&self, delta: Vec2) -> (r: Rectangle)
        requires
            i64::MIN <= self.top_left.x + delta.x <= i64::MAX,
            i64::MIN <= self.top_left.y + delta.y <= i64::MAX,
        ensures
            r@ == self@.nudged(delta@),
    {
        Rectangle { top_left: self.top_left.plus(delta), dims: self.dims }
    }
}

impl Circle {
    pub open spec fn wf(&self) -> bool {
        self@.bounded()
    }

    /// The circle moved by `delta`.
    pub fn nudge(&self, delta: Vec2) -> (r: Circle)
        requires
            i64::MIN <= self.center.x + delta.x <= i64::MAX,
            i64::MIN <= self.center.y + delta.y <= i64::MAX,
        ensures
            r@ == self@.nudged(delta@),
    {
        Circle { center: self.center.plus(delta), radius: self.radius }
    }

    /// The offset of the centre from the nearest point of `r`.
    fn offset_from(&self, r: &Rectangle) -> (v: Vec2)
        requires
            self.wf(),
            r.wf(),
        ensures
            v@ == self@.offset_from(r@),
            v@.within(2 * BOUND),
    {
        let qx: i64 = clamped(self.center.x, r.top_left.x, r.top_left.x + r.dims.x);
        let qy: i64 = clamped(self.center.y, r.top_left.y, r.top_left.y + r.dims.y);
        Vec2 { x: self.center.x - qx, y: self.center.y - qy }
    }
}

impl Intersect<Rectangle> for Rectangle {
    open spec fn fits(&self, other: &Rectangle) -> bool {
        self.wf() && other.wf()
    }

    open spec fn overlaps(&self, other: &Rectangle) -> bool {
        self@.overlaps(other@)
    }

    open spec fn separation(&self, fixed: &Rectangle) -> Option<Vector> {
        self@.mtv(fixed@)
    }

    fn intersects(&self, other: &Rectangle) -> (r: bool) {
        let (sl, sr): (i64, i64) = (self.top_left.x, self.top_left.x + self.dims.x);
        let (st, sb): (i64, i64) = (self.top_left.y, self.top_left.y + self.dims.y);
        let (ol, or): (i64, i64) = (other.top_left.x, other.top_left.x + other.dims.x);
        let (ot, ob): (i64, i64) = (other.top_left.y, other.top_left.y + other.dims.y);
        sl < or && ol < sr && st < ob && ot < sb && sl < sr && ol < or && st < sb && ot < ob
    }

    fn mtv(&self, fixed: &Rectangle) -> (r: Option<Vec2>) {
        if self.intersects(fixed) {
            Some(
                escape(
                    self.top_left.y + self.dims.y - fixed.top_left.y,
                    fixed.top_left.y + fixed.dims.y - self.top_left.y,
                    self.top_left.x + self.dims.x - fixed.top_left.x,
                    fixed.top_left.x + fixed.dims.x - self.top_left.x,
                ),
            )
        } else {
            None
        }
    }
}

impl Intersect<Rectangle> for Circle {
    open spec fn fits(&self, other: &Rectangle) -> bool {
        self.wf() && other.wf()
    }

    open spec fn overlaps(&self, other: &Rectangle) -> bool {
        self@.overlaps_region(other@)
    }

    open spec fn separation(&self, fixed: &Rectangle) -> Option<Vector> {
        self@.mtv_region(fixed@)
    }

    fn intersects(&self, other: &Rectangle) -> (r: bool) {
        if self.radius <= 0 || other.dims.x <= 0 || other.dims.y <= 0 {
            return false;
        }
        let v: Vec2 = self.offset_from(other);
        let reach: u128 = self.radius as u128;
        assert(reach * reach == self.radius * self.radius) by (nonlinear_arith)
            requires
                reach == self.radius,
        ;
        assert(reach * reach <= 4 * BOUND * BOUND) by (nonlinear_arith)
            requires
                0 <= reach <= 2 * BOUND,
        ;
        norm2(v.x, v.y) < reach * reach
    }

    fn mtv(&self, fixed: &Rectangle) -> (r: Option<Vec2>) {
        if !self.intersects(fixed) {
            return None;
        }
        let v: Vec2 = self.offset_from(fixed);
        if v.x == 0 && v.y == 0 {
            Some(
                escape(
                    self.center.y + self.radius - fixed.top_left.y,
                    fixed.top_left.y + fixed.dims.y - self.center.y + self.radius,
                    self.center.x + self.radius - fixed.top_left.x,
                    fixed.top_left.x + fixed.dims.x - self.center.x + self.radius,
                ),
            )
        } else {
            Some(push(v.x, v.y, self.radius))
        }
    }
}

impl Intersect<Circle> for Rectangle {
    open spec fn fits(&self, other: &Circle) -> bool {
        self.wf() && other.wf()
    }

    open spec fn overlaps(&self, other: &Circle) -> bool {
        self@.overlaps_disc(other@)
    }

    open spec fn separation(&self, fixed: &Circle) -> Option<Vector> {
        self@.mtv_disc(fixed@)
    }

    fn intersects(&self, other: &Circle) -> (r: bool) {
        other.intersects(self)
    }

    fn mtv(&self, fixed: &Circle) -> (r: Option<Vec2>) {
        match fixed.mtv(self) {
            Some(d) => {
                proof {
                    lemma_region_push_range(fixed@, self@);
                }
                Some(d.negated())
            },
            None => None,
        }
    }
}

impl Intersect<Circle> for Circle {
    open spec fn fits(&self, other: &Circle) -> bool {
        self.wf() && other.wf()
    }

    open spec fn overlaps(&self, other: &Circle) -> bool {
        self@.overlaps_disc(other@)
    }

    open spec fn separation(&self, fixed: &Circle) -> Option<Vector> {
        self@.mtv_disc(fixed@)
    }

    fn intersects(&self, other: &Circle) -> (r: bool) {
        if self.radius <= 0 || other.radius <= 0 {
            return false;
        }
        let reach: u128 = (self.radius + other.radius) as u128;
        assert(reach * reach == (self.radius + other.radius) * (self.radius + other.radius))
            by (nonlinear_arith)
            requires
                reach == self.radius + other.radius,
        ;
        assert(reach * reach <= 16 * BOUND * BOUND) by (nonlinear_arith)
            requires
                0 <= reach <= 4 * BOUND,
        ;
        norm2(self.center.x - other.center.x, self.center.y - other.center.y) < reach * reach
    }

    fn mtv(&self, fixed: &Circle) -> (r: Option<Vec2>) {
        if !self.intersects(fixed) {
            return None;
        }
        let (x, y): (i64, i64) = (self.center.x - fixed.center.x, self.center.y - fixed.center.y);
        if x == 0 && y == 0 {
            Some(Vec2 { x: 0, y: -(self.radius + fixed.radius) })
        } else {
            Some(push(x, y, self.radius + fixed.radius))
        }
    }
}

/// A push out to `reach` is along the offset and no longer than `reach` on
/// either axis.
pub proof fn lemma_radial_push_range(v: Vector, reach: int)
    requires
        v != Vector::zero(),
        0 < reach,
        v.norm2() < reach * reach,
        exists|s: int| crate::math::is_root(v.norm2(), s),
    ensures
        radial_push(v, reach).within(reach),
        v.x >= 0 ==> radial_push(v, reach).x >= 0,
        v.x <= 0 ==> radial_push(v, reach).x <= 0,
        v.y >= 0 ==> radial_push(v, reach).y >= 0,
        v.y <= 0 ==> radial_push(v, reach).y <= 0,
{
    let s = root(v.norm2());
    lemma_components_within_root(v.x, v.y, s);
    lemma_stretch_range(v.x, reach, s);
    lemma_stretch_range(v.y, reach, s);
    assert(s < reach) by (nonlinear_arith)
        requires
            0 <= s,
            0 < reach,
            s * s < reach * reach,
    ;
    lemma_stretch_grows(v.x, reach, s);
    lemma_stretch_grows(v.y, reach, s);
}

/// Stretching by a factor above one does not shorten.
pub proof fn lemma_stretch_grows(a: int, reach: int, s: int)
    requires
        0 < s <= reach,
    ensures
        a >= 0 ==> stretch(a, reach, s) >= a,
        a <= 0 ==> stretch(a, reach, s) <= a,
{
    let m = if a >= 0 { a } else { -a };
    assert(m * reach >= m * s >= 0) by (nonlinear_arith)
        requires
            0 <= m,
            0 < s <= reach,
    ;
    crate::math::lemma_ceil_div(m * reach, s);
    let q = crate::math::ceil_div(m * reach, s);
    assert(q >= m) by (nonlinear_arith)
        requires
            q * s >= m * reach,
            m * reach >= m * s,
            0 < s,
    ;
    if a < 0 {
        assert(-a * reach == m * reach);
    }
    if a == 0 {
        lemma_stretch_range(a, reach, s);
    }
}

/// What moves a disc off a region is within four times [`BOUND`] on either
/// axis.
pub proof fn lemma_region_push_range(d: Disc, r: Region)
    requires
        d.bounded(),
        r.bounded(),
    ensures
        d.mtv_region(r) is Some ==> d.mtv_region(r).unwrap().within(4 * BOUND),
{
    if d.mtv_region(r) is Some {
        let v = d.offset_from(r);
        if v != Vector::zero() {
            assert(v.norm2() >= 0) by (nonlinear_arith)
                requires
                    v.norm2() == v.x * v.x + v.y * v.y,
            ;
            lemma_whole_root_exists(v.norm2());
            lemma_radial_push_range(v, d.radius);
        }
    }
}

/// Every number that is not negative has a whole root.
pub proof fn lemma_whole_root_exists(n: int)
    requires
        0 <= n,
    ensures
        exists|s: int| crate::math::is_root(n, s),
    decreases n,
{
    if n == 0 {
        assert(crate::math::is_root(0, 0));
    } else {
        let m = n - 1;
        lemma_whole_root_exists(m);
        let s = root(m);
        if (s + 1) * (s + 1) <= n {
            assert((s + 2) * (s + 2) > n) by (nonlinear_arith)
                requires
                    n - 1 < (s + 1) * (s + 1),
                    0 <= s,
            ;
            assert(crate::math::is_root(n, s + 1));
        } else {
            assert(crate::math::is_root(n, s));
        }
    }
}

/// A vector whose components are stretched from a root `s` of its squared
/// length out to `reach` is at least `reach` long.
pub proof fn lemma_stretched_reaches(v: Vector, reach: int, s: int)
    requires
        0 < s,
        0 <= reach,
        s * s <= v.norm2(),
    ensures
        (Vector { x: stretch(v.x, reach, s), y: stretch(v.y, reach, s) }).norm2() >= reach * reach,
{
    let a = if v.x >= 0 { v.x } else { -v.x };
    let b = if v.y >= 0 { v.y } else { -v.y };
    assert(0 <= a * reach && 0 <= b * reach) by (nonlinear_arith)
        requires
            0 <= a,
            0 <= b,
            0 <= reach,
    ;
    crate::math::lemma_ceil_div(a * reach, s);
    crate::math::lemma_ceil_div(b * reach, s);
    let x = crate::math::ceil_div(a * reach, s);
    let y = crate::math::ceil_div(b * reach, s);
    assert(-v.x * reach == a * reach || v.x * reach == a * reach);
    assert(-v.y * reach == b * reach || v.y * reach == b * reach);
    assert(stretch(v.x, reach, s) == x || stretch(v.x, reach, s) == -x);
    assert(stretch(v.y, reach, s) == y || stretch(v.y, reach, s) == -y);
    assert(a * a + b * b == v.norm2()) by (nonlinear_arith)
        requires
            a == v.x || a == -v.x,
            b == v.y || b == -v.y,
            v.norm2() == v.x * v.x + v.y * v.y,
    ;
    assert((x * s) * (x * s) >= (a * reach) * (a * reach)) by (nonlinear_arith)
        requires
            x * s >= a * reach,
            a * reach >= 0,
    ;
    assert((y * s) * (y * s) >= (b * reach) * (b * reach)) by (nonlinear_arith)
        requires
            y * s >= b * reach,
            b * reach >= 0,
    ;
    let (xx, yy, ss, aa, bb, rr) = (x * x, y * y, s * s, a * a, b * b, reach * reach);
    assert((x * s) * (x * s) == xx * ss) by (nonlinear_arith)
        requires
            xx == x * x,
            ss == s * s,
    ;
    assert((y * s) * (y * s) == yy * ss) by (nonlinear_arith)
        requires
            yy == y * y,
            ss == s * s,
    ;
    assert((a * reach) * (a * reach) == aa * rr) by (nonlinear_arith)
        requires
            aa == a * a,
            rr == reach * reach,
    ;
    assert((b * reach) * (b * reach) == bb * rr) by (nonlinear_arith)
        requires
            bb == b * b,
            rr == reach * reach,
    ;
    assert((xx + yy) * ss == xx * ss + yy * ss) by (nonlinear_arith);
    assert((aa + bb) * rr == aa * rr + bb * rr) by (nonlinear_arith);
    assert(ss > 0 && rr >= 0) by (nonlinear_arith)
        requires
            ss == s * s,
            rr == reach * reach,
            s > 0,
    ;
    assert((aa + bb) * rr >= ss * rr) by (nonlinear_arith)
        requires
            aa + bb >= ss,
            rr >= 0,
    ;
    assert(xx + yy >= rr) by (nonlinear_arith)
        requires
            (xx + yy) * ss >= ss * rr,
            ss > 0,
    ;
    assert(stretch(v.x, reach, s) * stretch(v.x, reach, s) == x * x) by (nonlinear_arith)
        requires
            stretch(v.x, reach, s) == x || stretch(v.x, reach, s) == -x,
    ;
    assert(stretch(v.y, reach, s) * stretch(v.y, reach, s) == y * y) by (nonlinear_arith)
        requires
            stretch(v.y, reach, s) == y || stretch(v.y, reach, s) == -y,
    ;
}

/// Moved by what moves it off a region, a region no longer overlaps it.
pub proof fn lemma_region_freed(moving: Region, fixed: Region)
    ensures
        moving.mtv(fixed) is Some ==> !moving.nudged(moving.mtv(fixed).unwrap()).overlaps(fixed),
{
}

/// Moved by what moves it off a region, a disc no longer overlaps it.
pub proof fn lemma_disc_freed(moving: Disc, fixed: Region)
    ensures
        moving.mtv_region(fixed) is Some ==> !moving.nudged(
            moving.mtv_region(fixed).unwrap(),
        ).overlaps_region(fixed),
{
    if moving.mtv_region(fixed) is Some {
        let d = moving.mtv_region(fixed).unwrap();
        let v = moving.offset_from(fixed);
        let moved = moving.nudged(d);
        if v == Vector::zero() {
            let off = moved.offset_from(fixed);
            assert(off.x == 0 || off.y == 0);
            assert(off.x == 0 ==> (off.y >= moving.radius || off.y <= -moving.radius));
            assert(off.y == 0 ==> (off.x >= moving.radius || off.x <= -moving.radius));
            assert(off.norm2() >= moving.radius * moving.radius) by (nonlinear_arith)
                requires
                    off.norm2() == off.x * off.x + off.y * off.y,
                    moving.radius > 0,
                    (off.x == 0 && (off.y >= moving.radius || off.y <= -moving.radius)) || (off.y
                        == 0 && (off.x >= moving.radius || off.x <= -moving.radius)),
            ;
        } else {
            assert(v.norm2() >= 0) by (nonlinear_arith)
                requires
                    v.norm2() == v.x * v.x + v.y * v.y,
            ;
            lemma_whole_root_exists(v.norm2());
            let s = root(v.norm2());
            lemma_components_within_root(v.x, v.y, s);
            lemma_radial_push_range(v, moving.radius);
            lemma_stretch_range(v.x, moving.radius, s);
            lemma_stretch_range(v.y, moving.radius, s);
            lemma_stretched_reaches(v, moving.radius, s);
            let out = Vector {
                x: stretch(v.x, moving.radius, s),
                y: stretch(v.y, moving.radius, s),
            };
            assert(moved.center == fixed.nearest(moving.center).plus(out));
            assert(moved.offset_from(fixed) == out);
        }
    }
}

/// Moved by what moves it off a disc, a disc no longer overlaps it.
pub proof fn lemma_discs_freed(moving: Disc, fixed: Disc)
    ensures
        moving.mtv_disc(fixed) is Some ==> !moving.nudged(
            moving.mtv_disc(fixed).unwrap(),
        ).overlaps_disc(fixed),
{
    if moving.mtv_disc(fixed) is Some {
        let d = moving.mtv_disc(fixed).unwrap();
        let v = moving.center.minus(fixed.center);
        let reach = moving.radius + fixed.radius;
        let off = moving.nudged(d).center.minus(fixed.center);
        if v == Vector::zero() {
            assert(off.norm2() == reach * reach) by (nonlinear_arith)
                requires
                    off.norm2() == off.x * off.x + off.y * off.y,
                    off.x == 0,
                    off.y == -reach,
            ;
        } else {
            assert(v.norm2() >= 0) by (nonlinear_arith)
                requires
                    v.norm2() == v.x * v.x + v.y * v.y,
            ;
            lemma_whole_root_exists(v.norm2());
            let s = root(v.norm2());
            lemma_components_within_root(v.x, v.y, s);
            lemma_stretched_reaches(v, reach, s);
            assert(off == (Vector { x: stretch(v.x, reach, s), y: stretch(v.y, reach, s) }));
        }
    }
}

/// Moved by what moves it off a disc, a region no longer overlaps it.
pub proof fn lemma_region_freed_of_disc(moving: Region, fixed: Disc)
    ensures
        moving.mtv_disc(fixed) is Some ==> !moving.nudged(
            moving.mtv_disc(fixed).unwrap(),
        ).overlaps_disc(fixed),
{
    if moving.mtv_disc(fixed) is Some {
        let d = fixed.mtv_region(moving).unwrap();
        lemma_disc_freed(fixed, moving);
        let shifted = moving.nudged(d.negated());
        let pushed = fixed.nudged(d);
        assert(pushed.offset_from(moving) == fixed.offset_from(shifted));
        assert(shifted.dims == moving.dims);
    }
}

} // verus!

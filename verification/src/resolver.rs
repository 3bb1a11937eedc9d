use vstd::prelude::*;
use crate::body::{Body, Volume};
use crate::obstacle::within_reach;
use crate::shape::{Disc, Rectangle, Region};
use crate::vector::{Vec2, Vector, BOUND, REACH};

verus! {

/// The largest number of obstacles, and of spike strips, in one world.
pub const CROWD: usize = 0x1_0000;

/// The longest displacement, on either axis, that moves a part of an actor off
/// a piece of the playing field.
pub const LEAP: i64 = 4 * REACH;


/// The state of the resolver within one tick: the correction gathered so far,
/// the feet and the whole actor where the corrections have left them, and what
/// the feet have touched.
pub struct Resolution {
    pub force: Vector,
    pub legs: Volume,
    pub body: Volume,
    pub floor: bool,
    pub hazard: bool,
}

impl Resolution {
    /// The state before anything is looked at: the correction is gravity and
    /// nothing has been touched.
    pub open spec fn start(gravity: Vector, legs: Volume, body: Volume) -> Resolution {
        Resolution { force: gravity, legs, body, floor: false, hazard: false }
    }

    /// The feet against one piece: what moves them off it is added to the
    /// correction and moves feet and actor, and the feet have touched
    /// something; where `wounds` is set, a hazard.
    pub open spec fn legs_step(self, fixed: Region, wounds: bool) -> Resolution {
        match self.legs.mtv(fixed) {
            Some(f) => Resolution {
                force: self.force.plus(f),
                legs: self.legs.nudged(f),
                body: self.body.nudged(f),
                floor: true,
                hazard: self.hazard || wounds,
            },
            None => self,
        }
    }

    /// The whole actor against one piece: what moves it off is added to the
    /// correction and moves the actor, not the feet.
    pub open spec fn body_step(self, fixed: Region) -> Resolution {
        match self.body.mtv(fixed) {
            Some(f) => Resolution {
                force: self.force.plus(f),
                body: self.body.nudged(f),
                ..self
            },
            None => self,
        }
    }

    /// The feet against every piece, in order.
    pub open spec fn legs_pass(self, fixed: Seq<Region>, wounds: bool) -> Resolution
        decreases fixed.len(),
    {
        if fixed.len() == 0 {
            self
        } else {
            self.legs_pass(fixed.drop_last(), wounds).legs_step(fixed.last(), wounds)
        }
    }

    /// The whole actor against every piece, in order.
    pub open spec fn body_pass(self, fixed: Seq<Region>) -> Resolution
        decreases fixed.len(),
    {
        if fixed.len() == 0 {
            self
        } else {
            self.body_pass(fixed.drop_last()).body_step(fixed.last())
        }
    }

    /// One kind of geometry: the feet against every piece, then the whole
    /// actor against every piece, twice.
    pub open spec fn against(self, fixed: Seq<Region>, wounds: bool) -> Resolution {
        self.legs_pass(fixed, wounds).body_pass(fixed).body_pass(fixed)
    }

    /// After `steps` pieces, feet and actor have moved by at most that many
    /// leaps, and the correction has grown by as much.
    pub open spec fn within_budget(self, steps: int) -> bool {
        &&& inside(self.legs, LEAP + steps * LEAP)
        &&& inside(self.body, LEAP + steps * LEAP)
        &&& self.force.within(REACH + steps * LEAP)
    }
}

/// Every part is no larger than the playing field and within `limit` of the
/// origin.
pub open spec fn inside(v: Volume, limit: int) -> bool {
    &&& forall|i: int| 0 <= i < v.rectangles.len() ==> region_inside(#[trigger] v.rectangles[i], limit)
    &&& forall|i: int| 0 <= i < v.circles.len() ==> disc_inside(#[trigger] v.circles[i], limit)
}

pub open spec fn region_inside(r: Region, limit: int) -> bool {
    &&& 0 <= r.dims.x <= 2 * REACH && 0 <= r.dims.y <= 2 * REACH
    &&& -limit <= r.left() && r.right() <= limit
    &&& -limit <= r.top() && r.bottom() <= limit
}

pub open spec fn disc_inside(d: Disc, limit: int) -> bool {
    d.center.within(limit) && 0 <= d.radius <= 2 * REACH
}

/// What moves a part of an actor off a piece of the playing field is no longer
/// than a leap, and leaves the actor within a leap of where it was.
pub proof fn lemma_leap(v: Volume, fixed: Region, limit: int)
    requires
        inside(v, limit),
        0 <= limit,
        within_reach(fixed),
    ensures
        v.mtv(fixed) is Some ==> v.mtv(fixed).unwrap().within(LEAP as int) && inside(
            v.nudged(v.mtv(fixed).unwrap()),
            limit + LEAP,
        ),
{
    let all = v.candidates(fixed);
    let k = crate::body::lemma_first_some_index(all);
    if k < all.len() {
        let d = all[k].unwrap();
        if k < v.circles.len() {
            let c = v.circles[k];
            assert(disc_inside(c, limit));
            let off = c.offset_from(fixed);
            if off != Vector::zero() {
                assert(off.norm2() >= 0) by (nonlinear_arith)
                    requires
                        off.norm2() == off.x * off.x + off.y * off.y,
                ;
                crate::shape::lemma_whole_root_exists(off.norm2());
                crate::shape::lemma_radial_push_range(off, c.radius);
            }
        } else {
            assert(region_inside(v.rectangles[k - v.circles.len()], limit));
        }
        assert(d.within(LEAP as int));
        lemma_nudged_inside(v, d, limit);
    }
}

/// A hit-volume moved by at most a leap is within a leap of where it was.
pub proof fn lemma_nudged_inside(v: Volume, d: Vector, limit: int)
    requires
        inside(v, limit),
        d.within(LEAP as int),
    ensures
        inside(v.nudged(d), limit + LEAP),
{
    let moved = v.nudged(d);
    assert forall|i: int| 0 <= i < moved.rectangles.len() implies region_inside(
        #[trigger] moved.rectangles[i],
        limit + LEAP,
    ) by {
        assert(region_inside(v.rectangles[i], limit));
    }
    assert forall|i: int| 0 <= i < moved.circles.len() implies disc_inside(
        #[trigger] moved.circles[i],
        limit + LEAP,
    ) by {
        assert(disc_inside(v.circles[i], limit));
    }
}

/// What is within a limit is within every larger one, and bounded where the
/// limit is at most [`BOUND`].
pub proof fn lemma_inside_grows(v: Volume, limit: int, larger: int)
    requires
        inside(v, limit),
        limit <= larger,
    ensures
        inside(v, larger),
        larger <= BOUND ==> v.bounded(),
{
    assert forall|i: int| 0 <= i < v.rectangles.len() implies region_inside(
        #[trigger] v.rectangles[i],
        larger,
    ) && (larger <= BOUND ==> v.rectangles[i].bounded()) by {
        assert(region_inside(v.rectangles[i], limit));
    }
    assert forall|i: int| 0 <= i < v.circles.len() implies disc_inside(
        #[trigger] v.circles[i],
        larger,
    ) && (larger <= BOUND ==> v.circles[i].bounded()) by {
        assert(disc_inside(v.circles[i], limit));
    }
}

/// As many leaps as a tick can hold, from anywhere on the playing field, stay
/// within [`BOUND`].
pub proof fn lemma_budget(steps: int)
    requires
        0 <= steps <= 6 * CROWD,
    ensures
        0 <= LEAP + steps * LEAP <= BOUND - LEAP,
        REACH + steps * LEAP <= BOUND - LEAP,
        REACH == 422785843200,
        LEAP == 1691143372800,
{
    assert(REACH == 422785843200);
    assert(LEAP == 1691143372800);
    assert(steps * LEAP == steps * 1691143372800);
}

/// The parts of an actor within the playing field, moved by a speed that is no
/// more than the field is wide, are within a leap of the origin.
pub proof fn lemma_held_inside(v: Volume, owner: Region, speed: Vector)
    requires
        v.held_by(owner),
        within_reach(owner),
        speed.within(REACH as int),
    ensures
        inside(v.nudged(speed), LEAP as int),
{
    let moved = v.nudged(speed);
    assert forall|i: int| 0 <= i < moved.rectangles.len() implies region_inside(
        #[trigger] moved.rectangles[i],
        LEAP as int,
    ) by {
        assert(crate::body::held_part(owner, v.rectangles[i]));
    }
    assert forall|i: int| 0 <= i < moved.circles.len() implies disc_inside(
        #[trigger] moved.circles[i],
        LEAP as int,
    ) by {
        let c = v.circles[i];
        assert(owner.left() <= c.center.x);
    }
}


impl Resolution {
    /// Pieces that neither the feet nor the actor overlap leave the state as
    /// it was.
    pub proof fn lemma_untouched(self, fixed: Seq<Region>, wounds: bool)
        requires
            forall|i: int|
                0 <= i < fixed.len() ==> !self.legs.overlaps_region(#[trigger] fixed[i])
                    && !self.body.overlaps_region(fixed[i]),
        ensures
            self.legs_pass(fixed, wounds) == self,
            self.body_pass(fixed) == self,
            self.against(fixed, wounds) == self,
        decreases fixed.len(),
    {
        if fixed.len() > 0 {
            let rest = fixed.drop_last();
            assert forall|i: int| 0 <= i < rest.len() implies !self.legs.overlaps_region(
                #[trigger] rest[i],
            ) && !self.body.overlaps_region(rest[i]) by {
                assert(rest[i] == fixed[i]);
            }
            self.lemma_untouched(rest, wounds);
            assert(!self.legs.overlaps_region(fixed[fixed.len() - 1]));
            self.legs.lemma_mtv_iff_overlap(fixed.last());
            self.body.lemma_mtv_iff_overlap(fixed.last());
        }
    }
}


impl Resolution {
    /// Pieces that the actor does not overlap leave the state as it was when
    /// the actor is moved off them.
    pub proof fn lemma_body_untouched(self, fixed: Seq<Region>)
        requires
            forall|i: int| 0 <= i < fixed.len() ==> !self.body.overlaps_region(#[trigger] fixed[i]),
        ensures
            self.body_pass(fixed) == self,
        decreases fixed.len(),
    {
        if fixed.len() > 0 {
            let rest = fixed.drop_last();
            assert forall|i: int| 0 <= i < rest.len() implies !self.body.overlaps_region(
                #[trigger] rest[i],
            ) by {
                assert(rest[i] == fixed[i]);
            }
            self.lemma_body_untouched(rest);
            assert(!self.body.overlaps_region(fixed[fixed.len() - 1]));
            self.body.lemma_mtv_iff_overlap(fixed.last());
        }
    }
}

/// The resolver at work: the state of one tick in machine numbers.
struct Solver {
    force: Vec2,
    legs: Body,
    body: Body,
    floor: bool,
    hazard: bool,
}

impl View for Solver {
    type V = Resolution;

    closed spec fn view(&self) -> Resolution {
        Resolution {
            force: self.force@,
            legs: self.legs@,
            body: self.body@,
            floor: self.floor,
            hazard: self.hazard,
        }
    }
}

/// Every rectangle of the list lies within the playing field.
pub open spec fn all_within_reach(fixed: Seq<Region>) -> bool {
    forall|i: int| 0 <= i < fixed.len() ==> within_reach(#[trigger] fixed[i])
}

/// The feet against every rectangle of the list.
fn legs_pass(s: Solver, fixed: &Vec<Rectangle>, wounds: bool, Ghost(k): Ghost<int>) -> (r: Solver)
    requires
        0 <= k,
        k + fixed.len() <= 6 * CROWD,
        s@.within_budget(k),
        all_within_reach(fixed.deep_view()),
    ensures
        r@ == s@.legs_pass(fixed.deep_view(), wounds),
        r@.within_budget(k + fixed.len()),
{
    let ghost regions = fixed.deep_view();
    let ghost start = s@;
    let Solver { mut force, mut legs, mut body, mut floor, mut hazard } = s;
    let mut i: usize = 0;
    while i < fixed.len()
        invariant
            i <= fixed.len(),
            0 <= k,
            k + fixed.len() <= 6 * CROWD,
            regions == fixed.deep_view(),
            all_within_reach(regions),
            (Resolution { force: force@, legs: legs@, body: body@, floor, hazard })
                == start.legs_pass(regions.take(i as int), wounds),
            (Resolution { force: force@, legs: legs@, body: body@, floor, hazard }).within_budget(
                k + i,
            ),
        decreases fixed.len() - i,
    {
        let ghost limit = LEAP + (k + i) * LEAP;
        proof {
            assert(regions.take(i as int + 1).drop_last() == regions.take(i as int));
            assert(regions.take(i as int + 1).last() == regions[i as int]);
            assert(within_reach(regions[i as int]));
            assert(regions[i as int] == fixed@[i as int]@);
            lemma_budget(k + i);
            lemma_inside_grows(legs@, limit, BOUND as int);
            lemma_inside_grows(body@, limit, BOUND as int);
            lemma_leap(legs@, regions[i as int], limit);
            legs.lemma_overlaps_rectangle(&fixed@[i as int]);
        }
        match legs.mtv(&fixed[i]) {
            Some(f) => {
                proof {
                    lemma_nudged_inside(body@, f@, limit);
                }
                force = force.plus(f);
                legs = legs.nudge(f);
                body = body.nudge(f);
                floor = true;
                hazard = hazard || wounds;
            },
            None => {
                proof {
                    lemma_inside_grows(legs@, limit, limit + LEAP);
                    lemma_inside_grows(body@, limit, limit + LEAP);
                }
            },
        }
        i += 1;
    }
    assert(regions.take(i as int) == regions);
    Solver { force, legs, body, floor, hazard }
}

/// The whole actor against every rectangle of the list.
fn body_pass(s: Solver, fixed: &Vec<Rectangle>, Ghost(k): Ghost<int>) -> (r: Solver)
    requires
        0 <= k,
        k + fixed.len() <= 6 * CROWD,
        s@.within_budget(k),
        all_within_reach(fixed.deep_view()),
    ensures
        r@ == s@.body_pass(fixed.deep_view()),
        r@.within_budget(k + fixed.len()),
{
    let ghost regions = fixed.deep_view();
    let ghost start = s@;
    let Solver { mut force, legs, mut body, floor, hazard } = s;
    let mut i: usize = 0;
    while i < fixed.len()
        invariant
            i <= fixed.len(),
            0 <= k,
            k + fixed.len() <= 6 * CROWD,
            regions == fixed.deep_view(),
            all_within_reach(regions),
            (Resolution { force: force@, legs: legs@, body: body@, floor, hazard })
                == start.body_pass(regions.take(i as int)),
            (Resolution { force: force@, legs: legs@, body: body@, floor, hazard }).within_budget(
                k + i,
            ),
        decreases fixed.len() - i,
    {
        let ghost limit = LEAP + (k + i) * LEAP;
        proof {
            assert(regions.take(i as int + 1).drop_last() == regions.take(i as int));
            assert(regions.take(i as int + 1).last() == regions[i as int]);
            assert(within_reach(regions[i as int]));
            assert(regions[i as int] == fixed@[i as int]@);
            lemma_budget(k + i);
            lemma_inside_grows(body@, limit, BOUND as int);
            lemma_inside_grows(legs@, limit, limit + LEAP);
            lemma_leap(body@, regions[i as int], limit);
            body.lemma_overlaps_rectangle(&fixed@[i as int]);
        }
        match body.mtv(&fixed[i]) {
            Some(f) => {
                force = force.plus(f);
                body = body.nudge(f);
            },
            None => {
                proof {
                    lemma_inside_grows(body@, limit, limit + LEAP);
                }
            },
        }
        i += 1;
    }
    assert(regions.take(i as int) == regions);
    Solver { force, legs, body, floor, hazard }
}


/// One tick of the resolver on machine numbers: feet and actor, taken where
/// the speed of the actor would carry them, against the obstacles and then
/// against the spikes. Returns the correction, whether the feet touched
/// anything, and whether they touched spikes.
pub fn resolve(
    gravity: Vec2,
    legs: Body,
    body: Body,
    obstacles: &Vec<Rectangle>,
    spikes: &Vec<Rectangle>,
) -> (r: (Vec2, bool, bool))
    requires
        gravity@.within(REACH as int),
        inside(legs@, LEAP as int),
        inside(body@, LEAP as int),
        obstacles@.len() <= CROWD,
        spikes@.len() <= CROWD,
        all_within_reach(obstacles.deep_view()),
        all_within_reach(spikes.deep_view()),
    ensures
        ({
            let end = Resolution::start(gravity@, legs@, body@).against(
                obstacles.deep_view(),
                false,
            ).against(spikes.deep_view(), true);
            r.0@ == end.force && r.1 == end.floor && r.2 == end.hazard
        }),
        r.0@.within(BOUND - LEAP),
{
    proof {
        lemma_budget(0);
    }
    let s = Solver { force: gravity, legs, body, floor: false, hazard: false };
    let ghost n = obstacles@.len() as int;
    let ghost m = spikes@.len() as int;
    let s = legs_pass(s, obstacles, false, Ghost(0));
    let s = body_pass(s, obstacles, Ghost(n));
    let s = body_pass(s, obstacles, Ghost(2 * n));
    let s = legs_pass(s, spikes, true, Ghost(3 * n));
    let s = body_pass(s, spikes, Ghost(3 * n + m));
    let s = body_pass(s, spikes, Ghost(3 * n + 2 * m));
    proof {
        lemma_budget(3 * n + 3 * m);
    }
    (s.force, s.floor, s.hazard)
}

} // verus!

use vstd::prelude::*;
use crate::body::{Body, Volume};
use crate::data;
use crate::data::{shapes_wf, Dimension, Shape};
use crate::flicker::Flicker;
use crate::obstacle::within_reach;
use crate::shape::Rectangle;
use crate::vector::{Vec2, Vector, BOUND, FIELD, REACH, SCREEN_HEIGHT, UNIT};

verus! {

/// The speed of a run: four and a half screen units a tick.
pub const RUN: i64 = 113400;

/// The impulse of a jump: 3.9 screen units a tick.
pub const JUMP: i64 = 98280;

/// What a tick of falling adds to the downward speed: three quarters of a
/// screen unit a tick.
pub const FALL: i64 = 18900;

/// The greatest downward speed: 25 screen units a tick.
pub const TERMINAL: i64 = 630000;

/// The number of ticks for which holding the jump key adds to a jump.
pub const HOLD_CAP: u32 = 10;

/// The lowest line that the bottom edge of the actor may reach, in sub-units:
/// 17 screen units above the bottom of the screen.
pub const FLOOR: i64 = (SCREEN_HEIGHT - 17) * UNIT;

/// How long a hit makes the actor invincible, in nanoseconds.
pub const INVINCIBLE_FOR: u64 = 1_000_000_000;

/// The half-period of the flicker while invincible, in nanoseconds.
pub const FLICKER_EVERY: u64 = 100_000_000;

/// What the actor is doing. A jump carries the number of ticks for which the
/// jump key has added to it.
#[derive(Clone, Copy, Debug, PartialEq, Eq, Structural)]
pub enum Action {
    Moving,
    Jumping(u32),
    Standing,
}

/// The transitions between the three actions.
#[derive(Clone, Copy, Debug, PartialEq, Eq, Structural)]
pub enum Rule {
    StandingToJumping,
    StandingToMoving,
    MovingToJumping,
    MovingToStanding,
    JumpingToStanding,
    JumpingToMoving,
}

impl Rule {
    /// Whether the rule fires: each one names the action it leaves, and what
    /// it asks of the floor contact and of the horizontal speed.
    pub open spec fn applies(self, from: Action, floor: bool, moving: bool) -> bool {
        match self {
            Rule::StandingToJumping => from is Standing && !floor,
            Rule::StandingToMoving => from is Standing && floor && moving,
            Rule::MovingToJumping => from is Moving && !floor,
            Rule::MovingToStanding => from is Moving && floor && !moving,
            Rule::JumpingToStanding => from is Jumping && floor && !moving,
            Rule::JumpingToMoving => from is Jumping && floor && moving,
        }
    }

    /// The action that the rule leads to. A jump begins with nothing held.
    pub open spec fn target(self) -> Action {
        match self {
            Rule::StandingToJumping | Rule::MovingToJumping => Action::Jumping(0),
            Rule::StandingToMoving | Rule::JumpingToMoving => Action::Moving,
            Rule::MovingToStanding | Rule::JumpingToStanding => Action::Standing,
        }
    }
}

impl Action {
    /// The counter of a jump is at most [`HOLD_CAP`].
    pub open spec fn wf(self) -> bool {
        match self {
            Action::Jumping(held) => held <= HOLD_CAP,
            _ => true,
        }
    }

    /// The two are the same kind of action.
    pub open spec fn same_kind(self, other: Action) -> bool {
        match self {
            Action::Moving => other is Moving,
            Action::Jumping(_) => other is Jumping,
            Action::Standing => other is Standing,
        }
    }

    /// The action of the next tick. Without floor contact the actor jumps, or
    /// goes on jumping; with it, the actor moves or stands as its horizontal
    /// speed says. A jump that is stopped short (`bumped`) has its counter set
    /// to the cap, so that the key adds no more to it.
    pub open spec fn next(self, floor: bool, moving: bool, bumped: bool) -> Action {
        if floor {
            if moving {
                Action::Moving
            } else {
                Action::Standing
            }
        } else {
            match self {
                Action::Jumping(held) => Action::Jumping(
                    if bumped {
                        HOLD_CAP
                    } else {
                        held
                    },
                ),
                _ => Action::Jumping(0),
            }
        }
    }

    /// The action of the next tick.
    pub fn step(self, floor: bool, moving: bool, bumped: bool) -> (r: Action)
        ensures
            r == self.next(floor, moving, bumped),
            self.wf() ==> r.wf(),
    {
        if floor {
            if moving {
                Action::Moving
            } else {
                Action::Standing
            }
        } else {
            match self {
                Action::Jumping(held) => Action::Jumping(
                    if bumped {
                        HOLD_CAP
                    } else {
                        held
                    },
                ),
                _ => Action::Jumping(0),
            }
        }
    }
}

/// For every action, floor contact and horizontal speed, no two transition
/// rules fire together; where one fires, the next action is its target, and
/// where none fires, the actor goes on with what it does.
pub proof fn lemma_one_transition(from: Action, floor: bool, moving: bool, bumped: bool)
    ensures
        forall|a: Rule, b: Rule|
            a.applies(from, floor, moving) && b.applies(from, floor, moving) ==> a == b,
        forall|a: Rule|
            a.applies(from, floor, moving) ==> from.next(floor, moving, bumped) == a.target(),
        (forall|a: Rule| !a.applies(from, floor, moving)) ==> from.next(
            floor,
            moving,
            bumped,
        ).same_kind(from),
{
    if forall|a: Rule| !a.applies(from, floor, moving) {
        assert(!Rule::StandingToJumping.applies(from, floor, moving));
        assert(!Rule::StandingToMoving.applies(from, floor, moving));
        assert(!Rule::MovingToJumping.applies(from, floor, moving));
        assert(!Rule::MovingToStanding.applies(from, floor, moving));
        assert(!Rule::JumpingToStanding.applies(from, floor, moving));
        assert(!Rule::JumpingToMoving.applies(from, floor, moving));
    }
}

/// What holding the jump key adds to the upward speed in a tick that begins
/// with the counter at `held`: the jump impulse divided by the new count, and
/// nothing once the counter has reached the cap.
pub open spec fn jump_impulse(held: u32) -> int {
    if held < HOLD_CAP {
        JUMP as int / (held + 1)
    } else {
        0
    }
}

/// The counter after a tick with the key held.
pub open spec fn held_next(held: u32) -> u32 {
    if held < HOLD_CAP {
        (held + 1) as u32
    } else {
        held
    }
}

/// The upward speed that a jump has gathered from the key after `ticks` ticks
/// of holding it, the counter starting at `held`.
pub open spec fn ascent(held: u32, ticks: nat) -> int
    decreases ticks,
{
    if ticks == 0 {
        0
    } else {
        jump_impulse(held) + ascent(held_next(held), (ticks - 1) as nat)
    }
}

/// Once the counter is at the cap, holding the key longer adds nothing: it
/// stays at the cap and the speed gathered stays what it was.
pub proof fn lemma_hold_cap(held: u32, ticks: nat)
    requires
        held >= HOLD_CAP,
    ensures
        jump_impulse(held) == 0,
        held_next(held) == held,
        ascent(held, ticks) == 0,
    decreases ticks,
{
    if ticks > 0 {
        lemma_hold_cap(held, (ticks - 1) as nat);
    }
}

/// A jump gathers from the key no more in any number of ticks than in as many
/// as are left to the cap.
pub proof fn lemma_ascent_capped(held: u32, ticks: nat)
    requires
        held <= HOLD_CAP,
        ticks >= HOLD_CAP - held,
    ensures
        ascent(held, ticks) == ascent(held, (HOLD_CAP - held) as nat),
    decreases ticks,
{
    if held == HOLD_CAP {
        lemma_hold_cap(held, ticks);
        lemma_hold_cap(held, 0);
    } else {
        lemma_ascent_capped((held + 1) as u32, (ticks - 1) as nat);
    }
}

/// The time for which the actor takes no damage, and the flicker that shows it.
#[derive(Clone, Copy, Debug, PartialEq, Eq, Structural)]
pub struct Invincibility {
    /// Nanoseconds left.
    pub duration: u64,
    pub flicker: Flicker,
}

impl Invincibility {
    /// The state after `delta` more nanoseconds: it ends where `delta` is more
    /// than what is left, else that much less is left and the flicker has
    /// moved on.
    pub open spec fn updated(self, delta: u64) -> Option<Invincibility> {
        if self.duration < delta {
            None
        } else {
            Some(
                Invincibility {
                    duration: (self.duration - delta) as u64,
                    flicker: self.flicker.updated(delta),
                },
            )
        }
    }

    /// A fresh second of invincibility, shown.
    pub fn new() -> (r: Invincibility)
        ensures
            r.duration == INVINCIBLE_FOR,
            r.flicker == Flicker::new_spec(FLICKER_EVERY),
    {
        Invincibility { flicker: Flicker::new(FLICKER_EVERY), duration: INVINCIBLE_FOR }
    }

    /// Lets `delta` nanoseconds pass.
    pub fn update(self, delta: u64) -> (r: Option<Invincibility>)
        ensures
            r == self.updated(delta),
    {
        match self.duration.checked_sub(delta) {
            None => None,
            Some(d) => {
                let mut next = self;
                next.duration = d;
                next.flicker.update(delta);
                Some(next)
            },
        }
    }
}

/// Whether a vertical correction works against a vertical speed: neither is
/// zero and they point opposite ways.
pub open spec fn opposes(speed: int, force: int) -> bool {
    speed != 0 && force != 0 && (speed > 0) != (force > 0)
}

/// The actor that the player steers.
#[derive(Clone, Debug)]
pub struct Player {
    /// The speed, in sub-units a tick. It is kept from tick to tick.
    pub delta_pos: Vec2,
    /// The box of the actor.
    pub dst_rect: Rectangle,
    pub invincibility: Option<Invincibility>,
    pub body: Vec<Shape>,
    pub legs: Vec<Shape>,
    pub action: Action,
    /// Whether the actor faces left.
    pub backwards: bool,
}

impl Player {
    /// The box lies within the playing field, the speed is no more than the
    /// field is wide, the descriptors are well-formed and so is the action.
    pub open spec fn wf(&self) -> bool {
        &&& within_reach(self.dst_rect@)
        &&& self.delta_pos@.within(REACH as int)
        &&& shapes_wf(self.body@)
        &&& shapes_wf(self.legs@)
        &&& self.action.wf()
    }

    /// The hit-volume of the whole actor, as it stands.
    pub open spec fn body_volume(&self) -> Volume {
        Volume::placed(self.dst_rect@, self.body@, self.backwards)
    }

    /// The hit-volume of the feet, as they stand.
    pub open spec fn legs_volume(&self) -> Volume {
        Volume::placed(self.dst_rect@, self.legs@, self.backwards)
    }

    /// Whether the actor is well-formed.
    pub fn is_wf(&self) -> (r: bool)
        ensures
            r == self.wf(),
    {
        let b = &self.dst_rect;
        let held_ok = match self.action {
            Action::Jumping(held) => held <= HOLD_CAP,
            _ => true,
        };
        held_ok && 0 <= b.dims.x && 0 <= b.dims.y && -REACH <= b.top_left.x && b.top_left.x
            <= REACH && b.dims.x <= REACH - b.top_left.x && -REACH <= b.top_left.y && b.top_left.y
            <= REACH && b.dims.y <= REACH - b.top_left.y && -REACH <= self.delta_pos.x
            && self.delta_pos.x <= REACH && -REACH <= self.delta_pos.y && self.delta_pos.y
            <= REACH && data::all_wf(self.body.as_slice()) && data::all_wf(self.legs.as_slice())
    }

    /// The actor that `data` describes, standing with its top-left corner at
    /// `tl`, in screen units. `None` where its box leaves the playing field or
    /// a descriptor is not well-formed.
    pub fn load(data: &data::Player, tl: Dimension) -> (r: Option<Player>)
        ensures
            r.is_some() == (tl.x + data.out_size.x <= FIELD && tl.y + data.out_size.y <= FIELD
                && shapes_wf(data.body@) && shapes_wf(data.legs@)),
            r.is_some() ==> {
                let p = r.unwrap();
                &&& p.wf()
                &&& p.dst_rect@.top_left == (Vector { x: tl.x * UNIT, y: tl.y * UNIT })
                &&& p.dst_rect@.dims == (Vector {
                    x: data.out_size.x * UNIT,
                    y: data.out_size.y * UNIT,
                })
                &&& p.body@ == data.body@
                &&& p.legs@ == data.legs@
                &&& p.delta_pos@ == Vector::zero()
                &&& p.action == Action::Standing
                &&& p.invincibility.is_none()
                &&& !p.backwards
            },
    {
        if tl.x as i64 + data.out_size.x as i64 > FIELD || tl.y as i64 + data.out_size.y as i64
            > FIELD {
            return None;
        }
        if !data::all_wf(data.body.as_slice()) || !data::all_wf(data.legs.as_slice()) {
            return None;
        }
        let dst_rect = Rectangle {
            top_left: Vec2 { x: tl.x as i64 * UNIT, y: tl.y as i64 * UNIT },
            dims: Vec2 { x: data.out_size.x as i64 * UNIT, y: data.out_size.y as i64 * UNIT },
        };
        Some(Player::new(dst_rect, copy_shapes(&data.body), copy_shapes(&data.legs)))
    }

    /// An actor at rest in the box `dst_rect`, facing right.
    pub fn new(dst_rect: Rectangle, body: Vec<Shape>, legs: Vec<Shape>) -> (r: Player)
        ensures
            r.dst_rect == dst_rect,
            r.body == body,
            r.legs == legs,
            r.delta_pos@ == Vector::zero(),
            r.action == Action::Standing,
            r.invincibility.is_none(),
            !r.backwards,
    {
        Player {
            action: Action::Standing,
            delta_pos: Vec2 { x: 0, y: 0 },
            backwards: false,
            invincibility: None,
            dst_rect,
            body,
            legs,
        }
    }

    /// The hit-volume of the whole actor, as it stands.
    pub fn body(&self) -> (r: Body)
        requires
            self.dst_rect.roomy(),
            shapes_wf(self.body@),
        ensures
            r@ == self.body_volume(),
            r.wf(),
            r@.held_by(self.dst_rect@),
    {
        Body::new(&self.dst_rect, self.body.as_slice(), self.backwards)
    }

    /// The hit-volume of the feet, as they stand.
    pub fn legs(&self) -> (r: Body)
        requires
            self.dst_rect.roomy(),
            shapes_wf(self.legs@),
        ensures
            r@ == self.legs_volume(),
            r.wf(),
            r@.held_by(self.dst_rect@),
    {
        Body::new(&self.dst_rect, self.legs.as_slice(), self.backwards)
    }

    /// The speed after the keys of one tick.
    ///
    /// The jump key sets the upward speed to the jump impulse, unless the
    /// actor already jumps: then it adds [`jump_impulse`] and counts the tick.
    /// A jump whose key is let go has its counter set to the cap. Exactly one
    /// of the two direction keys makes the actor run that way and face it;
    /// otherwise it has no horizontal speed. Then falling adds [`FALL`], up to
    /// [`TERMINAL`].
    pub open spec fn processed(self, left: bool, right: bool, up: bool) -> Player {
        let lifted = match self.action {
            Action::Jumping(held) => if up {
                self.delta_pos.y - jump_impulse(held)
            } else {
                self.delta_pos.y as int
            },
            _ => if up {
                -JUMP as int
            } else {
                self.delta_pos.y as int
            },
        };
        let fallen = if lifted + FALL <= TERMINAL {
            lifted + FALL
        } else {
            TERMINAL as int
        };
        Player {
            delta_pos: Vec2 {
                x: if left != right {
                    if left {
                        -RUN as i64
                    } else {
                        RUN
                    }
                } else {
                    0
                },
                y: fallen as i64,
            },
            action: match self.action {
                Action::Jumping(held) => Action::Jumping(
                    if up {
                        held_next(held)
                    } else {
                        HOLD_CAP
                    },
                ),
                other => other,
            },
            backwards: if left != right {
                left
            } else {
                self.backwards
            },
            ..self
        }
    }

    /// Takes in the keys of one tick.
    pub fn process(&mut self, left: bool, right: bool, up: bool)
        requires
            old(self).delta_pos.y >= -REACH,
            old(self).delta_pos.y <= REACH,
        ensures
            *final(self) == old(self).processed(left, right, up),
            final(self).delta_pos.y <= TERMINAL,
            -RUN <= final(self).delta_pos.x <= RUN,
            old(self).action.wf() ==> final(self).action.wf(),
    {
        if up {
            match self.action {
                Action::Jumping(held) => {
                    if held < HOLD_CAP {
                        let count: u32 = held + 1;
                        self.action = Action::Jumping(count);
                        self.delta_pos.y = self.delta_pos.y - JUMP / (count as i64);
                    }
                },
                _ => {
                    self.delta_pos.y = -JUMP;
                },
            }
        } else {
            match self.action {
                Action::Jumping(_) => {
                    self.action = Action::Jumping(HOLD_CAP);
                },
                _ => {},
            }
        }
        if left != right {
            self.backwards = left;
            self.delta_pos.x = if left {
                -RUN
            } else {
                RUN
            };
        } else {
            self.delta_pos.x = 0;
        }
        self.delta_pos.y = self.delta_pos.y + FALL;
        if self.delta_pos.y > TERMINAL {
            self.delta_pos.y = TERMINAL;
        }
    }

    /// The actor after one tick, given the correction `force` that the
    /// resolver found and whether the feet touched anything.
    ///
    /// Invincibility runs down. The action follows [`Action::next`]; a jump is
    /// stopped short where the vertical correction works against the vertical
    /// speed. The box moves by speed and correction together, and no lower
    /// than [`FLOOR`]. A vertical speed that the correction works against is
    /// lost.
    pub open spec fn updated(self, force: Vector, on_floor: bool, delta: u64) -> Player {
        let bumped = opposes(self.delta_pos.y as int, force.y);
        let y = self.dst_rect.top_left.y + self.delta_pos.y + force.y;
        let lowest = FLOOR - self.dst_rect.dims.y;
        Player {
            invincibility: match self.invincibility {
                Some(i) => i.updated(delta),
                None => None,
            },
            action: self.action.next(on_floor, self.delta_pos.x != 0, bumped),
            dst_rect: Rectangle {
                top_left: Vec2 {
                    x: (self.dst_rect.top_left.x + self.delta_pos.x + force.x) as i64,
                    y: (if y <= lowest {
                        y
                    } else {
                        lowest
                    }) as i64,
                },
                dims: self.dst_rect.dims,
            },
            delta_pos: Vec2 {
                x: self.delta_pos.x,
                y: if bumped {
                    0
                } else {
                    self.delta_pos.y
                },
            },
            ..self
        }
    }

    /// Moves the actor on by one tick of `delta` nanoseconds.
    pub fn update(&mut self, resolved: (Vec2, bool), delta: u64)
        requires
            within_reach(old(self).dst_rect@),
            old(self).delta_pos@.within(REACH as int),
            resolved.0@.within(BOUND as int),
        ensures
            *final(self) == old(self).updated(resolved.0@, resolved.1, delta),
            old(self).action.wf() ==> final(self).action.wf(),
            resolved.0@.within(BOUND - 4 * REACH) ==> final(self).dst_rect.roomy(),
    {
        let (force, on_floor) = resolved;
        if let Some(i) = self.invincibility {
            self.invincibility = i.update(delta);
        }
        let speed = self.delta_pos.y;
        let bumped = speed != 0 && force.y != 0 && (speed > 0) != (force.y > 0);
        self.action = self.action.step(on_floor, self.delta_pos.x != 0, bumped);
        self.dst_rect.top_left.x = self.dst_rect.top_left.x + self.delta_pos.x + force.x;
        self.dst_rect.top_left.y = self.dst_rect.top_left.y + self.delta_pos.y + force.y;
        if bumped {
            self.delta_pos.y = 0;
        }
        let lowest: i64 = FLOOR - self.dst_rect.dims.y;
        if self.dst_rect.top_left.y > lowest {
            self.dst_rect.top_left.y = lowest;
        }
    }

    /// Makes the actor invincible for a fresh second.
    pub fn invincible(&mut self)
        ensures
            final(self).invincibility == Some(
                Invincibility {
                    duration: INVINCIBLE_FOR,
                    flicker: Flicker::new_spec(FLICKER_EVERY),
                },
            ),
            final(self).delta_pos == old(self).delta_pos,
            final(self).dst_rect == old(self).dst_rect,
            final(self).body == old(self).body,
            final(self).legs == old(self).legs,
            final(self).action == old(self).action,
            final(self).backwards == old(self).backwards,
    {
        self.invincibility = Some(Invincibility::new());
    }
}

/// A copy of the list.
pub fn copy_shapes(shapes: &Vec<Shape>) -> (r: Vec<Shape>)
    ensures
        r@ == shapes@,
{
    let mut out: Vec<Shape> = Vec::new();
    let mut i: usize = 0;
    while i < shapes.len()
        invariant
            i <= shapes.len(),
            out@ == shapes@.take(i as int),
        decreases shapes.len() - i,
    {
        out.push(shapes[i]);
        assert(shapes@.take(i as int + 1) == shapes@.take(i as int).push(shapes@[i as int]));
        i += 1;
    }
    assert(shapes@.take(i as int) == shapes@);
    out
}

} // verus!

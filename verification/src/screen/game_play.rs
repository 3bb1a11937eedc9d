use vstd::prelude::*;
use crate::body::{Body, Volume};
use crate::cat::Cat;
use crate::collectable::Collectable;
use crate::data::Dimension;
use crate::flicker::Flicker;
use crate::hud::{Clock, TextBox};
use crate::npc::Npc;
use crate::player::{
    Action, Invincibility, Player, FLICKER_EVERY, INVINCIBLE_FOR, JUMP,
};
use crate::shape::Region;
use crate::utils::{chosen, decided, lemma_chosen_keeps, VecUtils};
use crate::vector::{Point, REACH, UNIT};
use crate::world::{walked_on, World};

verus! {

/// What a scratch of a cat costs.
pub const CAT_DAMAGE: i32 = 25;

/// What a step on spikes costs.
pub const SPIKE_DAMAGE: i32 = 50;

/// The time that a game lasts, in nanoseconds.
pub const GAME_TIME: u64 = 110_000_000_000;

/// How long a splash is shown, in nanoseconds.
pub const SPLASH_FOR: u64 = 1_000_000_000;

/// How far a splash rises in a tick, in screen units.
pub const SPLASH_RISE: i32 = 2;

/// How far the actor sinks in a tick on its way down to the one who waits, in
/// sub-units.
pub const DESCENT: i64 = 4 * UNIT;

/// By how many hundredths the heart grows in a tick.
pub const ZOOM_STEP: u32 = 5;

/// The character that the player steers.
#[derive(Clone, Copy, Debug, PartialEq, Eq, Structural)]
pub enum PlayerKind {
    Duck,
    Husky,
}

/// What a game is at: it runs, the two have met and the heart grows, the
/// final screen is up, or time has run out.
#[derive(Clone, Copy, Debug, PartialEq, Eq, Structural)]
pub enum Stage {
    Running,
    Transition,
    Finished,
    TimeUp,
}

/// A number that rises from where something happened, for a while.
#[derive(Clone, Copy, Debug, PartialEq, Eq)]
pub struct Splash<T> {
    pub texture: T,
    /// Nanoseconds left.
    pub duration: u64,
    /// Where it is drawn, in screen units.
    pub dst: Point,
}

impl<T> Splash<T> {
    /// A splash that begins at `dst`.
    pub fn new(texture: T, dst: Point) -> (r: Splash<T>)
        ensures
            r.texture == texture,
            r.duration == SPLASH_FOR,
            r.dst == dst,
    {
        Splash { texture, duration: SPLASH_FOR, dst }
    }

    /// Whether the splash is still shown.
    pub fn is_active(&self) -> (r: bool)
        ensures
            r == (self.duration > 0),
    {
        self.duration > 0
    }

    /// Lets `delta` nanoseconds pass: the splash rises and its time runs down,
    /// to nothing and no further.
    pub fn update(&mut self, delta: u64)
        requires
            old(self).dst.y - SPLASH_RISE >= i32::MIN,
        ensures
            final(self).dst == (Point {
                x: old(self).dst.x,
                y: (old(self).dst.y - SPLASH_RISE) as i32,
            }),
            final(self).duration == if old(self).duration >= delta {
                old(self).duration - delta
            } else {
                0
            },
            final(self).texture == old(self).texture,
    {
        self.dst.y = self.dst.y - SPLASH_RISE;
        self.duration = match self.duration.checked_sub(delta) {
            None => 0,
            Some(d) => d,
        }
    }
}

/// The heart that grows when the two have met: its full size in screen
/// units, and how many hundredths of it are reached.
#[derive(Clone, Copy, Debug, PartialEq, Eq, Structural)]
pub struct Heart {
    pub zoom: u32,
    pub size: Dimension,
}

impl Heart {
    /// The heart is fully grown.
    pub open spec fn grown(&self) -> bool {
        self.zoom >= 100
    }

    /// The size at which the heart is drawn, in screen units, rounded down.
    pub fn dims(&self) -> (r: Dimension)
        requires
            self.zoom <= 100,
        ensures
            r.x == self.size.x * self.zoom / 100,
            r.y == self.size.y * self.zoom / 100,
    {
        let zoom = self.zoom as u64;
        assert(self.size.x * self.zoom / 100 <= self.size.x && self.size.y * self.zoom / 100
            <= self.size.y) by (nonlinear_arith)
            requires
                0 <= self.zoom <= 100,
                0 <= self.size.x,
                0 <= self.size.y,
        ;
        assert(0 <= self.size.x * self.zoom <= u32::MAX * 100 && 0 <= self.size.y * self.zoom
            <= u32::MAX * 100) by (nonlinear_arith)
            requires
                0 <= self.zoom <= 100,
                0 <= self.size.x <= u32::MAX,
                0 <= self.size.y <= u32::MAX,
        ;
        Dimension {
            x: ((self.size.x as u64) * zoom / 100) as u32,
            y: ((self.size.y as u64) * zoom / 100) as u32,
        }
    }
}

/// What a tick costs the player: nothing while invincible, else the scratch of
/// a cat, else the spikes.
pub open spec fn hurts(invincible: bool, clawed: bool, touch_spikes: bool) -> Option<i32> {
    if invincible {
        None
    } else if clawed {
        Some(CAT_DAMAGE)
    } else if touch_spikes {
        Some(SPIKE_DAMAGE)
    } else {
        None
    }
}

/// What a tick costs the player: see [`hurts`].
pub fn damage(invincible: bool, clawed: bool, touch_spikes: bool) -> (r: Option<i32>)
    ensures
        r == hurts(invincible, clawed, touch_spikes),
{
    if invincible {
        None
    } else if clawed {
        Some(CAT_DAMAGE)
    } else if touch_spikes {
        Some(SPIKE_DAMAGE)
    } else {
        None
    }
}

/// Some cat touches the actor or its feet.
pub open spec fn scratched(enemies: Seq<Cat>, body: Volume, legs: Volume) -> bool {
    exists|i: int|
        0 <= i < enemies.len() && ((#[trigger] enemies[i]).volume().collides(body)
            || enemies[i].volume().collides(legs))
}

/// Whether some cat touches the actor or its feet.
pub fn clawed(enemies: &Vec<Cat>, body: &Body, legs: &Body) -> (r: bool)
    requires
        body.wf(),
        legs.wf(),
        forall|i: int| 0 <= i < enemies@.len() ==> (#[trigger] enemies@[i]).wf(),
    ensures
        r == scratched(enemies@, body@, legs@),
{
    let mut i: usize = 0;
    while i < enemies.len()
        invariant
            i <= enemies.len(),
            body.wf(),
            legs.wf(),
            forall|j: int| 0 <= j < enemies@.len() ==> (#[trigger] enemies@[j]).wf(),
            forall|j: int|
                0 <= j < i ==> !((#[trigger] enemies@[j]).volume().collides(body@)
                    || enemies@[j].volume().collides(legs@)),
        decreases enemies.len() - i,
    {
        assert(enemies@[i as int].wf());
        let cat = enemies[i].body();
        if cat.collides(body) || cat.collides(legs) {
            return true;
        }
        i += 1;
    }
    false
}

/// Whether the actor or its feet touch the thing.
pub open spec fn touched(thing: Region, body: Volume, legs: Volume) -> bool {
    body.overlaps_region(thing) || legs.overlaps_region(thing)
}

/// For every thing of the list, whether it is out of reach of the actor and
/// its feet.
pub open spec fn out_of_reach(things: Seq<Collectable>, body: Volume, legs: Volume) -> Seq<bool> {
    Seq::new(things.len(), |i: int| !touched(things[i].body@, body, legs))
}

/// Picks up what the actor or its feet touch: those things leave the list and
/// are returned, the others stay, all in their order.
pub fn collect(collectables: &mut Vec<Collectable>, body: &Body, legs: &Body) -> (picked: Vec<
    Collectable,
>)
    requires
        body.wf(),
        legs.wf(),
        forall|i: int|
            0 <= i < old(collectables)@.len() ==> (#[trigger] old(collectables)@[i]).body.wf(),
    ensures
        final(collectables)@ == chosen(
            old(collectables)@,
            out_of_reach(old(collectables)@, body@, legs@),
            true,
        ),
        picked@ == chosen(
            old(collectables)@,
            out_of_reach(old(collectables)@, body@, legs@),
            false,
        ),
{
    let ghost before = collectables@;
    let keep = |c: &Collectable| -> (k: bool)
        requires
            c.body.wf(),
            body.wf(),
            legs.wf(),
        ensures
            k == !touched(c.body@, body@, legs@),
        {
            proof {
                body.lemma_overlaps_rectangle(&c.body);
                legs.lemma_overlaps_rectangle(&c.body);
            }
            !body.intersects(&c.body) && !legs.intersects(&c.body)
        };
    assert forall|i: int| 0 <= i < before.len() implies keep.requires((&#[trigger] before[i],)) by {
        assert(before[i].body.wf());
    }
    let picked = collectables.retain_or_drain(keep);
    proof {
        let mask = choose|mask: Seq<bool>|
            {
                &&& #[trigger] decided(before, keep, mask)
                &&& collectables@ == chosen(before, mask, true)
                &&& picked@ == chosen(before, mask, false)
            };
        assert forall|i: int| 0 <= i < before.len() implies mask[i] == out_of_reach(
            before,
            body@,
            legs@,
        )[i] by {
            assert(keep.ensures((&before[i],), mask[i]));
        }
        assert(mask =~= out_of_reach(before, body@, legs@));
    }
    picked
}

/// Whether the actor has come as far as the one who waits: its right edge is
/// at the left edge of the other, or beyond.
pub fn arrived(player: &Player, npc: &Npc) -> (r: bool)
    requires
        player.dst_rect.wf(),
    ensures
        r == (player.dst_rect@.right() >= npc.dst.x * UNIT),
{
    player.dst_rect.top_left.x + player.dst_rect.dims.x >= npc.dst.x as i64 * UNIT
}

/// Whether the time of the game has run out.
pub fn time_up(timer: Clock) -> (r: bool)
    ensures
        r == (timer.0 == 0),
{
    timer.0 == 0
}

/// One tick after the two have met. The actor sinks until its bottom edge is
/// as low as that of the one who waits; then the heart grows; and when the
/// heart is fully grown the game is finished, which the result says.
pub fn approach(player: &mut Player, heart: &mut Heart, npc: &Npc) -> (done: bool)
    requires
        old(player).dst_rect.wf(),
        old(heart).zoom <= 100,
        npc.wf(),
    ensures
        done == old(heart).grown(),
        final(heart).size == old(heart).size,
        final(heart).zoom <= 100,
        final(heart).zoom == if !done && old(player).dst_rect@.bottom() >= (npc.dst.y
            + npc.dst.h) * UNIT {
            if old(heart).zoom + ZOOM_STEP <= 100 {
                (old(heart).zoom + ZOOM_STEP) as u32
            } else {
                100
            }
        } else {
            old(heart).zoom
        },
        final(player).dst_rect@ == if !done && old(player).dst_rect@.bottom() < (npc.dst.y
            + npc.dst.h) * UNIT {
            old(player).dst_rect@.nudged(crate::vector::Vector { x: 0, y: DESCENT as int })
        } else {
            old(player).dst_rect@
        },
        final(player).delta_pos == old(player).delta_pos,
        final(player).action == old(player).action,
        final(player).body == old(player).body,
        final(player).legs == old(player).legs,
        final(player).backwards == old(player).backwards,
        final(player).invincibility == old(player).invincibility,
{
    if heart.zoom >= 100 {
        true
    } else if player.dst_rect.top_left.y + player.dst_rect.dims.y >= npc.bottom() as i64 * UNIT {
        heart.zoom = if heart.zoom + ZOOM_STEP <= 100 {
            heart.zoom + ZOOM_STEP
        } else {
            100
        };
        false
    } else {
        player.dst_rect.top_left.y = player.dst_rect.top_left.y + DESCENT;
        false
    }
}

/// What the run of the actor does in a tick: nothing, its first step, or a
/// step more.
#[derive(Clone, Copy, Debug, PartialEq, Eq, Structural)]
pub enum Gait {
    Still,
    Begins,
    Continues,
}

impl Gait {
    /// The gait of a tick that began with the action `was` and ended with
    /// `is`.
    pub open spec fn of(was: Action, is: Action) -> Gait {
        if !(is is Moving) {
            Gait::Still
        } else if was is Moving {
            Gait::Continues
        } else {
            Gait::Begins
        }
    }
}

/// What one tick of a running game has brought.
#[derive(Debug)]
pub struct Tick {
    /// What the actor has picked up, in the order of the world.
    pub picked: Vec<Collectable>,
    /// What the tick has cost.
    pub damage: Option<i32>,
    /// What the run of the actor does.
    pub gait: Gait,
    /// What the game is at after the tick.
    pub stage: Stage,
}

/// What the things are worth together.
pub open spec fn worth(things: Seq<Collectable>) -> int
    decreases things.len(),
{
    if things.len() == 0 {
        0
    } else {
        worth(things.drop_last()) + things.last().score
    }
}

/// The first things of a list are worth no more than the whole list.
pub proof fn lemma_worth_take(things: Seq<Collectable>, n: int)
    requires
        0 <= n <= things.len(),
    ensures
        0 <= worth(things.take(n)) <= worth(things),
        n < things.len() ==> worth(things.take(n + 1)) == worth(things.take(n)) + things[n].score,
    decreases things.len(),
{
    if n == things.len() {
        assert(things.take(n) == things);
        if n > 0 {
            lemma_worth_take(things.drop_last(), n - 1);
            assert(things.drop_last().take(n - 1) == things.take(n - 1));
        }
    } else {
        let rest = things.drop_last();
        lemma_worth_take(rest, n);
        assert(rest.take(n) == things.take(n));
        assert(things.take(n + 1).drop_last() == things.take(n));
        assert(things.take(n + 1).last() == things[n]);
    }
}

/// What is chosen from a list is worth no more than the list.
pub proof fn lemma_worth_chosen(things: Seq<Collectable>, mask: Seq<bool>, want: bool)
    ensures
        0 <= worth(chosen(things, mask, want)) <= worth(things),
    decreases things.len(),
{
    if things.len() > 0 {
        lemma_worth_chosen(things.drop_last(), mask.drop_last(), want);
        if mask.len() == things.len() && mask.last() == want {
            let rest = chosen(things.drop_last(), mask.drop_last(), want);
            assert(rest.push(things.last()).drop_last() == rest);
        }
    }
}

/// One tick of a running game, in its order.
///
/// The cats walk on. The actor takes in the keys, the clock runs down, the
/// resolver finds the correction for the actor and the actor moves by it.
/// What the actor or its feet then touch is picked up and added to the score.
/// Unless the actor is invincible, a cat that touches it or spikes under its
/// feet cost their damage, which is taken from the score, and make the actor
/// invincible. An actor that has come as far as the one who waits, or whose
/// time has run out, is invincible no longer; the one ends the run for the
/// meeting, the other ends the game, and where both happen the game ends.
pub fn update_running<T>(
    world: &mut World,
    player: &mut Player,
    timer: &mut TextBox<T, Clock>,
    score: &mut TextBox<T, u32>,
    left: bool,
    right: bool,
    up: bool,
    delta: u64,
) -> (r: Tick)
    requires
        old(world).wf(),
        old(player).wf(),
        old(player).delta_pos.y >= JUMP - REACH,
        old(score).value + worth(old(world).collectables@) <= u32::MAX,
    ensures
        ({
            let walked = old(player).processed(left, right, up);
            let found = old(world).resolution(&walked);
            let moved = walked.updated(found.force, found.floor, delta);
            let (body, legs) = (moved.body_volume(), moved.legs_volume());
            let reach = out_of_reach(old(world).collectables@, body, legs);
            let hurt = hurts(
                moved.invincibility is Some,
                scratched(final(world).enemies@, body, legs),
                found.hazard,
            );
            let met = moved.dst_rect@.right() >= old(world).npc.dst.x * UNIT;
            let late = old(timer).value.0 <= delta;
            let gained = old(score).value + worth(r.picked@);
            &&& final(world).wf()
            &&& walked_on(old(world).enemies@, final(world).enemies@)
            &&& final(world).obstacles == old(world).obstacles
            &&& final(world).spikes == old(world).spikes
            &&& final(world).goal == old(world).goal
            &&& final(world).npc == old(world).npc
            &&& final(world).gravity == old(world).gravity
            &&& final(world).collectables@ == chosen(old(world).collectables@, reach, true)
            &&& r.picked@ == chosen(old(world).collectables@, reach, false)
            &&& r.damage == hurt
            &&& r.gait == Gait::of(walked.action, moved.action)
            &&& r.stage == if late {
                Stage::TimeUp
            } else if met {
                Stage::Transition
            } else {
                Stage::Running
            }
            &&& final(timer).text == old(timer).text
            &&& final(timer).value.0 == if late {
                0
            } else {
                old(timer).value.0 - delta
            }
            &&& final(score).text == old(score).text
            &&& final(score).value == match hurt {
                Some(d) if gained < d => 0,
                Some(d) => gained - d,
                None => gained,
            }
            &&& *final(player) == (Player {
                invincibility: if met || late {
                    None
                } else if hurt is Some {
                    Some(
                        Invincibility {
                            duration: INVINCIBLE_FOR,
                            flicker: Flicker::new_spec(FLICKER_EVERY),
                        },
                    )
                } else {
                    moved.invincibility
                },
                ..moved
            })
        }),
{
    let ghost things = world.collectables@;
    world.update();
    player.process(left, right, up);
    timer.update(delta);
    let was = player.action;
    let (force, floor, touch_spikes) = world.force(player);
    player.update((force, floor), delta);
    let gait = match player.action {
        Action::Moving => match was {
            Action::Moving => Gait::Continues,
            _ => Gait::Begins,
        },
        _ => Gait::Still,
    };
    let body = player.body();
    let legs = player.legs();
    let picked = collect(&mut world.collectables, &body, &legs);
    proof {
        let reach = out_of_reach(things, body@, legs@);
        lemma_chosen_keeps(things, reach, true, |c: Collectable| c.body.wf());
        lemma_worth_chosen(things, reach, false);
    }
    let mut i: usize = 0;
    while i < picked.len()
        invariant
            i <= picked.len(),
            score.text == old(score).text,
            score.value == old(score).value + worth(picked@.take(i as int)),
            old(score).value + worth(picked@) <= u32::MAX,
        decreases picked.len() - i,
    {
        proof {
            lemma_worth_take(picked@, i as int);
            lemma_worth_take(picked@, i as int + 1);
        }
        score.value = score.value + picked[i].score;
        i += 1;
    }
    assert(picked@.take(picked@.len() as int) == picked@);
    let hurt = damage(player.invincibility.is_some(), clawed(&world.enemies, &body, &legs), touch_spikes);
    if let Some(d) = hurt {
        player.invincible();
        score.update(-d);
    }
    let mut stage = Stage::Running;
    if arrived(player, &world.npc) {
        player.invincibility = None;
        stage = Stage::Transition;
    }
    if time_up(timer.value) {
        player.invincibility = None;
        stage = Stage::TimeUp;
    }
    Tick { picked, damage: hurt, gait, stage }
}

} // verus!

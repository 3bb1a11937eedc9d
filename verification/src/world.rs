use vstd::prelude::*;
use crate::cat;
use crate::cat::{Cat, Kind};
use crate::collectable;
use crate::collectable::Collectable;
use crate::data;
use crate::data::Dimension;
use crate::goal::Goal;
use crate::npc::Npc;
use crate::obstacle::{span, within_reach, Obstacle};
use crate::player::{Player, FLOOR};
use crate::resolver::{all_within_reach, lemma_held_inside, resolve, Resolution, CROWD, LEAP};
use crate::shape::{Rectangle, Region};
use crate::spike::Spike;
use crate::vector::{Frame, Point, Vec2, Vector, BOUND, FIELD, REACH, SCREEN_HEIGHT, UNIT};

verus! {

/// Every cat has walked on by one tick: it is where [`cat::Kind::next`] puts
/// it, and its box has moved with it.
pub open spec fn walked_on(was: Seq<Cat>, is: Seq<Cat>) -> bool {
    &&& is.len() == was.len()
    &&& forall|i: int|
        0 <= i < is.len() ==> {
            &&& (#[trigger] is[i]).kind == was[i].kind.next()
            &&& is[i].body == was[i].body
            &&& is[i].dst@ == was[i].dst@.nudged(
                Vector { x: (is[i].kind.offset() - was[i].kind.offset()) * UNIT, y: 0 },
            )
        }
}

/// The playing field of one level in a running game, and those who live on
/// it.
#[derive(Clone, Debug)]
pub struct World {
    pub obstacles: Vec<Obstacle>,
    pub goal: Goal,
    pub spikes: Vec<Spike>,
    pub collectables: Vec<Collectable>,
    pub npc: Npc,
    pub enemies: Vec<Cat>,
    /// What every tick adds to the correction before anything is looked at.
    pub gravity: Vec2,
}

impl World {
    /// Every obstacle, strip of spikes, cat and thing to pick up is
    /// well-formed, there are at most [`CROWD`] obstacles and as many strips,
    /// and gravity is no more than the playing field is wide.
    pub open spec fn wf(&self) -> bool {
        &&& self.obstacles@.len() <= CROWD
        &&& self.spikes@.len() <= CROWD
        &&& forall|i: int| 0 <= i < self.obstacles@.len() ==> (#[trigger] self.obstacles@[i]).wf()
        &&& forall|i: int| 0 <= i < self.spikes@.len() ==> (#[trigger] self.spikes@[i]).wf()
        &&& forall|i: int| 0 <= i < self.enemies@.len() ==> (#[trigger] self.enemies@[i]).wf()
        &&& forall|i: int|
            0 <= i < self.collectables@.len() ==> (#[trigger] self.collectables@[i]).body.wf()
        &&& self.gravity@.within(REACH as int)
    }

    /// The rectangles of the obstacles, in order.
    pub open spec fn obstacle_regions(&self) -> Seq<Region> {
        Seq::new(self.obstacles@.len(), |i: int| self.obstacles@[i].region())
    }

    /// The rectangles through which the spikes wound, in order.
    pub open spec fn spike_regions(&self) -> Seq<Region> {
        Seq::new(self.spikes@.len(), |i: int| self.spikes@[i].hazard())
    }

    /// What the resolver finds for `player` in this tick.
    ///
    /// Feet and actor are taken where the speed of the actor would carry them.
    /// The correction begins as gravity. Against the obstacles, and after them
    /// against the spikes, the feet are moved off every piece in order, the
    /// actor with them, and then the actor alone is moved off every piece,
    /// twice over. Every displacement is added to the correction. The feet
    /// touching any piece is floor contact; touching spikes is hazard contact
    /// too.
    pub open spec fn resolution(&self, player: &Player) -> Resolution {
        Resolution::start(
            self.gravity@,
            player.legs_volume().nudged(player.delta_pos@),
            player.body_volume().nudged(player.delta_pos@),
        ).against(self.obstacle_regions(), false).against(self.spike_regions(), true)
    }

    /// The rectangles of the obstacles, in order.
    fn obstacle_rectangles(&self) -> (r: Vec<Rectangle>)
        requires
            self.wf(),
        ensures
            r.deep_view() == self.obstacle_regions(),
            all_within_reach(r.deep_view()),
    {
        let mut out: Vec<Rectangle> = Vec::new();
        let mut i: usize = 0;
        while i < self.obstacles.len()
            invariant
                i <= self.obstacles.len(),
                self.wf(),
                out@.len() == i,
                forall|j: int| 0 <= j < i ==> (#[trigger] out@[j])@ == self.obstacles@[j].region(),
                forall|j: int| 0 <= j < i ==> within_reach((#[trigger] out@[j])@),
            decreases self.obstacles.len() - i,
        {
            assert(self.obstacles@[i as int].wf());
            out.push(self.obstacles[i].rectangle());
            i += 1;
        }
        assert(out.deep_view() =~= self.obstacle_regions());
        out
    }

    /// The rectangles through which the spikes wound, in order.
    fn spike_rectangles(&self) -> (r: Vec<Rectangle>)
        requires
            self.wf(),
        ensures
            r.deep_view() == self.spike_regions(),
            all_within_reach(r.deep_view()),
    {
        let mut out: Vec<Rectangle> = Vec::new();
        let mut i: usize = 0;
        while i < self.spikes.len()
            invariant
                i <= self.spikes.len(),
                self.wf(),
                out@.len() == i,
                forall|j: int| 0 <= j < i ==> (#[trigger] out@[j])@ == self.spikes@[j].hazard(),
                forall|j: int| 0 <= j < i ==> within_reach((#[trigger] out@[j])@),
            decreases self.spikes.len() - i,
        {
            assert(self.spikes@[i as int].wf());
            proof {
                self.spikes@[i as int].lemma_hazard_within();
            }
            out.push(self.spikes[i].body);
            i += 1;
        }
        assert(out.deep_view() =~= self.spike_regions());
        out
    }

    /// Lets one tick pass for those who live in the world: every cat walks on.
    pub fn update(&mut self)
        requires
            old(self).wf(),
        ensures
            final(self).wf(),
            walked_on(old(self).enemies@, final(self).enemies@),
            final(self).obstacles == old(self).obstacles,
            final(self).spikes == old(self).spikes,
            final(self).collectables == old(self).collectables,
            final(self).goal == old(self).goal,
            final(self).npc == old(self).npc,
            final(self).gravity == old(self).gravity,
    {
        let ghost before = self.enemies@;
        let mut i: usize = 0;
        while i < self.enemies.len()
            invariant
                i <= self.enemies.len(),
                self.enemies@.len() == before.len(),
                self.obstacles == old(self).obstacles,
                self.spikes == old(self).spikes,
                self.collectables == old(self).collectables,
                self.goal == old(self).goal,
                self.npc == old(self).npc,
                self.gravity == old(self).gravity,
                old(self).wf(),
                before == old(self).enemies@,
                forall|j: int| i <= j < before.len() ==> self.enemies@[j] == before[j],
                forall|j: int| 0 <= j < self.enemies@.len() ==> (#[trigger] self.enemies@[j]).wf(),
                forall|j: int|
                    0 <= j < i ==> {
                        let (was, is) = (before[j], #[trigger] self.enemies@[j]);
                        &&& is.kind == was.kind.next()
                        &&& is.body == was.body
                        &&& is.dst@ == was.dst@.nudged(
                            Vector { x: (is.kind.offset() - was.kind.offset()) * UNIT, y: 0 },
                        )
                    },
            decreases self.enemies.len() - i,
        {
            self.enemies[i].update();
            i += 1;
        }
    }

    /// The correction for `player` in this tick, whether its feet touched
    /// anything, and whether they touched spikes.
    pub fn force(&self, player: &Player) -> (r: (Vec2, bool, bool))
        requires
            self.wf(),
            player.wf(),
        ensures
            r.0@ == self.resolution(player).force,
            r.1 == self.resolution(player).floor,
            r.2 == self.resolution(player).hazard,
            r.0@.within(BOUND - LEAP),
    {
        let obstacles = self.obstacle_rectangles();
        let spikes = self.spike_rectangles();
        let legs = player.legs().nudge(player.delta_pos);
        let body = player.body().nudge(player.delta_pos);
        proof {
            lemma_held_inside(player.legs_volume(), player.dst_rect@, player.delta_pos@);
            lemma_held_inside(player.body_volume(), player.dst_rect@, player.delta_pos@);
            assert(obstacles@.len() == obstacles.deep_view().len() == self.obstacles@.len());
            assert(spikes@.len() == spikes.deep_view().len() == self.spikes@.len());
        }
        resolve(self.gravity, legs, body, &obstacles, &spikes)
    }
}

impl World {
    /// Where no obstacle and no strip of spikes overlaps the feet or the actor
    /// as their speed would carry them, the correction is gravity alone and
    /// the feet have touched nothing.
    pub proof fn lemma_free_fall(&self, player: &Player)
        requires
            forall|i: int|
                0 <= i < self.obstacles@.len() ==> {
                    let piece = (#[trigger] self.obstacles@[i]).region();
                    &&& !player.legs_volume().nudged(player.delta_pos@).overlaps_region(piece)
                    &&& !player.body_volume().nudged(player.delta_pos@).overlaps_region(piece)
                },
            forall|i: int|
                0 <= i < self.spikes@.len() ==> {
                    let piece = (#[trigger] self.spikes@[i]).hazard();
                    &&& !player.legs_volume().nudged(player.delta_pos@).overlaps_region(piece)
                    &&& !player.body_volume().nudged(player.delta_pos@).overlaps_region(piece)
                },
        ensures
            self.resolution(player).force == self.gravity@,
            !self.resolution(player).floor,
            !self.resolution(player).hazard,
    {
        let start = Resolution::start(
            self.gravity@,
            player.legs_volume().nudged(player.delta_pos@),
            player.body_volume().nudged(player.delta_pos@),
        );
        assert forall|i: int| 0 <= i < self.obstacle_regions().len() implies !start.legs.overlaps_region(
            #[trigger] self.obstacle_regions()[i],
        ) && !start.body.overlaps_region(self.obstacle_regions()[i]) by {
            assert(self.obstacle_regions()[i] == self.obstacles@[i].region());
        }
        assert forall|i: int| 0 <= i < self.spike_regions().len() implies !start.legs.overlaps_region(
            #[trigger] self.spike_regions()[i],
        ) && !start.body.overlaps_region(self.spike_regions()[i]) by {
            assert(self.spike_regions()[i] == self.spikes@[i].hazard());
        }
        start.lemma_untouched(self.obstacle_regions(), false);
        start.lemma_untouched(self.spike_regions(), true);
    }

    /// The displacement that lifts feet sunk into the ground by speed and
    /// gravity back onto it.
    pub open spec fn lift(&self, player: &Player) -> Vector {
        Vector { x: 0, y: -(player.delta_pos.y + self.gravity.y) }
    }

    /// The actor rests on the one obstacle of the world: as its speed would
    /// carry them, the feet sink into the obstacle by just what speed and
    /// gravity add, straight down, and lifted back by as much the actor is
    /// clear of the obstacle.
    pub open spec fn rests(&self, player: &Player) -> bool {
        let ground = self.obstacles@[0].region();
        let legs = player.legs_volume().nudged(player.delta_pos@);
        let body = player.body_volume().nudged(player.delta_pos@);
        &&& self.obstacles@.len() == 1
        &&& self.spikes@.len() == 0
        &&& self.gravity.x == 0
        &&& player.delta_pos.x == 0
        &&& legs.mtv(ground) == Some(self.lift(player))
        &&& !body.nudged(self.lift(player)).overlaps_region(ground)
    }

    /// An actor stands on the ground: its feet are one rectangle, sunk into
    /// the ground by just what gravity adds in a tick and no nearer to a side
    /// or to the bottom of the ground than speed and gravity carry them, and
    /// no part of its body reaches lower than the feet.
    pub open spec fn stands(&self, player: &Player) -> bool {
        let ground = self.obstacles@[0].region();
        let legs = player.legs_volume();
        let body = player.body_volume();
        let sink = player.delta_pos.y + self.gravity.y;
        &&& legs.circles.len() == 0 && legs.rectangles.len() == 1
        &&& legs.rectangles[0].dims.x > 0 && legs.rectangles[0].dims.y > 0
        &&& ground.dims.x > 0 && ground.dims.y > 0
        &&& legs.rectangles[0].bottom() == ground.top() + self.gravity.y
        &&& 0 < sink
        &&& 2 * sink <= ground.dims.y + legs.rectangles[0].dims.y
        &&& ground.left() + sink <= legs.rectangles[0].right()
        &&& legs.rectangles[0].left() + sink <= ground.right()
        &&& forall|i: int|
            0 <= i < body.rectangles.len() ==> (#[trigger] body.rectangles[i]).bottom()
                <= ground.top() + self.gravity.y
        &&& forall|i: int|
            0 <= i < body.circles.len() ==> (#[trigger] body.circles[i]).center.y
                + body.circles[i].radius <= ground.top() + self.gravity.y
    }

    /// An actor that stands on the ground of a world with nothing else in it,
    /// and has no speed but downwards, rests on it.
    pub proof fn lemma_stands_to_rest(&self, player: &Player)
        requires
            self.obstacles@.len() == 1,
            self.spikes@.len() == 0,
            self.gravity.x == 0,
            player.delta_pos.x == 0,
            self.stands(player),
        ensures
            self.rests(player),
    {
        let ground = self.obstacles@[0].region();
        let speed = player.delta_pos@;
        let lift = self.lift(player);
        let legs = player.legs_volume().nudged(speed);
        assert(legs.circles.len() == 0 && legs.rectangles.len() == 1);
        let feet = legs.rectangles[0];
        assert(feet == player.legs_volume().rectangles[0].nudged(speed));
        assert(legs.candidates(ground) =~= seq![feet.mtv(ground)]);
        assert(feet.mtv(ground) == Some(lift));
        assert(legs.candidates(ground).drop_first() =~= Seq::<Option<Vector>>::empty());
        let body = player.body_volume().nudged(speed).nudged(lift);
        assert forall|i: int| 0 <= i < body.rectangles.len() implies !(
        #[trigger] body.rectangles[i]).overlaps(ground) by {
            assert(player.body_volume().rectangles[i].bottom() <= ground.top() + self.gravity.y);
        }
        assert forall|i: int| 0 <= i < body.circles.len() implies !(
        #[trigger] body.circles[i]).overlaps_region(ground) by {
            let c = player.body_volume().circles[i];
            assert(c.center.y + c.radius <= ground.top() + self.gravity.y);
            let moved = body.circles[i];
            let off = moved.offset_from(ground);
            if moved.radius > 0 {
                assert(off.y <= -moved.radius);
                assert(off.norm2() >= moved.radius * moved.radius) by (nonlinear_arith)
                    requires
                        off.norm2() == off.x * off.x + off.y * off.y,
                        off.y <= -moved.radius,
                        moved.radius > 0,
                ;
            }
        }
    }

    /// In a world without gravity of its own, an actor whose feet stand exactly
    /// on the top edge of the one obstacle, and which falls by what its last
    /// tick added to its speed, is held: the correction takes the fall back
    /// and nothing else, the feet touch the floor and no hazard, and the tick
    /// leaves the box of the actor where it was, with no speed left.
    pub proof fn lemma_held_on_the_edge(&self, player: &Player, delta: u64)
        requires
            self.obstacles@.len() == 1,
            self.spikes@.len() == 0,
            self.gravity@ == Vector::zero(),
            player.delta_pos.x == 0,
            self.stands(player),
            player.dst_rect.top_left.y + player.dst_rect.dims.y <= FLOOR,
        ensures
            player.legs_volume().rectangles[0].bottom() == self.obstacles@[0].region().top(),
            self.resolution(player).force == (Vector { x: 0, y: -(player.delta_pos.y as int) }),
            self.resolution(player).floor,
            !self.resolution(player).hazard,
            player.updated(
                self.resolution(player).force,
                self.resolution(player).floor,
                delta,
            ).dst_rect == player.dst_rect,
            player.updated(
                self.resolution(player).force,
                self.resolution(player).floor,
                delta,
            ).delta_pos@ == Vector::zero(),
    {
        self.lemma_stands_to_rest(player);
        self.lemma_resting_equilibrium(player, delta);
    }

    /// An actor that rests on the one obstacle of the world, without
    /// horizontal speed, stays where it is: the correction takes back what
    /// speed and gravity add, the feet touch the floor and no hazard, and the
    /// tick leaves the box of the actor where it was.
    pub proof fn lemma_resting_equilibrium(&self, player: &Player, delta: u64)
        requires
            self.rests(player),
            player.dst_rect.top_left.y + player.dst_rect.dims.y <= FLOOR,
        ensures
            self.resolution(player).force == (Vector { x: 0, y: -(player.delta_pos.y as int) }),
            self.resolution(player).floor,
            !self.resolution(player).hazard,
            player.updated(
                self.resolution(player).force,
                self.resolution(player).floor,
                delta,
            ).dst_rect == player.dst_rect,
            player.updated(
                self.resolution(player).force,
                self.resolution(player).floor,
                delta,
            ).delta_pos@ == Vector::zero(),
    {
        let ground = self.obstacles@[0].region();
        let lift = self.lift(player);
        let start = Resolution::start(
            self.gravity@,
            player.legs_volume().nudged(player.delta_pos@),
            player.body_volume().nudged(player.delta_pos@),
        );
        let pieces = self.obstacle_regions();
        assert(pieces =~= seq![ground]);
        assert(pieces.drop_last() =~= Seq::<Region>::empty());
        assert(pieces.last() == ground);
        let landed = start.legs_pass(pieces, false);
        assert(start.legs_pass(pieces.drop_last(), false) == start);
        assert(landed == start.legs_step(ground, false));
        assert(landed.body == start.body.nudged(lift));
        assert forall|i: int| 0 <= i < pieces.len() implies !landed.body.overlaps_region(
            #[trigger] pieces[i],
        ) by {}
        landed.lemma_body_untouched(pieces);
        let settled = landed.body_pass(pieces).body_pass(pieces);
        assert(settled == landed);
        assert(self.spike_regions() =~= Seq::<Region>::empty());
        assert(settled.legs_pass(self.spike_regions(), true) == settled);
        assert(settled.body_pass(self.spike_regions()) == settled);
    }
}


/// The corner of a tile in screen units: `at.x` tiles from the left, `at.y`
/// tiles above the bottom of the screen.
pub open spec fn corner_at(tile: Dimension, at: Dimension) -> Point {
    Point { x: (at.x * tile.x) as i32, y: (SCREEN_HEIGHT - at.y * tile.y) as i32 }
}

/// The tile lies within the playing field.
pub open spec fn on_field(tile: Dimension, at: Dimension) -> bool {
    at.x * tile.x <= FIELD && at.y * tile.y <= FIELD
}

/// The corner of a tile in screen units, where the tile lies within the
/// playing field.
pub fn corner(tile: Dimension, at: Dimension) -> (r: Option<Point>)
    ensures
        r == if on_field(tile, at) {
            Some(corner_at(tile, at))
        } else {
            None
        },
{
    match (span(at.x as u64, tile.x), span(at.y as u64, tile.y)) {
        (Some(x), Some(y)) => Some(Point { x, y: SCREEN_HEIGHT as i32 - y }),
        _ => None,
    }
}

/// What a cat of a level does in the game: a patrol of so many tiles is one
/// of as many tile widths, begun at its left end and towards the right.
pub open spec fn patrol(tile: Dimension, kind: data::CatKind) -> Kind {
    match kind {
        data::CatKind::Idle => Kind::Idle,
        data::CatKind::Moving(tiles) => Kind::Moving {
            total: (tiles * tile.x) as u32,
            current: 0,
            left: false,
        },
    }
}

/// The patrol fits the playing field.
pub open spec fn patrol_fits(tile: Dimension, kind: data::CatKind) -> bool {
    match kind {
        data::CatKind::Idle => true,
        data::CatKind::Moving(tiles) => tiles * tile.x <= FIELD,
    }
}

/// A level made ready: the playing field as the level data place it.
#[derive(Clone, Debug)]
pub struct Data {
    pub obstacles: Vec<Obstacle>,
    pub spikes: Vec<Spike>,
    pub goal: Goal,
    /// Where the one who waits stands: the left edge, and the line of the
    /// feet, in screen units.
    pub npc_pos: Dimension,
    pub collectables: Vec<collectable::Data>,
    pub enemies: Vec<cat::Data>,
    pub gravity: Vec2,
}

impl Data {
    /// Everything of the level can be placed.
    pub open spec fn loadable(level: data::Level, game: data::Game, gravity: Vec2) -> bool {
        let tile = game.ground.out_size;
        &&& gravity@.within(REACH as int)
        &&& level.obstacles@.len() <= CROWD
        &&& level.spikes@.len() <= CROWD
        &&& forall|i: int|
            0 <= i < level.obstacles@.len() ==> Obstacle::loadable(
                tile,
                #[trigger] level.obstacles@[i],
            )
        &&& on_field(tile, level.goal)
        &&& Goal::loadable(
            Point { x: (level.goal.x * tile.x) as i32, y: (level.goal.y * tile.y) as i32 },
            game.goal,
        )
        &&& tile.y <= SCREEN_HEIGHT
        &&& forall|i: int|
            0 <= i < level.coins@.len() ==> {
                let at = #[trigger] level.coins@[i];
                on_field(tile, at) && collectable::Data::loadable(corner_at(tile, at), game.coin)
            }
        &&& forall|i: int|
            0 <= i < level.gems@.len() ==> {
                let at = #[trigger] level.gems@[i];
                on_field(tile, at) && collectable::Data::loadable(corner_at(tile, at), game.gem)
            }
        &&& forall|i: int|
            0 <= i < level.cats@.len() ==> {
                let c = #[trigger] level.cats@[i];
                &&& on_field(tile, c.bottom_left)
                &&& patrol_fits(tile, c.kind)
                &&& cat::Data::loadable(
                    corner_at(tile, c.bottom_left),
                    patrol(tile, c.kind),
                    game.cat,
                )
            }
        &&& forall|i: int|
            0 <= i < level.spikes@.len() ==> Spike::loadable(
                tile,
                game.spike.out_size,
                #[trigger] level.spikes@[i],
            )
    }

    /// `self` is the level made ready.
    ///
    /// Obstacles, spikes and cats stand in the order of the level data; the
    /// coins come before the gems. Everything stands with its bottom-left
    /// corner on that of its tile. The one who waits stands at the left edge
    /// of the goal, on the top of the lowest row of tiles.
    pub open spec fn loads(&self, level: data::Level, game: data::Game, gravity: Vec2) -> bool {
        let tile = game.ground.out_size;
        &&& self.gravity == gravity
        &&& self.obstacles@.len() == level.obstacles@.len()
        &&& forall|i: int|
            0 <= i < self.obstacles@.len() ==> #[trigger] self.obstacles@[i] == Obstacle::loaded(
                tile,
                level.obstacles@[i],
            )
        &&& self.goal == Goal::loaded(
            Point { x: (level.goal.x * tile.x) as i32, y: (level.goal.y * tile.y) as i32 },
            game.goal,
        )
        &&& self.npc_pos == (Dimension {
            x: (level.goal.x * tile.x) as u32,
            y: (SCREEN_HEIGHT - tile.y) as u32,
        })
        &&& self.collectables@.len() == level.coins@.len() + level.gems@.len()
        &&& forall|i: int|
            0 <= i < level.coins@.len() ==> (#[trigger] self.collectables@[i]).loads(
                corner_at(tile, level.coins@[i]),
                collectable::Kind::Coin,
                game.coin,
            )
        &&& forall|i: int|
            0 <= i < level.gems@.len() ==> (#[trigger] self.collectables@[level.coins@.len()
                + i]).loads(corner_at(tile, level.gems@[i]), collectable::Kind::Gem, game.gem)
        &&& self.enemies@.len() == level.cats@.len()
        &&& forall|i: int|
            0 <= i < self.enemies@.len() ==> (#[trigger] self.enemies@[i]).loads(
                corner_at(tile, level.cats@[i].bottom_left),
                patrol(tile, level.cats@[i].kind),
                game.cat,
            )
        &&& self.spikes@.len() == level.spikes@.len()
        &&& forall|i: int|
            0 <= i < self.spikes@.len() ==> (#[trigger] self.spikes@[i]).loads(
                tile,
                game.spike.out_size,
                level.spikes@[i],
            )
    }

    /// Obstacles, spikes, cats and things to pick up are well-formed and not
    /// too many, and gravity is no more than the playing field is wide.
    pub open spec fn wf(&self) -> bool {
        &&& self.obstacles@.len() <= CROWD
        &&& self.spikes@.len() <= CROWD
        &&& forall|i: int| 0 <= i < self.obstacles@.len() ==> (#[trigger] self.obstacles@[i]).wf()
        &&& forall|i: int| 0 <= i < self.spikes@.len() ==> (#[trigger] self.spikes@[i]).wf()
        &&& forall|i: int| 0 <= i < self.enemies@.len() ==> (#[trigger] self.enemies@[i]).wf()
        &&& forall|i: int|
            0 <= i < self.collectables@.len() ==> (#[trigger] self.collectables@[i]).body.wf()
        &&& self.gravity@.within(REACH as int)
    }

    /// Makes the level ready: see [`Data::loads`]. `None` where something of
    /// it cannot be placed.
    pub fn load(level: &data::Level, game: &data::Game, gravity: Vec2) -> (r: Option<Data>)
        ensures
            r.is_some() == Self::loadable(*level, *game, gravity),
            r.is_some() ==> r.unwrap().loads(*level, *game, gravity) && r.unwrap().wf(),
    {
        let tile = game.ground.out_size;
        if gravity.x < -REACH || gravity.x > REACH || gravity.y < -REACH || gravity.y > REACH {
            return None;
        }
        if level.obstacles.len() > CROWD || level.spikes.len() > CROWD {
            return None;
        }
        let mut obstacles: Vec<Obstacle> = Vec::new();
        let mut i: usize = 0;
        while i < level.obstacles.len()
            invariant
                i <= level.obstacles.len(),
                tile == game.ground.out_size,
                obstacles@.len() == i,
                forall|j: int|
                    0 <= j < i ==> Obstacle::loadable(tile, #[trigger] level.obstacles@[j]),
                forall|j: int|
                    0 <= j < i ==> #[trigger] obstacles@[j] == Obstacle::loaded(
                        tile,
                        level.obstacles@[j],
                    ) && obstacles@[j].wf(),
            decreases level.obstacles.len() - i,
        {
            match Obstacle::load(&game.ground, &level.obstacles[i]) {
                Some(o) => obstacles.push(o),
                None => {
                    return None;
                },
            }
            i += 1;
        }
        let goal = match corner(tile, level.goal) {
            Some(at) => {
                let bl = Point { x: at.x, y: SCREEN_HEIGHT as i32 - at.y };
                match Goal::load(bl, &game.goal) {
                    Some(g) => g,
                    None => {
                        return None;
                    },
                }
            },
            None => {
                return None;
            },
        };
        if tile.y as i64 > SCREEN_HEIGHT {
            return None;
        }
        let npc_pos = Dimension { x: goal.dst.x as u32, y: SCREEN_HEIGHT as u32 - tile.y };
        let mut collectables: Vec<collectable::Data> = Vec::new();
        let mut i: usize = 0;
        while i < level.coins.len()
            invariant
                i <= level.coins.len(),
                tile == game.ground.out_size,
                collectables@.len() == i,
                forall|j: int|
                    0 <= j < i ==> {
                        let at = #[trigger] level.coins@[j];
                        on_field(tile, at) && collectable::Data::loadable(
                            corner_at(tile, at),
                            game.coin,
                        )
                    },
                forall|j: int|
                    0 <= j < i ==> (#[trigger] collectables@[j]).loads(
                        corner_at(tile, level.coins@[j]),
                        collectable::Kind::Coin,
                        game.coin,
                    ),
            decreases level.coins.len() - i,
        {
            match corner(tile, level.coins[i]) {
                Some(bl) => match collectable::Data::load(bl, collectable::Kind::Coin, &game.coin) {
                    Some(c) => collectables.push(c),
                    None => {
                        return None;
                    },
                },
                None => {
                    return None;
                },
            }
            i += 1;
        }
        let ghost coins = level.coins@.len();
        let mut i: usize = 0;
        while i < level.gems.len()
            invariant
                i <= level.gems.len(),
                tile == game.ground.out_size,
                coins == level.coins@.len(),
                collectables@.len() == coins + i,
                forall|j: int|
                    0 <= j < i ==> {
                        let at = #[trigger] level.gems@[j];
                        on_field(tile, at) && collectable::Data::loadable(
                            corner_at(tile, at),
                            game.gem,
                        )
                    },
                forall|j: int|
                    0 <= j < coins ==> (#[trigger] collectables@[j]).loads(
                        corner_at(tile, level.coins@[j]),
                        collectable::Kind::Coin,
                        game.coin,
                    ),
                forall|j: int|
                    0 <= j < i ==> (#[trigger] collectables@[coins + j]).loads(
                        corner_at(tile, level.gems@[j]),
                        collectable::Kind::Gem,
                        game.gem,
                    ),
            decreases level.gems.len() - i,
        {
            match corner(tile, level.gems[i]) {
                Some(bl) => match collectable::Data::load(bl, collectable::Kind::Gem, &game.gem) {
                    Some(c) => collectables.push(c),
                    None => {
                        return None;
                    },
                },
                None => {
                    return None;
                },
            }
            i += 1;
        }
        let mut enemies: Vec<cat::Data> = Vec::new();
        let mut i: usize = 0;
        while i < level.cats.len()
            invariant
                i <= level.cats.len(),
                tile == game.ground.out_size,
                enemies@.len() == i,
                forall|j: int|
                    0 <= j < i ==> {
                        let c = #[trigger] level.cats@[j];
                        &&& on_field(tile, c.bottom_left)
                        &&& patrol_fits(tile, c.kind)
                        &&& cat::Data::loadable(
                            corner_at(tile, c.bottom_left),
                            patrol(tile, c.kind),
                            game.cat,
                        )
                    },
                forall|j: int|
                    0 <= j < i ==> (#[trigger] enemies@[j]).loads(
                        corner_at(tile, level.cats@[j].bottom_left),
                        patrol(tile, level.cats@[j].kind),
                        game.cat,
                    ),
            decreases level.cats.len() - i,
        {
            let c = &level.cats[i];
            let kind = match c.kind {
                data::CatKind::Idle => Kind::Idle,
                data::CatKind::Moving(tiles) => match span(tiles as u64, tile.x) {
                    Some(total) => Kind::Moving { total: total as u32, current: 0, left: false },
                    None => {
                        return None;
                    },
                },
            };
            match corner(tile, c.bottom_left) {
                Some(bl) => match cat::Data::load(bl, kind, &game.cat) {
                    Some(e) => enemies.push(e),
                    None => {
                        return None;
                    },
                },
                None => {
                    return None;
                },
            }
            i += 1;
        }
        let mut spikes: Vec<Spike> = Vec::new();
        let mut i: usize = 0;
        while i < level.spikes.len()
            invariant
                i <= level.spikes.len(),
                tile == game.ground.out_size,
                spikes@.len() == i,
                forall|j: int|
                    0 <= j < i ==> Spike::loadable(
                        tile,
                        game.spike.out_size,
                        #[trigger] level.spikes@[j],
                    ),
                forall|j: int|
                    0 <= j < i ==> (#[trigger] spikes@[j]).loads(
                        tile,
                        game.spike.out_size,
                        level.spikes@[j],
                    ),
            decreases level.spikes.len() - i,
        {
            match Spike::load(tile, &game.spike, &level.spikes[i]) {
                Some(s) => spikes.push(s),
                None => {
                    return None;
                },
            }
            i += 1;
        }
        assert forall|j: int| 0 <= j < collectables@.len() implies (
        #[trigger] collectables@[j]).body.wf() by {
            if j < coins {
                assert(collectables@[j].loads(
                    corner_at(tile, level.coins@[j]),
                    collectable::Kind::Coin,
                    game.coin,
                ));
            } else {
                let k = j - coins;
                assert(collectables@[coins + k].loads(
                    corner_at(tile, level.gems@[k]),
                    collectable::Kind::Gem,
                    game.gem,
                ));
            }
        }
        Some(Data { obstacles, spikes, goal, npc_pos, collectables, enemies, gravity })
    }

    /// The one who waits can be placed: it stands no higher than the top of
    /// the playing field and within it.
    pub open spec fn activable(&self, npc: data::Player) -> bool {
        npc.out_size.y <= self.npc_pos.y && self.npc_pos.x + npc.out_size.x <= FIELD
            && self.npc_pos.y <= FIELD
    }

    /// A game on the level: everything as the level has it, each cat at the
    /// left end of its stretch, and the character `npc` waiting with its feet
    /// on the line that the level gives. `None` where `npc` cannot be placed.
    pub fn activate(&self, npc: &data::Player) -> (r: Option<World>)
        requires
            self.wf(),
        ensures
            r.is_some() == self.activable(*npc),
            r.is_some() ==> {
                let w = r.unwrap();
                &&& w.wf()
                &&& w.gravity == self.gravity
                &&& w.obstacles@ == self.obstacles@
                &&& w.spikes@ == self.spikes@
                &&& w.goal == self.goal
                &&& w.npc.dst == (Frame {
                    x: self.npc_pos.x as i32,
                    y: (self.npc_pos.y - npc.out_size.y) as i32,
                    w: npc.out_size.x as i32,
                    h: npc.out_size.y as i32,
                })
                &&& w.collectables@.len() == self.collectables@.len()
                &&& forall|i: int|
                    0 <= i < w.collectables@.len() ==> (#[trigger] w.collectables@[i]).body
                        == self.collectables@[i].body && w.collectables@[i].score
                        == self.collectables@[i].score && w.collectables@[i].kind
                        == self.collectables@[i].kind
                &&& w.enemies@.len() == self.enemies@.len()
                &&& forall|i: int|
                    0 <= i < w.enemies@.len() ==> {
                        let (cat, data) = (#[trigger] w.enemies@[i], self.enemies@[i]);
                        cat.dst == data.dst && cat.body@ == data.body@ && cat.kind == data.kind
                    }
            },
    {
        if npc.out_size.y > self.npc_pos.y {
            return None;
        }
        let tl = Dimension { x: self.npc_pos.x, y: self.npc_pos.y - npc.out_size.y };
        let npc = match Npc::load(npc, tl) {
            Some(n) => n,
            None => {
                return None;
            },
        };
        let mut collectables: Vec<Collectable> = Vec::new();
        let mut i: usize = 0;
        while i < self.collectables.len()
            invariant
                i <= self.collectables.len(),
                collectables@.len() == i,
                forall|j: int|
                    0 <= j < i ==> (#[trigger] collectables@[j]).body == self.collectables@[j].body
                        && collectables@[j].score == self.collectables@[j].score
                        && collectables@[j].kind == self.collectables@[j].kind,
            decreases self.collectables.len() - i,
        {
            collectables.push(Collectable::new(&self.collectables[i]));
            i += 1;
        }
        let mut enemies: Vec<Cat> = Vec::new();
        let mut i: usize = 0;
        while i < self.enemies.len()
            invariant
                i <= self.enemies.len(),
                self.wf(),
                enemies@.len() == i,
                forall|j: int|
                    0 <= j < i ==> {
                        let (cat, data) = (#[trigger] enemies@[j], self.enemies@[j]);
                        cat.dst == data.dst && cat.body@ == data.body@ && cat.kind == data.kind
                            && cat.wf()
                    },
            decreases self.enemies.len() - i,
        {
            assert(self.enemies@[i as int].wf());
            enemies.push(Cat::new(&self.enemies[i]));
            i += 1;
        }
        let mut obstacles: Vec<Obstacle> = Vec::new();
        let mut i: usize = 0;
        while i < self.obstacles.len()
            invariant
                i <= self.obstacles.len(),
                obstacles@ == self.obstacles@.take(i as int),
            decreases self.obstacles.len() - i,
        {
            obstacles.push(self.obstacles[i]);
            assert(self.obstacles@.take(i as int + 1) == self.obstacles@.take(i as int).push(
                self.obstacles@[i as int],
            ));
            i += 1;
        }
        assert(self.obstacles@.take(i as int) == self.obstacles@);
        let mut spikes: Vec<Spike> = Vec::new();
        let mut i: usize = 0;
        while i < self.spikes.len()
            invariant
                i <= self.spikes.len(),
                spikes@ == self.spikes@.take(i as int),
            decreases self.spikes.len() - i,
        {
            spikes.push(self.spikes[i]);
            assert(self.spikes@.take(i as int + 1) == self.spikes@.take(i as int).push(
                self.spikes@[i as int],
            ));
            i += 1;
        }
        assert(self.spikes@.take(i as int) == self.spikes@);
        Some(
            World {
                npc,
                obstacles,
                spikes,
                goal: self.goal,
                collectables,
                enemies,
                gravity: self.gravity,
            },
        )
    }
}


} // verus!

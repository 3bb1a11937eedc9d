use duck_husky_wedding::cat::{Cat, Kind};
use duck_husky_wedding::data;
use duck_husky_wedding::data::level::Spike as SpikeData;
use duck_husky_wedding::data::{Dimension, Shape, Texture};
use duck_husky_wedding::goal::Goal;
use duck_husky_wedding::npc::Npc;
use duck_husky_wedding::obstacle::Obstacle;
use duck_husky_wedding::player::{Action, Player, FALL};
use duck_husky_wedding::shape::Rectangle;
use duck_husky_wedding::vector::{Frame, Vec2, UNIT};
use duck_husky_wedding::spike::Spike;
use duck_husky_wedding::world::World;

fn dim(x: u32, y: u32) -> Dimension {
    Dimension { x, y }
}

fn texture(name: &str) -> Texture {
    Texture(String::from(name))
}

fn ground() -> data::Ground {
    data::Ground {
        center: texture("c"),
        left: texture("l"),
        right: texture("r"),
        top: texture("t"),
        top_left: texture("tl"),
        top_right: texture("tr"),
        out_size: dim(64, 64),
    }
}

fn obstacle(x: u32, y: u32, across: u32, down: u32) -> Obstacle {
    Obstacle::load(&ground(), &data::Obstacle { count: dim(across, down), bottom_left: dim(x, y) }).unwrap()
}

fn spikes(count: u32, x: u32, y: u32) -> Spike {
    let image = data::Image { texture: texture("spike"), out_size: dim(32, 40) };
    let strip = SpikeData { count, bottom_left: dim(x, y), left: None, right: None, bottom: None };
    Spike::load(dim(64, 64), &image, &strip).unwrap()
}

fn world(gravity: Vec2, obstacles: Vec<Obstacle>, spikes: Vec<Spike>) -> World {
    let nowhere = Frame { x: 0, y: 0, w: 0, h: 0 };
    World {
        obstacles,
        spikes,
        goal: Goal { dst: nowhere },
        collectables: vec![],
        npc: Npc { dst: nowhere },
        enemies: vec![],
        gravity,
    }
}

/// An actor in a box of the given size, in screen units: the body is the
/// upper four fifths of the box, the feet the middle half of the lowest fifth.
fn player(x: i64, y: i64, w: i64, h: i64) -> Player {
    Player::new(
        Rectangle { top_left: Vec2::new(x * UNIT, y * UNIT), dims: Vec2::new(w * UNIT, h * UNIT) },
        vec![Shape::Rectangle(dim(0, 0), dim(100, 80))],
        vec![Shape::Rectangle(dim(25, 80), dim(50, 20))],
    )
}

#[test]
fn in_an_empty_world_the_correction_is_gravity() {
    let gravity = Vec2::new(0, UNIT);
    let mut p = player(100, 100, 100, 100);
    p.delta_pos = Vec2::new(3 * UNIT, -7 * UNIT);
    assert_eq!(world(gravity, vec![], vec![]).force(&p), (gravity, false, false));
    assert_eq!(world(Vec2::zero(), vec![], vec![]).force(&p), (Vec2::zero(), false, false));
}

#[test]
fn far_from_everything_the_correction_is_gravity() {
    let gravity = Vec2::new(-5, 7);
    let w = world(gravity, vec![obstacle(0, 0, 10, 1), obstacle(20, 3, 2, 2)], vec![spikes(3, 12, 1)]);
    let mut p = player(300, 100, 100, 100);
    p.delta_pos.y = 25 * UNIT;
    assert_eq!(w.force(&p), (gravity, false, false));
}

#[test]
fn feet_that_only_touch_the_ground_do_not_count_as_contact() {
    // the ground is the lowest row of tiles: its top is at 656
    let w = world(Vec2::zero(), vec![obstacle(0, 0, 10, 1)], vec![]);
    let p = player(100, 556, 100, 100);
    assert_eq!(w.force(&p), (Vec2::zero(), false, false));
}

#[test]
fn landing_feet_are_lifted_onto_the_ground() {
    let w = world(Vec2::zero(), vec![obstacle(0, 0, 10, 1)], vec![]);
    let mut p = player(100, 550, 100, 100);
    p.delta_pos.y = 10 * UNIT;
    // carried to 660, four units into the ground
    assert_eq!(w.force(&p), (Vec2::new(0, -4 * UNIT), true, false));
}

#[test]
fn gravity_is_part_of_the_correction_on_the_ground_too() {
    let gravity = Vec2::new(0, UNIT);
    let w = world(gravity, vec![obstacle(0, 0, 10, 1)], vec![]);
    let mut p = player(100, 550, 100, 100);
    p.delta_pos.y = 10 * UNIT;
    assert_eq!(w.force(&p), (Vec2::new(0, -3 * UNIT), true, false));
}

#[test]
fn a_resting_actor_stays_where_it_is() {
    for gravity in [0, UNIT, 3 * UNIT + 1] {
        let w = world(Vec2::new(0, gravity), vec![obstacle(0, 0, 10, 1)], vec![]);
        // the feet are sunk into the ground by what gravity adds in a tick
        let mut p = player(100, 556, 100, 100);
        p.dst_rect.top_left.y += gravity;
        let at_rest = p.dst_rect;
        for tick in 0..50 {
            p.process(false, false, false);
            assert_eq!(p.delta_pos, Vec2::new(0, FALL));
            let (force, floor, hazard) = w.force(&p);
            assert_eq!(force, Vec2::new(0, -FALL), "tick {}", tick);
            assert!(floor);
            assert!(!hazard);
            p.update((force, floor), 16_000_000);
            assert_eq!(p.dst_rect, at_rest);
            assert_eq!(p.delta_pos, Vec2::zero());
            assert_eq!(p.action, Action::Standing);
        }
    }
}

#[test]
fn a_falling_actor_comes_to_rest_on_the_ground() {
    let w = world(Vec2::zero(), vec![obstacle(0, 0, 10, 1)], vec![]);
    let mut p = player(100, 300, 100, 100);
    let mut landed_at = None;
    for tick in 0..200 {
        p.process(false, false, false);
        let (force, floor, _) = w.force(&p);
        p.update((force, floor), 16_000_000);
        if floor && landed_at.is_none() {
            landed_at = Some(tick);
        }
        if landed_at.is_some() {
            assert_eq!(p.dst_rect.top_left, Vec2::new(100 * UNIT, 556 * UNIT));
            assert_eq!(p.action, Action::Standing);
        } else {
            assert!(matches!(p.action, Action::Jumping(_)));
        }
    }
    assert!(landed_at.is_some());
}

#[test]
fn the_body_is_moved_off_a_wall() {
    // a wall of five tiles: x 320..384, y 272..592
    let w = world(Vec2::new(0, 7), vec![obstacle(5, 2, 1, 5)], vec![]);
    let p = player(230, 300, 100, 100);
    // the body reaches 10 units into the wall, the feet stay clear of it
    assert_eq!(w.force(&p), (Vec2::new(-10 * UNIT, 7), false, false));
}

#[test]
fn an_actor_pinched_between_two_walls_is_swept_twice() {
    // walls at x 0..64 and x 128..192, both y 272..592
    let w = world(Vec2::zero(), vec![obstacle(0, 2, 1, 5), obstacle(2, 2, 1, 5)], vec![]);
    let p = player(66, 300, 66, 100);
    // first sweep: off the right wall by 4; second sweep: off the left wall by
    // 2, and off the right wall again by 2
    assert_eq!(w.force(&p), (Vec2::new(-4 * UNIT, 0), false, false));
}

#[test]
fn feet_on_spikes_are_floor_contact_and_hazard_contact() {
    // drawn in x 128..224, y 616..656; wounds from y 625
    let w = world(Vec2::zero(), vec![], vec![spikes(3, 2, 1)]);
    let p = player(110, 530, 100, 100);
    assert_eq!(w.force(&p), (Vec2::new(0, -5 * UNIT), true, true));
}

#[test]
fn feet_in_the_drawn_tips_of_spikes_are_not_wounded() {
    let w = world(Vec2::zero(), vec![], vec![spikes(3, 2, 1)]);
    // the feet end at 625, nine units into the drawn strip
    let p = player(110, 525, 100, 100);
    assert_eq!(w.force(&p), (Vec2::zero(), false, false));
}

#[test]
fn ground_lifts_the_feet_before_spikes_are_looked_at() {
    // ground with its top at 592 over x 0..640, spikes wounding from y 625
    let w = world(Vec2::zero(), vec![obstacle(0, 1, 10, 1)], vec![spikes(3, 2, 1)]);
    let mut p = player(110, 492, 100, 100);
    p.delta_pos.y = 40 * UNIT;
    // carried to 632, the feet would be in the spikes; the ground lifts them
    assert_eq!(w.force(&p), (Vec2::new(0, -40 * UNIT), true, false));
}

#[test]
fn a_body_in_spikes_is_moved_off_them_without_contact_of_the_feet() {
    let w = world(Vec2::zero(), vec![], vec![spikes(3, 2, 1)]);
    // the body, x 224-2..., overlaps the strip from the right by 2; the feet do not
    let p = player(222, 600, 100, 100);
    assert_eq!(w.force(&p), (Vec2::new(2 * UNIT, 0), false, false));
}

#[test]
fn the_cats_of_a_world_walk_on() {
    let mut w = world(Vec2::zero(), vec![], vec![]);
    let dst = Rectangle { top_left: Vec2::new(0, 0), dims: Vec2::new(50 * UNIT, 30 * UNIT) };
    w.enemies = vec![
        Cat { dst, body: vec![], kind: Kind::Idle },
        Cat { dst, body: vec![], kind: Kind::Moving { total: 10, current: 4, left: false } },
        Cat { dst, body: vec![], kind: Kind::Moving { total: 10, current: 4, left: true } },
    ];
    w.update();
    assert_eq!(w.enemies[0].kind, Kind::Idle);
    assert_eq!(w.enemies[0].dst, dst);
    assert_eq!(w.enemies[1].kind, Kind::Moving { total: 10, current: 6, left: false });
    assert_eq!(w.enemies[1].dst.top_left, Vec2::new(2 * UNIT, 0));
    assert_eq!(w.enemies[2].kind, Kind::Moving { total: 10, current: 2, left: true });
    assert_eq!(w.enemies[2].dst.top_left, Vec2::new(-2 * UNIT, 0));
}

use duck_husky_wedding::cat;
use duck_husky_wedding::cat::{Cat, Kind};
use duck_husky_wedding::data;
use duck_husky_wedding::data::{Dimension, Shape, Sprite, Texture};
use duck_husky_wedding::flicker::{Flicker, State};
use duck_husky_wedding::player::{
    Action, Invincibility, Player, FALL, FLICKER_EVERY, FLOOR, HOLD_CAP, INVINCIBLE_FOR, JUMP, RUN,
    TERMINAL,
};
use duck_husky_wedding::shape::{Circle, Rectangle};
use duck_husky_wedding::vector::{Point, Vec2, UNIT};

fn dim(x: u32, y: u32) -> Dimension {
    Dimension { x, y }
}

fn sprite() -> Sprite {
    Sprite { texture: Texture(String::from("sheet.png")), frames: 4, tiles: dim(2, 2), duration: 1000 }
}

fn player() -> Player {
    Player::new(
        Rectangle { top_left: Vec2::new(100 * UNIT, 200 * UNIT), dims: Vec2::new(60 * UNIT, 90 * UNIT) },
        vec![Shape::Rectangle(dim(0, 0), dim(100, 80)), Shape::Circle(dim(50, 20), 3000)],
        vec![Shape::Rectangle(dim(25, 80), dim(50, 20))],
    )
}

#[test]
fn the_constants_of_motion_are_whole_sub_units() {
    assert_eq!(UNIT, 25200);
    assert_eq!(RUN * 2, 9 * UNIT);
    assert_eq!(JUMP * 10, 39 * UNIT);
    assert_eq!(FALL * 4, 3 * UNIT);
    assert_eq!(TERMINAL, 25 * UNIT);
    assert_eq!(FLOOR, 703 * UNIT);
    for held in 1..=10 {
        assert_eq!(JUMP % held, 0);
    }
}

#[test]
fn a_new_player_stands_still_and_faces_right() {
    let p = player();
    assert_eq!(p.delta_pos, Vec2::zero());
    assert_eq!(p.action, Action::Standing);
    assert_eq!(p.invincibility, None);
    assert!(!p.backwards);
    assert!(p.is_wf());
}

#[test]
fn a_player_is_loaded_from_its_data() {
    let data = data::Player {
        animation: sprite(),
        idle_texture: Texture(String::from("idle.png")),
        out_size: dim(60, 90),
        body: vec![Shape::Circle(dim(50, 20), 3000)],
        legs: vec![Shape::Rectangle(dim(25, 80), dim(50, 20))],
    };
    let p = Player::load(&data, dim(150, 400)).unwrap();
    assert_eq!(
        p.dst_rect,
        Rectangle { top_left: Vec2::new(150 * UNIT, 400 * UNIT), dims: Vec2::new(60 * UNIT, 90 * UNIT) }
    );
    assert_eq!(p.body, data.body);
    assert_eq!(p.legs, data.legs);
    assert_eq!(p.action, Action::Standing);
    assert!(p.is_wf());
    // off the field
    assert!(Player::load(&data, dim(16_777_157, 0)).is_none());
    assert!(Player::load(&data, dim(16_777_156, 0)).is_some());
    assert!(Player::load(&data, dim(0, 16_777_127)).is_none());
    // feet that hang out of the box below are taken
    let mut low = data.clone();
    low.legs = vec![Shape::Rectangle(dim(25, 90), dim(50, 15))];
    let p = Player::load(&low, dim(150, 400)).unwrap();
    assert_eq!(
        p.legs().rectangles,
        vec![Rectangle {
            top_left: Vec2::new(165 * UNIT, 481 * UNIT),
            dims: Vec2::new(30 * UNIT, 13 * UNIT + UNIT / 2),
        }]
    );
    // a descriptor that leaves the box sideways is not
    let mut bad = data.clone();
    bad.legs = vec![Shape::Rectangle(dim(60, 80), dim(50, 20))];
    assert!(Player::load(&bad, dim(150, 400)).is_none());
}

#[test]
fn body_and_feet_are_built_from_the_box_as_it_stands() {
    let mut p = player();
    p.dst_rect.top_left = Vec2::new(1000, 2000);
    p.dst_rect.dims = Vec2::new(200, 100);
    assert_eq!(p.legs().rectangles, vec![Rectangle { top_left: Vec2::new(1050, 2080), dims: Vec2::new(100, 20) }]);
    assert_eq!(p.body().circles, vec![Circle { center: Vec2::new(1100, 2020), radius: 30 }]);
    p.process(true, false, false);
    assert!(p.backwards);
    assert_eq!(p.legs().rectangles, vec![Rectangle { top_left: Vec2::new(1050, 2080), dims: Vec2::new(100, 20) }]);
    p.legs = vec![Shape::Rectangle(dim(0, 80), dim(50, 20))];
    assert_eq!(p.legs().rectangles, vec![Rectangle { top_left: Vec2::new(1100, 2080), dims: Vec2::new(100, 20) }]);
}

#[test]
fn the_direction_keys_set_the_horizontal_speed() {
    let mut p = player();
    p.process(true, false, false);
    assert_eq!(p.delta_pos.x, -RUN);
    assert!(p.backwards);
    p.process(false, false, false);
    assert_eq!(p.delta_pos.x, 0);
    assert!(p.backwards);
    p.process(false, true, false);
    assert_eq!(p.delta_pos.x, RUN);
    assert!(!p.backwards);
    p.process(true, true, false);
    assert_eq!(p.delta_pos.x, 0);
    assert!(!p.backwards);
}

#[test]
fn falling_speeds_up_to_the_terminal_speed() {
    let mut p = player();
    p.process(false, false, false);
    assert_eq!(p.delta_pos.y, FALL);
    p.process(false, false, false);
    assert_eq!(p.delta_pos.y, 2 * FALL);
    p.delta_pos.y = TERMINAL - 1;
    p.process(false, false, false);
    assert_eq!(p.delta_pos.y, TERMINAL);
    p.process(false, false, false);
    assert_eq!(p.delta_pos.y, TERMINAL);
}

#[test]
fn the_jump_key_starts_a_jump_from_the_ground() {
    for action in [Action::Standing, Action::Moving] {
        let mut p = player();
        p.action = action;
        p.delta_pos.y = 12345;
        p.process(false, false, true);
        assert_eq!(p.delta_pos.y, -JUMP + FALL);
        assert_eq!(p.action, action);
    }
}

#[test]
fn holding_the_jump_key_adds_less_each_tick() {
    let mut p = player();
    p.action = Action::Jumping(0);
    let shares = [98280, 49140, 32760, 24570, 19656, 16380, 14040, 12285, 10920, 9828];
    for (tick, share) in shares.iter().enumerate() {
        let before = p.delta_pos.y;
        p.process(false, false, true);
        assert_eq!(p.delta_pos.y, before - share + FALL);
        assert_eq!(p.action, Action::Jumping(tick as u32 + 1));
    }
    assert_eq!(shares.iter().sum::<i64>(), 287859);
}

#[test]
fn holding_the_jump_key_beyond_the_cap_adds_nothing() {
    let mut held = player();
    held.action = Action::Jumping(0);
    let mut let_go = player();
    let_go.action = Action::Jumping(0);
    for _ in 0..HOLD_CAP {
        held.process(false, false, true);
        let_go.process(false, false, true);
    }
    assert_eq!(held.action, Action::Jumping(HOLD_CAP));
    let at_cap = held.delta_pos.y;
    assert_eq!(at_cap, -287859 + 10 * FALL);
    for tick in 1..=20 {
        held.process(false, false, true);
        let_go.process(false, false, false);
        assert_eq!(held.action, Action::Jumping(HOLD_CAP));
        assert_eq!(held.delta_pos, let_go.delta_pos);
        assert_eq!(held.delta_pos.y, at_cap + tick * FALL);
    }
}

#[test]
fn letting_go_of_the_jump_key_ends_the_push() {
    let mut p = player();
    p.action = Action::Jumping(3);
    p.process(false, false, false);
    assert_eq!(p.action, Action::Jumping(HOLD_CAP));
    assert_eq!(p.delta_pos.y, FALL);
    p.process(false, false, true);
    assert_eq!(p.action, Action::Jumping(HOLD_CAP));
    assert_eq!(p.delta_pos.y, 2 * FALL);
}

#[test]
fn every_action_has_one_successor() {
    let cases = [
        // from, floor, moving, to
        (Action::Standing, false, false, Action::Jumping(0)),
        (Action::Standing, false, true, Action::Jumping(0)),
        (Action::Standing, true, false, Action::Standing),
        (Action::Standing, true, true, Action::Moving),
        (Action::Moving, false, false, Action::Jumping(0)),
        (Action::Moving, false, true, Action::Jumping(0)),
        (Action::Moving, true, false, Action::Standing),
        (Action::Moving, true, true, Action::Moving),
        (Action::Jumping(4), false, false, Action::Jumping(4)),
        (Action::Jumping(4), false, true, Action::Jumping(4)),
        (Action::Jumping(4), true, false, Action::Standing),
        (Action::Jumping(4), true, true, Action::Moving),
    ];
    for (from, floor, moving, to) in cases {
        assert_eq!(from.step(floor, moving, false), to);
        let mut p = player();
        p.action = from;
        p.delta_pos.x = if moving { RUN } else { 0 };
        p.update((Vec2::zero(), floor), 0);
        assert_eq!(p.action, to);
    }
    assert_eq!(Action::Jumping(4).step(false, true, true), Action::Jumping(HOLD_CAP));
    assert_eq!(Action::Standing.step(false, true, true), Action::Jumping(0));
    assert_eq!(Action::Jumping(4).step(true, false, true), Action::Standing);
}

#[test]
fn the_box_moves_by_speed_and_correction() {
    let mut p = player();
    p.delta_pos = Vec2::new(RUN, -3 * UNIT);
    p.update((Vec2::new(-5, 7), false), 0);
    assert_eq!(p.dst_rect.top_left, Vec2::new(100 * UNIT + RUN - 5, 197 * UNIT + 7));
    assert_eq!(p.dst_rect.dims, Vec2::new(60 * UNIT, 90 * UNIT));
    // the correction works against the speed: the speed is lost
    assert_eq!(p.delta_pos, Vec2::new(RUN, 0));
}

#[test]
fn a_vertical_speed_is_lost_only_to_a_correction_against_it() {
    let cases = [
        // speed, correction, speed afterwards
        (5, -1, 0),
        (-5, 1, 0),
        (5, 1, 5),
        (-5, -1, -5),
        (5, 0, 5),
        (0, -1, 0),
        (0, 0, 0),
    ];
    for (speed, correction, after) in cases {
        let mut p = player();
        p.delta_pos.y = speed;
        p.update((Vec2::new(0, correction), true), 0);
        assert_eq!(p.delta_pos.y, after);
    }
}

#[test]
fn a_head_bump_ends_the_push_of_a_jump() {
    let mut p = player();
    p.action = Action::Jumping(2);
    p.delta_pos.y = -3 * UNIT;
    p.update((Vec2::new(0, UNIT), false), 0);
    assert_eq!(p.action, Action::Jumping(HOLD_CAP));
    assert_eq!(p.delta_pos.y, 0);
    let mut p = player();
    p.action = Action::Jumping(2);
    p.delta_pos.y = -3 * UNIT;
    p.update((Vec2::new(0, -UNIT), false), 0);
    assert_eq!(p.action, Action::Jumping(2));
}

#[test]
fn the_box_never_sinks_below_the_floor_line() {
    let mut p = player();
    p.dst_rect.top_left.y = 600 * UNIT;
    p.delta_pos.y = 20 * UNIT;
    p.update((Vec2::zero(), false), 0);
    // bottom edge at 703
    assert_eq!(p.dst_rect.top_left.y, (703 - 90) * UNIT);
    let mut p = player();
    p.dst_rect.top_left.y = 600 * UNIT;
    p.delta_pos.y = 13 * UNIT;
    p.update((Vec2::zero(), false), 0);
    assert_eq!(p.dst_rect.top_left.y, 613 * UNIT);
}

#[test]
fn invincibility_lasts_a_second() {
    let mut p = player();
    p.invincible();
    assert_eq!(
        p.invincibility,
        Some(Invincibility { duration: 1_000_000_000, flicker: Flicker::new(100_000_000) })
    );
    assert_eq!(INVINCIBLE_FOR, 1_000_000_000);
    assert_eq!(FLICKER_EVERY, 100_000_000);
    p.update((Vec2::zero(), true), 400_000_000);
    p.update((Vec2::zero(), true), 600_000_000);
    assert_eq!(p.invincibility.map(|i| i.duration), Some(0));
    p.update((Vec2::zero(), true), 1);
    assert_eq!(p.invincibility, None);
    p.update((Vec2::zero(), true), 1);
    assert_eq!(p.invincibility, None);
}

#[test]
fn invincibility_runs_down_with_its_flicker() {
    let i = Invincibility::new();
    let i = i.update(60_000_000).unwrap();
    assert_eq!(i.duration, 940_000_000);
    assert_eq!(i.flicker, Flicker { duration: 100_000_000, remaining: 40_000_000, state: State::Show });
    let i = i.update(60_000_000).unwrap();
    assert_eq!(i.duration, 880_000_000);
    assert_eq!(i.flicker, Flicker { duration: 100_000_000, remaining: 100_000_000, state: State::Hide });
    assert_eq!(i.update(880_000_001), None);
    assert!(i.update(880_000_000).is_some());
}

#[test]
fn a_flicker_turns_over_when_its_period_has_run_out() {
    let mut f = Flicker::new(100);
    assert!(f.is_shown());
    f.update(100);
    assert!(f.is_shown());
    assert_eq!(f.remaining, 0);
    f.update(1);
    assert!(!f.is_shown());
    assert_eq!(f.remaining, 100);
    f.update(1000);
    assert!(f.is_shown());
    assert_eq!(f.remaining, 100);
    f.update(0);
    assert!(f.is_shown());
    let mut s = State::Show;
    s.toggle();
    assert_eq!(s, State::Hide);
    s.toggle();
    assert_eq!(s, State::Show);
}

fn walker(total: u32, current: u32, left: bool) -> Cat {
    Cat {
        dst: Rectangle { top_left: Vec2::new(500 * UNIT, 300 * UNIT), dims: Vec2::new(100 * UNIT, 50 * UNIT) },
        body: vec![Shape::Rectangle(dim(0, 50), dim(30, 50))],
        kind: Kind::Moving { total, current, left },
    }
}

#[test]
fn a_cat_at_the_end_of_its_stretch_turns_round() {
    let mut cat = walker(100, 98, false);
    cat.update();
    // the step that reaches the end turns the cat round
    assert_eq!(cat.kind, Kind::Moving { total: 100, current: 100, left: true });
    assert_eq!(cat.dst.top_left.x, 502 * UNIT);
    cat.update();
    assert_eq!(cat.kind, Kind::Moving { total: 100, current: 98, left: true });
    assert_eq!(cat.dst.top_left.x, 500 * UNIT);
    cat.update();
    assert_eq!(cat.kind, Kind::Moving { total: 100, current: 96, left: true });
    assert_eq!(cat.dst.top_left.x, 498 * UNIT);
}

#[test]
fn a_cat_at_the_start_of_its_stretch_turns_round() {
    let mut cat = walker(100, 2, true);
    cat.update();
    assert_eq!(cat.kind, Kind::Moving { total: 100, current: 0, left: false });
    cat.update();
    assert_eq!(cat.kind, Kind::Moving { total: 100, current: 2, left: false });
    let mut cat = walker(100, 1, true);
    cat.update();
    assert_eq!(cat.kind, Kind::Moving { total: 100, current: 1, left: false });
    assert_eq!(cat.dst.top_left.x, 500 * UNIT);
    let mut cat = walker(99, 98, false);
    cat.update();
    assert_eq!(cat.kind, Kind::Moving { total: 99, current: 98, left: true });
}

#[test]
fn a_cat_faces_the_way_it_will_walk_at_both_ends() {
    let mut cat = walker(6, 0, false);
    let mut seen = vec![];
    for _ in 0..8 {
        cat.update();
        if let Kind::Moving { current, left, .. } = cat.kind {
            seen.push((current, left));
        }
    }
    assert_eq!(
        seen,
        vec![(2, false), (4, false), (6, true), (4, true), (2, true), (0, false), (2, false), (4, false)]
    );
    // an end that a step would pass: the rest of the step is walked back
    let mut cat = walker(5, 4, false);
    cat.update();
    assert_eq!(cat.kind, Kind::Moving { total: 5, current: 4, left: true });
    cat.update();
    cat.update();
    assert_eq!(cat.kind, Kind::Moving { total: 5, current: 0, left: false });
}

#[test]
fn a_cat_keeps_to_its_stretch() {
    for total in [0u32, 1, 2, 3, 7, 100] {
        let mut cat = walker(total, 0, false);
        let start = cat.dst.top_left.x;
        for _ in 0..500 {
            cat.update();
            match cat.kind {
                Kind::Moving { total: t, current, .. } => {
                    assert_eq!(t, total);
                    assert!(current <= total);
                    assert_eq!(cat.dst.top_left.x, start + current as i64 * UNIT);
                }
                Kind::Idle => panic!("a walking cat does not sit down"),
            }
        }
    }
}

#[test]
fn a_sitting_cat_stays() {
    let mut cat = walker(0, 0, false);
    cat.kind = Kind::Idle;
    let before = cat.dst;
    cat.update();
    assert_eq!(cat.kind, Kind::Idle);
    assert_eq!(cat.dst, before);
    assert_eq!(Kind::Idle.step(), Kind::Idle);
}

#[test]
fn a_cat_that_sits_or_walks_left_is_mirrored() {
    let right = walker(100, 10, false).body();
    assert_eq!(right.rectangles, vec![Rectangle { top_left: Vec2::new(500 * UNIT, 325 * UNIT), dims: Vec2::new(30 * UNIT, 25 * UNIT) }]);
    let left = walker(100, 10, true).body();
    assert_eq!(left.rectangles, vec![Rectangle { top_left: Vec2::new(570 * UNIT, 325 * UNIT), dims: Vec2::new(30 * UNIT, 25 * UNIT) }]);
    let mut sitting = walker(100, 10, false);
    sitting.kind = Kind::Idle;
    assert_eq!(sitting.body().rectangles, left.rectangles);
}

#[test]
fn a_cat_is_loaded_with_its_bottom_left_corner() {
    let data = data::Cat { idle: sprite(), walking: sprite(), out_size: dim(100, 50), body: vec![Shape::Circle(dim(50, 50), 4000)] };
    let kind = Kind::Moving { total: 64, current: 0, left: false };
    let placed = cat::Data::load(Point { x: 200, y: 656 }, kind, &data).unwrap();
    assert_eq!(
        placed.dst,
        Rectangle { top_left: Vec2::new(200 * UNIT, 606 * UNIT), dims: Vec2::new(100 * UNIT, 50 * UNIT) }
    );
    assert_eq!(placed.kind, kind);
    assert_eq!(placed.body, data.body);
    let cat = Cat::new(&placed);
    assert_eq!(cat.dst, placed.dst);
    assert_eq!(cat.kind, kind);
    assert_eq!(cat.body, data.body);
    // beyond its stretch, or with a stretch that leaves the field
    assert!(cat::Data::load(Point { x: 200, y: 656 }, Kind::Moving { total: 3, current: 4, left: false }, &data).is_none());
    assert!(cat::Data::load(Point { x: 200, y: 656 }, Kind::Moving { total: 16_777_000, current: 0, left: false }, &data).is_none());
    assert!(cat::Data::load(Point { x: 200, y: 16_777_217 }, Kind::Idle, &data).is_none());
}

#[test]
fn one_frame_of_a_sprite_takes_its_share_of_the_pass() {
    assert_eq!(sprite().frame_millis(), 250);
    let odd = Sprite { texture: Texture(String::from("x")), frames: 3, tiles: dim(3, 1), duration: 1000 };
    assert_eq!(odd.frame_millis(), 333);
}

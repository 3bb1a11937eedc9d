use duck_husky_wedding::background::Background;
use duck_husky_wedding::body::Body;
use duck_husky_wedding::camera::ViewPort;
use duck_husky_wedding::cat::{Cat, Kind as CatKind};
use duck_husky_wedding::collectable::{Collectable, Kind as Treasure};
use duck_husky_wedding::data;
use duck_husky_wedding::data::{Dimension, Shape, Texture};
use duck_husky_wedding::edit_text::EditText;
use duck_husky_wedding::engine::{catch_up, MAX_SKIP, TICK};
use duck_husky_wedding::high_score::{qualifies, record, ScoreEntry};
use duck_husky_wedding::hud::Clock;
use duck_husky_wedding::npc::Npc;
use duck_husky_wedding::obstacle::{Obstacle, Tile};
use duck_husky_wedding::player::Player;
use duck_husky_wedding::screen::finish::{Finish, Leave, ScoreData};
use duck_husky_wedding::screen::game_play::{
    approach, arrived, clawed, collect, damage, time_up, Heart, Splash,
};
use duck_husky_wedding::screen::high_score::HighScore;
use duck_husky_wedding::screen::menu::{ButtonKind, ButtonManager, Menu};
use duck_husky_wedding::screen::player_select::PlayerSelect;
use duck_husky_wedding::screen::{Kind, PlayerKind};
use duck_husky_wedding::shape::Rectangle;
use duck_husky_wedding::spike::Spike;
use duck_husky_wedding::utils::VecUtils;
use duck_husky_wedding::vector::{Frame, Point, Vec2, UNIT};

fn dim(x: u32, y: u32) -> Dimension {
    Dimension { x, y }
}

fn rect(x: i64, y: i64, w: i64, h: i64) -> Rectangle {
    Rectangle { top_left: Vec2::new(x, y), dims: Vec2::new(w, h) }
}

fn entry(score: u32, name: &str) -> ScoreEntry {
    ScoreEntry { score, name: String::from(name) }
}

fn lines(list: &[ScoreEntry]) -> Vec<(u32, String)> {
    list.iter().map(|e| (e.score, e.name.clone())).collect()
}

fn letter(c: char) -> Result<String, String> {
    Ok(c.to_string())
}

fn name(text: &str) -> EditText<String> {
    let mut edit = EditText::load(&letter).unwrap();
    for (i, c) in text.chars().enumerate() {
        edit.values[i] = if c == ' ' { None } else { Some(c) };
    }
    edit
}

#[test]
fn a_vector_keeps_what_is_accepted_and_hands_out_the_rest() {
    let mut v = vec![1, 2, 3, 4, 5, 6, 7];
    let drained = v.retain_or_drain(|x| x % 3 != 0);
    assert_eq!(v, vec![1, 2, 4, 5, 7]);
    assert_eq!(drained, vec![3, 6]);
    let drained = v.retain_or_drain(|_| true);
    assert_eq!(v, vec![1, 2, 4, 5, 7]);
    assert!(drained.is_empty());
    let drained = v.retain_or_drain(|_| false);
    assert!(v.is_empty());
    assert_eq!(drained, vec![1, 2, 4, 5, 7]);
    assert!(v.retain_or_drain(|_| false).is_empty());
}

#[test]
fn every_item_is_asked_once_and_in_order() {
    let mut asked = vec![];
    let seen = std::cell::RefCell::new(&mut asked);
    let mut v = vec!['a', 'b', 'c'];
    v.retain_or_drain(|c| {
        seen.borrow_mut().push(*c);
        *c != 'b'
    });
    assert_eq!(asked, vec!['a', 'b', 'c']);
}

#[test]
fn a_new_line_goes_behind_the_lines_that_score_no_less() {
    let list = record(vec![entry(50, "ann"), entry(30, "bob"), entry(30, "cat")], entry(30, "dan"));
    assert_eq!(
        lines(&list),
        vec![(50, "ann".into()), (30, "bob".into()), (30, "cat".into()), (30, "dan".into())]
    );
    let list = record(list, entry(60, "eve"));
    assert_eq!(lines(&list)[0], (60, "eve".into()));
    let list = record(list, entry(40, "fay"));
    assert_eq!(lines(&list)[2], (40, "fay".into()));
    assert_eq!(lines(&record(vec![], entry(1, "x"))), vec![(1, "x".into())]);
}

#[test]
fn a_list_out_of_order_is_put_in_order() {
    let list = record(vec![entry(10, "a"), entry(30, "b"), entry(20, "c"), entry(30, "d")], entry(25, "e"));
    assert_eq!(
        lines(&list),
        vec![(30, "b".into()), (30, "d".into()), (25, "e".into()), (20, "c".into()), (10, "a".into())]
    );
}

#[test]
fn the_list_keeps_ten_lines() {
    let mut list = vec![];
    for i in 0..10 {
        list.push(entry(100 - i, "old"));
    }
    let list = record(list, entry(95, "new"));
    assert_eq!(list.len(), 10);
    assert_eq!(lines(&list)[6], (95, "new".into()));
    assert_eq!(lines(&list)[9], (92, "old".into()));
    let list = record(list, entry(1, "low"));
    assert_eq!(list.len(), 10);
    assert_eq!(lines(&list)[9], (92, "old".into()));
    let list = record(list, entry(92, "tie"));
    assert_eq!(lines(&list)[9], (92, "old".into()));
}

#[test]
fn a_score_qualifies_for_a_list_that_is_not_full_or_has_a_line_no_better() {
    let mut list = vec![];
    assert!(qualifies(&list, 0));
    for i in 0..9 {
        list.push(entry(100 - i, "old"));
    }
    assert!(qualifies(&list, 0));
    list.push(entry(50, "old"));
    assert!(!qualifies(&list, 49));
    assert!(qualifies(&list, 50));
    assert!(qualifies(&list, 51));
}

#[test]
fn a_name_begins_empty() {
    let edit: EditText<String> = EditText::load(&letter).unwrap();
    assert_eq!(edit.values, vec![None; 6]);
    assert_eq!(edit.active, 0);
    assert_eq!(edit.textures.len(), 6);
    assert!(edit.textures.iter().all(|t| t.texture == "_" && t.value.0.is_none()));
    assert_eq!(edit.flicker.duration, 400_000_000);
    assert!(edit.flicker.is_shown());
    assert_eq!(edit.extract(), "");
    let failed: Result<EditText<String>, String> = EditText::load(&|_| Err(String::from("no font")));
    assert!(failed.is_err());
}

#[test]
fn the_keys_move_the_place_and_turn_the_wheel() {
    let mut edit: EditText<String> = EditText::load(&letter).unwrap();
    edit.update(0, true, false, false, false);
    assert_eq!(edit.active, 0);
    edit.update(0, false, false, true, false);
    assert_eq!(edit.values[0], Some('a'));
    edit.update(0, false, false, true, false);
    assert_eq!(edit.values[0], Some('b'));
    edit.update(0, false, false, false, true);
    edit.update(0, false, false, false, true);
    assert_eq!(edit.values[0], None);
    edit.update(0, false, false, false, true);
    assert_eq!(edit.values[0], Some('z'));
    edit.update(0, false, false, true, false);
    assert_eq!(edit.values[0], None);
    // the place moves first, then the wheel turns; up and down together cancel
    edit.update(0, false, true, false, true);
    assert_eq!((edit.active, edit.values[1]), (1, Some('z')));
    edit.update(0, false, false, true, true);
    assert_eq!(edit.values[1], Some('z'));
    edit.update(0, true, true, false, false);
    assert_eq!(edit.active, 1);
    for _ in 0..10 {
        edit.update(0, false, true, false, false);
    }
    assert_eq!(edit.active, 5);
    edit.update(0, true, false, false, false);
    assert_eq!(edit.active, 4);
    edit.update(400_000_001, false, false, false, false);
    assert!(!edit.flicker.is_shown());
}

#[test]
fn a_name_is_read_without_the_blanks_around_it() {
    assert_eq!(name("abc   ").extract(), "abc");
    assert_eq!(name("   abc").extract(), "abc");
    assert_eq!(name(" a  b ").extract(), "a  b");
    assert_eq!(name("abcdef").extract(), "abcdef");
    assert_eq!(name("     z").extract(), "z");
    assert_eq!(name("      ").extract(), "");
}

#[test]
fn the_picture_of_a_letter_is_renewed_when_the_letter_has_changed() {
    let calls = std::cell::Cell::new(0);
    let render = |c: char| {
        calls.set(calls.get() + 1);
        letter(c)
    };
    let mut edit: EditText<String> = EditText::load(&render).unwrap();
    assert_eq!(calls.get(), 6);
    edit.before_draw(&render).unwrap();
    assert_eq!(calls.get(), 6);
    edit.update(0, false, false, true, false);
    edit.before_draw(&render).unwrap();
    assert_eq!(calls.get(), 7);
    assert_eq!(edit.textures[0].texture, "a");
    edit.before_draw(&render).unwrap();
    assert_eq!(calls.get(), 7);
    edit.update(0, false, false, true, false);
    let failed: Result<(), String> = edit.before_draw(&|_| Err(String::from("no font")));
    assert!(failed.is_err());
    assert_eq!(edit.textures[0].texture, "a");
}

#[test]
fn the_view_follows_the_actor_to_the_right() {
    let mut view = ViewPort::new(Point { x: 1280, y: 720 });
    assert_eq!(view.translation, Point { x: 0, y: 0 });
    view.center(Point { x: 500, y: 300 });
    assert_eq!(view.translation, Point { x: 0, y: 0 });
    view.center(Point { x: 640, y: 300 });
    assert_eq!(view.translation, Point { x: 0, y: 0 });
    view.center(Point { x: 1000, y: 300 });
    assert_eq!(view.translation, Point { x: 360, y: 0 });
    view.translate(Point { x: -60, y: 5 });
    assert_eq!(view.translation, Point { x: 300, y: 5 });
    assert_eq!(view.dims, Point { x: 1280, y: 720 });
}

#[test]
fn the_view_contains_what_touches_it() {
    let mut view = ViewPort::new(Point { x: 100, y: 50 });
    view.translate(Point { x: 1000, y: 0 });
    let frame = |x: i32, y: i32| Frame { x, y, w: 10, h: 10 };
    assert!(view.contains(&frame(1000, 0)));
    assert!(view.contains(&frame(990, 0)));
    assert!(!view.contains(&frame(989, 0)));
    assert!(view.contains(&frame(1100, 0)));
    assert!(!view.contains(&frame(1101, 0)));
    assert!(view.contains(&frame(1050, -10)));
    assert!(!view.contains(&frame(1050, -11)));
    assert!(view.contains(&frame(1050, 50)));
    assert!(!view.contains(&frame(1050, 51)));
    assert!(!view.contains(&Frame { x: i32::MAX, y: 0, w: i32::MAX, h: i32::MAX }));
    assert_eq!(view.on_screen(&frame(1050, 20)), Some(frame(50, 20)));
    assert_eq!(view.on_screen(&frame(990, -10)), Some(frame(-10, -10)));
    assert_eq!(view.on_screen(&frame(989, 0)), None);
}

#[test]
fn a_frame_makes_up_for_at_most_ten_ticks() {
    assert_eq!(TICK, 16_666_666);
    assert_eq!(MAX_SKIP, 10);
    assert_eq!(catch_up(0, 0), (0, 0));
    assert_eq!(catch_up(0, TICK - 1), (0, TICK - 1));
    assert_eq!(catch_up(1, TICK - 1), (1, 0));
    assert_eq!(catch_up(10, 3 * TICK), (3, 10));
    assert_eq!(catch_up(5, 10 * TICK), (10, 5));
    assert_eq!(catch_up(5, 25 * TICK), (10, 15 * TICK + 5));
}

#[test]
fn the_menu_goes_round_its_two_buttons() {
    let mut menu = Menu::new();
    assert_eq!(menu.button_manager.selected, ButtonKind::NewGame);
    assert_eq!(menu.update(false, false, false), None);
    assert_eq!(menu.update(false, false, true), Some(Kind::PlayerSelect));
    assert_eq!(menu.update(true, false, false), None);
    assert_eq!(menu.button_manager.selected, ButtonKind::HighScore);
    assert_eq!(menu.update(true, true, true), Some(Kind::HighScore));
    assert_eq!(menu.update(false, true, true), Some(Kind::PlayerSelect));
    let mut buttons = ButtonManager::new();
    assert_eq!(buttons.update(true, false, true), Some(ButtonKind::HighScore));
}

#[test]
fn a_character_is_chosen_once_one_is_selected() {
    let mut select = PlayerSelect::new();
    assert_eq!(select.update(false, false, true), None);
    assert_eq!(select.update(true, true, true), None);
    assert_eq!(select.update(true, false, false), None);
    assert_eq!(select.button_manager.selected, Some(PlayerKind::Husky));
    assert_eq!(select.update(true, false, true), Some(Kind::GamePlay(PlayerKind::Husky)));
    assert_eq!(select.update(false, true, true), Some(Kind::GamePlay(PlayerKind::Duck)));
    assert_eq!(select.update(true, true, true), Some(Kind::GamePlay(PlayerKind::Duck)));
    assert_eq!(select.update(false, false, false), None);
}

#[test]
fn the_list_of_high_scores_leads_back_to_the_menu() {
    let mut screen = HighScore { scores: vec![entry(3, "a")] };
    assert_eq!(screen.update(false), None);
    assert_eq!(screen.update(true), Some(Kind::Menu));
    assert_eq!(HighScore::line_top(0, 40), 150);
    assert_eq!(HighScore::line_top(3, 40), 270);
}

#[test]
fn damage_is_by_cats_before_spikes_and_none_while_invincible() {
    assert_eq!(damage(true, true, true), None);
    assert_eq!(damage(false, true, true), Some(25));
    assert_eq!(damage(false, true, false), Some(25));
    assert_eq!(damage(false, false, true), Some(50));
    assert_eq!(damage(false, false, false), None);
}

#[test]
fn a_cat_claws_what_its_body_touches() {
    let cat = |x: i64| Cat {
        dst: rect(x * UNIT, 0, 100 * UNIT, 50 * UNIT),
        body: vec![Shape::Rectangle(dim(0, 0), dim(100, 100))],
        kind: CatKind::Idle,
    };
    let body = Body { rectangles: vec![rect(0, 0, 10 * UNIT, 10 * UNIT)], circles: vec![] };
    let legs = Body { rectangles: vec![rect(500 * UNIT, 0, 10 * UNIT, 10 * UNIT)], circles: vec![] };
    assert!(!clawed(&vec![], &body, &legs));
    assert!(!clawed(&vec![cat(100), cat(300)], &body, &legs));
    assert!(clawed(&vec![cat(100), cat(-50)], &body, &legs));
    assert!(clawed(&vec![cat(450), cat(100)], &body, &legs));
}

#[test]
fn what_the_actor_touches_is_picked_up() {
    let thing = |x: i64, score: u32| Collectable { kind: Treasure::Coin, body: rect(x, 0, 10, 10), score };
    let mut things = vec![thing(0, 1), thing(100, 2), thing(200, 3), thing(300, 4), thing(105, 5)];
    let body = Body { rectangles: vec![rect(95, 5, 20, 20)], circles: vec![] };
    let legs = Body { rectangles: vec![rect(305, 5, 20, 20)], circles: vec![] };
    let picked = collect(&mut things, &body, &legs);
    assert_eq!(picked, vec![thing(100, 2), thing(300, 4), thing(105, 5)]);
    assert_eq!(things, vec![thing(0, 1), thing(200, 3)]);
    assert!(collect(&mut things, &body, &legs).is_empty());
    assert_eq!(things.len(), 2);
}

#[test]
fn a_splash_rises_while_it_lasts() {
    let mut splash = Splash::new("+10", Point { x: 5, y: 100 });
    assert!(splash.is_active());
    splash.update(400_000_000);
    assert_eq!(splash.dst, Point { x: 5, y: 98 });
    assert_eq!(splash.duration, 600_000_000);
    splash.update(700_000_000);
    assert_eq!(splash.dst, Point { x: 5, y: 96 });
    assert!(!splash.is_active());
    splash.update(1);
    assert_eq!(splash.duration, 0);
}

#[test]
fn the_two_meet_and_the_heart_grows() {
    let mut player = Player::new(rect(900 * UNIT, 500 * UNIT, 60 * UNIT, 90 * UNIT), vec![], vec![]);
    let npc = Npc { dst: Frame { x: 960, y: 530, w: 80, h: 70 } };
    assert!(arrived(&player, &npc));
    player.dst_rect.top_left.x -= 1;
    assert!(!arrived(&player, &npc));
    let mut heart = Heart { zoom: 0, size: dim(30, 50) };
    // bottom at 590, the other's at 600: three ticks of sinking
    for tick in 1..=3 {
        assert!(!approach(&mut player, &mut heart, &npc));
        assert_eq!(player.dst_rect.top_left.y, (500 + 4 * tick) * UNIT);
        assert_eq!(heart.zoom, 0);
    }
    for tick in 1..=20 {
        assert!(!approach(&mut player, &mut heart, &npc));
        assert_eq!(heart.zoom, 5 * tick);
        assert_eq!(player.dst_rect.top_left.y, 512 * UNIT);
    }
    assert_eq!(heart.dims(), dim(30, 50));
    assert!(approach(&mut player, &mut heart, &npc));
    assert_eq!(heart.zoom, 100);
    assert_eq!(Heart { zoom: 35, size: dim(30, 50) }.dims(), dim(10, 17));
}

#[test]
fn time_is_up_at_nothing_left() {
    assert!(time_up(Clock(0)));
    assert!(!time_up(Clock(1)));
}

#[test]
fn the_final_screen_adds_the_time_bonus() {
    let finish = Finish::load(120, Clock(12_999_999_999), vec![], name("      "));
    assert_eq!((finish.score, finish.time, finish.total), (120, 60, 180));
    assert!(finish.score_entry.is_some());
    let full: Vec<ScoreEntry> = (0..10).map(|_| entry(181, "old")).collect();
    let finish = Finish::load(120, Clock(12_999_999_999), full, name("      "));
    assert!(finish.score_entry.is_none());
    let full: Vec<ScoreEntry> = (0..10).map(|i| entry(180 + i, "old")).collect();
    let finish = Finish::load(120, Clock(12_999_999_999), full, name("      "));
    assert_eq!(finish.score_entry.map(|s| s.current), Some(180));
}

#[test]
fn without_a_line_to_write_enter_leads_to_the_menu() {
    let full: Vec<ScoreEntry> = (0..10).map(|_| entry(1000, "old")).collect();
    let mut finish = Finish::load(1, Clock(0), full, name("      "));
    assert!(matches!(finish.update(0, false, true, true, true, true), Leave::Stay));
    assert!(matches!(finish.update(0, true, false, false, false, false), Leave::Menu));
    assert!(finish.before_draw(&letter).is_ok());
}

#[test]
fn a_written_name_is_recorded_on_enter() {
    let mut finish = Finish::load(70, Clock(2_000_000_000), vec![entry(90, "ann"), entry(50, "bob")], name("      "));
    // enter on an empty name changes nothing
    assert!(matches!(finish.update(0, true, false, false, false, false), Leave::Stay));
    assert!(finish.score_entry.is_some());
    // write "b a"
    finish.update(0, false, false, false, true, false);
    finish.update(0, false, false, false, true, false);
    finish.update(0, false, false, true, false, false);
    finish.update(0, false, false, true, true, false);
    finish.before_draw(&letter).unwrap();
    let data = finish.score_entry.as_ref().unwrap();
    assert_eq!(data.name.values, vec![Some('b'), None, Some('a'), None, None, None]);
    assert_eq!(data.name.textures[2].texture, "a");
    match finish.update(0, true, false, false, false, false) {
        Leave::HighScore(list) => assert_eq!(
            lines(&list),
            vec![(90, "ann".into()), (80, "b a".into()), (50, "bob".into())]
        ),
        other => panic!("expected the list of high scores, got {:?}", other),
    }
    assert!(finish.score_entry.is_none());
}

#[test]
fn an_empty_name_hands_everything_back() {
    let data = ScoreData { previous: vec![entry(5, "a")], current: 9, name: name("      ") };
    match data.extract() {
        Err(back) => {
            assert_eq!(back.current, 9);
            assert_eq!(lines(&back.previous), vec![(5, "a".into())]);
        }
        Ok(_) => panic!("an empty name is not recorded"),
    }
    let data = ScoreData { previous: vec![entry(5, "a")], current: 9, name: name(" zed  ") };
    match data.extract() {
        Ok(list) => assert_eq!(lines(&list), vec![(9, "zed".into()), (5, "a".into())]),
        Err(_) => panic!("a written name is recorded"),
    }
}

fn ground(w: u32, h: u32) -> data::Ground {
    let t = |n: &str| Texture(String::from(n));
    data::Ground { center: t("c"), left: t("l"), right: t("r"), top: t("t"), top_left: t("tl"), top_right: t("tr"), out_size: dim(w, h) }
}

#[test]
fn ground_is_drawn_with_tiles_for_its_edges() {
    let o = Obstacle::load(&ground(64, 32), &data::Obstacle { count: dim(3, 2), bottom_left: dim(1, 0) }).unwrap();
    let frame = |x: i32, y: i32| Frame { x, y, w: 64, h: 32 };
    assert_eq!(o.tile(0, 0), (Tile::TopLeft, frame(64, 656)));
    assert_eq!(o.tile(1, 0), (Tile::TopCenter, frame(128, 656)));
    assert_eq!(o.tile(2, 0), (Tile::TopRight, frame(192, 656)));
    assert_eq!(o.tile(0, 1), (Tile::Left, frame(64, 688)));
    assert_eq!(o.tile(1, 1), (Tile::Center, frame(128, 688)));
    assert_eq!(o.tile(2, 1), (Tile::Right, frame(192, 688)));
    let narrow = Obstacle::load(&ground(64, 32), &data::Obstacle { count: dim(1, 2), bottom_left: dim(0, 0) }).unwrap();
    assert_eq!(narrow.tile(0, 0).0, Tile::TopRight);
    assert_eq!(narrow.tile(0, 1).0, Tile::Right);
}

#[test]
fn spikes_are_drawn_in_columns_with_ground_around_them() {
    let image = data::Image { texture: Texture(String::from("s")), out_size: dim(32, 40) };
    let strip = data::level::Spike { count: 3, bottom_left: dim(2, 1), left: None, right: None, bottom: None };
    let s = Spike::load(dim(64, 64), &image, &strip).unwrap();
    let frame = |x: i32, y: i32| Frame { x, y, w: 32, h: 40 };
    assert_eq!(s.column(-1), frame(96, 616));
    assert_eq!(s.column(0), frame(128, 616));
    assert_eq!(s.column(2), frame(192, 616));
    assert_eq!(s.column(3), frame(224, 616));
    assert_eq!(s.under(&s.column(1)), frame(160, 656));
}

#[test]
fn the_background_is_drawn_four_times_side_by_side() {
    let image = data::Image { texture: Texture(String::from("bg")), out_size: dim(1280, 720) };
    let b = Background::load(&image).unwrap();
    assert_eq!(b.frame(0), Frame { x: 0, y: 0, w: 1280, h: 720 });
    assert_eq!(b.frame(3), Frame { x: 3840, y: 0, w: 1280, h: 720 });
    let huge = data::Image { texture: Texture(String::from("bg")), out_size: dim(16_777_217, 720) };
    assert_eq!(Background::load(&huge), None);
}

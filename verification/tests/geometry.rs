use duck_husky_wedding::body::Body;
use duck_husky_wedding::data;
use duck_husky_wedding::data::level::Spike as SpikeData;
use duck_husky_wedding::data::{Dimension, GroundKind, Texture};
use duck_husky_wedding::obstacle::{span, Obstacle};
use duck_husky_wedding::shape::{Circle, Rectangle};
use duck_husky_wedding::vector::{Point, Vec2, FIELD, UNIT};
use duck_husky_wedding::spike::{Spike, INSET};

fn rect(x: i64, y: i64, w: i64, h: i64) -> Rectangle {
    Rectangle { top_left: Vec2::new(x, y), dims: Vec2::new(w, h) }
}

fn dim(x: u32, y: u32) -> Dimension {
    Dimension { x, y }
}

fn texture(name: &str) -> Texture {
    Texture(String::from(name))
}

fn ground(x: u32, y: u32) -> data::Ground {
    data::Ground {
        center: texture("c"),
        left: texture("l"),
        right: texture("r"),
        top: texture("t"),
        top_left: texture("tl"),
        top_right: texture("tr"),
        out_size: dim(x, y),
    }
}

fn image(x: u32, y: u32) -> data::Image {
    data::Image { texture: texture("spike"), out_size: dim(x, y) }
}

fn strip(count: u32, x: u32, y: u32) -> SpikeData {
    SpikeData { count, bottom_left: dim(x, y), left: None, right: Some(GroundKind::Top), bottom: Some(GroundKind::Middle) }
}

#[test]
fn spans_within_the_field() {
    assert_eq!(span(0, 0), Some(0));
    assert_eq!(span(3, 64), Some(192));
    assert_eq!(span(1 << 20, 16), Some(1 << 24));
    assert_eq!(span((1 << 20) + 1, 16), None);
    assert_eq!(span(u64::MAX, u32::MAX), None);
    assert_eq!(FIELD, 1 << 24);
}

#[test]
fn an_obstacle_stands_on_the_tile_grid() {
    let o = Obstacle::load(&ground(64, 32), &data::Obstacle { count: dim(5, 2), bottom_left: dim(3, 1) }).unwrap();
    assert_eq!(o.count, dim(5, 2));
    assert_eq!(o.dims, dim(64, 32));
    // 3 tiles from the left, top edge 3 rows above the bottom of the screen
    assert_eq!(o.tl, Point { x: 192, y: 720 - 96 });
    assert_eq!(o.rectangle(), rect(192 * UNIT, 624 * UNIT, 320 * UNIT, 64 * UNIT));
}

#[test]
fn an_obstacle_off_the_field_is_not_loaded() {
    let tile = ground(64, 64);
    assert!(Obstacle::load(&tile, &data::Obstacle { count: dim(1, 1), bottom_left: dim(262143, 0) }).is_some());
    assert!(Obstacle::load(&tile, &data::Obstacle { count: dim(1, 1), bottom_left: dim(262144, 0) }).is_none());
    assert!(Obstacle::load(&tile, &data::Obstacle { count: dim(1, 262145), bottom_left: dim(0, 0) }).is_none());
    assert!(Obstacle::load(&tile, &data::Obstacle { count: dim(u32::MAX, 1), bottom_left: dim(u32::MAX, 0) }).is_none());
}

#[test]
fn an_obstacle_is_one_rectangle_however_many_tiles() {
    let o = Obstacle::load(&ground(10, 10), &data::Obstacle { count: dim(4, 3), bottom_left: dim(0, 0) }).unwrap();
    // it covers x 0..40, y 690..720, in screen units
    let body = Body { rectangles: vec![rect(15 * UNIT, 680 * UNIT, 10 * UNIT, 12 * UNIT)], circles: vec![] };
    assert_eq!(o.mtv(&body), Some(Vec2::new(0, -2 * UNIT)));
    // across the seam of two tiles, from the right
    let body = Body { rectangles: vec![rect(38 * UNIT, 700 * UNIT, 10 * UNIT, 5 * UNIT)], circles: vec![] };
    assert_eq!(o.mtv(&body), Some(Vec2::new(2 * UNIT, 0)));
    let body = Body { rectangles: vec![rect(40 * UNIT, 700 * UNIT, 10 * UNIT, 5 * UNIT)], circles: vec![] };
    assert_eq!(o.mtv(&body), None);
}

#[test]
fn an_obstacle_without_tiles_is_silently_missed() {
    let flat = Obstacle::load(&ground(10, 10), &data::Obstacle { count: dim(4, 0), bottom_left: dim(0, 0) }).unwrap();
    let thin = Obstacle::load(&ground(0, 10), &data::Obstacle { count: dim(4, 3), bottom_left: dim(0, 0) }).unwrap();
    let body = Body {
        rectangles: vec![rect(-5 * UNIT, 600 * UNIT, 100 * UNIT, 200 * UNIT)],
        circles: vec![Circle { center: Vec2::new(0, 720 * UNIT), radius: 50 * UNIT }],
    };
    assert_eq!(flat.mtv(&body), None);
    assert_eq!(thin.mtv(&body), None);
}

#[test]
fn a_strip_of_spikes_wounds_below_the_inset() {
    let s = Spike::load(dim(64, 64), &image(32, 40), &strip(3, 2, 1)).unwrap();
    assert_eq!(INSET, 9);
    assert_eq!(s.count, 3);
    assert_eq!(s.dims, dim(32, 40));
    // bottom-left corner on that of tile (2, 1): x 128, bottom at 720 - 64
    assert_eq!(s.top_left, Point { x: 128, y: 720 - 64 - 40 });
    assert_eq!(s.body, rect(128 * UNIT, (616 + 9) * UNIT, 96 * UNIT, 31 * UNIT));
    assert_eq!(s.expand_left, None);
    assert_eq!(s.expand_right, Some(GroundKind::Top));
    assert_eq!(s.expand_bottom, Some(GroundKind::Middle));
}

#[test]
fn what_overlaps_only_the_drawn_strip_is_not_wounded() {
    let s = Spike::load(dim(64, 64), &image(32, 40), &strip(3, 2, 1)).unwrap();
    // drawn in y 616..656; wounds in y 625..656
    let grazing = Body { rectangles: vec![rect(130 * UNIT, 600 * UNIT, 20 * UNIT, 25 * UNIT)], circles: vec![] };
    assert!(grazing.intersects(&rect(128 * UNIT, 616 * UNIT, 96 * UNIT, 40 * UNIT)));
    assert_eq!(s.mtv(&grazing), None);
    let deeper = Body { rectangles: vec![rect(130 * UNIT, 600 * UNIT, 20 * UNIT, 25 * UNIT + 1)], circles: vec![] };
    assert_eq!(s.mtv(&deeper), Some(Vec2::new(0, -1)));
}

#[test]
fn a_strip_that_cannot_be_placed_is_not_loaded() {
    // lower than the inset
    assert!(Spike::load(dim(64, 64), &image(32, 8), &strip(3, 2, 1)).is_none());
    assert!(Spike::load(dim(64, 64), &image(32, 9), &strip(3, 2, 1)).is_some());
    // off the field
    assert!(Spike::load(dim(64, 64), &image(32, 40), &strip(3, 262144, 1)).is_none());
    assert!(Spike::load(dim(64, 64), &image(32, 40), &strip(1 << 20, 0, 1)).is_none());
    assert!(Spike::load(dim(64, 64), &image(32, 40), &strip(3, 0, 262144)).is_none());
}

#[test]
fn a_strip_of_the_height_of_the_inset_wounds_nothing() {
    let s = Spike::load(dim(64, 64), &image(32, 9), &strip(3, 0, 0)).unwrap();
    assert_eq!(s.body.dims, Vec2::new(96 * UNIT, 0));
    let body = Body { rectangles: vec![rect(0, 700 * UNIT, 50 * UNIT, 50 * UNIT)], circles: vec![] };
    assert_eq!(s.mtv(&body), None);
}

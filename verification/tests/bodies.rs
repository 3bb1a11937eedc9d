use duck_husky_wedding::body::Body;
use duck_husky_wedding::data::{all_wf, Dimension, Shape};
use duck_husky_wedding::shape::{Circle, Rectangle};
use duck_husky_wedding::vector::Vec2;

fn rect(x: i64, y: i64, w: i64, h: i64) -> Rectangle {
    Rectangle { top_left: Vec2::new(x, y), dims: Vec2::new(w, h) }
}

fn circle(x: i64, y: i64, radius: i64) -> Circle {
    Circle { center: Vec2::new(x, y), radius }
}

fn dim(x: u32, y: u32) -> Dimension {
    Dimension { x, y }
}

fn shapes() -> Vec<Shape> {
    vec![
        Shape::Rectangle(dim(10, 20), dim(30, 40)),
        Shape::Circle(dim(25, 50), 1000),
        Shape::Rectangle(dim(0, 0), dim(100, 100)),
        Shape::Circle(dim(100, 0), 5000),
    ]
}

#[test]
fn parts_are_percentages_of_the_owner_box() {
    let owner = rect(1000, 2000, 100, 200);
    let body = Body::new(&owner, &shapes(), false);
    assert_eq!(body.rectangles, vec![rect(1010, 2040, 30, 80), rect(1000, 2000, 100, 200)]);
    // the radius is a share of the shorter side
    assert_eq!(body.circles, vec![circle(1025, 2100, 10), circle(1100, 2000, 50)]);
}

#[test]
fn every_descriptor_gives_one_part() {
    let owner = rect(0, 0, 640, 480);
    for flip in [false, true] {
        let body = Body::new(&owner, &shapes(), flip);
        assert_eq!(body.rectangles.len() + body.circles.len(), 4);
        assert_eq!(body.rectangles.len(), 2);
    }
    let none = Body::new(&owner, &[], true);
    assert!(none.rectangles.is_empty() && none.circles.is_empty());
}

#[test]
fn a_mirrored_body_is_reflected_about_the_centre_line() {
    let owner = rect(1000, 2000, 100, 200);
    let body = Body::new(&owner, &shapes(), true);
    // left edge at 100 - 10 - 30 = 60 percent
    assert_eq!(body.rectangles, vec![rect(1060, 2040, 30, 80), rect(1000, 2000, 100, 200)]);
    assert_eq!(body.circles, vec![circle(1075, 2100, 10), circle(1000, 2000, 50)]);
}

#[test]
fn mirroring_keeps_sizes_and_reflects_positions() {
    let owner = rect(-300, 70, 2533, 977);
    let plain = Body::new(&owner, &shapes(), false);
    let turned = Body::new(&owner, &shapes(), true);
    let axis = 2 * owner.top_left.x + owner.dims.x;
    for (was, is) in plain.rectangles.iter().zip(turned.rectangles.iter()) {
        assert_eq!(is.dims, was.dims);
        assert_eq!(is.top_left.y, was.top_left.y);
        assert_eq!(is.top_left.x, axis - (was.top_left.x + was.dims.x));
    }
    for (was, is) in plain.circles.iter().zip(turned.circles.iter()) {
        assert_eq!(is.radius, was.radius);
        assert_eq!(is.center.y, was.center.y);
        assert_eq!(is.center.x, axis - was.center.x);
    }
}

#[test]
fn mirroring_is_exact_whatever_the_width_of_the_box() {
    let owner = rect(0, 0, 150, 150);
    let shape = [Shape::Rectangle(dim(10, 0), dim(25, 10)), Shape::Circle(dim(33, 50), 1000)];
    let plain = Body::new(&owner, &shape, false);
    let turned = Body::new(&owner, &shape, true);
    assert_eq!(plain.rectangles, vec![rect(15, 0, 37, 15)]);
    // the part spans 15..52; its mirror image spans 98..135
    assert_eq!(turned.rectangles, vec![rect(98, 0, 37, 15)]);
    assert_eq!(plain.circles, vec![circle(49, 75, 15)]);
    assert_eq!(turned.circles, vec![circle(101, 75, 15)]);
}

#[test]
fn percentages_round_down() {
    let owner = rect(0, 0, 99, 199);
    let body = Body::new(&owner, &[Shape::Rectangle(dim(50, 50), dim(50, 50)), Shape::Circle(dim(33, 1), 700)], false);
    assert_eq!(body.rectangles, vec![rect(49, 99, 49, 99)]);
    assert_eq!(body.circles, vec![circle(32, 1, 6)]);
}

#[test]
fn a_radius_is_counted_in_hundredths_of_a_percent() {
    let body = Body::new(
        &rect(0, 0, 400, 200),
        &[Shape::Circle(dim(50, 50), 1250), Shape::Circle(dim(50, 50), 1), Shape::Circle(dim(0, 0), 10_000)],
        false,
    );
    // 12.5 percent of the shorter side, a hundredth of a percent of it, all of it
    assert_eq!(body.circles, vec![circle(200, 100, 25), circle(200, 100, 0), circle(0, 0, 200)]);
}

#[test]
fn a_rectangle_may_hang_out_of_the_box_below() {
    let owner = rect(1000, 2000, 100, 200);
    let shape = [Shape::Rectangle(dim(25, 90), dim(50, 15)), Shape::Rectangle(dim(0, 100), dim(100, 100))];
    for flip in [false, true] {
        let body = Body::new(&owner, &shape, flip);
        assert_eq!(body.rectangles, vec![rect(1025, 2180, 50, 30), rect(1000, 2200, 100, 200)]);
    }
}

#[test]
fn descriptors_are_checked() {
    assert!(all_wf(&shapes()));
    assert!(all_wf(&[]));
    assert!(!all_wf(&[Shape::Rectangle(dim(60, 0), dim(41, 10))]));
    // a rectangle may hang out of the box below, not sideways
    assert!(all_wf(&[Shape::Rectangle(dim(0, 60), dim(10, 41))]));
    assert!(all_wf(&[Shape::Rectangle(dim(0, 100), dim(100, 100))]));
    assert!(!all_wf(&[Shape::Rectangle(dim(0, 101), dim(10, 10))]));
    assert!(!all_wf(&[Shape::Rectangle(dim(0, 10), dim(10, 101))]));
    assert!(!all_wf(&[Shape::Circle(dim(101, 0), 10)]));
    assert!(!all_wf(&[Shape::Circle(dim(0, 101), 10)]));
    assert!(all_wf(&[Shape::Circle(dim(0, 0), 10_000)]));
    assert!(!all_wf(&[Shape::Circle(dim(0, 0), 10_001)]));
    assert!(Shape::Rectangle(dim(60, 60), dim(40, 40)).is_wf());
    assert_eq!(
        Shape::Rectangle(dim(10, 20), dim(30, 40)).mirror(),
        Shape::Rectangle(dim(60, 20), dim(30, 40))
    );
    assert_eq!(Shape::Circle(dim(25, 50), 10).mirror(), Shape::Circle(dim(75, 50), 10));
}

#[test]
fn nudging_moves_every_part() {
    let body = Body::new(&rect(0, 0, 100, 100), &shapes(), false).nudge(Vec2::new(5, -7));
    assert_eq!(body.rectangles, vec![rect(15, 13, 30, 40), rect(5, -7, 100, 100)]);
    assert_eq!(body.circles, vec![circle(30, 43, 10), circle(105, -7, 50)]);
}

#[test]
fn two_nudges_are_one_nudge_by_their_sum() {
    let owner = rect(300, -40, 700, 900);
    let (a, b) = (Vec2::new(17, -250), Vec2::new(-1000, 33));
    let twice = Body::new(&owner, &shapes(), true).nudge(a).nudge(b);
    let once = Body::new(&owner, &shapes(), true).nudge(a.plus(b));
    assert_eq!(twice.rectangles, once.rectangles);
    assert_eq!(twice.circles, once.circles);
}

#[test]
fn the_first_part_that_overlaps_answers() {
    let fixed = rect(0, 100, 1000, 100);
    // the second rectangle sinks deeper, the first answers
    let body = Body {
        rectangles: vec![rect(10, 95, 10, 10), rect(30, 50, 10, 80)],
        circles: vec![],
    };
    assert_eq!(body.mtv(&fixed), Some(Vec2::new(0, -5)));
    // a part that does not overlap is passed over
    let body = Body {
        rectangles: vec![rect(10, 0, 10, 10), rect(30, 50, 10, 80)],
        circles: vec![],
    };
    assert_eq!(body.mtv(&fixed), Some(Vec2::new(0, -30)));
}

#[test]
fn circles_answer_before_rectangles() {
    let fixed = rect(0, 100, 1000, 100);
    let body = Body {
        rectangles: vec![rect(10, 95, 10, 10)],
        circles: vec![circle(500, 98, 10)],
    };
    assert_eq!(body.mtv(&fixed), Some(Vec2::new(0, -8)));
    // and a circle that does not overlap leaves the answer to the rectangle
    let body = Body {
        rectangles: vec![rect(10, 95, 10, 10)],
        circles: vec![circle(500, 0, 10)],
    };
    assert_eq!(body.mtv(&fixed), Some(Vec2::new(0, -5)));
}

#[test]
fn a_body_off_the_shape_gets_no_displacement() {
    let fixed = rect(0, 100, 1000, 100);
    let body = Body { rectangles: vec![rect(10, 0, 10, 100)], circles: vec![circle(500, 90, 10)] };
    assert_eq!(body.mtv(&fixed), None);
    assert!(!body.intersects(&fixed));
    let empty = Body { rectangles: vec![], circles: vec![] };
    assert_eq!(empty.mtv(&fixed), None);
    assert!(!empty.intersects(&fixed));
}

#[test]
fn a_body_is_moved_off_a_fixed_circle_too() {
    let fixed = circle(0, 0, 10);
    let body = Body { rectangles: vec![rect(8, -5, 10, 10)], circles: vec![] };
    assert_eq!(body.mtv(&fixed), Some(Vec2::new(2, 0)));
    let body = Body { rectangles: vec![], circles: vec![circle(12, 0, 5)] };
    assert_eq!(body.mtv(&fixed), Some(Vec2::new(3, 0)));
}

#[test]
fn a_body_intersects_what_any_part_overlaps() {
    let body = Body { rectangles: vec![rect(0, 0, 10, 10)], circles: vec![circle(100, 100, 10)] };
    assert!(body.intersects(&rect(5, 5, 10, 10)));
    assert!(body.intersects(&rect(105, 95, 10, 10)));
    assert!(!body.intersects(&rect(50, 50, 10, 10)));
    assert!(body.intersects(&circle(15, 5, 6)));
    assert!(body.intersects(&circle(100, 115, 6)));
    assert!(!body.intersects(&circle(50, 50, 6)));
}

#[test]
fn bodies_collide_where_any_two_parts_overlap() {
    let a = Body { rectangles: vec![rect(0, 0, 10, 10)], circles: vec![circle(100, 100, 10)] };
    let hits_rect = Body { rectangles: vec![rect(500, 0, 1, 1), rect(9, 9, 5, 5)], circles: vec![] };
    let hits_circle = Body { rectangles: vec![], circles: vec![circle(100, 80, 11)] };
    let rect_in_circle = Body { rectangles: vec![rect(95, 95, 2, 2)], circles: vec![] };
    let misses = Body { rectangles: vec![rect(10, 10, 5, 5)], circles: vec![circle(100, 80, 10)] };
    let nothing = Body { rectangles: vec![], circles: vec![] };
    assert!(a.collides(&hits_rect));
    assert!(hits_rect.collides(&a));
    assert!(a.collides(&hits_circle));
    assert!(a.collides(&rect_in_circle));
    assert!(!a.collides(&misses));
    assert!(!misses.collides(&a));
    assert!(!a.collides(&nothing));
    assert!(!nothing.collides(&a));
}

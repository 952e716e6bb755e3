use sdf2d::Dual;
use sdf2d::Point;
use sdf2d::Shape;
use sdf2d::raster::rasterize;

#[test]
fn point_new_holds_coordinates() {
    let p = Point::new(7, -3);
    assert_eq!(p.x, 7);
    assert_eq!(p.y, -3);
}

#[test]
fn dual_var_and_cst() {
    let v = Dual::var(5);
    assert_eq!(v.v, 5);
    assert_eq!(v.d, 1);
    let c = Dual::cst(5);
    assert_eq!(c.v, 5);
    assert_eq!(c.d, 0);
}

#[test]
fn dual_arithmetic() {
    let a = Dual { v: 3, d: 2 };
    let b = Dual { v: -1, d: 5 };
    let s = a.add(b);
    assert_eq!((s.v, s.d), (2, 7));
    let d = a.sub(b);
    assert_eq!((d.v, d.d), (4, -3));
    let n = a.neg();
    assert_eq!((n.v, n.d), (-3, -2));
    let q = b.sqr();
    assert_eq!((q.v, q.d), (1, -10));
}

#[test]
fn dual_min_max_pick_the_winner_whole() {
    let a = Dual { v: 1, d: 10 };
    let b = Dual { v: 2, d: 20 };
    assert_eq!(a.min(b), a);
    assert_eq!(b.min(a), a);
    assert_eq!(a.max(b), b);
    assert_eq!(b.max(a), b);
}

#[test]
fn dual_min_max_first_wins_on_tie() {
    let a = Dual { v: 5, d: 1 };
    let b = Dual { v: 5, d: 2 };
    assert_eq!(a.min(b), a);
    assert_eq!(b.min(a), b);
    assert_eq!(a.max(b), a);
    assert_eq!(b.max(a), b);
}

#[test]
fn integer_roots_round_as_named() {
    assert_eq!(sdf2d::dual::isqrt(0), 0);
    assert_eq!(sdf2d::dual::isqrt(8), 2);
    assert_eq!(sdf2d::dual::isqrt(9), 3);
    assert_eq!(sdf2d::dual::isqrt_up(0), 0);
    assert_eq!(sdf2d::dual::isqrt_up(1), 1);
    assert_eq!(sdf2d::dual::isqrt_up(8), 3);
    assert_eq!(sdf2d::dual::isqrt_up(9), 3);
    assert_eq!(sdf2d::dual::isqrt_up(10), 4);
}

#[test]
fn dual_sqrt_exact_and_floor() {
    let s = Dual { v: 16, d: 8 }.sqrt();
    assert_eq!((s.v, s.d), (4, 1));
    let f = Dual { v: 8, d: 1 }.sqrt();
    assert_eq!((f.v, f.d), (2, 0));
    let n = Dual { v: 9, d: -7 }.sqrt();
    assert_eq!((n.v, n.d), (3, -1));
    let z = Dual { v: 0, d: 3 }.sqrt();
    assert_eq!((z.v, z.d), (0, 0));
}

#[test]
fn circle_sign_classifies_points() {
    let c = Shape::circle(Point::new(5, 5), 3);
    let center = c.distance(&Point::new(5, 5)).v;
    assert!(-3 <= center && center < 0);
    assert_eq!(center, -3);
    let inside = c.distance(&Point::new(6, 6)).v;
    assert!(-3 <= inside && inside < 0);
    let boundary = c.distance(&Point::new(8, 5)).v;
    assert_eq!(boundary, 0);
    let outside = c.distance(&Point::new(10, 5)).v;
    assert!(outside > 0);
    assert_eq!(outside, 2);
}

#[test]
fn circle_is_strictly_positive_just_outside() {
    // Squared center distance 10, strictly outside the radius' square 9: the
    // away-rounded root is 4, so the value is strictly positive.
    let c = Shape::circle(Point::new(0, 0), 3);
    assert_eq!(c.distance(&Point::new(1, 3)).v, 1);
    assert_eq!(c.distance(&Point::new(3, 1)).v, 1);
    // One step further out, squared distance 16 is a perfect square again.
    assert_eq!(c.distance(&Point::new(0, 4)).v, 1);
}

#[test]
fn union_evaluates_to_min() {
    let p = Point::new(4, 7);
    let u = Shape::circle(Point::new(5, 5), 3).union(Shape::rectangle(
        Point::new(0, 0),
        Point::new(2, 2),
    ));
    let a = Shape::circle(Point::new(5, 5), 3).distance(&p);
    let b = Shape::rectangle(Point::new(0, 0), Point::new(2, 2)).distance(&p);
    let expected = if a.v <= b.v { a } else { b };
    assert_eq!(u.distance(&p), expected);
}

#[test]
fn intersection_evaluates_to_max() {
    let p = Point::new(1, 1);
    let i = Shape::circle(Point::new(5, 5), 3).intersection(Shape::rectangle(
        Point::new(0, 0),
        Point::new(2, 2),
    ));
    let a = Shape::circle(Point::new(5, 5), 3).distance(&p);
    let b = Shape::rectangle(Point::new(0, 0), Point::new(2, 2)).distance(&p);
    let expected = if a.v >= b.v { a } else { b };
    assert_eq!(i.distance(&p), expected);
}

#[test]
fn invert_evaluates_to_negation() {
    let p = Point::new(2, 9);
    let inv = Shape::circle(Point::new(5, 5), 3).invert();
    let plain = Shape::circle(Point::new(5, 5), 3).distance(&p);
    let flipped = inv.distance(&p);
    assert_eq!(flipped.v, -plain.v);
    assert_eq!(flipped.d, -plain.d);
}

#[test]
fn double_invert_is_a_no_op() {
    let points = [
        Point::new(0, 0),
        Point::new(5, 5),
        Point::new(8, 5),
        Point::new(-4, 12),
        Point::new(30, -7),
    ];
    for p in points {
        let twice = Shape::circle(Point::new(5, 5), 3)
            .intersection(Shape::circle(Point::new(5, 5), 3).invert().invert());
        let plain = Shape::circle(Point::new(5, 5), 3)
            .intersection(Shape::circle(Point::new(5, 5), 3));
        assert_eq!(twice.distance(&p), plain.distance(&p));
    }
}

#[test]
fn union_and_intersection_commute_in_value() {
    for x in -2..12 {
        for y in -2..12 {
            let p = Point::new(x, y);
            let ab = Shape::circle(Point::new(5, 5), 3)
                .union(Shape::rectangle(Point::new(0, 0), Point::new(4, 4)));
            let ba = Shape::rectangle(Point::new(0, 0), Point::new(4, 4))
                .union(Shape::circle(Point::new(5, 5), 3));
            assert_eq!(ab.distance(&p).v, ba.distance(&p).v);
            let iab = Shape::circle(Point::new(5, 5), 3)
                .intersection(Shape::rectangle(Point::new(0, 0), Point::new(4, 4)));
            let iba = Shape::rectangle(Point::new(0, 0), Point::new(4, 4))
                .intersection(Shape::circle(Point::new(5, 5), 3));
            assert_eq!(iab.distance(&p).v, iba.distance(&p).v);
        }
    }
}

#[test]
fn rectangle_corner_uses_the_larger_axis_distance() {
    let r = Shape::rectangle(Point::new(0, 0), Point::new(10, 10));
    let d = r.distance(&Point::new(15, 15)).v;
    assert_eq!(d, 5);
}

#[test]
fn rectangle_half_plane_distances() {
    let r = Shape::rectangle(Point::new(0, 0), Point::new(10, 10));
    assert_eq!(r.distance(&Point::new(5, 5)).v, -5);
    assert_eq!(r.distance(&Point::new(0, 5)).v, 0);
    assert_eq!(r.distance(&Point::new(-3, 5)).v, 3);
    assert_eq!(r.distance(&Point::new(5, 17)).v, 7);
}

#[test]
fn degenerate_rectangle_is_everywhere_outside() {
    let r = Shape::rectangle(Point::new(10, 10), Point::new(0, 0));
    assert_eq!(r.distance(&Point::new(5, 5)).v, 5);
}

#[test]
fn half_planes_sign() {
    assert_eq!(Shape::left(3).distance(&Point::new(1, 0)).v, -2);
    assert_eq!(Shape::left(3).distance(&Point::new(4, 0)).v, 1);
    assert_eq!(Shape::right(3).distance(&Point::new(1, 0)).v, 2);
    assert_eq!(Shape::right(3).distance(&Point::new(4, 0)).v, -1);
    assert_eq!(Shape::lower(3).distance(&Point::new(0, 1)).v, -2);
    assert_eq!(Shape::lower(3).distance(&Point::new(0, 4)).v, 1);
    assert_eq!(Shape::upper(3).distance(&Point::new(0, 1)).v, 2);
    assert_eq!(Shape::upper(3).distance(&Point::new(0, 4)).v, -1);
}

#[test]
fn union_scenario_classifies_three_pixels() {
    let field = Shape::circle(Point::new(5, 5), 3).union(Shape::rectangle(
        Point::new(0, 0),
        Point::new(2, 2),
    ));
    assert!(field.distance(&Point::new(5, 5)).v < 0);
    assert!(field.distance(&Point::new(0, 0)).v <= 0);
    assert!(field.distance(&Point::new(20, 20)).v > 0);
}

#[test]
fn raster_far_half_plane_is_all_background() {
    let img = rasterize(&Shape::right(100), 4, 4);
    assert_eq!(img.len(), 16);
    assert!(img.iter().all(|inside| !inside));
}

#[test]
fn raster_splits_a_half_plane_row_major() {
    let img = rasterize(&Shape::left(1), 2, 2);
    assert_eq!(img, vec![true, false, true, false]);
}

#[test]
fn raster_circle_mask() {
    let img = rasterize(&Shape::circle(Point::new(1, 1), 1), 3, 3);
    assert_eq!(
        img,
        vec![false, false, false, false, true, false, false, false, false]
    );
}

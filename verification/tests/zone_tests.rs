use gaugen::scalar::{ceil_root, Scalar};
use gaugen::zone::{DrawZone, Vec2};

fn whole(n: i32) -> Scalar {
    Scalar::from_int(n)
}

fn zone(x0: i32, y0: i32, x1: i32, y1: i32) -> DrawZone {
    DrawZone::from_rect(Vec2::new(whole(x0), whole(y0)), Vec2::new(whole(x1), whole(y1)))
}

#[test]
fn from_rect_has_the_corners_it_was_made_of() {
    let z = zone(10, 20, 40, 80);
    assert_eq!(z.m, Vec2::new(whole(25), whole(50)));
    assert_eq!(z.size, Vec2::new(whole(30), whole(60)));
    assert!(!z.empty);
    assert_eq!(z.left(), whole(10));
    assert_eq!(z.right(), whole(40));
    assert_eq!(z.bottom(), whole(20));
    assert_eq!(z.top(), whole(80));
    assert_eq!(z.bottom_left(), Vec2::new(whole(10), whole(20)));
    assert_eq!(z.top_right(), Vec2::new(whole(40), whole(80)));
}

#[test]
fn from_rect_is_exact_for_odd_sizes() {
    let z = DrawZone::from_rect(
        Vec2::new(Scalar::new(0), Scalar::new(-3)),
        Vec2::new(Scalar::new(3), Scalar::new(4)),
    );
    assert_eq!(z.size, Vec2::new(Scalar::new(3), Scalar::new(7)));
    assert_eq!(z.m, Vec2::new(Scalar::new(1), Scalar::new(0)));
    assert_eq!(z.left(), Scalar::new(0));
    assert_eq!(z.right(), Scalar::new(3));
    assert_eq!(z.bottom(), Scalar::new(-3));
    assert_eq!(z.top(), Scalar::new(4));
}

#[test]
fn aspect_is_width_over_height() {
    assert_eq!(zone(0, 0, 30, 20).aspect(), Scalar::new(1_500_000));
    assert_eq!(zone(0, 0, 10, 40).aspect(), Scalar::new(250_000));
    // a zone without height is as wide in proportion as a number can say
    assert_eq!(zone(0, 0, 10, 0).aspect(), Scalar::new(i64::MAX));
    assert_eq!(zone(0, 0, 0, 0).aspect(), Scalar::new(0));
}

#[test]
fn constraint_to_aspect_shortens_the_wide_axis() {
    let z = zone(0, 0, 200, 100);
    let square = z.constraint_to_aspect(whole(1));
    assert_eq!(square.m, z.m);
    assert_eq!(square.size, Vec2::new(whole(100), whole(100)));
    let wide = zone(0, 0, 100, 100).constraint_to_aspect(whole(2));
    assert_eq!(wide.m, Vec2::new(whole(50), whole(50)));
    assert_eq!(wide.size, Vec2::new(whole(100), whole(50)));
}

#[test]
fn constraint_to_aspect_keeps_centre_and_fits() {
    let z = zone(-30, 10, 270, 110);
    for aspect in [1_000, 333_333, 1_000_000, 1_150_000, 2_999_999, 3_000_000, 3_000_001, 77_000_000] {
        let a = Scalar::new(aspect);
        let r = z.constraint_to_aspect(a);
        assert_eq!(r.m, z.m);
        assert!(r.size.x.micros <= z.size.x.micros);
        assert!(r.size.y.micros <= z.size.y.micros);
        assert!(r.size.x == z.size.x || r.size.y == z.size.y);
        // width over height is the aspect, up to the rounding of one division
        let w = r.size.x.micros as i128;
        let h = r.size.y.micros as i128;
        let error = w * 1_000_000 - h * aspect as i128;
        assert!(error.abs() < 1_000_000.max(aspect as i128), "aspect {aspect}: {w}x{h}");
    }
}

#[test]
fn constraint_to_aspect_leaves_the_zone_for_an_aspect_that_is_not_positive() {
    let z = zone(0, 0, 200, 100);
    assert_eq!(z.constraint_to_aspect(Scalar::new(0)), z);
    assert_eq!(z.constraint_to_aspect(whole(-2)), z);
}

#[test]
fn merge_grow_gives_the_bounding_zone() {
    let mut a = zone(0, 0, 10, 10);
    a.merge_grow(&zone(5, -5, 20, 8));
    assert_eq!(a.left(), whole(0));
    assert_eq!(a.bottom(), whole(-5));
    assert_eq!(a.right(), whole(20));
    assert_eq!(a.top(), whole(10));
    assert!(!a.empty);
}

#[test]
fn merge_grow_with_empty_zones() {
    let mut nothing = DrawZone::new_empty();
    assert!(nothing.empty);
    let z = zone(3, 4, 5, 6);
    nothing.merge_grow(&z);
    assert_eq!(nothing, z);
    let mut kept = z;
    kept.merge_grow(&DrawZone::new_empty());
    assert_eq!(kept, z);
    let mut still = DrawZone::new_empty();
    still.merge_grow(&DrawZone::new_empty());
    assert_eq!(still, DrawZone::new_empty());
}

#[test]
fn scale_and_unscale_keep_the_centre() {
    let z = zone(0, 0, 100, 50);
    let s = z.scale(Scalar::new(900_000));
    assert_eq!(s.m, z.m);
    assert_eq!(s.size, Vec2::new(whole(90), whole(45)));
    let back = s.unscale(Scalar::new(900_000));
    assert_eq!(back.m, z.m);
    assert_eq!(back.size, Vec2::new(whole(100), whole(50)));
}

#[test]
fn contains_is_within_half_the_size() {
    let z = DrawZone { m: Vec2::new(whole(100), whole(100)), size: Vec2::new(whole(50), whole(50)), empty: false };
    assert!(z.contains(whole(120), whole(110)));
    assert!(z.contains(whole(125), whole(75)));
    assert!(!z.contains(Scalar::new(125_000_001), whole(100)));
    assert!(!z.contains(whole(200), whole(200)));
}

#[test]
fn scalar_arithmetic_is_exact_in_millionths() {
    assert_eq!(whole(3).plus(Scalar::new(500_000)), Scalar::new(3_500_000));
    assert_eq!(whole(3).minus(whole(5)), whole(-2));
    assert_eq!(Scalar::new(1_500_000).times(Scalar::new(-2_500_000)), Scalar::new(-3_750_000));
    assert_eq!(whole(1).over(whole(3)), Scalar::new(333_333));
    assert_eq!(whole(-1).over(whole(3)), Scalar::new(-333_333));
    assert_eq!(whole(7).half(), Scalar::new(3_500_000));
    assert_eq!(Scalar::new(-7).half(), Scalar::new(-3));
    assert_eq!(whole(2).sqrt(), Scalar::new(1_414_213));
    assert_eq!(whole(9).sqrt(), whole(3));
    assert_eq!(whole(-9).sqrt(), Scalar::new(0));
    assert_eq!(Scalar::from_count(12), whole(12));
    assert!(whole(1).lt(whole(2)));
    assert_eq!(whole(1).min(whole(2)), whole(1));
    assert_eq!(whole(1).max(whole(2)), whole(2));
}

#[test]
fn scalar_arithmetic_clamps() {
    let most = Scalar::new(i64::MAX);
    let least = Scalar::new(i64::MIN);
    assert_eq!(most.plus(whole(1)), most);
    assert_eq!(least.minus(whole(1)), least);
    assert_eq!(most.times(whole(2)), most);
    assert_eq!(most.times(whole(-2)), least);
    assert_eq!(whole(5).over(Scalar::new(0)), most);
    assert_eq!(whole(-5).over(Scalar::new(0)), least);
    assert_eq!(Scalar::new(0).over(Scalar::new(0)), Scalar::new(0));
    assert_eq!(most.over(Scalar::new(1)), most);
    assert_eq!(least.half(), Scalar::new(i64::MIN / 2));
}

#[test]
fn ceil_root_rounds_up() {
    assert_eq!(ceil_root(0), 0);
    assert_eq!(ceil_root(1), 1);
    assert_eq!(ceil_root(2), 2);
    assert_eq!(ceil_root(4), 2);
    assert_eq!(ceil_root(5), 3);
    assert_eq!(ceil_root(9), 3);
    assert_eq!(ceil_root(10), 4);
    assert_eq!(ceil_root(1 << 40), 1 << 20);
}

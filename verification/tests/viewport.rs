use drawpanel::coord::Coordinate;
use drawpanel::viewport::Viewport;

fn pt(x: i64, y: i64) -> Coordinate {
    Coordinate::new(x, y)
}

#[test]
fn new_viewport_shows_the_world_at_its_own_size() {
    let v = Viewport::new(30, 40);
    assert_eq!(v.scale, 100);
    assert_eq!(v.origin, pt(3000, 4000));
    assert_eq!(v.relative_coord(pt(30, 40)), pt(0, 0));
    assert_eq!(v.relative_coord(pt(35, 47)), pt(5, 7));
    assert_eq!(v.absolute_coord(pt(5, 7)), pt(35, 47));
}

#[test]
fn new_viewport_clamps_its_origin() {
    let v = Viewport::new(5_000_000, -5_000_000);
    assert_eq!(v.origin, pt(100_000_000, -100_000_000));
}

#[test]
fn to_world_divides_by_the_scale() {
    let v = Viewport { origin: pt(1000, 2000), scale: 200 };
    // (100 * 50 - 1000) / 200 = 20, (100 * 50 - 2000) / 200 = 15
    assert_eq!(v.relative_coord(pt(50, 50)), pt(20, 15));
    // (100 * 0 - 1000) / 200 = -5, (0 - 2000) / 200 = -10
    assert_eq!(v.relative_coord(pt(0, 0)), pt(-5, -10));
    // (100 * 1 - 1000) / 200 = -4.5, rounded down
    assert_eq!(v.relative_coord(pt(1, 20)), pt(-5, 0));
}

#[test]
fn to_device_multiplies_by_the_scale() {
    let v = Viewport { origin: pt(1000, 2000), scale: 250 };
    // (1000 + 4 * 250) / 100 = 20, (2000 + 3 * 250) / 100 = 27.5, rounded down
    assert_eq!(v.absolute_coord(pt(4, 3)), pt(20, 27));
    // (1000 - 5 * 250) / 100 = -2.5, rounded down
    assert_eq!(v.absolute_coord(pt(-5, 0)), pt(-3, 20));
}

#[test]
fn scale_len_rounds_down() {
    let v = Viewport { origin: pt(0, 0), scale: 150 };
    assert_eq!(v.scale_len(3), 4);
    assert_eq!(v.scale_len(-3), -5);
    assert_eq!(v.scale_len(0), 0);
    assert_eq!(v.scale_len(800_000_000), 1_200_000_000);
}

#[test]
fn pointer_beyond_the_device_range_counts_as_its_edge() {
    let v = Viewport::new(0, 0);
    assert_eq!(v.relative_coord(pt(i64::MAX, i64::MIN)), pt(1_000_000, -1_000_000));
}

#[test]
fn transform_there_and_back_at_unit_scale_is_exact() {
    let v = Viewport::new(17, -5);
    for x in -50..50 {
        let w = pt(x, 3 * x);
        assert_eq!(v.relative_coord(v.absolute_coord(w)), w);
    }
}

#[test]
fn transform_there_and_back_misses_by_at_most_one_when_zoomed_in() {
    let v = Viewport { origin: pt(1234, -777), scale: 137 };
    for x in -200..200 {
        let w = pt(x, -x);
        let back = v.relative_coord(v.absolute_coord(w));
        assert!(back.x <= w.x && w.x - back.x <= 1);
        assert!(back.y <= w.y && w.y - back.y <= 1);
    }
}

#[test]
fn transform_there_and_back_when_zoomed_out() {
    let v = Viewport { origin: pt(0, 0), scale: 25 };
    for x in -100..100 {
        let w = pt(x, x);
        let back = v.relative_coord(v.absolute_coord(w));
        assert!(back.x <= w.x);
        assert!((w.x - back.x) * 25 < 100 + 25);
    }
}

#[test]
fn set_scale_keeps_the_point_under_the_pointer() {
    let mut v = Viewport::new(10, 20);
    let before = v.relative_coord(pt(300, 400));
    v.set_scale(250, 300, 400);
    assert_eq!(v.scale, 250);
    assert_eq!(v.relative_coord(pt(300, 400)), before);
    // origin = 1000 + 290 * (100 - 250), 2000 + 380 * (100 - 250)
    assert_eq!(v.origin, pt(1000 - 290 * 150, 2000 - 380 * 150));
}

#[test]
fn set_scale_keeps_the_device_position_of_the_pivot_when_zooming_out() {
    let mut v = Viewport { origin: pt(333, 777), scale: 300 };
    let w = v.relative_coord(pt(123, 45));
    let fine_before = (v.origin.x + w.x * v.scale, v.origin.y + w.y * v.scale);
    v.set_scale(299, 123, 45);
    let fine_after = (v.origin.x + w.x * v.scale, v.origin.y + w.y * v.scale);
    assert_eq!(fine_before, fine_after);
}

#[test]
fn set_scale_clamps_the_scale() {
    let mut v = Viewport::new(0, 0);
    v.set_scale(0, 0, 0);
    assert_eq!(v.scale, 1);
    v.set_scale(-5, 0, 0);
    assert_eq!(v.scale, 1);
    v.set_scale(1_000_000, 0, 0);
    assert_eq!(v.scale, 10_000);
}

#[test]
fn set_scale_clamps_the_origin() {
    let mut v = Viewport::new(0, 0);
    v.set_scale(10_000, 1_000_000, -1_000_000);
    // 0 + 1_000_000 * (100 - 10_000) is beyond the bound.
    assert_eq!(v.origin, pt(-100_000_000, 100_000_000));
}

#[test]
fn move_pos_pans_by_the_device_difference() {
    let mut v = Viewport { origin: pt(500, 600), scale: 300 };
    v.move_pos(pt(10, 10), pt(13, 6));
    assert_eq!(v.origin, pt(800, 200));
    assert_eq!(v.scale, 300);
}

#[test]
fn move_pos_stops_at_the_bound() {
    let mut v = Viewport::new(999_999, 0);
    v.move_pos(pt(0, 0), pt(5, 0));
    assert_eq!(v.origin.x, 100_000_000);
}

#[test]
fn transform_there_and_back_falls_short_by_the_part_past_a_device_unit() {
    for (ox, scale) in [(0, 100), (1234, 137), (-777, 25), (50, 1), (99, 10_000), (-1, 99)] {
        let v = Viewport { origin: pt(ox, -ox), scale };
        for x in -150..150 {
            let w = pt(x, 7 * x);
            let back = v.relative_coord(v.absolute_coord(w));
            let shortfall =
                |o: i64, c: i64| ((o + c * scale).rem_euclid(100) + scale - 1).div_euclid(scale);
            assert_eq!(back.x, w.x - shortfall(ox, w.x));
            assert_eq!(back.y, w.y - shortfall(-ox, w.y));
        }
    }
}

use drawpanel::coord::Coordinate;
use drawpanel::elem::line::Line;
use drawpanel::elem::pen::Pen;
use drawpanel::elem::rect::{LineStyle, Rect};
use drawpanel::elem::text::{calc_string_lines, Text};
use drawpanel::elem::Elem;

fn c(x: i64, y: i64) -> Coordinate {
    Coordinate::new(x, y)
}

fn rect(x: i64, y: i64, w: i64, h: i64) -> Rect {
    let mut r = Rect::default();
    r.lt_coord = c(x, y);
    r.width = w;
    r.height = h;
    r
}

fn text(x: i64, y: i64, w: i64, h: i64, content: &str) -> Text {
    let mut t = Text::default();
    t.lt_coord = c(x, y);
    t.width = w;
    t.height = h;
    t.content = content.to_string();
    t
}

#[test]
fn rect_default_is_red_solid_and_empty() {
    let r = Rect::default();
    assert_eq!(r.lt_coord, c(0, 0));
    assert_eq!(r.width, 0);
    assert_eq!(r.height, 0);
    assert_eq!(r.line_size, 3);
    assert_eq!(r.line_color, 0xff0000);
    assert_eq!(r.fill_color, None);
    assert_eq!(r.line_style, LineStyle::Solid);
    assert_eq!(LineStyle::default(), LineStyle::Solid);
}

#[test]
fn rect_vertices_go_clockwise_from_the_top_left() {
    let r = rect(10, 20, 30, 40);
    assert_eq!(r.get_vertex(), vec![c(10, 20), c(40, 20), c(40, 60), c(10, 60)]);
}

#[test]
fn rect_vertices_are_ordered_whichever_way_the_box_reaches() {
    let r = rect(40, 60, -30, -40);
    assert_eq!(r.get_vertex(), vec![c(10, 20), c(40, 20), c(40, 60), c(10, 60)]);
    let r = rect(40, 20, -30, 40);
    assert_eq!(r.get_vertex(), vec![c(10, 20), c(40, 20), c(40, 60), c(10, 60)]);
}

#[test]
fn rect_creating_normalises_a_backward_drag() {
    let mut r = Rect::default();
    r.creating(c(50, 60), c(10, 20));
    assert_eq!(r.lt_coord, c(10, 20));
    assert_eq!(r.width, 40);
    assert_eq!(r.height, 40);
    r.creating(c(10, 60), c(50, 20));
    assert_eq!(r.lt_coord, c(10, 20));
    assert_eq!((r.width, r.height), (40, 40));
    assert_eq!(r.line_size, 3);
}

#[test]
fn rect_moves_by_the_difference() {
    let mut r = rect(10, 20, 30, 40);
    r.edit_moving(c(100, 100), c(95, 110));
    assert_eq!(r.lt_coord, c(5, 30));
    assert_eq!((r.width, r.height), (30, 40));
}

#[test]
fn rect_move_out_of_the_world_is_refused() {
    let mut r = rect(199_999_990, 0, 5, 5);
    r.edit_moving(c(0, 0), c(5, 0));
    assert_eq!(r.lt_coord, c(199_999_995, 0));
    r.edit_moving(c(0, 0), c(1, 0));
    assert_eq!(r.lt_coord, c(199_999_995, 0));
    r.edit_moving(c(0, 0), c(1, 7));
    assert_eq!(r.lt_coord, c(199_999_995, 0));
}

#[test]
fn rect_resize_by_each_corner() {
    let mut r = rect(10, 20, 30, 40);
    r.edit_resizing(c(0, 0), c(5, 15), 0);
    assert_eq!((r.lt_coord, r.width, r.height), (c(5, 15), 35, 45));

    let mut r = rect(10, 20, 30, 40);
    r.edit_resizing(c(0, 0), c(50, 15), 1);
    assert_eq!((r.lt_coord, r.width, r.height), (c(10, 15), 40, 45));

    let mut r = rect(10, 20, 30, 40);
    r.edit_resizing(c(0, 0), c(50, 70), 2);
    assert_eq!((r.lt_coord, r.width, r.height), (c(10, 20), 40, 50));

    let mut r = rect(10, 20, 30, 40);
    r.edit_resizing(c(0, 0), c(5, 70), 3);
    assert_eq!((r.lt_coord, r.width, r.height), (c(5, 20), 35, 50));
}

#[test]
fn rect_resize_puts_the_dragged_corner_on_the_pointer() {
    for v in 0..4 {
        for end in [c(0, 0), c(25, 35), c(100, 100), c(0, 100), c(100, 0)] {
            let mut r = rect(10, 20, 30, 40);
            r.edit_resizing(c(0, 0), end, v);
            assert!(r.width >= 0 && r.height >= 0);
            assert_eq!(r.get_vertex()[v as usize], end);
        }
    }
}

#[test]
fn rect_resize_through_the_opposite_edge_snaps_to_zero() {
    let mut r = rect(10, 20, 30, 40);
    // the left edge dragged past the right one
    r.edit_resizing(c(0, 0), c(100, 20), 0);
    assert_eq!((r.lt_coord, r.width, r.height), (c(100, 20), 0, 40));

    let mut r = rect(10, 20, 30, 40);
    // the bottom right corner dragged beyond the top left one
    r.edit_resizing(c(0, 0), c(0, 0), 2);
    assert_eq!((r.lt_coord, r.width, r.height), (c(0, 0), 0, 0));
}

#[test]
fn rect_resize_by_an_unknown_corner_changes_nothing() {
    let mut r = rect(10, 20, 30, 40);
    r.edit_resizing(c(0, 0), c(99, 99), 4);
    assert_eq!((r.lt_coord, r.width, r.height), (c(10, 20), 30, 40));
    r.edit_resizing(c(0, 0), c(99, 99), -1);
    assert_eq!((r.lt_coord, r.width, r.height), (c(10, 20), 30, 40));
}

#[test]
fn rect_hit_inside_and_near_corners() {
    let r = rect(100, 100, 200, 100);
    assert!(r.hover_condition(c(200, 150)));
    assert!(r.hover_condition(c(100, 100)));
    assert!(r.hover_condition(c(300, 200)));
    // outside, but within the tolerance of the top-left corner
    assert!(r.hover_condition(c(94, 94)));
    assert!(!r.hover_condition(c(92, 92)));
    // outside, near an edge but far from every corner
    assert!(!r.hover_condition(c(200, 95)));
    assert!(!r.hover_condition(c(305, 150)));
}

#[test]
fn fresh_rect_is_hit_at_centre_and_corners_and_not_far_away() {
    let mut r = Rect::default();
    r.creating(c(40, 10), c(100, 90));
    let (w, h) = (r.width, r.height);
    assert!(r.hover_condition(c(70, 50)));
    for corner in r.get_vertex() {
        assert!(r.hover_condition(corner));
    }
    assert!(!r.hover_condition(c(70 + w + h + 1, 50)));
    assert!(!r.hover_condition(c(70, 50 - w - h - 1)));
}

#[test]
fn fresh_text_is_hit_at_centre_and_corners_and_not_far_away() {
    let mut t = Text::default();
    t.creating(c(-40, -10), c(-100, -90));
    let (w, h) = (t.width, t.height);
    assert_eq!((w, h), (60, 80));
    assert!(t.hover_condition(c(-70, -50)));
    for corner in t.get_vertex() {
        assert!(t.hover_condition(corner));
    }
    assert!(!t.hover_condition(c(-70 - w - h - 1, -50)));
}

#[test]
fn text_keeps_its_label_through_edits() {
    let mut t = text(0, 0, 10, 10, "hello");
    assert!(t.need_input());
    assert_eq!(t.get_content(), "hello");
    t.creating(c(5, 5), c(1, 1));
    t.edit_moving(c(0, 0), c(2, 2));
    t.edit_resizing(c(0, 0), c(20, 20), 2);
    assert_eq!(t.get_content(), "hello");
    assert_eq!((t.lt_coord, t.width, t.height), (c(3, 3), 17, 17));
    t.set_content("new\nlabel");
    assert_eq!(t.get_content(), "new\nlabel");
    assert_eq!((t.lt_coord, t.width, t.height), (c(3, 3), 17, 17));
}

#[test]
fn string_lines_are_one_more_than_the_line_feeds() {
    assert_eq!(calc_string_lines(""), 1);
    assert_eq!(calc_string_lines("abc"), 1);
    assert_eq!(calc_string_lines("a\nb"), 2);
    assert_eq!(calc_string_lines("\n"), 2);
    assert_eq!(calc_string_lines("a\n\nb\n"), 4);
    assert_eq!(calc_string_lines("é\nü"), 2);
}

#[test]
fn line_edits() {
    let mut l = Line::default();
    assert_eq!((l.from_coord, l.end_coord), (c(0, 0), c(0, 0)));
    l.creating(c(1, 2), c(30, 40));
    assert_eq!(l.get_vertex(), vec![c(1, 2), c(30, 40)]);
    l.edit_moving(c(0, 0), c(-1, 5));
    assert_eq!((l.from_coord, l.end_coord), (c(0, 7), c(29, 45)));
    l.edit_resizing(c(0, 0), c(9, 9), 0);
    assert_eq!((l.from_coord, l.end_coord), (c(9, 9), c(29, 45)));
    l.edit_resizing(c(0, 0), c(8, 8), 1);
    assert_eq!((l.from_coord, l.end_coord), (c(9, 9), c(8, 8)));
    l.edit_resizing(c(0, 0), c(7, 7), 2);
    assert_eq!((l.from_coord, l.end_coord), (c(9, 9), c(8, 8)));
}

#[test]
fn line_move_out_of_the_world_is_refused() {
    let mut l = Line { from_coord: c(0, 0), end_coord: c(200_000_000, 0) };
    l.edit_moving(c(0, 0), c(1, 0));
    assert_eq!((l.from_coord, l.end_coord), (c(0, 0), c(200_000_000, 0)));
    l.edit_moving(c(0, 0), c(-1, 3));
    assert_eq!((l.from_coord, l.end_coord), (c(-1, 3), c(199_999_999, 3)));
}

#[test]
fn line_hit_is_distance_to_the_segment() {
    let l = Line { from_coord: c(0, 0), end_coord: c(100, 100) };
    assert!(l.hover_condition(c(50, 50)));
    assert!(l.hover_condition(c(55, 45)));
    assert!(!l.hover_condition(c(60, 40)));
    assert!(!l.hover_condition(c(120, 120)));
}

#[test]
fn pen_starts_with_the_origin_alone() {
    let p = Pen::default();
    assert_eq!(p.coords, vec![c(0, 0)]);
    assert_eq!(p.get_vertex(), vec![c(0, 0), c(0, 0)]);
}

#[test]
fn pen_takes_samples_more_than_one_unit_apart() {
    let mut p = Pen::default();
    p.creating(c(10, 10), c(10, 11));
    assert_eq!(p.coords, vec![c(10, 10)]);
    p.creating(c(10, 10), c(11, 11));
    assert_eq!(p.coords, vec![c(10, 10), c(11, 11)]);
    p.creating(c(99, 99), c(11, 12));
    assert_eq!(p.coords, vec![c(10, 10), c(11, 11)]);
    p.creating(c(99, 99), c(13, 11));
    assert_eq!(p.coords, vec![c(10, 10), c(11, 11), c(13, 11)]);
    assert_eq!(p.get_vertex(), vec![c(10, 10), c(13, 11)]);
}

#[test]
fn pen_moves_every_point_or_none() {
    let mut p = Pen { coords: vec![c(0, 0), c(5, 5), c(199_999_999, 0)] };
    p.edit_moving(c(0, 0), c(1, -1));
    assert_eq!(p.coords, vec![c(1, -1), c(6, 4), c(200_000_000, -1)]);
    p.edit_moving(c(0, 0), c(1, 0));
    assert_eq!(p.coords, vec![c(1, -1), c(6, 4), c(200_000_000, -1)]);
}

#[test]
fn pen_resize_goes_on_with_the_stroke_at_its_end_only() {
    let mut p = Pen { coords: vec![c(0, 0), c(5, 5)] };
    p.edit_resizing(c(0, 0), c(50, 50), 0);
    assert_eq!(p.coords, vec![c(0, 0), c(5, 5)]);
    p.edit_resizing(c(0, 0), c(50, 50), 1);
    assert_eq!(p.coords, vec![c(0, 0), c(5, 5), c(50, 50)]);
    p.edit_resizing(c(0, 0), c(60, 60), 2);
    assert_eq!(p.coords, vec![c(0, 0), c(5, 5), c(50, 50)]);
}

#[test]
fn pen_hit_is_distance_to_the_polyline() {
    let p = Pen { coords: vec![c(0, 0), c(100, 0), c(100, 100)] };
    assert!(p.hover_condition(c(50, 5)));
    assert!(p.hover_condition(c(105, 50)));
    assert!(!p.hover_condition(c(50, 50)));
    let single = Pen { coords: vec![c(7, 7)] };
    assert!(single.hover_condition(c(7, 16)));
    assert!(!single.hover_condition(c(7, 17)));
}

#[test]
fn elem_dispatches_by_kind() {
    let mut e = Elem::Rect(Rect::default());
    assert!(!e.need_input());
    assert_eq!(e.get_content(), "");
    e.set_content("ignored");
    assert_eq!(e.get_content(), "");
    e.creating(c(0, 0), c(10, 10));
    assert_eq!(e.get_vertex(), vec![c(0, 0), c(10, 0), c(10, 10), c(0, 10)]);
    assert_eq!(e.elem_type(), "rect");

    let mut e = Elem::Text(Text::default());
    assert!(e.need_input());
    e.set_content("label");
    assert_eq!(e.get_content(), "label");
    assert_eq!(e.elem_type(), "text");

    let mut e = Elem::Line(Line::default());
    e.creating(c(1, 1), c(2, 2));
    e.edit_moving(c(0, 0), c(1, 1));
    assert_eq!(e.get_vertex(), vec![c(2, 2), c(3, 3)]);
    assert!(e.hover_condition(c(2, 3)));
    assert_eq!(e.elem_type(), "line");

    let mut e = Elem::Pen(Pen::default());
    e.creating(c(1, 1), c(20, 20));
    e.edit_resizing(c(0, 0), c(30, 30), 1);
    assert_eq!(e.get_vertex(), vec![c(1, 1), c(30, 30)]);
    assert_eq!(e.elem_type(), "pen");
}

#[test]
fn validity_is_being_in_the_world() {
    assert!(Elem::Rect(rect(0, 0, 10, 10)).is_valid());
    assert!(Elem::Rect(rect(200_000_000, -200_000_000, -400_000_000, 400_000_000)).is_valid());
    assert!(!Elem::Rect(rect(200_000_000, 0, 1, 0)).is_valid());
    assert!(!Elem::Rect(rect(0, 0, i64::MAX, 0)).is_valid());
    let mut wide = rect(0, 0, 1, 1);
    wide.line_size = -1;
    assert!(!Elem::Rect(wide).is_valid());
    assert!(Elem::Text(text(0, 0, 5, 5, "x")).is_valid());
    assert!(!Elem::Text(text(0, 200_000_001, 0, 0, "x")).is_valid());
    assert!(Elem::Line(Line { from_coord: c(0, 0), end_coord: c(1, 1) }).is_valid());
    assert!(!Elem::Line(Line { from_coord: c(0, 0), end_coord: c(1, 200_000_001) }).is_valid());
    assert!(Elem::Pen(Pen::default()).is_valid());
    assert!(!Elem::Pen(Pen { coords: vec![] }).is_valid());
    assert!(!Elem::Pen(Pen { coords: vec![c(0, 0), c(-200_000_001, 0)] }).is_valid());
}

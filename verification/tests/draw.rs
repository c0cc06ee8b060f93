use drawpanel::binder::{
    Binder, DrawCircleOpts, DrawCmd, DrawLineOpts, DrawRectOpts, DrawTextOpts, EguiBinder,
    EventRect, EventType, HookCall,
};
use drawpanel::coord::Coordinate;
use drawpanel::draw_wrap::DrawWrap;
use drawpanel::drawpanel::{Drawpanel, Mode};
use drawpanel::elem::line::Line;
use drawpanel::elem::pen::Pen;
use drawpanel::elem::rect::{LineStyle, Rect};
use drawpanel::elem::text::Text;
use drawpanel::elem::{Elem, Status};
use drawpanel::panel::Panel;
use drawpanel::token::ImportError;
use drawpanel::viewport::Viewport;

fn d(x: i64, y: i64) -> Coordinate {
    Coordinate::new(x, y)
}

const RED: u32 = 0xff0000;

fn unit() -> DrawWrap {
    DrawWrap::new(Viewport::new(0, 0))
}

fn line_cmd(a: Coordinate, b: Coordinate, size: i64) -> DrawCmd {
    DrawCmd::Line(DrawLineOpts { from_coord: a, end_coord: b, line_size: size, line_color: RED })
}

fn circle_cmd(at: Coordinate, r: i64, size: i64, color: u32, fill: u32) -> DrawCmd {
    DrawCmd::Circle(DrawCircleOpts {
        center_coord: at,
        r,
        line_size: size,
        line_color: color,
        fill_color: fill,
    })
}

fn rect_cmd(at: Coordinate, w: i64, h: i64, size: i64) -> DrawCmd {
    DrawCmd::Rect(DrawRectOpts {
        left_top_coord: at,
        width: w,
        height: h,
        line_size: size,
        line_color: RED,
        fill_color: None,
        line_style: LineStyle::Solid,
    })
}

fn text_cmd(at: Coordinate, w: i64, h: i64, content: &str, font: i64) -> DrawCmd {
    DrawCmd::Text(DrawTextOpts {
        left_top_coord: at,
        width: w,
        height: h,
        content: content.to_string(),
        font_size: font,
        font_space: 0,
        font_color: 0,
    })
}

#[test]
fn draw_wrap_brings_calls_to_the_device() {
    let mut v = Viewport::new(10, 20);
    v.set_scale(250, 10, 20);
    let mut draw = DrawWrap::new(v);
    draw.draw_line(DrawLineOpts {
        from_coord: d(0, 0),
        end_coord: d(4, 2),
        line_size: 3,
        line_color: 1,
    });
    draw.draw_rect(DrawRectOpts {
        left_top_coord: d(2, 2),
        width: 10,
        height: -3,
        line_size: 1,
        line_color: 2,
        fill_color: Some(3),
        line_style: LineStyle::Dotted,
    });
    draw.draw_circle(DrawCircleOpts {
        center_coord: d(-2, 0),
        r: 5,
        line_size: 0,
        line_color: 4,
        fill_color: 5,
    });
    draw.draw_text(DrawTextOpts {
        left_top_coord: d(0, 4),
        width: 2,
        height: 4,
        content: "t".to_string(),
        font_size: 7,
        font_space: 1,
        font_color: 6,
    });
    assert_eq!(
        draw.commands,
        vec![
            DrawCmd::Line(DrawLineOpts {
                from_coord: d(10, 20),
                end_coord: d(20, 25),
                line_size: 7,
                line_color: 1,
            }),
            DrawCmd::Rect(DrawRectOpts {
                left_top_coord: d(15, 25),
                width: 25,
                height: -8,
                line_size: 2,
                line_color: 2,
                fill_color: Some(3),
                line_style: LineStyle::Dotted,
            }),
            DrawCmd::Circle(DrawCircleOpts {
                center_coord: d(5, 20),
                r: 12,
                line_size: 0,
                line_color: 4,
                fill_color: 5,
            }),
            DrawCmd::Text(DrawTextOpts {
                left_top_coord: d(10, 30),
                width: 5,
                height: 10,
                content: "t".to_string(),
                font_size: 17,
                font_space: 2,
                font_color: 6,
            }),
        ]
    );
}

#[test]
fn line_draws_its_segment_and_rings_when_touched() {
    let l = Line { from_coord: d(1, 2), end_coord: d(30, 40) };
    let mut draw = unit();
    l.draw(&mut draw, Status::Default);
    assert_eq!(draw.commands, vec![line_cmd(d(1, 2), d(30, 40), 3)]);

    let mut draw = unit();
    l.draw(&mut draw, Status::Creating);
    assert_eq!(draw.commands, vec![line_cmd(d(1, 2), d(30, 40), 3)]);

    let mut draw = unit();
    l.draw(&mut draw, Status::Hover);
    assert_eq!(
        draw.commands,
        vec![
            line_cmd(d(1, 2), d(30, 40), 5),
            circle_cmd(d(1, 2), 5, 1, RED, 0),
            circle_cmd(d(30, 40), 5, 1, RED, 0),
        ]
    );

    let mut draw = unit();
    l.draw(&mut draw, Status::Resizing(1));
    assert_eq!(
        draw.commands,
        vec![
            line_cmd(d(1, 2), d(30, 40), 3),
            circle_cmd(d(1, 2), 5, 1, RED, 0),
            circle_cmd(d(30, 40), 5, 1, RED, 0),
        ]
    );
}

#[test]
fn rect_draws_its_outline_and_dots_when_touched() {
    let mut r = Rect::default();
    r.lt_coord = d(10, 20);
    r.width = 30;
    r.height = 40;
    let mut draw = unit();
    r.draw(&mut draw, Status::Default);
    assert_eq!(draw.commands, vec![rect_cmd(d(10, 20), 30, 40, 3)]);

    let handles = |r: i64| {
        vec![
            circle_cmd(d(10, 20), r, 0, RED, 0),
            circle_cmd(d(40, 20), r, 0, RED, 0),
            circle_cmd(d(40, 60), r, 0, RED, 0),
            circle_cmd(d(10, 60), r, 0, RED, 0),
        ]
    };
    let mut draw = unit();
    r.draw(&mut draw, Status::Hover);
    let mut expected = vec![rect_cmd(d(10, 20), 30, 40, 5)];
    expected.extend(handles(5));
    assert_eq!(draw.commands, expected);

    let mut draw = unit();
    r.draw(&mut draw, Status::Resizing(0));
    let mut expected = vec![rect_cmd(d(10, 20), 30, 40, 3)];
    expected.extend(handles(5));
    assert_eq!(draw.commands, expected);
}

#[test]
fn text_draws_its_label_and_its_frame_unless_at_rest() {
    let t = Text { lt_coord: d(10, 20), width: 100, height: 70, content: "a\nb\nc".to_string() };
    let mut draw = unit();
    t.draw(&mut draw, Status::Default);
    // (70 - 10) / 3 lines
    assert_eq!(draw.commands, vec![text_cmd(d(10, 20), 100, 70, "a\nb\nc", 20)]);

    let mut draw = unit();
    t.draw(&mut draw, Status::Creating);
    assert_eq!(
        draw.commands,
        vec![rect_cmd(d(10, 20), 100, 70, 3), text_cmd(d(10, 20), 100, 70, "a\nb\nc", 20)]
    );

    for status in [Status::Hover, Status::Resizing(2)] {
        let mut draw = unit();
        t.draw(&mut draw, status);
        assert_eq!(
            draw.commands,
            vec![
                rect_cmd(d(10, 20), 100, 70, 3),
                text_cmd(d(10, 20), 100, 70, "a\nb\nc", 20),
                circle_cmd(d(10, 20), 5, 0, RED, 0),
                circle_cmd(d(110, 20), 5, 0, RED, 0),
                circle_cmd(d(110, 90), 5, 0, RED, 0),
                circle_cmd(d(10, 90), 5, 0, RED, 0),
            ]
        );
    }
}

#[test]
fn text_font_size_rounds_down() {
    let t = Text { lt_coord: d(0, 0), width: 10, height: 5, content: "ab".to_string() };
    let mut draw = unit();
    t.draw(&mut draw, Status::Default);
    // (5 - 10) / 1
    assert_eq!(draw.commands, vec![text_cmd(d(0, 0), 10, 5, "ab", -5)]);
    let t = Text { lt_coord: d(0, 0), width: 10, height: 5, content: "a\nb".to_string() };
    let mut draw = unit();
    t.draw(&mut draw, Status::Default);
    // (5 - 10) / 2, rounded down
    assert_eq!(draw.commands, vec![text_cmd(d(0, 0), 10, 5, "a\nb", -3)]);
}

#[test]
fn pen_draws_its_segments_from_the_second_on() {
    let p = Pen { coords: vec![d(0, 0), d(10, 0), d(10, 10), d(20, 10)] };
    let mut draw = unit();
    p.draw(&mut draw, Status::Default);
    assert_eq!(
        draw.commands,
        vec![
            line_cmd(d(10, 0), d(10, 10), 4),
            circle_cmd(d(10, 0), 2, 0, RED, RED),
            line_cmd(d(10, 10), d(20, 10), 4),
            circle_cmd(d(10, 10), 2, 0, RED, RED),
        ]
    );

    let mut draw = unit();
    p.draw(&mut draw, Status::Hover);
    assert_eq!(
        draw.commands,
        vec![
            line_cmd(d(10, 0), d(10, 10), 8),
            circle_cmd(d(10, 0), 4, 0, RED, RED),
            line_cmd(d(10, 10), d(20, 10), 8),
            circle_cmd(d(10, 10), 4, 0, RED, RED),
            circle_cmd(d(20, 10), 8, 1, 0, 0),
        ]
    );

    let mut draw = unit();
    p.draw(&mut draw, Status::Resizing(1));
    assert_eq!(
        draw.commands,
        vec![
            line_cmd(d(10, 0), d(10, 10), 4),
            circle_cmd(d(10, 10), 2, 0, RED, RED),
            line_cmd(d(10, 10), d(20, 10), 4),
            circle_cmd(d(20, 10), 2, 0, RED, RED),
            circle_cmd(d(20, 10), 8, 1, 0, 0),
        ]
    );
}

#[test]
fn short_pen_draws_no_segment() {
    for coords in [vec![d(1, 1)], vec![d(1, 1), d(5, 5)]] {
        let last = *coords.last().unwrap();
        let p = Pen { coords };
        let mut draw = unit();
        p.draw(&mut draw, Status::Creating);
        assert_eq!(draw.commands, vec![]);
        let mut draw = unit();
        p.draw(&mut draw, Status::Hover);
        assert_eq!(draw.commands, vec![circle_cmd(last, 8, 1, 0, 0)]);
    }
}

fn sheet(at: Coordinate, w: i64, h: i64) -> DrawCmd {
    DrawCmd::Rect(DrawRectOpts {
        left_top_coord: at,
        width: w,
        height: h,
        line_size: 0,
        line_color: 0xffffff,
        fill_color: Some(0xffffff),
        line_style: LineStyle::Solid,
    })
}

#[test]
fn empty_panel_draws_its_sheet() {
    let mut panel = Panel::new(10, 20, 800, 600, Drawpanel::prototypes());
    assert_eq!(panel.trigger_draw(), vec![sheet(d(10, 20), 800, 600)]);
    panel.set_scale(50, 10, 20);
    assert_eq!(panel.trigger_draw(), vec![sheet(d(10, 20), 400, 300)]);
}

#[test]
fn panel_draws_each_shape_as_its_status_asks() {
    let mut panel = Panel::new(0, 0, 100, 100, Drawpanel::prototypes());
    panel.elems.push(Elem::Line(Line { from_coord: d(0, 0), end_coord: d(50, 0) }));
    panel.elems.push(Elem::Line(Line { from_coord: d(0, 50), end_coord: d(50, 50) }));
    let rest = |y: i64| line_cmd(d(0, y), d(50, y), 3);
    let touched = |y: i64, size: i64| {
        vec![
            line_cmd(d(0, y), d(50, y), size),
            circle_cmd(d(0, y), 5, 1, RED, 0),
            circle_cmd(d(50, y), 5, 1, RED, 0),
        ]
    };
    assert_eq!(panel.trigger_draw(), vec![sheet(d(0, 0), 100, 100), rest(0), rest(50)]);

    // hovered
    panel.trigger_event(EventType::Move(drawpanel::binder::EventMouseButton::Left), d(25, 50));
    let mut expected = vec![sheet(d(0, 0), 100, 100), rest(0)];
    expected.extend(touched(50, 5));
    assert_eq!(panel.trigger_draw(), expected);

    // hovered and resized
    panel.set_mode(Mode::EditResizing(1));
    let mut expected = vec![sheet(d(0, 0), 100, 100), rest(0)];
    expected.extend(touched(50, 3));
    assert_eq!(panel.trigger_draw(), expected);

    // selected
    panel.set_mode(Mode::EditMoving);
    panel.hover_index = None;
    let mut marquee = Rect::default();
    marquee.lt_coord = d(-5, -5);
    marquee.width = 60;
    marquee.height = 10;
    marquee.line_size = 1;
    marquee.line_color = 0;
    marquee.line_style = LineStyle::Dotted;
    panel.select_box = Some(marquee);
    panel.selects = vec![0];
    let mut expected = vec![sheet(d(0, 0), 100, 100)];
    expected.extend(touched(0, 5));
    expected.push(rest(50));
    expected.push(DrawCmd::Rect(DrawRectOpts {
        left_top_coord: d(-5, -5),
        width: 60,
        height: 10,
        line_size: 1,
        line_color: 0,
        fill_color: None,
        line_style: LineStyle::Dotted,
    }));
    assert_eq!(panel.trigger_draw(), expected);
}

#[test]
fn egui_binder_gives_a_square_at_the_origin() {
    let binder = EguiBinder::new();
    assert_eq!(binder, EguiBinder {});
    assert_eq!(binder.region(), EventRect { coord: d(0, 0), width: 100, height: 100 });
}

#[test]
fn drawpanel_registers_the_four_kinds() {
    let kinds: Vec<String> = Drawpanel::prototypes().iter().map(|e| e.elem_type()).collect();
    assert_eq!(kinds, vec!["pen", "line", "rect", "text"]);
    let panel = Drawpanel::new(EguiBinder::new());
    assert_eq!(panel.panel().register_elems, Drawpanel::prototypes());
    assert_eq!((panel.panel().width, panel.panel().height), (100, 100));
    assert_eq!(panel.scale(), 100);
    assert_eq!(panel.panel().mode, Mode::EditMoving);
}

#[test]
fn drawpanel_forwards_to_its_panel() {
    let left = drawpanel::binder::EventMouseButton::Left;
    let mut host = Drawpanel::new(EguiBinder::new());
    assert_eq!(host.flush(), vec![HookCall::Flush]);
    host.set_mode(Mode::Creating(Some(Elem::Text(Text::default()))));
    host.trigger_event(EventType::Push(left), d(10, 10));
    host.trigger_event(EventType::Drag(left), d(60, 40));
    let hooks = host.trigger_event(EventType::Released(left), d(60, 40));
    assert_eq!(hooks.len(), 3);
    host.set_content(0, "héllo");
    host.trigger_event(EventType::Push(left), d(0, 0));
    assert_eq!(host.export(), r#"{"elems":["text(10,10,50,30,héllo)"]}"#);
    assert_eq!(host.set_scale(200, 0, 0), vec![HookCall::Flush]);
    assert_eq!(host.scale(), 200);
    assert_eq!(host.trigger_draw().len(), 2);
    assert_eq!(host.import("{"), Err(ImportError::Json));
    assert_eq!(host.import(r#"{"elems":["pen(1,2)"]}"#), Ok(vec![HookCall::Flush]));
    assert_eq!(host.panel().elems, vec![Elem::Pen(Pen { coords: vec![d(1, 2)] })]);
}

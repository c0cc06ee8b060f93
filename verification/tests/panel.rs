use drawpanel::binder::{EventMouseButton, EventRect, EventType, EventZoom, HookCall};
use drawpanel::coord::Coordinate;
use drawpanel::drawpanel::{Drawpanel, Mode};
use drawpanel::elem::line::Line;
use drawpanel::elem::pen::Pen;
use drawpanel::elem::rect::{LineStyle, Rect};
use drawpanel::elem::text::Text;
use drawpanel::elem::Elem;
use drawpanel::panel::Panel;

fn p(x: i64, y: i64) -> Coordinate {
    Coordinate::new(x, y)
}

fn panel() -> Panel {
    Panel::new(0, 0, 800, 600, Drawpanel::prototypes())
}

fn boxed(x: i64, y: i64, w: i64, h: i64) -> Elem {
    let mut r = Rect::default();
    r.lt_coord = p(x, y);
    r.width = w;
    r.height = h;
    Elem::Rect(r)
}

fn label(x: i64, y: i64, w: i64, h: i64, content: &str) -> Elem {
    let mut t = Text::default();
    t.lt_coord = p(x, y);
    t.width = w;
    t.height = h;
    t.content = content.to_string();
    Elem::Text(t)
}

const LEFT: EventMouseButton = EventMouseButton::Left;

fn corner(e: &Elem) -> Coordinate {
    e.get_vertex()[0]
}

/// Five boxes side by side, 100 apart, none near another.
fn five() -> Panel {
    let mut panel = panel();
    for i in 0..5 {
        panel.elems.push(boxed(100 * i, 0, 40, 40));
    }
    panel
}

#[test]
fn new_panel_is_empty_and_moving() {
    let panel = Panel::new(10, 20, 800, 600, Drawpanel::prototypes());
    assert_eq!(panel.raw_lt_coord, p(10, 20));
    assert_eq!((panel.width, panel.height), (800, 600));
    assert_eq!(panel.scale(), 100);
    assert_eq!(panel.viewport.origin, p(1000, 2000));
    assert!(panel.elems.is_empty());
    assert_eq!(panel.mode, Mode::EditMoving);
    assert_eq!(panel.hover_index, None);
    assert_eq!(panel.drag_vertex, None);
    assert_eq!(panel.edit_index, None);
    assert_eq!(panel.select_box, None);
    assert!(panel.selects.is_empty());
    assert_eq!(panel.register_elems.len(), 4);
}

#[test]
fn new_panel_cuts_a_size_beyond_the_world() {
    let panel = Panel::new(0, 0, i64::MAX, i64::MIN, Drawpanel::prototypes());
    assert_eq!((panel.width, panel.height), (800_000_000, -800_000_000));
}

#[test]
fn every_event_ends_with_a_flush() {
    let mut panel = five();
    let events = [
        EventType::Move(LEFT),
        EventType::Push(LEFT),
        EventType::Drag(LEFT),
        EventType::Released(LEFT),
        EventType::Dblclick,
        EventType::Zoom(EventZoom::Grow),
        EventType::Zoom(EventZoom::NoZoom),
    ];
    for e in events {
        let hooks = panel.trigger_event(e, p(500, 500));
        assert_eq!(hooks.last(), Some(&HookCall::Flush));
    }
}

#[test]
fn move_hovers_the_topmost_shape() {
    let mut panel = panel();
    panel.elems.push(boxed(0, 0, 100, 100));
    panel.elems.push(boxed(50, 50, 100, 100));
    panel.trigger_event(EventType::Move(LEFT), p(20, 20));
    assert_eq!(panel.hover_index, Some(0));
    panel.trigger_event(EventType::Move(LEFT), p(75, 75));
    assert_eq!(panel.hover_index, Some(1));
    panel.trigger_event(EventType::Move(LEFT), p(120, 120));
    assert_eq!(panel.hover_index, Some(1));
    panel.trigger_event(EventType::Move(LEFT), p(400, 400));
    assert_eq!(panel.hover_index, None);
}

#[test]
fn move_is_ignored_while_a_text_is_edited() {
    let mut panel = panel();
    panel.elems.push(label(0, 0, 100, 100, "a"));
    panel.trigger_event(EventType::Move(LEFT), p(50, 50));
    panel.trigger_event(EventType::Dblclick, p(50, 50));
    assert_eq!(panel.mode, Mode::EditState);
    panel.trigger_event(EventType::Move(LEFT), p(500, 500));
    assert_eq!(panel.hover_index, Some(0));
}

#[test]
fn creating_a_rectangle_by_press_drag_release_press() {
    let mut panel = panel();
    panel.set_mode(Mode::Creating(Some(Elem::Rect(Rect::default()))));
    let hooks = panel.trigger_event(EventType::Push(LEFT), p(10, 10));
    assert_eq!(
        hooks,
        vec![HookCall::BeginCreate { index: 0, mouse_coord: p(10, 10) }, HookCall::Flush]
    );
    assert_eq!(panel.mode, Mode::Creating(None));
    assert_eq!(panel.elems.len(), 1);

    let hooks = panel.trigger_event(EventType::Drag(LEFT), p(60, 5));
    assert_eq!(
        hooks,
        vec![HookCall::DoingCreate { index: 0, mouse_coord: p(60, 5) }, HookCall::Flush]
    );
    assert_eq!(panel.elems[0], boxed(10, 5, 50, 5));
    panel.trigger_event(EventType::Drag(LEFT), p(70, 90));
    assert_eq!(panel.elems[0], boxed(10, 10, 60, 80));

    let hooks = panel.trigger_event(EventType::Released(LEFT), p(70, 90));
    assert_eq!(hooks, vec![HookCall::Flush]);
    assert_eq!(panel.mode, Mode::Creating(None));

    let hooks = panel.trigger_event(EventType::Push(LEFT), p(70, 90));
    assert_eq!(
        hooks,
        vec![HookCall::EndCreate { index: 0, mouse_coord: p(70, 90) }, HookCall::Flush]
    );
    assert_eq!(panel.mode, Mode::EditMoving);
    assert_eq!(panel.elems, vec![boxed(10, 10, 60, 80)]);
}

#[test]
fn creating_a_text_goes_on_to_editing_it() {
    let mut panel = Panel::new(5, 5, 800, 600, Drawpanel::prototypes());
    panel.viewport.set_scale(200, 5, 5);
    panel.elems.push(boxed(0, 0, 1, 1));
    panel.set_mode(Mode::Creating(Some(Elem::Text(Text::default()))));
    panel.trigger_event(EventType::Push(LEFT), p(25, 45));
    panel.trigger_event(EventType::Drag(LEFT), p(65, 105));
    assert_eq!(panel.elems[1], label(10, 20, 20, 30, ""));
    let hooks = panel.trigger_event(EventType::Released(LEFT), p(65, 105));
    assert_eq!(
        hooks,
        vec![
            HookCall::EndCreate { index: 1, mouse_coord: p(30, 50) },
            HookCall::BeginEditState {
                index: 1,
                event_rect: EventRect { coord: p(25, 45), width: 40, height: 60 },
            },
            HookCall::Flush,
        ]
    );
    assert_eq!(panel.mode, Mode::EditState);
    assert_eq!(panel.edit_index, Some(1));

    panel.set_content(1, "typed");
    let hooks = panel.trigger_event(EventType::Push(LEFT), p(5, 5));
    assert_eq!(
        hooks,
        vec![HookCall::EndEditState { index: 1, mouse_coord: p(0, 0) }, HookCall::Flush]
    );
    assert_eq!(panel.mode, Mode::EditMoving);
    assert_eq!(panel.edit_index, None);
    assert_eq!(panel.elems[1], label(10, 20, 20, 30, "typed"));
}

#[test]
fn creating_a_stroke_collects_the_drag_samples() {
    let mut panel = panel();
    panel.set_mode(Mode::Creating(Some(Elem::Pen(Pen::default()))));
    panel.trigger_event(EventType::Push(LEFT), p(10, 10));
    panel.trigger_event(EventType::Drag(LEFT), p(12, 10));
    panel.trigger_event(EventType::Drag(LEFT), p(12, 11));
    panel.trigger_event(EventType::Drag(LEFT), p(20, 20));
    assert_eq!(
        panel.elems[0],
        Elem::Pen(Pen { coords: vec![p(10, 10), p(12, 10), p(20, 20)] })
    );
}

#[test]
fn drag_before_the_first_press_of_a_creation_changes_nothing() {
    let mut panel = five();
    panel.set_mode(Mode::Creating(Some(Elem::Line(Line::default()))));
    let hooks = panel.trigger_event(EventType::Drag(LEFT), p(300, 300));
    assert_eq!(hooks, vec![HookCall::Flush]);
    let hooks = panel.trigger_event(EventType::Released(LEFT), p(300, 300));
    assert_eq!(hooks, vec![HookCall::Flush]);
    assert_eq!(panel.elems, five().elems);
    assert_eq!(panel.mode, Mode::Creating(Some(Elem::Line(Line::default()))));
}

#[test]
fn press_on_a_handle_starts_a_resize() {
    let mut panel = panel();
    panel.elems.push(boxed(100, 100, 50, 50));
    panel.trigger_event(EventType::Move(LEFT), p(148, 152));
    assert_eq!(panel.hover_index, Some(0));
    panel.trigger_event(EventType::Push(LEFT), p(148, 152));
    assert_eq!(panel.mode, Mode::EditResizing(2));
    assert_eq!(panel.drag_vertex, Some(2));
    assert_eq!(panel.prev_coord, p(148, 152));

    panel.trigger_event(EventType::Drag(LEFT), p(180, 170));
    assert_eq!(panel.elems[0], boxed(100, 100, 80, 70));
    panel.trigger_event(EventType::Drag(LEFT), p(90, 170));
    assert_eq!(panel.elems[0], boxed(90, 100, 0, 70));

    panel.trigger_event(EventType::Released(LEFT), p(90, 170));
    assert_eq!(panel.mode, Mode::EditMoving);
    assert_eq!(panel.drag_vertex, None);
}

#[test]
fn press_grabs_the_last_handle_in_reach() {
    let mut panel = panel();
    // A box so small that all four corners are in reach of the press.
    panel.elems.push(boxed(100, 100, 2, 2));
    panel.trigger_event(EventType::Move(LEFT), p(101, 101));
    panel.trigger_event(EventType::Push(LEFT), p(101, 101));
    assert_eq!(panel.mode, Mode::EditResizing(3));
}

#[test]
fn press_inside_a_shape_away_from_handles_keeps_moving() {
    let mut panel = panel();
    panel.elems.push(boxed(100, 100, 50, 50));
    panel.trigger_event(EventType::Move(LEFT), p(125, 125));
    panel.trigger_event(EventType::Push(LEFT), p(125, 125));
    assert_eq!(panel.mode, Mode::EditMoving);
    panel.trigger_event(EventType::Drag(LEFT), p(130, 120));
    assert_eq!(panel.elems[0], boxed(105, 95, 50, 50));
    assert_eq!(panel.prev_coord, p(130, 120));
    panel.trigger_event(EventType::Drag(LEFT), p(131, 121));
    assert_eq!(panel.elems[0], boxed(106, 96, 50, 50));
}

#[test]
fn drag_on_the_empty_canvas_pans_by_the_device_difference() {
    let mut panel = panel();
    panel.viewport.set_scale(200, 0, 0);
    panel.elems.push(boxed(100, 100, 50, 50));
    panel.trigger_event(EventType::Move(LEFT), p(10, 10));
    assert_eq!(panel.hover_index, None);
    panel.trigger_event(EventType::Push(LEFT), p(10, 10));
    panel.trigger_event(EventType::Drag(LEFT), p(17, 4));
    assert_eq!(panel.viewport.origin, p(700, -600));
    assert_eq!(panel.viewport.scale, 200);
    assert_eq!(panel.elems[0], boxed(100, 100, 50, 50));
    assert_eq!(panel.raw_prev_coord, p(17, 4));
}

#[test]
fn marquee_selects_only_what_it_encloses() {
    let mut panel = panel();
    panel.elems.push(boxed(10, 10, 20, 20));
    panel.elems.push(boxed(150, 150, 100, 100));
    panel.elems.push(boxed(60, 60, 30, 30));
    panel.set_mode(Mode::Select);
    panel.trigger_event(EventType::Push(LEFT), p(0, 0));
    let mut marquee = Rect::default();
    marquee.line_color = 0;
    marquee.line_size = 1;
    marquee.line_style = LineStyle::Dotted;
    assert_eq!(panel.select_box, Some(marquee));
    panel.trigger_event(EventType::Drag(LEFT), p(200, 200));
    panel.trigger_event(EventType::Released(LEFT), p(200, 200));
    assert_eq!(panel.selects, vec![0, 2]);
    assert_eq!(panel.mode, Mode::EditMoving);
    let drawn = panel.select_box.unwrap();
    assert_eq!((drawn.lt_coord, drawn.width, drawn.height), (p(0, 0), 200, 200));
}

#[test]
fn marquee_encloses_a_shape_on_its_edge() {
    let mut panel = panel();
    panel.elems.push(boxed(0, 0, 200, 200));
    panel.elems.push(boxed(0, 0, 201, 200));
    panel.set_mode(Mode::Select);
    panel.trigger_event(EventType::Push(LEFT), p(200, 200));
    panel.trigger_event(EventType::Drag(LEFT), p(0, 0));
    panel.trigger_event(EventType::Released(LEFT), p(0, 0));
    assert_eq!(panel.selects, vec![0]);
}

#[test]
fn release_in_select_without_a_marquee_selects_nothing() {
    let mut panel = five();
    panel.set_mode(Mode::Select);
    panel.trigger_event(EventType::Released(LEFT), p(0, 0));
    assert!(panel.selects.is_empty());
    assert_eq!(panel.mode, Mode::EditMoving);
}

fn select_one_and_three(panel: &mut Panel) {
    // Lift the boxes 1 and 3 into a row of their own, and draw the marquee
    // about that row.
    panel.elems[1] = boxed(100, 200, 40, 40);
    panel.elems[3] = boxed(300, 200, 40, 40);
    panel.set_mode(Mode::Select);
    panel.trigger_event(EventType::Push(LEFT), p(50, 150));
    panel.trigger_event(EventType::Drag(LEFT), p(400, 300));
    panel.trigger_event(EventType::Released(LEFT), p(400, 300));
    assert_eq!(panel.selects, vec![1, 3]);
}

#[test]
fn drag_moves_the_selection_and_the_marquee() {
    let mut panel = five();
    select_one_and_three(&mut panel);
    panel.trigger_event(EventType::Move(LEFT), p(200, 250));
    assert_eq!(panel.hover_index, None);
    panel.trigger_event(EventType::Push(LEFT), p(200, 250));
    assert_eq!(panel.selects, vec![1, 3]);
    panel.trigger_event(EventType::Drag(LEFT), p(210, 255));
    assert_eq!(
        panel.elems,
        vec![
            boxed(0, 0, 40, 40),
            boxed(110, 205, 40, 40),
            boxed(200, 0, 40, 40),
            boxed(310, 205, 40, 40),
            boxed(400, 0, 40, 40),
        ]
    );
    let marquee = panel.select_box.unwrap();
    assert_eq!(marquee.lt_coord, p(60, 155));
    assert_eq!(panel.viewport.origin, p(0, 0));
}

#[test]
fn press_outside_the_marquee_drops_the_selection() {
    let mut panel = five();
    select_one_and_three(&mut panel);
    panel.trigger_event(EventType::Push(LEFT), p(401, 300));
    assert!(panel.selects.is_empty());
    assert_eq!(panel.select_box, None);
}

#[test]
fn press_on_the_edge_of_the_marquee_keeps_the_selection() {
    let mut panel = five();
    select_one_and_three(&mut panel);
    panel.trigger_event(EventType::Push(LEFT), p(400, 300));
    assert_eq!(panel.selects, vec![1, 3]);
    assert!(panel.select_box.is_some());
}

#[test]
fn deleting_the_hovered_shape_keeps_the_order_of_the_rest() {
    let mut panel = five();
    panel.set_mode(Mode::Deleting);
    panel.trigger_event(EventType::Move(LEFT), p(220, 20));
    assert_eq!(panel.hover_index, Some(2));
    let hooks = panel.trigger_event(EventType::Push(LEFT), p(220, 20));
    assert_eq!(hooks, vec![HookCall::Flush]);
    assert_eq!(
        panel.elems,
        vec![
            boxed(0, 0, 40, 40),
            boxed(100, 0, 40, 40),
            boxed(300, 0, 40, 40),
            boxed(400, 0, 40, 40),
        ]
    );
    assert_eq!(panel.hover_index, None);
    assert_eq!(panel.mode, Mode::Deleting);
}

#[test]
fn deleting_the_hovered_shape_drops_the_selection() {
    let mut panel = five();
    select_one_and_three(&mut panel);
    panel.set_mode(Mode::Deleting);
    panel.trigger_event(EventType::Move(LEFT), p(20, 20));
    panel.trigger_event(EventType::Push(LEFT), p(20, 20));
    assert_eq!(panel.elems.len(), 4);
    assert!(panel.selects.is_empty());
    assert_eq!(panel.select_box, None);
}

#[test]
fn deleting_the_selection_takes_out_exactly_the_selected() {
    let mut panel = five();
    select_one_and_three(&mut panel);
    panel.set_mode(Mode::Deleting);
    panel.trigger_event(EventType::Move(LEFT), p(200, 250));
    assert_eq!(panel.hover_index, None);
    let hooks = panel.trigger_event(EventType::Push(LEFT), p(200, 250));
    assert_eq!(hooks, vec![HookCall::Flush, HookCall::Flush]);
    assert_eq!(
        panel.elems,
        vec![boxed(0, 0, 40, 40), boxed(200, 0, 40, 40), boxed(400, 0, 40, 40)]
    );
    assert!(panel.selects.is_empty());
    assert_eq!(panel.select_box, None);
}

#[test]
fn deleting_press_away_from_shapes_and_marquee_deletes_nothing() {
    let mut panel = five();
    select_one_and_three(&mut panel);
    panel.set_mode(Mode::Deleting);
    panel.trigger_event(EventType::Move(LEFT), p(700, 500));
    let hooks = panel.trigger_event(EventType::Push(LEFT), p(700, 500));
    assert_eq!(hooks, vec![HookCall::Flush]);
    assert_eq!(panel.elems.len(), 5);
    assert_eq!(panel.selects, vec![1, 3]);
}

#[test]
fn double_click_on_a_shape_begins_the_editing() {
    let mut panel = panel();
    panel.elems.push(label(10, 20, 100, 50, "abc"));
    panel.elems.push(boxed(300, 300, 10, 10));
    panel.trigger_event(EventType::Move(LEFT), p(50, 40));
    let hooks = panel.trigger_event(EventType::Dblclick, p(50, 40));
    assert_eq!(
        hooks,
        vec![
            HookCall::BeginEditState {
                index: 0,
                event_rect: EventRect { coord: p(10, 20), width: 100, height: 50 },
            },
            HookCall::Flush,
        ]
    );
    assert_eq!(panel.mode, Mode::EditState);
    assert_eq!(panel.edit_index, Some(0));

    let hooks = panel.trigger_event(EventType::Dblclick, p(50, 40));
    assert_eq!(
        hooks,
        vec![HookCall::EndEditState { index: 0, mouse_coord: p(50, 40) }, HookCall::Flush]
    );
    assert_eq!(panel.mode, Mode::EditMoving);
}

#[test]
fn double_click_on_a_line_gives_the_box_between_its_ends() {
    let mut panel = panel();
    panel.elems.push(Elem::Line(Line { from_coord: p(50, 60), end_coord: p(20, 100) }));
    panel.trigger_event(EventType::Move(LEFT), p(50, 60));
    let hooks = panel.trigger_event(EventType::Dblclick, p(50, 60));
    assert_eq!(
        hooks[0],
        HookCall::BeginEditState {
            index: 0,
            event_rect: EventRect { coord: p(50, 60), width: -30, height: 40 },
        }
    );
}

#[test]
fn double_click_on_nothing_changes_nothing() {
    let mut panel = five();
    let hooks = panel.trigger_event(EventType::Dblclick, p(700, 500));
    assert_eq!(hooks, vec![HookCall::Flush]);
    assert_eq!(panel.mode, Mode::EditMoving);
}

#[test]
fn zoom_steps_the_scale_by_one_hundredth() {
    let mut panel = panel();
    let hooks = panel.trigger_event(EventType::Zoom(EventZoom::Grow), p(100, 100));
    assert_eq!(hooks, vec![HookCall::Flush, HookCall::Flush]);
    assert_eq!(panel.scale(), 101);
    // origin = 0 + 100 * (100 - 101)
    assert_eq!(panel.viewport.origin, p(-100, -100));
    panel.trigger_event(EventType::Zoom(EventZoom::Dwindle), p(0, 0));
    panel.trigger_event(EventType::Zoom(EventZoom::Dwindle), p(0, 0));
    assert_eq!(panel.scale(), 99);
    let hooks = panel.trigger_event(EventType::Zoom(EventZoom::NoZoom), p(0, 0));
    assert_eq!(hooks, vec![HookCall::Flush]);
    assert_eq!(panel.scale(), 99);
}

#[test]
fn zoom_stops_at_the_floor() {
    let mut panel = panel();
    panel.set_scale(1, 0, 0);
    panel.trigger_event(EventType::Zoom(EventZoom::Dwindle), p(0, 0));
    assert_eq!(panel.scale(), 1);
}

#[test]
fn set_scale_asks_for_a_repaint() {
    let mut panel = panel();
    assert_eq!(panel.set_scale(150, 10, 10), vec![HookCall::Flush]);
    assert_eq!(panel.scale(), 150);
    assert_eq!(panel.relative_coord(p(10, 10)), p(10, 10));
    assert_eq!(panel.absolute_coord(p(10, 10)), p(10, 10));
    assert_eq!(panel.absolute_coord(p(20, 10)), p(25, 10));
}

#[test]
fn move_pos_pans_the_panel() {
    let mut panel = panel();
    panel.move_pos(p(5, 5), p(8, 3));
    assert_eq!(panel.viewport.origin, p(300, -200));
    assert_eq!(panel.relative_coord(p(3, -2)), p(0, 0));
}

#[test]
fn set_mode_takes_what_the_panel_admits() {
    let mut panel = five();
    panel.set_mode(Mode::Deleting);
    assert_eq!(panel.mode, Mode::Deleting);
    panel.set_mode(Mode::Select);
    assert_eq!(panel.mode, Mode::Select);
    panel.set_mode(Mode::EditResizing(3));
    assert_eq!(panel.mode, Mode::EditResizing(3));
    assert_eq!(panel.drag_vertex, Some(3));
    panel.set_mode(Mode::EditState);
    assert_eq!(panel.mode, Mode::EditState);
    assert_eq!(panel.edit_index, Some(4));
    assert_eq!(panel.drag_vertex, None);
    panel.set_mode(Mode::Creating(None));
    assert_eq!(panel.mode, Mode::Creating(None));
    assert_eq!(panel.edit_index, None);
    panel.set_mode(Mode::EditMoving);
    assert_eq!(panel.mode, Mode::EditMoving);
}

#[test]
fn set_mode_falls_back_to_moving() {
    let mut panel = panel();
    panel.set_mode(Mode::EditResizing(4));
    assert_eq!(panel.mode, Mode::EditMoving);
    assert_eq!(panel.drag_vertex, None);
    panel.set_mode(Mode::EditState);
    assert_eq!(panel.mode, Mode::EditMoving);
    panel.set_mode(Mode::Creating(None));
    assert_eq!(panel.mode, Mode::EditMoving);
    panel.set_mode(Mode::Creating(Some(Elem::Pen(Pen { coords: vec![] }))));
    assert_eq!(panel.mode, Mode::EditMoving);
}

#[test]
fn mode_stays_one_of_the_six_with_payloads_in_range() {
    let mut panel = five();
    panel.elems.push(label(0, 300, 100, 100, "t"));
    let points = [p(20, 20), p(0, 0), p(220, 20), p(50, 350), p(700, 500), p(-5, 999_999_999)];
    let events = [
        EventType::Push(LEFT),
        EventType::Move(LEFT),
        EventType::Drag(LEFT),
        EventType::Dblclick,
        EventType::Released(LEFT),
        EventType::Zoom(EventZoom::Dwindle),
        EventType::Push(EventMouseButton::Right),
        EventType::Drag(EventMouseButton::Middle),
    ];
    let modes = [
        Mode::Select,
        Mode::Deleting,
        Mode::Creating(Some(Elem::Text(Text::default()))),
        Mode::EditMoving,
        Mode::Creating(Some(Elem::Pen(Pen::default()))),
    ];
    let mut step = 0usize;
    for round in 0..400 {
        if round % 7 == 0 {
            panel.set_mode(modes[(round / 7) % modes.len()].clone());
        }
        step = (step * 31 + 17) % 1009;
        let e = events[step % events.len()];
        let at = points[(step / 8) % points.len()];
        let hooks = panel.trigger_event(e, at);
        assert_eq!(hooks.last(), Some(&HookCall::Flush));
        let len = panel.elems.len();
        match &panel.mode {
            Mode::EditMoving | Mode::Deleting | Mode::Select => {
                assert_eq!(panel.drag_vertex, None)
            }
            Mode::Creating(Some(e)) => assert!(e.is_valid()),
            Mode::Creating(None) => assert!(len >= 1),
            Mode::EditResizing(v) => {
                assert!(*v < 4);
                assert_eq!(panel.drag_vertex, Some(*v));
            }
            Mode::EditState => assert!(panel.edit_index.unwrap() < len),
        }
        if let Some(h) = panel.hover_index {
            assert!(h < len);
        }
        assert!(panel.selects.iter().all(|i| *i < len));
        assert!(panel.selects.windows(2).all(|w| w[0] < w[1]));
        assert!(panel.elems.iter().all(|e| e.is_valid()));
        for hook in hooks {
            match hook {
                HookCall::BeginCreate { index, .. }
                | HookCall::DoingCreate { index, .. }
                | HookCall::EndCreate { index, .. }
                | HookCall::BeginEditState { index, .. }
                | HookCall::EndEditState { index, .. } => assert!(index < len),
                HookCall::Flush => {}
            }
        }
    }
}

#[test]
fn calc_event_rect_scales_the_box() {
    let mut panel = panel();
    panel.set_scale(250, 0, 0);
    let rect = panel.calc_event_rect(vec![p(10, 20), p(30, 20), p(30, 60), p(10, 60)]);
    assert_eq!(rect, EventRect { coord: p(25, 50), width: 50, height: 100 });
}

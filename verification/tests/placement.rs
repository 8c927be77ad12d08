use wlrix_compositor::geometry::{Point, Rect, Size, Spot};
use wlrix_compositor::minimized::IconMetrics;
use wlrix_compositor::placement::{
    absolute_position, clamp_frame, clamp_to_outputs, default_placement, frame_position,
    output_layout, requested_position, shell_frame, Hints, Placement, ShellFrame, CASCADE_STEP,
    CASCADE_WRAP, WHOLE,
};
use wlrix_compositor::state::{Desk, Screen, Shell, Window, Wlrix};

fn point(x: i32, y: i32) -> Point {
    Point { x, y }
}

fn size(w: i32, h: i32) -> Size {
    Size { w, h }
}

fn spot(x: f64, y: f64) -> Spot {
    Spot { x: (x * 256.0) as i64, y: (y * 256.0) as i64 }
}

fn screen(id: u64, loc: (i32, i32), dims: (i32, i32)) -> Screen {
    Screen {
        id,
        geometry: Some(Rect::new(point(loc.0, loc.1), size(dims.0, dims.1))),
        zone: Rect::new(point(0, 0), size(dims.0, dims.1)),
    }
}

fn desktop(screens: Vec<Screen>) -> Wlrix {
    Wlrix {
        windows: Vec::new(),
        stack: Vec::new(),
        hidden: Vec::new(),
        screens,
        active: Desk::Ordinary(1),
        desks: vec![Desk::Global, Desk::Ordinary(1)],
        metrics: IconMetrics { margin: 8, tile_w: 96, tile_h: 96 },
        pointer: spot(0.0, 0.0),
        icon_drag: None,
        window_menu: None,
        last_menu_click: None,
    }
}

const LEFT: u64 = 1;
const RIGHT: u64 = 2;

fn dual_head() -> Wlrix {
    desktop(vec![
        screen(LEFT, (0, 0), (2560, 1440)),
        screen(RIGHT, (2560, 0), (2560, 1440)),
    ])
}

fn geometries(desktop: &Wlrix) -> Vec<Rect> {
    desktop.screens.iter().filter_map(|s| s.geometry).collect()
}

fn output_for_pointer(desktop: &mut Wlrix, at: Spot) -> Option<Screen> {
    desktop.pointer = at;
    desktop.output_for_pointer()
}

fn first_area() -> Rect {
    Rect::new(point(0, 0), size(2560, 1440))
}

fn area_of(desktop: &Wlrix, id: u64) -> Rect {
    desktop.screen(id).unwrap().work_area()
}

#[test]
fn window_opens_on_the_monitor_the_pointer_is_on() {
    let mut desktop = dual_head();
    let on_left = output_for_pointer(&mut desktop, spot(100.0, 100.0)).unwrap();
    assert_eq!(on_left.id, LEFT);
    let on_right = output_for_pointer(&mut desktop, spot(3000.0, 200.0)).unwrap();
    assert_eq!(on_right.id, RIGHT);
}

#[test]
fn pointer_outside_every_output_still_picks_one() {
    let mut desktop = dual_head();
    assert!(output_for_pointer(&mut desktop, spot(99_999.0, 99_999.0)).is_some());
}

#[test]
fn no_outputs_means_nowhere_to_place() {
    let mut desktop = desktop(Vec::new());
    assert!(output_for_pointer(&mut desktop, spot(0.0, 0.0)).is_none());
}

#[test]
fn the_layout_spans_every_monitor() {
    let layout = output_layout(&geometries(&dual_head())).expect("two outputs are mapped");
    assert_eq!(layout.loc, point(0, 0));
    assert_eq!(layout.size, size(5120, 1440));
}

#[test]
fn the_layout_covers_monitors_in_any_arrangement() {
    let desktop = desktop(vec![
        screen(1, (0, 0), (2560, 1440)),
        screen(2, (-1920, 1440), (1920, 1080)),
    ]);
    let layout = output_layout(&geometries(&desktop)).expect("two outputs are mapped");
    assert_eq!(layout.loc, point(-1920, 0));
    assert_eq!(layout.size, size(4480, 2520));
}

#[test]
fn a_session_with_no_outputs_has_no_layout() {
    assert!(output_layout(&[]).is_none());
}

#[test]
fn pointer_moves_freely_between_adjacent_monitors() {
    let geometries = geometries(&dual_head());
    let just_left = spot(2559.0, 700.0);
    let just_right = spot(2561.0, 700.0);
    assert_eq!(clamp_to_outputs(&geometries, just_left), just_left);
    assert_eq!(clamp_to_outputs(&geometries, just_right), just_right);
}

#[test]
fn pointer_cannot_wander_off_the_far_edge() {
    let geometries = geometries(&dual_head());
    let escaped = clamp_to_outputs(&geometries, spot(99_999.0, 700.0));
    assert_eq!(escaped, spot(5119.0, 700.0));
    let above = clamp_to_outputs(&geometries, spot(100.0, -500.0));
    assert_eq!(above, spot(100.0, 0.0));
}

#[test]
fn a_tablet_spans_every_monitor() {
    let left = Rect::new(point(-1920, 0), size(1920, 1080));
    let right = Rect::new(point(0, 0), size(2560, 1440));
    let both = [right, left];
    assert_eq!(absolute_position(&both, 0, 0), Some(spot(-1920.0, 0.0)));
    assert_eq!(absolute_position(&both, WHOLE / 2, WHOLE / 2), Some(spot(320.0, 720.0)));
    // The far corner is just past the last pixel, and the lower left is where no monitor is.
    assert_eq!(absolute_position(&both, WHOLE, WHOLE), Some(spot(2559.0, 1439.0)));
    assert_eq!(absolute_position(&both, 0, WHOLE), Some(spot(-1920.0, 1079.0)));
    assert_eq!(absolute_position(&[], 0, 0), None);
}

#[test]
fn clamping_without_outputs_is_a_no_op() {
    let anywhere = spot(42.0, 42.0);
    assert_eq!(clamp_to_outputs(&[], anywhere), anywhere);
}

#[test]
fn work_area_covers_the_output_when_nothing_is_reserved() {
    let area = area_of(&dual_head(), RIGHT);
    assert_eq!(area.loc.x, 2560);
    assert_eq!(area.size.w, 2560);
    assert_eq!(area.size.h, 1440);
}

#[test]
fn the_greeter_is_recognized_and_centered() {
    assert_eq!(
        default_placement("com.wlrix.greeter"),
        Some(Placement::Centered)
    );
}

#[test]
fn centring_lands_in_the_middle_of_its_own_monitor() {
    let area = area_of(&dual_head(), RIGHT);
    let pos = frame_position(Placement::Centered, area, size(800, 600));
    assert_eq!(pos.x, 2560 + 880);
    assert_eq!(pos.y, 420);
}

#[test]
fn an_oversized_greeter_still_starts_on_screen() {
    let area = area_of(&dual_head(), LEFT);
    let pos = frame_position(Placement::Centered, area, size(4000, 2000));
    assert_eq!(pos, area.loc);
}

const INSET: Point = Point { x: 3, y: 24 };

fn as_asked(client: (i32, i32), area: Rect, dims: (i32, i32)) -> Point {
    let frame_size = size(dims.0 + INSET.x * 2, dims.1 + INSET.y + INSET.x);
    let position = frame_position(
        Placement::Frame(point(client.0 - INSET.x, client.1 - INSET.y)),
        area,
        frame_size,
    );
    let kept = clamp_frame(position, frame_size, area);
    point(kept.x + INSET.x, kept.y + INSET.y)
}

#[test]
fn a_dialog_opens_centered_on_the_window_that_opened_it() {
    let parent = Rect::new(point(400, 300), size(1000, 800));
    let pos = frame_position(Placement::CenteredOn(parent), first_area(), size(400, 200));
    assert_eq!(pos.x, 400 + 300);
    assert_eq!(pos.y, 300 + 300);
}

#[test]
fn a_dialog_follows_its_parent_to_the_second_monitor() {
    let area = area_of(&dual_head(), RIGHT);
    let parent = Rect::new(point(2560 + 200, 100), size(1200, 900));
    let dims = size(500, 300);
    let pos = clamp_frame(
        frame_position(Placement::CenteredOn(parent), area, dims),
        dims,
        area,
    );
    assert!(
        pos.x >= 2560,
        "the dialog belongs on its parent's monitor, got {pos:?}"
    );
    assert_eq!(pos.x, 2560 + 200 + 350);
    assert_eq!(pos.y, 100 + 300);
}

#[test]
fn a_dialog_larger_than_its_parent_still_starts_on_screen() {
    let area = first_area();
    let parent = Rect::new(point(40, 40), size(300, 200));
    let dims = size(900, 700);
    let pos = clamp_frame(
        frame_position(Placement::CenteredOn(parent), area, dims),
        dims,
        area,
    );
    assert_eq!(pos, point(40, 40));
}

#[test]
fn an_x11_window_that_asks_for_a_position_gets_it() {
    assert_eq!(as_asked((900, 500), first_area(), (640, 480)), point(900, 500));
    assert_eq!(requested_position(true, point(900, 500)), Some(point(900, 500)));
    assert_eq!(requested_position(true, point(0, 0)), None);
    assert_eq!(requested_position(false, point(900, 500)), None);
}

#[test]
fn a_window_is_told_by_what_its_client_says() {
    let w = Window::new(7, Shell::X11, size(640, 480), Desk::Ordinary(1));
    assert!(!w.placed && w.customary.is_none() && w.requested.is_none());
    let hints = Hints {
        app_id: Some("com.wlrix.toolchest"),
        names_position: true,
        configured: point(30, 40),
    };
    let told = w.describe(&hints);
    assert_eq!(told.customary, default_placement("com.wlrix.toolchest"));
    assert_eq!(told.requested, Some(point(30, 40)));
    let silent = Hints { app_id: None, names_position: false, ..hints };
    assert_eq!(told.describe(&silent), w);
    // A Wayland client cannot ask.
    let wayland = Window::new(8, Shell::Wayland, size(640, 480), Desk::Ordinary(1));
    assert_eq!(wayland.describe(&hints).requested, None);
}

#[test]
fn a_window_cannot_ask_to_open_above_its_own_titlebar() {
    let pos = as_asked((900, 0), first_area(), (640, 480));
    assert_eq!(pos.x, 900, "x was reachable and should be untouched");
    assert_eq!(pos.y, INSET.y, "the titlebar has to be on screen");
}

#[test]
fn a_window_cannot_ask_to_open_past_the_far_edge() {
    let area = first_area();
    let pos = as_asked((9_000, 9_000), area, (640, 480));
    assert!(pos.x < area.size.w && pos.y < area.size.h, "got {pos:?}");
    assert_eq!(pos.x, area.size.w - 640 - INSET.x);
    assert_eq!(pos.y, area.size.h - 480 - INSET.x);
}

#[test]
fn a_window_maximized_before_it_drew_opens_at_the_work_areas_origin() {
    let area = area_of(&dual_head(), RIGHT);
    let pos = frame_position(Placement::Frame(area.loc), area, area.size);
    assert_eq!(pos, area.loc);
    assert_eq!(clamp_frame(pos, area.size, area), area.loc);
}

#[test]
fn the_cascade_wraps_round() {
    let area = first_area();
    let dims = size(640, 480);
    assert_eq!(frame_position(Placement::Cascade(0), area, dims), area.loc);
    assert_eq!(
        frame_position(Placement::Cascade(1), area, dims),
        point(area.loc.x + CASCADE_STEP, area.loc.y + CASCADE_STEP)
    );
    assert_eq!(
        frame_position(Placement::Cascade(CASCADE_WRAP), area, dims),
        frame_position(Placement::Cascade(0), area, dims)
    );
}

#[test]
fn the_toolchest_keeps_a_titlebar_and_the_greeter_gets_nothing() {
    assert_eq!(
        shell_frame("com.wlrix.toolchest"),
        Some(ShellFrame::TitlebarOnly)
    );
    assert_eq!(shell_frame("com.wlrix.greeter"), Some(ShellFrame::Bare));
}

#[test]
fn everything_else_is_framed_like_an_ordinary_window() {
    for app_id in ["com.wlrix.desks", "org.mozilla.firefox", "", "com.wlrix"] {
        assert_eq!(shell_frame(app_id), None, "{app_id}");
    }
}

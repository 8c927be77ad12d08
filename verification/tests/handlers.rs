use wlrix_compositor::geometry::{Insets, Point, Rect, Size, Spot};
use wlrix_compositor::handlers::clients::{accepts_buffer, honors_constraint, CursorState};
use wlrix_compositor::handlers::layer_shell::{
    close_layers_on, focusable_layer_under, handle_commit, layer_covers_windows_at,
    layer_destroyed, place_layer, take_exclusive_focus, LayerStep, LayersUnder,
};
use wlrix_compositor::handlers::xdg_shell::{check_grab, popup_bounds, GrabFacts};
use wlrix_compositor::handlers::xwayland::{configure_request, resize_edge, ResizeEdge, X11Edge};
use wlrix_compositor::minimized::IconMetrics;
use wlrix_compositor::placement::is_placed;
use wlrix_compositor::state::{
    Desk, Effect, Mapped, Screen, Shell, Window, WindowState, Wlrix,
};
use wlrix_compositor::x11_menu::position_of;

const DP4: u64 = 4;
const DP5: u64 = 5;

#[test]
fn an_output_the_client_asked_for_is_honored() {
    let live = vec![DP4, DP5];
    let (chosen, passed_over) = place_layer(Some(DP5), &live);
    assert_eq!(chosen, Some(DP5));
    assert!(!passed_over, "DP-5 is live, so nothing was passed over");
}

#[test]
fn an_output_that_has_gone_is_passed_over_for_one_that_has_not() {
    let live = vec![DP5];
    let (chosen, passed_over) = place_layer(Some(DP4), &live);
    assert_eq!(chosen, Some(live[0]));
    assert!(passed_over, "the log needs to say the choice was overridden");
}

#[test]
fn asking_for_no_output_takes_the_first_one_quietly() {
    let live = vec![DP4, DP5];
    let (chosen, passed_over) = place_layer(None, &live);
    assert_eq!(chosen, Some(live[0]));
    assert!(!passed_over);
}

#[test]
fn with_every_output_gone_there_is_nowhere_to_map() {
    let (chosen, passed_over) = place_layer(Some(DP4), &[]);
    assert_eq!(chosen, None);
    assert!(passed_over);
}

#[test]
fn a_layer_surface_is_arranged_before_it_is_configured() {
    assert_eq!(handle_commit(None, 1, false, None, None), vec![]);
    assert_eq!(
        handle_commit(Some(DP4), 1, false, None, None),
        vec![LayerStep::Arrange { output: DP4 }, LayerStep::Configure { surface: 1 }]
    );
    assert_eq!(
        handle_commit(Some(DP4), 1, true, Some(1), Some(9)),
        vec![LayerStep::Arrange { output: DP4 }, LayerStep::Focus { surface: 1 }]
    );
    assert_eq!(take_exclusive_focus(Some(1), Some(1)), None);
    assert_eq!(take_exclusive_focus(Some(1), None), Some(1));
    assert_eq!(take_exclusive_focus(None, Some(1)), None);
}

#[test]
fn focus_does_not_stay_on_a_layer_surface_that_is_gone() {
    assert_eq!(layer_destroyed(false, 1, Some(1)), vec![]);
    assert_eq!(
        layer_destroyed(true, 1, Some(1)),
        vec![LayerStep::Unmap { surface: 1 }, LayerStep::FocusTopmost, LayerStep::Redraw]
    );
    assert_eq!(
        layer_destroyed(true, 1, Some(2)),
        vec![LayerStep::Unmap { surface: 1 }, LayerStep::Redraw]
    );
    assert_eq!(
        close_layers_on(&[1, 2], Some(2)),
        vec![
            LayerStep::Close { surface: 1 },
            LayerStep::Unmap { surface: 1 },
            LayerStep::Close { surface: 2 },
            LayerStep::Unmap { surface: 2 },
            LayerStep::FocusTopmost,
        ]
    );
    assert_eq!(close_layers_on(&[], Some(2)), vec![]);
}

#[test]
fn an_inert_backdrop_does_not_take_the_keyboard() {
    let under = LayersUnder {
        overlay: None,
        top: Some((1, false)),
        bottom: None,
        background: Some((2, true)),
    };
    assert_eq!(focusable_layer_under(Some(under)), Some(2));
    assert!(layer_covers_windows_at(Some(under)));
    let low = LayersUnder { top: None, ..under };
    assert!(!layer_covers_windows_at(Some(low)));
    assert!(!layer_covers_windows_at(None));
    assert_eq!(focusable_layer_under(None), None);
}

fn point(x: i32, y: i32) -> Point {
    Point { x, y }
}

/// Two 2560x1440 monitors side by side, and a window on the right-hand one.
fn first_output() -> Rect {
    Rect::new(point(0, 0), Size { w: 2560, h: 1440 })
}

fn second_output() -> Rect {
    Rect::new(point(2560, 0), Size { w: 2560, h: 1440 })
}

fn window_on_second() -> Point {
    point(2703, 126)
}

#[test]
fn a_popup_may_open_inside_a_window_on_the_second_monitor() {
    let bounds = popup_bounds(second_output(), window_on_second(), point(0, 0));
    assert!(
        bounds.contains(point(10, 10)),
        "a point just inside the window should be allowed, got {bounds:?}"
    );
}

#[test]
fn the_wrong_output_puts_the_whole_window_out_of_bounds() {
    let bounds = popup_bounds(first_output(), window_on_second(), point(0, 0));
    assert!(!bounds.contains(point(10, 10)));
    // Off to the left of the window, which is why the menu ended up against the far edge.
    assert!(bounds.loc.x + bounds.size.w < 0);
}

#[test]
fn a_window_on_the_first_monitor_is_unaffected() {
    let bounds = popup_bounds(first_output(), point(344, 8), point(0, 0));
    assert!(bounds.contains(point(10, 10)));
}

#[test]
fn the_parent_surface_offset_shifts_the_bounds() {
    let flat = popup_bounds(second_output(), window_on_second(), point(0, 0));
    let nested = popup_bounds(second_output(), window_on_second(), point(40, 25));
    assert_eq!(nested.loc, point(flat.loc.x - 40, flat.loc.y - 25));
    assert_eq!(nested.size, flat.size);
}

fn edges(top: bool, bottom: bool, left: bool, right: bool) -> ResizeEdge {
    ResizeEdge { top, bottom, left, right }
}

#[test]
fn every_x11_resize_edge_maps_to_the_same_edge() {
    for (x11, expected) in [
        (X11Edge::Top, edges(true, false, false, false)),
        (X11Edge::Bottom, edges(false, true, false, false)),
        (X11Edge::Left, edges(false, false, true, false)),
        (X11Edge::Right, edges(false, false, false, true)),
        (X11Edge::TopLeft, edges(true, false, true, false)),
        (X11Edge::TopRight, edges(true, false, false, true)),
        (X11Edge::BottomLeft, edges(false, true, true, false)),
        (X11Edge::BottomRight, edges(false, true, false, true)),
    ] {
        assert_eq!(resize_edge(x11), expected, "{x11:?}");
    }
}

#[test]
fn the_position_is_the_second_and_third_words_and_not_the_first() {
    assert_eq!(position_of([13, 880, 231, 0, 0]), point(880, 231));
}

#[test]
fn a_position_is_read_as_signed() {
    assert_eq!(
        position_of([13, (-40i32) as u32, (-12i32) as u32, 0, 0]),
        point(-40, -12)
    );
}

#[test]
fn an_x11_client_gets_its_size_but_not_its_position() {
    let geometry = Rect::new(point(5, 6), Size { w: 100, h: 80 });
    let answer = configure_request(geometry, Some(640), None);
    assert_eq!(answer, Rect::new(point(5, 6), Size { w: 640, h: 80 }));
    assert_eq!(configure_request(geometry, None, None), geometry);
}

#[test]
fn a_drag_needs_a_click_of_the_clients_own() {
    assert!(!check_grab(None));
    assert!(!check_grab(Some(GrabFacts { has_grab: false, start_focus: Some(true) })));
    assert!(!check_grab(Some(GrabFacts { has_grab: true, start_focus: None })));
    assert!(!check_grab(Some(GrabFacts { has_grab: true, start_focus: Some(false) })));
    assert!(check_grab(Some(GrabFacts { has_grab: true, start_focus: Some(true) })));
}

#[test]
fn a_grab_keeps_the_cursor_it_shows() {
    let mut cursor = CursorState { grab: Some(3), status: 3, from_chrome: true };
    cursor.cursor_image(9);
    assert_eq!(cursor, CursorState { grab: Some(3), status: 3, from_chrome: true });
    cursor.grab = None;
    cursor.cursor_image(9);
    assert_eq!(cursor, CursorState { grab: None, status: 9, from_chrome: false });
    assert!(honors_constraint(Some(1), 1) && !honors_constraint(Some(2), 1));
    assert!(accepts_buffer(None) && accepts_buffer(Some(true)) && !accepts_buffer(Some(false)));
}

fn window(id: u64, shell: Shell) -> Window {
    Window {
        id,
        shell,
        z: 0,
        size: Size { w: 200, h: 100 },
        insets: Insets { left: 8, top: 38, right: 8, bottom: 8 },
        minimizable: true,
        maximizable: true,
        customary: None,
        parent: None,
        requested: None,
        home: None,
        placed: false,
        state: WindowState {
            desk: Desk::Ordinary(1),
            minimized: false,
            maximized: false,
            fullscreen: false,
            restore_geo: None,
            pre_fullscreen: None,
            last_pos: point(0, 0),
            icon_slot: None,
            needs_thumbnail: false,
            has_thumbnail: false,
        },
    }
}

fn desktop() -> Wlrix {
    let mut desktop = Wlrix::new(
        Desk::Ordinary(1),
        vec![Desk::Global, Desk::Ordinary(1), Desk::Ordinary(2)],
        IconMetrics { margin: 8, tile_w: 93, tile_h: 99 },
    );
    desktop.screens.push(Screen {
        id: DP4,
        geometry: Some(first_output()),
        zone: Rect::new(point(0, 0), Size { w: 2560, h: 1440 }),
    });
    desktop.pointer = Spot { x: 25600, y: 25600 };
    desktop
}

#[test]
fn an_x11_window_is_placed_told_and_given_the_keyboard() {
    let mut desktop = desktop();
    let effects = desktop.map_window_request(window(1, Shell::X11), Desk::Ordinary(2));
    let w = desktop.window(1).unwrap();
    assert!(w.placed);
    assert_eq!(w.state.desk, Desk::Ordinary(2));
    let at = desktop.element_location(1).unwrap();
    assert_eq!(effects.first(), Some(&Effect::Show {
        window: 1,
        at: point(0, 0),
        activate: true
    }));
    assert!(effects.contains(&Effect::Focus { window: 1 }));
    assert!(effects.contains(&Effect::X11Configure {
        window: 1,
        geometry: Rect::new(at, Size { w: 200, h: 100 }),
    }));
    assert_eq!(effects.last(), Some(&Effect::Redraw));
    assert!(desktop.grabbable(1, false, Some(1)));
    assert!(!desktop.grabbable(1, true, Some(1)), "something else holds the pointer");
    assert!(!desktop.grabbable(1, false, None), "it has not the keyboard");
    assert!(desktop.allow_selection_access(Some(1), &[1]));
    assert!(!desktop.allow_selection_access(Some(1), &[2]));
    assert!(!desktop.allow_selection_access(None, &[1]));
    // The X server moves it.
    let moved = desktop.configure_notify(1, point(300, 300));
    assert_eq!(desktop.element_location(1), Some(point(300, 300)));
    assert_eq!(moved.last(), Some(&Effect::Redraw));
    assert_eq!(desktop.configure_notify(99, point(0, 0)), vec![]);
}

#[test]
fn a_menu_of_an_x11_client_goes_where_it_asks() {
    let mut desktop = desktop();
    desktop.mapped_override_redirect_window(window(5, Shell::X11), point(77, 88));
    assert_eq!(desktop.element_location(5), Some(point(77, 88)));
}

#[test]
fn a_window_that_is_gone_is_nowhere() {
    let mut desktop = desktop();
    desktop.windows.push(window(1, Shell::Wayland));
    desktop.windows.push(window(2, Shell::Wayland));
    desktop.stack.push(Mapped { id: 1, z: 0, loc: point(10, 10) });
    desktop.hidden.push(2);
    assert_eq!(desktop.window_for_toplevel(2).map(|w| w.id), Some(2), "it is held aside");
    assert_eq!(desktop.window_for_toplevel(3).map(|w| w.id), None);
    let (known, effects) = desktop.toplevel_destroyed(2);
    assert!(known, "it is held aside");
    assert_eq!(
        effects,
        vec![
            Effect::Unmap { window: 2 },
            Effect::FocusTopmost,
            Effect::DesksChanged,
            Effect::Redraw
        ]
    );
    assert!(desktop.hidden.is_empty() && desktop.window(2).is_none());
    assert_eq!(desktop.element_location(1), Some(point(10, 10)));
    let (known, _) = desktop.toplevel_destroyed(2);
    assert!(!known);
    let (known, effects) = desktop.unmapped_window(1, false);
    assert!(known && effects.contains(&Effect::X11Mapped { window: 1, on: false }));
    assert!(desktop.stack.is_empty());
}

#[test]
fn a_toplevel_is_placed_once_its_size_is_known() {
    let mut desktop = desktop();
    let mut w = window(1, Shell::Wayland);
    w.size = Size { w: 0, h: 0 };
    desktop.windows.push(w);
    let outcome = desktop.handle_commit(1, false);
    assert!(outcome.configure && outcome.placed.is_none());
    w.size = Size { w: 200, h: 100 };
    desktop.set_window(w);
    let outcome = desktop.handle_commit(1, true);
    assert!(!outcome.configure && outcome.placed.is_some());
    assert!(!is_placed(&w) && is_placed(&desktop.window(1).unwrap()));
    assert!(desktop.handle_commit(1, true).placed.is_none(), "a window is placed once");
    assert_eq!(
        desktop.resize_start(1).map(|r| r.size),
        Some(Size { w: 200, h: 100 })
    );
    let at = desktop.element_location(1).unwrap();
    assert_eq!(
        desktop.unconstrain_popup(1, point(0, 0)),
        Some(popup_bounds(first_output(), at, point(0, 0)))
    );
    assert_eq!(desktop.unconstrain_popup(9, point(0, 0)), None);
    assert_eq!(desktop.request_activation(9), vec![]);
    assert_eq!(
        desktop.request_activation(1),
        vec![Effect::Raise { window: 1, activate: true }, Effect::Redraw]
    );
}

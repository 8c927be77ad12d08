use wlrix_compositor::geometry::{Insets, Point, Rect, Size};
use wlrix_compositor::minimized::IconMetrics;
use wlrix_compositor::render::{
    drawn_extent, draws_in_front, output_elements, place_icon_label, place_menu_accel,
    place_menu_label, place_title, Draw, Framing, Layer, LayerSurface, Surroundings, TextBox,
    WindowFacts,
};
use wlrix_compositor::session_lock::LockState;
use wlrix_compositor::state::{
    Desk, Mapped, Screen, Shell, Window, WindowState, Wlrix,
};
use wlrix_compositor::theme_export::FramePart;

#[test]
fn panels_draw_over_windows_and_wallpaper_draws_under() {
    for layer in [Layer::Overlay, Layer::Top] {
        assert!(draws_in_front(layer, false), "{layer:?}");
    }
    for layer in [Layer::Bottom, Layer::Background] {
        assert!(!draws_in_front(layer, false), "{layer:?}");
    }
}

#[test]
fn a_fullscreen_window_covers_the_top_layer() {
    assert!(!draws_in_front(Layer::Top, true));
}

#[test]
fn even_a_fullscreen_window_stays_under_the_overlay_layer() {
    assert!(draws_in_front(Layer::Overlay, true));
}

#[test]
fn fullscreen_does_not_disturb_the_layers_already_underneath() {
    for layer in [Layer::Bottom, Layer::Background] {
        assert_eq!(draws_in_front(layer, true), draws_in_front(layer, false), "{layer:?}");
    }
}

fn rect(x: i32, y: i32, w: i32, h: i32) -> Rect {
    Rect::new(Point { x, y }, Size { w, h })
}

fn layers() -> Vec<LayerSurface> {
    vec![
        LayerSurface { id: 1, layer: Layer::Background, placed: true },
        LayerSurface { id: 2, layer: Layer::Top, placed: true },
        LayerSurface { id: 3, layer: Layer::Overlay, placed: true },
        LayerSurface { id: 4, layer: Layer::Top, placed: false },
    ]
}

const DP1: u64 = 1;

fn point(x: i32, y: i32) -> Point {
    Point { x, y }
}

fn window(id: u64, fullscreen: bool) -> Window {
    Window {
        id,
        shell: Shell::Wayland,
        z: 0,
        size: Size { w: 400, h: 300 },
        insets: Insets { left: 8, top: 38, right: 8, bottom: 8 },
        minimizable: true,
        maximizable: true,
        customary: None,
        parent: None,
        requested: None,
        home: Some(DP1),
        placed: true,
        state: WindowState {
            desk: Desk::Ordinary(1),
            minimized: false,
            maximized: id == 11,
            fullscreen,
            restore_geo: None,
            pre_fullscreen: None,
            last_pos: point(0, 0),
            icon_slot: None,
            needs_thumbnail: false,
            has_thumbnail: false,
        },
    }
}

fn facts(window: u64) -> WindowFacts {
    WindowFacts {
        window,
        framing: Framing::Framed { titlebar: true },
        margin: point(0, 0),
        bounds: rect(0, 0, 400, 300),
        popups: vec![],
    }
}

/// One 1280x800 screen at (100, 0), and windows on it.
fn desktop(windows: &[Window]) -> Wlrix {
    let mut desktop = Wlrix::new(
        Desk::Ordinary(1),
        vec![Desk::Ordinary(1)],
        IconMetrics { margin: 8, tile_w: 90, tile_h: 100 },
    );
    desktop.screens.push(Screen {
        id: DP1,
        geometry: Some(rect(100, 0, 1280, 800)),
        zone: rect(0, 0, 1280, 800),
    });
    for w in windows {
        desktop.windows.push(*w);
        desktop.stack.push(Mapped { id: w.id, z: 0, loc: point(200, 100) });
    }
    desktop
}

fn around<'a>(layers: &'a [LayerSurface], windows: &'a [WindowFacts]) -> Surroundings<'a> {
    Surroundings {
        include_cursor: false,
        outline: false,
        layers,
        windows,
        keyboard: Some(11),
        pressed: Some((11, FramePart::MenuButton)),
    }
}

fn drawn(desktop: &Wlrix, lock: &LockState, around: &Surroundings) -> Vec<Draw> {
    output_elements(desktop, lock, DP1, &"DP-1".to_string(), around)
}

fn at(list: &[Draw], what: Draw) -> usize {
    list.iter().position(|d| *d == what).unwrap_or_else(|| panic!("{what:?} is not drawn"))
}

#[test]
fn a_locked_session_draws_the_lock_and_nothing_else() {
    let layers = layers();
    let facts = [facts(10)];
    let desktop = desktop(&[window(10, false)]);
    let mut around = around(&layers, &facts);
    around.include_cursor = true;
    let mut lock = LockState::new();
    assert_eq!(drawn(&desktop, &lock, &around)[0], Draw::Cursor);
    lock.begin(1);
    assert_eq!(drawn(&desktop, &lock, &around), vec![Draw::LockFill]);
    lock.add_surface("DP-2".to_string(), None, 1, 6);
    assert_eq!(drawn(&desktop, &lock, &around), vec![Draw::LockFill], "of another output");
    lock.add_surface("DP-1".to_string(), None, 1, 7);
    assert_eq!(
        drawn(&desktop, &lock, &around),
        vec![Draw::LockSurface { surface: 7 }, Draw::LockFill]
    );
}

#[test]
fn windows_are_drawn_between_the_layers() {
    let layers = layers();
    let facts = [facts(10), facts(11)];
    let desktop = desktop(&[window(10, false), window(11, false)]);
    let list = drawn(&desktop, &LockState::new(), &around(&layers, &facts));
    let overlay = at(&list, Draw::Surface { layer_surface: 3 });
    let top = at(&list, Draw::Surface { layer_surface: 2 });
    let upper = at(&list, Draw::Client { window: 11, at: point(100, 100) });
    let lower = at(&list, Draw::Client { window: 10, at: point(100, 100) });
    let background = at(&list, Draw::Surface { layer_surface: 1 });
    assert!(overlay < top && top < upper && upper < lower && lower < background);
    assert!(!list.contains(&Draw::Surface { layer_surface: 4 }), "it has no place yet");
    let frame = at(
        &list,
        Draw::Frame {
            window: 11,
            active: true,
            maximized: true,
            held: Some(FramePart::MenuButton),
        },
    );
    assert!(at(&list, Draw::Title { window: 11, active: true }) < frame);
    assert!(frame < lower);
    at(&list, Draw::Frame { window: 10, active: false, maximized: false, held: None });
}

#[test]
fn a_client_starts_before_the_margin_it_keeps() {
    let mut facts = [facts(10)];
    facts[0].margin = point(12, 20);
    let desktop = desktop(&[window(10, false)]);
    let list = drawn(&desktop, &LockState::new(), &around(&[], &facts));
    at(&list, Draw::Client { window: 10, at: point(200 - 12 - 100, 100 - 20) });
}

#[test]
fn a_window_beside_the_output_is_drawn_for_its_popup() {
    let mut desktop = desktop(&[window(10, false)]);
    desktop.stack[0].loc = point(1500, 100);
    let mut facts = [facts(10)];
    assert!(drawn(&desktop, &LockState::new(), &around(&[], &facts)).is_empty());
    facts[0].popups.push((point(-300, 0), Size { w: 50, h: 50 }));
    let list = drawn(&desktop, &LockState::new(), &around(&[], &facts));
    at(&list, Draw::Client { window: 10, at: point(1400, 100) });
}

#[test]
fn a_fullscreen_window_is_drawn_over_the_panel() {
    let layers = layers();
    let facts = [facts(10)];
    let mut desktop = desktop(&[window(10, true)]);
    let list = drawn(&desktop, &LockState::new(), &around(&layers, &facts));
    let client = at(&list, Draw::Client { window: 10, at: point(100, 100) });
    assert!(client < at(&list, Draw::Surface { layer_surface: 2 }));
    assert!(at(&list, Draw::Surface { layer_surface: 3 }) < client);
    assert!(!list.iter().any(|d| matches!(d, Draw::Frame { .. })), "it has no frame");
    // On another output it leaves the panel alone.
    desktop.stack[0].loc = point(-3000, 0);
    let list = drawn(&desktop, &LockState::new(), &around(&layers, &facts));
    assert_eq!(list[1], Draw::Surface { layer_surface: 2 });
}

#[test]
fn icons_are_drawn_in_their_cells() {
    let mut icon = window(20, false);
    icon.state.minimized = true;
    icon.state.icon_slot = Some(2);
    icon.state.has_thumbnail = true;
    let mut desktop = desktop(&[]);
    desktop.windows.push(icon);
    desktop.hidden.push(20);
    let list = drawn(&desktop, &LockState::new(), &around(&[], &[]));
    let tile = desktop.icon_grid().unwrap().slot_rect(2);
    let label = at(&list, Draw::IconLabel { window: 20, tile });
    let picture = at(&list, Draw::IconThumbnail { window: 20, tile });
    let face = at(&list, Draw::IconTile { window: 20, tile });
    assert!(label < face && picture < face);
    // They are on the first output alone.
    let second = Screen { id: 2, geometry: Some(rect(1380, 0, 800, 600)), zone: rect(0, 0, 800, 600) };
    desktop.screens.push(second);
    let around = around(&[], &[]);
    let other = output_elements(&desktop, &LockState::new(), 2, &"DP-2".to_string(), &around);
    assert!(other.is_empty());
}

#[test]
fn a_window_draws_its_frame_and_its_popups() {
    let geometry = rect(100, 100, 200, 150);
    let insets = Insets { left: 8, top: 38, right: 8, bottom: 8 };
    assert_eq!(drawn_extent(geometry, None, &[]), geometry);
    assert_eq!(drawn_extent(geometry, Some(insets), &[]), rect(92, 62, 216, 196));
    let popup = (Point { x: 150, y: 120 }, Size { w: 300, h: 400 });
    assert_eq!(drawn_extent(geometry, Some(insets), &[popup]), rect(92, 62, 458, 558));
}

#[test]
fn text_is_centered_up_and_down_and_cropped_across() {
    let row = rect(10, 20, 150, 22);
    assert_eq!(
        place_menu_label(row, 14, Size { w: 60, h: 16 }),
        Some(TextBox { x: 24, y: 23, visible: 60 })
    );
    assert_eq!(
        place_menu_label(row, 14, Size { w: 500, h: 16 }),
        Some(TextBox { x: 24, y: 23, visible: 136 })
    );
    assert_eq!(place_menu_label(rect(10, 20, 14, 22), 14, Size { w: 60, h: 16 }), None);
    // The accelerator ends where the inset begins.
    assert_eq!(
        place_menu_accel(row, 14, Size { w: 40, h: 16 }),
        Some(TextBox { x: 106, y: 23, visible: 40 })
    );
    // A caption is in the middle of its bar.
    assert_eq!(
        place_icon_label(rect(0, 0, 90, 20), Size { w: 50, h: 16 }),
        Some(TextBox { x: 20, y: 2, visible: 50 })
    );
    assert_eq!(
        place_title(rect(40, 0, 200, 30), 50, Size { w: 300, h: 16 }),
        Some(TextBox { x: 50, y: 7, visible: 190 })
    );
}

use wlrix_compositor::geometry::{Insets, Point, Rect, Size, Spot};
use wlrix_compositor::keybinds::{key_named, Action, Bindings, Combo, DEFAULTS};
use wlrix_compositor::menu::{
    entries_for, measure_width, menu_state, panel_rect, row_rect, Entry, KeyNames, MenuAction,
    MenuClick, WindowMenu, ACCEL_GAP, ITEM_H, LABEL_INSET, MARGIN, MIN_WIDTH, SEPARATOR_H,
};
use wlrix_compositor::minimized::IconMetrics;
use wlrix_compositor::render::{output_elements, Draw, Surroundings};
use wlrix_compositor::session_lock::LockState;
use wlrix_compositor::state::{Desk, Effect, Screen, Shell, Window, WindowState, Wlrix};

fn keysym(name: &str) -> u32 {
    let name = name.to_ascii_lowercase();
    if name.len() == 1 {
        return name.chars().next().unwrap() as u32;
    }
    match name.as_str() {
        "space" => 0x20,
        "plus" => 0x2b,
        "backspace" => 0xff08,
        "up" => 0xff52,
        "down" => 0xff54,
        "print" => 0xff61,
        _ => match name.strip_prefix('f').and_then(|n| n.parse::<u32>().ok()) {
            Some(n) if (1..=35).contains(&n) => 0xffbe + n - 1,
            _ => 0,
        },
    }
}

fn combo(text: &str) -> Combo {
    let sym = key_named(text).map(|key| keysym(&key)).unwrap_or(0);
    Combo::from_str(text, sym).expect(text)
}

fn resolve(configured: &[(Combo, Option<Action>)]) -> Bindings {
    let syms: Vec<u32> =
        DEFAULTS.iter().map(|(keys, _)| keysym(&key_named(keys).unwrap())).collect();
    Bindings::resolve(&syms, configured)
}

fn names() -> KeyNames {
    let mut names = KeyNames::new();
    for n in 1..=12u32 {
        names.insert(0xffbe + n - 1, format!("F{n}"));
    }
    names.insert(0xff08, "BackSpace".to_string());
    for c in 'a'..='z' {
        names.insert(c as u32, c.to_string());
    }
    names
}

fn area() -> Rect {
    Rect::new(Point { x: 0, y: 0 }, Size { w: 1280, h: 800 })
}

fn point(x: i32, y: i32) -> Point {
    Point { x, y }
}

fn spot(x: f64, y: f64) -> Spot {
    Spot { x: (x * 256.0) as i64, y: (y * 256.0) as i64 }
}

#[test]
fn a_menu_is_clamped_onto_the_output() {
    let panel = Size { w: 156, h: 200 };
    // Well inside: unchanged.
    assert_eq!(WindowMenu::clamp(point(100, 100), panel, area()), point(100, 100));
    // Off the right and bottom edges: pulled back so the whole panel fits.
    assert_eq!(WindowMenu::clamp(point(1270, 790), panel, area()), point(1280 - 156, 800 - 200));
    // Off the top-left: pushed back to the area's origin.
    assert_eq!(WindowMenu::clamp(point(-50, -50), panel, area()), point(0, 0));
}

/// The same rows a real menu has, built without needing a window.
fn entries() -> Vec<Entry> {
    let bindings = resolve(&[]);
    vec![
        Entry::item(MenuAction::Restore, "Restore", false, &bindings, &names()),
        Entry::item(MenuAction::Move, "Move", true, &bindings, &names()),
        Entry::separator(),
        Entry::item(MenuAction::Close, "Close", true, &bindings, &names()),
    ]
}

#[test]
fn rows_stack_in_order_inside_the_panel() {
    let origin = point(10, 20);
    let rows = entries();
    let panel = panel_rect(&rows, origin, MIN_WIDTH);
    assert_eq!(panel.loc, origin);
    // Two items, a separator and one more item, plus the top and bottom margins.
    assert_eq!(panel.size.h, ITEM_H * 3 + SEPARATOR_H + 2 * MARGIN);

    let first = row_rect(&rows, origin, MIN_WIDTH, 0);
    let second = row_rect(&rows, origin, MIN_WIDTH, 1);
    assert_eq!(first.loc, point(origin.x + MARGIN, origin.y + MARGIN));
    assert_eq!(second.loc.y, first.loc.y + ITEM_H);
    // Every row sits within the panel's width.
    for index in 0..rows.len() {
        let row = row_rect(&rows, origin, MIN_WIDTH, index);
        assert!(row.loc.x >= panel.loc.x);
        assert!(row.loc.x + row.size.w <= panel.loc.x + panel.size.w);
    }
    // The separator is shorter than an item row.
    assert_eq!(row_rect(&rows, origin, MIN_WIDTH, 2).size.h, SEPARATOR_H);
}

#[test]
fn items_are_labelled_with_the_key_bound_to_them() {
    let rows = entries();
    assert_eq!(rows[0].accel.as_deref(), Some("Alt+F5"), "Restore");
    assert_eq!(rows[1].accel.as_deref(), Some("Alt+F7"), "Move");
    assert!(rows[2].is_separator());
    assert_eq!(rows[2].accel, None, "a separator has no accelerator");
    assert_eq!(rows[3].accel.as_deref(), Some("Alt+F4"), "Close");
}

#[test]
fn a_rebound_item_prints_its_new_key() {
    let close = Action::Window(MenuAction::Close);
    let bindings = resolve(&[(combo("Alt+F4"), None), (combo("Ctrl+Shift+W"), Some(close))]);
    let entry = Entry::item(MenuAction::Close, "Close", true, &bindings, &names());
    assert_eq!(entry.accel.as_deref(), Some("Ctrl+Shift+w"));
}

#[test]
fn an_unbound_item_prints_no_key() {
    let bindings = resolve(&[(combo("Alt+F4"), None)]);
    let entry = Entry::item(MenuAction::Close, "Close", true, &bindings, &names());
    assert_eq!(entry.accel, None);
}

/// Every row of the real menu, laid out with the default bindings.
fn every_item() -> Vec<Entry> {
    let bindings = resolve(&[]);
    [
        (MenuAction::Restore, "Restore"),
        (MenuAction::Move, "Move"),
        (MenuAction::Size, "Size"),
        (MenuAction::Minimize, "Minimize"),
        (MenuAction::Maximize, "Maximize"),
        (MenuAction::Raise, "Raise"),
        (MenuAction::Lower, "Lower"),
        (MenuAction::Close, "Close"),
    ]
    .into_iter()
    .map(|(action, label)| Entry::item(action, label, true, &bindings, &names()))
    .collect()
}

/// A fixed-pitch font's width of a text.
fn measure(text: &str) -> i32 {
    text.len() as i32 * 8
}

fn widths(rows: &[Entry]) -> Vec<(i32, i32)> {
    rows.iter()
        .map(|row| (measure(row.label), row.accel.as_deref().map_or(0, measure)))
        .collect()
}

#[test]
fn every_default_item_fits_the_panel_it_is_measured_for() {
    let rows = every_item();
    let width = measure_width(&rows, &widths(&rows));
    assert!(width >= MIN_WIDTH, "the panel never shrinks below {MIN_WIDTH}");

    let available = width - 2 * LABEL_INSET - 2 * MARGIN;
    for row in &rows {
        let label = measure(row.label);
        let accel = measure(row.accel.as_deref().expect("a default is bound"));
        assert!(
            label + ACCEL_GAP + accel <= available,
            "{:?} + {:?} needs {} of {available}",
            row.label,
            row.accel,
            label + ACCEL_GAP + accel
        );
    }
}

#[test]
fn a_menu_with_no_bindings_is_the_classic_width() {
    let unbound: Vec<Entry> = every_item()
        .into_iter()
        .map(|mut entry| {
            entry.accel = None;
            entry
        })
        .collect();
    assert_eq!(measure_width(&unbound, &widths(&unbound)), MIN_WIDTH);
}

#[test]
fn a_long_binding_widens_the_panel() {
    let bindings = resolve(&[(
        combo("Ctrl+Alt+Shift+Super+BackSpace"),
        Some(Action::Window(MenuAction::Minimize)),
    )]);
    let rows = vec![Entry::item(MenuAction::Minimize, "Minimize", true, &bindings, &names())];
    let width = measure_width(&rows, &widths(&rows));
    assert!(width > MIN_WIDTH, "a panel of {width} should have grown past {MIN_WIDTH}");
}

fn window(id: u64) -> Window {
    Window {
        id,
        shell: Shell::Wayland,
        z: 0,
        size: Size { w: 400, h: 300 },
        insets: Insets { left: 8, top: 38, right: 8, bottom: 8 },
        minimizable: true,
        maximizable: true,
        customary: None,
        parent: None,
        requested: None,
        home: None,
        placed: true,
        state: WindowState {
            desk: Desk::Ordinary(1),
            minimized: false,
            maximized: false,
            fullscreen: false,
            restore_geo: None,
            pre_fullscreen: None,
            last_pos: point(0, 0),
            icon_slot: None,
            needs_thumbnail: false,
            has_thumbnail: false,
        },
    }
}

/// The measured widths of the rows that a window's menu has.
fn row_widths(w: &Window) -> Vec<(i32, i32)> {
    widths(&entries_for(menu_state(w, true), &resolve(&[]), &names()))
}

fn menu() -> WindowMenu {
    let w = window(7);
    WindowMenu::new(&w, true, point(10, 20), &resolve(&[]), &names(), &row_widths(&w))
}

#[test]
fn a_menu_offers_what_its_window_can_do() {
    let enabled = |menu: &WindowMenu| -> Vec<MenuAction> {
        menu.entries.iter().filter(|e| e.enabled).filter_map(|e| e.action).collect()
    };
    assert_eq!(
        enabled(&menu()),
        vec![
            MenuAction::Move,
            MenuAction::Size,
            MenuAction::Minimize,
            MenuAction::Maximize,
            MenuAction::Raise,
            MenuAction::Lower,
            MenuAction::Close
        ]
    );
    let mut w = window(7);
    w.minimizable = false;
    w.maximizable = false;
    let fixed =
        WindowMenu::new(&w, false, point(0, 0), &resolve(&[]), &names(), &row_widths(&w));
    assert_eq!(
        enabled(&fixed),
        vec![MenuAction::Move, MenuAction::Raise, MenuAction::Lower, MenuAction::Close]
    );
    let mut w = window(7);
    w.state.minimized = true;
    let icon = WindowMenu::new(&w, true, point(0, 0), &resolve(&[]), &names(), &row_widths(&w));
    assert_eq!(
        enabled(&icon),
        vec![
            MenuAction::Restore,
            MenuAction::Move,
            MenuAction::Maximize,
            MenuAction::Raise,
            MenuAction::Lower,
            MenuAction::Close
        ]
    );
}

#[test]
fn a_row_is_chosen_where_it_is_enabled() {
    let mut menu = menu();
    let row = menu.row(1);
    let at = spot(row.loc.x as f64 + 5.0, row.loc.y as f64 + 5.0);
    assert_eq!(menu.action_at(at), Some(MenuAction::Move));
    // Restore is there, but there is nothing to restore.
    let first = menu.row(0);
    let on_first = spot(first.loc.x as f64 + 5.0, first.loc.y as f64 + 5.0);
    assert!(menu.contains(on_first));
    assert_eq!(menu.action_at(on_first), None);
    // The separator is no choice.
    let line = menu.row(7);
    assert_eq!(menu.action_at(spot(line.loc.x as f64 + 5.0, line.loc.y as f64 + 3.0)), None);
    assert!(!menu.contains(spot(0.0, 0.0)));
    assert!(menu.hover(at));
    assert!(!menu.hover(at), "hovering the same row changes nothing");
    assert_eq!(menu.hovered, Some(1));
}

#[test]
fn a_menu_goes_with_its_window() {
    let mut desktop = empty_desktop();
    desktop.window_menu = Some(menu());
    desktop.last_menu_click = Some(MenuClick { window: 7, at: 100 });
    assert!(!desktop.forget_window_menu(8));
    assert!(desktop.window_menu.is_some() && desktop.last_menu_click.is_some());
    assert!(desktop.forget_window_menu(7));
    assert!(desktop.window_menu.is_none() && desktop.last_menu_click.is_none());
    // A window that closes takes its menu with it.
    desktop.window_menu = Some(menu());
    desktop.hidden.push(7);
    assert!(!desktop.toplevel_destroyed(8).0);
    assert!(desktop.window_menu.is_some());
    assert!(desktop.toplevel_destroyed(7).0);
    assert!(desktop.window_menu.is_none());
}

fn empty_desktop() -> Wlrix {
    Wlrix::new(
        Desk::Ordinary(1),
        vec![Desk::Ordinary(1)],
        IconMetrics { margin: 8, tile_w: 93, tile_h: 99 },
    )
}

#[test]
fn a_posted_menu_is_wholly_on_its_screen() {
    let mut desktop = empty_desktop();
    let window = window(4);
    desktop.windows.push(window);
    // Without a screen it is where it was asked for.
    let wide = row_widths(&window);
    let bound = resolve(&[]);
    assert_eq!(
        desktop.open_window_menu(&window, true, point(1270, 790), &bound, &names(), &wide),
        vec![Effect::Redraw]
    );
    assert_eq!(desktop.window_menu.as_ref().unwrap().panel().loc, point(1270, 790));
    desktop.screens.push(Screen { id: 1, geometry: Some(area()), zone: area() });
    desktop.open_window_menu(&window, true, point(1270, 790), &bound, &names(), &wide);
    let panel = desktop.window_menu.as_ref().unwrap().panel();
    assert_eq!(panel.loc.x + panel.size.w, 1280);
    assert_eq!(panel.loc.y + panel.size.h, 800);
    assert_eq!(desktop.window_menu.as_ref().unwrap().window, 4);

    // The pointer lights up a row that can be chosen, and a row that cannot stays dark.
    let second = desktop.window_menu.as_ref().unwrap().row(1);
    let on_second = spot(second.loc.x as f64 + 5.0, second.loc.y as f64 + 5.0);
    assert_eq!(desktop.hover_window_menu(on_second), vec![Effect::Redraw]);
    assert_eq!(desktop.hover_window_menu(on_second), vec![]);
    let around = Surroundings {
        include_cursor: true,
        outline: false,
        layers: &[],
        windows: &[],
        keyboard: None,
        pressed: None,
    };
    let name = "DP-1".to_string();
    let list = output_elements(&desktop, &LockState::new(), 1, &name, &around);
    assert_eq!(list[0], Draw::Cursor);
    assert_eq!(list[1], Draw::MenuLabel { row: 0, enabled: false });
    assert_eq!(list[2], Draw::MenuAccel { row: 0, enabled: false });
    assert_eq!(list[3], Draw::MenuLabel { row: 1, enabled: true });
    let lit = list.iter().position(|d| *d == Draw::MenuHighlight { row: 1 }).unwrap();
    assert_eq!(list[lit + 1], Draw::MenuSeparator { row: 7 });
    assert_eq!(list[lit + 2], Draw::MenuPanel);
    assert!(desktop.close_window_menu());
    assert!(!desktop.close_window_menu());
    assert_eq!(desktop.hover_window_menu(on_second), vec![]);
}

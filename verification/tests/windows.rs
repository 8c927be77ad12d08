use wlrix_compositor::desk_ops::{
    create_desk, remove_desk, switch_desk, switch_desk_index, DeskStep, Unsaved,
};
use wlrix_compositor::geometry::{Insets, Point, Rect, Size, Spot};
use wlrix_compositor::input::{
    axis_report, filter_key, moved_pointer, route_button, switch_vt,
    AxisFacts, ButtonFacts, Filtered, FollowFacts, Hit, Hits, InputEvent, InputStep, MenuHit, Press, Ran,
    Scrolled, Step, WindowHit, BTN_LEFT, BTN_RIGHT,
};
use wlrix_compositor::keybinds::{key_named, Action, Bindings, Modifiers, ShotMode, DEFAULTS};
use wlrix_compositor::menu::{Chosen, Entry, MenuAction, WindowMenu};
use wlrix_compositor::minimized::IconMetrics;
use wlrix_compositor::placement::WHOLE;
use wlrix_compositor::session_lock::LockState;
use wlrix_compositor::shell_rules::{anchor_position, rule_for, Anchor, ShellComponent};
use wlrix_compositor::spawn::{screenshot_args, SCREENSHOT};
use wlrix_compositor::state::{
    Covering, Desk, Effect, Mapped, Screen, Shell, Window, WindowState, Wlrix,
};

const DP1: u64 = 1;

fn point(x: i32, y: i32) -> Point {
    Point { x, y }
}

fn rect(x: i32, y: i32, w: i32, h: i32) -> Rect {
    Rect::new(point(x, y), Size { w, h })
}

fn spot(x: i64, y: i64) -> Spot {
    Spot { x: x * 256, y: y * 256 }
}

const INSETS: Insets = Insets { left: 8, top: 38, right: 8, bottom: 8 };

fn window(id: u64) -> Window {
    Window {
        id,
        shell: Shell::Wayland,
        z: 0,
        size: Size { w: 400, h: 300 },
        insets: INSETS,
        minimizable: true,
        maximizable: true,
        customary: None,
        parent: None,
        requested: None,
        home: Some(DP1),
        placed: true,
        state: WindowState {
            desk: Desk::Ordinary(1),
            minimized: false,
            maximized: false,
            fullscreen: false,
            restore_geo: None,
            pre_fullscreen: None,
            last_pos: point(0, 0),
            icon_slot: None,
            needs_thumbnail: false,
            has_thumbnail: false,
        },
    }
}

/// One 1920x1080 screen whose left 100 pixels a panel has, and three windows on it.
fn desktop() -> Wlrix {
    let mut desktop = Wlrix::new(
        Desk::Ordinary(1),
        vec![Desk::Global, Desk::Ordinary(1), Desk::Ordinary(2)],
        IconMetrics { margin: 8, tile_w: 93, tile_h: 99 },
    );
    desktop.screens.push(Screen {
        id: DP1,
        geometry: Some(rect(0, 0, 1920, 1080)),
        zone: rect(100, 0, 1820, 1080),
    });
    for id in 1..=3 {
        desktop.windows.push(window(id));
        desktop.stack.push(Mapped { id, z: 0, loc: point(100 + 50 * id as i32, 200) });
    }
    desktop
}

fn order(desktop: &Wlrix) -> Vec<u64> {
    desktop.stack.iter().map(|m| m.id).collect()
}

#[test]
fn a_maximized_window_fills_the_work_area_and_goes_back() {
    let mut desktop = desktop();
    let effects = desktop.maximize_window(2);
    let w = desktop.window(2).unwrap();
    assert!(w.state.maximized);
    assert_eq!(desktop.element_location(2), Some(point(108, 38)));
    assert!(effects.contains(&Effect::PendingSize {
        window: 2,
        size: Some(Size { w: 1820 - 16, h: 1080 - 46 }),
    }));
    assert!(effects.contains(&Effect::Pending {
        window: 2,
        covering: Covering::Maximized,
        on: true
    }));
    desktop.unmaximize_window(2);
    assert!(!desktop.window(2).unwrap().state.maximized);
    assert_eq!(desktop.element_location(2), Some(point(200, 200)));
    // A toggle is one or the other.
    desktop.toggle_maximize_window(2);
    assert!(desktop.window(2).unwrap().state.maximized);
    desktop.toggle_maximize_window(2);
    assert!(!desktop.window(2).unwrap().state.maximized);
}

#[test]
fn a_fullscreen_window_covers_its_screen_and_comes_back_as_it_was() {
    let mut desktop = desktop();
    desktop.maximize_window(1);
    desktop.fullscreen_window(1, None);
    let w = desktop.window(1).unwrap();
    assert!(w.state.fullscreen && w.state.maximized);
    assert_eq!(desktop.element_location(1), Some(point(0, 0)));
    let effects = desktop.unfullscreen_window(1);
    let filling = Some(Size { w: 1820 - 16, h: 1080 - 46 });
    assert!(effects.contains(&Effect::PendingSize { window: 1, size: filling }));
    let w = desktop.window(1).unwrap();
    assert!(!w.state.fullscreen && w.state.maximized);
    assert_eq!(desktop.element_location(1), Some(point(108, 38)));
    desktop.unmaximize_window(1);
    assert_eq!(desktop.element_location(1), Some(point(150, 200)));
    desktop.toggle_fullscreen_window(3);
    assert!(desktop.window(3).unwrap().state.fullscreen);
    let effects = desktop.toggle_fullscreen_window(3);
    assert_eq!(desktop.element_location(3), Some(point(250, 200)));
    let earlier = Some(Size { w: 400, h: 300 });
    assert!(effects.contains(&Effect::PendingSize { window: 3, size: earlier }));
}

#[test]
fn a_minimized_window_gets_a_cell_and_comes_back() {
    let mut desktop = desktop();
    let effects = desktop.minimize_window(2);
    assert!(effects.contains(&Effect::Unmap { window: 2 }));
    let w = desktop.window(2).unwrap();
    assert!(w.state.minimized && w.state.needs_thumbnail);
    assert_eq!(w.state.icon_slot, Some(2), "the first two columns are left free");
    assert_eq!(desktop.element_location(2), None);
    assert_eq!(desktop.hidden, vec![2]);
    assert_eq!(desktop.pending_thumbnails(DP1), vec![2]);
    assert_eq!(desktop.pending_thumbnails(9), Vec::<u64>::new());
    desktop.thumbnail_taken(2, true);
    assert!(desktop.pending_thumbnails(DP1).is_empty());
    assert!(desktop.window(2).unwrap().state.has_thumbnail);
    desktop.minimize_window(1);
    assert_eq!(desktop.minimized_icons(), vec![(2, 2), (1, 3)]);
    desktop.restore_window(2);
    assert_eq!(desktop.element_location(2), Some(point(200, 200)));
    assert!(!desktop.window(2).unwrap().state.minimized);
    desktop.minimize_window(3);
    desktop.restore_all_minimized();
    assert!(desktop.hidden.is_empty() && desktop.minimized_icons().is_empty());
    // A window that cannot be minimized is left alone.
    let mut fixed = window(1);
    fixed.minimizable = false;
    desktop.set_window(fixed);
    assert_eq!(desktop.minimize_window(1), vec![]);
}

#[test]
fn raising_and_lowering_keep_the_others_in_order() {
    let mut desktop = desktop();
    desktop.raise_window(1);
    assert_eq!(order(&desktop), vec![2, 3, 1]);
    desktop.lower_window(3);
    assert_eq!(order(&desktop), vec![3, 2, 1]);
    assert_eq!(desktop.element_location(3), Some(point(250, 200)));
    assert_eq!(desktop.close_window(3), vec![Effect::Close { window: 3 }]);
}

#[test]
fn a_window_on_another_desk_is_held_aside() {
    let mut desktop = desktop();
    desktop.move_window_to_desk(2, Desk::Ordinary(2));
    assert_eq!(desktop.element_location(2), None);
    assert_eq!(desktop.hidden, vec![2]);
    assert_eq!(desktop.window(2).unwrap().state.desk, Desk::Ordinary(2));
    desktop.move_window_to_desk(2, Desk::Global);
    assert_eq!(desktop.element_location(2), Some(point(200, 200)));
}

#[test]
fn a_tile_is_dragged_to_another_cell() {
    let mut desktop = desktop();
    desktop.minimize_window(1);
    desktop.minimize_window(2);
    let grid = desktop.icon_grid().unwrap();
    let tile = grid.slot_rect(2);
    let on_tile = spot(tile.loc.x as i64 + 5, tile.loc.y as i64 + 5);
    assert_eq!(desktop.icon_under(on_tile), Some(1));
    desktop.press_icon(1, on_tile);
    assert!(!desktop.icon_move_awaits_click());
    assert_eq!(desktop.dragged_icon(), None, "not yet a drag");
    let other = grid.slot_rect(3);
    let to = spot(other.loc.x as i64 + 5, other.loc.y as i64 + 5);
    assert_eq!(desktop.drag_icon(to), vec![Effect::Redraw]);
    assert_eq!(desktop.dragged_icon().map(|(id, r)| (id, r.loc)), Some((1, other.loc)));
    assert_eq!(desktop.release_icon(to), vec![Effect::Redraw]);
    assert!(desktop.icon_drag.is_none());
    // The two swap their cells.
    assert_eq!(desktop.minimized_icons(), vec![(2, 2), (1, 3)]);
    // A tile that was picked up from its menu stays with the pointer until the next click.
    desktop.start_menu_icon_move(1, to);
    assert!(desktop.icon_move_awaits_click());
    assert_eq!(desktop.release_icon(on_tile), vec![]);
    desktop.drop_icon(on_tile);
    assert_eq!(desktop.minimized_icons(), vec![(1, 2), (2, 3)]);
    assert_eq!(desktop.drag_icon(to), vec![], "no tile is held");
    // A press that is let go without a drag brings the window back.
    desktop.press_icon(1, on_tile);
    let effects = desktop.release_icon(on_tile);
    assert!(effects.contains(&Effect::Focus { window: 1 }));
    assert!(!desktop.window(1).unwrap().state.minimized);
    assert_eq!(desktop.minimized_icons(), vec![(2, 3)]);
}

#[test]
fn a_menu_item_acts_on_its_window() {
    let mut desktop = desktop();
    assert_eq!(desktop.activate_menu_action(1, MenuAction::Move), Chosen::MoveWindow);
    assert_eq!(desktop.activate_menu_action(1, MenuAction::Size), Chosen::ResizeWindow);
    desktop.activate_menu_action(1, MenuAction::Minimize);
    assert_eq!(desktop.activate_menu_action(1, MenuAction::Move), Chosen::MoveIcon);
    desktop.activate_menu_action(1, MenuAction::Maximize);
    let w = desktop.window(1).unwrap();
    assert!(w.state.maximized && !w.state.minimized);
    desktop.activate_menu_action(1, MenuAction::Restore);
    assert!(!desktop.window(1).unwrap().state.maximized);
    assert_eq!(
        desktop.activate_menu_action(1, MenuAction::Close),
        Chosen::Done(vec![Effect::Close { window: 1 }])
    );
}

#[test]
fn shell_components_keep_to_their_corners() {
    assert!(rule_for("com.wlrix.terminal").is_none());
    let toolchest = rule_for("com.wlrix.toolchest").unwrap();
    assert_eq!(toolchest.anchor, Anchor::TopLeft);
    let area = rect(10, 20, 1000, 800);
    let size = Size { w: 100, h: 50 };
    assert_eq!(anchor_position(Anchor::TopLeft, area, size), point(10, 20));
    assert_eq!(anchor_position(Anchor::TopRight, area, size), point(910, 20));
    assert_eq!(anchor_position(Anchor::BottomLeft, area, size), point(10, 770));
    assert_eq!(anchor_position(Anchor::BottomRight, area, size), point(910, 770));
    assert_eq!(
        anchor_position(Anchor::BottomRight, area, Size { w: 5000, h: 5000 }),
        point(10, 20),
        "too large a one starts at the corner"
    );
    let mut desktop = desktop();
    let marks = [(1, ShellComponent(toolchest))];
    desktop.raise_always_on_top(&marks);
    assert_eq!(order(&desktop), vec![2, 3, 1]);
    let effects = desktop.arrange(&marks);
    assert_eq!(
        effects,
        vec![
            Effect::Show { window: 1, at: point(0, 0), activate: false },
            Effect::Raise { window: 1, activate: false }
        ]
    );
    assert_eq!(desktop.element_location(1), Some(point(0, 0)), "the corner of the screen");
    assert_eq!(desktop.arrange(&marks), vec![], "it is where it belongs");
    // Raising a window and then the components leaves the window under them.
    desktop.raise_window(2);
    assert_eq!(order(&desktop), vec![3, 1, 2]);
    desktop.raise_always_on_top(&marks);
    assert_eq!(order(&desktop), vec![3, 2, 1]);
}

#[test]
fn a_window_of_an_unplugged_monitor_is_moved_back() {
    let mut desktop = desktop();
    let mut lost = window(2);
    lost.home = None;
    desktop.set_window(lost);
    assert_eq!(desktop.relocate_orphaned_windows(), vec![2]);
    assert_eq!(order(&desktop), vec![1, 3, 2]);
    assert_eq!(desktop.element_location(2), Some(point(100 + 64 + 8, 64 + 38)));
    assert_eq!(desktop.element_location(1), Some(point(150, 200)), "one on a screen stays");
    assert_eq!(desktop.element_location(3), Some(point(250, 200)), "one on a screen stays");
    // With no screen left there is nowhere to move it to.
    desktop.screens.clear();
    assert_eq!(desktop.relocate_orphaned_windows(), vec![]);
}

fn keysym(name: &str) -> u32 {
    let name = name.to_ascii_lowercase();
    if name.len() == 1 {
        return name.chars().next().unwrap() as u32;
    }
    match name.as_str() {
        "space" => 0x20,
        "plus" => 0x2b,
        "backspace" => 0xff08,
        "up" => 0xff52,
        "down" => 0xff54,
        "print" => 0xff61,
        _ => match name.strip_prefix('f').and_then(|n| n.parse::<u32>().ok()) {
            Some(n) if (1..=35).contains(&n) => 0xffbe + n - 1,
            _ => 0,
        },
    }
}

fn bindings() -> Bindings {
    let syms: Vec<u32> =
        DEFAULTS.iter().map(|(keys, _)| keysym(&key_named(keys).unwrap())).collect();
    Bindings::resolve(&syms, &[])
}

fn mods(ctrl: bool, alt: bool) -> Modifiers {
    Modifiers { ctrl, alt, shift: false, logo: false }
}

#[test]
fn a_key_runs_what_it_is_bound_to() {
    let bindings = bindings();
    let f4 = keysym("F4");
    let alt = mods(false, true);
    assert_eq!(
        filter_key(true, &alt, f4, Some(f4), &bindings),
        Filtered::Run(Action::Window(MenuAction::Close))
    );
    assert_eq!(filter_key(false, &alt, f4, Some(f4), &bindings), Filtered::Forward);
    let none = mods(false, false);
    assert_eq!(filter_key(true, &none, 0x61, Some(0x61), &bindings), Filtered::Forward);
    // Switching terminals is never taken away.
    assert_eq!(switch_vt(0x1008fe03), Some(3));
    assert_eq!(switch_vt(0x61), None);
    assert_eq!(
        filter_key(true, &mods(true, true), 0x1008fe02, None, &bindings),
        Filtered::SwitchVt(2)
    );
    assert_eq!(
        filter_key(false, &mods(true, true), 0x1008fe02, None, &bindings),
        Filtered::Forward
    );
    let mut desktop = desktop();
    let order = [Desk::Ordinary(1), Desk::Ordinary(2)];
    assert_eq!(
        desktop.run_action(Action::SwitchDesk(1), Some(1), &order),
        Ran::SwitchDesk(Desk::Ordinary(2))
    );
    assert_eq!(desktop.run_action(Action::SwitchDesk(7), Some(1), &order), Ran::Done(vec![]));
    assert_eq!(desktop.run_action(Action::Quit, None, &order), Ran::Quit);
    assert_eq!(
        desktop.run_action(Action::Screenshot(ShotMode::Screen), None, &order),
        Ran::Screenshot(ShotMode::Screen)
    );
    desktop.run_action(Action::MoveToDesk(1), Some(2), &order);
    assert_eq!(desktop.window(2).unwrap().state.desk, Desk::Ordinary(2));
    desktop.run_action(Action::MaximizeToggle, Some(1), &order);
    assert!(desktop.window(1).unwrap().state.maximized);
}

fn press() -> ButtonFacts {
    ButtonFacts {
        pressed: true,
        button: BTN_LEFT,
        grabbed: false,
        locked: false,
        icon_awaits_click: false,
        menu: None,
        layer_covers: false,
        focusable_layer: None,
        frame: None,
        window: None,
        icon: None,
        raise_on_click: true,
    }
}

fn click() -> Press {
    Press {
        pressed: true,
        button: BTN_LEFT,
        grabbed: false,
        locked: false,
        layer_covers: false,
        focusable_layer: None,
        frame: None,
        window: None,
        raise_on_click: true,
    }
}

#[test]
fn a_press_finds_what_the_desktop_has_under_the_pointer() {
    let mut desktop = desktop();
    let bindings = bindings();
    let steps = |desktop: &mut Wlrix, press: Press| -> Vec<InputStep> {
        desktop.process_input_event(&InputEvent::PointerButton { press }, &bindings, None, &[]).0
    };
    // A tile is pressed where no window is over it.
    desktop.minimize_window(1);
    let tile = desktop.icon_grid().unwrap().slot_rect(2);
    desktop.pointer = spot(tile.loc.x as i64 + 5, tile.loc.y as i64 + 5);
    assert_eq!(steps(&mut desktop, click())[1], InputStep::Button(Step::PressIcon(1)));
    let covered = Press { window: Some(WindowHit { window: 2, focusable: true }), ..click() };
    assert_eq!(steps(&mut desktop, covered)[1], InputStep::Button(Step::FocusAndRaise(2)));
    // An open menu takes the press; beside its panel it only goes.
    let row = Entry {
        action: Some(MenuAction::Close),
        label: "Close",
        accel: None,
        enabled: true,
        height: 20,
    };
    let at = point(tile.loc.x, tile.loc.y);
    desktop.window_menu = Some(WindowMenu {
        window: 2,
        origin: at,
        width: 156,
        entries: vec![row],
        hovered: None,
    });
    assert_eq!(
        steps(&mut desktop, covered),
        vec![
            InputStep::NotifyActivity,
            InputStep::Button(Step::CloseMenu),
            InputStep::Button(Step::Choose { window: 2, action: MenuAction::Close }),
        ]
    );
    desktop.pointer = spot(1000, 700);
    assert_eq!(
        steps(&mut desktop, covered),
        vec![
            InputStep::NotifyActivity,
            InputStep::Button(Step::CloseMenu),
            InputStep::Button(Step::FocusAndRaise(2)),
            InputStep::Button(Step::Deliver),
        ]
    );
    // A tile that waits for a click takes it before the menu does.
    desktop.start_menu_icon_move(1, spot(1000, 700));
    assert_eq!(
        steps(&mut desktop, covered),
        vec![InputStep::NotifyActivity, InputStep::Button(Step::DropIcon)]
    );
}

#[test]
fn what_a_window_cannot_do_is_left_alone() {
    let mut desktop = desktop();
    let mut w = desktop.window(1).unwrap();
    w.minimizable = false;
    w.maximizable = false;
    desktop.set_window(w);
    assert_eq!(desktop.minimize_window(1), vec![]);
    assert_eq!(desktop.maximize_window(1), vec![]);
    assert_eq!(desktop.window(1), Some(w));
    // One that is maximized already still comes back.
    w.state.maximized = true;
    desktop.set_window(w);
    desktop.unmaximize_window(1);
    assert!(!desktop.window(1).unwrap().state.maximized);
    // A window that is not on screen does not have the keyboard.
    assert_eq!(desktop.focused_window(Some(1)), Some(1));
    desktop.unmap(1);
    assert_eq!(desktop.focused_window(Some(1)), None);
}

#[test]
fn a_press_goes_to_what_is_in_front() {
    let hit = WindowHit { window: 4, focusable: true };
    let on_window = ButtonFacts { window: Some(hit), ..press() };
    assert_eq!(route_button(&on_window), vec![Step::FocusAndRaise(4), Step::Deliver]);
    let quiet = ButtonFacts { raise_on_click: false, ..on_window };
    assert_eq!(route_button(&quiet), vec![Step::FocusInPlace(4), Step::Deliver]);
    let under_panel = ButtonFacts { layer_covers: true, ..on_window };
    assert_eq!(route_button(&under_panel), vec![Step::Deliver]);
    let on_frame = ButtonFacts { frame: Some(4), ..on_window };
    assert_eq!(route_button(&on_frame), vec![Step::PressFrame(4)]);
    let menu = MenuHit { window: 9, on_menu: true, chosen: Some(MenuAction::Close) };
    let on_menu = ButtonFacts { menu: Some(menu), ..on_window };
    assert_eq!(
        route_button(&on_menu),
        vec![Step::CloseMenu, Step::Choose { window: 9, action: MenuAction::Close }]
    );
    let beside = MenuHit { on_menu: false, chosen: None, ..menu };
    let beside_menu = ButtonFacts { menu: Some(beside), ..on_window };
    assert_eq!(
        route_button(&beside_menu),
        vec![Step::CloseMenu, Step::FocusAndRaise(4), Step::Deliver]
    );
    assert_eq!(route_button(&press()), vec![Step::ClearFocus, Step::Deliver]);
    let on_icon = ButtonFacts { icon: Some(6), button: BTN_RIGHT, ..press() };
    assert_eq!(route_button(&on_icon), vec![Step::OpenIconMenu(6), Step::Deliver]);
    let carried = ButtonFacts { icon_awaits_click: true, ..on_window };
    assert_eq!(route_button(&carried), vec![Step::DropIcon]);
    let release = ButtonFacts { pressed: false, ..on_window };
    assert_eq!(
        route_button(&release),
        vec![Step::ReleaseFrame, Step::ReleaseIcon, Step::Deliver]
    );
    let locked = ButtonFacts { locked: true, ..on_menu };
    assert_eq!(route_button(&locked), vec![Step::Deliver], "it is the locker's");
    let grabbed = ButtonFacts { grabbed: true, ..on_window };
    assert_eq!(route_button(&grabbed), vec![Step::Deliver]);
}

#[test]
fn the_keyboard_follows_the_pointer_over_windows() {
    let mut desktop = desktop();
    let facts = FollowFacts {
        by_pointer: true,
        grabbed: false,
        locked: false,
        layer_covers: false,
        window: Some(2),
    };
    assert_eq!(desktop.follow_pointer(&facts), Some(2));
    // Over the bare desktop it stays where it is.
    assert_eq!(desktop.follow_pointer(&FollowFacts { window: None, ..facts }), None);
    for held in [
        FollowFacts { by_pointer: false, ..facts },
        FollowFacts { grabbed: true, ..facts },
        FollowFacts { locked: true, ..facts },
        FollowFacts { layer_covers: true, ..facts },
    ] {
        assert_eq!(desktop.follow_pointer(&held), None, "{held:?}");
    }
    desktop.window_menu = Some(WindowMenu {
        window: 2,
        origin: point(0, 0),
        width: 156,
        entries: vec![],
        hovered: None,
    });
    assert_eq!(desktop.follow_pointer(&facts), None);
}

#[test]
fn a_locked_session_routes_the_pointer_to_the_locker() {
    let hit = |surface| Some(Hit { surface, offset: point(2, 3), loc: point(10, 20) });
    let hits =
        Hits { overlay: None, top: None, window: hit(3), bottom: hit(4), background: hit(5) };
    let mut desktop = desktop();
    desktop.screens[0].geometry = Some(rect(0, 0, 2560, 1440));
    let names = [(DP1, "DP-1".to_string()), (2, "DP-2".to_string())];
    let (on, off) = (spot(10, 10), spot(-5, 10));
    let mut lock = LockState::new();
    assert_eq!(desktop.surface_under(&lock, &names, on, &hits), Some((3, spot(12, 23))));
    lock.begin(1);
    assert_eq!(desktop.surface_under(&lock, &names, on, &hits), None);
    lock.add_surface("DP-1".to_string(), None, 1, 9);
    assert_eq!(desktop.surface_under(&lock, &names, on, &hits), Some((9, on)));
    assert_eq!(desktop.surface_under(&lock, &names, off, &hits), None);
    assert_eq!(desktop.surface_under(&lock, &[], on, &hits), None);
    // A quarter of a pixel from the edge is still on the screen, and not yet on its neighbour.
    let edge = Spot { x: 2560 * 256 - 64, y: 0 };
    assert_eq!(desktop.surface_under(&lock, &names, edge, &hits), Some((9, edge)));
    desktop.screens.push(Screen {
        id: 2,
        geometry: Some(rect(2560, 0, 1920, 1080)),
        zone: rect(0, 0, 1920, 1080),
    });
    lock.add_surface("DP-2".to_string(), None, 1, 8);
    assert_eq!(desktop.surface_under(&lock, &names, edge, &hits), Some((9, edge)));
    let next = Spot { x: 2560 * 256, y: 256 };
    let local = Spot { x: 0, y: 256 };
    assert_eq!(desktop.surface_under(&lock, &names, next, &hits), Some((8, local)));
    // Of two screens in one place it is the one that came last.
    desktop.screens[1].geometry = Some(rect(0, 0, 1920, 1080));
    assert_eq!(desktop.surface_under(&lock, &names, on, &hits), Some((8, on)));
}

#[test]
fn the_pointer_is_over_the_frontmost_surface() {
    let hit = |surface| Some(Hit { surface, offset: point(2, 3), loc: point(10, 20) });
    let mut desktop = desktop();
    desktop.screens[0].geometry = Some(rect(100, 0, 1920, 1080));
    let names = [(DP1, "DP-1".to_string())];
    let (on, off) = (spot(110, 10), spot(5, 10));
    let lock = LockState::new();
    let mut hits = Hits {
        overlay: hit(1),
        top: hit(2),
        window: hit(3),
        bottom: hit(4),
        background: hit(5),
    };
    // A layer surface is placed on its output, a window on the desktop.
    let (layer, window) = (spot(112, 23), spot(12, 23));
    assert_eq!(desktop.surface_under(&lock, &names, off, &hits), Some((3, window)));
    assert_eq!(desktop.surface_under(&lock, &names, on, &hits), Some((1, layer)));
    hits.overlay = None;
    assert_eq!(desktop.surface_under(&lock, &names, on, &hits), Some((2, layer)));
    hits.top = None;
    assert_eq!(desktop.surface_under(&lock, &names, on, &hits), Some((3, window)));
    hits.window = None;
    assert_eq!(desktop.surface_under(&lock, &names, on, &hits), Some((4, layer)));
    hits.bottom = None;
    assert_eq!(desktop.surface_under(&lock, &names, on, &hits), Some((5, layer)));
    hits.background = None;
    assert_eq!(desktop.surface_under(&lock, &names, on, &hits), None);
    assert_eq!(desktop.surface_under(&lock, &names, off, &hits), None);
    // Which layers are asked goes by the nearest pixel.
    hits.bottom = hit(4);
    let edge = Spot { x: 2020 * 256 - 64, y: 0 };
    assert_eq!(desktop.surface_under(&lock, &names, edge, &hits), None);
}

#[test]
fn a_scroll_is_reported_as_the_device_tells_it() {
    let wheel = AxisFacts { amount: None, v120: Some(120 * 256) };
    let report = axis_report(wheel, false);
    assert_eq!(report.value, Some(Scrolled::Notches(120 * 256)));
    assert_eq!(report.v120, Some(120 * 256));
    let rest = AxisFacts { amount: Some(0), v120: None };
    assert!(axis_report(rest, true).stop && !axis_report(rest, false).stop);
    assert_eq!(axis_report(rest, true).value, None);
    let moved = moved_pointer(&[rect(0, 0, 100, 100)], spot(90, 50), 50 * 256, 0);
    assert_eq!(moved, spot(99, 50));
}

#[test]
fn a_screenshot_of_the_active_window_holds_its_frame() {
    assert_eq!(SCREENSHOT, "wlrix-screenshot");
    let desktop = desktop();
    let frame = desktop.focused_frame_rect(Some(2), true);
    assert_eq!(frame, Some(rect(192, 162, 416, 346)));
    assert_eq!(
        screenshot_args(ShotMode::ActiveWindow, frame),
        vec!["--select", "192,162,416,346"]
    );
    assert_eq!(screenshot_args(ShotMode::ActiveWindow, None), vec!["--all"]);
    assert_eq!(screenshot_args(ShotMode::Screen, frame), vec!["--all"]);
    assert_eq!(screenshot_args(ShotMode::Region, frame), Vec::<String>::new());
    assert_eq!(desktop.focused_frame_rect(None, true), None);
    assert_eq!(desktop.focused_frame_rect(Some(2), false), None);
    let off = rect(-5, 0, 10, 10);
    assert_eq!(screenshot_args(ShotMode::ActiveWindow, Some(off))[1], "-5,0,10,10");
}

#[test]
fn desks_are_saved_after_they_change() {
    let steps = switch_desk(Desk::Ordinary(2));
    assert_eq!(steps[0], DeskStep::SwitchTo(Desk::Ordinary(2)));
    assert!(steps.contains(&DeskStep::MarkDirty));
    assert_eq!(switch_desk_index(&[Desk::Ordinary(2)], 0), steps);
    assert_eq!(switch_desk_index(&[], 0), vec![]);
    assert_eq!(create_desk(), vec![DeskStep::MarkDirty, DeskStep::DesksChanged]);
    assert_eq!(remove_desk(false), vec![]);
    assert!(remove_desk(true).contains(&DeskStep::FocusTopmost));
    let mut unsaved = Unsaved { outputs: true, desks: false };
    assert!(unsaved.save_display_state_if_dirty() && !unsaved.save_display_state_if_dirty());
    assert!(!unsaved.save_desks_if_dirty());
}

#[test]
fn an_event_is_answered_step_by_step() {
    let bindings = bindings();
    let order = [Desk::Ordinary(1), Desk::Ordinary(2)];
    let mut desktop = desktop();
    let key = |pressed: bool, mods: Modifiers, sym: u32| InputEvent::Keyboard {
        pressed,
        mods,
        modified: sym,
        raw: Some(sym),
    };
    // A key that is bound runs its action and does not reach the client.
    let f4 = keysym("F4");
    let (steps, ran) =
        desktop.process_input_event(&key(true, mods(false, true), f4), &bindings, Some(2), &order);
    assert_eq!(steps, vec![InputStep::NotifyActivity]);
    assert_eq!(ran, Some(Ran::Done(vec![Effect::Close { window: 2 }])));
    // Letting it go, or a key that is bound to nothing, does.
    let (steps, ran) =
        desktop.process_input_event(&key(false, mods(false, true), f4), &bindings, Some(2), &order);
    assert_eq!(steps, vec![InputStep::NotifyActivity, InputStep::ForwardKey]);
    assert_eq!(ran, None);
    let (_, ran) = desktop.process_input_event(
        &key(true, mods(true, true), 0x1008fe02),
        &bindings,
        None,
        &order,
    );
    assert_eq!(ran, Some(Ran::SwitchVt(2)));
    // Relative motion stops at the edge of the screens.
    desktop.screens[0].geometry = Some(rect(100, 0, 1920, 1080));
    desktop.pointer = spot(500, 400);
    let (steps, _) = desktop.process_input_event(
        &InputEvent::PointerMotion { dx: 10 * 256, dy: -7 * 256 },
        &bindings,
        None,
        &order,
    );
    let to = spot(510, 393);
    assert_eq!(desktop.pointer, to);
    assert_eq!(
        steps,
        vec![
            InputStep::NotifyActivity,
            InputStep::Motion(to),
            InputStep::RelativeMotion,
            InputStep::DragIcon(to),
            InputStep::HoverMenu(to),
            InputStep::UpdateCursor(to),
            InputStep::FollowPointer(to),
            InputStep::Redraw,
        ]
    );
    // An absolute device spans the whole desktop, so half of it across is half of the screen.
    let (steps, _) = desktop.process_input_event(
        &InputEvent::PointerMotionAbsolute { x: WHOLE / 2, y: 0 },
        &bindings,
        None,
        &order,
    );
    assert_eq!(desktop.pointer, spot(1060, 0));
    assert_eq!(steps[1], InputStep::Motion(spot(1060, 0)));
    assert!(!steps.contains(&InputStep::RelativeMotion));
    // A press and a scroll are handed on, and anything else is activity all the same.
    let (steps, _) = desktop.process_input_event(
        &InputEvent::PointerButton { press: click() },
        &bindings,
        None,
        &order,
    );
    assert_eq!(
        steps,
        vec![
            InputStep::NotifyActivity,
            InputStep::Button(Step::ClearFocus),
            InputStep::Button(Step::Deliver),
        ]
    );
    let still = AxisFacts { amount: Some(0), v120: None };
    let turned = AxisFacts { amount: None, v120: Some(120 * 256) };
    let (steps, _) = desktop.process_input_event(
        &InputEvent::PointerAxis { horizontal: still, vertical: turned, finger: true },
        &bindings,
        None,
        &order,
    );
    assert_eq!(
        steps[1],
        InputStep::Axis {
            horizontal: axis_report(still, true),
            vertical: axis_report(turned, true)
        }
    );
    let (steps, _) = desktop.process_input_event(&InputEvent::Other, &bindings, None, &order);
    assert_eq!(steps, vec![InputStep::NotifyActivity]);
}

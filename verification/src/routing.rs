//! What input comes to: where the pointer goes, which window, tile, menu row or panel a press is
//! for, and which keys the desktop keeps for itself.
use vstd::prelude::*;

use crate::geometry::{Rect, Spot};
use crate::icons::{
    grid_of, icon_at, icon_in_cell, icon_in_cell_is_listed, move_to_cell, put_down, released,
    shown_icons, shown_icons_list, tile_middle,
};
use crate::input::{
    answered, bound_run, followed_to, found_by, geometries_of, key_fate, key_run, pointed_at,
    reported, routed, AxisFacts, ButtonFacts, FollowFacts, InputEvent,
    InputStep, MenuHit, Press, Run, Scrolled, Step,
};
use crate::keybinds::{pressed, Bindings, Modifiers};
use crate::menu::{height_of, heights_grow, row_of, Entry, WindowMenu};
use crate::minimized::{
    a_slots_tile_is_on_that_slot, columns, Grid, IconDrag, IconMetrics, IconMove,
};
use crate::outcomes::{a_restored_window_is_brought_back, brought_back};
use crate::placement::{
    across, distance, kept_on_screen, layout, layout_fits, nearest, on_any,
};
use crate::stacking::{located_is_stacked, stacked};
use crate::state::{
    a_listed_window_is_found, find, found_is_listed, listed_once, Desk, Effect, Scene, Screen,
};
use crate::window_ops::{icon_cell, restore, tidy};

verus! {

/// Whether a spot is on the pixels of a rectangle, in 256ths of one.
pub open spec fn over(g: Rect, s: Spot) -> bool {
    g.loc.x * 256 <= s.x && s.x < (g.loc.x + g.size.w) * 256 && g.loc.y * 256 <= s.y && s.y < (
    g.loc.y + g.size.h) * 256
}

/// Whether a coordinate was pulled to the nearest one of a stretch of pixels, and no further.
pub open spec fn pulled(to: int, from: int, near: int, length: int) -> bool {
    &&& near * 256 <= from <= (near + length - 1) * 256 ==> to == from
    &&& from < near * 256 ==> to == near * 256
    &&& from > (near + length - 1) * 256 ==> to == (near + length - 1) * 256
}

/// How far, squared and to scale, a spot is from the middle of a rectangle.
pub open spec fn away_from(g: Rect, s: Spot) -> int {
    let dx = (2 * g.loc.x + g.size.w) * 256 - 2 * s.x;
    let dy = (2 * g.loc.y + g.size.h) * 256 - 2 * s.y;
    dx * dx + dy * dy
}

proof fn the_nearest_is_nearest(geometries: Seq<Rect>, s: Spot) -> (i: int)
    requires
        geometries.len() > 0,
    ensures
        0 <= i < geometries.len(),
        geometries[i] == nearest(geometries, s),
        forall|j: int|
            0 <= j < geometries.len() ==> away_from(geometries[i], s) <= away_from(
                #[trigger] geometries[j],
                s,
            ),
    decreases geometries.len(),
{
    if geometries.len() == 1 {
        0
    } else {
        let fewer = geometries.drop_last();
        let i = the_nearest_is_nearest(fewer, s);
        let last = geometries.len() - 1;
        let k = if distance(geometries.last(), s) < distance(nearest(fewer, s), s) {
            last
        } else {
            i
        };
        assert forall|j: int| 0 <= j < geometries.len() implies away_from(geometries[k], s)
            <= away_from(#[trigger] geometries[j], s) by {
            if j < last {
                assert(fewer[j] == geometries[j]);
            }
        }
        k
    }
}

/// The pointer goes where it is moved, freely across monitors; where it would leave them all it is
/// held at the nearest pixel of the monitor whose middle is nearest.
pub proof fn the_pointer_goes_where_it_is_moved(geometries: Seq<Rect>, s: Spot)
    requires
        geometries.len() > 0,
        forall|i: int|
            0 <= i < geometries.len() ==> (#[trigger] geometries[i]).size.w > 0
                && geometries[i].size.h > 0,
        -0x1000_0000_0000_0000 <= s.x <= 0x1000_0000_0000_0000,
        -0x1000_0000_0000_0000 <= s.y <= 0x1000_0000_0000_0000,
    ensures
        ({
            let to = kept_on_screen(geometries, s);
            if exists|i: int| 0 <= i < geometries.len() && over(#[trigger] geometries[i], s) {
                to == s
            } else {
                exists|i: int|
                    0 <= i < geometries.len() && over(#[trigger] geometries[i], to) && pulled(
                        to.x as int,
                        s.x as int,
                        geometries[i].loc.x as int,
                        geometries[i].size.w as int,
                    ) && pulled(
                        to.y as int,
                        s.y as int,
                        geometries[i].loc.y as int,
                        geometries[i].size.h as int,
                    ) && forall|j: int|
                        0 <= j < geometries.len() ==> away_from(geometries[i], s) <= away_from(
                            #[trigger] geometries[j],
                            s,
                        )
            }
        }),
{
    if exists|i: int| 0 <= i < geometries.len() && over(#[trigger] geometries[i], s) {
        let i = choose|i: int| 0 <= i < geometries.len() && over(#[trigger] geometries[i], s);
        assert(geometries[i].holds_spot(s));
    } else {
        if on_any(geometries, s) {
            let i = choose|i: int|
                0 <= i < geometries.len() && (#[trigger] geometries[i]).holds_spot(s);
            assert(over(geometries[i], s));
        }
        let i = the_nearest_is_nearest(geometries, s);
        assert(geometries[i].size.w > 0);
        assert(over(geometries[i], kept_on_screen(geometries, s)));
    }
}

/// The layout reaches as far as the monitors do on every side, and no further.
pub proof fn the_layout_is_tight(geometries: Seq<Rect>)
    requires
        geometries.len() > 0,
        layout_fits(geometries),
        forall|i: int|
            0 <= i < geometries.len() ==> (#[trigger] geometries[i]).size.w >= 0
                && geometries[i].size.h >= 0,
    ensures
        ({
            let all = layout(geometries);
            &&& all.size.w >= 0 && all.size.h >= 0
            &&& forall|i: int|
                0 <= i < geometries.len() ==> all.loc.x <= (#[trigger] geometries[i]).loc.x
                    && all.loc.y <= geometries[i].loc.y && geometries[i].loc.x
                    + geometries[i].size.w <= all.loc.x + all.size.w && geometries[i].loc.y
                    + geometries[i].size.h <= all.loc.y + all.size.h
            &&& exists|i: int| 0 <= i < geometries.len() && (#[trigger] geometries[i]).loc.x
                == all.loc.x
            &&& exists|i: int| 0 <= i < geometries.len() && (#[trigger] geometries[i]).loc.y
                == all.loc.y
            &&& exists|i: int|
                0 <= i < geometries.len() && (#[trigger] geometries[i]).loc.x
                    + geometries[i].size.w == all.loc.x + all.size.w
            &&& exists|i: int|
                0 <= i < geometries.len() && (#[trigger] geometries[i]).loc.y
                    + geometries[i].size.h == all.loc.y + all.size.h
        }),
    decreases geometries.len(),
{
    let n = geometries.len() - 1;
    if n == 0 {
        assert(geometries[0].loc.x == layout(geometries).loc.x);
    } else {
        let fewer = geometries.drop_last();
        assert forall|i: int| 0 <= i < fewer.len() implies (#[trigger] fewer[i]).size.w >= 0
            && fewer[i].size.h >= 0 by {
            assert(geometries[i].size.w >= 0);
        }
        the_layout_is_tight(fewer);
        let part = layout(fewer);
        let all = layout(geometries);
        let last = geometries[n];
        let a = choose|i: int| 0 <= i < fewer.len() && (#[trigger] fewer[i]).loc.x == part.loc.x;
        let b = choose|i: int| 0 <= i < fewer.len() && (#[trigger] fewer[i]).loc.y == part.loc.y;
        let c = choose|i: int|
            0 <= i < fewer.len() && (#[trigger] fewer[i]).loc.x + fewer[i].size.w == part.loc.x
                + part.size.w;
        let d = choose|i: int|
            0 <= i < fewer.len() && (#[trigger] fewer[i]).loc.y + fewer[i].size.h == part.loc.y
                + part.size.h;
        assert(all == part.merged(last));
        assert(geometries[a].loc.x == all.loc.x || last.loc.x == all.loc.x);
        assert(geometries[b].loc.y == all.loc.y || last.loc.y == all.loc.y);
        assert(geometries[c].loc.x + geometries[c].size.w == all.loc.x + all.size.w || last.loc.x
            + last.size.w == all.loc.x + all.size.w);
        assert(geometries[d].loc.y + geometries[d].size.h == all.loc.y + all.size.h || last.loc.y
            + last.size.h == all.loc.y + all.size.h);
        assert forall|i: int| 0 <= i < geometries.len() implies all.loc.x <= (
        #[trigger] geometries[i]).loc.x && all.loc.y <= geometries[i].loc.y && geometries[i].loc.x
            + geometries[i].size.w <= all.loc.x + all.size.w && geometries[i].loc.y
            + geometries[i].size.h <= all.loc.y + all.size.h by {
            if i < n {
                assert(fewer[i] == geometries[i]);
            }
        }
    }
}

/// An absolute device's corner is the corner of the layout, its far corner the far corner, and in
/// between the pointer is as far along the layout as along the device.
pub proof fn an_absolute_device_spans_the_layout(all: Rect, x: u32, y: u32)
    requires
        all.size.w >= 0,
        all.size.h >= 0,
        x <= 0x10_0000,
        y <= 0x10_0000,
    ensures
        ({
            let to = across(all, x, y);
            let right = to.x - all.loc.x * 256;
            let down = to.y - all.loc.y * 256;
            &&& right * 0x10_0000 <= all.size.w * 256 * x < (right + 1) * 0x10_0000
            &&& down * 0x10_0000 <= all.size.h * 256 * y < (down + 1) * 0x10_0000
        }),
{
    let across_x = all.size.w * 256 * x / 0x10_0000;
    let across_y = all.size.h * 256 * y / 0x10_0000;
    assert(0 <= all.size.w * 256 * x <= 0x80_0000_0000 * 0x10_0000) by (nonlinear_arith)
        requires
            0 <= all.size.w * 256 <= 0x80_0000_0000,
            0 <= x <= 0x10_0000,
    ;
    assert(0 <= all.size.h * 256 * y <= 0x80_0000_0000 * 0x10_0000) by (nonlinear_arith)
        requires
            0 <= all.size.h * 256 <= 0x80_0000_0000,
            0 <= y <= 0x10_0000,
    ;
}

proof fn a_screen_has_its_geometry_listed(screens: Seq<Screen>, n: int) -> (j: int)
    requires
        0 <= n < screens.len(),
        screens[n].geometry is Some,
    ensures
        0 <= j < geometries_of(screens).len(),
        geometries_of(screens)[j] == screens[n].geometry->0,
    decreases screens.len(),
{
    let fewer = screens.drop_last();
    if n < fewer.len() {
        a_screen_has_its_geometry_listed(fewer, n)
    } else {
        geometries_of(fewer).len() as int
    }
}

/// A mouse moves the pointer by what it reports, wherever that is on a monitor.
pub proof fn a_mouse_moves_the_pointer_by_as_much(s: Scene, dx: i64, dy: i64, n: int)
    requires
        0 <= n < s.screens.len(),
        s.screens[n].geometry is Some,
        i64::MIN <= s.pointer.x + dx <= i64::MAX,
        i64::MIN <= s.pointer.y + dy <= i64::MAX,
        over(
            s.screens[n].geometry->0,
            Spot { x: (s.pointer.x + dx) as i64, y: (s.pointer.y + dy) as i64 },
        ),
    ensures
        pointed_at(s, InputEvent::PointerMotion { dx, dy }).x == s.pointer.x + dx,
        pointed_at(s, InputEvent::PointerMotion { dx, dy }).y == s.pointer.y + dy,
{
    let j = a_screen_has_its_geometry_listed(s.screens, n);
    let to = Spot { x: (s.pointer.x + dx) as i64, y: (s.pointer.y + dy) as i64 };
    assert(geometries_of(s.screens)[j].holds_spot(to));
}

/// Only motion moves the pointer, and everything that follows the pointer follows it to where it
/// went; a mouse's raw motion is reported besides.
pub proof fn what_follows_the_pointer_goes_along(s: Scene, event: InputEvent, bindings: Bindings)
    requires
        event is PointerMotion || event is PointerMotionAbsolute && exists|n: int|
            0 <= n < s.screens.len() && (#[trigger] s.screens[n]).geometry is Some,
    ensures
        ({
            let to = pointed_at(s, event);
            let steps = answered(s, event, bindings);
            &&& steps.contains(InputStep::Motion(to))
            &&& steps.contains(InputStep::DragIcon(to))
            &&& steps.contains(InputStep::HoverMenu(to))
            &&& steps.contains(InputStep::UpdateCursor(to))
            &&& steps.contains(InputStep::FollowPointer(to))
            &&& steps.contains(InputStep::Redraw)
            &&& steps.contains(InputStep::RelativeMotion) <==> event is PointerMotion
            &&& forall|k: int| 0 <= k < steps.len() ==> match #[trigger] steps[k] {
                InputStep::Motion(at) => at == to,
                InputStep::DragIcon(at) => at == to,
                InputStep::HoverMenu(at) => at == to,
                InputStep::UpdateCursor(at) => at == to,
                InputStep::FollowPointer(at) => at == to,
                InputStep::Button(_) => false,
                InputStep::ForwardKey => false,
                InputStep::Axis { .. } => false,
                _ => true,
            }
        }),
{
    let to = pointed_at(s, event);
    let steps = answered(s, event, bindings);
    let first = if event is PointerMotion {
        3int
    } else {
        let n = choose|n: int|
            0 <= n < s.screens.len() && (#[trigger] s.screens[n]).geometry is Some;
        let j = a_screen_has_its_geometry_listed(s.screens, n);
        2
    };
    assert(steps[1] == InputStep::Motion(to));
    assert(event is PointerMotion ==> steps[2] == InputStep::RelativeMotion);
    assert(steps[first] == InputStep::DragIcon(to));
    assert(steps[first + 1] == InputStep::HoverMenu(to));
    assert(steps[first + 2] == InputStep::UpdateCursor(to));
    assert(steps[first + 3] == InputStep::FollowPointer(to));
    assert(steps[first + 4] == InputStep::Redraw);
}

/// Nothing but motion moves the pointer.
pub proof fn only_motion_moves_the_pointer(s: Scene, event: InputEvent)
    requires
        !(event is PointerMotion),
        !(event is PointerMotionAbsolute),
    ensures
        pointed_at(s, event) == s.pointer,
{
}

/// Whether a press is one that the desktop answers: nothing holds the pointer, the session is not
/// locked, no tile waits to be put down and no menu is open.
pub open spec fn is_plain_press(f: ButtonFacts) -> bool {
    f.pressed && !f.grabbed && !f.locked && !f.icon_awaits_click && f.menu is None
}

/// A press gives the keyboard to the window under it, raises it where that is asked for, and goes
/// on to the client; a window that takes no focus gets the press alone.
pub proof fn a_press_is_for_the_window_under_it(f: ButtonFacts, window: u64)
    requires
        is_plain_press(f),
        !f.layer_covers,
        f.frame is None,
        f.window matches Some(hit) && hit.window == window,
    ensures
        ({
            let steps = routed(f);
            &&& steps[steps.len() - 1] == Step::Deliver
            &&& steps.contains(Step::FocusAndRaise(window)) <==> f.window->0.focusable
                && f.raise_on_click
            &&& steps.contains(Step::FocusInPlace(window)) <==> f.window->0.focusable
                && !f.raise_on_click
            &&& forall|k: int| 0 <= k < steps.len() ==> match #[trigger] steps[k] {
                Step::FocusAndRaise(id) => id == window,
                Step::FocusInPlace(id) => id == window,
                Step::Deliver => true,
                _ => false,
            }
        }),
{
    let steps = routed(f);
    if f.window->0.focusable {
        assert(steps[0] == if f.raise_on_click {
            Step::FocusAndRaise(window)
        } else {
            Step::FocusInPlace(window)
        });
    }
}

/// A press on a window's frame is for the frame alone, and one on a panel goes to the panel, which
/// gets the keyboard where it takes it.
pub proof fn a_press_on_a_frame_or_a_panel_is_for_that(f: ButtonFacts)
    requires
        is_plain_press(f),
    ensures
        !f.layer_covers ==> (f.frame matches Some(window) ==> routed(f) == seq![
            Step::PressFrame(window),
        ]),
        f.layer_covers ==> routed(f) == (match f.focusable_layer {
            Some(surface) => seq![Step::FocusLayer(surface), Step::Deliver],
            None => seq![Step::Deliver],
        }),
{
    if f.layer_covers {
        assert(routed(f) =~= (match f.focusable_layer {
            Some(surface) => seq![Step::FocusLayer(surface), Step::Deliver],
            None => seq![Step::Deliver],
        }));
    }
}

/// Where no window is, a left press takes hold of the tile under it and a right press opens its
/// menu; on the bare desktop the keyboard goes to a layer that takes it, or to nothing.
pub proof fn a_press_on_the_desktop_is_for_what_is_there(f: ButtonFacts)
    requires
        is_plain_press(f),
        !f.layer_covers,
        f.frame is None,
        f.window is None,
    ensures
        ({
            let steps = routed(f);
            &&& steps[steps.len() - 1] == Step::Deliver
            &&& f.icon matches Some(window) ==> {
                &&& f.button == 0x110 ==> steps == seq![Step::PressIcon(window), Step::Deliver]
                &&& f.button == 0x111 ==> steps == seq![Step::OpenIconMenu(window), Step::Deliver]
                &&& f.button != 0x110 && f.button != 0x111 ==> steps == seq![Step::Deliver]
            }
            &&& f.icon is None ==> (f.focusable_layer matches Some(surface) ==> steps == seq![
                Step::FocusLayer(surface),
                Step::Deliver,
            ])
            &&& f.icon is None && f.focusable_layer is None ==> steps == seq![
                Step::ClearFocus,
                Step::Deliver,
            ]
        }),
{
    let steps = routed(f);
    match f.icon {
        Some(window) => {
            if f.button == 0x110 {
                assert(steps =~= seq![Step::PressIcon(window), Step::Deliver]);
            } else if f.button == 0x111 {
                assert(steps =~= seq![Step::OpenIconMenu(window), Step::Deliver]);
            } else {
                assert(steps =~= seq![Step::Deliver]);
            }
        },
        None => {
            match f.focusable_layer {
                Some(surface) => {
                    assert(steps =~= seq![Step::FocusLayer(surface), Step::Deliver]);
                },
                None => {
                    assert(steps =~= seq![Step::ClearFocus, Step::Deliver]);
                },
            }
        },
    }
}

/// A press on an item of an open menu chooses it, for the window that the menu is of; one on a row
/// that cannot be chosen only takes the menu down; one beside the panel takes it down and is then
/// for what is there.
pub proof fn a_press_on_a_menu_chooses(f: ButtonFacts, hit: MenuHit)
    requires
        f.pressed,
        !f.grabbed,
        !f.locked,
        !f.icon_awaits_click,
        f.menu == Some(hit),
    ensures
        ({
            let steps = routed(f);
            let without = routed(ButtonFacts { menu: None, ..f });
            &&& hit.on_menu ==> (hit.chosen matches Some(action) ==> steps == seq![
                Step::CloseMenu,
                Step::Choose { window: hit.window, action },
            ])
            &&& hit.on_menu && hit.chosen is None ==> steps == seq![Step::CloseMenu]
            &&& !hit.on_menu ==> steps == seq![Step::CloseMenu] + without
        }),
{
}

/// Letting a button go ends a press on a frame and on a tile, and goes on to the client; while
/// something holds the pointer a press goes to the client alone.
pub proof fn a_release_ends_what_a_press_began(f: ButtonFacts)
    ensures
        !f.pressed ==> routed(f) == seq![Step::ReleaseFrame, Step::ReleaseIcon, Step::Deliver],
        f.pressed && f.grabbed ==> routed(f) == seq![Step::Deliver],
{
}

/// What a press finds of clients is what it was told, and a tile is looked for only where no
/// window is.
pub proof fn a_press_finds_what_is_there(s: Scene, press: Press)
    ensures
        ({
            let f = found_by(s, press);
            &&& f.pressed == press.pressed && f.button == press.button && f.grabbed
                == press.grabbed && f.locked == press.locked
            &&& f.layer_covers == press.layer_covers && f.focusable_layer
                == press.focusable_layer && f.frame == press.frame && f.window == press.window
            &&& f.raise_on_click == press.raise_on_click
            &&& f.icon_awaits_click <==> (s.icon_drag matches Some(drag) && drag.end
                == IconMove::NextClick)
            &&& f.menu is Some <==> s.window_menu is Some
            &&& f.menu matches Some(hit) ==> hit.window == s.window_menu->0.window && (hit.on_menu
                <==> ({
                let menu = s.window_menu->0;
                let high = height_of(menu.entries@, menu.entries@.len() as int) + 6;
                menu.origin.x * 256 <= s.pointer.x && s.pointer.x < (menu.origin.x + menu.width)
                    * 256 && menu.origin.y * 256 <= s.pointer.y && s.pointer.y < (menu.origin.y
                    + (high as i32)) * 256
            }))
            &&& press.window is Some ==> f.icon is None
            &&& press.pressed && press.window is None ==> f.icon == icon_at(s, s.pointer)
        }),
{
}

/// The rows of a menu are one below the other, from the panel's margin on.
pub proof fn rows_follow_one_another(menu: WindowMenu, i: int)
    requires
        menu.valid(),
        0 <= i < menu.entries@.len(),
    ensures
        ({
            let row = row_of(menu.entries@, menu.origin, menu.width, i);
            &&& row.loc.x == menu.origin.x + 3
            &&& row.size.w == menu.width - 6
            &&& row.size.h == menu.entries@[i].height
            &&& i == 0 ==> row.loc.y == menu.origin.y + 3
            &&& i > 0 ==> ({
                let above = row_of(menu.entries@, menu.origin, menu.width, i - 1);
                row.loc.y == above.loc.y + above.size.h
            })
        }),
{
    heights_are_sums(menu.entries@, i);
    heights_grow(menu.entries@, i, menu.entries@.len() as int);
    if i > 0 {
        heights_grow(menu.entries@, i - 1, menu.entries@.len() as int);
    }
}

proof fn heights_are_sums(entries: Seq<Entry>, i: int)
    requires
        0 <= i < entries.len(),
    ensures
        height_of(entries, 0) == 0,
        height_of(entries, i + 1) == height_of(entries, i) + entries[i].height,
{
}

/// The keyboard follows the pointer to the window under it where it is to, and stays where it is
/// while anything else has the pointer or no window is under it.
pub proof fn the_keyboard_follows_to_the_window(s: Scene, f: FollowFacts)
    ensures
        followed_to(s, f) matches Some(window) ==> f.window == Some(window) && f.by_pointer
            && !f.grabbed && !f.locked && !f.layer_covers && s.window_menu is None && s.icon_drag
            is None,
        f.by_pointer && !f.grabbed && !f.locked && !f.layer_covers && s.window_menu is None
            && s.icon_drag is None ==> followed_to(s, f) == f.window,
{
}

/// A key that is bound runs what it is bound to, on the window with the keyboard if that is on
/// screen, and is kept from clients; a key that runs nothing goes to the client.
pub proof fn a_key_runs_or_goes_on(
    s: Scene,
    mods: Modifiers,
    modified: u32,
    raw: Option<u32>,
    bindings: Bindings,
    keyboard: Option<u64>,
    order: Seq<Desk>,
    down: bool,
)
    ensures
        ({
            let event = InputEvent::Keyboard { pressed: down, mods, modified, raw };
            let run = key_run(s, event, bindings, keyboard, order);
            let steps = answered(s, event, bindings);
            &&& steps.contains(InputStep::ForwardKey) <==> run is None
            &&& down && !(0x1008fe01 <= modified <= 0x1008fe0c) ==> (run is None <==> pressed(
                bindings.table(),
                mods,
                modified,
                raw,
            ) is None)
            &&& down && !(0x1008fe01 <= modified <= 0x1008fe0c) ==> (pressed(
                bindings.table(),
                mods,
                modified,
                raw,
            ) matches Some(action) ==> run == Some(
                bound_run(
                    s,
                    action,
                    if keyboard is Some && stacked(s.stack, keyboard->0) {
                        keyboard
                    } else {
                        None
                    },
                    order,
                ),
            ))
            &&& down && 0x1008fe01 <= modified <= 0x1008fe0c ==> run == Some(
                Run::SwitchVt((modified - 0x1008fe00) as i32),
            )
        }),
{
    let event = InputEvent::Keyboard { pressed: down, mods, modified, raw };
    let steps = answered(s, event, bindings);
    if keyboard is Some {
        located_is_stacked(s.stack, keyboard->0);
    }
    if key_fate(down, mods, modified, raw, bindings) is Forward {
        assert(steps[1] == InputStep::ForwardKey);
    }
}

/// A scroll is passed on as far as it went: by what the device says, or by its notches where it
/// says no more; a finger that comes to rest ends it, and one of no length is no scroll.
pub proof fn a_scroll_is_passed_on(f: AxisFacts, finger: bool)
    ensures
        ({
            let report = reported(f, finger);
            &&& f.amount matches Some(n) ==> (n != 0 ==> report.value == Some(Scrolled::Amount(n)))
            &&& f.amount is None ==> (f.v120 matches Some(n) ==> (n != 0 ==> report.value == Some(
                Scrolled::Notches(n),
            )))
            &&& report.value is None <==> (match f.amount {
                Some(n) => n == 0,
                None => match f.v120 {
                    Some(n) => n == 0,
                    None => true,
                },
            })
            &&& report.value is Some ==> report.v120 == f.v120
            &&& report.stop <==> finger && f.amount == Some(0i64)
        }),
{
}

/// Whether a window is minimized on a desk that is shown, held aside, with its tile in a cell that
/// no other such window's is in.
pub open spec fn has_its_tile_in(s: Scene, i: int, cell: usize) -> bool {
    let w = s.windows[i];
    &&& listed_once(s.windows, i)
    &&& w.state.minimized
    &&& w.state.desk == s.active || w.state.desk == Desk::Global
    &&& s.hidden.contains(w.id)
    &&& w.state.icon_slot == Some(cell)
    &&& forall|other: u64|
        other != w.id && s.hidden.contains(other) ==> #[trigger] icon_cell(s, other) != Some(cell)
}

/// A spot on a tile is on the tile of the window whose cell it is: the cells are numbered along
/// the rows from the corner of the first screen's work area.
pub proof fn a_tile_is_hit_where_it_is(s: Scene, i: int, cell: usize, grid: Grid, at: Spot)
    requires
        has_its_tile_in(s, i, cell),
        grid_of(s) == Some(grid),
        grid.valid(),
        ({
            let x = grid.area.loc.x + grid.metrics.margin + (cell as int % grid.cols as int)
                * grid.metrics.tile_w;
            let y = grid.area.loc.y + grid.metrics.margin + (cell as int / grid.cols as int)
                * grid.metrics.tile_h;
            &&& x * 256 <= at.x < (x + grid.metrics.tile_w) * 256
            &&& y * 256 <= at.y < (y + grid.metrics.tile_h) * 256
        }),
    ensures
        icon_at(s, at) == Some(s.windows[i].id),
{
    let w = s.windows[i];
    a_listed_window_is_found(s.windows, i);
    a_slots_tile_is_on_that_slot(grid, cell as int, at);
    shown_icons_list(s, w.id, cell);
    icon_in_cell_is_listed(shown_icons(s), cell, None);
    let found = icon_at(s, at);
    assert(found is Some);
    shown_icons_list(s, found->0, cell);
}

/// As many tiles are side by side as fit between the margins, and one at the least.
pub proof fn as_many_columns_as_fit(width: int, metrics: IconMetrics)
    requires
        metrics.valid(),
    ensures
        ({
            let n = columns(width, metrics);
            &&& n >= 1
            &&& n > 1 ==> n * metrics.tile_w + 2 * metrics.margin <= width
            &&& (n + 1) * metrics.tile_w + 2 * metrics.margin > width
        }),
{
    let usable = width - 2 * metrics.margin;
    let tile = metrics.tile_w as int;
    if usable >= tile {
        vstd::arithmetic::div_mod::lemma_fundamental_div_mod(usable, tile);
        let n = usable / tile;
        assert(n >= 1) by (nonlinear_arith)
            requires
                usable >= tile,
                tile > 0,
                n == usable / tile,
        ;
        assert((n + 1) * tile == tile * n + tile && n * tile == tile * n) by (nonlinear_arith);
    } else {
        assert(2 * tile > usable);
        assert((columns(width, metrics) + 1) * tile == 2 * tile) by (nonlinear_arith)
            requires
                columns(width, metrics) == 1,
        ;
    }
}

/// A tile that is pressed and let go without being dragged restores its window; one that has been
/// dragged takes the cell under it and its window stays minimized.
pub proof fn a_click_on_a_tile_restores(s: Scene, i: int, drag: IconDrag, at: Spot)
    requires
        tidy(s),
        listed_once(s.windows, i),
        s.windows[i].state.minimized,
        s.windows[i].state.desk == s.active || s.windows[i].state.desk == Desk::Global,
        s.icon_drag == Some(drag),
        drag.window == s.windows[i].id,
        drag.end == IconMove::Drag,
    ensures
        ({
            let (after, asked) = released(s, at);
            &&& after.icon_drag is None
            &&& !drag.moved ==> exists|said: Seq<Effect>|
                brought_back(s, i, after, said) && #[trigger] said.push(Effect::Redraw) == asked
            &&& drag.moved ==> after.windows[i].state.minimized && after.stack == s.stack
                && after.hidden == s.hidden
        }),
{
    let held = Scene { icon_drag: None, ..s };
    a_listed_window_is_found(s.windows, i);
    if !drag.moved {
        assert(tidy(held)) by {
            assert(held.stack == s.stack && held.hidden == s.hidden && held.windows == s.windows);
        }
        a_restored_window_is_brought_back(held, i);
        let (after, said) = restore(held, drag.window);
        assert(brought_back(s, i, after, said));
        assert(said.push(Effect::Redraw) == released(s, at).1);
    } else {
        tiles_stay_minimized(held, drag, at, i);
    }
}

proof fn tiles_stay_minimized(s: Scene, drag: IconDrag, at: Spot, i: int)
    requires
        listed_once(s.windows, i),
    ensures
        ({
            let after = put_down(s, drag, at);
            &&& after.windows.len() == s.windows.len()
            &&& after.windows[i].state.minimized == s.windows[i].state.minimized
            &&& after.stack == s.stack
            &&& after.hidden == s.hidden
            &&& after.icon_drag == s.icon_drag
        }),
{
    if grid_of(s) is Some {
        let dropped = IconDrag { current: at, ..drag };
        let cell = grid_of(s)->0.slot_under(tile_middle(s, dropped));
        if cell is Some {
            a_moved_tile_stays_minimized(s, drag.window, cell->0 as usize, i);
        }
    }
}

proof fn a_moved_tile_stays_minimized(s: Scene, id: u64, cell: usize, i: int)
    requires
        listed_once(s.windows, i),
    ensures
        ({
            let after = move_to_cell(s, id, cell);
            &&& after.windows.len() == s.windows.len()
            &&& after.windows[i].state.minimized == s.windows[i].state.minimized
            &&& after.stack == s.stack
            &&& after.hidden == s.hidden
            &&& after.icon_drag == s.icon_drag
        }),
{
    if find(s.windows, id) is Some {
        let w = find(s.windows, id)->0;
        a_listed_window_is_found(s.windows, i);
        let k = found_is_listed(s.windows, id);
        let there = icon_in_cell(shown_icons(s), cell as int, Some(id));
        if there is Some && find(s.windows, there->0) is Some {
            let m = found_is_listed(s.windows, there->0);
            assert(s.windows[i].id == there->0 ==> find(s.windows, there->0) == Some(s.windows[i]));
        }
        assert(s.windows[i].id == id ==> w == s.windows[i]);
    }
}

/// A press becomes a drag once the pointer is more than six pixels from where it went down, and
/// stays one; until then the tile is where it was grabbed.
pub proof fn a_press_becomes_a_drag(drag: IconDrag, at: Spot)
    ensures
        ({
            let now = drag.dragged_to(at);
            let dx = at.x - drag.press.x;
            let dy = at.y - drag.press.y;
            &&& now.moved <==> drag.moved || dx * dx + dy * dy > 1536 * 1536
            &&& now.current == at && now.press == drag.press && now.window == drag.window
            &&& now.grab_offset == drag.grab_offset && now.end == drag.end
        }),
{
}

} // verus!

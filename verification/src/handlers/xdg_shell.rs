//! Toplevels and popups: placing a window once its size is known, keeping a menu on its screen,
//! and letting go of a window that is gone.
use vstd::prelude::*;

use crate::geometry::{fits, Point, Rect};
use crate::menu::without_menu;
use crate::outcomes::{at_home_is_its_screen, is_at_home};
use crate::placement::{can_open, opening_position, placed_at};
use crate::stacking::{
    a_stacked_window_is_located, each_once, ids_without_keeps_the_rest, located_is_stacked,
    without_keeps_the_rest,
};
use crate::state::{
    a_listed_window_is_found, find, ids_without, listed_once, location, without, Effect, Scene,
    Window, Wlrix,
};
use crate::window_ops::{opening_screen, screen_of};

verus! {

/// The rectangle a popup may occupy, in its parent surface's coordinates.
pub open spec fn bounds(output: Rect, window: Point, offset: Point) -> Rect {
    Rect {
        loc: Point {
            x: (output.loc.x - offset.x - window.x) as i32,
            y: (output.loc.y - offset.y - window.y) as i32,
        },
        size: output.size,
    }
}

/// Whether `i32`s hold a popup's bounds on the way there.
pub open spec fn bounds_fit(output: Rect, window: Point, offset: Point) -> bool {
    &&& fits(output.loc.x - offset.x)
    &&& fits(output.loc.y - offset.y)
    &&& fits(output.loc.x - offset.x - window.x)
    &&& fits(output.loc.y - offset.y - window.y)
}

/// The rectangle a popup is allowed to occupy, in its parent surface's coordinates: the output it
/// must stay on, moved back by where the window sits and by where the parent surface sits in it.
pub fn popup_bounds(output_geometry: Rect, window_location: Point, toplevel_offset: Point) -> (target:
    Rect)
    requires
        bounds_fit(output_geometry, window_location, toplevel_offset),
    ensures
        target == bounds(output_geometry, window_location, toplevel_offset),
{
    Rect {
        loc: Point {
            x: output_geometry.loc.x - toplevel_offset.x - window_location.x,
            y: output_geometry.loc.y - toplevel_offset.y - window_location.y,
        },
        size: output_geometry.size,
    }
}

/// A popup may open wherever the part of its window that is on the output is.
pub proof fn a_popup_may_open_on_its_windows_output(output: Rect, window: Point, p: Point)
    requires
        bounds_fit(output, window, Point { x: 0, y: 0 }),
        output.reaches(),
        bounds(output, window, Point { x: 0, y: 0 }).reaches(),
        fits(window.x + p.x),
        fits(window.y + p.y),
    ensures
        bounds(output, window, Point { x: 0, y: 0 }).holds(p) == output.holds(
            Point { x: (window.x + p.x) as i32, y: (window.y + p.y) as i32 },
        ),
{
}

/// The bounds of a popup of a window: none where the window is not on screen or there is no
/// screen to keep it on.
pub open spec fn popup_target(s: Scene, id: u64, offset: Point) -> Option<Rect> {
    match (find(s.windows, id), location(s.stack, id)) {
        (Some(w), Some(loc)) => match screen_of(s, w) {
            Some(screen) => match screen.geometry {
                Some(geometry) => Some(bounds(geometry, loc, offset)),
                None => None,
            },
            None => None,
        },
        _ => None,
    }
}

/// Whether the popups of a window have bounds that `i32`s hold.
pub open spec fn popup_fits(s: Scene, id: u64, offset: Point) -> bool {
    find(s.windows, id) matches Some(w) ==> (location(s.stack, id) matches Some(loc) ==> (screen_of(
        s,
        w,
    ) matches Some(screen) ==> (screen.geometry matches Some(geometry) ==> bounds_fit(
        geometry,
        loc,
        offset,
    ))))
}

/// What is known of the pointer when a client asks for a drag.
#[derive(Debug, Clone, Copy, PartialEq, Eq)]
pub struct GrabFacts {
    /// Whether the pointer is held by the click that the request names.
    pub has_grab: bool,
    /// Where that click began: whether it was on a surface of the same client, or on none.
    pub start_focus: Option<bool>,
}

/// Whether a client may start a drag: only from a click of its own. `pointer` is nothing where
/// there is no pointer.
pub fn check_grab(pointer: Option<GrabFacts>) -> (r: bool)
    ensures
        r == (pointer matches Some(f) && f.has_grab && f.start_focus == Some(true)),
{
    match pointer {
        Some(f) => {
            f.has_grab && match f.start_focus {
                Some(same_client) => same_client,
                None => false,
            }
        },
        None => false,
    }
}

/// What a commit on a toplevel gave.
pub struct Committed {
    /// Whether the window is to be sent its first configure.
    pub configure: bool,
    /// What placing it asks, where it was placed just now.
    pub placed: Option<Vec<Effect>>,
}

/// The windows without one.
pub open spec fn windows_without(windows: Seq<Window>, id: u64) -> Seq<Window>
    decreases windows.len(),
{
    if windows.len() == 0 {
        windows
    } else if windows.last().id == id {
        windows_without(windows.drop_last(), id)
    } else {
        windows_without(windows.drop_last(), id).push(windows.last())
    }
}

/// The scene without a window, and without its menu.
pub open spec fn forgotten(s: Scene, id: u64) -> Scene {
    Scene {
        windows: windows_without(s.windows, id),
        stack: without(s.stack, id),
        hidden: ids_without(s.hidden, id),
        ..without_menu(s, id)
    }
}

/// Whether a window is on screen or held aside.
pub open spec fn known(s: Scene, id: u64) -> bool {
    location(s.stack, id) is Some || s.hidden.contains(id)
}

impl Wlrix {
    /// The bounds that a popup of a window is kept in; none where there is nothing to keep it to,
    /// which is better than an empty rectangle that the popup would be shrunk to fit.
    pub fn unconstrain_popup(&self, id: u64, offset: Point) -> (target: Option<Rect>)
        requires
            popup_fits(self@, id, offset),
        ensures
            target == popup_target(self@, id, offset),
    {
        let w = match self.window(id) {
            Some(w) => w,
            None => {
                return None;
            },
        };
        let loc = match self.element_location(id) {
            Some(loc) => loc,
            None => {
                return None;
            },
        };
        let screen = match self.screen_of(&w) {
            Some(screen) => screen,
            None => {
                return None;
            },
        };
        match screen.geometry {
            Some(geometry) => Some(popup_bounds(geometry, loc, offset)),
            None => None,
        }
    }

    /// The rectangle that a resize of a window starts from: where it is on screen, and its size.
    pub fn resize_start(&self, id: u64) -> (start: Option<Rect>)
        ensures
            start == match (find(self@.windows, id), location(self@.stack, id)) {
                (Some(w), Some(loc)) => Some(Rect { loc, size: w.size }),
                _ => None,
            },
    {
        match self.window(id) {
            Some(w) => match self.element_location(id) {
                Some(loc) => Some(Rect { loc, size: w.size }),
                None => None,
            },
            None => None,
        }
    }

    /// A toplevel committed: it is sent its first configure where it has not had it, and given a
    /// position once its size is known.
    pub fn handle_commit(&mut self, id: u64, initial_configure_sent: bool) -> (outcome: Committed)
        requires
            find(old(self)@.windows, id) matches Some(w) ==> (!w.placed && w.size.w > 0 && w.size.h
                > 0 ==> (opening_screen(old(self)@, w) matches Some(screen) ==> can_open(
                old(self)@,
                screen,
                w,
                w.size,
            ))),
        ensures
            outcome.configure == !initial_configure_sent,
            match outcome.placed {
                Some(effects) => ({
                    let w = find(old(self)@.windows, id)->0;
                    let screen = opening_screen(old(self)@, w)->0;
                    let at = opening_position(old(self)@, screen, w, w.size);
                    &&& find(old(self)@.windows, id) is Some
                    &&& opening_screen(old(self)@, w) is Some
                    &&& !w.placed && w.size.w > 0 && w.size.h > 0
                    &&& final(self)@ == placed_at(old(self)@, w, at)
                    &&& effects@ == seq![Effect::Show { window: id, at, activate: false }]
                }),
                None => {
                    &&& final(self)@ == old(self)@
                    &&& find(old(self)@.windows, id) matches Some(w) ==> w.placed || w.size.w <= 0
                        || w.size.h <= 0 || opening_screen(old(self)@, w) is None
                },
            },
    {
        let placed = self.place_if_new(id);
        Committed { configure: !initial_configure_sent, placed }
    }

    /// Whether a window is on screen or held aside.
    pub fn knows(&self, id: u64) -> (r: bool)
        ensures
            r == known(self@, id),
    {
        if self.element_location(id).is_some() {
            return true;
        }
        let mut i: usize = 0;
        while i < self.hidden.len()
            invariant
                i <= self.hidden@.len(),
                forall|j: int| 0 <= j < i ==> self.hidden@[j] != id,
            decreases self.hidden.len() - i,
        {
            if self.hidden[i] == id {
                return true;
            }
            i += 1;
        }
        false
    }

    /// The window that a toplevel backs, whether it is on screen or held aside.
    pub fn window_for_toplevel(&self, id: u64) -> (window: Option<Window>)
        ensures
            window == if known(self@, id) {
                find(self@.windows, id)
            } else {
                None
            },
    {
        if self.knows(id) {
            self.window(id)
        } else {
            None
        }
    }

    /// Lets go of a window that is gone, and takes its menu down.
    pub fn forget_window(&mut self, id: u64)
        ensures
            final(self)@ == forgotten(old(self)@, id),
    {
        self.unmap(id);
        self.unhide(id);
        self.forget_window_menu(id);
        let ghost before = self.windows@;
        let mut rest: Vec<Window> = Vec::new();
        let mut i: usize = 0;
        assert(before.take(0) =~= Seq::empty());
        while i < self.windows.len()
            invariant
                i <= before.len(),
                self.windows@ == before,
                rest@ == windows_without(before.take(i as int), id),
                self@ == (Scene {
                    stack: without(old(self)@.stack, id),
                    hidden: ids_without(old(self)@.hidden, id),
                    ..without_menu(old(self)@, id)
                }),
            decreases self.windows.len() - i,
        {
            let w = self.windows[i];
            i += 1;
            assert(before.take(i as int).drop_last() =~= before.take(i - 1));
            if w.id != id {
                rest.push(w);
            }
        }
        assert(before.take(before.len() as int) =~= before);
        self.windows = rest;
    }

    /// A toplevel is gone. It may be on a desk that is not shown, so the windows held aside are
    /// looked through too; the keyboard goes to the window that is now topmost. Says whether the
    /// window was known.
    pub fn toplevel_destroyed(&mut self, id: u64) -> (gone: (bool, Vec<Effect>))
        ensures
            gone.0 == known(old(self)@, id),
            final(self)@ == if gone.0 {
                forgotten(old(self)@, id)
            } else {
                old(self)@
            },
            gone.1@ == (if gone.0 {
                seq![Effect::Unmap { window: id }]
            } else {
                Seq::empty()
            }) + seq![Effect::FocusTopmost, Effect::DesksChanged, Effect::Redraw],
    {
        let mut effects: Vec<Effect> = Vec::new();
        let was_known = self.knows(id);
        if was_known {
            self.forget_window(id);
            effects.push(Effect::Unmap { window: id });
        }
        effects.push(Effect::FocusTopmost);
        effects.push(Effect::DesksChanged);
        effects.push(Effect::Redraw);
        assert(effects@ =~= (if was_known {
            seq![Effect::Unmap { window: id }]
        } else {
            Seq::empty()
        }) + seq![Effect::FocusTopmost, Effect::DesksChanged, Effect::Redraw]);
        (was_known, effects)
    }
}

proof fn windows_without_keeps_the_rest(windows: Seq<Window>, id: u64, other: u64)
    ensures
        find(windows_without(windows, id), other) == if other == id {
            None
        } else {
            find(windows, other)
        },
    decreases windows.len(),
{
    if windows.len() > 0 {
        windows_without_keeps_the_rest(windows.drop_last(), id, other);
        let rest = windows_without(windows.drop_last(), id);
        if windows.last().id != id {
            assert(rest.push(windows.last()).drop_last() =~= rest);
        }
    }
}

/// A window that was let go of is nowhere and has no menu open, and the others are where they
/// were; a menu of theirs stays open.
pub proof fn forgetting_keeps_the_others(s: Scene, id: u64, other: u64)
    ensures
        !known(forgotten(s, id), id),
        find(forgotten(s, id).windows, id) is None,
        !(forgotten(s, id).window_menu matches Some(m) && m.window == id),
        !(forgotten(s, id).last_menu_click matches Some(c) && c.window == id),
        other != id ==> {
            &&& find(forgotten(s, id).windows, other) == find(s.windows, other)
            &&& location(forgotten(s, id).stack, other) == location(s.stack, other)
            &&& forgotten(s, id).hidden.contains(other) == s.hidden.contains(other)
            &&& (s.window_menu matches Some(m) && m.window == other) ==> forgotten(s, id).window_menu
                == s.window_menu
        },
{
    windows_without_keeps_the_rest(s.windows, id, id);
    windows_without_keeps_the_rest(s.windows, id, other);
    without_keeps_the_rest(s.stack, id, id);
    located_is_stacked(without(s.stack, id), id);
    without_keeps_the_rest(s.stack, id, other);
    ids_without_keeps_the_rest(s.hidden, id, id);
    ids_without_keeps_the_rest(s.hidden, id, other);
}

/// A popup of a window that is on screen is kept to the screen that the window is on: its bounds
/// start where that screen does, seen from the parent surface, and are as large.
pub proof fn a_popup_is_kept_to_its_windows_screen(
    s: Scene,
    i: int,
    k: int,
    n: int,
    geometry: Rect,
    offset: Point,
)
    requires
        each_once(s.stack),
        listed_once(s.windows, i),
        0 <= k < s.stack.len(),
        s.stack[k].id == s.windows[i].id,
        is_at_home(s, s.windows[i], n),
        s.screens[n].geometry == Some(geometry),
        popup_fits(s, s.windows[i].id, offset),
    ensures
        popup_target(s, s.windows[i].id, offset) matches Some(target) && target.loc.x + offset.x
            + s.stack[k].loc.x == geometry.loc.x && target.loc.y + offset.y + s.stack[k].loc.y
            == geometry.loc.y && target.size == geometry.size,
{
    a_listed_window_is_found(s.windows, i);
    a_stacked_window_is_located(s.stack, k);
    at_home_is_its_screen(s, s.windows[i], n);
}

/// A drag is started by a click on the client's own surface that still holds the pointer, and by
/// nothing else.
pub proof fn a_drag_starts_with_a_click_of_its_own(pointer: Option<GrabFacts>, allowed: bool)
    requires
        call_ensures(check_grab, (pointer,), allowed),
    ensures
        allowed ==> pointer is Some && pointer->0.has_grab && pointer->0.start_focus == Some(true),
        pointer is Some && pointer->0.has_grab && pointer->0.start_focus == Some(true) ==> allowed,
{
}

} // verus!

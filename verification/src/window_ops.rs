//! Window operations: the single set that client requests, the window menu and the key bindings
//! drive. Each changes the desktop and says what is to be asked of the outside.
//!
//! A window on a desk that is not shown is held aside, so an operation updates its state and
//! settles whether it belongs on screen.
use vstd::prelude::*;

use crate::state::{
    at_bottom, fills, find, find_screen, first_screen, found_is_listed, ids_without, location,
    on_top, put, put_is_found, screen_under, without, Covering, Desk, Wlrix, Effect, Mapped,
    Scene, Screen, Shell, Window, WindowState,
};
use crate::geometry::{larger, max, Insets, Point, Rect, Size};
use crate::minimized::{is_among, Grid};
use crate::stacking::{
    at_bottom_keeps_the_rest, banded, each_once, ids_without_keeps_the_rest, located_is_stacked,
    on_top_keeps_the_rest, without_keeps_the_rest,
};

verus! {

/// A desktop, and what is asked of the outside.
pub type Outcome = (Scene, Seq<Effect>);

/// The screen that a window which has been placed is on.
pub open spec fn screen_of(s: Scene, w: Window) -> Option<Screen> {
    match w.home {
        Some(home) => match find_screen(s.screens, home) {
            Some(screen) => Some(screen),
            None => first_screen(s.screens),
        },
        None => first_screen(s.screens),
    }
}

/// The screen that the pointer is on, or else the first.
pub open spec fn pointer_screen(s: Scene) -> Option<Screen> {
    match screen_under(s.screens, s.pointer) {
        Some(screen) => Some(screen),
        None => first_screen(s.screens),
    }
}

/// The window that a window is a dialog of, where that one is on screen.
pub open spec fn parent_shown(s: Scene, w: Window) -> Option<Window> {
    match w.parent {
        Some(parent) => if location(s.stack, parent) is Some {
            find(s.windows, parent)
        } else {
            None
        },
        None => None,
    }
}

/// The screen that a new window opens on: its parent's, or else the pointer's.
pub open spec fn opening_screen(s: Scene, w: Window) -> Option<Screen> {
    match parent_shown(s, w) {
        Some(parent) => match parent.home {
            Some(home) => match find_screen(s.screens, home) {
                Some(screen) => Some(screen),
                None => pointer_screen(s),
            },
            None => pointer_screen(s),
        },
        None => pointer_screen(s),
    }
}

/// The screen that a window is to cover: the one it is on, or for a window that has no position
/// yet, the one it will open on.
pub open spec fn covered_screen(s: Scene, w: Window) -> Option<Screen> {
    if w.placed {
        screen_of(s, w)
    } else {
        opening_screen(s, w)
    }
}

/// The contents of a window whose frame fills an area.
pub open spec fn filling(area: Rect, insets: Insets) -> Rect {
    Rect {
        loc: Point { x: (area.loc.x + insets.left) as i32, y: (area.loc.y + insets.top) as i32 },
        size: Size {
            w: max(area.size.w - insets.left - insets.right, 1) as i32,
            h: max(area.size.h - insets.top - insets.bottom, 1) as i32,
        },
    }
}

/// What a window is told when it enters or leaves a state.
pub open spec fn told(w: Window, covering: Covering, on: bool, geometry: Option<Rect>) -> Seq<
    Effect,
> {
    match w.shell {
        Shell::Wayland => seq![
            Effect::Pending { window: w.id, covering, on },
            Effect::PendingSize {
                window: w.id,
                size: match geometry {
                    Some(g) => Some(g.size),
                    None => None,
                },
            },
            Effect::Configure { window: w.id },
        ],
        Shell::X11 => match geometry {
            Some(g) => seq![
                Effect::X11State { window: w.id, covering, on },
                Effect::X11Configure { window: w.id, geometry: g },
            ],
            None => seq![Effect::X11State { window: w.id, covering, on }],
        },
    }
}

/// The stack and what is asked when a window that is on screen moves to a position; a window
/// that is not stays off it.
pub open spec fn moved(s: Scene, w: Window, at: Point) -> Outcome {
    if location(s.stack, w.id) is Some {
        (
            Scene { stack: on_top(s.stack, Mapped { id: w.id, z: w.z, loc: at }), ..s },
            seq![Effect::Show { window: w.id, at, activate: true }],
        )
    } else {
        (s, Seq::empty())
    }
}

/// The window with another state.
pub open spec fn with_state(w: Window, state: WindowState) -> Window {
    Window { state, ..w }
}

/// The desktop with a window's state replaced.
pub open spec fn remember(s: Scene, w: Window, state: WindowState) -> Scene {
    Scene { windows: put(s.windows, with_state(w, state)), ..s }
}

pub open spec fn announced() -> Seq<Effect> {
    seq![Effect::DesksChanged, Effect::Redraw]
}

/// Where a window is and how large, where it has been on screen and has a size.
pub open spec fn shown_geometry(s: Scene, w: Window) -> Option<Rect> {
    match location(s.stack, w.id) {
        Some(loc) => if w.placed && w.size.w > 0 && w.size.h > 0 {
            Some(Rect { loc, size: w.size })
        } else {
            None
        },
        None => None,
    }
}

/// `first`, or else `second`.
pub open spec fn either(first: Option<Rect>, second: Option<Rect>) -> Option<Rect> {
    if first is Some {
        first
    } else {
        second
    }
}

/// Covering a rectangle with a window that has been given a state: it is told, and goes there.
pub open spec fn covered(s: Scene, w: Window, covering: Covering, target: Rect) -> Outcome {
    let (shown, show) = moved(s, w, target.loc);
    (shown, told(w, covering, true, Some(target)) + show)
}

/// Maximizing a window: its frame fills its screen's work area. A fullscreen window is only
/// marked, so that it comes back maximized; one that says it cannot be maximized is left alone.
pub open spec fn maximize(s: Scene, id: u64) -> Outcome {
    match find(s.windows, id) {
        None => (s, Seq::empty()),
        Some(w) => if w.state.maximized {
            (s, Seq::empty())
        } else if w.state.fullscreen {
            (
                remember(s, w, WindowState { maximized: true, ..w.state }),
                seq![Effect::DesksChanged],
            )
        } else if !w.maximizable {
            (s, Seq::empty())
        } else {
            match covered_screen(s, w) {
                None => (s, Seq::empty()),
                Some(screen) => {
                    let target = filling(screen.area(), w.insets);
                    let marked = remember(
                        s,
                        w,
                        WindowState {
                            maximized: true,
                            restore_geo: either(shown_geometry(s, w), w.state.restore_geo),
                            last_pos: target.loc,
                            ..w.state
                        },
                    );
                    let (after, asked) = covered(marked, w, Covering::Maximized, target);
                    (after, asked + announced())
                },
            }
        },
    }
}

/// Going back from a state: the window is told, and goes to where it was, if that is known.
pub open spec fn went_back(s: Scene, w: Window, covering: Covering, state: WindowState, back: Option<
    Rect,
>) -> Outcome {
    match back {
        Some(g) => {
            let marked = remember(s, w, WindowState { last_pos: g.loc, ..state });
            let (after, show) = moved(marked, w, g.loc);
            (after, told(w, covering, false, back) + show + announced())
        },
        None => (remember(s, w, state), told(w, covering, false, back) + announced()),
    }
}

/// Un-maximizing a window: it goes back to its earlier geometry. A fullscreen window is only
/// unmarked.
pub open spec fn unmaximize(s: Scene, id: u64) -> Outcome {
    match find(s.windows, id) {
        None => (s, Seq::empty()),
        Some(w) => if w.state.fullscreen {
            (
                remember(s, w, WindowState { maximized: false, ..w.state }),
                seq![Effect::DesksChanged],
            )
        } else if !w.state.maximized {
            (s, Seq::empty())
        } else {
            went_back(
                s,
                w,
                Covering::Maximized,
                WindowState { maximized: false, restore_geo: None, ..w.state },
                w.state.restore_geo,
            )
        },
    }
}

/// Making a window cover a whole screen: the one it names, or else the one it is on.
pub open spec fn fullscreen(s: Scene, id: u64, named: Option<Screen>) -> Outcome {
    match find(s.windows, id) {
        None => (s, Seq::empty()),
        Some(w) => if w.state.fullscreen {
            (s, Seq::empty())
        } else {
            let screen = if named is Some {
                named
            } else {
                covered_screen(s, w)
            };
            match screen {
                Some(Screen { geometry: Some(target), .. }) => {
                    let marked = remember(
                        s,
                        w,
                        WindowState {
                            fullscreen: true,
                            pre_fullscreen: either(shown_geometry(s, w), w.state.pre_fullscreen),
                            last_pos: target.loc,
                            ..w.state
                        },
                    );
                    let (after, asked) = covered(marked, w, Covering::Fullscreen, target);
                    (after, asked + announced())
                },
                _ => (s, Seq::empty()),
            }
        },
    }
}

/// What a window that leaves fullscreen for maximized is told first.
pub open spec fn told_not_fullscreen(w: Window) -> Seq<Effect> {
    match w.shell {
        Shell::Wayland => seq![
            Effect::Pending { window: w.id, covering: Covering::Fullscreen, on: false },
        ],
        Shell::X11 => seq![
            Effect::X11State { window: w.id, covering: Covering::Fullscreen, on: false },
        ],
    }
}

/// Taking a window out of fullscreen: one that was maximized underneath fills the work area
/// again, another goes back to its earlier geometry.
pub open spec fn unfullscreen(s: Scene, id: u64) -> Outcome {
    match find(s.windows, id) {
        None => (s, Seq::empty()),
        Some(w) => if !w.state.fullscreen {
            (s, Seq::empty())
        } else {
            let state = WindowState { fullscreen: false, pre_fullscreen: None, ..w.state };
            if w.state.maximized {
                match screen_of(s, w) {
                    Some(screen) => {
                        let target = filling(screen.area(), w.insets);
                        let marked = remember(
                            s,
                            w,
                            WindowState { last_pos: target.loc, ..state },
                        );
                        let (after, asked) = covered(marked, w, Covering::Maximized, target);
                        (after, told_not_fullscreen(w) + asked + announced())
                    },
                    None => (remember(s, w, state), told_not_fullscreen(w) + announced()),
                }
            } else {
                went_back(s, w, Covering::Fullscreen, state, w.state.pre_fullscreen)
            }
        },
    }
}

impl Wlrix {
    /// The screen that a window which has been placed is on.
    pub(crate) fn screen_of(&self, w: &Window) -> (screen: Option<Screen>)
        ensures
            screen == screen_of(self@, *w),
    {
        if let Some(home) = w.home {
            if let Some(screen) = self.screen(home) {
                return Some(screen);
            }
        }
        self.primary()
    }

    /// The screen that the pointer is on, falling back to the first available one.
    pub fn output_for_pointer(&self) -> (screen: Option<Screen>)
        ensures
            screen == pointer_screen(self@),
    {
        match self.screen_at_spot(self.pointer) {
            Some(screen) => Some(screen),
            None => self.primary(),
        }
    }

    /// The window that `w` is a dialog of, if it named one and that window is on screen.
    pub fn parent_of(&self, w: &Window) -> (parent: Option<Window>)
        ensures
            parent == parent_shown(self@, *w),
    {
        match w.parent {
            Some(parent) => {
                if self.element_location(parent).is_some() {
                    self.window(parent)
                } else {
                    None
                }
            },
            None => None,
        }
    }

    /// The screen that a new window opens on: its parent's, or else the pointer's.
    pub fn output_for_new_window(&self, w: &Window) -> (screen: Option<Screen>)
        ensures
            screen == opening_screen(self@, *w),
    {
        if let Some(parent) = self.parent_of(w) {
            if let Some(home) = parent.home {
                if let Some(screen) = self.screen(home) {
                    return Some(screen);
                }
            }
        }
        self.output_for_pointer()
    }

    fn covered_screen(&self, w: &Window) -> (screen: Option<Screen>)
        ensures
            screen == covered_screen(self@, *w),
    {
        if w.placed {
            self.screen_of(w)
        } else {
            self.output_for_new_window(w)
        }
    }

    /// Replaces what is remembered of a window.
    pub(crate) fn remember(&mut self, w: &Window, state: WindowState)
        ensures
            final(self)@ == remember(old(self)@, *w, state),
    {
        let mut changed = *w;
        changed.state = state;
        self.set_window(changed);
    }

    fn shown_geometry(&self, w: &Window) -> (geometry: Option<Rect>)
        ensures
            geometry == shown_geometry(self@, *w),
    {
        match self.element_location(w.id) {
            Some(loc) => {
                if w.placed && w.size.w > 0 && w.size.h > 0 {
                    Some(Rect { loc, size: w.size })
                } else {
                    None
                }
            },
            None => None,
        }
    }

    fn move_shown(&mut self, w: &Window, at: Point, effects: &mut Vec<Effect>)
        ensures
            final(self)@ == moved(old(self)@, *w, at).0,
            final(effects)@ == old(effects)@ + moved(old(self)@, *w, at).1,
    {
        if self.element_location(w.id).is_some() {
            self.map_on_top(Mapped { id: w.id, z: w.z, loc: at });
            effects.push(Effect::Show { window: w.id, at, activate: true });
        }
        assert(effects@ =~= old(effects)@ + moved(old(self)@, *w, at).1);
    }

    /// The geometry half of covering: tells the window, and moves it where it is on screen.
    fn cover(&mut self, w: &Window, covering: Covering, target: Rect, effects: &mut Vec<Effect>)
        ensures
            final(self)@ == covered(old(self)@, *w, covering, target).0,
            final(effects)@ == old(effects)@ + covered(old(self)@, *w, covering, target).1,
    {
        tell(w, covering, true, Some(target), effects);
        self.move_shown(w, target.loc, effects);
        assert(effects@ =~= old(effects)@ + covered(old(self)@, *w, covering, target).1);
    }

    fn go_back(
        &mut self,
        w: &Window,
        covering: Covering,
        state: WindowState,
        back: Option<Rect>,
    ) -> (effects: Vec<Effect>)
        ensures
            (final(self)@, effects@) == went_back(old(self)@, *w, covering, state, back),
    {
        let mut effects: Vec<Effect> = Vec::new();
        tell(w, covering, false, back, &mut effects);
        match back {
            Some(g) => {
                let mut state = state;
                state.last_pos = g.loc;
                self.remember(w, state);
                self.move_shown(w, g.loc, &mut effects);
            },
            None => {
                self.remember(w, state);
            },
        }
        announce(&mut effects);
        assert(effects@ =~= went_back(old(self)@, *w, covering, state, back).1);
        effects
    }

    /// Resizes a window to fill its screen's work area.
    pub fn maximize_window(&mut self, id: u64) -> (effects: Vec<Effect>)
        requires
            old(self)@.sound(),
        ensures
            (final(self)@, effects@) == maximize(old(self)@, id),
    {
        let mut effects: Vec<Effect> = Vec::new();
        let w = match self.window(id) {
            Some(w) => w,
            None => {
                return effects;
            },
        };
        proof {
            let i = found_is_listed(self@.windows, id);
        }
        if w.state.maximized {
            return effects;
        }
        let mut state = w.state;
        state.maximized = true;
        if w.state.fullscreen {
            self.remember(&w, state);
            effects.push(Effect::DesksChanged);
            return effects;
        }
        if !w.maximizable {
            return effects;
        }
        let screen = match self.covered_screen(&w) {
            Some(screen) => screen,
            None => {
                return effects;
            },
        };
        proof {
            covered_screen_is_sound(self@, w);
        }
        let target = fill(screen.work_area(), w.insets);
        if let Some(geometry) = self.shown_geometry(&w) {
            state.restore_geo = Some(geometry);
        }
        state.last_pos = target.loc;
        self.remember(&w, state);
        self.cover(&w, Covering::Maximized, target, &mut effects);
        announce(&mut effects);
        effects
    }

    /// Returns a maximized window to its pre-maximize geometry.
    pub fn unmaximize_window(&mut self, id: u64) -> (effects: Vec<Effect>)
        ensures
            (final(self)@, effects@) == unmaximize(old(self)@, id),
    {
        let w = match self.window(id) {
            Some(w) => w,
            None => {
                return Vec::new();
            },
        };
        let mut state = w.state;
        state.maximized = false;
        if w.state.fullscreen {
            self.remember(&w, state);
            let mut effects: Vec<Effect> = Vec::new();
            effects.push(Effect::DesksChanged);
            return effects;
        }
        if !w.state.maximized {
            return Vec::new();
        }
        state.restore_geo = None;
        self.go_back(&w, Covering::Maximized, state, w.state.restore_geo)
    }

    /// Makes a window cover a whole screen, panels and its own frame included: the screen that
    /// it named, or else the one it is on or will open on.
    pub fn fullscreen_window(&mut self, id: u64, named: Option<Screen>) -> (effects: Vec<Effect>)
        ensures
            (final(self)@, effects@) == fullscreen(old(self)@, id, named),
    {
        let mut effects: Vec<Effect> = Vec::new();
        let w = match self.window(id) {
            Some(w) => w,
            None => {
                return effects;
            },
        };
        if w.state.fullscreen {
            return effects;
        }
        let screen: Option<Screen> = match named {
            Some(screen) => Some(screen),
            None => self.covered_screen(&w),
        };
        let target: Rect = match screen {
            Some(screen) => match screen.geometry {
                Some(geometry) => geometry,
                None => {
                    return effects;
                },
            },
            None => {
                return effects;
            },
        };
        let mut state = w.state;
        if let Some(geometry) = self.shown_geometry(&w) {
            state.pre_fullscreen = Some(geometry);
        }
        state.fullscreen = true;
        state.last_pos = target.loc;
        self.remember(&w, state);
        self.cover(&w, Covering::Fullscreen, target, &mut effects);
        announce(&mut effects);
        effects
    }

    /// Takes a window out of fullscreen.
    pub fn unfullscreen_window(&mut self, id: u64) -> (effects: Vec<Effect>)
        requires
            old(self)@.sound(),
        ensures
            (final(self)@, effects@) == unfullscreen(old(self)@, id),
    {
        let mut effects: Vec<Effect> = Vec::new();
        let w = match self.window(id) {
            Some(w) => w,
            None => {
                return effects;
            },
        };
        proof {
            let i = found_is_listed(self@.windows, id);
        }
        if !w.state.fullscreen {
            return effects;
        }
        let mut state = w.state;
        state.fullscreen = false;
        state.pre_fullscreen = None;
        if !w.state.maximized {
            return self.go_back(&w, Covering::Fullscreen, state, w.state.pre_fullscreen);
        }
        match w.shell {
            Shell::Wayland => {
                effects.push(
                    Effect::Pending { window: id, covering: Covering::Fullscreen, on: false },
                );
            },
            Shell::X11 => {
                effects.push(
                    Effect::X11State { window: id, covering: Covering::Fullscreen, on: false },
                );
            },
        }
        match self.screen_of(&w) {
            Some(screen) => {
                proof {
                    screen_of_is_sound(self@, w);
                }
                let target = fill(screen.work_area(), w.insets);
                state.last_pos = target.loc;
                self.remember(&w, state);
                self.cover(&w, Covering::Maximized, target, &mut effects);
            },
            None => {
                self.remember(&w, state);
            },
        }
        announce(&mut effects);
        assert(effects@ =~= unfullscreen(old(self)@, id).1);
        effects
    }
}

/// Tells a window that it is in a state, or no longer, and with what geometry.
fn tell(w: &Window, covering: Covering, on: bool, geometry: Option<Rect>, effects: &mut Vec<Effect>)
    ensures
        final(effects)@ == old(effects)@ + told(*w, covering, on, geometry),
{
    match w.shell {
        Shell::Wayland => {
            effects.push(Effect::Pending { window: w.id, covering, on });
            let size: Option<Size> = match geometry {
                Some(g) => Some(g.size),
                None => None,
            };
            effects.push(Effect::PendingSize { window: w.id, size });
            effects.push(Effect::Configure { window: w.id });
        },
        Shell::X11 => {
            effects.push(Effect::X11State { window: w.id, covering, on });
            if let Some(g) = geometry {
                effects.push(Effect::X11Configure { window: w.id, geometry: g });
            }
        },
    }
    assert(effects@ =~= old(effects)@ + told(*w, covering, on, geometry));
}

fn announce(effects: &mut Vec<Effect>)
    ensures
        final(effects)@ == old(effects)@ + announced(),
{
    effects.push(Effect::DesksChanged);
    effects.push(Effect::Redraw);
    assert(effects@ =~= old(effects)@ + announced());
}

/// The contents of a window whose frame fills an area.
fn fill(area: Rect, insets: Insets) -> (contents: Rect)
    requires
        fills(area, insets),
    ensures
        contents == filling(area, insets),
{
    let w: i64 = area.size.w as i64 - insets.left as i64 - insets.right as i64;
    let h: i64 = area.size.h as i64 - insets.top as i64 - insets.bottom as i64;
    Rect {
        loc: Point { x: area.loc.x + insets.left, y: area.loc.y + insets.top },
        size: Size { w: larger(w, 1) as i32, h: larger(h, 1) as i32 },
    }
}

proof fn found_screen_is_listed(screens: Seq<Screen>, id: u64) -> (i: int)
    requires
        find_screen(screens, id) is Some,
    ensures
        0 <= i < screens.len(),
        find_screen(screens, id) == Some(screens[i]),
    decreases screens.len(),
{
    if find_screen(screens.drop_last(), id) is Some {
        found_screen_is_listed(screens.drop_last(), id)
    } else {
        screens.len() - 1
    }
}

proof fn screen_under_is_listed(s: Scene) -> (i: int)
    requires
        screen_under(s.screens, s.pointer) is Some,
    ensures
        0 <= i < s.screens.len(),
        screen_under(s.screens, s.pointer) == Some(s.screens[i]),
    decreases s.screens.len(),
{
    let last = s.screens.last();
    if last.geometry matches Some(g) && g.holds_spot(s.pointer) {
        s.screens.len() - 1
    } else {
        screen_under_is_listed(Scene { screens: s.screens.drop_last(), ..s })
    }
}

/// A screen that a window is found to be on is one of the desktop's, so it is sound.
pub proof fn screen_of_is_sound(s: Scene, w: Window)
    requires
        s.sound(),
        find(s.windows, w.id) == Some(w),
        screen_of(s, w) is Some,
    ensures
        screen_of(s, w)->0.sound(),
        fills(screen_of(s, w)->0.area(), w.insets),
{
    let j = found_is_listed(s.windows, w.id);
    assert(s.windows[j] == w);
    if w.home is Some && find_screen(s.screens, w.home->0) is Some {
        let i = found_screen_is_listed(s.screens, w.home->0);
        assert(s.screens[i].sound());
        assert(fills(s.screens[i].area(), s.windows[j].insets));
    } else {
        assert(s.screens[0].sound());
        assert(fills(s.screens[0].area(), s.windows[j].insets));
    }
}

/// The screen that a window is to cover is one of the desktop's, so it is sound.
pub proof fn covered_screen_is_sound(s: Scene, w: Window)
    requires
        s.sound(),
        find(s.windows, w.id) == Some(w),
        covered_screen(s, w) is Some,
    ensures
        covered_screen(s, w)->0.sound(),
        fills(covered_screen(s, w)->0.area(), w.insets),
{
    let j = found_is_listed(s.windows, w.id);
    assert(s.windows[j] == w);
    if w.placed {
        screen_of_is_sound(s, w);
    } else {
        opening_screen_is_listed(s, w);
        let i = choose|i: int|
            0 <= i < s.screens.len() && opening_screen(s, w) == Some(#[trigger] s.screens[i]);
        assert(s.screens[i].sound());
        assert(fills(s.screens[i].area(), s.windows[j].insets));
    }
}

/// The screen that a window opens on is one of the desktop's.
pub proof fn opening_screen_is_listed(s: Scene, w: Window)
    requires
        opening_screen(s, w) is Some,
    ensures
        exists|i: int|
            0 <= i < s.screens.len() && opening_screen(s, w) == Some(#[trigger] s.screens[i]),
{
    let parent = parent_shown(s, w);
    if parent is Some && parent->0.home is Some && find_screen(s.screens, parent->0.home->0) is Some {
        let i = found_screen_is_listed(s.screens, parent->0.home->0);
        assert(opening_screen(s, w) == Some(s.screens[i]));
    } else if screen_under(s.screens, s.pointer) is Some {
        let i = screen_under_is_listed(s);
        assert(opening_screen(s, w) == Some(s.screens[i]));
    } else {
        assert(opening_screen(s, w) == Some(s.screens[0]));
    }
}

/// The cell that a window's icon is shown in, where it is shown: the window is held aside
/// minimized, on a desk that is shown.
pub open spec fn icon_cell(s: Scene, id: u64) -> Option<usize> {
    match find(s.windows, id) {
        Some(w) => if w.state.minimized && s.shows(w.state.desk) {
            w.state.icon_slot
        } else {
            None
        },
        None => None,
    }
}

/// The icons that are shown, each with its cell, in the order the windows were held aside.
pub open spec fn icons_of(s: Scene, ids: Seq<u64>) -> Seq<(u64, usize)>
    decreases ids.len(),
{
    if ids.len() == 0 {
        Seq::empty()
    } else {
        let before = icons_of(s, ids.drop_last());
        match icon_cell(s, ids.last()) {
            Some(cell) => before.push((ids.last(), cell)),
            None => before,
        }
    }
}

/// The cells of a list of icons, but for one window's.
pub open spec fn cells_but(icons: Seq<(u64, usize)>, exclude: u64) -> Seq<usize>
    decreases icons.len(),
{
    if icons.len() == 0 {
        Seq::empty()
    } else if icons.last().0 == exclude {
        cells_but(icons.drop_last(), exclude)
    } else {
        cells_but(icons.drop_last(), exclude).push(icons.last().1)
    }
}

/// The cells taken by the icons that are shown, but for one window's.
pub open spec fn occupied(s: Scene, exclude: u64) -> Seq<usize> {
    cells_but(icons_of(s, s.hidden), exclude)
}

/// The grid that cells are assigned by: the one over the first screen's work area, or where
/// there is no screen, one that reserves nothing.
pub open spec fn assigning_grid(s: Scene) -> Grid {
    match first_screen(s.screens) {
        Some(screen) => Grid {
            area: screen.area(),
            metrics: s.metrics,
            cols: crate::minimized::columns(screen.zone.size.w as int, s.metrics) as i32,
        },
        None => Grid {
            area: Rect { loc: Point { x: 0, y: 0 }, size: Size { w: 0, h: 0 } },
            metrics: s.metrics,
            cols: 1,
        },
    }
}

/// The lowest free cell that may be assigned.
pub open spec fn fresh_cell(grid: Grid, taken: Seq<usize>) -> usize {
    choose|cell: usize| grid.lowest_free(taken, cell)
}

/// The cell that a window takes as it is minimized: the one it held, where that is free, else
/// the lowest free one.
pub open spec fn cell_for(s: Scene, w: Window) -> usize {
    let taken = occupied(s, w.id);
    match w.state.icon_slot {
        Some(cell) => if taken.contains(cell) {
            fresh_cell(assigning_grid(s), taken)
        } else {
            cell
        },
        None => fresh_cell(assigning_grid(s), taken),
    }
}

/// Giving a window a cell of the icon grid.
pub open spec fn assign_cell(s: Scene, id: u64) -> Scene {
    match find(s.windows, id) {
        Some(w) => remember(s, w, WindowState { icon_slot: Some(cell_for(s, w)), ..w.state }),
        None => s,
    }
}

/// What an X11 window is told of being mapped.
pub open spec fn told_mapped(w: Window, on: bool) -> Seq<Effect> {
    match w.shell {
        Shell::X11 => seq![Effect::X11Mapped { window: w.id, on }],
        Shell::Wayland => Seq::empty(),
    }
}

/// Minimizing a window: it is marked, taken off the screen and given a cell of the icon grid.
/// One that says it cannot be minimized is left alone.
pub open spec fn minimize(s: Scene, id: u64) -> Outcome {
    match find(s.windows, id) {
        None => (s, Seq::empty()),
        Some(w) => if !w.minimizable || w.state.minimized {
            (s, Seq::empty())
        } else {
            let loc = location(s.stack, id);
            let marked = remember(
                s,
                w,
                WindowState {
                    minimized: true,
                    needs_thumbnail: true,
                    restore_geo: match loc {
                        Some(loc) => Some(Rect { loc, size: w.size }),
                        None => w.state.restore_geo,
                    },
                    last_pos: match loc {
                        Some(loc) => loc,
                        None => w.state.last_pos,
                    },
                    ..w.state
                },
            );
            let aside = if loc is Some {
                Scene {
                    stack: without(s.stack, id),
                    hidden: ids_without(s.hidden, id).push(id),
                    ..marked
                }
            } else {
                marked
            };
            (
                assign_cell(aside, id),
                told_mapped(w, false) + (if loc is Some {
                    seq![Effect::Unmap { window: id }]
                } else {
                    Seq::empty()
                }) + seq![Effect::FocusTopmost] + announced(),
            )
        },
    }
}

/// Where a window that is un-minimized goes.
pub open spec fn restored_position(state: WindowState) -> Point {
    match state.restore_geo {
        Some(g) => g.loc,
        None => state.last_pos,
    }
}

/// Un-minimizing a window: it is unmarked, and shown where its desk is.
pub open spec fn restore(s: Scene, id: u64) -> Outcome {
    match find(s.windows, id) {
        None => (s, Seq::empty()),
        Some(w) => if !w.state.minimized {
            (s, Seq::empty())
        } else {
            let marked = remember(
                s,
                w,
                WindowState {
                    minimized: false,
                    needs_thumbnail: false,
                    has_thumbnail: false,
                    ..w.state
                },
            );
            let at = restored_position(w.state);
            if s.shows(w.state.desk) {
                (
                    Scene {
                        hidden: ids_without(s.hidden, id),
                        stack: on_top(s.stack, Mapped { id, z: w.z, loc: at }),
                        ..marked
                    },
                    told_mapped(w, true) + seq![
                        Effect::Show { window: id, at, activate: true },
                        Effect::Focus { window: id },
                    ] + announced(),
                )
            } else {
                (marked, told_mapped(w, true) + announced())
            }
        },
    }
}

/// Un-minimizing windows one after the other.
pub open spec fn restore_each(s: Scene, ids: Seq<u64>) -> Outcome
    decreases ids.len(),
{
    if ids.len() == 0 {
        (s, Seq::empty())
    } else {
        let (before, asked) = restore_each(s, ids.drop_last());
        let (after, more) = restore(before, ids.last());
        (after, asked + more)
    }
}

/// Those of the ids whose windows are minimized.
pub open spec fn minimized_of(s: Scene, ids: Seq<u64>) -> Seq<u64>
    decreases ids.len(),
{
    if ids.len() == 0 {
        Seq::empty()
    } else {
        let before = minimized_of(s, ids.drop_last());
        if find(s.windows, ids.last()) matches Some(w) && w.state.minimized {
            before.push(ids.last())
        } else {
            before
        }
    }
}

/// The window with the keyboard, where it is on screen.
pub open spec fn focused_of(s: Scene, keyboard: Option<u64>) -> Option<u64> {
    match keyboard {
        Some(id) => if location(s.stack, id) is Some {
            keyboard
        } else {
            None
        },
        None => None,
    }
}

/// Raising a window to the top of the stack, where it is on screen.
pub open spec fn raise(s: Scene, id: u64) -> Outcome {
    match (find(s.windows, id), location(s.stack, id)) {
        (Some(w), Some(loc)) => (
            Scene { stack: on_top(s.stack, Mapped { id, z: w.z, loc }), ..s },
            seq![Effect::Raise { window: id, activate: true }, Effect::Focus { window: id }]
                + announced(),
        ),
        _ => (s, Seq::empty()),
    }
}

/// Sending a window to the bottom of the stack, where it is on screen.
pub open spec fn lower(s: Scene, id: u64) -> Outcome {
    match (find(s.windows, id), location(s.stack, id)) {
        (Some(w), Some(loc)) => (
            Scene { stack: at_bottom(s.stack, Mapped { id, z: w.z, loc }), ..s },
            seq![Effect::Restack, Effect::FocusTopmost] + announced(),
        ),
        _ => (s, Seq::empty()),
    }
}

/// Moving a window to another desk: it is shown or held aside as that desk is shown or not. A
/// minimized window stays minimized.
pub open spec fn move_to_desk(s: Scene, id: u64, target: Desk) -> Outcome {
    match find(s.windows, id) {
        None => (s, Seq::empty()),
        Some(w) => if !s.desks.contains(target) || w.state.desk == target {
            (s, Seq::empty())
        } else {
            let loc = location(s.stack, id);
            let state = WindowState { desk: target, ..w.state };
            let tail = seq![Effect::FocusTopmost] + announced();
            if s.shows(target) && !w.state.minimized && loc is None {
                (
                    Scene {
                        hidden: ids_without(s.hidden, id),
                        stack: on_top(s.stack, Mapped { id, z: w.z, loc: w.state.last_pos }),
                        ..remember(s, w, state)
                    },
                    seq![Effect::Show { window: id, at: w.state.last_pos, activate: false }] + tail,
                )
            } else if !s.shows(target) && loc is Some {
                (
                    Scene {
                        hidden: ids_without(s.hidden, id).push(id),
                        stack: without(s.stack, id),
                        ..remember(s, w, WindowState { last_pos: loc->0, ..state })
                    },
                    seq![Effect::Unmap { window: id }] + tail,
                )
            } else {
                (remember(s, w, state), tail)
            }
        },
    }
}

/// There is but one lowest free cell.
pub proof fn the_lowest_free_cell_is_one(grid: Grid, taken: Seq<usize>, a: usize, b: usize)
    requires
        grid.lowest_free(taken, a),
        grid.lowest_free(taken, b),
    ensures
        a == b,
{
    assert(grid.assignable(a as int));
    assert(grid.assignable(b as int));
}

proof fn icons_are_no_more(s: Scene, ids: Seq<u64>, exclude: u64)
    ensures
        icons_of(s, ids).len() <= ids.len(),
        cells_but(icons_of(s, ids), exclude).len() <= icons_of(s, ids).len(),
    decreases ids.len(),
{
    if ids.len() > 0 {
        icons_are_no_more(s, ids.drop_last(), exclude);
        let icons = icons_of(s, ids);
        let before = icons_of(s, ids.drop_last());
        if icon_cell(s, ids.last()) is Some {
            assert(icons.drop_last() =~= before);
        }
    }
}

/// Whether the cells of the icon grid can be counted.
pub open spec fn countable(s: Scene) -> bool {
    (s.hidden.len() + 2) * assigning_grid(s).cols <= usize::MAX
}

impl Wlrix {
    /// Asks a window to close. This is a request: the window goes away when its client destroys
    /// it.
    pub fn close_window(&self, id: u64) -> (effects: Vec<Effect>)
        ensures
            effects@ == seq![Effect::Close { window: id }],
    {
        let mut effects: Vec<Effect> = Vec::new();
        effects.push(Effect::Close { window: id });
        effects
    }

    fn icon_cell(&self, id: u64) -> (cell: Option<usize>)
        ensures
            cell == icon_cell(self@, id),
    {
        match self.window(id) {
            Some(w) => {
                if w.state.minimized && self.shows(w.state.desk) {
                    w.state.icon_slot
                } else {
                    None
                }
            },
            None => None,
        }
    }

    /// The slots taken by the icons that are shown, except one window's.
    pub fn occupied_slots(&self, exclude: u64) -> (taken: Vec<usize>)
        ensures
            taken@ == occupied(self@, exclude),
    {
        let mut taken: Vec<usize> = Vec::new();
        let mut i: usize = 0;
        assert(self.hidden@.take(0) =~= Seq::empty());
        while i < self.hidden.len()
            invariant
                i <= self.hidden@.len(),
                taken@ == cells_but(icons_of(self@, self.hidden@.take(i as int)), exclude),
            decreases self.hidden.len() - i,
        {
            let id: u64 = self.hidden[i];
            i += 1;
            let ghost ids = self.hidden@.take(i as int);
            assert(ids.drop_last() =~= self.hidden@.take(i - 1));
            let ghost before = icons_of(self@, ids.drop_last());
            if let Some(cell) = self.icon_cell(id) {
                assert(icons_of(self@, ids).drop_last() =~= before);
                if id != exclude {
                    taken.push(cell);
                }
            }
        }
        assert(self.hidden@.take(self.hidden@.len() as int) =~= self.hidden@);
        taken
    }

    fn assigning_grid(&self) -> (grid: Grid)
        requires
            self@.sound(),
        ensures
            grid == assigning_grid(self@),
            grid.valid(),
    {
        match self.primary() {
            Some(screen) => {
                assert(self@.screens[0].sound());
                Grid::new(screen.work_area(), self.metrics)
            },
            None => Grid {
                area: Rect { loc: Point { x: 0, y: 0 }, size: Size { w: 0, h: 0 } },
                metrics: self.metrics,
                cols: 1,
            },
        }
    }

    /// Gives a window a grid cell as it is minimized: its remembered cell if still free, else
    /// the lowest free cell.
    pub fn assign_icon_slot(&mut self, id: u64)
        requires
            old(self)@.sound(),
            (old(self)@.hidden.len() + 1) * assigning_grid(old(self)@).cols <= usize::MAX,
        ensures
            final(self)@ == assign_cell(old(self)@, id),
    {
        let w = match self.window(id) {
            Some(w) => w,
            None => {
                return ;
            },
        };
        let taken = self.occupied_slots(id);
        let grid = self.assigning_grid();
        proof {
            icons_are_no_more(self@, self.hidden@, id);
            let n = taken@.len() + 1;
            let m = self.hidden@.len() + 1;
            let cols = grid.cols as int;
            assert(n * cols <= m * cols) by (nonlinear_arith)
                requires
                    n <= m,
                    cols >= 1,
            ;
        }
        let cell: usize = match w.state.icon_slot {
            Some(cell) if !is_among(taken.as_slice(), cell) => cell,
            _ => {
                let fresh: usize = grid.first_assignable(taken.as_slice());
                proof {
                    the_lowest_free_cell_is_one(grid, taken@, fresh, fresh_cell(grid, taken@));
                }
                fresh
            },
        };
        let mut state = w.state;
        state.icon_slot = Some(cell);
        self.remember(&w, state);
    }

    /// Hides a window without closing it.
    pub fn minimize_window(&mut self, id: u64) -> (effects: Vec<Effect>)
        requires
            old(self)@.sound(),
            countable(old(self)@),
        ensures
            (final(self)@, effects@) == minimize(old(self)@, id),
    {
        let mut effects: Vec<Effect> = Vec::new();
        let w = match self.window(id) {
            Some(w) => w,
            None => {
                return effects;
            },
        };
        if !w.minimizable || w.state.minimized {
            return effects;
        }
        let ghost before = self@;
        let loc: Option<Point> = self.element_location(id);
        let mut state = w.state;
        state.minimized = true;
        state.needs_thumbnail = true;
        if let Some(loc) = loc {
            state.restore_geo = Some(Rect { loc, size: w.size });
            state.last_pos = loc;
        }
        self.remember(&w, state);
        proof {
            sound_is_kept(before, with_state(w, state));
        }
        if let Shell::X11 = w.shell {
            effects.push(Effect::X11Mapped { window: id, on: false });
        }
        if loc.is_some() {
            self.unmap(id);
            self.hold_aside(id);
            effects.push(Effect::Unmap { window: id });
        }
        proof {
            ids_without_is_no_longer(before.hidden, id);
            let cols = assigning_grid(before).cols as int;
            let n = self@.hidden.len() + 1;
            let m = before.hidden.len() + 2;
            assert(n * cols <= m * cols) by (nonlinear_arith)
                requires
                    n <= m,
                    cols >= 0,
            ;
        }
        self.assign_icon_slot(id);
        effects.push(Effect::FocusTopmost);
        announce(&mut effects);
        assert(effects@ =~= minimize(before, id).1);
        effects
    }

    /// Un-minimizes a window. Only shows it if its desk is on screen; otherwise it appears when
    /// its desk is next activated.
    pub fn restore_window(&mut self, id: u64) -> (effects: Vec<Effect>)
        ensures
            (final(self)@, effects@) == restore(old(self)@, id),
    {
        let mut effects: Vec<Effect> = Vec::new();
        let w = match self.window(id) {
            Some(w) => w,
            None => {
                return effects;
            },
        };
        if !w.state.minimized {
            return effects;
        }
        let mut state = w.state;
        state.minimized = false;
        state.needs_thumbnail = false;
        state.has_thumbnail = false;
        self.remember(&w, state);
        if let Shell::X11 = w.shell {
            effects.push(Effect::X11Mapped { window: id, on: true });
        }
        if self.shows(w.state.desk) {
            let at: Point = match w.state.restore_geo {
                Some(g) => g.loc,
                None => w.state.last_pos,
            };
            self.unhide(id);
            self.map_on_top(Mapped { id, z: w.z, loc: at });
            effects.push(Effect::Show { window: id, at, activate: true });
            effects.push(Effect::Focus { window: id });
        }
        announce(&mut effects);
        assert(effects@ =~= restore(old(self)@, id).1);
        effects
    }

    /// Un-minimizes every minimized window.
    pub fn restore_all_minimized(&mut self) -> (effects: Vec<Effect>)
        ensures
            (final(self)@, effects@) == restore_each(
                old(self)@,
                minimized_of(old(self)@, old(self)@.hidden),
            ),
    {
        let mut ids: Vec<u64> = Vec::new();
        let mut i: usize = 0;
        assert(self.hidden@.take(0) =~= Seq::empty());
        while i < self.hidden.len()
            invariant
                i <= self.hidden@.len(),
                *self == *old(self),
                ids@ == minimized_of(self@, self.hidden@.take(i as int)),
            decreases self.hidden.len() - i,
        {
            let id: u64 = self.hidden[i];
            i += 1;
            assert(self.hidden@.take(i as int).drop_last() =~= self.hidden@.take(i - 1));
            if let Some(w) = self.window(id) {
                if w.state.minimized {
                    ids.push(id);
                }
            }
        }
        assert(self.hidden@.take(self.hidden@.len() as int) =~= self.hidden@);
        let mut effects: Vec<Effect> = Vec::new();
        let mut j: usize = 0;
        assert(ids@.take(0) =~= Seq::empty());
        while j < ids.len()
            invariant
                j <= ids@.len(),
                (self@, effects@) == restore_each(old(self)@, ids@.take(j as int)),
            decreases ids.len() - j,
        {
            let mut more = self.restore_window(ids[j]);
            effects.append(&mut more);
            j += 1;
            assert(ids@.take(j as int).drop_last() =~= ids@.take(j - 1));
        }
        assert(ids@.take(ids@.len() as int) =~= ids@);
        effects
    }

    /// The window that has the keyboard, where one on screen does.
    pub fn focused_window(&self, keyboard: Option<u64>) -> (id: Option<u64>)
        ensures
            id == focused_of(self@, keyboard),
    {
        match keyboard {
            Some(id) => {
                if self.element_location(id).is_some() {
                    keyboard
                } else {
                    None
                }
            },
            None => None,
        }
    }

    /// Raises a window to the top of the stack and focuses it.
    pub fn raise_window(&mut self, id: u64) -> (effects: Vec<Effect>)
        ensures
            (final(self)@, effects@) == raise(old(self)@, id),
    {
        let mut effects: Vec<Effect> = Vec::new();
        if let (Some(w), Some(loc)) = (self.window(id), self.element_location(id)) {
            self.map_on_top(Mapped { id, z: w.z, loc });
            effects.push(Effect::Raise { window: id, activate: true });
            effects.push(Effect::Focus { window: id });
            announce(&mut effects);
        }
        assert(effects@ =~= raise(old(self)@, id).1);
        effects
    }

    /// Sends a window to the bottom of the stack; the others keep their order.
    pub fn lower_window(&mut self, id: u64) -> (effects: Vec<Effect>)
        ensures
            (final(self)@, effects@) == lower(old(self)@, id),
    {
        let mut effects: Vec<Effect> = Vec::new();
        if let (Some(w), Some(loc)) = (self.window(id), self.element_location(id)) {
            self.map_at_bottom(Mapped { id, z: w.z, loc });
            effects.push(Effect::Restack);
            effects.push(Effect::FocusTopmost);
            announce(&mut effects);
        }
        assert(effects@ =~= lower(old(self)@, id).1);
        effects
    }

    /// Makes a window fullscreen, or takes it out if it already is.
    pub fn toggle_fullscreen_window(&mut self, id: u64) -> (effects: Vec<Effect>)
        requires
            old(self)@.sound(),
        ensures
            (final(self)@, effects@) == if find(old(self)@.windows, id) matches Some(w)
                && w.state.fullscreen {
                unfullscreen(old(self)@, id)
            } else {
                fullscreen(old(self)@, id, None)
            },
    {
        match self.window(id) {
            Some(w) if w.state.fullscreen => self.unfullscreen_window(id),
            _ => self.fullscreen_window(id, None),
        }
    }

    /// Maximizes a window, or un-maximizes it if it already is.
    pub fn toggle_maximize_window(&mut self, id: u64) -> (effects: Vec<Effect>)
        requires
            old(self)@.sound(),
        ensures
            (final(self)@, effects@) == if find(old(self)@.windows, id) matches Some(w)
                && w.state.maximized {
                unmaximize(old(self)@, id)
            } else {
                maximize(old(self)@, id)
            },
    {
        match self.window(id) {
            Some(w) if w.state.maximized => self.unmaximize_window(id),
            _ => self.maximize_window(id),
        }
    }

    fn desk_exists(&self, desk: Desk) -> (r: bool)
        ensures
            r == self@.desks.contains(desk),
    {
        let mut i: usize = 0;
        while i < self.desks.len()
            invariant
                i <= self.desks@.len(),
                forall|j: int| 0 <= j < i ==> self.desks@[j] != desk,
            decreases self.desks.len() - i,
        {
            if self.desks[i] == desk {
                return true;
            }
            i += 1;
        }
        false
    }

    /// Moves a window to another desk, settling whether it stays visible.
    pub fn move_window_to_desk(&mut self, id: u64, target: Desk) -> (effects: Vec<Effect>)
        ensures
            (final(self)@, effects@) == move_to_desk(old(self)@, id, target),
    {
        let mut effects: Vec<Effect> = Vec::new();
        let w = match self.window(id) {
            Some(w) => w,
            None => {
                return effects;
            },
        };
        if !self.desk_exists(target) || w.state.desk == target {
            return effects;
        }
        let visible = self.shows(target);
        let loc: Option<Point> = self.element_location(id);
        let mut state = w.state;
        state.desk = target;
        if visible && !w.state.minimized && loc.is_none() {
            self.remember(&w, state);
            self.unhide(id);
            self.map_on_top(Mapped { id, z: w.z, loc: w.state.last_pos });
            effects.push(Effect::Show { window: id, at: w.state.last_pos, activate: false });
        } else if let (false, Some(loc)) = (visible, loc) {
            state.last_pos = loc;
            self.remember(&w, state);
            self.unmap(id);
            self.hold_aside(id);
            effects.push(Effect::Unmap { window: id });
        } else {
            self.remember(&w, state);
        }
        effects.push(Effect::FocusTopmost);
        announce(&mut effects);
        assert(effects@ =~= move_to_desk(old(self)@, id, target).1);
        effects
    }
}

proof fn ids_without_is_no_longer(ids: Seq<u64>, id: u64)
    ensures
        ids_without(ids, id).len() <= ids.len(),
    decreases ids.len(),
{
    if ids.len() > 0 {
        ids_without_is_no_longer(ids.drop_last(), id);
    }
}

/// A desktop stays sound when a window's state changes.
pub proof fn sound_is_kept(s: Scene, w: Window)
    requires
        s.sound(),
        find(s.windows, w.id) matches Some(held) && held.insets == w.insets,
    ensures
        (Scene { windows: put(s.windows, w), ..s }).sound(),
{
    let held = found_is_listed(s.windows, w.id);
    let after = put(s.windows, w);
    assert forall|i: int, j: int|
        0 <= i < s.screens.len() && 0 <= j < after.len() implies fills(
        (#[trigger] s.screens[i]).area(),
        (#[trigger] after[j]).insets,
    ) && fills(s.screens[i].area(), Insets { left: 0, top: 0, right: 0, bottom: 0 }) by {
        assert(fills(s.screens[i].area(), s.windows[j].insets));
        assert(fills(s.screens[i].area(), s.windows[held].insets));
    }
}

/// What holds of the desktop between operations: each window is in the stack once, the bands are
/// in order, each window is held aside once, none is both on screen and held aside, and none that
/// is minimized is on screen.
pub open spec fn tidy(s: Scene) -> bool {
    &&& each_once(s.stack)
    &&& banded(s.stack)
    &&& s.hidden.no_duplicates()
    &&& forall|id: u64| #[trigger] s.hidden.contains(id) ==> location(s.stack, id) is None
    &&& forall|id: u64|
        (find(s.windows, id) matches Some(w) && w.state.minimized) ==> #[trigger] location(
            s.stack,
            id,
        ) is None
}

pub proof fn remember_finds(s: Scene, w: Window, state: WindowState)
    requires
        find(s.windows, w.id) == Some(w),
    ensures
        find(remember(s, w, state).windows, w.id) == Some(with_state(w, state)),
        forall|other: u64|
            other != w.id ==> find(remember(s, w, state).windows, other) == #[trigger] find(
                s.windows,
                other,
            ),
{
    put_is_found(s.windows, with_state(w, state), w.id);
    assert forall|other: u64| other != w.id implies find(remember(s, w, state).windows, other)
        == #[trigger] find(s.windows, other) by {
        put_is_found(s.windows, with_state(w, state), other);
    }
}

proof fn showing_is_tidy(s: Scene, w: Window, state: WindowState, at: Point)
    requires
        tidy(s),
        find(s.windows, w.id) == Some(w),
        !state.minimized,
    ensures
        tidy(
            Scene {
                stack: on_top(s.stack, Mapped { id: w.id, z: w.z, loc: at }),
                hidden: ids_without(s.hidden, w.id),
                ..remember(s, w, state)
            },
        ),
        location(s.stack, w.id) is Some ==> tidy(
            Scene {
                stack: on_top(s.stack, Mapped { id: w.id, z: w.z, loc: at }),
                ..remember(s, w, state)
            },
        ),
{
    let m = Mapped { id: w.id, z: w.z, loc: at };
    let stack = on_top(s.stack, m);
    remember_finds(s, w, state);
    on_top_keeps_the_rest(s.stack, m, w.id);
    ids_without_keeps_the_rest(s.hidden, w.id, w.id);
    assert forall|id: u64| #[trigger] ids_without(s.hidden, w.id).contains(id) implies location(
        stack,
        id,
    ) is None by {
        ids_without_keeps_the_rest(s.hidden, w.id, id);
        on_top_keeps_the_rest(s.stack, m, id);
    }
    assert forall|id: u64| #[trigger] s.hidden.contains(id) && location(s.stack, w.id) is Some implies location(
        stack,
        id,
    ) is None by {
        on_top_keeps_the_rest(s.stack, m, id);
    }
    assert forall|id: u64|
        (find(remember(s, w, state).windows, id) matches Some(v) && v.state.minimized) implies #[trigger] location(
        stack,
        id,
    ) is None by {
        on_top_keeps_the_rest(s.stack, m, id);
        assert(find(remember(s, w, state).windows, id) == find(s.windows, id) || id == w.id);
    }
}

proof fn remembering_is_tidy(s: Scene, w: Window, state: WindowState)
    requires
        tidy(s),
        find(s.windows, w.id) == Some(w),
        state.minimized ==> w.state.minimized || location(s.stack, w.id) is None,
    ensures
        tidy(remember(s, w, state)),
{
    remember_finds(s, w, state);
    assert forall|id: u64|
        (find(remember(s, w, state).windows, id) matches Some(v) && v.state.minimized) implies #[trigger] location(
        s.stack,
        id,
    ) is None by {
        assert(find(remember(s, w, state).windows, id) == find(s.windows, id) || id == w.id);
    }
}

proof fn moving_is_tidy(s: Scene, w: Window, state: WindowState, at: Point)
    requires
        tidy(s),
        find(s.windows, w.id) == Some(w),
        state.minimized == w.state.minimized,
    ensures
        tidy(moved(remember(s, w, state), with_state(w, state), at).0),
{
    if location(s.stack, w.id) is Some {
        showing_is_tidy(s, w, state, at);
    } else {
        remembering_is_tidy(s, w, state);
    }
}

proof fn holding_aside_is_tidy(s: Scene, w: Window, state: WindowState)
    requires
        tidy(s),
        find(s.windows, w.id) == Some(w),
    ensures
        tidy(
            Scene {
                stack: without(s.stack, w.id),
                hidden: ids_without(s.hidden, w.id).push(w.id),
                ..remember(s, w, state)
            },
        ),
{
    let stack = without(s.stack, w.id);
    let kept = ids_without(s.hidden, w.id);
    let hidden = kept.push(w.id);
    remember_finds(s, w, state);
    ids_without_keeps_the_rest(s.hidden, w.id, w.id);
    without_keeps_the_rest(s.stack, w.id, w.id);
    located_is_stacked(stack, w.id);
    assert forall|id: u64| #[trigger] hidden.contains(id) implies location(stack, id) is None by {
        if id != w.id {
            let i = hidden.index_of(id);
            assert(kept[i] == id);
            ids_without_keeps_the_rest(s.hidden, w.id, id);
            without_keeps_the_rest(s.stack, w.id, id);
        }
    }
    assert forall|id: u64|
        (find(remember(s, w, state).windows, id) matches Some(v) && v.state.minimized) implies #[trigger] location(
        stack,
        id,
    ) is None by {
        without_keeps_the_rest(s.stack, w.id, id);
        assert(find(remember(s, w, state).windows, id) == find(s.windows, id) || id == w.id);
    }
}

/// Maximizing, un-maximizing and going in and out of fullscreen keep the desktop tidy.
pub proof fn covering_is_tidy(s: Scene, id: u64, named: Option<Screen>)
    requires
        tidy(s),
    ensures
        tidy(maximize(s, id).0),
        tidy(unmaximize(s, id).0),
        tidy(fullscreen(s, id, named).0),
        tidy(unfullscreen(s, id).0),
{
    if find(s.windows, id) is Some {
        let w = find(s.windows, id)->0;
        let i = found_is_listed(s.windows, id);
        assert forall|state: WindowState, at: Point|
            #![trigger moved(remember(s, w, state), w, at)]
            state.minimized == w.state.minimized implies tidy(moved(remember(s, w, state), w, at).0) by {
            moving_is_tidy(s, w, state, at);
        }
        assert forall|state: WindowState|
            #![trigger remember(s, w, state)]
            state.minimized == w.state.minimized implies tidy(remember(s, w, state)) by {
            remembering_is_tidy(s, w, state);
        }
    }
}

/// Minimizing, restoring, raising, lowering and moving to a desk keep the desktop tidy.
pub proof fn settling_is_tidy(s: Scene, id: u64, target: Desk)
    requires
        tidy(s),
    ensures
        tidy(minimize(s, id).0),
        tidy(restore(s, id).0),
        tidy(raise(s, id).0),
        tidy(lower(s, id).0),
        tidy(move_to_desk(s, id, target).0),
{
    if find(s.windows, id) is Some {
        let w = find(s.windows, id)->0;
        let i = found_is_listed(s.windows, id);
        let loc = location(s.stack, id);
        if w.minimizable && !w.state.minimized {
            let state = WindowState {
                minimized: true,
                needs_thumbnail: true,
                restore_geo: match loc {
                    Some(loc) => Some(Rect { loc, size: w.size }),
                    None => w.state.restore_geo,
                },
                last_pos: match loc {
                    Some(loc) => loc,
                    None => w.state.last_pos,
                },
                ..w.state
            };
            let marked = remember(s, w, state);
            remember_finds(s, w, state);
            let aside = if loc is Some {
                Scene {
                    stack: without(s.stack, id),
                    hidden: ids_without(s.hidden, id).push(id),
                    ..marked
                }
            } else {
                marked
            };
            if loc is Some {
                holding_aside_is_tidy(s, w, state);
            } else {
                remembering_is_tidy(s, w, state);
            }
            let now = with_state(w, state);
            assert(find(aside.windows, id) == Some(now));
            remembering_is_tidy(
                aside,
                now,
                WindowState { icon_slot: Some(cell_for(aside, now)), ..state },
            );
        }
        if w.state.minimized {
            let state = WindowState {
                minimized: false,
                needs_thumbnail: false,
                has_thumbnail: false,
                ..w.state
            };
            showing_is_tidy(s, w, state, restored_position(w.state));
            remembering_is_tidy(s, w, state);
        }
        if loc is Some {
            let m = Mapped { id, z: w.z, loc: loc->0 };
            showing_is_tidy(s, w, w.state, loc->0);
            assert(put(s.windows, with_state(w, w.state)) =~= put(s.windows, w));
            put_same(s.windows, w);
            lowering_is_tidy(s, m);
            raising_is_tidy(s, m);
        }
        if s.desks.contains(target) && w.state.desk != target {
            let state = WindowState { desk: target, ..w.state };
            if !w.state.minimized {
                showing_is_tidy(s, w, state, w.state.last_pos);
            }
            holding_aside_is_tidy(s, w, WindowState { last_pos: loc->0, ..state });
            remembering_is_tidy(s, w, state);
        }
    }
}

proof fn put_same(windows: Seq<Window>, w: Window)
    requires
        find(windows, w.id) == Some(w),
    ensures
        forall|id: u64| #[trigger] find(put(windows, w), id) == find(windows, id),
{
    assert forall|id: u64| #[trigger] find(put(windows, w), id) == find(windows, id) by {
        put_is_found(windows, w, id);
    }
}

proof fn raising_is_tidy(s: Scene, m: Mapped)
    requires
        tidy(s),
        location(s.stack, m.id) is Some,
    ensures
        tidy(Scene { stack: on_top(s.stack, m), ..s }),
{
    let stack = on_top(s.stack, m);
    on_top_keeps_the_rest(s.stack, m, m.id);
    assert forall|id: u64| #[trigger] s.hidden.contains(id) implies location(stack, id) is None by {
        on_top_keeps_the_rest(s.stack, m, id);
    }
    assert forall|id: u64|
        (find(s.windows, id) matches Some(v) && v.state.minimized) implies #[trigger] location(
        stack,
        id,
    ) is None by {
        on_top_keeps_the_rest(s.stack, m, id);
        assert(location(s.stack, id) is None);
    }
}

proof fn lowering_is_tidy(s: Scene, m: Mapped)
    requires
        tidy(s),
        location(s.stack, m.id) is Some,
    ensures
        tidy(Scene { stack: at_bottom(s.stack, m), ..s }),
{
    let stack = at_bottom(s.stack, m);
    at_bottom_keeps_the_rest(s.stack, m, m.id);
    assert forall|id: u64| #[trigger] s.hidden.contains(id) implies location(stack, id) is None by {
        at_bottom_keeps_the_rest(s.stack, m, id);
    }
    assert forall|id: u64|
        (find(s.windows, id) matches Some(v) && v.state.minimized) implies #[trigger] location(
        stack,
        id,
    ) is None by {
        at_bottom_keeps_the_rest(s.stack, m, id);
        assert(location(s.stack, id) is None);
    }
}

/// Raising and lowering change nothing of the other windows: neither where they are, nor their
/// order among each other.
pub proof fn restacking_keeps_the_others(s: Scene, id: u64, other: u64)
    requires
        tidy(s),
        other != id,
    ensures
        location(raise(s, id).0.stack, other) == location(s.stack, other),
        location(lower(s, id).0.stack, other) == location(s.stack, other),
        without(raise(s, id).0.stack, id) == without(s.stack, id),
        without(lower(s, id).0.stack, id) == without(s.stack, id),
        location(raise(s, id).0.stack, id) == location(s.stack, id),
        location(lower(s, id).0.stack, id) == location(s.stack, id),
{
    if find(s.windows, id) is Some && location(s.stack, id) is Some {
        let w = find(s.windows, id)->0;
        let m = Mapped { id, z: w.z, loc: location(s.stack, id)->0 };
        on_top_keeps_the_rest(s.stack, m, other);
        at_bottom_keeps_the_rest(s.stack, m, other);
    }
}

/// A window that is on screen and maximized goes back, when it is un-maximized, to where it was;
/// it is told its earlier size, and nothing is left to go back to.
pub proof fn unmaximizing_undoes_maximizing(s: Scene, id: u64)
    requires
        tidy(s),
        find(s.windows, id) matches Some(w) && !w.state.maximized && !w.state.fullscreen
            && w.maximizable && shown_geometry(s, w) is Some && covered_screen(s, w) is Some,
    ensures
        ({
            let w = find(s.windows, id)->0;
            let (after, asked) = unmaximize(maximize(s, id).0, id);
            let now = find(after.windows, id)->0;
            &&& location(after.stack, id) == location(s.stack, id)
            &&& find(after.windows, id) is Some
            &&& !now.state.maximized
            &&& now.state.restore_geo is None
            &&& w.shell == Shell::Wayland ==> asked.contains(
                Effect::PendingSize { window: id, size: Some(w.size) },
            )
            &&& w.shell == Shell::X11 ==> asked.contains(
                Effect::X11Configure { window: id, geometry: shown_geometry(s, w)->0 },
            )
        }),
{
    let w = find(s.windows, id)->0;
    let i = found_is_listed(s.windows, id);
    let screen = covered_screen(s, w)->0;
    let target = filling(screen.area(), w.insets);
    let back = shown_geometry(s, w)->0;
    let state = WindowState {
        maximized: true,
        restore_geo: Some(back),
        last_pos: target.loc,
        ..w.state
    };
    let marked = remember(s, w, state);
    remember_finds(s, w, state);
    let first = maximize(s, id).0;
    assert(first == moved(marked, w, target.loc).0);
    on_top_keeps_the_rest(s.stack, Mapped { id, z: w.z, loc: target.loc }, id);
    let now = with_state(w, state);
    assert(find(first.windows, id) == Some(now));
    let undone = WindowState { maximized: false, restore_geo: None, last_pos: back.loc, ..state };
    remember_finds(first, now, undone);
    on_top_keeps_the_rest(first.stack, Mapped { id, z: w.z, loc: back.loc }, id);
    let asked = unmaximize(first, id).1;
    let said = told(now, Covering::Maximized, false, Some(back));
    assert(asked[1] == said[1]);
}

/// A window that is on screen and made fullscreen goes back, when it leaves fullscreen, to where
/// it was, unless it was maximized underneath; it is told its earlier size, and nothing is left to
/// go back to.
pub proof fn unfullscreening_undoes_fullscreening(s: Scene, id: u64, named: Option<Screen>)
    requires
        tidy(s),
        find(s.windows, id) matches Some(w) && !w.state.fullscreen && !w.state.maximized
            && shown_geometry(s, w) is Some,
        find(fullscreen(s, id, named).0.windows, id) matches Some(w) && w.state.fullscreen,
    ensures
        ({
            let w = find(s.windows, id)->0;
            let (after, asked) = unfullscreen(fullscreen(s, id, named).0, id);
            let now = find(after.windows, id)->0;
            &&& location(after.stack, id) == location(s.stack, id)
            &&& find(after.windows, id) is Some
            &&& !now.state.fullscreen
            &&& now.state.pre_fullscreen is None
            &&& now.state.restore_geo == w.state.restore_geo
            &&& w.shell == Shell::Wayland ==> asked.contains(
                Effect::PendingSize { window: id, size: Some(w.size) },
            )
            &&& w.shell == Shell::X11 ==> asked.contains(
                Effect::X11Configure { window: id, geometry: shown_geometry(s, w)->0 },
            )
        }),
{
    let w = find(s.windows, id)->0;
    let i = found_is_listed(s.windows, id);
    let screen = if named is Some {
        named
    } else {
        covered_screen(s, w)
    };
    let target = screen->0.geometry->0;
    let back = shown_geometry(s, w)->0;
    let state = WindowState {
        fullscreen: true,
        pre_fullscreen: Some(back),
        last_pos: target.loc,
        ..w.state
    };
    remember_finds(s, w, state);
    let first = fullscreen(s, id, named).0;
    on_top_keeps_the_rest(s.stack, Mapped { id, z: w.z, loc: target.loc }, id);
    let now = with_state(w, state);
    assert(find(first.windows, id) == Some(now));
    let undone = WindowState {
        fullscreen: false,
        pre_fullscreen: None,
        last_pos: back.loc,
        ..state
    };
    remember_finds(first, now, undone);
    on_top_keeps_the_rest(first.stack, Mapped { id, z: w.z, loc: back.loc }, id);
    let asked = unfullscreen(first, id).1;
    let said = told(now, Covering::Fullscreen, false, Some(back));
    assert(asked[1] == said[1]);
}

/// A window that is maximized when it goes fullscreen comes back maximized, filling the work
/// area: it is placed there and told the size. It still knows where to go when it is
/// un-maximized.
pub proof fn a_maximized_window_comes_back_maximized(s: Scene, id: u64, named: Option<Screen>)
    requires
        tidy(s),
        find(s.windows, id) matches Some(w) && !w.state.fullscreen && w.state.maximized
            && location(s.stack, id) is Some && screen_of(s, w) is Some,
        find(fullscreen(s, id, named).0.windows, id) matches Some(w) && w.state.fullscreen,
    ensures
        ({
            let w = find(s.windows, id)->0;
            let (after, asked) = unfullscreen(fullscreen(s, id, named).0, id);
            let now = find(after.windows, id)->0;
            let home = filling(screen_of(s, w)->0.area(), w.insets);
            &&& find(after.windows, id) is Some
            &&& now.state.maximized
            &&& !now.state.fullscreen
            &&& now.state.restore_geo == w.state.restore_geo
            &&& location(after.stack, id) == Some(home.loc)
            &&& w.shell == Shell::Wayland ==> asked.contains(
                Effect::PendingSize { window: id, size: Some(home.size) },
            )
            &&& w.shell == Shell::X11 ==> asked.contains(
                Effect::X11Configure { window: id, geometry: home },
            )
        }),
{
    let w = find(s.windows, id)->0;
    let i = found_is_listed(s.windows, id);
    let screen = if named is Some {
        named
    } else {
        covered_screen(s, w)
    };
    let target = screen->0.geometry->0;
    let state = WindowState {
        fullscreen: true,
        pre_fullscreen: either(shown_geometry(s, w), w.state.pre_fullscreen),
        last_pos: target.loc,
        ..w.state
    };
    remember_finds(s, w, state);
    let first = fullscreen(s, id, named).0;
    on_top_keeps_the_rest(s.stack, Mapped { id, z: w.z, loc: target.loc }, id);
    let now = with_state(w, state);
    assert(find(first.windows, id) == Some(now));
    let home = filling(screen_of(s, w)->0.area(), w.insets);
    assert(screen_of(first, now) == screen_of(s, w));
    let undone = WindowState {
        fullscreen: false,
        pre_fullscreen: None,
        last_pos: home.loc,
        ..state
    };
    remember_finds(first, now, undone);
    on_top_keeps_the_rest(first.stack, Mapped { id, z: w.z, loc: home.loc }, id);
    let asked = unfullscreen(first, id).1;
    let said = told(now, Covering::Maximized, true, Some(home));
    assert(asked[2] == said[1]);
}

/// Fullscreen outranks maximized: while a window is fullscreen, maximizing and un-maximizing it
/// move nothing and tell it nothing.
pub proof fn fullscreen_outranks_maximized(s: Scene, id: u64)
    requires
        find(s.windows, id) matches Some(w) && w.state.fullscreen,
    ensures
        maximize(s, id).0.stack == s.stack,
        unmaximize(s, id).0.stack == s.stack,
        forall|i: int|
            0 <= i < maximize(s, id).1.len() ==> #[trigger] maximize(s, id).1[i]
                == Effect::DesksChanged,
        forall|i: int|
            0 <= i < unmaximize(s, id).1.len() ==> #[trigger] unmaximize(s, id).1[i]
                == Effect::DesksChanged,
{
}

/// A window that cannot be minimized, or maximized, is left alone whichever way it is asked for;
/// a fullscreen one is still marked, for when it leaves that state.
pub proof fn a_control_drawn_away_is_out_of_reach(s: Scene, id: u64)
    ensures
        (find(s.windows, id) matches Some(w) && !w.minimizable) ==> minimize(s, id) == (
            s,
            Seq::<Effect>::empty(),
        ),
        (find(s.windows, id) matches Some(w) && !w.maximizable && !w.state.fullscreen)
            ==> maximize(s, id) == (s, Seq::<Effect>::empty()),
{
}

/// Only the way into a state is guarded: a window that is maximized, or minimized, comes out of
/// it whatever it says of itself by then.
pub proof fn the_way_out_is_never_barred(s: Scene, id: u64)
    requires
        find(s.windows, id) is Some,
    ensures
        find(unmaximize(s, id).0.windows, id) matches Some(now) && !now.state.maximized,
        find(restore(s, id).0.windows, id) matches Some(now) && !now.state.minimized,
{
    let w = find(s.windows, id)->0;
    let i = found_is_listed(s.windows, id);
    remember_finds(s, w, WindowState { maximized: false, ..w.state });
    let back = WindowState { maximized: false, restore_geo: None, ..w.state };
    remember_finds(s, w, back);
    if w.state.restore_geo is Some {
        remember_finds(s, w, WindowState { last_pos: w.state.restore_geo->0.loc, ..back });
    }
    remember_finds(
        s,
        w,
        WindowState { minimized: false, needs_thumbnail: false, has_thumbnail: false, ..w.state },
    );
}

/// A window that is on screen and minimized is shown again, when it is restored, where it was.
pub proof fn restoring_undoes_minimizing(s: Scene, id: u64)
    requires
        tidy(s),
        find(s.windows, id) matches Some(w) && w.minimizable && !w.state.minimized && s.shows(
            w.state.desk,
        ),
        location(s.stack, id) is Some,
    ensures
        ({
            let first = minimize(s, id).0;
            let after = restore(first, id).0;
            &&& location(first.stack, id) is None
            &&& first.hidden.contains(id)
            &&& location(after.stack, id) == location(s.stack, id)
            &&& !after.hidden.contains(id)
            &&& find(after.windows, id) matches Some(now) && !now.state.minimized
        }),
{
    let w = find(s.windows, id)->0;
    let i = found_is_listed(s.windows, id);
    let loc = location(s.stack, id)->0;
    let state = WindowState {
        minimized: true,
        needs_thumbnail: true,
        restore_geo: Some(Rect { loc, size: w.size }),
        last_pos: loc,
        ..w.state
    };
    let marked = remember(s, w, state);
    remember_finds(s, w, state);
    let aside = Scene {
        stack: without(s.stack, id),
        hidden: ids_without(s.hidden, id).push(id),
        ..marked
    };
    let now = with_state(w, state);
    let celled = WindowState { icon_slot: Some(cell_for(aside, now)), ..state };
    remember_finds(aside, now, celled);
    without_keeps_the_rest(s.stack, id, id);
    located_is_stacked(without(s.stack, id), id);
    let first = minimize(s, id).0;
    assert(first.hidden[first.hidden.len() - 1] == id);
    let shown = with_state(now, celled);
    assert(find(first.windows, id) == Some(shown));
    settling_is_tidy(s, id, w.state.desk);
    on_top_keeps_the_rest(first.stack, Mapped { id, z: w.z, loc }, id);
    ids_without_keeps_the_rest(first.hidden, id, id);
    remember_finds(
        first,
        shown,
        WindowState { minimized: false, needs_thumbnail: false, has_thumbnail: false, ..celled },
    );
}

/// Restoring a window keeps the desktop sound.
pub proof fn restoring_is_sound(s: Scene, id: u64)
    requires
        s.sound(),
    ensures
        restore(s, id).0.sound(),
{
    if find(s.windows, id) is Some {
        let w = find(s.windows, id)->0;
        let i = found_is_listed(s.windows, id);
        sound_is_kept(
            s,
            with_state(
                w,
                WindowState {
                    minimized: false,
                    needs_thumbnail: false,
                    has_thumbnail: false,
                    ..w.state
                },
            ),
        );
    }
}

} // verus!

//! The desktop as the window operations see it: the windows, which of them are on screen and in
//! what order, which are held aside, and the screens.
use vstd::prelude::*;

use crate::geometry::{fits, Insets, Point, Rect, Size, Spot};
use crate::menu::{MenuClick, WindowMenu};
use crate::minimized::{IconDrag, IconMetrics};
use crate::placement::Placement;

verus! {

/// A virtual desktop: the one whose windows are on every desk, or an ordinary one.
#[derive(Debug, Clone, Copy, PartialEq, Eq, Structural)]
pub enum Desk {
    Global,
    Ordinary(u32),
}

/// Which protocol a window speaks.
#[derive(Debug, Clone, Copy, PartialEq, Eq, Structural)]
pub enum Shell {
    Wayland,
    X11,
}

/// What the compositor remembers of a window.
#[derive(Debug, Clone, Copy, PartialEq, Eq)]
pub struct WindowState {
    pub desk: Desk,
    pub minimized: bool,
    pub maximized: bool,
    pub fullscreen: bool,
    /// Where an un-maximized or un-minimized window goes back to.
    pub restore_geo: Option<Rect>,
    /// Where a window that leaves fullscreen goes back to.
    pub pre_fullscreen: Option<Rect>,
    /// Where the window goes when its desk is next activated.
    pub last_pos: Point,
    /// The cell of the icon grid that the window holds, or held last.
    pub icon_slot: Option<usize>,
    /// Whether a picture of the window is to be taken for its icon.
    pub needs_thumbnail: bool,
    /// Whether there is a picture of the window.
    pub has_thumbnail: bool,
}

/// A window: what it says of itself, and what the compositor remembers of it.
#[derive(Debug, Clone, Copy, PartialEq, Eq)]
pub struct Window {
    pub id: u64,
    pub shell: Shell,
    /// Which band of the stack the window is kept in.
    pub z: u8,
    /// The size of its contents.
    pub size: Size,
    /// What its frame adds to that, while it is not fullscreen.
    pub insets: Insets,
    pub minimizable: bool,
    pub maximizable: bool,
    /// Where its app opens by default, for the apps that have such a place.
    pub customary: Option<Placement>,
    /// The window that it is a dialog of.
    pub parent: Option<u64>,
    /// Where it asked to be put.
    pub requested: Option<Point>,
    /// The first of the screens that it is on.
    pub home: Option<u64>,
    /// Whether it has had its initial position chosen.
    pub placed: bool,
    pub state: WindowState,
}

/// A window that is on screen, and where its contents start.
#[derive(Debug, Clone, Copy, PartialEq, Eq)]
pub struct Mapped {
    pub id: u64,
    pub z: u8,
    pub loc: Point,
}

/// An output: where it is, where it has a mode, and the part of it, relative to its corner, that
/// layer-shell clients have left to windows.
#[derive(Debug, Clone, Copy, PartialEq, Eq)]
pub struct Screen {
    pub id: u64,
    pub geometry: Option<Rect>,
    pub zone: Rect,
}

/// The states that a window is told to be in.
#[derive(Debug, Clone, Copy, PartialEq, Eq)]
pub enum Covering {
    Maximized,
    Fullscreen,
}

/// What an operation asks of the outside, in the order that it asks it.
#[derive(Debug, Clone, Copy, PartialEq, Eq)]
pub enum Effect {
    /// Put a state into a toplevel's pending configure, or take it out.
    Pending { window: u64, covering: Covering, on: bool },
    /// Put a size into a toplevel's pending configure; none leaves the size to the client.
    PendingSize { window: u64, size: Option<Size> },
    /// Send a toplevel its pending configure.
    Configure { window: u64 },
    /// Tell an X11 window that it is in a state, or no longer.
    X11State { window: u64, covering: Covering, on: bool },
    /// Give an X11 window its geometry.
    X11Configure { window: u64, geometry: Rect },
    /// Map or unmap an X11 window.
    X11Mapped { window: u64, on: bool },
    /// Put a window on screen, above the others.
    Show { window: u64, at: Point, activate: bool },
    /// Take a window off the screen.
    Unmap { window: u64 },
    /// Raise a window and make it the active one.
    Raise { window: u64, activate: bool },
    /// Take every window off the screen and put them back in the order of the stack.
    Restack,
    /// Ask a window to close.
    Close { window: u64 },
    /// Give a window the keyboard.
    Focus { window: u64 },
    /// Give the topmost window the keyboard.
    FocusTopmost,
    /// Tell the clients that watch the desks.
    DesksChanged,
    /// Draw again.
    Redraw,
}

/// The desktop as values.
#[verifier::ext_equal]
pub ghost struct Scene {
    pub windows: Seq<Window>,
    pub stack: Seq<Mapped>,
    pub hidden: Seq<u64>,
    pub screens: Seq<Screen>,
    pub active: Desk,
    pub desks: Seq<Desk>,
    pub metrics: IconMetrics,
    pub pointer: Spot,
    pub icon_drag: Option<IconDrag>,
    pub window_menu: Option<WindowMenu>,
    pub last_menu_click: Option<MenuClick>,
}

/// The compositor, as far as its windows and screens go.
pub struct Wlrix {
    pub windows: Vec<Window>,
    /// The windows on screen, bottom to top.
    pub stack: Vec<Mapped>,
    /// The windows held aside: minimized, or on a desk that is not shown.
    pub hidden: Vec<u64>,
    pub screens: Vec<Screen>,
    /// The desk that is shown.
    pub active: Desk,
    /// The desks that there are.
    pub desks: Vec<Desk>,
    pub metrics: IconMetrics,
    pub pointer: Spot,
    /// The move of a minimized window's tile that is under way.
    pub icon_drag: Option<IconDrag>,
    /// The window menu that is posted.
    pub window_menu: Option<WindowMenu>,
    /// The last press on a window-menu button, so that a second one reads as a double click.
    pub last_menu_click: Option<MenuClick>,
}

impl View for Wlrix {
    type V = Scene;

    open spec fn view(&self) -> Scene {
        Scene {
            windows: self.windows@,
            stack: self.stack@,
            hidden: self.hidden@,
            screens: self.screens@,
            active: self.active,
            desks: self.desks@,
            metrics: self.metrics,
            pointer: self.pointer,
            icon_drag: self.icon_drag,
            window_menu: self.window_menu,
            last_menu_click: self.last_menu_click,
        }
    }
}

/// The first window with an id.
pub open spec fn find(windows: Seq<Window>, id: u64) -> Option<Window>
    decreases windows.len(),
{
    if windows.len() == 0 {
        None
    } else {
        match find(windows.drop_last(), id) {
            Some(w) => Some(w),
            None => if windows.last().id == id {
                Some(windows.last())
            } else {
                None
            },
        }
    }
}

/// The windows, with `w` in place of the one that has its id.
pub open spec fn put(windows: Seq<Window>, w: Window) -> Seq<Window> {
    Seq::new(
        windows.len(),
        |i: int|
            if windows[i].id == w.id {
                w
            } else {
                windows[i]
            },
    )
}

/// Where a window is on screen, if it is.
pub open spec fn location(stack: Seq<Mapped>, id: u64) -> Option<Point>
    decreases stack.len(),
{
    if stack.len() == 0 {
        None
    } else {
        match location(stack.drop_last(), id) {
            Some(p) => Some(p),
            None => if stack.last().id == id {
                Some(stack.last().loc)
            } else {
                None
            },
        }
    }
}

/// The stack without a window.
pub open spec fn without(stack: Seq<Mapped>, id: u64) -> Seq<Mapped>
    decreases stack.len(),
{
    if stack.len() == 0 {
        stack
    } else if stack.last().id == id {
        without(stack.drop_last(), id)
    } else {
        without(stack.drop_last(), id).push(stack.last())
    }
}

/// The part of the stack in bands up to `z`.
pub open spec fn up_to_band(stack: Seq<Mapped>, z: int) -> Seq<Mapped>
    decreases stack.len(),
{
    if stack.len() == 0 {
        stack
    } else if stack.last().z <= z {
        up_to_band(stack.drop_last(), z).push(stack.last())
    } else {
        up_to_band(stack.drop_last(), z)
    }
}

/// The part of the stack in bands above `z`.
pub open spec fn above_band(stack: Seq<Mapped>, z: int) -> Seq<Mapped>
    decreases stack.len(),
{
    if stack.len() == 0 {
        stack
    } else if stack.last().z <= z {
        above_band(stack.drop_last(), z)
    } else {
        above_band(stack.drop_last(), z).push(stack.last())
    }
}

/// The stack with a window at the top of its band.
pub open spec fn on_top(stack: Seq<Mapped>, m: Mapped) -> Seq<Mapped> {
    let rest = without(stack, m.id);
    up_to_band(rest, m.z as int).push(m) + above_band(rest, m.z as int)
}

/// The stack with a window at the bottom of its band.
pub open spec fn at_bottom(stack: Seq<Mapped>, m: Mapped) -> Seq<Mapped> {
    let rest = without(stack, m.id);
    up_to_band(rest, m.z - 1).push(m) + above_band(rest, m.z - 1)
}

/// The ids, without one of them.
pub open spec fn ids_without(ids: Seq<u64>, id: u64) -> Seq<u64>
    decreases ids.len(),
{
    if ids.len() == 0 {
        ids
    } else if ids.last() == id {
        ids_without(ids.drop_last(), id)
    } else {
        ids_without(ids.drop_last(), id).push(ids.last())
    }
}

/// The first screen with an id.
pub open spec fn find_screen(screens: Seq<Screen>, id: u64) -> Option<Screen>
    decreases screens.len(),
{
    if screens.len() == 0 {
        None
    } else {
        match find_screen(screens.drop_last(), id) {
            Some(s) => Some(s),
            None => if screens.last().id == id {
                Some(screens.last())
            } else {
                None
            },
        }
    }
}

/// The last screen that a spot is on.
pub open spec fn screen_under(screens: Seq<Screen>, s: Spot) -> Option<Screen>
    decreases screens.len(),
{
    if screens.len() == 0 {
        None
    } else if screens.last().geometry matches Some(g) && g.holds_spot(s) {
        Some(screens.last())
    } else {
        screen_under(screens.drop_last(), s)
    }
}

pub open spec fn first_screen(screens: Seq<Screen>) -> Option<Screen> {
    if screens.len() > 0 {
        Some(screens[0])
    } else {
        None
    }
}

impl Screen {
    pub open spec fn corner(self) -> Point {
        match self.geometry {
            Some(g) => g.loc,
            None => Point { x: 0, y: 0 },
        }
    }

    /// Whether the work area's corner is a point.
    pub open spec fn sound(self) -> bool {
        fits(self.zone.loc.x + self.corner().x) && fits(self.zone.loc.y + self.corner().y)
    }

    /// The part of the screen available to ordinary windows, in the desktop's coordinates.
    pub open spec fn area(self) -> Rect {
        Rect {
            loc: Point {
                x: (self.zone.loc.x + self.corner().x) as i32,
                y: (self.zone.loc.y + self.corner().y) as i32,
            },
            size: self.zone.size,
        }
    }

    /// The part of the screen available to ordinary windows.
    pub fn work_area(&self) -> (area: Rect)
        requires
            self.sound(),
        ensures
            area == self.area(),
    {
        let corner: Point = match self.geometry {
            Some(g) => g.loc,
            None => Point { x: 0, y: 0 },
        };
        Rect {
            loc: Point { x: self.zone.loc.x + corner.x, y: self.zone.loc.y + corner.y },
            size: self.zone.size,
        }
    }
}

impl Window {
    /// What its frame adds to a window: nothing while it is fullscreen.
    pub open spec fn framing(self) -> Insets {
        if self.state.fullscreen {
            Insets { left: 0, top: 0, right: 0, bottom: 0 }
        } else {
            self.insets
        }
    }

    /// What its frame adds to the window.
    pub fn frame_insets(&self) -> (insets: Insets)
        ensures
            insets == self.framing(),
    {
        if self.state.fullscreen {
            Insets { left: 0, top: 0, right: 0, bottom: 0 }
        } else {
            self.insets
        }
    }
}

/// Whether the contents of a window that fills an area can be told in `i32`s.
pub open spec fn fills(area: Rect, insets: Insets) -> bool {
    &&& fits(area.loc.x + insets.left)
    &&& fits(area.loc.y + insets.top)
    &&& fits(area.size.w - insets.left - insets.right)
    &&& fits(area.size.h - insets.top - insets.bottom)
}

impl Scene {
    /// Whether the screens and the frames are of a size that can be reckoned with.
    pub open spec fn sound(self) -> bool {
        &&& self.metrics.valid()
        &&& forall|i: int| 0 <= i < self.screens.len() ==> (#[trigger] self.screens[i]).sound()
        &&& forall|i: int, j: int|
            0 <= i < self.screens.len() && 0 <= j < self.windows.len() ==> fills(
                (#[trigger] self.screens[i]).area(),
                (#[trigger] self.windows[j]).insets,
            ) && fills(
                self.screens[i].area(),
                Insets { left: 0, top: 0, right: 0, bottom: 0 },
            )
    }

    /// Whether a desk's windows are on screen.
    pub open spec fn shows(self, desk: Desk) -> bool {
        desk == self.active || desk == Desk::Global
    }
}

pub proof fn found_is_listed(windows: Seq<Window>, id: u64) -> (i: int)
    requires
        find(windows, id) is Some,
    ensures
        0 <= i < windows.len(),
        find(windows, id) == Some(windows[i]),
        windows[i].id == id,
    decreases windows.len(),
{
    if find(windows.drop_last(), id) is Some {
        found_is_listed(windows.drop_last(), id)
    } else {
        windows.len() - 1
    }
}

/// Whether no other window of a list has the id of one of them.
pub open spec fn listed_once(windows: Seq<Window>, i: int) -> bool {
    &&& 0 <= i < windows.len()
    &&& forall|j: int| 0 <= j < windows.len() && j != i ==> (#[trigger] windows[j]).id != windows[i].id
}

/// Whether no other screen of a list has the id of one of them.
pub open spec fn connected_once(screens: Seq<Screen>, n: int) -> bool {
    &&& 0 <= n < screens.len()
    &&& forall|j: int| 0 <= j < screens.len() && j != n ==> (#[trigger] screens[j]).id != screens[n].id
}

/// A window that is listed is the one that is found by its id.
pub proof fn a_listed_window_is_found(windows: Seq<Window>, i: int)
    requires
        listed_once(windows, i),
    ensures
        find(windows, windows[i].id) == Some(windows[i]),
    decreases windows.len(),
{
    let fewer = windows.drop_last();
    if i < fewer.len() {
        assert forall|j: int| 0 <= j < fewer.len() && j != i implies (#[trigger] fewer[j]).id
            != fewer[i].id by {
            assert(windows[j].id != windows[i].id);
        }
        a_listed_window_is_found(fewer, i);
    } else if find(fewer, windows[i].id) is Some {
        let j = found_is_listed(fewer, windows[i].id);
        assert(windows[j].id != windows[i].id);
    }
}

/// A window that no entry is of is not found.
pub proof fn an_unlisted_window_is_not_found(windows: Seq<Window>, id: u64)
    requires
        forall|j: int| 0 <= j < windows.len() ==> (#[trigger] windows[j]).id != id,
    ensures
        find(windows, id) is None,
{
    if find(windows, id) is Some {
        let j = found_is_listed(windows, id);
        assert(windows[j].id != id);
    }
}

/// A screen that is connected is the one that is found by its id.
pub proof fn a_connected_screen_is_found(screens: Seq<Screen>, n: int)
    requires
        connected_once(screens, n),
    ensures
        find_screen(screens, screens[n].id) == Some(screens[n]),
    decreases screens.len(),
{
    let fewer = screens.drop_last();
    if n < fewer.len() {
        assert forall|j: int| 0 <= j < fewer.len() && j != n implies (#[trigger] fewer[j]).id
            != fewer[n].id by {
            assert(screens[j].id != screens[n].id);
        }
        a_connected_screen_is_found(fewer, n);
    } else {
        a_missing_screen_is_not_found(fewer, screens[n].id);
    }
}

/// A screen that is not connected is not found.
pub proof fn a_missing_screen_is_not_found(screens: Seq<Screen>, id: u64)
    requires
        forall|j: int| 0 <= j < screens.len() ==> (#[trigger] screens[j]).id != id,
    ensures
        find_screen(screens, id) is None,
    decreases screens.len(),
{
    if screens.len() > 0 {
        let fewer = screens.drop_last();
        assert forall|j: int| 0 <= j < fewer.len() implies (#[trigger] fewer[j]).id != id by {
            assert(screens[j].id != id);
        }
        a_missing_screen_is_not_found(fewer, id);
        assert(screens[screens.len() - 1].id != id);
    }
}

/// Whether a spot is on a screen, and on none that is listed after it.
pub open spec fn last_holding(screens: Seq<Screen>, s: Spot, n: int) -> bool {
    &&& 0 <= n < screens.len()
    &&& on_screen(screens[n], s)
    &&& forall|j: int| n < j < screens.len() ==> !on_screen(#[trigger] screens[j], s)
}

/// Whether a spot is on a screen, in 256ths of a pixel.
pub open spec fn on_screen(screen: Screen, s: Spot) -> bool {
    screen.geometry matches Some(g) && g.loc.x * 256 <= s.x && s.x < (g.loc.x + g.size.w) * 256
        && g.loc.y * 256 <= s.y && s.y < (g.loc.y + g.size.h) * 256
}

/// The screen that a spot is on is the last one that holds it.
pub proof fn the_last_screen_is_under(screens: Seq<Screen>, s: Spot, n: int)
    requires
        last_holding(screens, s, n),
    ensures
        screen_under(screens, s) == Some(screens[n]),
    decreases screens.len(),
{
    if n < screens.len() - 1 {
        let fewer = screens.drop_last();
        assert(!on_screen(screens[screens.len() - 1], s));
        assert forall|j: int| n < j < fewer.len() implies !on_screen(#[trigger] fewer[j], s) by {
            assert(!on_screen(screens[j], s));
        }
        the_last_screen_is_under(fewer, s, n);
    }
}

/// A spot that no screen holds is on none.
pub proof fn no_screen_is_under(screens: Seq<Screen>, s: Spot)
    requires
        forall|j: int| 0 <= j < screens.len() ==> !on_screen(#[trigger] screens[j], s),
    ensures
        screen_under(screens, s) is None,
    decreases screens.len(),
{
    if screens.len() > 0 {
        let fewer = screens.drop_last();
        assert(!on_screen(screens[screens.len() - 1], s));
        assert forall|j: int| 0 <= j < fewer.len() implies !on_screen(#[trigger] fewer[j], s) by {
            assert(!on_screen(screens[j], s));
        }
        no_screen_is_under(fewer, s);
    }
}

/// Looking a window up after it was put back gives what was put; the others are as they were.
pub proof fn put_is_found(windows: Seq<Window>, w: Window, id: u64)
    ensures
        find(put(windows, w), id) == if find(windows, id) is Some && id == w.id {
            Some(w)
        } else {
            find(windows, id)
        },
    decreases windows.len(),
{
    if windows.len() > 0 {
        put_is_found(windows.drop_last(), w, id);
        assert(put(windows, w).drop_last() =~= put(windows.drop_last(), w));
    }
}

pub proof fn find_skips(windows: Seq<Window>, id: u64, upto: int)
    requires
        0 <= upto <= windows.len(),
        find(windows.take(upto), id) is Some,
    ensures
        find(windows, id) == find(windows.take(upto), id),
    decreases windows.len(),
{
    if upto == windows.len() {
        assert(windows.take(upto) =~= windows);
    } else {
        assert(windows.drop_last().take(upto) =~= windows.take(upto));
        find_skips(windows.drop_last(), id, upto);
    }
}

pub proof fn location_skips(stack: Seq<Mapped>, id: u64, upto: int)
    requires
        0 <= upto <= stack.len(),
        location(stack.take(upto), id) is Some,
    ensures
        location(stack, id) == location(stack.take(upto), id),
    decreases stack.len(),
{
    if upto == stack.len() {
        assert(stack.take(upto) =~= stack);
    } else {
        assert(stack.drop_last().take(upto) =~= stack.take(upto));
        location_skips(stack.drop_last(), id, upto);
    }
}

pub proof fn find_screen_skips(screens: Seq<Screen>, id: u64, upto: int)
    requires
        0 <= upto <= screens.len(),
        find_screen(screens.take(upto), id) is Some,
    ensures
        find_screen(screens, id) == find_screen(screens.take(upto), id),
    decreases screens.len(),
{
    if upto == screens.len() {
        assert(screens.take(upto) =~= screens);
    } else {
        assert(screens.drop_last().take(upto) =~= screens.take(upto));
        find_screen_skips(screens.drop_last(), id, upto);
    }
}

impl Wlrix {
    /// A desktop without windows or screens, the pointer in its corner and nothing under way.
    pub fn new(active: Desk, desks: Vec<Desk>, metrics: IconMetrics) -> (state: Self)
        ensures
            state@ == (Scene {
                windows: Seq::empty(),
                stack: Seq::empty(),
                hidden: Seq::empty(),
                screens: Seq::empty(),
                active,
                desks: desks@,
                metrics,
                pointer: Spot { x: 0, y: 0 },
                icon_drag: None,
                window_menu: None,
                last_menu_click: None,
            }),
    {
        Wlrix {
            windows: Vec::new(),
            stack: Vec::new(),
            hidden: Vec::new(),
            screens: Vec::new(),
            active,
            desks,
            metrics,
            pointer: Spot { x: 0, y: 0 },
            icon_drag: None,
            window_menu: None,
            last_menu_click: None,
        }
    }

    /// The window with an id.
    pub fn window(&self, id: u64) -> (window: Option<Window>)
        ensures
            window == find(self@.windows, id),
            window matches Some(w) ==> w.id == id,
    {
        let mut i: usize = 0;
        while i < self.windows.len()
            invariant
                i <= self.windows@.len(),
                find(self.windows@.take(i as int), id) is None,
            decreases self.windows.len() - i,
        {
            let w = self.windows[i];
            i += 1;
            proof {
                assert(self.windows@.take(i as int).drop_last() =~= self.windows@.take(i - 1));
                if w.id == id {
                    find_skips(self.windows@, id, i as int);
                }
            }
            if w.id == id {
                return Some(w);
            }
        }
        assert(self.windows@.take(self.windows@.len() as int) =~= self.windows@);
        None
    }

    /// Puts a window back, in place of the one that has its id.
    pub fn set_window(&mut self, w: Window)
        ensures
            final(self)@ == (Scene { windows: put(old(self)@.windows, w), ..old(self)@ }),
    {
        let ghost before = self.windows@;
        let mut i: usize = 0;
        while i < self.windows.len()
            invariant
                i <= self.windows@.len(),
                self.windows@.len() == before.len(),
                forall|j: int| 0 <= j < i ==> self.windows@[j] == put(before, w)[j],
                forall|j: int| i <= j < before.len() ==> self.windows@[j] == before[j],
                self@ == (Scene { windows: self.windows@, ..old(self)@ }),
            decreases self.windows.len() - i,
        {
            if self.windows[i].id == w.id {
                self.windows.set(i, w);
            }
            i += 1;
        }
        assert(self.windows@ =~= put(before, w));
    }

    /// Where a window is on screen, if it is.
    pub fn element_location(&self, id: u64) -> (loc: Option<Point>)
        ensures
            loc == location(self@.stack, id),
    {
        let mut i: usize = 0;
        while i < self.stack.len()
            invariant
                i <= self.stack@.len(),
                location(self.stack@.take(i as int), id) is None,
            decreases self.stack.len() - i,
        {
            let m = self.stack[i];
            i += 1;
            proof {
                assert(self.stack@.take(i as int).drop_last() =~= self.stack@.take(i - 1));
                if m.id == id {
                    location_skips(self.stack@, id, i as int);
                }
            }
            if m.id == id {
                return Some(m.loc);
            }
        }
        assert(self.stack@.take(self.stack@.len() as int) =~= self.stack@);
        None
    }

    /// Takes a window off the screen.
    pub fn unmap(&mut self, id: u64)
        ensures
            final(self)@ == (Scene { stack: without(old(self)@.stack, id), ..old(self)@ }),
    {
        let mut rest: Vec<Mapped> = Vec::new();
        let mut i: usize = 0;
        assert(self.stack@.take(0) =~= Seq::empty());
        while i < self.stack.len()
            invariant
                i <= self.stack@.len(),
                rest@ == without(self.stack@.take(i as int), id),
                *self == *old(self),
            decreases self.stack.len() - i,
        {
            let m = self.stack[i];
            i += 1;
            assert(self.stack@.take(i as int).drop_last() =~= self.stack@.take(i - 1));
            if m.id != id {
                rest.push(m);
            }
        }
        assert(self.stack@.take(self.stack@.len() as int) =~= self.stack@);
        self.stack = rest;
    }

    /// Puts a window into the stack, above those in bands up to `band`.
    fn insert_above(&mut self, m: Mapped, band: i32)
        ensures
            final(self)@ == (Scene {
                stack: up_to_band(without(old(self)@.stack, m.id), band as int).push(m)
                    + above_band(without(old(self)@.stack, m.id), band as int),
                ..old(self)@
            }),
    {
        self.unmap(m.id);
        let ghost rest = self.stack@;
        let mut low: Vec<Mapped> = Vec::new();
        let mut high: Vec<Mapped> = Vec::new();
        let mut i: usize = 0;
        assert(rest.take(0) =~= Seq::empty());
        while i < self.stack.len()
            invariant
                i <= self.stack@.len(),
                self.stack@ == rest,
                low@ == up_to_band(rest.take(i as int), band as int),
                high@ == above_band(rest.take(i as int), band as int),
                self@ == (Scene { stack: rest, ..old(self)@ }),
            decreases self.stack.len() - i,
        {
            let other = self.stack[i];
            i += 1;
            assert(rest.take(i as int).drop_last() =~= rest.take(i - 1));
            if other.z as i32 <= band {
                low.push(other);
            } else {
                high.push(other);
            }
        }
        assert(rest.take(rest.len() as int) =~= rest);
        low.push(m);
        low.append(&mut high);
        self.stack = low;
    }

    /// Puts a window on screen, at the top of its band.
    pub fn map_on_top(&mut self, m: Mapped)
        ensures
            final(self)@ == (Scene { stack: on_top(old(self)@.stack, m), ..old(self)@ }),
    {
        self.insert_above(m, m.z as i32);
    }

    /// Puts a window on screen, at the bottom of its band.
    pub fn map_at_bottom(&mut self, m: Mapped)
        ensures
            final(self)@ == (Scene { stack: at_bottom(old(self)@.stack, m), ..old(self)@ }),
    {
        self.insert_above(m, m.z as i32 - 1);
    }

    /// Lets go of a window that was held aside.
    pub fn unhide(&mut self, id: u64)
        ensures
            final(self)@ == (Scene { hidden: ids_without(old(self)@.hidden, id), ..old(self)@ }),
    {
        let mut rest: Vec<u64> = Vec::new();
        let mut i: usize = 0;
        assert(self.hidden@.take(0) =~= Seq::empty());
        while i < self.hidden.len()
            invariant
                i <= self.hidden@.len(),
                rest@ == ids_without(self.hidden@.take(i as int), id),
                *self == *old(self),
            decreases self.hidden.len() - i,
        {
            let other: u64 = self.hidden[i];
            i += 1;
            assert(self.hidden@.take(i as int).drop_last() =~= self.hidden@.take(i - 1));
            if other != id {
                rest.push(other);
            }
        }
        assert(self.hidden@.take(self.hidden@.len() as int) =~= self.hidden@);
        self.hidden = rest;
    }

    /// Holds a window aside.
    pub fn hold_aside(&mut self, id: u64)
        ensures
            final(self)@ == (Scene {
                hidden: ids_without(old(self)@.hidden, id).push(id),
                ..old(self)@
            }),
    {
        self.unhide(id);
        self.hidden.push(id);
    }

    /// The screen with an id.
    pub fn screen(&self, id: u64) -> (screen: Option<Screen>)
        ensures
            screen == find_screen(self@.screens, id),
    {
        let mut i: usize = 0;
        while i < self.screens.len()
            invariant
                i <= self.screens@.len(),
                find_screen(self.screens@.take(i as int), id) is None,
            decreases self.screens.len() - i,
        {
            let s = self.screens[i];
            i += 1;
            proof {
                assert(self.screens@.take(i as int).drop_last() =~= self.screens@.take(i - 1));
                if s.id == id {
                    find_screen_skips(self.screens@, id, i as int);
                }
            }
            if s.id == id {
                return Some(s);
            }
        }
        assert(self.screens@.take(self.screens@.len() as int) =~= self.screens@);
        None
    }

    /// The first of the screens.
    pub fn primary(&self) -> (screen: Option<Screen>)
        ensures
            screen == first_screen(self@.screens),
    {
        if self.screens.len() > 0 {
            Some(self.screens[0])
        } else {
            None
        }
    }

    /// The last screen that a spot is on.
    pub fn screen_at_spot(&self, s: Spot) -> (screen: Option<Screen>)
        ensures
            screen == screen_under(self@.screens, s),
    {
        let mut i: usize = self.screens.len();
        assert(self.screens@.take(i as int) =~= self.screens@);
        while i > 0
            invariant
                i <= self.screens@.len(),
                screen_under(self.screens@, s) == screen_under(self.screens@.take(i as int), s),
            decreases i,
        {
            i -= 1;
            assert(self.screens@.take(i + 1).drop_last() =~= self.screens@.take(i as int));
            assert(self.screens@.take(i + 1).last() == self.screens@[i as int]);
            if let Some(g) = self.screens[i].geometry {
                if g.contains_spot(s) {
                    return Some(self.screens[i]);
                }
            }
        }
        assert(self.screens@.take(0) =~= Seq::empty());
        None
    }

    /// Whether a desk's windows are on screen.
    pub fn shows(&self, desk: Desk) -> (r: bool)
        ensures
            r == self@.shows(desk),
    {
        desk == self.active || desk == Desk::Global
    }
}

} // verus!

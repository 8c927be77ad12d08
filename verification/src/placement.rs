//! Where new windows go: cascaded within the output's work area, in a customary corner, over
//! the window that opened them, or where they asked to be.
use vstd::prelude::*;

use crate::state::{
    find, found_is_listed, location, on_top, put, without, Desk, Effect, Mapped, Scene, Screen,
    Shell, Window, WindowState, Wlrix,
};
use crate::geometry::{
    clamp, clamped, fits, larger, max, merging_keeps_every_pixel, Insets, Point, Rect, Size, Spot,
    UNIT,
};
use crate::scan::same_text;
use crate::stacking::{banded, each_once, on_top_keeps_the_rest, without_keeps_the_rest};
use crate::window_ops::{opening_screen, parent_shown, pointer_screen};

verus! {

/// Diagonal offset between successive windows, and how many steps before restarting.
pub const CASCADE_STEP: i32 = 32;

pub const CASCADE_WRAP: i32 = 8;

/// How far the wlRIX apps sit in from their corner.
pub const CORNER_INSET: i32 = 16;

/// A corner of the work area.
#[derive(Debug, Clone, Copy, PartialEq, Eq, Structural)]
pub enum Corner {
    TopLeft,
    BottomLeft,
}

/// Where a window opens, in frame coordinates: the client plus its decorations.
#[derive(Debug, Clone, Copy, PartialEq, Eq, Structural)]
pub enum Placement {
    Corner(Corner),
    Centered,
    /// Centered on another window's frame: a dialog over the window that opened it.
    CenteredOn(Rect),
    /// Exactly here, because the window asked for it.
    Frame(Point),
    /// Diagonally offset by how many windows are already up.
    Cascade(i32),
}

/// The frame a wlRIX shell app gets, when it is not framed like an ordinary window.
#[derive(Debug, Clone, Copy, PartialEq, Eq, Structural)]
pub enum ShellFrame {
    /// No frame at all.
    Bare,
    /// A titlebar and nothing else.
    TitlebarOnly,
}

/// Records that a window has been given its initial position, so that later commits do not yank
/// it back from wherever the user moved it.
#[derive(Debug, Clone, Copy, PartialEq, Eq, Structural)]
pub struct Placed;

/// Where the wlRIX app that an id names opens by default.
pub open spec fn customary(app_id: Seq<char>) -> Option<Placement> {
    if app_id == "com.wlrix.toolchest"@ {
        Some(Placement::Corner(Corner::TopLeft))
    } else if app_id == "com.wlrix.desks"@ {
        Some(Placement::Corner(Corner::BottomLeft))
    } else if app_id == "com.wlrix.greeter"@ {
        Some(Placement::Centered)
    } else {
        None
    }
}

/// Where a wlRIX app opens by default: a starting position and nothing more.
pub fn default_placement(app_id: &str) -> (placement: Option<Placement>)
    ensures
        placement == customary(app_id@),
{
    if same_text(app_id, "com.wlrix.toolchest") {
        Some(Placement::Corner(Corner::TopLeft))
    } else if same_text(app_id, "com.wlrix.desks") {
        Some(Placement::Corner(Corner::BottomLeft))
    } else if same_text(app_id, "com.wlrix.greeter") {
        Some(Placement::Centered)
    } else {
        None
    }
}

/// How a wlRIX shell app is framed, or nothing for an ordinary window.
pub fn shell_frame(app_id: &str) -> (frame: Option<ShellFrame>)
    ensures
        frame == if app_id@ == "com.wlrix.toolchest"@ {
            Some(ShellFrame::TitlebarOnly)
        } else if app_id@ == "com.wlrix.greeter"@ {
            Some(ShellFrame::Bare)
        } else {
            None
        },
{
    if same_text(app_id, "com.wlrix.toolchest") {
        Some(ShellFrame::TitlebarOnly)
    } else if same_text(app_id, "com.wlrix.greeter") {
        Some(ShellFrame::Bare)
    } else {
        None
    }
}

/// Whether a window has had its initial position chosen. Until then it has no size and is nowhere,
/// so nothing that is derived from where it is says anything.
pub fn is_placed(w: &Window) -> (r: bool)
    ensures
        r == w.placed,
{
    w.placed
}

/// The position that centers a length within a span: half the room left over, none where the
/// length is the longer one.
pub open spec fn centered(near: int, span: int, length: int) -> int {
    near + max(span - length, 0) / 2
}

/// The furthest that a length can start within a span and not stick out, and never before the
/// span's near edge.
pub open spec fn furthest(near: int, span: int, length: int) -> int {
    near + max(span - length, 0)
}

/// The x and y that a placement gives a frame of `size` within `area`.
pub open spec fn positioned(placement: Placement, area: Rect, size: Size) -> (int, int) {
    match placement {
        Placement::Corner(Corner::TopLeft) => (
            area.loc.x + CORNER_INSET,
            area.loc.y + CORNER_INSET,
        ),
        Placement::Corner(Corner::BottomLeft) => (
            area.loc.x + CORNER_INSET,
            furthest(area.loc.y as int, area.size.h as int, size.h + CORNER_INSET),
        ),
        Placement::Centered => (
            centered(area.loc.x as int, area.size.w as int, size.w as int),
            centered(area.loc.y as int, area.size.h as int, size.h as int),
        ),
        Placement::CenteredOn(parent) => (
            centered(parent.loc.x as int, parent.size.w as int, size.w as int),
            centered(parent.loc.y as int, parent.size.h as int, size.h as int),
        ),
        Placement::Frame(position) => (position.x as int, position.y as int),
        Placement::Cascade(depth) => (
            area.loc.x + CASCADE_STEP * (depth as int % CASCADE_WRAP as int),
            area.loc.y + CASCADE_STEP * (depth as int % CASCADE_WRAP as int),
        ),
    }
}

/// Whether the position is a point, and a cascade has no fewer than no windows under it.
pub open spec fn can_position(placement: Placement, area: Rect, size: Size) -> bool {
    &&& fits(positioned(placement, area, size).0)
    &&& fits(positioned(placement, area, size).1)
    &&& placement matches Placement::Cascade(depth) ==> depth >= 0
}

/// The position that centers a frame of `size` within `within`; a frame larger than that starts
/// at its near corner.
pub fn center_of(within: Rect, size: Size) -> (p: Point)
    requires
        fits(centered(within.loc.x as int, within.size.w as int, size.w as int)),
        fits(centered(within.loc.y as int, within.size.h as int, size.h as int)),
    ensures
        p.x == centered(within.loc.x as int, within.size.w as int, size.w as int),
        p.y == centered(within.loc.y as int, within.size.h as int, size.h as int),
{
    let x: i64 = within.loc.x as i64 + larger(within.size.w as i64 - size.w as i64, 0) / 2;
    let y: i64 = within.loc.y as i64 + larger(within.size.h as i64 - size.h as i64, 0) / 2;
    Point { x: x as i32, y: y as i32 }
}

/// The position of `corner`, inset from the edges of `area`.
pub fn corner_position(corner: Corner, area: Rect, size: Size) -> (p: Point)
    requires
        can_position(Placement::Corner(corner), area, size),
    ensures
        (p.x as int, p.y as int) == positioned(Placement::Corner(corner), area, size),
{
    let x: i32 = area.loc.x + CORNER_INSET;
    match corner {
        Corner::TopLeft => Point { x, y: area.loc.y + CORNER_INSET },
        Corner::BottomLeft => {
            let room: i64 = area.size.h as i64 - size.h as i64 - CORNER_INSET as i64;
            Point { x, y: (area.loc.y as i64 + larger(room, 0)) as i32 }
        },
    }
}

/// Where a frame of `size` goes for a given placement, within `area`, before it is pulled back
/// on screen.
pub fn frame_position(placement: Placement, area: Rect, size: Size) -> (p: Point)
    requires
        can_position(placement, area, size),
    ensures
        (p.x as int, p.y as int) == positioned(placement, area, size),
{
    match placement {
        Placement::Corner(corner) => corner_position(corner, area, size),
        Placement::Centered => center_of(area, size),
        Placement::CenteredOn(parent) => center_of(parent, size),
        Placement::Frame(position) => position,
        Placement::Cascade(depth) => {
            let offset: i32 = CASCADE_STEP * (depth % CASCADE_WRAP);
            Point { x: area.loc.x + offset, y: area.loc.y + offset }
        },
    }
}

/// Whether the furthest position of a frame of `size` within `area` is a point.
pub open spec fn can_clamp(size: Size, area: Rect) -> bool {
    &&& fits(furthest(area.loc.x as int, area.size.w as int, size.w as int))
    &&& fits(furthest(area.loc.y as int, area.size.h as int, size.h as int))
}

/// `position`, pulled back inside the work area: never past the far edge, never before the near
/// one, and at the near one where the frame is larger than the area.
pub open spec fn kept_inside(x: int, y: int, size: Size, area: Rect) -> Point {
    Point {
        x: clamped(
            x,
            area.loc.x as int,
            furthest(area.loc.x as int, area.size.w as int, size.w as int),
        ) as i32,
        y: clamped(
            y,
            area.loc.y as int,
            furthest(area.loc.y as int, area.size.h as int, size.h as int),
        ) as i32,
    }
}

/// Pulls a frame back inside the work area.
pub fn clamp_frame(position: Point, size: Size, area: Rect) -> (p: Point)
    requires
        can_clamp(size, area),
    ensures
        p == kept_inside(position.x as int, position.y as int, size, area),
{
    let max_x: i64 = area.loc.x as i64 + larger(area.size.w as i64 - size.w as i64, 0);
    let max_y: i64 = area.loc.y as i64 + larger(area.size.h as i64 - size.h as i64, 0);
    Point {
        x: clamp(position.x as i64, area.loc.x as i64, max_x) as i32,
        y: clamp(position.y as i64, area.loc.y as i64, max_y) as i32,
    }
}

/// However a window is placed, its frame starts inside the work area, and where the frame is no
/// larger than the area, all of it is inside.
pub proof fn every_placement_is_reachable(x: int, y: int, size: Size, area: Rect)
    requires
        can_clamp(size, area),
    ensures
        ({
            let p = kept_inside(x, y, size, area);
            &&& area.loc.x <= p.x && area.loc.y <= p.y
            &&& size.w <= area.size.w ==> p.x + size.w <= area.right()
            &&& size.h <= area.size.h ==> p.y + size.h <= area.bottom()
            &&& size.w > area.size.w ==> p.x == area.loc.x
            &&& size.h > area.size.h ==> p.y == area.loc.y
        }),
{
}

/// A position that is inside already is left alone.
pub proof fn a_reachable_position_is_kept(p: Point, size: Size, area: Rect)
    requires
        can_clamp(size, area),
        area.loc.x <= p.x,
        area.loc.y <= p.y,
        p.x + size.w <= area.right(),
        p.y + size.h <= area.bottom(),
    ensures
        kept_inside(p.x as int, p.y as int, size, area) == p,
{
}

/// The cascade restarts after a whole turn of windows.
pub proof fn the_cascade_wraps(depth: i32, area: Rect, size: Size)
    requires
        0 <= depth,
        depth + CASCADE_WRAP <= i32::MAX,
    ensures
        positioned(Placement::Cascade((depth + CASCADE_WRAP) as i32), area, size) == positioned(
            Placement::Cascade(depth),
            area,
            size,
        ),
{
}

/// Where a client that named a position asks to be put. A position of exactly the origin, which a
/// window that never moved reports, is no preference.
pub open spec fn asked_for(named: bool, configured: Point) -> Option<Point> {
    if named && (configured.x != 0 || configured.y != 0) {
        Some(configured)
    } else {
        None
    }
}

/// Where a client that named a position is put.
pub fn requested_position(named: bool, configured: Point) -> (position: Option<Point>)
    ensures
        position == asked_for(named, configured),
{
    if named && (configured.x != 0 || configured.y != 0) {
        Some(configured)
    } else {
        None
    }
}

/// What its client says of a window that is about to be placed.
#[derive(Clone, Copy)]
pub struct Hints<'a> {
    pub app_id: Option<&'a str>,
    /// Whether the client named a position: only an X11 one can.
    pub names_position: bool,
    /// Where the client last put the window itself.
    pub configured: Point,
}

/// A window that has just appeared on a desk: nothing is known of where it goes.
pub open spec fn appeared(id: u64, shell: Shell, size: Size, desk: Desk) -> Window {
    Window {
        id,
        shell,
        z: 0,
        size,
        insets: Insets { left: 0, top: 0, right: 0, bottom: 0 },
        minimizable: true,
        maximizable: true,
        customary: None,
        parent: None,
        requested: None,
        home: None,
        placed: false,
        state: WindowState {
            desk,
            minimized: false,
            maximized: false,
            fullscreen: false,
            restore_geo: None,
            pre_fullscreen: None,
            last_pos: Point { x: 0, y: 0 },
            icon_slot: None,
            needs_thumbnail: false,
            has_thumbnail: false,
        },
    }
}

/// The window with what its client says of where it goes: the customary place of a wlRIX app, and
/// the position that an X11 client asked for.
pub open spec fn described(w: Window, hints: Hints) -> Window {
    Window {
        customary: match hints.app_id {
            Some(app_id) => customary(app_id@),
            None => None,
        },
        requested: asked_for(w.shell == Shell::X11 && hints.names_position, hints.configured),
        ..w
    }
}

impl Window {
    /// A window that has just appeared on a desk.
    pub fn new(id: u64, shell: Shell, size: Size, desk: Desk) -> (w: Self)
        ensures
            w == appeared(id, shell, size, desk),
    {
        Window {
            id,
            shell,
            z: 0,
            size,
            insets: Insets { left: 0, top: 0, right: 0, bottom: 0 },
            minimizable: true,
            maximizable: true,
            customary: None,
            parent: None,
            requested: None,
            home: None,
            placed: false,
            state: WindowState {
                desk,
                minimized: false,
                maximized: false,
                fullscreen: false,
                restore_geo: None,
                pre_fullscreen: None,
                last_pos: Point { x: 0, y: 0 },
                icon_slot: None,
                needs_thumbnail: false,
                has_thumbnail: false,
            },
        }
    }

    /// The window with what its client says of where it goes.
    pub fn describe(self, hints: &Hints) -> (w: Self)
        ensures
            w == described(self, *hints),
    {
        let x11 = match self.shell {
            Shell::X11 => true,
            Shell::Wayland => false,
        };
        let placement: Option<Placement> = match hints.app_id {
            Some(app_id) => default_placement(app_id),
            None => None,
        };
        Window {
            customary: placement,
            requested: requested_position(x11 && hints.names_position, hints.configured),
            ..self
        }
    }
}

/// A window's frame, where its contents start at `loc`.
pub open spec fn framed(loc: Point, size: Size, insets: Insets) -> Rect {
    Rect {
        loc: Point { x: (loc.x - insets.left) as i32, y: (loc.y - insets.top) as i32 },
        size: Size {
            w: (size.w + insets.left + insets.right) as i32,
            h: (size.h + insets.top + insets.bottom) as i32,
        },
    }
}

/// Whether `i32`s hold a window's frame.
pub open spec fn frame_fits(loc: Point, size: Size, insets: Insets) -> bool {
    &&& fits(loc.x - insets.left)
    &&& fits(loc.y - insets.top)
    &&& fits(size.w + insets.left + insets.right)
    &&& fits(size.h + insets.top + insets.bottom)
}

/// A window's frame: what it occupies on the desktop, decorations included.
pub fn frame_rect(loc: Point, size: Size, insets: Insets) -> (frame: Rect)
    requires
        frame_fits(loc, size, insets),
    ensures
        frame == framed(loc, size, insets),
{
    Rect {
        loc: Point { x: loc.x - insets.left, y: loc.y - insets.top },
        size: Size {
            w: (size.w as i64 + insets.left as i64 + insets.right as i64) as i32,
            h: (size.h as i64 + insets.top as i64 + insets.bottom as i64) as i32,
        },
    }
}

/// The windows on screen other than one.
pub open spec fn others_shown(s: Scene, id: u64) -> int {
    without(s.stack, id).len() as int
}

/// How a new window is positioned, most specific first: where its app always opens, at the work
/// area's corner where it is maximized already, where it asked to be, over its parent, or in the
/// cascade.
pub open spec fn placement_of(s: Scene, w: Window, area: Rect) -> Placement {
    if w.customary is Some {
        w.customary->0
    } else if w.state.maximized {
        Placement::Frame(area.loc)
    } else if w.requested is Some {
        Placement::Frame(
            Point {
                x: (w.requested->0.x - w.framing().left) as i32,
                y: (w.requested->0.y - w.framing().top) as i32,
            },
        )
    } else {
        match parent_shown(s, w) {
            Some(parent) => Placement::CenteredOn(
                framed(location(s.stack, parent.id)->0, parent.size, parent.framing()),
            ),
            None => Placement::Cascade(others_shown(s, w.id) as i32),
        }
    }
}

/// A wlRIX app opens in its customary place whatever it asks for, and only an X11 client can ask
/// for a position at all.
pub proof fn an_app_keeps_its_customary_place(s: Scene, w: Window, hints: Hints, area: Rect)
    ensures
        hints.app_id matches Some(app_id) && customary(app_id@) is Some ==> placement_of(
            s,
            described(w, hints),
            area,
        ) == customary(hints.app_id->0@)->0,
        w.shell == Shell::Wayland ==> described(w, hints).requested is None,
{
}

/// Whether `i32`s hold what a new window is positioned by.
pub open spec fn placement_fits(s: Scene, w: Window) -> bool {
    &&& w.requested matches Some(p) ==> fits(p.x - w.framing().left) && fits(
        p.y - w.framing().top,
    )
    &&& parent_shown(s, w) matches Some(parent) ==> frame_fits(
        location(s.stack, parent.id)->0,
        parent.size,
        parent.framing(),
    )
    &&& s.stack.len() <= i32::MAX
}

/// The size of a window's frame around contents of `size`.
pub open spec fn frame_size(w: Window, size: Size) -> Size {
    Size {
        w: (size.w + w.framing().left + w.framing().right) as i32,
        h: (size.h + w.framing().top + w.framing().bottom) as i32,
    }
}

/// Where a new window's contents start: its frame is positioned, pulled back into the work area,
/// and the contents sit inside it. A fullscreen window starts at its screen's corner.
pub open spec fn opening_position(s: Scene, screen: Screen, w: Window, size: Size) -> Point {
    if w.state.fullscreen && screen.geometry is Some {
        screen.geometry->0.loc
    } else {
        let area = screen.area();
        let around = frame_size(w, size);
        let (x, y) = positioned(placement_of(s, w, area), area, around);
        let p = kept_inside(x, y, around, area);
        Point { x: (p.x + w.framing().left) as i32, y: (p.y + w.framing().top) as i32 }
    }
}

/// Whether a new window's position can be told in `i32`s.
pub open spec fn can_open(s: Scene, screen: Screen, w: Window, size: Size) -> bool {
    let area = screen.area();
    let around = frame_size(w, size);
    &&& screen.sound()
    &&& placement_fits(s, w)
    &&& fits(size.w + w.framing().left + w.framing().right)
    &&& fits(size.h + w.framing().top + w.framing().bottom)
    &&& can_position(placement_of(s, w, area), area, around)
    &&& can_clamp(around, area)
    &&& ({
        let (x, y) = positioned(placement_of(s, w, area), area, around);
        let p = kept_inside(x, y, around, area);
        fits(p.x + w.framing().left) && fits(p.y + w.framing().top)
    })
}

/// Placing a window that has no position yet: it is shown where a new window opens, and keeps
/// that as where it goes when its desk is next activated.
pub open spec fn placed_at(s: Scene, w: Window, at: Point) -> Scene {
    Scene {
        stack: on_top(s.stack, Mapped { id: w.id, z: w.z, loc: at }),
        windows: put(
            s.windows,
            Window { placed: true, state: WindowState { last_pos: at, ..w.state }, ..w },
        ),
        ..s
    }
}

/// The ids of the windows on screen that no screen shows.
pub open spec fn orphans(s: Scene, stack: Seq<Mapped>) -> Seq<u64>
    decreases stack.len(),
{
    if stack.len() == 0 {
        Seq::empty()
    } else {
        let before = orphans(s, stack.drop_last());
        if find(s.windows, stack.last().id) matches Some(w) && w.home is None {
            before.push(stack.last().id)
        } else {
            before
        }
    }
}

/// Moving windows, one after the other, to where they would open on a screen.
pub open spec fn reopened(s: Scene, screen: Screen, ids: Seq<u64>) -> Scene
    decreases ids.len(),
{
    if ids.len() == 0 {
        s
    } else {
        let before = reopened(s, screen, ids.drop_last());
        match find(before.windows, ids.last()) {
            Some(w) => Scene {
                stack: on_top(
                    before.stack,
                    Mapped {
                        id: w.id,
                        z: w.z,
                        loc: opening_position(before, screen, w, w.size),
                    },
                ),
                ..before
            },
            None => before,
        }
    }
}

/// Whether each of the windows can be moved to where it would open.
pub open spec fn can_reopen(s: Scene, screen: Screen, ids: Seq<u64>) -> bool
    decreases ids.len(),
{
    ids.len() == 0 || {
        &&& can_reopen(s, screen, ids.drop_last())
        &&& find(reopened(s, screen, ids.drop_last()).windows, ids.last()) matches Some(w)
            ==> can_open(reopened(s, screen, ids.drop_last()), screen, w, w.size)
    }
}

proof fn can_reopen_first(s: Scene, screen: Screen, ids: Seq<u64>, upto: int)
    requires
        can_reopen(s, screen, ids),
        0 <= upto <= ids.len(),
    ensures
        can_reopen(s, screen, ids.take(upto)),
    decreases ids.len(),
{
    if upto == ids.len() {
        assert(ids.take(upto) =~= ids);
    } else {
        assert(ids.drop_last().take(upto) =~= ids.take(upto));
        can_reopen_first(s, screen, ids.drop_last(), upto);
    }
}

impl Wlrix {
    fn count_others(&self, id: u64) -> (n: usize)
        ensures
            n == others_shown(self@, id),
    {
        let mut n: usize = 0;
        let mut i: usize = 0;
        assert(self.stack@.take(0) =~= Seq::empty());
        while i < self.stack.len()
            invariant
                i <= self.stack@.len(),
                n <= i,
                n == without(self.stack@.take(i as int), id).len(),
            decreases self.stack.len() - i,
        {
            let other: u64 = self.stack[i].id;
            i += 1;
            assert(self.stack@.take(i as int).drop_last() =~= self.stack@.take(i - 1));
            if other != id {
                n += 1;
            }
        }
        assert(self.stack@.take(self.stack@.len() as int) =~= self.stack@);
        n
    }

    /// How a newly mapped window should be positioned within `area`.
    pub fn placement_for(&self, w: &Window, area: Rect) -> (placement: Placement)
        requires
            placement_fits(self@, *w),
        ensures
            placement == placement_of(self@, *w, area),
    {
        if let Some(placement) = w.customary {
            return placement;
        }
        if w.state.maximized {
            return Placement::Frame(area.loc);
        }
        let insets = w.frame_insets();
        if let Some(p) = w.requested {
            return Placement::Frame(Point { x: p.x - insets.left, y: p.y - insets.top });
        }
        match self.parent_of(w) {
            Some(parent) => {
                proof {
                    let i = found_is_listed(self@.windows, w.parent->0);
                }
                let loc: Point = self.element_location(parent.id).unwrap();
                Placement::CenteredOn(frame_rect(loc, parent.size, parent.frame_insets()))
            },
            None => {
                proof {
                    without_keeps_the_rest(self@.stack, w.id, w.id);
                }
                Placement::Cascade(self.count_others(w.id) as i32)
            },
        }
    }

    /// Picks a position for a newly mapped window of `size`.
    pub fn place_new_window(&self, screen: &Screen, w: &Window, size: Size) -> (at: Point)
        requires
            can_open(self@, *screen, *w, size),
        ensures
            at == opening_position(self@, *screen, *w, size),
    {
        if w.state.fullscreen {
            if let Some(geometry) = screen.geometry {
                return geometry.loc;
            }
        }
        let area = screen.work_area();
        let insets = w.frame_insets();
        let around = Size {
            w: (size.w as i64 + insets.left as i64 + insets.right as i64) as i32,
            h: (size.h as i64 + insets.top as i64 + insets.bottom as i64) as i32,
        };
        let p = clamp_frame(frame_position(self.placement_for(w, area), area, around), around, area);
        Point { x: p.x + insets.left, y: p.y + insets.top }
    }

    /// Places a window whose size is already known, unless it has been placed.
    pub fn place_now(&mut self, id: u64, screen: &Screen, size: Size) -> (effects: Vec<Effect>)
        requires
            find(old(self)@.windows, id) matches Some(w) ==> (!w.placed ==> can_open(
                old(self)@,
                *screen,
                w,
                size,
            )),
        ensures
            match find(old(self)@.windows, id) {
                Some(w) => if w.placed {
                    final(self)@ == old(self)@ && effects@.len() == 0
                } else {
                    let at = opening_position(old(self)@, *screen, w, size);
                    final(self)@ == placed_at(old(self)@, w, at) && effects@ == seq![
                        Effect::Show { window: id, at, activate: false },
                    ]
                },
                None => final(self)@ == old(self)@ && effects@.len() == 0,
            },
    {
        let mut effects: Vec<Effect> = Vec::new();
        let w = match self.window(id) {
            Some(w) => w,
            None => {
                return effects;
            },
        };
        if is_placed(&w) {
            return effects;
        }
        let at = self.place_new_window(screen, &w, size);
        self.map_on_top(Mapped { id, z: w.z, loc: at });
        let mut changed = w;
        changed.placed = true;
        changed.state.last_pos = at;
        self.set_window(changed);
        effects.push(Effect::Show { window: id, at, activate: false });
        effects
    }

    /// Places a window if it has not been placed yet, once its size is known. The effects are
    /// none where it was not placed.
    pub fn place_if_new(&mut self, id: u64) -> (effects: Option<Vec<Effect>>)
        requires
            find(old(self)@.windows, id) matches Some(w) ==> (!w.placed && w.size.w > 0 && w.size.h
                > 0 ==> (opening_screen(old(self)@, w) matches Some(screen) ==> can_open(
                old(self)@,
                screen,
                w,
                w.size,
            ))),
        ensures
            match effects {
                Some(effects) => ({
                    let w = find(old(self)@.windows, id)->0;
                    let screen = opening_screen(old(self)@, w)->0;
                    let at = opening_position(old(self)@, screen, w, w.size);
                    &&& find(old(self)@.windows, id) is Some
                    &&& opening_screen(old(self)@, w) is Some
                    &&& !w.placed && w.size.w > 0 && w.size.h > 0
                    &&& final(self)@ == placed_at(old(self)@, w, at)
                    &&& effects@ == seq![Effect::Show { window: id, at, activate: false }]
                }),
                None => {
                    &&& final(self)@ == old(self)@
                    &&& find(old(self)@.windows, id) matches Some(w) ==> w.placed || w.size.w <= 0
                        || w.size.h <= 0 || opening_screen(old(self)@, w) is None
                },
            },
    {
        let w = match self.window(id) {
            Some(w) => w,
            None => {
                return None;
            },
        };
        if is_placed(&w) {
            return None;
        }
        let screen = match self.output_for_new_window(&w) {
            Some(screen) => screen,
            None => {
                return None;
            },
        };
        if w.size.w <= 0 || w.size.h <= 0 {
            return None;
        }
        Some(self.place_now(id, &screen, w.size))
    }

    /// Moves windows that no longer sit on any screen back onto one.
    pub fn relocate_orphaned_windows(&mut self) -> (moved: Vec<u64>)
        requires
            pointer_screen(old(self)@) matches Some(screen) ==> can_reopen(
                old(self)@,
                screen,
                orphans(old(self)@, old(self)@.stack),
            ),
        ensures
            match pointer_screen(old(self)@) {
                Some(screen) => {
                    &&& moved@ == orphans(old(self)@, old(self)@.stack)
                    &&& final(self)@ == reopened(old(self)@, screen, moved@)
                },
                None => moved@.len() == 0 && final(self)@ == old(self)@,
            },
    {
        let mut moved: Vec<u64> = Vec::new();
        let screen = match self.output_for_pointer() {
            Some(screen) => screen,
            None => {
                return moved;
            },
        };
        let mut i: usize = 0;
        assert(self.stack@.take(0) =~= Seq::empty());
        while i < self.stack.len()
            invariant
                i <= self.stack@.len(),
                *self == *old(self),
                moved@ == orphans(self@, self.stack@.take(i as int)),
            decreases self.stack.len() - i,
        {
            let id: u64 = self.stack[i].id;
            i += 1;
            assert(self.stack@.take(i as int).drop_last() =~= self.stack@.take(i - 1));
            if let Some(w) = self.window(id) {
                if w.home.is_none() {
                    moved.push(id);
                }
            }
        }
        assert(self.stack@.take(self.stack@.len() as int) =~= self.stack@);
        let mut j: usize = 0;
        assert(moved@.take(0) =~= Seq::empty());
        while j < moved.len()
            invariant
                j <= moved@.len(),
                can_reopen(old(self)@, screen, moved@),
                self@ == reopened(old(self)@, screen, moved@.take(j as int)),
            decreases moved.len() - j,
        {
            let id: u64 = moved[j];
            j += 1;
            assert(moved@.take(j as int).drop_last() =~= moved@.take(j - 1));
            proof {
                can_reopen_first(old(self)@, screen, moved@, j as int);
            }
            if let Some(w) = self.window(id) {
                let at = self.place_new_window(&screen, &w, w.size);
                self.map_on_top(Mapped { id: w.id, z: w.z, loc: at });
            }
        }
        assert(moved@.take(moved@.len() as int) =~= moved@);
        moved
    }
}

/// A new window's frame opens inside the work area of its screen, unless the window is to cover
/// all of the screen; where the area is too small for the frame, its near corner is inside.
pub proof fn a_new_window_opens_inside(s: Scene, screen: Screen, w: Window, size: Size)
    requires
        can_open(s, screen, w, size),
        !(w.state.fullscreen && screen.geometry is Some),
    ensures
        ({
            let at = opening_position(s, screen, w, size);
            let x = at.x - w.framing().left;
            let y = at.y - w.framing().top;
            let around = frame_size(w, size);
            let area = screen.area();
            &&& area.loc.x <= x && area.loc.y <= y
            &&& around.w <= area.size.w ==> x + around.w <= area.right()
            &&& around.h <= area.size.h ==> y + around.h <= area.bottom()
        }),
{
    let area = screen.area();
    let around = frame_size(w, size);
    let (x, y) = positioned(placement_of(s, w, area), area, around);
    every_placement_is_reachable(x, y, around, area);
}

proof fn orphans_are_orphaned(s: Scene, stack: Seq<Mapped>, id: u64)
    requires
        orphans(s, stack).contains(id),
    ensures
        find(s.windows, id) matches Some(w) && w.home is None,
    decreases stack.len(),
{
    if stack.len() > 0 {
        let before = orphans(s, stack.drop_last());
        if before.contains(id) {
            orphans_are_orphaned(s, stack.drop_last(), id);
        } else {
            let i = orphans(s, stack).index_of(id);
            assert(i < before.len() ==> before[i] == id);
        }
    }
}

proof fn reopening_keeps_the_rest(s: Scene, screen: Screen, ids: Seq<u64>, id: u64)
    requires
        each_once(s.stack),
        banded(s.stack),
        !ids.contains(id),
    ensures
        ({
            let after = reopened(s, screen, ids);
            &&& each_once(after.stack)
            &&& banded(after.stack)
            &&& location(after.stack, id) == location(s.stack, id)
            &&& after.windows == s.windows
        }),
    decreases ids.len(),
{
    if ids.len() > 0 {
        let fewer = ids.drop_last();
        assert forall|k: int| 0 <= k < fewer.len() implies fewer[k] != id by {
            assert(ids[k] != id);
        }
        assert(ids[ids.len() - 1] != id);
        reopening_keeps_the_rest(s, screen, fewer, id);
        let before = reopened(s, screen, fewer);
        if find(before.windows, ids.last()) is Some {
            let w = find(before.windows, ids.last())->0;
            let i = found_is_listed(before.windows, ids.last());
            let loc = opening_position(before, screen, w, w.size);
            on_top_keeps_the_rest(before.stack, Mapped { id: w.id, z: w.z, loc }, id);
        }
    }
}

/// Bringing stranded windows back moves no window that some screen still shows.
pub proof fn only_stranded_windows_are_moved(s: Scene, screen: Screen, id: u64)
    requires
        each_once(s.stack),
        banded(s.stack),
        find(s.windows, id) matches Some(w) && w.home is Some,
    ensures
        location(reopened(s, screen, orphans(s, s.stack)).stack, id) == location(s.stack, id),
{
    if orphans(s, s.stack).contains(id) {
        orphans_are_orphaned(s, s.stack, id);
    }
    reopening_keeps_the_rest(s, screen, orphans(s, s.stack), id);
}

/// The rectangle that a list of screens covers between them.
pub open spec fn layout(geometries: Seq<Rect>) -> Rect
    decreases geometries.len(),
{
    if geometries.len() <= 1 {
        geometries[0]
    } else {
        layout(geometries.drop_last()).merged(geometries.last())
    }
}

/// Whether `i32`s hold the rectangle that the screens cover between them.
pub open spec fn layout_fits(geometries: Seq<Rect>) -> bool
    decreases geometries.len(),
{
    geometries.len() <= 1 || layout_fits(geometries.drop_last()) && layout(
        geometries.drop_last(),
    ).can_merge(geometries.last())
}

proof fn layout_fits_first(geometries: Seq<Rect>, upto: int)
    requires
        layout_fits(geometries),
        0 <= upto <= geometries.len(),
    ensures
        layout_fits(geometries.take(upto)),
    decreases geometries.len(),
{
    if upto == geometries.len() {
        assert(geometries.take(upto) =~= geometries);
    } else {
        assert(geometries.drop_last().take(upto) =~= geometries.take(upto));
        if geometries.len() > 1 {
            layout_fits_first(geometries.drop_last(), upto);
        }
    }
}

/// The rectangle every screen covers between them, or nothing when there are none: the desktop
/// as one coordinate space.
pub fn output_layout(geometries: &[Rect]) -> (covered: Option<Rect>)
    requires
        layout_fits(geometries@),
    ensures
        covered == if geometries@.len() == 0 {
            None
        } else {
            Some(layout(geometries@))
        },
{
    if geometries.len() == 0 {
        return None;
    }
    let mut covered: Rect = geometries[0];
    let mut i: usize = 1;
    while i < geometries.len()
        invariant
            1 <= i <= geometries@.len(),
            layout_fits(geometries@),
            covered == layout(geometries@.take(i as int)),
        decreases geometries.len() - i,
    {
        proof {
            layout_fits_first(geometries@, i + 1);
            assert(geometries@.take(i + 1).drop_last() =~= geometries@.take(i as int));
        }
        covered = covered.merge(geometries[i]);
        i += 1;
    }
    assert(geometries@.take(geometries@.len() as int) =~= geometries@);
    Some(covered)
}

/// Every pixel of every screen is in the layout.
pub proof fn the_layout_covers_every_screen(geometries: Seq<Rect>, i: int, p: Point)
    requires
        layout_fits(geometries),
        0 <= i < geometries.len(),
        forall|j: int|
            0 <= j < geometries.len() ==> (#[trigger] geometries[j]).size.w >= 0
                && geometries[j].size.h >= 0,
        geometries[i].holds(p),
    ensures
        layout(geometries).holds(p),
        layout(geometries).size.w >= 0,
        layout(geometries).size.h >= 0,
    decreases geometries.len(),
{
    if geometries.len() > 1 {
        let fewer = geometries.drop_last();
        assert forall|j: int| 0 <= j < fewer.len() implies (#[trigger] fewer[j]).size.w >= 0
            && fewer[j].size.h >= 0 by {
            assert(geometries[j].size.w >= 0);
        }
        assert(geometries.last() == geometries[geometries.len() - 1]);
        layout_is_upright(fewer);
        if i < fewer.len() {
            the_layout_covers_every_screen(fewer, i, p);
        }
        merging_keeps_every_pixel(layout(fewer), geometries.last(), p);
    }
}

proof fn layout_is_upright(geometries: Seq<Rect>)
    requires
        geometries.len() > 0,
        layout_fits(geometries),
        forall|j: int|
            0 <= j < geometries.len() ==> (#[trigger] geometries[j]).size.w >= 0
                && geometries[j].size.h >= 0,
    ensures
        layout(geometries).size.w >= 0,
        layout(geometries).size.h >= 0,
    decreases geometries.len(),
{
    if geometries.len() > 1 {
        let fewer = geometries.drop_last();
        assert forall|j: int| 0 <= j < fewer.len() implies (#[trigger] fewer[j]).size.w >= 0
            && fewer[j].size.h >= 0 by {
            assert(geometries[j].size.w >= 0);
        }
        layout_is_upright(fewer);
    }
}

/// Four times the square of the distance from a spot to the middle of a rectangle, in 256ths of
/// a pixel.
pub open spec fn distance(g: Rect, s: Spot) -> int {
    let dx = (2 * g.loc.x + g.size.w) * 256 - 2 * s.x;
    let dy = (2 * g.loc.y + g.size.h) * 256 - 2 * s.y;
    dx * dx + dy * dy
}

/// The first of the rectangles whose middle is nearest to a spot.
pub open spec fn nearest(geometries: Seq<Rect>, s: Spot) -> Rect
    decreases geometries.len(),
{
    if geometries.len() <= 1 {
        geometries[0]
    } else {
        let best = nearest(geometries.drop_last(), s);
        if distance(geometries.last(), s) < distance(best, s) {
            geometries.last()
        } else {
            best
        }
    }
}

/// Whether a spot is on one of the rectangles.
pub open spec fn on_any(geometries: Seq<Rect>, s: Spot) -> bool {
    exists|i: int| 0 <= i < geometries.len() && (#[trigger] geometries[i]).holds_spot(s)
}

/// A spot pulled onto the pixels of a rectangle.
pub open spec fn pulled_onto(g: Rect, s: Spot) -> Spot {
    Spot {
        x: clamped(s.x as int, g.loc.x * 256, (g.right() - 1) * 256) as i64,
        y: clamped(s.y as int, g.loc.y * 256, (g.bottom() - 1) * 256) as i64,
    }
}

/// The spot, or where it is on no screen, the nearest place on the screen nearest to it.
pub open spec fn kept_on_screen(geometries: Seq<Rect>, s: Spot) -> Spot {
    if geometries.len() == 0 || on_any(geometries, s) {
        s
    } else {
        pulled_onto(nearest(geometries, s), s)
    }
}

/// Whether a spot is near enough for distances from it to be reckoned.
pub open spec fn within_reach(s: Spot) -> bool {
    &&& -0x1000_0000_0000_0000 <= s.x <= 0x1000_0000_0000_0000
    &&& -0x1000_0000_0000_0000 <= s.y <= 0x1000_0000_0000_0000
}

fn distance_to(g: Rect, s: Spot) -> (d: i128)
    requires
        within_reach(s),
    ensures
        d == distance(g, s),
{
    let dx: i128 = (2 * g.loc.x as i128 + g.size.w as i128) * 256 - 2 * s.x as i128;
    let dy: i128 = (2 * g.loc.y as i128 + g.size.h as i128) * 256 - 2 * s.y as i128;
    assert(0 <= dx * dx <= 0x4000_0000_0000_0000 * 0x4000_0000_0000_0000) by (nonlinear_arith)
        requires
            -0x4000_0000_0000_0000 <= dx <= 0x4000_0000_0000_0000,
    ;
    assert(0 <= dy * dy <= 0x4000_0000_0000_0000 * 0x4000_0000_0000_0000) by (nonlinear_arith)
        requires
            -0x4000_0000_0000_0000 <= dy <= 0x4000_0000_0000_0000,
    ;
    dx * dx + dy * dy
}

/// Keeps the pointer on a monitor: where it is on one already, it is left be, so that it crosses
/// freely between them.
pub fn clamp_to_outputs(geometries: &[Rect], s: Spot) -> (kept: Spot)
    requires
        within_reach(s),
        forall|i: int|
            0 <= i < geometries@.len() ==> (#[trigger] geometries@[i]).size.w > 0
                && geometries@[i].size.h > 0,
    ensures
        kept == kept_on_screen(geometries@, s),
{
    if geometries.len() == 0 {
        return s;
    }
    let mut i: usize = 0;
    while i < geometries.len()
        invariant
            i <= geometries@.len(),
            forall|j: int| 0 <= j < i ==> !(#[trigger] geometries@[j]).holds_spot(s),
        decreases geometries.len() - i,
    {
        if geometries[i].contains_spot(s) {
            return s;
        }
        i += 1;
    }
    let mut best: Rect = geometries[0];
    let mut k: usize = 1;
    assert(geometries@.take(1).len() == 1);
    while k < geometries.len()
        invariant
            1 <= k <= geometries@.len(),
            within_reach(s),
            best == nearest(geometries@.take(k as int), s),
            geometries@.contains(best),
        decreases geometries.len() - k,
    {
        assert(geometries@.take(k + 1).drop_last() =~= geometries@.take(k as int));
        if distance_to(geometries[k], s) < distance_to(best, s) {
            best = geometries[k];
        }
        k += 1;
    }
    assert(geometries@.take(geometries@.len() as int) =~= geometries@);
    assert(best.size.w > 0 && best.size.h > 0) by {
        let j = geometries@.index_of(best);
        assert(geometries@[j] == best);
    }
    let right: i64 = best.loc.x as i64 + best.size.w as i64 - 1;
    let bottom: i64 = best.loc.y as i64 + best.size.h as i64 - 1;
    Spot {
        x: clamp(s.x, best.loc.x as i64 * UNIT, right * UNIT),
        y: clamp(s.y, best.loc.y as i64 * UNIT, bottom * UNIT),
    }
}

proof fn nearest_is_listed(geometries: Seq<Rect>, s: Spot) -> (i: int)
    requires
        geometries.len() > 0,
    ensures
        0 <= i < geometries.len(),
        geometries[i] == nearest(geometries, s),
    decreases geometries.len(),
{
    if geometries.len() == 1 {
        0
    } else {
        let fewer = geometries.drop_last();
        if distance(geometries.last(), s) < distance(nearest(fewer, s), s) {
            geometries.len() - 1
        } else {
            nearest_is_listed(fewer, s)
        }
    }
}

/// With a screen to be on, the pointer is kept on one.
pub proof fn the_pointer_stays_on_a_screen(geometries: Seq<Rect>, s: Spot)
    requires
        geometries.len() > 0,
        forall|i: int|
            0 <= i < geometries.len() ==> (#[trigger] geometries[i]).size.w > 0
                && geometries[i].size.h > 0,
    ensures
        on_any(geometries, kept_on_screen(geometries, s)),
{
    if !on_any(geometries, s) {
        let i = nearest_is_listed(geometries, s);
        assert(geometries[i].size.w > 0);
        assert(geometries[i].holds_spot(pulled_onto(geometries[i], s)));
    }
}

/// How many parts the width or the height of an absolute pointing device has.
pub const WHOLE: u32 = 0x10_0000;

/// What a part of a device's length stands for along a stretch of the desktop, in 256ths of a
/// pixel.
pub open spec fn spanned(start: int, length: int, part: int) -> int {
    start * 256 + length * 256 * part / WHOLE as int
}

/// Where on the desktop a device points that is `x` and `y` parts from its own corner: its whole
/// stands for the whole of the layout.
pub open spec fn across(layout: Rect, x: u32, y: u32) -> Spot {
    Spot {
        x: spanned(layout.loc.x as int, layout.size.w as int, x as int) as i64,
        y: spanned(layout.loc.y as int, layout.size.h as int, y as int) as i64,
    }
}

fn span_of(start: i32, length: i32, part: u32) -> (at: i64)
    requires
        length >= 0,
    ensures
        at == spanned(start as int, length as int, part as int),
        -0x1000_0000_0000_0000 <= at <= 0x1000_0000_0000_0000,
{
    assert(0 <= length * 256 * part <= 0x80_0000_0000 * 0x1_0000_0000) by (nonlinear_arith)
        requires
            0 <= length * 256 <= 0x80_0000_0000,
            0 <= part <= 0x1_0000_0000,
    ;
    let along: i128 = length as i128 * 256 * part as i128 / WHOLE as i128;
    assert(0 <= along <= 0x8_0000_0000_0000);
    (start as i128 * 256 + along) as i64
}

/// Where an absolute device takes the pointer: it spans the whole desktop, and a place in a gap
/// between monitors is pulled onto the nearest one. Nothing where there is no monitor.
pub fn absolute_position(geometries: &[Rect], x: u32, y: u32) -> (to: Option<Spot>)
    requires
        layout_fits(geometries@),
        forall|i: int|
            0 <= i < geometries@.len() ==> (#[trigger] geometries@[i]).size.w > 0
                && geometries@[i].size.h > 0,
    ensures
        to == if geometries@.len() == 0 {
            None
        } else {
            Some(kept_on_screen(geometries@, across(layout(geometries@), x, y)))
        },
{
    match output_layout(geometries) {
        Some(layout) => {
            proof {
                layout_is_upright(geometries@);
            }
            let at: Spot = Spot {
                x: span_of(layout.loc.x, layout.size.w, x),
                y: span_of(layout.loc.y, layout.size.h, y),
            };
            Some(clamp_to_outputs(geometries, at))
        },
        None => None,
    }
}

proof fn some_part_is_spanned(start: int, length: int, pixel: int) -> (part: int)
    requires
        start <= pixel < start + length,
        length <= WHOLE,
    ensures
        0 <= part <= WHOLE,
        pixel * 256 <= spanned(start, length, part) < pixel * 256 + 256,
{
    let n = pixel - start;
    let part = (n * WHOLE + length - 1) / length;
    assert(n * WHOLE <= length * part < n * WHOLE + length) by (nonlinear_arith)
        requires
            length > 0,
            part == (n * WHOLE + length - 1) / length,
    ;
    assert(0 <= part <= WHOLE) by (nonlinear_arith)
        requires
            0 <= n < length,
            n * WHOLE <= length * part < n * WHOLE + length,
            WHOLE == 0x10_0000,
    ;
    assert(length * 256 * part == 256 * (length * part)) by (nonlinear_arith);
    part
}

/// An absolute device can point into every pixel of every monitor, as long as the desktop has no
/// more pixels across and down than the device has parts.
pub proof fn every_pixel_can_be_pointed_at(geometries: Seq<Rect>, i: int, p: Point) -> (at: (
    u32,
    u32,
))
    requires
        layout_fits(geometries),
        0 <= i < geometries.len(),
        forall|j: int|
            0 <= j < geometries.len() ==> (#[trigger] geometries[j]).size.w > 0
                && geometries[j].size.h > 0,
        geometries[i].holds(p),
        layout(geometries).size.w <= WHOLE,
        layout(geometries).size.h <= WHOLE,
    ensures
        at.0 <= WHOLE && at.1 <= WHOLE,
        ({
            let to = kept_on_screen(geometries, across(layout(geometries), at.0, at.1));
            &&& p.x * 256 <= to.x < p.x * 256 + 256
            &&& p.y * 256 <= to.y < p.y * 256 + 256
        }),
{
    the_layout_covers_every_screen(geometries, i, p);
    let all = layout(geometries);
    let x = some_part_is_spanned(all.loc.x as int, all.size.w as int, p.x as int);
    let y = some_part_is_spanned(all.loc.y as int, all.size.h as int, p.y as int);
    let to = across(all, x as u32, y as u32);
    assert(geometries[i].holds_spot(to));
    (x as u32, y as u32)
}

/// The toolchest has no more than a titlebar and the greeter nothing at all; every other window is
/// framed like any.
pub proof fn the_apps_are_framed_apart(app_id: &str, frame: Option<ShellFrame>)
    requires
        call_ensures(shell_frame, (app_id,), frame),
    ensures
        app_id@ == "com.wlrix.toolchest"@ ==> frame == Some(ShellFrame::TitlebarOnly),
        app_id@ == "com.wlrix.greeter"@ ==> frame == Some(ShellFrame::Bare),
        frame is Some ==> app_id@ == "com.wlrix.toolchest"@ || app_id@ == "com.wlrix.greeter"@,
{
    reveal_strlit("com.wlrix.toolchest");
    reveal_strlit("com.wlrix.greeter");
    assert("com.wlrix.toolchest"@.len() == 19);
    assert("com.wlrix.greeter"@.len() == 17);
}

} // verus!

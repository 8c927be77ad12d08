//! X11 windows: mapping them, answering what they ask, and what they may take.
use vstd::prelude::*;

use crate::geometry::{Point, Rect, Size};
use crate::handlers::xdg_shell::{forgotten, known};
use crate::placement::{can_open, opening_position, placed_at};
use crate::stacking::{
    a_located_window_stands, banded, each_once, foremost, located_is_stacked, on_top_is_foremost,
    on_top_keeps_the_rest, stacked, stands,
};
use crate::state::{
    a_listed_window_is_found, find, listed_once, location, on_top, put, put_is_found, Desk, Effect,
    Mapped, Scene, Window, WindowState, Wlrix,
};
use crate::window_ops::opening_screen;

verus! {

/// The edge or corner that an X11 client drags.
#[derive(Debug, Clone, Copy, PartialEq, Eq, Structural)]
pub enum X11Edge {
    Top,
    Bottom,
    Left,
    Right,
    TopLeft,
    TopRight,
    BottomLeft,
    BottomRight,
}

/// The edges that a resize moves.
#[derive(Debug, Clone, Copy, PartialEq, Eq, Structural)]
pub struct ResizeEdge {
    pub top: bool,
    pub bottom: bool,
    pub left: bool,
    pub right: bool,
}

/// Which of the edges an X11 client asked for.
pub fn resize_edge(edge: X11Edge) -> (edges: ResizeEdge)
    ensures
        edges.top == (edge == X11Edge::Top || edge == X11Edge::TopLeft || edge
            == X11Edge::TopRight),
        edges.bottom == (edge == X11Edge::Bottom || edge == X11Edge::BottomLeft || edge
            == X11Edge::BottomRight),
        edges.left == (edge == X11Edge::Left || edge == X11Edge::TopLeft || edge
            == X11Edge::BottomLeft),
        edges.right == (edge == X11Edge::Right || edge == X11Edge::TopRight || edge
            == X11Edge::BottomRight),
{
    let (top, bottom) = match edge {
        X11Edge::Top | X11Edge::TopLeft | X11Edge::TopRight => (true, false),
        X11Edge::Bottom | X11Edge::BottomLeft | X11Edge::BottomRight => (false, true),
        X11Edge::Left | X11Edge::Right => (false, false),
    };
    let (left, right) = match edge {
        X11Edge::Left | X11Edge::TopLeft | X11Edge::BottomLeft => (true, false),
        X11Edge::Right | X11Edge::TopRight | X11Edge::BottomRight => (false, true),
        X11Edge::Top | X11Edge::Bottom => (false, false),
    };
    ResizeEdge { top, bottom, left, right }
}

/// A 32-bit word read as a signed number.
pub open spec fn signed(word: u32) -> int {
    if word < 0x8000_0000 {
        word as int
    } else {
        word - 0x1_0000_0000
    }
}

/// A 32-bit word read as a signed number.
pub fn as_signed(word: u32) -> (n: i32)
    ensures
        n == signed(word),
{
    assert(word < 0x8000_0000 ==> word as i32 == word) by (bit_vector);
    assert(word >= 0x8000_0000 ==> word as i32 == word - 0x1_0000_0000) by (bit_vector);
    word as i32
}

/// The geometry that answers a window's request: the size it asks for, but where it is, so that
/// a client cannot put itself wherever it likes.
pub fn configure_request(geometry: Rect, w: Option<u32>, h: Option<u32>) -> (answer: Rect)
    ensures
        answer.loc == geometry.loc,
        answer.size.w == match w {
            Some(w) => signed(w),
            None => geometry.size.w as int,
        },
        answer.size.h == match h {
            Some(h) => signed(h),
            None => geometry.size.h as int,
        },
{
    let width: i32 = match w {
        Some(w) => as_signed(w),
        None => geometry.size.w,
    };
    let height: i32 = match h {
        Some(h) => as_signed(h),
        None => geometry.size.h,
    };
    Rect { loc: geometry.loc, size: Size { w: width, h: height } }
}

/// The scene with a new window in the corner, and then at its opening position where there is a
/// screen to open on.
pub open spec fn opened(s: Scene, w: Window) -> Scene {
    let shown = cornered(s, w);
    match opening_screen(shown, w) {
        Some(screen) => placed_at(shown, w, opening_position(shown, screen, w, w.size)),
        None => shown,
    }
}

/// The scene with a new window shown in the corner.
pub open spec fn cornered(s: Scene, w: Window) -> Scene {
    Scene {
        windows: s.windows.push(w),
        stack: on_top(s.stack, Mapped { id: w.id, z: w.z, loc: Point { x: 0, y: 0 } }),
        ..s
    }
}

/// The scene with a window on a desk.
pub open spec fn on_desk(s: Scene, id: u64, desk: Desk) -> Scene {
    match find(s.windows, id) {
        Some(w) => Scene {
            windows: put(s.windows, Window { state: WindowState { desk, ..w.state }, ..w }),
            ..s
        },
        None => s,
    }
}

/// What mapping an X11 window asks, once it is where it goes: it takes the keyboard as it opens,
/// and is told the geometry that it ended up with.
pub open spec fn map_effects(s: Scene, w: Window) -> Seq<Effect> {
    let at = Point { x: 0, y: 0 };
    seq![Effect::Show { window: w.id, at, activate: true }] + (match opening_screen(
        cornered(s, w),
        w,
    ) {
        Some(screen) => seq![
            Effect::Show {
                window: w.id,
                at: opening_position(cornered(s, w), screen, w, w.size),
                activate: false,
            },
        ],
        None => Seq::empty(),
    }) + seq![Effect::Focus { window: w.id }, Effect::DesksChanged] + (match location(
        opened(s, w).stack,
        w.id,
    ) {
        Some(loc) => seq![
            Effect::X11Configure { window: w.id, geometry: Rect { loc, size: w.size } },
        ],
        None => Seq::empty(),
    }) + seq![Effect::Redraw]
}

impl Wlrix {
    /// An X11 window asks to be shown. Its size is known already, so it is placed at once; then
    /// it joins a desk.
    pub fn map_window_request(&mut self, w: Window, desk: Desk) -> (effects: Vec<Effect>)
        requires
            find(old(self)@.windows, w.id) is None,
            !w.placed,
            opening_screen(cornered(old(self)@, w), w) matches Some(screen) ==> can_open(
                cornered(old(self)@, w),
                screen,
                w,
                w.size,
            ),
        ensures
            final(self)@ == on_desk(opened(old(self)@, w), w.id, desk),
            effects@ == map_effects(old(self)@, w),
    {
        let mut effects: Vec<Effect> = Vec::new();
        let at = Point { x: 0, y: 0 };
        let ghost before = self.windows@;
        self.windows.push(w);
        self.map_on_top(Mapped { id: w.id, z: w.z, loc: at });
        effects.push(Effect::Show { window: w.id, at, activate: true });
        assert(self@ =~= cornered(old(self)@, w));
        assert(before.push(w).drop_last() =~= before);
        assert(find(self@.windows, w.id) == Some(w));
        if let Some(screen) = self.output_for_new_window(&w) {
            let mut placing = self.place_now(w.id, &screen, w.size);
            effects.append(&mut placing);
        }
        assert(self@ == opened(old(self)@, w));
        if let Some(found) = self.window(w.id) {
            let mut changed = found;
            changed.state.desk = desk;
            self.set_window(changed);
        }
        effects.push(Effect::Focus { window: w.id });
        effects.push(Effect::DesksChanged);
        if let Some(loc) = self.element_location(w.id) {
            effects.push(
                Effect::X11Configure { window: w.id, geometry: Rect { loc, size: w.size } },
            );
        }
        effects.push(Effect::Redraw);
        assert(effects@ =~= map_effects(old(self)@, w));
        effects
    }

    /// A menu or tooltip of an X11 client is shown exactly where it asks to be.
    pub fn mapped_override_redirect_window(&mut self, w: Window, at: Point) -> (effects: Vec<
        Effect,
    >)
        ensures
            final(self)@ == (Scene {
                windows: old(self)@.windows.push(w),
                stack: on_top(old(self)@.stack, Mapped { id: w.id, z: w.z, loc: at }),
                ..old(self)@
            }),
            effects@ == seq![
                Effect::Show { window: w.id, at, activate: true },
                Effect::Redraw,
            ],
    {
        let mut effects: Vec<Effect> = Vec::new();
        self.windows.push(w);
        self.map_on_top(Mapped { id: w.id, z: w.z, loc: at });
        effects.push(Effect::Show { window: w.id, at, activate: true });
        effects.push(Effect::Redraw);
        effects
    }

    /// An X11 window is no longer shown. It may be on a desk that is not shown. Says whether the
    /// window was known.
    pub fn unmapped_window(&mut self, id: u64, override_redirect: bool) -> (gone: (
        bool,
        Vec<Effect>,
    ))
        ensures
            gone.0 == known(old(self)@, id),
            final(self)@ == if gone.0 {
                forgotten(old(self)@, id)
            } else {
                old(self)@
            },
            gone.1@ == (if gone.0 {
                seq![Effect::Unmap { window: id }]
            } else {
                Seq::empty()
            }) + (if override_redirect {
                Seq::empty()
            } else {
                seq![Effect::X11Mapped { window: id, on: false }]
            }) + seq![Effect::FocusTopmost, Effect::DesksChanged, Effect::Redraw],
    {
        let mut effects: Vec<Effect> = Vec::new();
        let was_known = self.knows(id);
        if was_known {
            self.forget_window(id);
            effects.push(Effect::Unmap { window: id });
        }
        if !override_redirect {
            effects.push(Effect::X11Mapped { window: id, on: false });
        }
        effects.push(Effect::FocusTopmost);
        effects.push(Effect::DesksChanged);
        effects.push(Effect::Redraw);
        assert(effects@ =~= (if was_known {
            seq![Effect::Unmap { window: id }]
        } else {
            Seq::empty()
        }) + (if override_redirect {
            Seq::empty()
        } else {
            seq![Effect::X11Mapped { window: id, on: false }]
        }) + seq![Effect::FocusTopmost, Effect::DesksChanged, Effect::Redraw]);
        (was_known, effects)
    }

    /// The X server moved a window itself: it is followed, where it is on screen.
    pub fn configure_notify(&mut self, id: u64, at: Point) -> (effects: Vec<Effect>)
        ensures
            match (find(old(self)@.windows, id), location(old(self)@.stack, id)) {
                (Some(w), Some(_)) => {
                    &&& final(self)@ == (Scene {
                        stack: on_top(old(self)@.stack, Mapped { id, z: w.z, loc: at }),
                        ..old(self)@
                    })
                    &&& effects@ == seq![
                        Effect::Show { window: id, at, activate: false },
                        Effect::Redraw,
                    ]
                },
                _ => final(self)@ == old(self)@ && effects@.len() == 0,
            },
    {
        let mut effects: Vec<Effect> = Vec::new();
        if let Some(w) = self.window(id) {
            if self.element_location(id).is_some() {
                self.map_on_top(Mapped { id, z: w.z, loc: at });
                effects.push(Effect::Show { window: id, at, activate: false });
                effects.push(Effect::Redraw);
            }
        }
        effects
    }

    /// Whether an X11 window may start a drag: it must be on screen and have the keyboard, and
    /// nothing else may hold the pointer. Its request carries no click that could be checked.
    pub fn grabbable(&self, id: u64, pointer_grabbed: bool, focus: Option<u64>) -> (r: bool)
        ensures
            r == (location(self@.stack, id) is Some && !pointer_grabbed && focus == Some(id)),
    {
        if self.element_location(id).is_none() || pointer_grabbed {
            return false;
        }
        match focus {
            Some(held) => held == id,
            None => false,
        }
    }

    /// Whether the X11 clients of a window manager may read the selection: only while one of its
    /// windows that is on screen has the keyboard.
    pub fn allow_selection_access(&self, focus: Option<u64>, managed: &[u64]) -> (r: bool)
        ensures
            r == (focus matches Some(held) && location(self@.stack, held) is Some
                && managed@.contains(held)),
    {
        let held = match focus {
            Some(held) => held,
            None => {
                return false;
            },
        };
        if self.element_location(held).is_none() {
            return false;
        }
        let mut i: usize = 0;
        while i < managed.len()
            invariant
                i <= managed@.len(),
                focus == Some(held),
                location(self@.stack, held) is Some,
                forall|j: int| 0 <= j < i ==> managed@[j] != held,
            decreases managed.len() - i,
        {
            if managed[i] == held {
                return true;
            }
            i += 1;
        }
        false
    }
}

/// An X11 window that opened is on the desk it was given, and has been placed where there is a
/// screen.
pub proof fn an_opened_window_joins_its_desk(s: Scene, w: Window, desk: Desk)
    requires
        find(s.windows, w.id) is None,
    ensures
        find(on_desk(opened(s, w), w.id, desk).windows, w.id) matches Some(found)
            && found.state.desk == desk && (opening_screen(cornered(s, w), w) is Some
            ==> found.placed),
{
    let shown = cornered(s, w);
    assert(s.windows.push(w).drop_last() =~= s.windows);
    assert(find(shown.windows, w.id) == Some(w));
    if let Some(screen) = opening_screen(shown, w) {
        let at = opening_position(shown, screen, w, w.size);
        put_is_found(
            shown.windows,
            Window { placed: true, state: WindowState { last_pos: at, ..w.state }, ..w },
            w.id,
        );
    }
    let found = find(opened(s, w).windows, w.id)->0;
    put_is_found(
        opened(s, w).windows,
        Window { state: WindowState { desk, ..found.state }, ..found },
        w.id,
    );
}

/// A client that asks for a geometry is answered with the size it asked for, and stays where it
/// is; what it does not ask for stays as it is.
pub proof fn a_client_does_not_move_itself(
    geometry: Rect,
    w: Option<u32>,
    h: Option<u32>,
    answer: Rect,
)
    requires
        call_ensures(configure_request, (geometry, w, h), answer),
    ensures
        answer.loc.x == geometry.loc.x && answer.loc.y == geometry.loc.y,
        w is None ==> answer.size.w == geometry.size.w,
        h is None ==> answer.size.h == geometry.size.h,
        w is Some && w->0 <= i32::MAX ==> answer.size.w == w->0,
        h is Some && h->0 <= i32::MAX ==> answer.size.h == h->0,
{
}

/// A corner moves the two edges that meet in it and an edge only itself: never two that face each
/// other, and never none.
pub proof fn a_corner_is_where_two_edges_meet(edge: X11Edge, edges: ResizeEdge)
    requires
        call_ensures(resize_edge, (edge,), edges),
    ensures
        !(edges.top && edges.bottom),
        !(edges.left && edges.right),
        edge == X11Edge::Top || edge == X11Edge::TopLeft || edge == X11Edge::TopRight
            <==> edges.top,
        edge == X11Edge::Bottom || edge == X11Edge::BottomLeft || edge == X11Edge::BottomRight
            <==> edges.bottom,
        edge == X11Edge::Left || edge == X11Edge::TopLeft || edge == X11Edge::BottomLeft
            <==> edges.left,
        edge == X11Edge::Right || edge == X11Edge::TopRight || edge == X11Edge::BottomRight
            <==> edges.right,
{
}

/// An X11 window that is mapped is listed, on the desk it was given, stands where it opened, in
/// front of its band, and has the keyboard; the geometry that it is told is where it stands and
/// the size it has. The windows that were there stay as they were.
pub proof fn a_mapped_window_is_told_where_it_stands(s: Scene, w: Window, desk: Desk)
    requires
        each_once(s.stack),
        banded(s.stack),
        forall|j: int| 0 <= j < s.windows.len() ==> (#[trigger] s.windows[j]).id != w.id,
    ensures
        ({
            let after = on_desk(opened(s, w), w.id, desk);
            let asked = map_effects(s, w);
            let n = s.windows.len() as int;
            &&& after.windows.len() == n + 1
            &&& after.windows[n].id == w.id && after.windows[n].state.desk == desk
            &&& after.windows[n].size == w.size
            &&& forall|j: int| 0 <= j < n ==> #[trigger] after.windows[j] == s.windows[j]
            &&& foremost(after.stack, w.id, w.z)
            &&& asked.contains(Effect::Focus { window: w.id })
            &&& forall|k: int|
                0 <= k < asked.len() ==> match #[trigger] asked[k] {
                    Effect::Focus { window } => window == w.id,
                    Effect::X11Configure { window, geometry } => window == w.id && geometry.size
                        == w.size && stands(after.stack, w.id, geometry.loc),
                    Effect::Show { window, .. } => window == w.id,
                    Effect::DesksChanged => true,
                    Effect::Redraw => true,
                    _ => false,
                }
            &&& exists|k: int| 0 <= k < asked.len() && (#[trigger] asked[k]) is X11Configure
            &&& opening_screen(cornered(s, w), w) matches Some(screen) ==> stands(
                after.stack,
                w.id,
                opening_position(cornered(s, w), screen, w, w.size),
            )
        }),
{
    let shown = cornered(s, w);
    let n = s.windows.len() as int;
    let corner = Mapped { id: w.id, z: w.z, loc: Point { x: 0, y: 0 } };
    assert(shown.windows[n] == w);
    assert(listed_once(shown.windows, n)) by {
        assert forall|j: int| 0 <= j < shown.windows.len() && j != n implies (
        #[trigger] shown.windows[j]).id != shown.windows[n].id by {
            assert(shown.windows[j] == s.windows[j]);
        }
    }
    on_top_is_foremost(s.stack, corner);
    on_top_keeps_the_rest(s.stack, corner, w.id);
    let open = opened(s, w);
    if let Some(screen) = opening_screen(shown, w) {
        let at = opening_position(shown, screen, w, w.size);
        on_top_is_foremost(shown.stack, Mapped { id: w.id, z: w.z, loc: at });
        on_top_keeps_the_rest(shown.stack, Mapped { id: w.id, z: w.z, loc: at }, w.id);
        assert forall|j: int| 0 <= j < n implies #[trigger] open.windows[j] == s.windows[j] by {
            assert(shown.windows[j] == s.windows[j]);
        }
        assert(stands(open.stack, w.id, at));
    } else {
        assert(stands(open.stack, w.id, corner.loc));
    }
    assert(open.windows[n].id == w.id);
    assert(listed_once(open.windows, n)) by {
        assert forall|j: int| 0 <= j < open.windows.len() && j != n implies (
        #[trigger] open.windows[j]).id != open.windows[n].id by {
            assert(open.windows[j] == s.windows[j]);
        }
    }
    a_listed_window_is_found(open.windows, n);
    let after = on_desk(open, w.id, desk);
    assert forall|j: int| 0 <= j < n implies #[trigger] after.windows[j] == s.windows[j] by {
        assert(open.windows[j] == s.windows[j]);
    }
    let asked = map_effects(s, w);
    located_is_stacked(open.stack, w.id);
    assert(stacked(open.stack, w.id));
    a_located_window_stands(open.stack, w.id);
    let loc = location(open.stack, w.id)->0;
    let first: int = if opening_screen(shown, w) is Some {
        2
    } else {
        1
    };
    assert(asked[first] == (Effect::Focus { window: w.id }));
    assert(asked[first + 2] == (Effect::X11Configure {
        window: w.id,
        geometry: Rect { loc, size: w.size },
    }));
}

} // verus!

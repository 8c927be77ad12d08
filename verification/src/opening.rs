//! Where a new window opens, told in the coordinates of its frame: over the window that opened it,
//! where it asked to be, in the corner or the middle that its app keeps to, or a step further than
//! the windows that are up.
use vstd::prelude::*;

use crate::geometry::{Insets, Point, Size};
use crate::placement::{
    a_new_window_opens_inside, can_open, can_reopen, described, opening_position, orphans,
    placed_at, reopened, Hints,
};
use crate::stacking::{
    a_located_window_stands, a_stacked_window_is_located, banded, each_once, foremost,
    located_is_stacked, on_top_is_foremost, on_top_keeps_the_rest, stacked, stands,
    without_keeps_the_rest,
};
use crate::state::{
    a_listed_window_is_found, find, found_is_listed, listed_once, location, without, Mapped, Scene,
    Screen, Shell, Window,
};

verus! {

/// Where what a screen leaves to windows begins.
pub open spec fn area_corner(screen: Screen) -> (int, int) {
    match screen.geometry {
        Some(g) => (g.loc.x + screen.zone.loc.x, g.loc.y + screen.zone.loc.y),
        None => (screen.zone.loc.x as int, screen.zone.loc.y as int),
    }
}

/// Whether a length that starts at `start` has its middle in the middle of a span, to within the
/// rounding; a length that is longer than the span starts with it.
pub open spec fn in_the_middle(start: int, length: int, near: int, span: int) -> bool {
    if length <= span {
        0 <= (2 * near + span) - (2 * start + length) <= 1
    } else {
        start == near
    }
}

/// Whether a length starts where it was meant to, or as near to that as keeps it within a span; a
/// length that is longer than the span starts with it.
pub open spec fn held_within(start: int, meant: int, length: int, near: int, span: int) -> bool {
    if length > span {
        start == near
    } else {
        &&& near <= start && start + length <= near + span
        &&& near <= meant && meant + length <= near + span ==> start == meant
        &&& meant < near ==> start == near
        &&& meant + length > near + span ==> start + length == near + span
    }
}

/// Whether a window that opens at `at` has its frame where it was meant to, or as near to that as
/// keeps it in what the screen leaves to windows.
pub open spec fn opens_as_meant(
    at: Point,
    w: Window,
    size: Size,
    screen: Screen,
    x: int,
    y: int,
) -> bool {
    let (left, top) = area_corner(screen);
    &&& held_within(
        at.x - w.insets.left,
        x,
        size.w + w.insets.left + w.insets.right,
        left,
        screen.zone.size.w as int,
    )
    &&& held_within(
        at.y - w.insets.top,
        y,
        size.h + w.insets.top + w.insets.bottom,
        top,
        screen.zone.size.h as int,
    )
}

/// Whether a window is an ordinary one that nothing says where to open.
pub open spec fn unassuming(w: Window) -> bool {
    w.customary is None && w.requested is None && !w.state.maximized && !w.state.fullscreen
}

/// A dialog opens with the middle of its frame over the middle of the frame of the window that
/// opened it, as far as that keeps it in the work area.
pub proof fn a_dialog_opens_over_its_parent(
    s: Scene,
    screen: Screen,
    w: Window,
    size: Size,
    p: int,
    k: int,
)
    requires
        can_open(s, screen, w, size),
        unassuming(w),
        each_once(s.stack),
        listed_once(s.windows, p),
        w.parent == Some(s.windows[p].id),
        0 <= k < s.stack.len(),
        s.stack[k].id == s.windows[p].id,
    ensures
        ({
            let parent = s.windows[p];
            let around = if parent.state.fullscreen {
                Insets { left: 0, top: 0, right: 0, bottom: 0 }
            } else {
                parent.insets
            };
            exists|x: int, y: int|
                #![trigger opens_as_meant(opening_position(s, screen, w, size), w, size, screen, x, y)]
                {
                    &&& in_the_middle(
                        x,
                        size.w + w.insets.left + w.insets.right,
                        s.stack[k].loc.x - around.left,
                        parent.size.w + around.left + around.right,
                    )
                    &&& in_the_middle(
                        y,
                        size.h + w.insets.top + w.insets.bottom,
                        s.stack[k].loc.y - around.top,
                        parent.size.h + around.top + around.bottom,
                    )
                    &&& opens_as_meant(
                        opening_position(s, screen, w, size),
                        w,
                        size,
                        screen,
                        x,
                        y,
                    )
                }
        }),
{
    let parent = s.windows[p];
    a_listed_window_is_found(s.windows, p);
    a_stacked_window_is_located(s.stack, k);
    let around = parent.framing();
    let fx = s.stack[k].loc.x - around.left;
    let fy = s.stack[k].loc.y - around.top;
    let fw = parent.size.w + around.left + around.right;
    let fh = parent.size.h + around.top + around.bottom;
    let wide = size.w + w.insets.left + w.insets.right;
    let high = size.h + w.insets.top + w.insets.bottom;
    let x = if wide <= fw {
        fx + (fw - wide) / 2
    } else {
        fx
    };
    let y = if high <= fh {
        fy + (fh - high) / 2
    } else {
        fy
    };
    assert(in_the_middle(x, wide, fx, fw));
    assert(in_the_middle(y, high, fy, fh));
    assert(opens_as_meant(opening_position(s, screen, w, size), w, size, screen, x, y));
}

/// A window that asked for a position has its contents there, as far as that keeps its frame in
/// the work area: to be over its parent comes after that.
pub proof fn a_window_opens_where_it_asked(
    s: Scene,
    screen: Screen,
    w: Window,
    size: Size,
    asked: Point,
)
    requires
        can_open(s, screen, w, size),
        w.customary is None,
        !w.state.maximized,
        !w.state.fullscreen,
        w.requested == Some(asked),
    ensures
        opens_as_meant(
            opening_position(s, screen, w, size),
            w,
            size,
            screen,
            asked.x - w.insets.left,
            asked.y - w.insets.top,
        ),
{
}

/// A window that nothing says where to open goes a step down and to the right for each window
/// that is up, and starts over from the corner after eight.
pub proof fn windows_open_in_a_cascade(s: Scene, screen: Screen, w: Window, size: Size)
    requires
        can_open(s, screen, w, size),
        unassuming(w),
        w.parent is None || !stacked(s.stack, w.parent->0),
        !stacked(s.stack, w.id),
    ensures
        ({
            let (left, top) = area_corner(screen);
            let steps = s.stack.len() as int % 8;
            opens_as_meant(
                opening_position(s, screen, w, size),
                w,
                size,
                screen,
                left + 32 * steps,
                top + 32 * steps,
            )
        }),
{
    if w.parent is Some {
        located_is_stacked(s.stack, w.parent->0);
    }
    without_keeps_the_rest(s.stack, w.id, w.id);
}

/// A window that opens maximized has the corner of its frame in the corner of the work area, and
/// one that opens fullscreen has its contents in the corner of the screen.
pub proof fn a_covering_window_opens_in_the_corner(s: Scene, screen: Screen, w: Window, size: Size)
    requires
        can_open(s, screen, w, size),
    ensures
        ({
            let at = opening_position(s, screen, w, size);
            let (left, top) = area_corner(screen);
            &&& w.state.maximized && !w.state.fullscreen && w.customary is None ==> at.x
                - w.insets.left == left && at.y - w.insets.top == top
            &&& w.state.fullscreen ==> (screen.geometry matches Some(g) ==> at == g.loc)
        }),
{
}

/// The wlRIX apps open where they always do, whatever they or anything else says: the toolchest a
/// little in from the top left, the desks overview a little in from the bottom left, and the
/// greeter in the middle.
pub proof fn the_apps_open_where_they_always_do(
    s: Scene,
    screen: Screen,
    window: Window,
    hints: Hints,
    size: Size,
    app_id: &str,
)
    requires
        hints.app_id == Some(app_id),
        can_open(s, screen, described(window, hints), size),
        !window.state.fullscreen,
    ensures
        ({
            let w = described(window, hints);
            let at = opening_position(s, screen, w, size);
            let (left, top) = area_corner(screen);
            let wide = size.w + w.insets.left + w.insets.right;
            let high = size.h + w.insets.top + w.insets.bottom;
            &&& app_id@ == "com.wlrix.toolchest"@ ==> opens_as_meant(
                at,
                w,
                size,
                screen,
                left + 16,
                top + 16,
            )
            &&& app_id@ == "com.wlrix.desks"@ ==> exists|y: int|
                #![trigger opens_as_meant(at, w, size, screen, left + 16, y)]
                (high + 16 <= screen.zone.size.h ==> y + high + 16 == top + screen.zone.size.h) && (
                high + 16 > screen.zone.size.h ==> y == top) && opens_as_meant(
                    at,
                    w,
                    size,
                    screen,
                    left + 16,
                    y,
                )
            &&& app_id@ == "com.wlrix.greeter"@ ==> exists|x: int, y: int|
                #![trigger opens_as_meant(at, w, size, screen, x, y)]
                in_the_middle(x, wide, left, screen.zone.size.w as int) && in_the_middle(
                    y,
                    high,
                    top,
                    screen.zone.size.h as int,
                ) && opens_as_meant(at, w, size, screen, x, y)
        }),
{
    reveal_strlit("com.wlrix.toolchest");
    reveal_strlit("com.wlrix.desks");
    reveal_strlit("com.wlrix.greeter");
    let w = described(window, hints);
    let at = opening_position(s, screen, w, size);
    let (left, top) = area_corner(screen);
    let wide = size.w + w.insets.left + w.insets.right;
    let high = size.h + w.insets.top + w.insets.bottom;
    assert("com.wlrix.toolchest"@.len() == 19);
    assert("com.wlrix.desks"@.len() == 15);
    assert("com.wlrix.greeter"@.len() == 17);
    if app_id@ == "com.wlrix.desks"@ {
        let y = if high + 16 <= screen.zone.size.h {
            top + screen.zone.size.h - high - 16
        } else {
            top
        };
        assert(opens_as_meant(at, w, size, screen, left + 16, y));
    }
    if app_id@ == "com.wlrix.greeter"@ {
        let x = if wide <= screen.zone.size.w {
            left + (screen.zone.size.w - wide) / 2
        } else {
            left
        };
        let y = if high <= screen.zone.size.h {
            top + (screen.zone.size.h - high) / 2
        } else {
            top
        };
        assert(opens_as_meant(at, w, size, screen, x, y));
    }
}

/// Only an X11 client that named a position other than the origin asked for one; a window of
/// another app than those that keep to a place has no customary one.
pub proof fn what_a_client_says_is_what_it_asked(w: Window, hints: Hints)
    ensures
        ({
            let described = described(w, hints);
            &&& described.requested is Some <==> w.shell == Shell::X11 && hints.names_position && !(
            hints.configured.x == 0 && hints.configured.y == 0)
            &&& described.requested matches Some(p) ==> p == hints.configured
            &&& described.customary is Some <==> (hints.app_id matches Some(app_id) && (app_id@
                == "com.wlrix.toolchest"@ || app_id@ == "com.wlrix.desks"@ || app_id@
                == "com.wlrix.greeter"@))
            &&& described.id == w.id && described.size == w.size && described.insets == w.insets
            &&& described.state == w.state && described.parent == w.parent
        }),
{
}

/// A window that is placed stands where it was placed, in front of its band, counts as placed and
/// keeps the place; the other windows stay where they were, in their order.
pub proof fn a_placed_window_stands_there(s: Scene, i: int, at: Point)
    requires
        each_once(s.stack),
        banded(s.stack),
        listed_once(s.windows, i),
    ensures
        ({
            let w = s.windows[i];
            let after = placed_at(s, w, at);
            &&& stands(after.stack, w.id, at)
            &&& foremost(after.stack, w.id, w.z)
            &&& after.windows[i].placed
            &&& after.windows[i].state.last_pos == at
            &&& after.windows[i].size == w.size
            &&& without(after.stack, w.id) == without(s.stack, w.id)
            &&& forall|j: int|
                0 <= j < s.windows.len() && j != i ==> #[trigger] after.windows[j] == s.windows[j]
            &&& after.hidden == s.hidden && after.screens == s.screens
        }),
{
    let w = s.windows[i];
    let m = Mapped { id: w.id, z: w.z, loc: at };
    on_top_is_foremost(s.stack, m);
    on_top_keeps_the_rest(s.stack, m, w.id);
    let after = placed_at(s, w, at);
    assert forall|j: int| 0 <= j < s.windows.len() && j != i implies #[trigger] after.windows[j]
        == s.windows[j] by {
        assert(s.windows[j].id != w.id);
    }
}

/// Whether a window's frame is within what a screen leaves to windows; a side that is too long for
/// that starts within it.
pub open spec fn frame_is_within(at: Point, w: Window, screen: Screen) -> bool {
    let (left, top) = area_corner(screen);
    let wide = w.size.w + w.insets.left + w.insets.right;
    let high = w.size.h + w.insets.top + w.insets.bottom;
    &&& left <= at.x - w.insets.left && top <= at.y - w.insets.top
    &&& wide <= screen.zone.size.w ==> at.x - w.insets.left + wide <= left + screen.zone.size.w
    &&& high <= screen.zone.size.h ==> at.y - w.insets.top + high <= top + screen.zone.size.h
}

proof fn a_stranded_window_is_among_them(s: Scene, stack: Seq<Mapped>, i: int, k: int)
    requires
        listed_once(s.windows, i),
        s.windows[i].home is None,
        0 <= k < stack.len(),
        stack[k].id == s.windows[i].id,
    ensures
        orphans(s, stack).contains(s.windows[i].id),
    decreases stack.len(),
{
    a_listed_window_is_found(s.windows, i);
    let fewer = stack.drop_last();
    let before = orphans(s, fewer);
    let all = orphans(s, stack);
    if k < fewer.len() {
        assert(fewer[k] == stack[k]);
        a_stranded_window_is_among_them(s, fewer, i, k);
        let at = before.index_of(s.windows[i].id);
        assert(all[at] == s.windows[i].id);
    } else {
        assert(all[all.len() - 1] == s.windows[i].id);
    }
}

proof fn a_moved_window_is_within(s: Scene, screen: Screen, ids: Seq<u64>, i: int)
    requires
        each_once(s.stack),
        banded(s.stack),
        listed_once(s.windows, i),
        !s.windows[i].state.fullscreen,
        can_reopen(s, screen, ids),
    ensures
        ({
            let after = reopened(s, screen, ids);
            let w = s.windows[i];
            &&& each_once(after.stack) && banded(after.stack)
            &&& after.windows == s.windows
            &&& ids.contains(w.id) ==> (location(after.stack, w.id) matches Some(at)
                && frame_is_within(at, w, screen))
        }),
    decreases ids.len(),
{
    let w = s.windows[i];
    if ids.len() > 0 {
        let fewer = ids.drop_last();
        a_moved_window_is_within(s, screen, fewer, i);
        let before = reopened(s, screen, fewer);
        a_listed_window_is_found(s.windows, i);
        if let Some(other) = find(before.windows, ids.last()) {
            let j = found_is_listed(before.windows, ids.last());
            let at = opening_position(before, screen, other, other.size);
            on_top_keeps_the_rest(
                before.stack,
                Mapped { id: other.id, z: other.z, loc: at },
                w.id,
            );
            if ids.last() == w.id {
                a_new_window_opens_inside(before, screen, w, w.size);
            }
        }
        if ids.contains(w.id) && ids.last() != w.id {
            let at = ids.index_of(w.id);
            assert(fewer[at] == w.id);
        }
    }
}

/// A window that no screen shows any longer is brought back: it stands with its frame within what
/// the screen leaves to windows, wherever it stood.
pub proof fn a_stranded_window_comes_back(s: Scene, screen: Screen, i: int)
    requires
        each_once(s.stack),
        banded(s.stack),
        listed_once(s.windows, i),
        s.windows[i].home is None,
        !s.windows[i].state.fullscreen,
        stacked(s.stack, s.windows[i].id),
        can_reopen(s, screen, orphans(s, s.stack)),
    ensures
        ({
            let after = reopened(s, screen, orphans(s, s.stack));
            &&& after.windows == s.windows
            &&& exists|at: Point| #[trigger]
                stands(after.stack, s.windows[i].id, at) && frame_is_within(
                    at,
                    s.windows[i],
                    screen,
                )
        }),
{
    let w = s.windows[i];
    located_is_stacked(s.stack, w.id);
    a_located_window_stands(s.stack, w.id);
    let from = location(s.stack, w.id)->0;
    let k = choose|k: int|
        0 <= k < s.stack.len() && (#[trigger] s.stack[k]).id == w.id && s.stack[k].loc == from;
    a_stranded_window_is_among_them(s, s.stack, i, k);
    let ids = orphans(s, s.stack);
    a_moved_window_is_within(s, screen, ids, i);
    a_located_window_stands(reopened(s, screen, ids).stack, w.id);
}

} // verus!

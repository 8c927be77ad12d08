//! What the operations on a window come to: which part of which screen it covers, where it stands
//! in the stack, what it is told, and that the other windows are left alone.
use vstd::prelude::*;

use crate::geometry::{Insets, Point, Rect, Size};
use crate::input::{bound_run, Run};
use crate::keybinds::Action;
use crate::menu::{choice, Choice, MenuAction};
use crate::stacking::{
    a_located_window_stands, a_stacked_window_is_located, at_bottom_is_hindmost,
    at_bottom_keeps_the_rest, each_once, foremost, hindmost, ids_without_keeps_the_rest,
    located_is_stacked, on_top_is_foremost, on_top_keeps_the_rest, stacked, stands,
    without_keeps_the_rest,
};
use crate::state::{
    a_connected_screen_is_found, a_listed_window_is_found, a_missing_screen_is_not_found,
    an_unlisted_window_is_not_found, connected_once, find, found_is_listed, ids_without,
    last_holding, listed_once, location, no_screen_is_under, on_screen, on_top, put,
    the_last_screen_is_under, without, Covering, Desk, Effect, Mapped, Scene, Screen, Shell, Window,
    WindowState,
};
use crate::window_ops::{
    cell_for, covered_screen, covered_screen_is_sound, either, filling, fullscreen, lower,
    maximize, minimize, minimized_of, move_to_desk, moved, opening_screen, raise, remember,
    restore, restore_each, restoring_is_sound, screen_of, screen_of_is_sound, settling_is_tidy,
    shown_geometry, tidy, told, told_not_fullscreen, unfullscreen, unmaximize,
};

verus! {

/// Whether a window that is to open over a window on screen opens on one of the screens: the one
/// that its parent is on.
pub open spec fn opens_by_its_parent(s: Scene, w: Window, n: int) -> bool {
    exists|p: int|
        #![trigger s.windows[p]]
        listed_once(s.windows, p) && w.parent == Some(s.windows[p].id) && stacked(
            s.stack,
            s.windows[p].id,
        ) && connected_once(s.screens, n) && s.windows[p].home == Some(s.screens[n].id)
}

/// Whether a window that has no parent on screen opens on one of the screens: the one that the
/// pointer is on, or the first where it is on none.
pub open spec fn opens_by_the_pointer(s: Scene, w: Window, n: int) -> bool {
    &&& w.parent is None || !stacked(s.stack, w.parent->0)
    &&& last_holding(s.screens, s.pointer, n) || n == 0 && s.screens.len() > 0 && forall|j: int|
        0 <= j < s.screens.len() ==> !on_screen(#[trigger] s.screens[j], s.pointer)
}

/// Whether a window that has been placed is on one of the screens: the one it is known to be on,
/// or the first where that one is gone.
pub open spec fn is_at_home(s: Scene, w: Window, n: int) -> bool {
    ||| connected_once(s.screens, n) && w.home == Some(s.screens[n].id)
    ||| n == 0 && s.screens.len() > 0 && forall|j: int|
        0 <= j < s.screens.len() ==> w.home != Some((#[trigger] s.screens[j]).id)
}

/// Whether a window belongs on one of the screens.
pub open spec fn belongs_on(s: Scene, w: Window, n: int) -> bool {
    if w.placed {
        is_at_home(s, w, n)
    } else {
        opens_by_its_parent(s, w, n) || opens_by_the_pointer(s, w, n)
    }
}

/// A window that is at home on a screen is found to be on it.
pub proof fn at_home_is_its_screen(s: Scene, w: Window, n: int)
    requires
        is_at_home(s, w, n),
    ensures
        screen_of(s, w) == Some(s.screens[n]),
{
    if connected_once(s.screens, n) && w.home == Some(s.screens[n].id) {
        a_connected_screen_is_found(s.screens, n);
    } else if w.home is Some {
        a_missing_screen_is_not_found(s.screens, w.home->0);
    }
}

/// A new window opens on the screen of the window that opened it, or else on the pointer's.
pub proof fn a_new_window_opens_where_it_is_looked_for(s: Scene, w: Window, n: int)
    requires
        opens_by_its_parent(s, w, n) || opens_by_the_pointer(s, w, n),
    ensures
        opening_screen(s, w) == Some(s.screens[n]),
{
    if opens_by_its_parent(s, w, n) {
        let p = choose|p: int|
            #![trigger s.windows[p]]
            listed_once(s.windows, p) && w.parent == Some(s.windows[p].id) && stacked(
                s.stack,
                s.windows[p].id,
            ) && connected_once(s.screens, n) && s.windows[p].home == Some(s.screens[n].id);
        a_listed_window_is_found(s.windows, p);
        located_is_stacked(s.stack, s.windows[p].id);
        a_connected_screen_is_found(s.screens, n);
    } else {
        if w.parent is Some {
            located_is_stacked(s.stack, w.parent->0);
        }
        if last_holding(s.screens, s.pointer, n) {
            the_last_screen_is_under(s.screens, s.pointer, n);
        } else {
            no_screen_is_under(s.screens, s.pointer);
        }
    }
}

proof fn belonging_is_covering(s: Scene, w: Window, n: int)
    requires
        belongs_on(s, w, n),
    ensures
        covered_screen(s, w) == Some(s.screens[n]),
        0 <= n < s.screens.len(),
{
    if w.placed {
        at_home_is_its_screen(s, w, n);
    } else {
        a_new_window_opens_where_it_is_looked_for(s, w, n);
    }
}

/// Whether contents at `target` with a frame around them take up exactly what a screen leaves to
/// windows; contents are a pixel wide and high at the least.
pub open spec fn framed_on(target: Rect, insets: Insets, screen: Screen) -> bool {
    let (x, y) = match screen.geometry {
        Some(g) => (g.loc.x, g.loc.y),
        None => (0i32, 0i32),
    };
    &&& target.loc.x - insets.left == x + screen.zone.loc.x
    &&& target.loc.y - insets.top == y + screen.zone.loc.y
    &&& target.size.w >= 1 && target.size.h >= 1
    &&& target.size.w == 1 || target.size.w + insets.left + insets.right == screen.zone.size.w
    &&& target.size.h == 1 || target.size.h + insets.top + insets.bottom == screen.zone.size.h
    &&& target.size.w + insets.left + insets.right >= screen.zone.size.w
    &&& target.size.h + insets.top + insets.bottom >= screen.zone.size.h
}

/// Whether what is asked tells a window of a state and of its new rectangle, and of no other; a
/// Wayland window is sent its size before the configure that takes it along.
pub open spec fn told_of(
    asked: Seq<Effect>,
    w: Window,
    covering: Covering,
    on: bool,
    target: Rect,
) -> bool {
    &&& forall|i: int| 0 <= i < asked.len() ==> match #[trigger] asked[i] {
        Effect::PendingSize { window, size } => window == w.id && size == Some(target.size),
        Effect::X11Configure { window, geometry } => window == w.id && geometry == target,
        Effect::Show { window, at, activate } => window == w.id && at == target.loc && activate,
        Effect::Configure { window } => window == w.id,
        Effect::Pending { window, covering: c, on: o } => window == w.id && (c == covering ==> o
            == on) && (c != covering ==> !o),
        Effect::X11State { window, covering: c, on: o } => window == w.id && (c == covering ==> o
            == on) && (c != covering ==> !o),
        Effect::DesksChanged => true,
        Effect::Redraw => true,
        _ => false,
    }
    &&& w.shell == Shell::Wayland ==> exists|i: int, j: int, k: int|
        #![trigger asked[i], asked[j], asked[k]]
        0 <= i < k < asked.len() && 0 <= j < k && asked[i] == (Effect::Pending {
            window: w.id,
            covering,
            on,
        }) && asked[j] == (Effect::PendingSize { window: w.id, size: Some(target.size) })
            && asked[k] == (Effect::Configure { window: w.id })
    &&& w.shell == Shell::X11 ==> asked.contains(
        Effect::X11State { window: w.id, covering, on },
    ) && asked.contains(Effect::X11Configure { window: w.id, geometry: target })
}

/// Whether a window ends up with its contents at a rectangle: it stands there, in front of its
/// band, and is told.
pub open spec fn put_at(
    after: Scene,
    asked: Seq<Effect>,
    w: Window,
    covering: Covering,
    on: bool,
    target: Rect,
) -> bool {
    &&& stands(after.stack, w.id, target.loc)
    &&& foremost(after.stack, w.id, w.z)
    &&& asked.contains(Effect::Show { window: w.id, at: target.loc, activate: true })
    &&& told_of(asked, w, covering, on, target)
}

/// Whether a window is the one at a place of the list, and on screen.
pub open spec fn shown_at(s: Scene, i: int) -> bool {
    listed_once(s.windows, i) && stacked(s.stack, s.windows[i].id)
}

proof fn remembering_is_at_the_index(s: Scene, i: int, state: WindowState)
    requires
        listed_once(s.windows, i),
    ensures
        ({
            let after = remember(s, s.windows[i], state);
            &&& listed_once(after.windows, i)
            &&& after.windows.len() == s.windows.len()
            &&& after.windows[i] == (Window { state, ..s.windows[i] })
            &&& forall|j: int|
                0 <= j < s.windows.len() && j != i ==> #[trigger] after.windows[j] == s.windows[j]
        }),
{
    let after = remember(s, s.windows[i], state);
    assert forall|j: int| 0 <= j < s.windows.len() && j != i implies #[trigger] after.windows[j]
        == s.windows[j] by {
        assert(s.windows[j].id != s.windows[i].id);
    }
}

proof fn moving_puts(
    s: Scene,
    i: int,
    state: WindowState,
    before: Seq<Effect>,
    covering: Covering,
    on: bool,
    target: Rect,
    tail: Seq<Effect>,
)
    requires
        tidy(s),
        shown_at(s, i),
        tail == seq![Effect::DesksChanged, Effect::Redraw],
        before == Seq::<Effect>::empty() || before == told_not_fullscreen(s.windows[i]) && covering
            == Covering::Maximized && on,
    ensures
        ({
            let w = s.windows[i];
            let (after, show) = moved(remember(s, w, state), w, target.loc);
            put_at(
                after,
                before + (told(w, covering, on, Some(target)) + show) + tail,
                w,
                covering,
                on,
                target,
            )
        }),
{
    let w = s.windows[i];
    located_is_stacked(s.stack, w.id);
    let (after, show) = moved(remember(s, w, state), w, target.loc);
    on_top_is_foremost(s.stack, Mapped { id: w.id, z: w.z, loc: target.loc });
    let says = told(w, covering, on, Some(target));
    let asked = before + (says + show) + tail;
    let b = before.len() as int;
    let n = says.len() as int;
    assert(show.len() == 1);
    assert(asked[b + n] == show[0]);
    assert forall|k: int| 0 <= k < n implies #[trigger] asked[b + k] == says[k] by {
        assert((says + show)[k] == says[k]);
    }
    assert(asked[b + 0] == says[0]);
    assert(asked[b + 1] == says[1]);
    if w.shell == Shell::Wayland {
        assert(asked[b + 2] == says[2]);
    }
    assert forall|k: int| 0 <= k < asked.len() implies (k < b && #[trigger] asked[k] == before[k])
        || (b <= k < b + n && asked[k] == says[k - b]) || (k == b + n && asked[k] == show[0]) || (k
        > b + n && asked[k] == tail[k - b - n - 1]) by {
    }
    assert(told_of(asked, w, covering, on, target));
}

/// A maximized window is on the screen it belongs on, and its frame takes up exactly what that
/// screen leaves to windows; it is told so, and remembers where it was.
pub proof fn a_maximized_window_fills_its_own_screen(s: Scene, i: int, n: int)
    requires
        tidy(s),
        s.sound(),
        shown_at(s, i),
        s.windows[i].maximizable,
        !s.windows[i].state.maximized,
        !s.windows[i].state.fullscreen,
        belongs_on(s, s.windows[i], n),
    ensures
        ({
            let w = s.windows[i];
            let (after, asked) = maximize(s, w.id);
            &&& after.windows[i].state.maximized
            &&& !after.windows[i].state.fullscreen
            &&& after.windows[i].state.desk == w.state.desk
            &&& exists|target: Rect| #[trigger]
                framed_on(target, w.insets, s.screens[n]) && put_at(
                    after,
                    asked,
                    w,
                    Covering::Maximized,
                    true,
                    target,
                ) && after.windows[i].state.last_pos == target.loc
            &&& w.placed && w.size.w > 0 && w.size.h > 0 ==> (after.windows[i].state.restore_geo
                matches Some(back) && stands(s.stack, w.id, back.loc) && back.size == w.size)
        }),
{
    let w = s.windows[i];
    a_listed_window_is_found(s.windows, i);
    located_is_stacked(s.stack, w.id);
    a_located_window_stands(s.stack, w.id);
    belonging_is_covering(s, w, n);
    covered_screen_is_sound(s, w);
    let target = filling(s.screens[n].area(), w.insets);
    assert(framed_on(target, w.insets, s.screens[n]));
    let kept = either(shown_geometry(s, w), w.state.restore_geo);
    let held = WindowState {
        maximized: true,
        restore_geo: kept,
        last_pos: target.loc,
        ..w.state
    };
    remembering_is_at_the_index(s, i, held);
    moving_puts(
        s,
        i,
        held,
        Seq::empty(),
        Covering::Maximized,
        true,
        target,
        seq![Effect::DesksChanged, Effect::Redraw],
    );
    let (shown, show) = moved(remember(s, w, held), w, target.loc);
    let says = told(w, Covering::Maximized, true, Some(target));
    assert(Seq::<Effect>::empty() + (says + show) =~= says + show);
}

/// A window made fullscreen covers a whole screen, frame and all: the one it names, or else the
/// one it belongs on. It is told so, and remembers where it was.
pub proof fn a_fullscreen_window_covers_a_screen(
    s: Scene,
    i: int,
    named: Option<Screen>,
    n: int,
    whole: Rect,
)
    requires
        tidy(s),
        shown_at(s, i),
        !s.windows[i].state.fullscreen,
        match named {
            Some(screen) => screen.geometry == Some(whole),
            None => belongs_on(s, s.windows[i], n) && s.screens[n].geometry == Some(whole),
        },
    ensures
        ({
            let w = s.windows[i];
            let (after, asked) = fullscreen(s, w.id, named);
            &&& after.windows[i].state.fullscreen
            &&& after.windows[i].state.maximized == w.state.maximized
            &&& after.windows[i].state.restore_geo == w.state.restore_geo
            &&& after.windows[i].state.last_pos == whole.loc
            &&& put_at(after, asked, w, Covering::Fullscreen, true, whole)
            &&& w.placed && w.size.w > 0 && w.size.h > 0 ==> (
            after.windows[i].state.pre_fullscreen matches Some(back) && stands(
                s.stack,
                w.id,
                back.loc,
            ) && back.size == w.size)
        }),
{
    let w = s.windows[i];
    a_listed_window_is_found(s.windows, i);
    located_is_stacked(s.stack, w.id);
    a_located_window_stands(s.stack, w.id);
    if named is None {
        belonging_is_covering(s, w, n);
    }
    let held = WindowState {
        fullscreen: true,
        pre_fullscreen: either(shown_geometry(s, w), w.state.pre_fullscreen),
        last_pos: whole.loc,
        ..w.state
    };
    remembering_is_at_the_index(s, i, held);
    moving_puts(
        s,
        i,
        held,
        Seq::empty(),
        Covering::Fullscreen,
        true,
        whole,
        seq![Effect::DesksChanged, Effect::Redraw],
    );
    let (shown, show) = moved(remember(s, w, held), w, whole.loc);
    let says = told(w, Covering::Fullscreen, true, Some(whole));
    assert(Seq::<Effect>::empty() + (says + show) =~= says + show);
}

/// A window that is un-maximized goes to the rectangle it remembers, and is told so.
pub proof fn an_unmaximized_window_goes_back(s: Scene, i: int, back: Rect)
    requires
        tidy(s),
        shown_at(s, i),
        s.windows[i].state.maximized,
        !s.windows[i].state.fullscreen,
        s.windows[i].state.restore_geo == Some(back),
    ensures
        ({
            let w = s.windows[i];
            let (after, asked) = unmaximize(s, w.id);
            &&& !after.windows[i].state.maximized
            &&& after.windows[i].state.restore_geo is None
            &&& after.windows[i].state.last_pos == back.loc
            &&& put_at(after, asked, w, Covering::Maximized, false, back)
        }),
{
    let w = s.windows[i];
    a_listed_window_is_found(s.windows, i);
    let held = WindowState {
        maximized: false,
        restore_geo: None,
        last_pos: back.loc,
        ..w.state
    };
    remembering_is_at_the_index(s, i, held);
    moving_puts(
        s,
        i,
        held,
        Seq::empty(),
        Covering::Maximized,
        false,
        back,
        seq![Effect::DesksChanged, Effect::Redraw],
    );
    let (shown, show) = moved(remember(s, w, held), w, back.loc);
    let says = told(w, Covering::Maximized, false, Some(back));
    assert(Seq::<Effect>::empty() + (says + show) =~= says + show);
}

/// A window that leaves fullscreen goes to the rectangle it remembers, and is told so; one that is
/// maximized underneath fills what its screen leaves to windows.
pub proof fn a_window_leaves_fullscreen(s: Scene, i: int, n: int, back: Rect)
    requires
        tidy(s),
        s.sound(),
        shown_at(s, i),
        s.windows[i].state.fullscreen,
        if s.windows[i].state.maximized {
            is_at_home(s, s.windows[i], n)
        } else {
            s.windows[i].state.pre_fullscreen == Some(back)
        },
    ensures
        ({
            let w = s.windows[i];
            let (after, asked) = unfullscreen(s, w.id);
            &&& !after.windows[i].state.fullscreen
            &&& after.windows[i].state.maximized == w.state.maximized
            &&& after.windows[i].state.pre_fullscreen is None
            &&& if w.state.maximized {
                exists|target: Rect| #[trigger]
                    framed_on(target, w.insets, s.screens[n]) && put_at(
                        after,
                        asked,
                        w,
                        Covering::Maximized,
                        true,
                        target,
                    )
            } else {
                put_at(after, asked, w, Covering::Fullscreen, false, back)
            }
        }),
{
    let w = s.windows[i];
    a_listed_window_is_found(s.windows, i);
    let tail = seq![Effect::DesksChanged, Effect::Redraw];
    let state = WindowState { fullscreen: false, pre_fullscreen: None, ..w.state };
    if w.state.maximized {
        at_home_is_its_screen(s, w, n);
        screen_of_is_sound(s, w);
        let target = filling(s.screens[n].area(), w.insets);
        assert(framed_on(target, w.insets, s.screens[n]));
        let held = WindowState { last_pos: target.loc, ..state };
        remembering_is_at_the_index(s, i, held);
        moving_puts(
            s,
            i,
            held,
            told_not_fullscreen(w),
            Covering::Maximized,
            true,
            target,
            tail,
        );
    } else {
        let held = WindowState { last_pos: back.loc, ..state };
        remembering_is_at_the_index(s, i, held);
        moving_puts(s, i, held, Seq::empty(), Covering::Fullscreen, false, back, tail);
        let (shown, show) = moved(remember(s, w, held), w, back.loc);
        let says = told(w, Covering::Fullscreen, false, Some(back));
        assert(Seq::<Effect>::empty() + (says + show) =~= says + show);
    }
}

/// A window that is not on screen is not put there by a change of what it covers.
pub proof fn a_window_held_aside_stays_aside(s: Scene, id: u64, named: Option<Screen>)
    requires
        !stacked(s.stack, id),
    ensures
        maximize(s, id).0.stack == s.stack,
        unmaximize(s, id).0.stack == s.stack,
        fullscreen(s, id, named).0.stack == s.stack,
        unfullscreen(s, id).0.stack == s.stack,
        raise(s, id) == (s, Seq::<Effect>::empty()),
        lower(s, id) == (s, Seq::<Effect>::empty()),
{
    located_is_stacked(s.stack, id);
    if find(s.windows, id) is Some {
        let i = found_is_listed(s.windows, id);
    }
}

/// Whether a minimized window is put away: off the screen, held aside, marked, with a cell of the
/// icon grid, remembering where it was; and the keyboard goes elsewhere.
pub open spec fn put_away(s: Scene, i: int, after: Scene, asked: Seq<Effect>) -> bool {
    let w = s.windows[i];
    &&& !stacked(after.stack, w.id)
    &&& after.hidden.contains(w.id)
    &&& after.windows[i].state.minimized
    &&& after.windows[i].state.icon_slot is Some
    &&& after.windows[i].state.restore_geo matches Some(back) && stands(s.stack, w.id, back.loc)
        && back.size == w.size
    &&& after.windows[i].state.maximized == w.state.maximized
    &&& after.windows[i].state.desk == w.state.desk
    &&& asked.contains(Effect::Unmap { window: w.id })
    &&& asked.contains(Effect::FocusTopmost)
    &&& w.shell == Shell::X11 ==> asked.contains(Effect::X11Mapped { window: w.id, on: false })
}

/// A window that can be minimized and is on screen is put away.
pub proof fn a_minimized_window_is_put_away(s: Scene, i: int)
    requires
        tidy(s),
        shown_at(s, i),
        s.windows[i].minimizable,
        !s.windows[i].state.minimized,
    ensures
        put_away(
            s,
            i,
            minimize(s, s.windows[i].id).0,
            minimize(s, s.windows[i].id).1,
        ),
{
    let w = s.windows[i];
    let id = w.id;
    a_listed_window_is_found(s.windows, i);
    located_is_stacked(s.stack, id);
    a_located_window_stands(s.stack, id);
    let loc = location(s.stack, id)->0;
    let state = WindowState {
        minimized: true,
        needs_thumbnail: true,
        restore_geo: Some(Rect { loc, size: w.size }),
        last_pos: loc,
        ..w.state
    };
    remembering_is_at_the_index(s, i, state);
    let marked = remember(s, w, state);
    let aside = Scene {
        stack: without(s.stack, id),
        hidden: ids_without(s.hidden, id).push(id),
        ..marked
    };
    a_listed_window_is_found(aside.windows, i);
    let celled = WindowState { icon_slot: Some(cell_for(aside, aside.windows[i])), ..state };
    remembering_is_at_the_index(aside, i, celled);
    without_keeps_the_rest(s.stack, id, id);
    let (after, asked) = minimize(s, id);
    assert(after.hidden[after.hidden.len() - 1] == id);
    let first = if w.shell == Shell::X11 {
        1int
    } else {
        0
    };
    assert(w.shell == Shell::X11 ==> asked[0] == (Effect::X11Mapped { window: id, on: false }));
    assert(asked[first] == (Effect::Unmap { window: id }));
    assert(asked[first + 1] == Effect::FocusTopmost);
}

/// Whether a window is brought back where it remembers to have been: in front of its band, with
/// the keyboard, and no longer held aside.
pub open spec fn brought_back(s: Scene, i: int, after: Scene, asked: Seq<Effect>) -> bool {
    let w = s.windows[i];
    let at = match w.state.restore_geo {
        Some(back) => back.loc,
        None => w.state.last_pos,
    };
    &&& stands(after.stack, w.id, at)
    &&& foremost(after.stack, w.id, w.z)
    &&& !after.hidden.contains(w.id)
    &&& !after.windows[i].state.minimized
    &&& after.windows[i].state.maximized == w.state.maximized
    &&& after.windows[i].state.restore_geo == w.state.restore_geo
    &&& asked.contains(Effect::Show { window: w.id, at, activate: true })
    &&& asked.contains(Effect::Focus { window: w.id })
    &&& w.shell == Shell::X11 ==> asked.contains(Effect::X11Mapped { window: w.id, on: true })
}

/// A minimized window that is restored is brought back where its desk is shown, and only unmarked
/// where it is not.
pub proof fn a_restored_window_is_brought_back(s: Scene, i: int)
    requires
        tidy(s),
        listed_once(s.windows, i),
        s.windows[i].state.minimized,
    ensures
        ({
            let w = s.windows[i];
            let (after, asked) = restore(s, w.id);
            &&& !after.windows[i].state.minimized
            &&& if w.state.desk == s.active || w.state.desk == Desk::Global {
                brought_back(s, i, after, asked)
            } else {
                after.stack == s.stack && after.hidden == s.hidden && forall|k: int|
                    0 <= k < asked.len() ==> #[trigger] asked[k] is X11Mapped || asked[k]
                        is DesksChanged || asked[k] is Redraw
            }
        }),
{
    let w = s.windows[i];
    let id = w.id;
    a_listed_window_is_found(s.windows, i);
    let state = WindowState {
        minimized: false,
        needs_thumbnail: false,
        has_thumbnail: false,
        ..w.state
    };
    remembering_is_at_the_index(s, i, state);
    let at = match w.state.restore_geo {
        Some(back) => back.loc,
        None => w.state.last_pos,
    };
    on_top_is_foremost(s.stack, Mapped { id, z: w.z, loc: at });
    ids_without_keeps_the_rest(s.hidden, id, id);
    let (after, asked) = restore(s, id);
    if w.state.desk == s.active || w.state.desk == Desk::Global {
        let first = if w.shell == Shell::X11 {
            1int
        } else {
            0
        };
        assert(w.shell == Shell::X11 ==> asked[0] == (Effect::X11Mapped { window: id, on: true }));
        assert(asked[first] == (Effect::Show { window: id, at, activate: true }));
        assert(asked[first + 1] == (Effect::Focus { window: id }));
    }
}

/// Whether a window is brought to the front of its band where it stands, and given the keyboard.
pub open spec fn brought_to_front(s: Scene, i: int, after: Scene, asked: Seq<Effect>) -> bool {
    let w = s.windows[i];
    &&& foremost(after.stack, w.id, w.z)
    &&& forall|at: Point| #[trigger]
        stands(after.stack, w.id, at) <==> stands(s.stack, w.id, at)
    &&& asked.contains(Effect::Focus { window: w.id })
    &&& asked.contains(Effect::Raise { window: w.id, activate: true })
    &&& forall|k: int|
        0 <= k < asked.len() ==> !(#[trigger] asked[k] is FocusTopmost) && (asked[k] is Focus
            ==> asked[k] == (Effect::Focus { window: w.id }))
    &&& after.windows == s.windows && after.hidden == s.hidden
}

/// Whether a window is sent to the back of its band where it stands, and the keyboard goes to the
/// window that is then on top.
pub open spec fn sent_to_back(s: Scene, i: int, after: Scene, asked: Seq<Effect>) -> bool {
    let w = s.windows[i];
    &&& hindmost(after.stack, w.id, w.z)
    &&& forall|at: Point| #[trigger]
        stands(after.stack, w.id, at) <==> stands(s.stack, w.id, at)
    &&& asked.contains(Effect::FocusTopmost)
    &&& asked.contains(Effect::Restack)
    &&& forall|k: int| 0 <= k < asked.len() ==> !(#[trigger] asked[k] is Focus)
    &&& after.windows == s.windows && after.hidden == s.hidden
}

proof fn standing_is_being_located(stack: Seq<Mapped>, id: u64, at: Point)
    requires
        each_once(stack),
    ensures
        stands(stack, id, at) <==> location(stack, id) == Some(at),
{
    if stands(stack, id, at) {
        let k = choose|k: int|
            0 <= k < stack.len() && (#[trigger] stack[k]).id == id && stack[k].loc == at;
        a_stacked_window_is_located(stack, k);
    }
    if location(stack, id) == Some(at) {
        a_located_window_stands(stack, id);
    }
}

/// A window that is raised comes to the front, and one that is lowered goes to the back.
pub proof fn raising_and_lowering_are_what_they_say(s: Scene, i: int)
    requires
        tidy(s),
        shown_at(s, i),
    ensures
        brought_to_front(s, i, raise(s, s.windows[i].id).0, raise(s, s.windows[i].id).1),
        sent_to_back(s, i, lower(s, s.windows[i].id).0, lower(s, s.windows[i].id).1),
{
    let w = s.windows[i];
    a_listed_window_is_found(s.windows, i);
    located_is_stacked(s.stack, w.id);
    let m = Mapped { id: w.id, z: w.z, loc: location(s.stack, w.id)->0 };
    on_top_is_foremost(s.stack, m);
    at_bottom_is_hindmost(s.stack, m);
    on_top_keeps_the_rest(s.stack, m, w.id);
    at_bottom_keeps_the_rest(s.stack, m, w.id);
    let (up, asked) = raise(s, w.id);
    let (down, asked_too) = lower(s, w.id);
    assert forall|at: Point| #[trigger]
        stands(up.stack, w.id, at) <==> stands(s.stack, w.id, at) by {
        standing_is_being_located(s.stack, w.id, at);
        standing_is_being_located(up.stack, w.id, at);
    }
    assert forall|at: Point| #[trigger]
        stands(down.stack, w.id, at) <==> stands(s.stack, w.id, at) by {
        standing_is_being_located(s.stack, w.id, at);
        standing_is_being_located(down.stack, w.id, at);
    }
    assert(asked[0] == (Effect::Raise { window: w.id, activate: true }));
    assert(asked[1] == (Effect::Focus { window: w.id }));
    assert(asked_too[0] == Effect::Restack);
    assert(asked_too[1] == Effect::FocusTopmost);
}

/// A window that is moved to a desk belongs to it from then on, is on screen where that desk is
/// shown and the window is not minimized, and off it where the desk is not; what is held aside
/// remembers where it stood.
pub proof fn a_window_goes_with_its_desk(s: Scene, i: int, target: Desk)
    requires
        tidy(s),
        listed_once(s.windows, i),
    ensures
        ({
            let w = s.windows[i];
            let (after, asked) = move_to_desk(s, w.id, target);
            let shown = target == s.active || target == Desk::Global;
            if !s.desks.contains(target) || w.state.desk == target {
                after == s && asked.len() == 0
            } else {
                &&& after.windows[i].state.desk == target
                &&& after.windows[i].state.minimized == w.state.minimized
                &&& after.windows[i].state.maximized == w.state.maximized
                &&& stacked(after.stack, w.id) <==> shown && !w.state.minimized
                &&& asked.contains(Effect::FocusTopmost)
                &&& shown && !w.state.minimized && !stacked(s.stack, w.id) ==> stands(
                    after.stack,
                    w.id,
                    w.state.last_pos,
                ) && !after.hidden.contains(w.id) && asked.contains(
                    Effect::Show { window: w.id, at: w.state.last_pos, activate: false },
                )
                &&& shown && stacked(s.stack, w.id) ==> after.stack == s.stack
                &&& !shown && stacked(s.stack, w.id) ==> after.hidden.contains(w.id) && stands(
                    s.stack,
                    w.id,
                    after.windows[i].state.last_pos,
                ) && asked.contains(Effect::Unmap { window: w.id })
            }
        }),
{
    let w = s.windows[i];
    let id = w.id;
    a_listed_window_is_found(s.windows, i);
    located_is_stacked(s.stack, id);
    let loc = location(s.stack, id);
    let state = WindowState { desk: target, ..w.state };
    remembering_is_at_the_index(s, i, state);
    let m = Mapped { id, z: w.z, loc: w.state.last_pos };
    on_top_is_foremost(s.stack, m);
    on_top_keeps_the_rest(s.stack, m, id);
    located_is_stacked(on_top(s.stack, m), id);
    without_keeps_the_rest(s.stack, id, id);
    ids_without_keeps_the_rest(s.hidden, id, id);
    let (after, asked) = move_to_desk(s, id, target);
    if loc is Some {
        a_located_window_stands(s.stack, id);
        remembering_is_at_the_index(s, i, WindowState { last_pos: loc->0, ..state });
    }
    if s.desks.contains(target) && w.state.desk != target {
        if s.shows(target) && !w.state.minimized && loc is None {
            assert(asked[0] == (Effect::Show { window: id, at: w.state.last_pos, activate: false }));
            assert(asked[1] == Effect::FocusTopmost);
        } else if !s.shows(target) && loc is Some {
            assert(asked[0] == (Effect::Unmap { window: id }));
            assert(asked[1] == Effect::FocusTopmost);
            assert(after.hidden[after.hidden.len() - 1] == id);
        } else {
            assert(asked[0] == Effect::FocusTopmost);
        }
    }
}

/// Whether an operation on one window leaves everything else as it was: what is known of the other
/// windows, where they stand and in what order, whether they are held aside, and the screens, the
/// desks and the pointer.
pub open spec fn leaves_the_rest(s: Scene, id: u64, after: Scene) -> bool {
    &&& after.windows.len() == s.windows.len()
    &&& forall|j: int|
        0 <= j < s.windows.len() ==> (#[trigger] after.windows[j]).id == s.windows[j].id && (
        s.windows[j].id != id ==> after.windows[j] == s.windows[j])
    &&& without(after.stack, id) == without(s.stack, id)
    &&& forall|other: u64|
        other != id ==> (#[trigger] after.hidden.contains(other) <==> s.hidden.contains(other))
    &&& after.screens == s.screens && after.active == s.active && after.desks == s.desks
    &&& after.metrics == s.metrics && after.pointer == s.pointer
    &&& after.icon_drag == s.icon_drag && after.window_menu == s.window_menu
    &&& after.last_menu_click == s.last_menu_click
}

proof fn without_twice(stack: Seq<Mapped>, id: u64)
    ensures
        without(without(stack, id), id) == without(stack, id),
{
    without_keeps_the_rest(stack, id, id);
    without_keeps_the_rest(without(stack, id), id, id);
}

proof fn hiding_keeps_the_rest(s: Scene, id: u64)
    ensures
        forall|other: u64|
            other != id ==> (#[trigger] ids_without(s.hidden, id).contains(other)
                <==> s.hidden.contains(other)),
        forall|other: u64|
            other != id ==> (#[trigger] ids_without(s.hidden, id).push(id).contains(other)
                <==> s.hidden.contains(other)),
{
    let kept = ids_without(s.hidden, id);
    let more = kept.push(id);
    assert forall|other: u64| other != id implies (#[trigger] kept.contains(other)
        <==> s.hidden.contains(other)) by {
        ids_without_keeps_the_rest(s.hidden, id, other);
    }
    assert forall|other: u64| other != id implies (#[trigger] more.contains(other)
        <==> s.hidden.contains(other)) by {
        ids_without_keeps_the_rest(s.hidden, id, other);
        if more.contains(other) {
            let k = more.index_of(other);
            assert(kept[k] == other);
        }
        if kept.contains(other) {
            let k = kept.index_of(other);
            assert(more[k] == other);
        }
    }
}

/// Every operation on a window leaves the other windows alone.
pub proof fn the_other_windows_are_left_alone(
    s: Scene,
    id: u64,
    named: Option<Screen>,
    target: Desk,
)
    requires
        tidy(s),
    ensures
        leaves_the_rest(s, id, maximize(s, id).0),
        leaves_the_rest(s, id, unmaximize(s, id).0),
        leaves_the_rest(s, id, fullscreen(s, id, named).0),
        leaves_the_rest(s, id, unfullscreen(s, id).0),
        leaves_the_rest(s, id, minimize(s, id).0),
        leaves_the_rest(s, id, restore(s, id).0),
        leaves_the_rest(s, id, raise(s, id).0),
        leaves_the_rest(s, id, lower(s, id).0),
        leaves_the_rest(s, id, move_to_desk(s, id, target).0),
{
    if find(s.windows, id) is Some {
        let w = find(s.windows, id)->0;
        let i = found_is_listed(s.windows, id);
        without_twice(s.stack, id);
        hiding_keeps_the_rest(s, id);
        assert forall|at: Point| #[trigger]
            without(on_top(s.stack, Mapped { id, z: w.z, loc: at }), id) == without(s.stack, id) by {
            on_top_keeps_the_rest(s.stack, Mapped { id, z: w.z, loc: at }, id);
        }
        if location(s.stack, id) is Some {
            at_bottom_keeps_the_rest(
                s.stack,
                Mapped { id, z: w.z, loc: location(s.stack, id)->0 },
                id,
            );
        }
        let loc = location(s.stack, id);
        let marked = put(
            s.windows,
            Window {
                state: WindowState {
                    minimized: true,
                    needs_thumbnail: true,
                    restore_geo: match loc {
                        Some(loc) => Some(Rect { loc, size: w.size }),
                        None => w.state.restore_geo,
                    },
                    last_pos: match loc {
                        Some(loc) => loc,
                        None => w.state.last_pos,
                    },
                    ..w.state
                },
                ..w
            },
        );
        if find(marked, id) is Some {
            let k = found_is_listed(marked, id);
        }
    }
}

/// Whether an item of the window menu did to the window at a place of the list what it says. `n`
/// is the screen that the window belongs on.
pub open spec fn did_as_it_says(s: Scene, i: int, item: MenuAction, done: Choice, n: int) -> bool {
    let w = s.windows[i];
    match item {
        MenuAction::Raise => done matches Choice::Done((after, asked)) && (stacked(s.stack, w.id)
            ==> brought_to_front(s, i, after, asked)),
        MenuAction::Lower => done matches Choice::Done((after, asked)) && (stacked(s.stack, w.id)
            ==> sent_to_back(s, i, after, asked)),
        MenuAction::Minimize => done matches Choice::Done((after, asked)) && (stacked(
            s.stack,
            w.id,
        ) && w.minimizable ==> put_away(s, i, after, asked)),
        MenuAction::Maximize => done matches Choice::Done((after, asked)) && (w.maximizable
            && w.placed && !w.state.maximized && !w.state.fullscreen && (stacked(s.stack, w.id)
            || w.state.minimized && (w.state.desk == s.active || w.state.desk == Desk::Global))
            ==> !after.windows[i].state.minimized && after.windows[i].state.maximized && exists|
            target: Rect,
        | #[trigger]
            framed_on(target, w.insets, s.screens[n]) && stands(after.stack, w.id, target.loc)
                && foremost(after.stack, w.id, w.z)),
        MenuAction::Restore => done matches Choice::Done((after, asked)) && {
            &&& w.state.minimized && (w.state.desk == s.active || w.state.desk == Desk::Global)
                ==> brought_back(s, i, after, asked)
            &&& !w.state.minimized && w.state.maximized && !w.state.fullscreen && stacked(
                s.stack,
                w.id,
            ) ==> (w.state.restore_geo matches Some(back) ==> put_at(
                after,
                asked,
                w,
                Covering::Maximized,
                false,
                back,
            ))
            &&& !w.state.minimized && !w.state.maximized ==> after == s && asked.len() == 0
        },
        MenuAction::Move => if w.state.minimized {
            done is MoveIcon
        } else {
            done is MoveWindow
        },
        MenuAction::Size => if w.state.minimized {
            done matches Choice::Done((after, asked)) && after == s && asked.len() == 0
        } else {
            done is ResizeWindow
        },
        MenuAction::Close => done matches Choice::Done((after, asked)) && after == s && asked.len()
            == 1 && asked[0] == (Effect::Close { window: w.id }),
    }
}

proof fn maximizing_what_was_minimized(s: Scene, i: int, n: int)
    requires
        tidy(s),
        s.sound(),
        listed_once(s.windows, i),
        s.windows[i].placed,
        is_at_home(s, s.windows[i], n),
        s.windows[i].maximizable,
        s.windows[i].state.minimized,
        !s.windows[i].state.maximized,
        !s.windows[i].state.fullscreen,
        s.windows[i].state.desk == s.active || s.windows[i].state.desk == Desk::Global,
    ensures
        ({
            let w = s.windows[i];
            let after = maximize(restore(s, w.id).0, w.id).0;
            &&& !after.windows[i].state.minimized
            &&& after.windows[i].state.maximized
            &&& exists|target: Rect| #[trigger]
                framed_on(target, w.insets, s.screens[n]) && stands(
                    after.stack,
                    w.id,
                    target.loc,
                ) && foremost(after.stack, w.id, w.z)
        }),
{
    let w = s.windows[i];
    a_restored_window_is_brought_back(s, i);
    settling_is_tidy(s, w.id, w.state.desk);
    restoring_is_sound(s, w.id);
    a_listed_window_is_found(s.windows, i);
    let back = restore(s, w.id).0;
    let state = WindowState {
        minimized: false,
        needs_thumbnail: false,
        has_thumbnail: false,
        ..w.state
    };
    remembering_is_at_the_index(s, i, state);
    assert(back.windows == remember(s, w, state).windows);
    assert(back.screens == s.screens);
    assert(stacked(back.stack, w.id)) by {
        let at = match w.state.restore_geo {
            Some(g) => g.loc,
            None => w.state.last_pos,
        };
        assert(stands(back.stack, w.id, at));
        let k = choose|k: int|
            0 <= k < back.stack.len() && (#[trigger] back.stack[k]).id == w.id && back.stack[k].loc
                == at;
        assert(back.stack[k].id == w.id);
    }
    a_maximized_window_fills_its_own_screen(back, i, n);
    let (after, asked) = maximize(back, w.id);
    let target = choose|target: Rect| #[trigger]
        framed_on(target, back.windows[i].insets, back.screens[n]) && put_at(
            after,
            asked,
            back.windows[i],
            Covering::Maximized,
            true,
            target,
        ) && after.windows[i].state.last_pos == target.loc;
    assert(framed_on(target, w.insets, s.screens[n]));
    a_listed_window_is_found(back.windows, i);
    assert forall|k: WindowState| #[trigger]
        remember(back, back.windows[i], k).windows[i].state == k by {
    }
}

/// Each item of the window menu does what it says, on the window that it is chosen for.
pub proof fn a_menu_item_does_what_it_says(s: Scene, i: int, item: MenuAction, n: int)
    requires
        tidy(s),
        s.sound(),
        listed_once(s.windows, i),
        is_at_home(s, s.windows[i], n),
    ensures
        did_as_it_says(s, i, item, choice(s, s.windows[i].id, item), n),
{
    let w = s.windows[i];
    a_listed_window_is_found(s.windows, i);
    located_is_stacked(s.stack, w.id);
    if stacked(s.stack, w.id) {
        assert(!w.state.minimized);
        raising_and_lowering_are_what_they_say(s, i);
        if w.minimizable {
            a_minimized_window_is_put_away(s, i);
        }
        if w.maximizable && w.placed && !w.state.maximized && !w.state.fullscreen {
            a_maximized_window_fills_its_own_screen(s, i, n);
        }
        if w.state.maximized && !w.state.fullscreen && w.state.restore_geo is Some {
            an_unmaximized_window_goes_back(s, i, w.state.restore_geo->0);
        }
    }
    if w.state.minimized {
        a_restored_window_is_brought_back(s, i);
        if w.maximizable && w.placed && !w.state.maximized && !w.state.fullscreen && (w.state.desk
            == s.active || w.state.desk == Desk::Global) {
            maximizing_what_was_minimized(s, i, n);
        }
    }
}

/// What a run of an action stands for as a choice from the menu of a window.
pub open spec fn as_chosen(run: Run, id: u64) -> Option<Choice> {
    match run {
        Run::Done(outcome) => Some(Choice::Done(outcome)),
        Run::MoveIcon(window) => if window == id {
            Some(Choice::MoveIcon)
        } else {
            None
        },
        Run::MoveWindow(window) => if window == id {
            Some(Choice::MoveWindow)
        } else {
            None
        },
        Run::ResizeWindow(window) => if window == id {
            Some(Choice::ResizeWindow)
        } else {
            None
        },
        _ => None,
    }
}

/// A key bound to an item of the window menu does to the window with the keyboard what the item
/// says, and nothing where no window has it.
pub proof fn a_bound_item_does_what_it_says(
    s: Scene,
    i: int,
    item: MenuAction,
    order: Seq<Desk>,
    n: int,
)
    requires
        tidy(s),
        s.sound(),
        listed_once(s.windows, i),
        is_at_home(s, s.windows[i], n),
    ensures
        as_chosen(
            bound_run(s, Action::Window(item), Some(s.windows[i].id), order),
            s.windows[i].id,
        ) matches Some(done) && did_as_it_says(s, i, item, done, n),
        bound_run(s, Action::Window(item), None, order) == Run::Done((s, Seq::<Effect>::empty())),
{
    a_menu_item_does_what_it_says(s, i, item, n);
}

/// The bound key that toggles maximizing maximizes the focused window where it is not, and brings
/// it back to where it was where it is.
pub proof fn toggling_turns_a_window_over(s: Scene, i: int, order: Seq<Desk>, n: int)
    requires
        tidy(s),
        s.sound(),
        shown_at(s, i),
        s.windows[i].placed,
        s.windows[i].maximizable,
        !s.windows[i].state.fullscreen,
        is_at_home(s, s.windows[i], n),
        s.windows[i].state.maximized ==> s.windows[i].state.restore_geo is Some,
    ensures
        ({
            let w = s.windows[i];
            bound_run(s, Action::MaximizeToggle, Some(w.id), order) matches Run::Done(
                (after, asked),
            ) && after.windows[i].state.maximized == !w.state.maximized && if w.state.maximized {
                put_at(after, asked, w, Covering::Maximized, false, w.state.restore_geo->0)
            } else {
                exists|target: Rect| #[trigger]
                    framed_on(target, w.insets, s.screens[n]) && put_at(
                        after,
                        asked,
                        w,
                        Covering::Maximized,
                        true,
                        target,
                    )
            }
        }),
{
    let w = s.windows[i];
    a_listed_window_is_found(s.windows, i);
    if w.state.maximized {
        an_unmaximized_window_goes_back(s, i, w.state.restore_geo->0);
    } else {
        a_maximized_window_fills_its_own_screen(s, i, n);
    }
}

/// The keys for desks are for the desk at that place of the order: one shows it, one takes the
/// focused window there. A place that there is none at does nothing.
pub proof fn a_desk_key_is_for_that_desk(
    s: Scene,
    id: u64,
    order: Seq<Desk>,
    index: usize,
)
    ensures
        ({
            let shown = bound_run(s, Action::SwitchDesk(index), Some(id), order);
            let sent = bound_run(s, Action::MoveToDesk(index), Some(id), order);
            if index < order.len() {
                &&& shown == Run::SwitchDesk(order[index as int])
                &&& sent == Run::Done(move_to_desk(s, id, order[index as int]))
            } else {
                &&& shown == Run::Done((s, Seq::<Effect>::empty()))
                &&& sent == Run::Done((s, Seq::<Effect>::empty()))
            }
        }),
        bound_run(s, Action::MoveToDesk(index), None, order) == Run::Done(
            (s, Seq::<Effect>::empty()),
        ),
{
}

proof fn restoring_another_changes_nothing_here(s: Scene, other: u64, i: int)
    requires
        listed_once(s.windows, i),
    ensures
        listed_once(restore(s, other).0.windows, i),
        restore(s, other).0.windows[i].id == s.windows[i].id,
        other != s.windows[i].id ==> restore(s, other).0.windows[i] == s.windows[i],
        other == s.windows[i].id ==> !restore(s, other).0.windows[i].state.minimized,
        !s.windows[i].state.minimized ==> !restore(s, other).0.windows[i].state.minimized,
{
    let after = restore(s, other).0;
    if find(s.windows, other) is Some {
        let k = found_is_listed(s.windows, other);
        a_listed_window_is_found(s.windows, i);
        assert forall|j: int| 0 <= j < after.windows.len() && j != i implies (
        #[trigger] after.windows[j]).id != after.windows[i].id by {
            assert(s.windows[j].id != s.windows[i].id);
        }
    } else if other == s.windows[i].id {
        a_listed_window_is_found(s.windows, i);
    }
}

proof fn restoring_each_restores(s: Scene, ids: Seq<u64>, i: int)
    requires
        listed_once(s.windows, i),
    ensures
        listed_once(restore_each(s, ids).0.windows, i),
        restore_each(s, ids).0.windows[i].id == s.windows[i].id,
        ids.contains(s.windows[i].id) || !s.windows[i].state.minimized ==> !restore_each(
            s,
            ids,
        ).0.windows[i].state.minimized,
    decreases ids.len(),
{
    if ids.len() > 0 {
        let fewer = ids.drop_last();
        restoring_each_restores(s, fewer, i);
        let before = restore_each(s, fewer).0;
        restoring_another_changes_nothing_here(before, ids.last(), i);
        if ids.contains(s.windows[i].id) && ids.last() != s.windows[i].id {
            let k = ids.index_of(s.windows[i].id);
            assert(fewer[k] == s.windows[i].id);
        }
    }
}

proof fn minimized_ones_are_picked(s: Scene, ids: Seq<u64>, i: int)
    requires
        listed_once(s.windows, i),
        s.windows[i].state.minimized,
        ids.contains(s.windows[i].id),
    ensures
        minimized_of(s, ids).contains(s.windows[i].id),
    decreases ids.len(),
{
    let id = s.windows[i].id;
    let fewer = ids.drop_last();
    let before = minimized_of(s, fewer);
    a_listed_window_is_found(s.windows, i);
    if ids.last() == id {
        assert(before.push(id)[before.len() as int] == id);
    } else {
        let k = ids.index_of(id);
        assert(fewer[k] == id);
        minimized_ones_are_picked(s, fewer, i);
        let m = before.index_of(id);
        assert(minimized_of(s, ids)[m] == id);
    }
}

/// Restoring all leaves no window minimized that is held aside so.
pub proof fn restoring_all_leaves_none_minimized(
    s: Scene,
    i: int,
    focused: Option<u64>,
    order: Seq<Desk>,
)
    requires
        listed_once(s.windows, i),
        s.hidden.contains(s.windows[i].id),
    ensures
        bound_run(s, Action::RestoreAll, focused, order) matches Run::Done((after, asked))
            && !after.windows[i].state.minimized,
{
    if s.windows[i].state.minimized {
        minimized_ones_are_picked(s, s.hidden, i);
    }
    restoring_each_restores(s, minimized_of(s, s.hidden), i);
}

/// Whether an operation left everything as it was and asked for nothing.
pub open spec fn left_alone(s: Scene, outcome: (Scene, Seq<Effect>)) -> bool {
    outcome.0 == s && outcome.1.len() == 0
}

/// What a window will not have done to it is not done, and nor is what is done already or what
/// there is nothing to undo of.
pub proof fn a_window_is_left_as_it_wants(s: Scene, i: int, named: Option<Screen>)
    requires
        listed_once(s.windows, i),
    ensures
        ({
            let w = s.windows[i];
            &&& w.state.maximized ==> left_alone(s, maximize(s, w.id))
            &&& !w.maximizable && !w.state.fullscreen ==> left_alone(s, maximize(s, w.id))
            &&& !w.state.maximized && !w.state.fullscreen ==> left_alone(s, unmaximize(s, w.id))
            &&& w.state.fullscreen ==> left_alone(s, fullscreen(s, w.id, named))
            &&& !w.state.fullscreen ==> left_alone(s, unfullscreen(s, w.id))
            &&& !w.minimizable || w.state.minimized ==> left_alone(s, minimize(s, w.id))
            &&& !w.state.minimized ==> left_alone(s, restore(s, w.id))
        }),
{
    a_listed_window_is_found(s.windows, i);
}

/// A window that is not listed is not touched by anything.
pub proof fn an_unknown_window_is_not_touched(
    s: Scene,
    id: u64,
    named: Option<Screen>,
    target: Desk,
)
    requires
        forall|j: int| 0 <= j < s.windows.len() ==> (#[trigger] s.windows[j]).id != id,
    ensures
        left_alone(s, maximize(s, id)),
        left_alone(s, unmaximize(s, id)),
        left_alone(s, fullscreen(s, id, named)),
        left_alone(s, unfullscreen(s, id)),
        left_alone(s, minimize(s, id)),
        left_alone(s, restore(s, id)),
        left_alone(s, move_to_desk(s, id, target)),
{
    an_unlisted_window_is_not_found(s.windows, id);
}

/// A fullscreen window that is maximized or no longer maximized stays as it is on screen: only what
/// it goes back to later changes.
pub proof fn a_fullscreen_window_is_only_marked(s: Scene, i: int)
    requires
        listed_once(s.windows, i),
        s.windows[i].state.fullscreen,
    ensures
        ({
            let w = s.windows[i];
            let (on, asked_on) = maximize(s, w.id);
            let (off, asked_off) = unmaximize(s, w.id);
            &&& on.windows[i] == (Window {
                state: WindowState { maximized: true, ..w.state },
                ..w
            })
            &&& off.windows[i] == (Window {
                state: WindowState { maximized: false, ..w.state },
                ..w
            })
            &&& on.stack == s.stack && off.stack == s.stack
            &&& on.hidden == s.hidden && off.hidden == s.hidden
            &&& forall|k: int| 0 <= k < asked_on.len() ==> (#[trigger] asked_on[k]) is DesksChanged
            &&& forall|k: int| 0 <= k < asked_off.len() ==> (#[trigger] asked_off[k]) is DesksChanged
        }),
{
    let w = s.windows[i];
    a_listed_window_is_found(s.windows, i);
    remembering_is_at_the_index(s, i, WindowState { maximized: true, ..w.state });
    remembering_is_at_the_index(s, i, WindowState { maximized: false, ..w.state });
    if w.state.maximized {
        assert(w == (Window { state: WindowState { maximized: true, ..w.state }, ..w }));
    }
}

/// A binding that is not for a window is for what it names, whatever has the keyboard; one that is
/// for a window does nothing where no window has it.
pub proof fn a_binding_runs_what_it_names(
    s: Scene,
    action: Action,
    focused: Option<u64>,
    order: Seq<Desk>,
)
    ensures
        ({
            let run = bound_run(s, action, focused, order);
            &&& run is Quit <==> action is Quit
            &&& run is CycleLayout <==> action is CycleLayout
            &&& run is CreateDesk <==> action is CreateDesk
            &&& run is DeleteDesk <==> action is DeleteDesk
            &&& action matches Action::Screenshot(mode) ==> run == Run::Screenshot(mode)
            &&& run is Screenshot ==> action is Screenshot
            &&& run is SwitchDesk ==> action is SwitchDesk
            &&& !(run is SwitchVt)
            &&& focused is None && (action is Window || action is MaximizeToggle
                || action is MoveToDesk) ==> (run matches Run::Done(outcome) && left_alone(
                s,
                outcome,
            ))
        }),
{
}

} // verus!

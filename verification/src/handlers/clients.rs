//! The small things that clients ask: a cursor, a pointer of their own, to be raised.
use vstd::prelude::*;

use crate::geometry::Point;
use crate::stacking::{
    a_stacked_window_is_located, banded, each_once, foremost, located_is_stacked,
    on_top_is_foremost, on_top_keeps_the_rest, stacked, stands,
};
use crate::state::{
    a_listed_window_is_found, find, listed_once, location, on_top, without, Effect, Mapped, Scene,
    Shell, Wlrix,
};

verus! {

/// Who decides what the pointer looks like.
#[derive(Debug, Clone, Copy, PartialEq, Eq)]
pub struct CursorState {
    /// The picture a move or resize shows while it runs.
    pub grab: Option<u64>,
    /// The picture that is current.
    pub status: u64,
    /// Whether the compositor's own chrome set it.
    pub from_chrome: bool,
}

impl CursorState {
    /// A client set or hid its cursor. A move or resize keeps the pointer while it runs;
    /// otherwise the client's picture is current, and the chrome no longer owns it.
    pub fn cursor_image(&mut self, image: u64)
        ensures
            *final(self) == if old(self).grab is Some {
                *old(self)
            } else {
                CursorState { grab: None, status: image, from_chrome: false }
            },
    {
        if self.grab.is_some() {
            return ;
        }
        self.status = image;
        self.from_chrome = false;
    }
}

/// Whether a constraint on the pointer is honored: only while the pointer is over the surface
/// that asks for it.
pub fn honors_constraint(focus: Option<u64>, surface: u64) -> (r: bool)
    ensures
        r == (focus == Some(surface)),
{
    match focus {
        Some(held) => held == surface,
        None => false,
    }
}

/// Whether a buffer is accepted: where there is a renderer to try it with, only if it took it.
pub fn accepts_buffer(tried: Option<bool>) -> (r: bool)
    ensures
        r == (tried != Some(false)),
{
    match tried {
        Some(took) => took,
        None => true,
    }
}

/// The scene with a window that asked to be raised above the others.
pub open spec fn activated(s: Scene, id: u64) -> (Scene, Seq<Effect>) {
    match (find(s.windows, id), location(s.stack, id)) {
        (Some(w), Some(loc)) => if w.shell == Shell::Wayland {
            (
                Scene { stack: on_top(s.stack, Mapped { id, z: w.z, loc }), ..s },
                seq![Effect::Raise { window: id, activate: true }, Effect::Redraw],
            )
        } else {
            (s, Seq::empty())
        },
        _ => (s, Seq::empty()),
    }
}

impl Wlrix {
    /// A window asks to be activated: it is raised rather than given the keyboard.
    pub fn request_activation(&mut self, id: u64) -> (effects: Vec<Effect>)
        ensures
            (final(self)@, effects@) == activated(old(self)@, id),
    {
        let mut effects: Vec<Effect> = Vec::new();
        if let Some(w) = self.window(id) {
            if let Some(loc) = self.element_location(id) {
                if w.shell == Shell::Wayland {
                    self.map_on_top(Mapped { id, z: w.z, loc });
                    effects.push(Effect::Raise { window: id, activate: true });
                    effects.push(Effect::Redraw);
                    assert(effects@ =~= activated(old(self)@, id).1);
                }
            }
        }
        effects
    }
}

/// A window that asks to be activated comes to the front of its band where it stands, and does not
/// get the keyboard for it; the others stay as they were. An X11 window, and one that is not on
/// screen, is left where it is.
pub proof fn an_activated_window_comes_to_the_front(s: Scene, i: int)
    requires
        each_once(s.stack),
        banded(s.stack),
        listed_once(s.windows, i),
    ensures
        ({
            let w = s.windows[i];
            let (after, asked) = activated(s, w.id);
            let comes = w.shell == Shell::Wayland && stacked(s.stack, w.id);
            &&& comes ==> foremost(after.stack, w.id, w.z)
            &&& comes ==> forall|at: Point| #[trigger]
                stands(s.stack, w.id, at) ==> stands(after.stack, w.id, at)
            &&& comes ==> asked.contains(Effect::Raise { window: w.id, activate: true })
            &&& forall|k: int| 0 <= k < asked.len() ==> !((#[trigger] asked[k]) is Focus)
            &&& without(after.stack, w.id) == without(s.stack, w.id)
            &&& after.windows == s.windows && after.hidden == s.hidden
            &&& !comes ==> after == s && asked.len() == 0
        }),
{
    let w = s.windows[i];
    let (after, asked) = activated(s, w.id);
    a_listed_window_is_found(s.windows, i);
    located_is_stacked(s.stack, w.id);
    if w.shell == Shell::Wayland && stacked(s.stack, w.id) {
        let loc = location(s.stack, w.id)->0;
        on_top_is_foremost(s.stack, Mapped { id: w.id, z: w.z, loc });
        on_top_keeps_the_rest(s.stack, Mapped { id: w.id, z: w.z, loc }, w.id);
        assert(asked[0] == (Effect::Raise { window: w.id, activate: true }));
        assert forall|at: Point| #[trigger] stands(s.stack, w.id, at) implies stands(
            after.stack,
            w.id,
            at,
        ) by {
            let k = choose|k: int|
                0 <= k < s.stack.len() && (#[trigger] s.stack[k]).id == w.id && s.stack[k].loc
                    == at;
            a_stacked_window_is_located(s.stack, k);
        }
    }
}

/// A constraint is honored for the surface that the pointer is over, and for no other.
pub proof fn a_constraint_is_for_the_surface_under_the_pointer(
    focus: Option<u64>,
    surface: u64,
    honored: bool,
)
    requires
        call_ensures(honors_constraint, (focus, surface), honored),
    ensures
        focus is None ==> !honored,
        focus is Some ==> honored == (focus->0 == surface),
{
}

/// Only a buffer that the renderer tried and did not take is refused.
pub proof fn a_buffer_is_refused_only_by_the_renderer(tried: Option<bool>, accepted: bool)
    requires
        call_ensures(accepts_buffer, (tried,), accepted),
    ensures
        tried is None ==> accepted,
        tried is Some ==> accepted == tried->0,
{
}

} // verus!

//! What the compositor makes of input: which keys it keeps from clients and what they do, where a
//! press goes, and how a scroll is handed on.
use vstd::prelude::*;

use crate::state::{find, screen_under, Desk, Wlrix, Effect, Scene, Screen};
use crate::geometry::{Point, Rect, Spot};
use crate::icons::{awaits_click, can_count, icon_at};
use crate::keybinds::{pressed, Action, Bindings, Modifiers, ShotMode};
use crate::menu::{choice, panel_of, Choice, Chosen, MenuAction};
use crate::placement::{
    absolute_position, across, clamp_to_outputs, kept_on_screen, layout, layout_fits, within_reach,
};
use crate::session_lock::{Lock, LockState};
use crate::window_ops::{
    countable, focused_of, maximize, minimized_of, move_to_desk, restore_each, unmaximize, Outcome,
};

verus! {

/// The key that switches to the first virtual terminal.
pub const KEY_SWITCH_VT_1: u32 = 0x1008fe01;

/// The key that switches to the last one that has a key.
pub const KEY_SWITCH_VT_12: u32 = 0x1008fe0c;

/// The virtual terminal that a keysym switches to.
pub open spec fn terminal_of(sym: u32) -> Option<i32> {
    if KEY_SWITCH_VT_1 <= sym <= KEY_SWITCH_VT_12 {
        Some((sym - KEY_SWITCH_VT_1 + 1) as i32)
    } else {
        None
    }
}

/// The virtual terminal that a keysym switches to, if it is one that does.
pub fn switch_vt(sym: u32) -> (vt: Option<i32>)
    ensures
        vt == terminal_of(sym),
{
    if KEY_SWITCH_VT_1 <= sym && sym <= KEY_SWITCH_VT_12 {
        Some((sym - KEY_SWITCH_VT_1 + 1) as i32)
    } else {
        None
    }
}

/// What becomes of a key.
#[derive(Debug, Clone, Copy, PartialEq, Eq, Structural)]
pub enum Filtered {
    /// It goes to the client.
    Forward,
    /// It switches the virtual terminal, which no binding takes away.
    SwitchVt(i32),
    /// It runs what it is bound to.
    Run(Action),
}

/// What becomes of a key: switching terminals comes before the bindings, and a key that is let go
/// or is bound to nothing goes to the client.
pub fn filter_key(
    is_pressed: bool,
    mods: &Modifiers,
    modified: u32,
    raw: Option<u32>,
    bindings: &Bindings,
) -> (filtered: Filtered)
    ensures
        filtered == key_fate(is_pressed, *mods, modified, raw, *bindings),
{
    if !is_pressed {
        return Filtered::Forward;
    }
    if let Some(vt) = switch_vt(modified) {
        return Filtered::SwitchVt(vt);
    }
    match bindings.action(mods, modified, raw) {
        Some(action) => Filtered::Run(action),
        None => Filtered::Forward,
    }
}

/// What running an action comes to.
#[derive(Debug, PartialEq, Eq)]
pub enum Ran {
    /// The desktop changed, and this is asked of the outside.
    Done(Vec<Effect>),
    SwitchVt(i32),
    Quit,
    CycleLayout,
    SwitchDesk(Desk),
    CreateDesk,
    DeleteDesk,
    Screenshot(ShotMode),
    /// A gesture on the focused window starts.
    MoveIcon(u64),
    MoveWindow(u64),
    ResizeWindow(u64),
}

/// What running an action stands for.
pub ghost enum Run {
    Done(Outcome),
    SwitchVt(i32),
    Quit,
    CycleLayout,
    SwitchDesk(Desk),
    CreateDesk,
    DeleteDesk,
    Screenshot(ShotMode),
    MoveIcon(u64),
    MoveWindow(u64),
    ResizeWindow(u64),
}

/// Whether what was run is what it stands for; what is not done on the desktop leaves it alone.
pub open spec fn ran_as(ran: Ran, run: Run, before: Scene, after: Scene) -> bool {
    match (ran, run) {
        (Ran::Done(effects), Run::Done(outcome)) => (after, effects@) == outcome,
        (Ran::SwitchVt(a), Run::SwitchVt(b)) => a == b && after == before,
        (Ran::Quit, Run::Quit) => after == before,
        (Ran::CycleLayout, Run::CycleLayout) => after == before,
        (Ran::SwitchDesk(a), Run::SwitchDesk(b)) => a == b && after == before,
        (Ran::CreateDesk, Run::CreateDesk) => after == before,
        (Ran::DeleteDesk, Run::DeleteDesk) => after == before,
        (Ran::Screenshot(a), Run::Screenshot(b)) => a == b && after == before,
        (Ran::MoveIcon(a), Run::MoveIcon(b)) => a == b && after == before,
        (Ran::MoveWindow(a), Run::MoveWindow(b)) => a == b && after == before,
        (Ran::ResizeWindow(a), Run::ResizeWindow(b)) => a == b && after == before,
        _ => false,
    }
}

pub open spec fn nothing(s: Scene) -> Run {
    Run::Done((s, Seq::empty()))
}

/// Switching to the desk at an index of the desk order, if there is one.
pub open spec fn desk_switch(s: Scene, order: Seq<Desk>, index: usize) -> Run {
    if index < order.len() {
        Run::SwitchDesk(order[index as int])
    } else {
        nothing(s)
    }
}

/// Moving the focused window to the desk at an index of the desk order.
pub open spec fn desk_move(s: Scene, focused: Option<u64>, order: Seq<Desk>, index: usize) -> Run {
    if focused is Some && index < order.len() {
        Run::Done(move_to_desk(s, focused->0, order[index as int]))
    } else {
        nothing(s)
    }
}

/// Maximizing the focused window, or un-maximizing it if it already is.
pub open spec fn toggled(s: Scene, focused: Option<u64>) -> Run {
    match focused {
        Some(id) => if find(s.windows, id) matches Some(w) && w.state.maximized {
            Run::Done(unmaximize(s, id))
        } else {
            Run::Done(maximize(s, id))
        },
        None => nothing(s),
    }
}

/// What a bound action runs: a menu item runs on the focused window.
pub open spec fn bound_run(s: Scene, action: Action, focused: Option<u64>, order: Seq<Desk>) -> Run {
    match action {
        Action::Window(item) => match focused {
            Some(id) => match choice(s, id, item) {
                Choice::Done(outcome) => Run::Done(outcome),
                Choice::MoveIcon => Run::MoveIcon(id),
                Choice::MoveWindow => Run::MoveWindow(id),
                Choice::ResizeWindow => Run::ResizeWindow(id),
            },
            None => nothing(s),
        },
        Action::MaximizeToggle => toggled(s, focused),
        Action::RestoreAll => Run::Done(restore_each(s, minimized_of(s, s.hidden))),
        Action::SwitchDesk(index) => desk_switch(s, order, index),
        Action::MoveToDesk(index) => desk_move(s, focused, order, index),
        Action::CreateDesk => Run::CreateDesk,
        Action::DeleteDesk => Run::DeleteDesk,
        Action::CycleLayout => Run::CycleLayout,
        Action::Screenshot(mode) => Run::Screenshot(mode),
        Action::Quit => Run::Quit,
    }
}

impl Wlrix {
    fn move_to(&mut self, focused: Option<u64>, order: &[Desk], index: usize) -> (ran: Ran)
        ensures
            ran_as(
                ran,
                desk_move(old(self)@, focused, order@, index),
                old(self)@,
                final(self)@,
            ),
    {
        if let Some(id) = focused {
            if index < order.len() {
                return Ran::Done(self.move_window_to_desk(id, order[index]));
            }
        }
        Ran::Done(Vec::new())
    }

    fn toggle_focused(&mut self, focused: Option<u64>) -> (ran: Ran)
        requires
            old(self)@.sound(),
        ensures
            ran_as(ran, toggled(old(self)@, focused), old(self)@, final(self)@),
    {
        match focused {
            Some(id) => Ran::Done(self.toggle_maximize_window(id)),
            None => Ran::Done(Vec::new()),
        }
    }

    /// Runs a bound action; `focused` is the window with the keyboard, `order` the desks in their
    /// order.
    pub fn run_action(&mut self, action: Action, focused: Option<u64>, order: &[Desk]) -> (ran: Ran)
        requires
            old(self)@.sound(),
            countable(old(self)@),
        ensures
            ran_as(
                ran,
                bound_run(old(self)@, action, focused, order@),
                old(self)@,
                final(self)@,
            ),
    {
        match action {
            Action::Window(item) => match focused {
                Some(id) => match self.activate_menu_action(id, item) {
                    Chosen::Done(effects) => Ran::Done(effects),
                    Chosen::MoveIcon => Ran::MoveIcon(id),
                    Chosen::MoveWindow => Ran::MoveWindow(id),
                    Chosen::ResizeWindow => Ran::ResizeWindow(id),
                },
                None => Ran::Done(Vec::new()),
            },
            Action::MaximizeToggle => self.toggle_focused(focused),
            Action::RestoreAll => Ran::Done(self.restore_all_minimized()),
            Action::SwitchDesk(index) => {
                if index < order.len() {
                    Ran::SwitchDesk(order[index])
                } else {
                    Ran::Done(Vec::new())
                }
            },
            Action::MoveToDesk(index) => self.move_to(focused, order, index),
            Action::CreateDesk => Ran::CreateDesk,
            Action::DeleteDesk => Ran::DeleteDesk,
            Action::CycleLayout => Ran::CycleLayout,
            Action::Screenshot(mode) => Ran::Screenshot(mode),
            Action::Quit => Ran::Quit,
        }
    }

    /// The first screen that a spot's nearest pixel is on, with its geometry.
    pub fn output_at(&self, s: Spot) -> (screen: Option<(Screen, Rect)>)
        ensures
            screen == screen_at(self@.screens, s.pixel()),
    {
        let p = s.to_i32_round();
        let mut i: usize = 0;
        while i < self.screens.len()
            invariant
                i <= self.screens@.len(),
                screen_at(self.screens@.take(i as int), p) is None,
                p == s.pixel(),
            decreases self.screens.len() - i,
        {
            let screen = self.screens[i];
            i += 1;
            assert(self.screens@.take(i as int).drop_last() =~= self.screens@.take(i - 1));
            if let Some(geometry) = screen.geometry {
                if geometry.contains(p) {
                    proof {
                        screen_at_skips(self.screens@, p, i as int);
                    }
                    return Some((screen, geometry));
                }
            }
        }
        assert(self.screens@.take(self.screens@.len() as int) =~= self.screens@);
        None
    }
}

/// The first screen that a pixel is on, with its geometry.
pub open spec fn screen_at(screens: Seq<Screen>, p: Point) -> Option<(Screen, Rect)>
    decreases screens.len(),
{
    if screens.len() == 0 {
        None
    } else {
        match screen_at(screens.drop_last(), p) {
            Some(found) => Some(found),
            None => if screens.last().geometry matches Some(g) && g.holds(p) {
                Some((screens.last(), screens.last().geometry->0))
            } else {
                None
            },
        }
    }
}

proof fn screen_at_skips(screens: Seq<Screen>, p: Point, upto: int)
    requires
        0 <= upto <= screens.len(),
        screen_at(screens.take(upto), p) is Some,
    ensures
        screen_at(screens, p) == screen_at(screens.take(upto), p),
    decreases screens.len(),
{
    if upto == screens.len() {
        assert(screens.take(upto) =~= screens);
    } else {
        assert(screens.drop_last().take(upto) =~= screens.take(upto));
        screen_at_skips(screens.drop_last(), p, upto);
    }
}

/// A surface that the pointer is over.
#[derive(Debug, Clone, Copy, PartialEq, Eq)]
pub struct Hit {
    pub surface: u64,
    /// Where the surface lies in the window or the layer surface that it is part of.
    pub offset: Point,
    /// The corner of that window on the desktop, or of that layer surface on its output.
    pub loc: Point,
}

/// A surface that the pointer is over, if any, on each layer and among the windows.
#[derive(Debug, Clone, Copy, PartialEq, Eq)]
pub struct Hits {
    pub overlay: Option<Hit>,
    pub top: Option<Hit>,
    pub window: Option<Hit>,
    pub bottom: Option<Hit>,
    pub background: Option<Hit>,
}

/// A surface and where it lies on the desktop; `corner` is what its window or layer surface is
/// placed against.
pub open spec fn lying(hit: Option<Hit>, corner: Point) -> Option<(u64, Spot)> {
    match hit {
        Some(hit) => Some(
            (
                hit.surface,
                Spot {
                    x: ((hit.offset.x + hit.loc.x + corner.x) * 256) as i64,
                    y: ((hit.offset.y + hit.loc.y + corner.y) * 256) as i64,
                },
            ),
        ),
        None => None,
    }
}

/// What the pointer is over and where that is: in a locked session what `lock` gives; off every
/// output a window alone; else the first of the overlay, the top layer, the windows, the bottom
/// layer and the background. `output` is the geometry of the output.
pub open spec fn topmost(
    locked: bool,
    lock: Option<(u64, Spot)>,
    output: Option<Rect>,
    hits: Hits,
) -> Option<(u64, Spot)> {
    let origin = Point { x: 0, y: 0 };
    if locked {
        lock
    } else {
        match output {
            None => lying(hits.window, origin),
            Some(output) => if hits.overlay is Some {
                lying(hits.overlay, output.loc)
            } else if hits.top is Some {
                lying(hits.top, output.loc)
            } else if hits.window is Some {
                lying(hits.window, origin)
            } else if hits.bottom is Some {
                lying(hits.bottom, output.loc)
            } else {
                lying(hits.background, output.loc)
            },
        }
    }
}

/// The geometry of the first screen that a spot's nearest pixel is on.
pub open spec fn geometry_at(screens: Seq<Screen>, at: Spot) -> Option<Rect> {
    match screen_at(screens, at.pixel()) {
        Some((_, geometry)) => Some(geometry),
        None => None,
    }
}

fn lying_at(hit: Option<Hit>, corner: Point) -> (place: Option<(u64, Spot)>)
    ensures
        place == lying(hit, corner),
{
    match hit {
        Some(hit) => Some(
            (
                hit.surface,
                Spot {
                    x: (hit.offset.x as i64 + hit.loc.x as i64 + corner.x as i64) * 256,
                    y: (hit.offset.y as i64 + hit.loc.y as i64 + corner.y as i64) * 256,
                },
            ),
        ),
        None => None,
    }
}

/// The name of a screen, in a list of names by screen.
pub open spec fn name_of(names: Seq<(u64, String)>, id: u64) -> Option<Seq<char>>
    decreases names.len(),
{
    if names.len() == 0 {
        None
    } else if names[0].0 == id {
        Some(names[0].1@)
    } else {
        name_of(names.skip(1), id)
    }
}

/// A spot as seen from a corner.
pub open spec fn seen_from(corner: Point, at: Spot) -> Spot {
    Spot { x: (at.x - corner.x * 256) as i64, y: (at.y - corner.y * 256) as i64 }
}

/// The lock surface of the last screen that a spot is on, and the spot as seen from it; the
/// surface covers its screen exactly.
pub open spec fn lock_under(s: Scene, lock: Lock, names: Seq<(u64, String)>, at: Spot) -> Option<
    (u64, Spot),
> {
    match screen_under(s.screens, at) {
        Some(screen) => match name_of(names, screen.id) {
            Some(name) => if lock.surfaces.dom().contains(name) {
                Some((lock.surfaces[name], seen_from(screen.corner(), at)))
            } else {
                None
            },
            None => None,
        },
        None => None,
    }
}

proof fn screen_under_holds(screens: Seq<Screen>, at: Spot)
    requires
        screen_under(screens, at) is Some,
    ensures
        screen_under(screens, at)->0.geometry matches Some(g) && g.holds_spot(at),
    decreases screens.len(),
{
    if !(screens.last().geometry matches Some(g) && g.holds_spot(at)) {
        screen_under_holds(screens.drop_last(), at);
    }
}

impl Wlrix {
    fn lock_under(&self, lock: &LockState, names: &[(u64, String)], at: Spot) -> (hit: Option<
        (u64, Spot),
    >)
        ensures
            hit == lock_under(self@, lock@, names@, at),
    {
        let screen = match self.screen_at_spot(at) {
            Some(screen) => screen,
            None => {
                return None;
            },
        };
        proof {
            screen_under_holds(self@.screens, at);
        }
        let geometry = match screen.geometry {
            Some(geometry) => geometry,
            None => {
                return None;
            },
        };
        let mut i: usize = 0;
        assert(names@.skip(0) =~= names@);
        while i < names.len()
            invariant
                i <= names@.len(),
                screen_under(self@.screens, at) == Some(screen),
                screen.geometry == Some(geometry),
                geometry.holds_spot(at),
                name_of(names@.skip(i as int), screen.id) == name_of(names@, screen.id),
            decreases names.len() - i,
        {
            if names[i].0 == screen.id {
                return lock.surface_under(Some((&names[i].1, geometry)), at);
            }
            assert(names@.skip(i as int).skip(1) =~= names@.skip(i + 1));
            i += 1;
        }
        None
    }

    /// What the pointer is over at a spot, front to back, and where that lies on the desktop:
    /// `hits` is what each layer has there, `names` the names of the outputs. A locked session
    /// routes the pointer to the locker alone; with its surface comes the spot as seen from it.
    pub fn surface_under(
        &self,
        lock: &LockState,
        names: &[(u64, String)],
        at: Spot,
        hits: &Hits,
    ) -> (under: Option<(u64, Spot)>)
        ensures
            under == topmost(
                lock@.locked,
                lock_under(self@, lock@, names@, at),
                geometry_at(self@.screens, at),
                *hits,
            ),
    {
        if lock.is_locked() {
            return self.lock_under(lock, names, at);
        }
        let origin = Point { x: 0, y: 0 };
        let corner = match self.output_at(at) {
            Some((_, geometry)) => geometry.loc,
            None => {
                return lying_at(hits.window, origin);
            },
        };
        if hits.overlay.is_some() {
            return lying_at(hits.overlay, corner);
        }
        if hits.top.is_some() {
            return lying_at(hits.top, corner);
        }
        if hits.window.is_some() {
            return lying_at(hits.window, origin);
        }
        if hits.bottom.is_some() {
            return lying_at(hits.bottom, corner);
        }
        lying_at(hits.background, corner)
    }
}

/// In a locked session the pointer reaches nothing but the lock screen.
pub proof fn a_locked_session_is_out_of_reach(
    s: Scene,
    lock: Lock,
    names: Seq<(u64, String)>,
    at: Spot,
    hits: Hits,
)
    requires
        lock.locked,
    ensures
        ({
            let under = lock_under(s, lock, names, at);
            let reached = topmost(lock.locked, under, geometry_at(s.screens, at), hits);
            &&& reached == under
            &&& reached matches Some((surface, _)) ==> lock.surfaces.values().contains(surface)
        }),
{
    if let Some(screen) = screen_under(s.screens, at) {
        if let Some(name) = name_of(names, screen.id) {
            if lock.surfaces.dom().contains(name) {
                assert(lock.surfaces.values().contains(lock.surfaces[name]));
            }
        }
    }
}

/// The buttons that the desktop itself reacts to.
pub const BTN_LEFT: u32 = 0x110;

pub const BTN_RIGHT: u32 = 0x111;

/// The open menu under a press.
#[derive(Debug, Clone, Copy, PartialEq, Eq, Structural)]
pub struct MenuHit {
    pub window: u64,
    /// Whether the press is on the panel.
    pub on_menu: bool,
    /// The item that it would choose.
    pub chosen: Option<MenuAction>,
}

/// The window under a press, and whether it takes focus at all.
#[derive(Debug, Clone, Copy, PartialEq, Eq, Structural)]
pub struct WindowHit {
    pub window: u64,
    pub focusable: bool,
}

/// A press or a release, and what clients have where the pointer is.
#[derive(Debug, Clone, Copy, PartialEq, Eq)]
pub struct Press {
    pub pressed: bool,
    pub button: u32,
    pub grabbed: bool,
    /// Whether the session is locked.
    pub locked: bool,
    /// Whether an overlay- or top-layer surface is under it.
    pub layer_covers: bool,
    /// The layer surface under it that takes the keyboard.
    pub focusable_layer: Option<u64>,
    /// The window whose frame is under it.
    pub frame: Option<u64>,
    pub window: Option<WindowHit>,
    pub raise_on_click: bool,
}

/// What a press or a release finds.
#[derive(Debug, Clone, Copy, PartialEq, Eq)]
pub struct ButtonFacts {
    pub pressed: bool,
    pub button: u32,
    pub grabbed: bool,
    /// Whether the session is locked.
    pub locked: bool,
    /// Whether a tile waits for a click to be put down.
    pub icon_awaits_click: bool,
    pub menu: Option<MenuHit>,
    /// Whether an overlay- or top-layer surface is under it.
    pub layer_covers: bool,
    /// The layer surface under it that takes the keyboard.
    pub focusable_layer: Option<u64>,
    /// The window whose frame is under it.
    pub frame: Option<u64>,
    pub window: Option<WindowHit>,
    pub icon: Option<u64>,
    pub raise_on_click: bool,
}

/// A step in answering a press or a release.
#[derive(Debug, Clone, Copy, PartialEq, Eq, Structural)]
pub enum Step {
    DropIcon,
    CloseMenu,
    Choose { window: u64, action: MenuAction },
    FocusLayer(u64),
    PressFrame(u64),
    FocusAndRaise(u64),
    FocusInPlace(u64),
    PressIcon(u64),
    OpenIconMenu(u64),
    ClearFocus,
    ReleaseFrame,
    ReleaseIcon,
    /// Hand the event to the client, set the cursor and draw again.
    Deliver,
}

/// The open menu, and what of it is under the pointer.
pub open spec fn menu_hit(s: Scene) -> Option<MenuHit> {
    match s.window_menu {
        Some(menu) => Some(
            MenuHit {
                window: menu.window,
                on_menu: panel_of(menu.entries@, menu.origin, menu.width).holds_spot(s.pointer),
                chosen: match menu.choosable(s.pointer) {
                    Some(i) => menu.entries@[i].action,
                    None => None,
                },
            },
        ),
        None => None,
    }
}

/// What a press or a release finds on the desktop, with what it finds of clients. A tile is only
/// looked for where no window is.
pub open spec fn found_by(s: Scene, press: Press) -> ButtonFacts {
    ButtonFacts {
        pressed: press.pressed,
        button: press.button,
        grabbed: press.grabbed,
        locked: press.locked,
        icon_awaits_click: awaits_click(s),
        menu: menu_hit(s),
        layer_covers: press.layer_covers,
        focusable_layer: press.focusable_layer,
        frame: press.frame,
        window: press.window,
        icon: if press.pressed && press.window is None {
            icon_at(s, s.pointer)
        } else {
            None
        },
        raise_on_click: press.raise_on_click,
    }
}

/// What a press comes to where no window is under it.
pub open spec fn press_on_desktop(f: ButtonFacts) -> Seq<Step> {
    match f.icon {
        Some(window) => if f.button == BTN_LEFT {
            seq![Step::PressIcon(window)]
        } else if f.button == BTN_RIGHT {
            seq![Step::OpenIconMenu(window)]
        } else {
            Seq::empty()
        },
        None => match f.focusable_layer {
            Some(surface) => seq![Step::FocusLayer(surface)],
            None => seq![Step::ClearFocus],
        },
    }
}

/// What a press comes to below an open menu.
pub open spec fn press_below_menu(f: ButtonFacts) -> Seq<Step> {
    if f.layer_covers {
        (match f.focusable_layer {
            Some(surface) => seq![Step::FocusLayer(surface)],
            None => Seq::empty(),
        }).push(Step::Deliver)
    } else if f.frame is Some {
        seq![Step::PressFrame(f.frame->0)]
    } else {
        (match f.window {
            Some(hit) => if !hit.focusable {
                Seq::empty()
            } else if f.raise_on_click {
                seq![Step::FocusAndRaise(hit.window)]
            } else {
                seq![Step::FocusInPlace(hit.window)]
            },
            None => press_on_desktop(f),
        }).push(Step::Deliver)
    }
}

/// What a press or a release comes to. A tile that waits for a click takes a press whole, and so
/// does a menu that it is on; elsewhere the menu is taken down first. A press in a locked session
/// goes to the lock screen and does nothing else.
pub open spec fn routed(f: ButtonFacts) -> Seq<Step> {
    if f.pressed && !f.grabbed && !f.locked {
        if f.icon_awaits_click {
            seq![Step::DropIcon]
        } else {
            match f.menu {
                Some(menu) => if menu.on_menu {
                    match menu.chosen {
                        Some(action) => seq![
                            Step::CloseMenu,
                            Step::Choose { window: menu.window, action },
                        ],
                        None => seq![Step::CloseMenu],
                    }
                } else {
                    seq![Step::CloseMenu] + press_below_menu(f)
                },
                None => press_below_menu(f),
            }
        }
    } else if !f.pressed {
        seq![Step::ReleaseFrame, Step::ReleaseIcon, Step::Deliver]
    } else {
        seq![Step::Deliver]
    }
}

/// Where a press or a release goes, step by step.
pub fn route_button(f: &ButtonFacts) -> (steps: Vec<Step>)
    ensures
        steps@ == routed(*f),
{
    let mut steps: Vec<Step> = Vec::new();
    if f.pressed && !f.grabbed && !f.locked {
        if f.icon_awaits_click {
            steps.push(Step::DropIcon);
            return steps;
        }
        if let Some(menu) = f.menu {
            steps.push(Step::CloseMenu);
            if menu.on_menu {
                if let Some(action) = menu.chosen {
                    steps.push(Step::Choose { window: menu.window, action });
                }
                return steps;
            }
        }
        if f.layer_covers {
            if let Some(surface) = f.focusable_layer {
                steps.push(Step::FocusLayer(surface));
            }
        } else if let Some(window) = f.frame {
            steps.push(Step::PressFrame(window));
            assert(steps@ =~= routed(*f));
            return steps;
        } else {
            match f.window {
                Some(hit) => {
                    if hit.focusable {
                        if f.raise_on_click {
                            steps.push(Step::FocusAndRaise(hit.window));
                        } else {
                            steps.push(Step::FocusInPlace(hit.window));
                        }
                    }
                },
                None => match f.icon {
                    Some(window) => {
                        if f.button == BTN_LEFT {
                            steps.push(Step::PressIcon(window));
                        } else if f.button == BTN_RIGHT {
                            steps.push(Step::OpenIconMenu(window));
                        }
                    },
                    None => match f.focusable_layer {
                        Some(surface) => {
                            steps.push(Step::FocusLayer(surface));
                        },
                        None => {
                            steps.push(Step::ClearFocus);
                        },
                    },
                },
            }
        }
    } else if !f.pressed {
        steps.push(Step::ReleaseFrame);
        steps.push(Step::ReleaseIcon);
    }
    steps.push(Step::Deliver);
    assert(steps@ =~= routed(*f));
    steps
}

/// A press on an overlay- or top-layer surface reaches no frame and raises no window.
pub proof fn a_press_on_a_panel_leaves_the_windows_alone(f: ButtonFacts, window: u64)
    requires
        f.pressed,
        !f.grabbed,
        f.layer_covers,
        f.menu is None,
        !f.icon_awaits_click,
    ensures
        !routed(f).contains(Step::PressFrame(window)),
        !routed(f).contains(Step::FocusAndRaise(window)),
        !routed(f).contains(Step::FocusInPlace(window)),
{
}

/// A press in a locked session is handed to what the pointer is over, which is the lock screen, and
/// to nothing else: no window, frame, icon or menu takes it.
pub proof fn a_press_on_the_lock_screen_goes_no_further(f: ButtonFacts)
    requires
        f.pressed,
        f.locked,
    ensures
        routed(f) == seq![Step::Deliver],
{
}

/// How far a scroll goes along an axis: as reported, or a fifteenth of a turn for each notch.
#[derive(Debug, Clone, Copy, PartialEq, Eq, Structural)]
pub enum Scrolled {
    /// By so many 256ths of a pixel.
    Amount(i64),
    /// By `15 / 120` of so many 256ths.
    Notches(i64),
}

/// What a device reports of an axis: an amount, and one in 120ths of a notch, both in 256ths.
#[derive(Debug, Clone, Copy, PartialEq, Eq, Structural)]
pub struct AxisFacts {
    pub amount: Option<i64>,
    pub v120: Option<i64>,
}

/// What a client is told of an axis.
#[derive(Debug, Clone, Copy, PartialEq, Eq)]
pub struct AxisReport {
    pub value: Option<Scrolled>,
    pub v120: Option<i64>,
    pub stop: bool,
}

/// What a client is told of an axis: how far it went, unless that is nothing, the notches where
/// the device has them, and that it stopped where a finger came to rest.
pub open spec fn reported(f: AxisFacts, finger: bool) -> AxisReport {
    let value = match f.amount {
        Some(n) => if n != 0 {
            Some(Scrolled::Amount(n))
        } else {
            None
        },
        None => match f.v120 {
            Some(n) => if n != 0 {
                Some(Scrolled::Notches(n))
            } else {
                None
            },
            None => None,
        },
    };
    AxisReport {
        value,
        v120: if value is Some {
            f.v120
        } else {
            None
        },
        stop: finger && f.amount == Some(0i64),
    }
}

/// What a client is told of an axis.
pub fn axis_report(f: AxisFacts, finger: bool) -> (report: AxisReport)
    ensures
        report == reported(f, finger),
{
    let value: Option<Scrolled> = match f.amount {
        Some(n) => {
            if n != 0 {
                Some(Scrolled::Amount(n))
            } else {
                None
            }
        },
        None => match f.v120 {
            Some(n) => {
                if n != 0 {
                    Some(Scrolled::Notches(n))
                } else {
                    None
                }
            },
            None => None,
        },
    };
    let v120: Option<i64> = if value.is_some() {
        f.v120
    } else {
        None
    };
    let rested = match f.amount {
        Some(n) => n == 0,
        None => false,
    };
    AxisReport { value, v120, stop: finger && rested }
}

/// Where the pointer goes by relative motion: kept on a screen.
pub fn moved_pointer(geometries: &[Rect], at: Spot, dx: i64, dy: i64) -> (to: Spot)
    requires
        i64::MIN <= at.x + dx <= i64::MAX,
        i64::MIN <= at.y + dy <= i64::MAX,
        within_reach(Spot { x: (at.x + dx) as i64, y: (at.y + dy) as i64 }),
        forall|i: int|
            0 <= i < geometries@.len() ==> (#[trigger] geometries@[i]).size.w > 0
                && geometries@[i].size.h > 0,
    ensures
        to == kept_on_screen(
            geometries@,
            Spot { x: (at.x + dx) as i64, y: (at.y + dy) as i64 },
        ),
{
    clamp_to_outputs(geometries, Spot { x: at.x + dx, y: at.y + dy })
}

/// An input event, as far as the compositor decides on it.
#[derive(Debug, Clone, Copy, PartialEq, Eq)]
pub enum InputEvent {
    /// A key, with the modifiers that are held and the keysyms that it gives with and without
    /// them.
    Keyboard { pressed: bool, mods: Modifiers, modified: u32, raw: Option<u32> },
    /// Relative motion, in 256ths of a pixel: what a physical mouse sends.
    PointerMotion { dx: i64, dy: i64 },
    /// Absolute motion, to so many parts of the device's width and height from its corner: what
    /// tablets, touchscreens and the nested backend send.
    PointerMotionAbsolute { x: u32, y: u32 },
    PointerButton { press: Press },
    PointerAxis { horizontal: AxisFacts, vertical: AxisFacts, finger: bool },
    /// A device coming or going, or an event that is not handled.
    Other,
}

/// A step in answering an input event.
#[derive(Debug, Clone, Copy, PartialEq, Eq)]
pub enum InputStep {
    /// The user is here: idle notifications start over.
    NotifyActivity,
    /// Hand the key to the client with the keyboard.
    ForwardKey,
    /// Move the pointer.
    Motion(Spot),
    /// Report the raw delta, for clients that track movement rather than position.
    RelativeMotion,
    /// Let a tile that is being dragged follow.
    DragIcon(Spot),
    HoverMenu(Spot),
    UpdateCursor(Spot),
    /// Give the keyboard to the window under the pointer, where focus follows it.
    FollowPointer(Spot),
    Redraw,
    Button(Step),
    Axis { horizontal: AxisReport, vertical: AxisReport },
}

/// What follows the pointer to where it went.
pub open spec fn followed(to: Spot) -> Seq<InputStep> {
    seq![
        InputStep::DragIcon(to),
        InputStep::HoverMenu(to),
        InputStep::UpdateCursor(to),
        InputStep::FollowPointer(to),
        InputStep::Redraw,
    ]
}

pub open spec fn button_steps(steps: Seq<Step>) -> Seq<InputStep> {
    Seq::new(steps.len(), |i: int| InputStep::Button(steps[i]))
}

/// The geometries of the screens that have one.
pub open spec fn geometries_of(screens: Seq<Screen>) -> Seq<Rect>
    decreases screens.len(),
{
    if screens.len() == 0 {
        Seq::empty()
    } else {
        match screens.last().geometry {
            Some(g) => geometries_of(screens.drop_last()).push(g),
            None => geometries_of(screens.drop_last()),
        }
    }
}

/// Where an event takes the pointer.
pub open spec fn pointed_at(s: Scene, event: InputEvent) -> Spot {
    match event {
        InputEvent::PointerMotion { dx, dy } => kept_on_screen(
            geometries_of(s.screens),
            Spot { x: (s.pointer.x + dx) as i64, y: (s.pointer.y + dy) as i64 },
        ),
        InputEvent::PointerMotionAbsolute { x, y } => {
            let geometries = geometries_of(s.screens);
            if geometries.len() == 0 {
                s.pointer
            } else {
                kept_on_screen(geometries, across(layout(geometries), x, y))
            }
        },
        _ => s.pointer,
    }
}

/// What becomes of a key.
pub open spec fn key_fate(
    is_pressed: bool,
    mods: Modifiers,
    modified: u32,
    raw: Option<u32>,
    bindings: Bindings,
) -> Filtered {
    if !is_pressed {
        Filtered::Forward
    } else if terminal_of(modified) is Some {
        Filtered::SwitchVt(terminal_of(modified)->0)
    } else {
        match pressed(bindings.table(), mods, modified, raw) {
            Some(action) => Filtered::Run(action),
            None => Filtered::Forward,
        }
    }
}

/// The steps that answer an event. Every event means that the user is here.
pub open spec fn answered(s: Scene, event: InputEvent, bindings: Bindings) -> Seq<InputStep> {
    let to = pointed_at(s, event);
    seq![InputStep::NotifyActivity] + match event {
        InputEvent::Keyboard { pressed, mods, modified, raw } => if key_fate(
            pressed,
            mods,
            modified,
            raw,
            bindings,
        ) is Forward {
            seq![InputStep::ForwardKey]
        } else {
            Seq::empty()
        },
        InputEvent::PointerMotion { .. } => seq![InputStep::Motion(to), InputStep::RelativeMotion]
            + followed(to),
        InputEvent::PointerMotionAbsolute { .. } => if geometries_of(s.screens).len() == 0 {
            Seq::empty()
        } else {
            seq![InputStep::Motion(to)] + followed(to)
        },
        InputEvent::PointerButton { press } => button_steps(routed(found_by(s, press))),
        InputEvent::PointerAxis { horizontal, vertical, finger } => seq![
            InputStep::Axis {
                horizontal: reported(horizontal, finger),
                vertical: reported(vertical, finger),
            },
        ],
        InputEvent::Other => Seq::empty(),
    }
}

/// What a key runs, where the compositor keeps it.
pub open spec fn key_run(
    s: Scene,
    event: InputEvent,
    bindings: Bindings,
    keyboard: Option<u64>,
    order: Seq<Desk>,
) -> Option<Run> {
    match event {
        InputEvent::Keyboard { pressed, mods, modified, raw } => match key_fate(
            pressed,
            mods,
            modified,
            raw,
            bindings,
        ) {
            Filtered::Forward => None,
            Filtered::SwitchVt(vt) => Some(Run::SwitchVt(vt)),
            Filtered::Run(action) => Some(bound_run(
                s,
                action,
                focused_of(s, keyboard),
                order,
            )),
        },
        _ => None,
    }
}

/// Whether no screen is without pixels.
pub open spec fn none_empty(screens: Seq<Screen>) -> bool {
    forall|i: int|
        0 <= i < screens.len() ==> ((#[trigger] screens[i]).geometry matches Some(g) ==> g.size.w
            > 0 && g.size.h > 0)
}

/// Whether an event can be reckoned with: no screen that the pointer can reach is empty, and no
/// place is out of range.
pub open spec fn answerable(s: Scene, event: InputEvent) -> bool {
    match event {
        InputEvent::Keyboard { .. } => s.sound() && countable(s),
        InputEvent::PointerMotion { dx, dy } => {
            &&& i64::MIN <= s.pointer.x + dx <= i64::MAX
            &&& i64::MIN <= s.pointer.y + dy <= i64::MAX
            &&& within_reach(
                Spot { x: (s.pointer.x + dx) as i64, y: (s.pointer.y + dy) as i64 },
            )
            &&& none_empty(s.screens)
        },
        InputEvent::PointerMotionAbsolute { .. } => {
            &&& layout_fits(geometries_of(s.screens))
            &&& none_empty(s.screens)
        },
        InputEvent::PointerButton { press } => {
            &&& s.window_menu matches Some(menu) ==> menu.valid()
            &&& press.pressed && press.window is None ==> s.sound() && can_count(s, s.pointer)
        },
        _ => true,
    }
}

fn follow(steps: &mut Vec<InputStep>, to: Spot)
    ensures
        final(steps)@ == old(steps)@ + followed(to),
{
    steps.push(InputStep::DragIcon(to));
    steps.push(InputStep::HoverMenu(to));
    steps.push(InputStep::UpdateCursor(to));
    steps.push(InputStep::FollowPointer(to));
    steps.push(InputStep::Redraw);
    assert(steps@ =~= old(steps)@ + followed(to));
}

proof fn geometries_are_of_screens(screens: Seq<Screen>, j: int) -> (i: int)
    requires
        0 <= j < geometries_of(screens).len(),
    ensures
        0 <= i < screens.len(),
        screens[i].geometry == Some(geometries_of(screens)[j]),
    decreases screens.len(),
{
    let fewer = screens.drop_last();
    if j < geometries_of(fewer).len() {
        geometries_are_of_screens(fewer, j)
    } else {
        screens.len() - 1
    }
}

impl Wlrix {
    /// The geometries of the screens that have one.
    fn geometries(&self) -> (list: Vec<Rect>)
        ensures
            list@ == geometries_of(self@.screens),
            none_empty(self@.screens) ==> forall|j: int|
                0 <= j < list@.len() ==> (#[trigger] list@[j]).size.w > 0 && list@[j].size.h > 0,
    {
        let mut list: Vec<Rect> = Vec::new();
        let mut i: usize = 0;
        assert(self.screens@.take(0) =~= Seq::<Screen>::empty());
        while i < self.screens.len()
            invariant
                i <= self.screens@.len(),
                list@ == geometries_of(self.screens@.take(i as int)),
            decreases self.screens.len() - i,
        {
            if let Some(g) = self.screens[i].geometry {
                list.push(g);
            }
            i += 1;
            assert(self.screens@.take(i as int).drop_last() =~= self.screens@.take(i - 1));
        }
        assert(self.screens@.take(self.screens@.len() as int) =~= self.screens@);
        proof {
            if none_empty(self@.screens) {
                assert forall|j: int| 0 <= j < list@.len() implies (#[trigger] list@[j]).size.w > 0
                    && list@[j].size.h > 0 by {
                    let k = geometries_are_of_screens(self@.screens, j);
                    assert(self@.screens[k].geometry is Some);
                }
            }
        }
        list
    }

    fn button_facts(&self, press: &Press) -> (facts: ButtonFacts)
        requires
            answerable(self@, InputEvent::PointerButton { press: *press }),
        ensures
            facts == found_by(self@, *press),
    {
        let menu = match &self.window_menu {
            Some(menu) => Some(
                MenuHit {
                    window: menu.window,
                    on_menu: menu.contains(self.pointer),
                    chosen: menu.action_at(self.pointer),
                },
            ),
            None => None,
        };
        ButtonFacts {
            pressed: press.pressed,
            button: press.button,
            grabbed: press.grabbed,
            locked: press.locked,
            icon_awaits_click: self.icon_move_awaits_click(),
            menu,
            layer_covers: press.layer_covers,
            focusable_layer: press.focusable_layer,
            frame: press.frame,
            window: press.window,
            icon: if press.pressed && press.window.is_none() {
                self.icon_under(self.pointer)
            } else {
                None
            },
            raise_on_click: press.raise_on_click,
        }
    }

    /// Answers an input event: the steps for the outside to take, and what a key that the
    /// compositor keeps came to. `keyboard` is the window with the keyboard, `order` the desks in
    /// their order.
    pub fn process_input_event(
        &mut self,
        event: &InputEvent,
        bindings: &Bindings,
        keyboard: Option<u64>,
        order: &[Desk],
    ) -> (answer: (Vec<InputStep>, Option<Ran>))
        requires
            answerable(old(self)@, *event),
        ensures
            answer.0@ == answered(old(self)@, *event, *bindings),
            match key_run(old(self)@, *event, *bindings, keyboard, order@) {
                Some(run) => answer.1 matches Some(ran) && ran_as(
                    ran,
                    run,
                    old(self)@,
                    final(self)@,
                ),
                None => answer.1 is None && final(self)@ == (Scene {
                    pointer: pointed_at(old(self)@, *event),
                    ..old(self)@
                }),
            },
    {
        let ghost before = self@;
        let mut steps: Vec<InputStep> = Vec::new();
        steps.push(InputStep::NotifyActivity);
        let mut ran: Option<Ran> = None;
        match *event {
            InputEvent::Keyboard { pressed: down, mods, modified, raw } => {
                match filter_key(down, &mods, modified, raw, bindings) {
                    Filtered::Forward => {
                        steps.push(InputStep::ForwardKey);
                    },
                    Filtered::SwitchVt(vt) => {
                        ran = Some(Ran::SwitchVt(vt));
                    },
                    Filtered::Run(action) => {
                        let focused: Option<u64> = self.focused_window(keyboard);
                        ran = Some(self.run_action(action, focused, order));
                    },
                }
            },
            InputEvent::PointerMotion { dx, dy } => {
                let geometries = self.geometries();
                let to: Spot = moved_pointer(geometries.as_slice(), self.pointer, dx, dy);
                self.pointer = to;
                steps.push(InputStep::Motion(to));
                steps.push(InputStep::RelativeMotion);
                follow(&mut steps, to);
            },
            InputEvent::PointerMotionAbsolute { x, y } => {
                let geometries = self.geometries();
                if let Some(to) = absolute_position(geometries.as_slice(), x, y) {
                    self.pointer = to;
                    steps.push(InputStep::Motion(to));
                    follow(&mut steps, to);
                }
            },
            InputEvent::PointerButton { press } => {
                let facts = self.button_facts(&press);
                let routed_steps: Vec<Step> = route_button(&facts);
                let mut i: usize = 0;
                while i < routed_steps.len()
                    invariant
                        i <= routed_steps@.len(),
                        steps@ == seq![InputStep::NotifyActivity] + button_steps(
                            routed_steps@.take(i as int),
                        ),
                    decreases routed_steps.len() - i,
                {
                    steps.push(InputStep::Button(routed_steps[i]));
                    i += 1;
                    assert(button_steps(routed_steps@.take(i as int)) =~= button_steps(
                        routed_steps@.take(i - 1),
                    ).push(InputStep::Button(routed_steps@[i - 1])));
                }
                assert(routed_steps@.take(routed_steps@.len() as int) =~= routed_steps@);
            },
            InputEvent::PointerAxis { horizontal, vertical, finger } => {
                steps.push(
                    InputStep::Axis {
                        horizontal: axis_report(horizontal, finger),
                        vertical: axis_report(vertical, finger),
                    },
                );
            },
            InputEvent::Other => {},
        }
        assert(steps@ =~= answered(before, *event, *bindings));
        (steps, ran)
    }
}

/// Whatever the input, it counts as activity, and before anything else is done.
pub proof fn all_input_is_activity(s: Scene, event: InputEvent, bindings: Bindings)
    ensures
        answered(s, event, bindings).len() > 0,
        answered(s, event, bindings)[0] == InputStep::NotifyActivity,
{
}

/// Switching to another virtual terminal is the way out of a desktop that has wedged: no table of
/// bindings takes it away.
pub proof fn no_binding_takes_a_terminal_away(
    s: Scene,
    mods: Modifiers,
    modified: u32,
    raw: Option<u32>,
    bindings: Bindings,
    keyboard: Option<u64>,
    order: Seq<Desk>,
)
    requires
        terminal_of(modified) is Some,
    ensures
        key_run(
            s,
            InputEvent::Keyboard { pressed: true, mods, modified, raw },
            bindings,
            keyboard,
            order,
        ) == Some(Run::SwitchVt(terminal_of(modified)->0)),
{
}

/// A tile that waits for a click takes the next press whole: it is put down, and nothing under the
/// pointer hears of it.
pub proof fn a_waiting_tile_takes_the_click(s: Scene, press: Press, bindings: Bindings)
    requires
        awaits_click(s),
        press.pressed,
        !press.grabbed,
        !press.locked,
    ensures
        answered(s, InputEvent::PointerButton { press }, bindings) == seq![
            InputStep::NotifyActivity,
            InputStep::Button(Step::DropIcon),
        ],
{
    assert(answered(s, InputEvent::PointerButton { press }, bindings) =~= seq![
        InputStep::NotifyActivity,
        InputStep::Button(Step::DropIcon),
    ]);
}

/// A press while a menu is open takes it down first, wherever it is; one on the panel goes no
/// further.
pub proof fn a_press_takes_the_menu_down(s: Scene, press: Press, bindings: Bindings)
    requires
        s.window_menu is Some,
        !awaits_click(s),
        press.pressed,
        !press.grabbed,
        !press.locked,
    ensures
        ({
            let steps = answered(s, InputEvent::PointerButton { press }, bindings);
            &&& steps.len() >= 2 && steps[1] == InputStep::Button(Step::CloseMenu)
            &&& menu_hit(s)->0.on_menu ==> !steps.contains(InputStep::Button(Step::Deliver))
        }),
{
}

/// Letting a key go runs nothing.
pub proof fn a_released_key_runs_nothing(
    s: Scene,
    mods: Modifiers,
    modified: u32,
    raw: Option<u32>,
    bindings: Bindings,
    keyboard: Option<u64>,
    order: Seq<Desk>,
)
    ensures
        key_run(
            s,
            InputEvent::Keyboard { pressed: false, mods, modified, raw },
            bindings,
            keyboard,
            order,
        ) is None,
{
}

/// What decides whether the keyboard follows the pointer.
#[derive(Debug, Clone, Copy, PartialEq, Eq)]
pub struct FollowFacts {
    /// Whether the keyboard is to go to the window under the pointer.
    pub by_pointer: bool,
    /// Whether a move or a resize is under way.
    pub grabbed: bool,
    pub locked: bool,
    /// Whether an overlay- or top-layer surface is under the pointer.
    pub layer_covers: bool,
    /// The window under the pointer, its frame included.
    pub window: Option<u64>,
}

/// The window that the keyboard goes to as the pointer moves: the one under it, if the keyboard
/// follows it at all. It stays where it is over the bare desktop, and while a gesture, a menu, the
/// move of a tile, a panel or the lock has the pointer.
pub open spec fn followed_to(s: Scene, f: FollowFacts) -> Option<u64> {
    if f.by_pointer && !f.grabbed && !f.locked && !f.layer_covers && s.window_menu is None
        && s.icon_drag is None {
        f.window
    } else {
        None
    }
}

impl Wlrix {
    /// The window to give the keyboard as the pointer moves, without raising it; nothing leaves
    /// the keyboard where it is.
    pub fn follow_pointer(&self, f: &FollowFacts) -> (window: Option<u64>)
        ensures
            window == followed_to(self@, *f),
    {
        if f.by_pointer && !f.grabbed && !f.locked && !f.layer_covers
            && self.window_menu.is_none() && self.icon_drag.is_none() {
            f.window
        } else {
            None
        }
    }
}

} // verus!

//! Locking the screen: whether the session is locked, what each output shows meanwhile, and when
//! the locker is told that it is.
use vstd::prelude::*;

use crate::geometry::{Rect, Size, Spot};
use crate::render::Draw;
use crate::table::Table;

verus! {

/// Whether the session is locked, and what each output shows while it is.
pub struct LockState {
    locked: bool,
    /// By the name of the output.
    surfaces: Table<String, u64>,
    /// Held from the lock request until a locked frame has been drawn: the client is told that
    /// the session is locked only once the desktop is off screen.
    pending: Option<u64>,
}

/// The lock as values.
pub ghost struct Lock {
    pub locked: bool,
    pub surfaces: Map<Seq<char>, u64>,
    pub pending: Option<u64>,
}

impl View for LockState {
    type V = Lock;

    closed spec fn view(&self) -> Lock {
        Lock { locked: self.locked, surfaces: self.surfaces@, pending: self.pending }
    }
}

/// The lock once locking has begun.
pub open spec fn begun(l: Lock, confirmation: u64) -> Lock {
    Lock { locked: true, pending: Some(confirmation), ..l }
}

/// The lock once a frame was drawn, and the confirmation that is given then.
pub open spec fn rendered(l: Lock) -> (Lock, Option<u64>) {
    if l.locked {
        (Lock { pending: None, ..l }, l.pending)
    } else {
        (l, None)
    }
}

/// The lock of a session that is not locked.
pub open spec fn unlocked() -> Lock {
    Lock { locked: false, surfaces: Map::empty(), pending: None }
}

/// What an output draws while the session is locked: the locker's surface where there is one, and
/// always an opaque fill, so that an output without one shows nothing of the desktop.
pub open spec fn shown_locked(surface: Option<u64>) -> Seq<Draw> {
    match surface {
        Some(surface) => seq![Draw::LockSurface { surface }, Draw::LockFill],
        None => seq![Draw::LockFill],
    }
}

/// What an output draws while the session is locked, front to back; `surface` is the locker's for
/// the output.
pub fn lock_elements(surface: Option<u64>) -> (list: Vec<Draw>)
    ensures
        list@ == shown_locked(surface),
{
    let mut list: Vec<Draw> = Vec::new();
    if let Some(surface) = surface {
        list.push(Draw::LockSurface { surface });
    }
    list.push(Draw::LockFill);
    assert(list@ =~= shown_locked(surface));
    list
}

/// A side of an output in logical pixels.
pub open spec fn logical(side: i32, scale: i32) -> int {
    if side > 0 {
        side as int / scale as int
    } else {
        0
    }
}

fn logical_side(side: i32, scale: i32) -> (n: u32)
    requires
        scale >= 1,
    ensures
        n == logical(side, scale),
{
    if side > 0 {
        assert(0 <= side as int / scale as int <= side) by (nonlinear_arith)
            requires
                side > 0,
                scale >= 1,
        ;
        (side as u32) / (scale as u32)
    } else {
        0
    }
}

impl LockState {
    /// A session that is not locked.
    pub fn new() -> (state: Self)
        ensures
            state@ == unlocked(),
    {
        LockState { locked: false, surfaces: Table::new(), pending: None }
    }

    pub fn is_locked(&self) -> (r: bool)
        ensures
            r == self@.locked,
    {
        self.locked
    }

    /// Begins locking. The confirmation is held until a locked frame has been drawn.
    pub fn begin(&mut self, confirmation: u64)
        ensures
            final(self)@ == begun(old(self)@, confirmation),
    {
        self.locked = true;
        self.pending = Some(confirmation);
    }

    /// The confirmation to give, if one is held; it is given once.
    pub fn confirm(&mut self) -> (confirmation: Option<u64>)
        ensures
            confirmation == old(self)@.pending,
            final(self)@ == (Lock { pending: None, ..old(self)@ }),
    {
        let confirmation = self.pending;
        self.pending = None;
        confirmation
    }

    /// A locker's surface for an output. Gives the size that it is to draw to: the output's, in
    /// logical pixels.
    pub fn add_surface(
        &mut self,
        output: String,
        mode: Option<Size>,
        scale: i32,
        surface: u64,
    ) -> (size: (u32, u32))
        requires
            scale >= 1,
        ensures
            final(self)@ == (Lock {
                surfaces: old(self)@.surfaces.insert(output@, surface),
                ..old(self)@
            }),
            match mode {
                Some(mode) => size.0 == logical(mode.w, scale) && size.1 == logical(mode.h, scale),
                None => size == (0u32, 0u32),
            },
    {
        self.surfaces.insert(output, surface);
        match mode {
            Some(mode) => (logical_side(mode.w, scale), logical_side(mode.h, scale)),
            None => (0, 0),
        }
    }

    /// Forgets everything: the session is unlocked, or the locker is gone.
    pub fn clear(&mut self)
        ensures
            final(self)@ == unlocked(),
    {
        self.locked = false;
        self.surfaces = Table::new();
        self.pending = None;
    }

    /// The locker's surface for an output.
    pub fn surface_for(&self, output: &String) -> (surface: Option<u64>)
        ensures
            match surface {
                Some(surface) => self@.surfaces.contains_pair(output@, surface),
                None => !self@.surfaces.dom().contains(output@),
            },
    {
        match self.surfaces.get(output) {
            Some(surface) => Some(*surface),
            None => None,
        }
    }

    /// A frame was drawn: the confirmation to give, where the session is locked.
    pub fn after_render(&mut self) -> (confirmation: Option<u64>)
        ensures
            (final(self)@, confirmation) == rendered(old(self)@),
    {
        if self.is_locked() {
            self.confirm()
        } else {
            None
        }
    }

    /// A surface of the locker to give the keyboard; any will do, as the locker is one client.
    pub fn focus_lock_surface(&self) -> (surface: Option<u64>)
        ensures
            match surface {
                Some(surface) => self@.surfaces.contains_value(surface),
                None => self@.surfaces =~= Map::empty(),
            },
    {
        match self.surfaces.any() {
            Some(surface) => Some(*surface),
            None => None,
        }
    }

    /// The lock surface under a spot, and the spot as seen from it; `output` is the name and the
    /// geometry of the output that the spot is on. The surface covers its output exactly.
    pub fn surface_under(&self, output: Option<(&String, Rect)>, at: Spot) -> (hit: Option<(
        u64,
        Spot,
    )>)
        requires
            output matches Some((_, geometry)) ==> {
                &&& i64::MIN <= at.x - geometry.loc.x * 256 <= i64::MAX
                &&& i64::MIN <= at.y - geometry.loc.y * 256 <= i64::MAX
            },
        ensures
            match output {
                Some((name, geometry)) => match hit {
                    Some((surface, local)) => {
                        &&& self@.surfaces.contains_pair(name@, surface)
                        &&& local.x == at.x - geometry.loc.x * 256
                        &&& local.y == at.y - geometry.loc.y * 256
                    },
                    None => !self@.surfaces.dom().contains(name@),
                },
                None => hit is None,
            },
    {
        match output {
            Some((name, geometry)) => match self.surface_for(name) {
                Some(surface) => Some(
                    (
                        surface,
                        Spot {
                            x: at.x - geometry.loc.x as i64 * 256,
                            y: at.y - geometry.loc.y as i64 * 256,
                        },
                    ),
                ),
                None => None,
            },
            None => None,
        }
    }
}

/// A lock is confirmed by the first frame that is drawn once locking has begun, and by no other;
/// a session that was unlocked meanwhile confirms nothing.
pub proof fn a_lock_is_confirmed_once(l: Lock, confirmation: u64)
    ensures
        rendered(begun(l, confirmation)).1 == Some(confirmation),
        rendered(rendered(begun(l, confirmation)).0).1 is None,
        rendered(begun(l, confirmation)).0.locked,
        rendered(unlocked()).1 is None,
{
}

/// While the session is locked, an output shows the locker's surface, where it has one there, and
/// an opaque fill behind it: nothing of the desktop.
pub proof fn a_locked_output_shows_nothing_of_the_desktop(surface: Option<u64>)
    ensures
        shown_locked(surface).len() > 0,
        shown_locked(surface).last() is LockFill,
        surface matches Some(id) ==> shown_locked(surface)[0] == (Draw::LockSurface { surface: id }),
        forall|k: int|
            0 <= k < shown_locked(surface).len() ==> match #[trigger] shown_locked(surface)[k] {
                Draw::LockSurface { surface: id } => surface == Some(id),
                Draw::LockFill => true,
                _ => false,
            },
{
}

/// A lock surface drawn to its size fills the output, to within the last pixel of the scale.
pub proof fn a_lock_surface_fills_its_output(side: i32, scale: i32)
    requires
        side >= 0,
        scale >= 1,
    ensures
        logical(side, scale) >= 0,
        logical(side, scale) * scale <= side,
        side < (logical(side, scale) + 1) * scale,
{
    let n = logical(side, scale);
    assert(n * scale <= side && side < (n + 1) * scale && n >= 0) by (nonlinear_arith)
        requires
            side >= 0,
            scale >= 1,
            n == side as int / scale as int || side == 0 && n == 0,
    ;
}

} // verus!

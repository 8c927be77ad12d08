//! Pictures of minimized windows: which are still to be taken, and where in the tile a window is
//! drawn.
use vstd::prelude::*;

use crate::geometry::{fits, Point, Size};
use crate::state::{
    a_listed_window_is_found, find, first_screen, listed_once, Scene, WindowState, Wlrix,
};
use crate::window_ops::remember;

verus! {

/// The minimized windows among those held aside that a picture is to be taken of.
pub open spec fn awaiting(s: Scene, ids: Seq<u64>) -> Seq<u64>
    decreases ids.len(),
{
    if ids.len() == 0 {
        Seq::empty()
    } else {
        let before = awaiting(s, ids.drop_last());
        match find(s.windows, ids.last()) {
            Some(w) => if w.state.minimized && w.state.needs_thumbnail {
                before.push(ids.last())
            } else {
                before
            },
            None => before,
        }
    }
}

/// The scene once the picture of a window was taken, or could not be.
pub open spec fn pictured(s: Scene, id: u64, taken: bool) -> Scene {
    match find(s.windows, id) {
        Some(w) => remember(
            s,
            w,
            WindowState { needs_thumbnail: false, has_thumbnail: taken, ..w.state },
        ),
        None => s,
    }
}

/// Where a picture of a size is drawn in a tile: in the middle.
pub open spec fn middle(target: Size, scaled: Size) -> Point {
    Point { x: ((target.w - scaled.w) / 2) as i32, y: ((target.h - scaled.h) / 2) as i32 }
}

/// Where a picture of a size is drawn in a tile that it fits into: in the middle.
pub fn letterbox(target: Size, scaled: Size) -> (at: Point)
    requires
        scaled.w <= target.w,
        scaled.h <= target.h,
        fits(target.w - scaled.w),
        fits(target.h - scaled.h),
    ensures
        at == middle(target, scaled),
{
    Point { x: (target.w - scaled.w) / 2, y: (target.h - scaled.h) / 2 }
}

/// Whether a window can be pictured in a tile: both have a size.
pub fn has_picture(window: Size, target: Size) -> (r: bool)
    ensures
        r == (window.w > 0 && window.h > 0 && target.w > 0 && target.h > 0),
{
    window.w > 0 && window.h > 0 && target.w > 0 && target.h > 0
}

impl Wlrix {
    /// The windows that a picture is to be taken of while an output is drawn: none but on the
    /// first output, whose grid the icons are on.
    pub fn pending_thumbnails(&self, output: u64) -> (pending: Vec<u64>)
        ensures
            pending@ == if first_screen(self@.screens) matches Some(screen) && screen.id == output {
                awaiting(self@, self@.hidden)
            } else {
                Seq::empty()
            },
    {
        let mut pending: Vec<u64> = Vec::new();
        let first = match self.primary() {
            Some(screen) => screen.id == output,
            None => false,
        };
        if !first {
            return pending;
        }
        let mut i: usize = 0;
        assert(self.hidden@.take(0) =~= Seq::empty());
        while i < self.hidden.len()
            invariant
                i <= self.hidden@.len(),
                pending@ == awaiting(self@, self.hidden@.take(i as int)),
            decreases self.hidden.len() - i,
        {
            let id: u64 = self.hidden[i];
            i += 1;
            assert(self.hidden@.take(i as int).drop_last() =~= self.hidden@.take(i - 1));
            if let Some(w) = self.window(id) {
                if w.state.minimized && w.state.needs_thumbnail {
                    pending.push(id);
                }
            }
        }
        assert(self.hidden@.take(self.hidden@.len() as int) =~= self.hidden@);
        pending
    }

    /// The picture of a window was taken, or could not be: it is not tried again.
    pub fn thumbnail_taken(&mut self, id: u64, taken: bool)
        ensures
            final(self)@ == pictured(old(self)@, id, taken),
    {
        if let Some(w) = self.window(id) {
            let mut state = w.state;
            state.needs_thumbnail = false;
            state.has_thumbnail = taken;
            self.remember(&w, state);
        }
    }
}

/// A window whose picture was tried is not tried again.
pub proof fn a_picture_is_taken_once(s: Scene, id: u64, taken: bool)
    requires
        find(s.windows, id) is Some,
    ensures
        find(pictured(s, id, taken).windows, id) matches Some(w) && !w.state.needs_thumbnail
            && w.state.has_thumbnail == taken,
{
    let w = find(s.windows, id)->0;
    let i = crate::state::found_is_listed(s.windows, id);
    crate::window_ops::remember_finds(
        s,
        w,
        WindowState { needs_thumbnail: false, has_thumbnail: taken, ..w.state },
    );
}

/// A picture has as much of the tile on its left as on its right, and above it as below, to within
/// the rounding.
pub proof fn a_picture_is_in_the_middle(target: Size, scaled: Size)
    requires
        0 <= scaled.w <= target.w,
        0 <= scaled.h <= target.h,
    ensures
        ({
            let at = middle(target, scaled);
            &&& 0 <= at.x && 0 <= at.y
            &&& 0 <= (target.w - scaled.w - at.x) - at.x <= 1
            &&& 0 <= (target.h - scaled.h - at.y) - at.y <= 1
        }),
{
}

/// The pictures to be taken are those of the minimized windows that have none yet, and of no
/// other.
pub proof fn a_picture_is_taken_of_each(s: Scene, ids: Seq<u64>, i: int)
    requires
        listed_once(s.windows, i),
    ensures
        awaiting(s, ids).contains(s.windows[i].id) <==> ids.contains(s.windows[i].id)
            && s.windows[i].state.minimized && s.windows[i].state.needs_thumbnail,
    decreases ids.len(),
{
    a_listed_window_is_found(s.windows, i);
    let id = s.windows[i].id;
    if ids.len() > 0 {
        let fewer = ids.drop_last();
        a_picture_is_taken_of_each(s, fewer, i);
        let before = awaiting(s, fewer);
        let all = awaiting(s, ids);
        if all.contains(id) {
            let k = all.index_of(id);
            if k < before.len() {
                assert(before[k] == id);
                let at = fewer.index_of(id);
                assert(ids[at] == id);
            } else {
                assert(ids[ids.len() - 1] == id);
            }
        }
        if ids.contains(id) && s.windows[i].state.minimized && s.windows[i].state.needs_thumbnail {
            let at = ids.index_of(id);
            if at < fewer.len() {
                assert(fewer[at] == id);
                let k = before.index_of(id);
                assert(all[k] == id);
            } else {
                assert(all[all.len() - 1] == id);
            }
        }
    }
}

} // verus!

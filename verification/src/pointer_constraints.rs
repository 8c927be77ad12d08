//! Letting a client hold on to the pointer: a locked one does not move at all, a confined one may
//! not leave a region of the surface. A constraint is honored only while the pointer is already
//! over the surface that asked for it.
use vstd::prelude::*;

use crate::geometry::{clamp, clamped, Point, Rect, Spot, UNIT};

verus! {

/// What a motion event is allowed to do to the pointer.
#[derive(Debug, Clone, Copy, PartialEq, Eq)]
pub enum Motion {
    /// Move it here.
    To(Spot),
    /// Leave it exactly where it is, and tell the client nothing.
    Locked,
}

impl Motion {
    /// Where the pointer ends up, `current` being where it is now.
    pub fn position(self, current: Spot) -> (at: Spot)
        ensures
            at == match self {
                Motion::To(location) => location,
                Motion::Locked => current,
            },
    {
        match self {
            Motion::To(location) => location,
            Motion::Locked => current,
        }
    }

    /// Whether the client must be told nothing about this movement.
    pub fn is_locked(self) -> (r: bool)
        ensures
            r == (self == Motion::Locked),
    {
        match self {
            Motion::To(_) => false,
            Motion::Locked => true,
        }
    }
}

/// A rectangle that is added to a region or taken from it.
#[derive(Debug, Clone, Copy, PartialEq, Eq)]
pub struct RegionRect {
    pub add: bool,
    pub rect: Rect,
}

/// Whether a pixel is in a region: the last rectangle that it is in decides.
pub open spec fn region_holds(rects: Seq<RegionRect>, p: Point) -> bool
    decreases rects.len(),
{
    if rects.len() == 0 {
        false
    } else if rects.last().rect.holds(p) {
        rects.last().add
    } else {
        region_holds(rects.drop_last(), p)
    }
}

/// The bounding box of the rectangles that add to a region; none where there are none.
pub open spec fn added(rects: Seq<RegionRect>) -> Option<Rect>
    decreases rects.len(),
{
    if rects.len() == 0 {
        None
    } else if !rects.last().add {
        added(rects.drop_last())
    } else {
        match added(rects.drop_last()) {
            Some(bounds) => Some(bounds.merged(rects.last().rect)),
            None => Some(rects.last().rect),
        }
    }
}

/// Whether `i32`s hold the bounding box at each step.
pub open spec fn added_fits(rects: Seq<RegionRect>) -> bool
    decreases rects.len(),
{
    rects.len() > 0 ==> {
        &&& added_fits(rects.drop_last())
        &&& rects.last().add ==> (added(rects.drop_last()) matches Some(bounds)
            ==> bounds.can_merge(rects.last().rect))
    }
}

/// A spot as seen from another.
pub open spec fn from(s: Spot, origin: Spot) -> Spot {
    Spot { x: (s.x - origin.x) as i64, y: (s.y - origin.y) as i64 }
}

/// Whether a spot is near enough to be reckoned with.
pub open spec fn near(s: Spot) -> bool {
    &&& -0x1000_0000_0000_0000 <= s.x <= 0x1000_0000_0000_0000
    &&& -0x1000_0000_0000_0000 <= s.y <= 0x1000_0000_0000_0000
}

/// A spot pulled onto the pixels of a rectangle.
pub open spec fn pulled(bounds: Rect, s: Spot) -> Spot {
    Spot {
        x: clamped(s.x as int, bounds.loc.x * 256, (bounds.right() - 1) * 256) as i64,
        y: clamped(s.y as int, bounds.loc.y * 256, (bounds.bottom() - 1) * 256) as i64,
    }
}

/// Where a movement in a region ends: pulled back to the box of what it adds, and where that is
/// not in the region, where it began.
pub open spec fn confined(rects: Seq<RegionRect>, origin: Spot, current: Spot, proposed: Spot) -> Spot {
    match added(rects) {
        Some(bounds) => {
            let landed = pulled(bounds, from(proposed, origin));
            if region_holds(rects, landed.pixel()) {
                Spot { x: (landed.x + origin.x) as i64, y: (landed.y + origin.y) as i64 }
            } else {
                current
            }
        },
        None => current,
    }
}

/// Whether a region's box can be reckoned with: it can be told in `i32`s, and has a pixel.
pub open spec fn region_sound(rects: Seq<RegionRect>) -> bool {
    &&& added_fits(rects)
    &&& added(rects) matches Some(bounds) ==> bounds.reaches() && bounds.size.w >= 1
        && bounds.size.h >= 1
}

proof fn added_fits_first(rects: Seq<RegionRect>, upto: int)
    requires
        added_fits(rects),
        0 <= upto <= rects.len(),
    ensures
        added_fits(rects.take(upto)),
    decreases rects.len(),
{
    if upto == rects.len() {
        assert(rects.take(upto) =~= rects);
    } else {
        assert(rects.drop_last().take(upto) =~= rects.take(upto));
        added_fits_first(rects.drop_last(), upto);
    }
}

/// Whether a pixel is in a region.
pub fn region_contains(rects: &[RegionRect], p: Point) -> (r: bool)
    ensures
        r == region_holds(rects@, p),
{
    let mut contains = false;
    let mut i: usize = 0;
    assert(rects@.take(0) =~= Seq::empty());
    while i < rects.len()
        invariant
            i <= rects@.len(),
            contains == region_holds(rects@.take(i as int), p),
        decreases rects.len() - i,
    {
        let part = rects[i];
        i += 1;
        assert(rects@.take(i as int).drop_last() =~= rects@.take(i - 1));
        if part.rect.contains(p) {
            contains = part.add;
        }
    }
    assert(rects@.take(rects@.len() as int) =~= rects@);
    contains
}

/// The bounding box of the parts of a region that add to it, or nothing for one that adds nothing.
pub fn adds_up_to(rects: &[RegionRect]) -> (bounds: Option<Rect>)
    requires
        added_fits(rects@),
    ensures
        bounds == added(rects@),
{
    let mut bounds: Option<Rect> = None;
    let mut i: usize = 0;
    assert(rects@.take(0) =~= Seq::empty());
    while i < rects.len()
        invariant
            i <= rects@.len(),
            added_fits(rects@),
            bounds == added(rects@.take(i as int)),
        decreases rects.len() - i,
    {
        let part = rects[i];
        i += 1;
        proof {
            added_fits_first(rects@, i as int);
            assert(rects@.take(i as int).drop_last() =~= rects@.take(i - 1));
        }
        if part.add {
            bounds = match bounds {
                Some(so_far) => Some(so_far.merge(part.rect)),
                None => Some(part.rect),
            };
        }
    }
    assert(rects@.take(rects@.len() as int) =~= rects@);
    bounds
}

/// Whether a spot, as seen from the surface, is inside a region. A constraint with no region
/// covers everything it applies to.
pub fn within(region: Option<&[RegionRect]>, at: Spot) -> (r: bool)
    ensures
        r == match region {
            Some(rects) => region_holds(rects@, at.pixel()),
            None => true,
        },
{
    match region {
        Some(rects) => region_contains(rects, at.to_i32_round()),
        None => true,
    }
}

/// Pulls `proposed` back inside a region, which is measured from `origin`, so that the pointer
/// slides along the inside of the fence instead of stopping dead.
pub fn clamp_into(rects: &[RegionRect], origin: Spot, current: Spot, proposed: Spot) -> (at: Spot)
    requires
        region_sound(rects@),
        near(origin),
        near(proposed),
    ensures
        at == confined(rects@, origin, current, proposed),
{
    let bounds = match adds_up_to(rects) {
        Some(bounds) => bounds,
        None => {
            return current;
        },
    };
    let right: i64 = bounds.loc.x as i64 + bounds.size.w as i64;
    let bottom: i64 = bounds.loc.y as i64 + bounds.size.h as i64;
    let landed = Spot {
        x: clamp(proposed.x - origin.x, bounds.loc.x as i64 * UNIT, (right - 1) * UNIT),
        y: clamp(proposed.y - origin.y, bounds.loc.y as i64 * UNIT, (bottom - 1) * UNIT),
    };
    if region_contains(rects, landed.to_i32_round()) {
        Spot { x: landed.x + origin.x, y: landed.y + origin.y }
    } else {
        current
    }
}

/// A constraint of the surface that has the pointer.
pub struct Constraint {
    /// Whether the pointer is locked, rather than confined.
    pub locked: bool,
    pub active: bool,
    pub region: Option<Vec<RegionRect>>,
    /// Where the surface is, while it is the one under the pointer.
    pub origin: Option<Spot>,
    /// Whether the surface would still be under the pointer after the movement.
    pub still_on_surface: bool,
}

/// What becomes of a movement, and whether the constraint is activated by it.
pub open spec fn resolved(constraint: Option<Constraint>, current: Spot, proposed: Spot) -> (
    Motion,
    bool,
) {
    match constraint {
        Some(c) => match c.origin {
            Some(origin) => if c.region matches Some(rects) && !region_holds(
                rects@,
                from(current, origin).pixel(),
            ) {
                (Motion::To(proposed), false)
            } else if c.locked {
                (Motion::Locked, !c.active)
            } else {
                match c.region {
                    Some(rects) => (
                        Motion::To(confined(rects@, origin, current, proposed)),
                        !c.active,
                    ),
                    None => if c.still_on_surface {
                        (Motion::To(proposed), !c.active)
                    } else {
                        (Motion::To(current), !c.active)
                    },
                }
            },
            None => (Motion::To(proposed), false),
        },
        None => (Motion::To(proposed), false),
    }
}

/// Resolves a proposed pointer position against whatever the client under it has asked for. A
/// region holds the pointer only while it is inside that region; that is also when a constraint
/// that was set up before becomes active.
pub fn constrain(constraint: Option<&Constraint>, current: Spot, proposed: Spot) -> (outcome: (
    Motion,
    bool,
))
    requires
        near(current),
        near(proposed),
        constraint matches Some(c) ==> {
            &&& c.origin matches Some(origin) ==> near(origin)
            &&& c.region matches Some(rects) ==> region_sound(rects@)
        },
    ensures
        outcome == resolved(
            match constraint {
                Some(c) => Some(*c),
                None => None,
            },
            current,
            proposed,
        ),
{
    let c = match constraint {
        Some(c) => c,
        None => {
            return (Motion::To(proposed), false);
        },
    };
    let origin = match c.origin {
        Some(origin) => origin,
        None => {
            return (Motion::To(proposed), false);
        },
    };
    let local = Spot { x: current.x - origin.x, y: current.y - origin.y };
    match &c.region {
        Some(rects) => {
            if !within(Some(rects.as_slice()), local) {
                return (Motion::To(proposed), false);
            }
            if c.locked {
                (Motion::Locked, !c.active)
            } else {
                (
                    Motion::To(clamp_into(rects.as_slice(), origin, current, proposed)),
                    !c.active,
                )
            }
        },
        None => {
            if c.locked {
                (Motion::Locked, !c.active)
            } else if c.still_on_surface {
                (Motion::To(proposed), !c.active)
            } else {
                (Motion::To(current), !c.active)
            }
        },
    }
}

/// A confined pointer does not leave its region.
pub proof fn a_confined_pointer_stays_inside(
    rects: Seq<RegionRect>,
    origin: Spot,
    current: Spot,
    proposed: Spot,
)
    requires
        region_sound(rects),
        near(origin),
        near(current),
        region_holds(rects, from(current, origin).pixel()),
    ensures
        region_holds(rects, from(confined(rects, origin, current, proposed), origin).pixel()),
{
    if let Some(bounds) = added(rects) {
        let landed = pulled(bounds, from(proposed, origin));
        let at = Spot { x: (landed.x + origin.x) as i64, y: (landed.y + origin.y) as i64 };
        assert(from(at, origin) == landed);
    }
}

/// A movement that stays on the pixels of the region's box and lands in the region is left alone.
pub proof fn a_movement_inside_is_untouched(
    rects: Seq<RegionRect>,
    origin: Spot,
    current: Spot,
    proposed: Spot,
)
    requires
        near(origin),
        near(proposed),
        added(rects) matches Some(bounds) && bounds.loc.x * 256 <= proposed.x - origin.x <= (
        bounds.right() - 1) * 256 && bounds.loc.y * 256 <= proposed.y - origin.y <= (bounds.bottom()
            - 1) * 256,
        region_holds(rects, from(proposed, origin).pixel()),
    ensures
        confined(rects, origin, current, proposed) == proposed,
{
}

/// A locked pointer does not move while it is where the constraint applies.
pub proof fn a_locked_pointer_does_not_move(c: Constraint, current: Spot, proposed: Spot)
    requires
        c.locked,
        c.origin is Some,
        c.region matches Some(rects) ==> region_holds(rects@, from(current, c.origin->0).pixel()),
    ensures
        resolved(Some(c), current, proposed).0 == Motion::Locked,
{
}

/// A client cannot take a pointer that it does not have: while its surface is not the one under
/// the pointer, or the pointer is outside the region, it moves freely and nothing is activated.
pub proof fn a_pointer_elsewhere_is_free(c: Constraint, current: Spot, proposed: Spot)
    requires
        c.origin matches Some(origin) ==> (c.region matches Some(rects) && !region_holds(
            rects@,
            from(current, origin).pixel(),
        )),
    ensures
        resolved(Some(c), current, proposed) == (Motion::To(proposed), false),
{
}

/// The last rectangle of a region that a pixel is in decides whether the region has it: one that
/// was added has, one that was taken away has not. A pixel in none of them is not in the region.
pub proof fn the_last_rectangle_decides(rects: Seq<RegionRect>, p: Point, r: int)
    requires
        -1 <= r < rects.len(),
        r >= 0 ==> rects[r].rect.holds(p),
        forall|j: int| r < j < rects.len() ==> !(#[trigger] rects[j]).rect.holds(p),
    ensures
        region_holds(rects, p) == (r >= 0 && rects[r].add),
    decreases rects.len(),
{
    if rects.len() > 0 {
        let fewer = rects.drop_last();
        if r < fewer.len() {
            assert(!rects[rects.len() - 1].rect.holds(p));
            assert forall|j: int| r < j < fewer.len() implies !(#[trigger] fewer[j]).rect.holds(
                p,
            ) by {
                assert(!rects[j].rect.holds(p));
            }
            the_last_rectangle_decides(fewer, p, r);
        }
    }
}

/// A constraint is activated by the first movement that it applies to, and a pointer that is to be
/// kept on a surface stays where it is rather than leave it.
pub proof fn a_kept_pointer_does_not_leave(c: Constraint, current: Spot, proposed: Spot)
    requires
        c.origin is Some,
        c.region is None,
    ensures
        ({
            let (motion, activated) = resolved(Some(c), current, proposed);
            &&& activated == !c.active
            &&& c.locked ==> motion is Locked
            &&& !c.locked && c.still_on_surface ==> motion == Motion::To(proposed)
            &&& !c.locked && !c.still_on_surface ==> motion == Motion::To(current)
        }),
{
}

} // verus!

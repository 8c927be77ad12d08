//! What the operations on the stack keep: each window once, the bands in order, and the order of
//! the windows that an operation is not about.
use vstd::prelude::*;

use crate::geometry::Point;
use crate::state::{
    above_band, at_bottom, ids_without, location, on_top, up_to_band, without, Mapped,
};

verus! {

/// Whether each window is in the stack once.
pub open spec fn each_once(stack: Seq<Mapped>) -> bool {
    forall|i: int, j: int|
        0 <= i < j < stack.len() ==> (#[trigger] stack[i]).id != (#[trigger] stack[j]).id
}

/// Whether the bands are in order, bottom to top.
pub open spec fn banded(stack: Seq<Mapped>) -> bool {
    forall|i: int, j: int|
        0 <= i < j < stack.len() ==> (#[trigger] stack[i]).z <= (#[trigger] stack[j]).z
}

/// Whether a window is in the stack.
pub open spec fn stacked(stack: Seq<Mapped>, id: u64) -> bool {
    exists|i: int| 0 <= i < stack.len() && (#[trigger] stack[i]).id == id
}

proof fn stacked_splits(stack: Seq<Mapped>, id: u64)
    requires
        stack.len() > 0,
    ensures
        stacked(stack, id) <==> stacked(stack.drop_last(), id) || stack.last().id == id,
{
    if stacked(stack.drop_last(), id) {
        let i = choose|i: int|
            0 <= i < stack.drop_last().len() && (#[trigger] stack.drop_last()[i]).id == id;
        assert(stack[i].id == id);
    }
    if stack.last().id == id {
        assert(stack[stack.len() - 1].id == id);
    }
    if stacked(stack, id) && stack.last().id != id {
        let i = choose|i: int| 0 <= i < stack.len() && (#[trigger] stack[i]).id == id;
        assert(stack.drop_last()[i].id == id);
    }
}

/// A window is in the stack where it has a location.
pub proof fn located_is_stacked(stack: Seq<Mapped>, id: u64)
    ensures
        location(stack, id) is Some <==> stacked(stack, id),
    decreases stack.len(),
{
    if stack.len() > 0 {
        located_is_stacked(stack.drop_last(), id);
        stacked_splits(stack, id);
    }
}

/// Taking a window out of the stack leaves the others where they were, in their order.
pub proof fn without_keeps_the_rest(stack: Seq<Mapped>, id: u64, other: u64)
    ensures
        !stacked(without(stack, id), id),
        other != id ==> location(without(stack, id), other) == location(stack, other),
        other != id ==> (stacked(without(stack, id), other) <==> stacked(stack, other)),
        without(stack, id).len() <= stack.len(),
        each_once(stack) ==> each_once(without(stack, id)),
        banded(stack) ==> banded(without(stack, id)),
        !stacked(stack, id) ==> without(stack, id) == stack,
    decreases stack.len(),
{
    if stack.len() > 0 {
        let fewer = stack.drop_last();
        let last = stack.last();
        without_keeps_the_rest(fewer, id, other);
        without_keeps_the_rest(fewer, id, last.id);
        stacked_splits(stack, id);
        stacked_splits(stack, other);
        let kept = without(fewer, id);
        if last.id != id {
            let all = kept.push(last);
            assert(all.drop_last() =~= kept);
            stacked_splits(all, id);
            stacked_splits(all, other);
            if each_once(stack) {
                assert(each_once(fewer)) by {
                    assert forall|i: int, j: int| 0 <= i < j < fewer.len() implies (
                    #[trigger] fewer[i]).id != (#[trigger] fewer[j]).id by {
                        assert(stack[i].id != stack[j].id);
                    }
                }
                assert(!stacked(fewer, last.id)) by {
                    if stacked(fewer, last.id) {
                        let i = choose|i: int|
                            0 <= i < fewer.len() && (#[trigger] fewer[i]).id == last.id;
                        assert(stack[i].id != stack[stack.len() - 1].id);
                    }
                }
                assert(!stacked(kept, last.id));
                assert forall|i: int, j: int| 0 <= i < j < all.len() implies (
                #[trigger] all[i]).id != (#[trigger] all[j]).id by {
                    if j < kept.len() {
                        assert(kept[i].id != kept[j].id);
                    } else {
                        assert(kept[i] == all[i]);
                    }
                }
            }
            if banded(stack) {
                assert(banded(fewer)) by {
                    assert forall|i: int, j: int| 0 <= i < j < fewer.len() implies (
                    #[trigger] fewer[i]).z <= (#[trigger] fewer[j]).z by {
                        assert(stack[i].z <= stack[j].z);
                    }
                }
                assert(banded(kept));
                without_is_part(fewer, id);
                assert forall|i: int, j: int| 0 <= i < j < all.len() implies (
                #[trigger] all[i]).z <= (#[trigger] all[j]).z by {
                    if j < kept.len() {
                        assert(kept[i].z <= kept[j].z);
                    } else {
                        assert(kept[i] == all[i]);
                        let k = choose|k: int| 0 <= k < fewer.len() && fewer[k] == kept[i];
                        assert(stack[k].z <= stack[stack.len() - 1].z);
                    }
                }
            }
        } else {
            if each_once(stack) {
                assert forall|i: int, j: int| 0 <= i < j < fewer.len() implies (
                #[trigger] fewer[i]).id != (#[trigger] fewer[j]).id by {
                    assert(stack[i].id != stack[j].id);
                }
            }
            if banded(stack) {
                assert forall|i: int, j: int| 0 <= i < j < fewer.len() implies (
                #[trigger] fewer[i]).z <= (#[trigger] fewer[j]).z by {
                    assert(stack[i].z <= stack[j].z);
                }
            }
        }
        if !stacked(stack, id) {
            assert(without(stack, id) =~= stack);
        }
    }
}

proof fn without_is_part(stack: Seq<Mapped>, id: u64)
    ensures
        forall|i: int|
            0 <= i < without(stack, id).len() ==> exists|k: int|
                0 <= k < stack.len() && stack[k] == #[trigger] without(stack, id)[i],
    decreases stack.len(),
{
    if stack.len() > 0 {
        let fewer = stack.drop_last();
        without_is_part(fewer, id);
        let kept = without(stack, id);
        assert forall|i: int| 0 <= i < kept.len() implies exists|k: int|
            0 <= k < stack.len() && stack[k] == #[trigger] kept[i] by {
            if i < without(fewer, id).len() {
                let k = choose|k: int|
                    0 <= k < fewer.len() && fewer[k] == without(fewer, id)[i];
                assert(stack[k] == kept[i]);
            } else {
                assert(stack[stack.len() - 1] == kept[i]);
            }
        }
    }
}

/// The two parts of a stack, below and above a band, make it up where its bands are in order.
pub proof fn bands_make_up_the_stack(stack: Seq<Mapped>, z: int)
    requires
        banded(stack),
    ensures
        up_to_band(stack, z) + above_band(stack, z) == stack,
        forall|i: int| 0 <= i < up_to_band(stack, z).len() ==> (#[trigger] up_to_band(stack, z)[i]).z <= z,
        forall|i: int| 0 <= i < above_band(stack, z).len() ==> (#[trigger] above_band(stack, z)[i]).z > z,
    decreases stack.len(),
{
    if stack.len() > 0 {
        let fewer = stack.drop_last();
        assert forall|i: int, j: int| 0 <= i < j < fewer.len() implies (#[trigger] fewer[i]).z
            <= (#[trigger] fewer[j]).z by {
            assert(stack[i].z <= stack[j].z);
        }
        bands_make_up_the_stack(fewer, z);
        let low = up_to_band(fewer, z);
        let high = above_band(fewer, z);
        if stack.last().z <= z {
            if high.len() > 0 {
                assert(fewer[low.len() as int] == high[0]);
                assert(stack[low.len() as int].z <= stack[stack.len() - 1].z);
            }
            assert(low.push(stack.last()) + high =~= stack);
        } else {
            assert(low + high.push(stack.last()) =~= (low + high).push(stack.last()));
            assert(fewer.push(stack.last()) =~= stack);
        }
    } else {
        assert(up_to_band(stack, z) + above_band(stack, z) =~= stack);
    }
}

proof fn location_in_two_parts(low: Seq<Mapped>, high: Seq<Mapped>, id: u64)
    ensures
        location(low + high, id) == if location(low, id) is Some {
            location(low, id)
        } else {
            location(high, id)
        },
    decreases high.len(),
{
    if high.len() == 0 {
        assert(low + high =~= low);
    } else {
        assert((low + high).drop_last() =~= low + high.drop_last());
        location_in_two_parts(low, high.drop_last(), id);
    }
}

/// A window put into a stack whose bands are in order, between the bands up to `z` and the rest.
proof fn inserting_keeps_the_rest(rest: Seq<Mapped>, m: Mapped, z: int, other: u64)
    requires
        each_once(rest),
        banded(rest),
        !stacked(rest, m.id),
        m.z == z || m.z == z + 1,
    ensures
        ({
            let all = up_to_band(rest, z).push(m) + above_band(rest, z);
            &&& each_once(all)
            &&& banded(all)
            &&& location(all, m.id) == Some(m.loc)
            &&& other != m.id ==> location(all, other) == location(rest, other)
            &&& without(all, m.id) == rest
        }),
{
    let low = up_to_band(rest, z);
    let high = above_band(rest, z);
    let all = low.push(m) + high;
    bands_make_up_the_stack(rest, z);
    let n = low.len() as int;
    assert forall|i: int| 0 <= i < all.len() implies #[trigger] all[i] == if i < n {
        rest[i]
    } else if i == n {
        m
    } else {
        rest[i - 1]
    } by {
        if i < n {
            assert((low + high)[i] == low[i]);
        } else if i > n {
            assert((low + high)[i - 1] == high[i - 1 - n]);
        }
    }
    assert forall|i: int, j: int| 0 <= i < j < all.len() implies (#[trigger] all[i]).id != (
    #[trigger] all[j]).id by {
        if i == n || j == n {
            let k = if i == n { j - 1 } else { i };
            assert(rest[k].id != m.id);
        }
    }
    assert forall|i: int, j: int| 0 <= i < j < all.len() implies (#[trigger] all[i]).z <= (
    #[trigger] all[j]).z by {
        if j == n {
            assert(low[i].z <= z);
        } else if i == n {
            assert(high[j - 1 - n].z > z);
        }
    }
    location_in_two_parts(low.push(m), high, m.id);
    location_in_two_parts(low.push(m), high, other);
    location_in_two_parts(low, high, m.id);
    location_in_two_parts(low, high, other);
    assert(low.push(m).drop_last() =~= low);
    located_is_stacked(rest, m.id);
    without_in_two_parts(low.push(m), high, m.id);
    assert(!stacked(low, m.id)) by {
        if stacked(low, m.id) {
            let i = choose|i: int| 0 <= i < low.len() && (#[trigger] low[i]).id == m.id;
            assert(rest[i] == low[i]);
        }
    }
    assert(!stacked(high, m.id)) by {
        if stacked(high, m.id) {
            let i = choose|i: int| 0 <= i < high.len() && (#[trigger] high[i]).id == m.id;
            assert(rest[i + n] == high[i]);
        }
    }
    without_keeps_the_rest(low, m.id, other);
    without_keeps_the_rest(high, m.id, other);
}

proof fn without_in_two_parts(low: Seq<Mapped>, high: Seq<Mapped>, id: u64)
    ensures
        without(low + high, id) == without(low, id) + without(high, id),
    decreases high.len(),
{
    if high.len() == 0 {
        assert(low + high =~= low);
        assert(without(low, id) + without(high, id) =~= without(low, id));
    } else {
        assert((low + high).drop_last() =~= low + high.drop_last());
        without_in_two_parts(low, high.drop_last(), id);
        assert(without(low + high, id) =~= without(low, id) + without(high, id));
    }
}

/// Showing a window on top puts it there, and keeps the others where they were, in their order;
/// the stack stays in order.
pub proof fn on_top_keeps_the_rest(stack: Seq<Mapped>, m: Mapped, other: u64)
    requires
        each_once(stack),
        banded(stack),
    ensures
        each_once(on_top(stack, m)),
        banded(on_top(stack, m)),
        location(on_top(stack, m), m.id) == Some(m.loc),
        other != m.id ==> location(on_top(stack, m), other) == location(stack, other),
        without(on_top(stack, m), m.id) == without(stack, m.id),
{
    without_keeps_the_rest(stack, m.id, other);
    inserting_keeps_the_rest(without(stack, m.id), m, m.z as int, other);
}

/// Sending a window to the bottom keeps it and the others where they were, and the others in
/// their order; the stack stays in order.
pub proof fn at_bottom_keeps_the_rest(stack: Seq<Mapped>, m: Mapped, other: u64)
    requires
        each_once(stack),
        banded(stack),
    ensures
        each_once(at_bottom(stack, m)),
        banded(at_bottom(stack, m)),
        location(at_bottom(stack, m), m.id) == Some(m.loc),
        other != m.id ==> location(at_bottom(stack, m), other) == location(stack, other),
        without(at_bottom(stack, m), m.id) == without(stack, m.id),
{
    without_keeps_the_rest(stack, m.id, other);
    inserting_keeps_the_rest(without(stack, m.id), m, m.z - 1, other);
}

/// Whether one window is below another in the stack.
pub open spec fn below(stack: Seq<Mapped>, low: u64, high: u64) -> bool
    decreases stack.len(),
{
    if stack.len() == 0 {
        false
    } else {
        ||| stack.last().id == high && stacked(stack.drop_last(), low)
        ||| below(stack.drop_last(), low, high)
    }
}

proof fn without_keeps_the_order(stack: Seq<Mapped>, id: u64, low: u64, high: u64)
    requires
        low != id,
        high != id,
    ensures
        below(without(stack, id), low, high) == below(stack, low, high),
    decreases stack.len(),
{
    if stack.len() > 0 {
        let fewer = stack.drop_last();
        without_keeps_the_order(fewer, id, low, high);
        if stack.last().id != id {
            assert(without(stack, id).drop_last() =~= without(fewer, id));
            without_keeps_the_rest(fewer, id, low);
        }
    }
}

/// Showing a window on top keeps which of two others is below the other.
pub proof fn on_top_keeps_the_order(stack: Seq<Mapped>, m: Mapped, low: u64, high: u64)
    requires
        each_once(stack),
        banded(stack),
        low != m.id,
        high != m.id,
    ensures
        below(on_top(stack, m), low, high) == below(stack, low, high),
{
    on_top_keeps_the_rest(stack, m, low);
    without_keeps_the_order(stack, m.id, low, high);
    without_keeps_the_order(on_top(stack, m), m.id, low, high);
}

proof fn below_what_follows(under: Seq<Mapped>, m: Mapped, over: Seq<Mapped>, low: u64)
    requires
        stacked(under, low),
    ensures
        below(under.push(m) + over, low, m.id),
    decreases over.len(),
{
    let all = under.push(m) + over;
    if over.len() == 0 {
        assert(all.drop_last() =~= under);
    } else {
        assert(all.drop_last() =~= under.push(m) + over.drop_last());
        below_what_follows(under, m, over.drop_last(), low);
    }
}

proof fn up_to_band_holds(stack: Seq<Mapped>, z: int, x: Mapped)
    requires
        stack.contains(x),
    ensures
        x.z <= z ==> up_to_band(stack, z).contains(x),
        x.z > z ==> above_band(stack, z).contains(x),
    decreases stack.len(),
{
    let fewer = stack.drop_last();
    let low = up_to_band(fewer, z);
    let high = above_band(fewer, z);
    if stack.last() == x {
        if x.z <= z {
            assert(low.push(x)[low.len() as int] == x);
        } else {
            assert(high.push(x)[high.len() as int] == x);
        }
    } else {
        let i = stack.index_of(x);
        assert(fewer[i] == x);
        up_to_band_holds(fewer, z, x);
        if x.z <= z {
            let k = low.index_of(x);
            assert(low.push(stack.last())[k] == x);
        } else {
            let k = high.index_of(x);
            assert(high.push(stack.last())[k] == x);
        }
    }
}

proof fn without_holds(stack: Seq<Mapped>, id: u64, x: Mapped)
    requires
        stack.contains(x),
        x.id != id,
    ensures
        without(stack, id).contains(x),
    decreases stack.len(),
{
    let fewer = stack.drop_last();
    let kept = without(fewer, id);
    if stack.last() == x {
        assert(kept.push(x)[kept.len() as int] == x);
    } else {
        let i = stack.index_of(x);
        assert(fewer[i] == x);
        without_holds(fewer, id, x);
        let k = kept.index_of(x);
        if stack.last().id != id {
            assert(kept.push(stack.last())[k] == x);
        }
    }
}

/// A window shown on top is above every other one in its band and the bands below; the others
/// stay in the stack as they were.
pub proof fn on_top_is_above(stack: Seq<Mapped>, m: Mapped, x: Mapped)
    requires
        stack.contains(x),
        x.id != m.id,
    ensures
        x.z <= m.z ==> below(on_top(stack, m), x.id, m.id),
        on_top(stack, m).contains(x),
        on_top(stack, m).contains(m),
{
    let rest = without(stack, m.id);
    let low = up_to_band(rest, m.z as int);
    let high = above_band(rest, m.z as int);
    let all = low.push(m) + high;
    without_holds(stack, m.id, x);
    up_to_band_holds(rest, m.z as int, x);
    assert(all[low.len() as int] == m);
    if x.z <= m.z {
        let i = low.index_of(x);
        assert(low[i].id == x.id);
        assert(all[i] == x);
        below_what_follows(low, m, high, x.id);
    } else {
        let i = high.index_of(x);
        assert(all[low.len() + 1 + i] == x);
    }
}

/// Letting go of an id leaves the others, each as often as before.
pub proof fn ids_without_keeps_the_rest(ids: Seq<u64>, id: u64, other: u64)
    ensures
        !ids_without(ids, id).contains(id),
        other != id ==> (ids_without(ids, id).contains(other) <==> ids.contains(other)),
        ids.no_duplicates() ==> ids_without(ids, id).no_duplicates(),
    decreases ids.len(),
{
    if ids.len() > 0 {
        let fewer = ids.drop_last();
        let last = ids.last();
        ids_without_keeps_the_rest(fewer, id, other);
        ids_without_keeps_the_rest(fewer, id, last);
        let kept = ids_without(fewer, id);
        assert(ids =~= fewer.push(last));
        assert(ids.contains(other) <==> fewer.contains(other) || last == other) by {
            if fewer.contains(other) {
                let i = fewer.index_of(other);
                assert(ids[i] == other);
            }
            if last == other {
                assert(ids[ids.len() - 1] == other);
            }
        }
        if last != id {
            let all = kept.push(last);
            assert(all.contains(other) <==> kept.contains(other) || last == other) by {
                if kept.contains(other) {
                    let i = kept.index_of(other);
                    assert(all[i] == other);
                }
                if last == other {
                    assert(all[all.len() - 1] == other);
                }
            }
            if ids.no_duplicates() {
                assert(!fewer.contains(last));
                assert(!kept.contains(last));
            }
        }
    }
}

/// Whether a window is in the stack with its contents at a point.
pub open spec fn stands(stack: Seq<Mapped>, id: u64, at: Point) -> bool {
    exists|k: int| 0 <= k < stack.len() && (#[trigger] stack[k]).id == id && stack[k].loc == at
}

/// Whether every window above one in the stack is of a higher band than `z`.
pub open spec fn foremost(stack: Seq<Mapped>, id: u64, z: u8) -> bool {
    forall|i: int, j: int|
        0 <= i < j < stack.len() && (#[trigger] stack[i]).id == id ==> (#[trigger] stack[j]).z > z
}

/// Whether every window below one in the stack is of a lower band than `z`.
pub open spec fn hindmost(stack: Seq<Mapped>, id: u64, z: u8) -> bool {
    forall|i: int, j: int|
        0 <= i < j < stack.len() && (#[trigger] stack[j]).id == id ==> (#[trigger] stack[i]).z < z
}

/// A window in the stack is where its entry says.
pub proof fn a_stacked_window_is_located(stack: Seq<Mapped>, k: int)
    requires
        each_once(stack),
        0 <= k < stack.len(),
    ensures
        location(stack, stack[k].id) == Some(stack[k].loc),
    decreases stack.len(),
{
    let fewer = stack.drop_last();
    assert(each_once(fewer)) by {
        assert forall|i: int, j: int| 0 <= i < j < fewer.len() implies (#[trigger] fewer[i]).id != (
        #[trigger] fewer[j]).id by {
            assert(stack[i].id != stack[j].id);
        }
    }
    if k < fewer.len() {
        a_stacked_window_is_located(fewer, k);
    } else {
        located_is_stacked(fewer, stack[k].id);
        if stacked(fewer, stack[k].id) {
            let i = choose|i: int| 0 <= i < fewer.len() && (#[trigger] fewer[i]).id == stack[k].id;
            assert(stack[i].id != stack[k].id);
        }
    }
}

/// A window that has a location stands there.
pub proof fn a_located_window_stands(stack: Seq<Mapped>, id: u64)
    requires
        location(stack, id) is Some,
    ensures
        stands(stack, id, location(stack, id)->0),
    decreases stack.len(),
{
    let fewer = stack.drop_last();
    if location(fewer, id) is Some {
        a_located_window_stands(fewer, id);
        let k = choose|k: int|
            0 <= k < fewer.len() && (#[trigger] fewer[k]).id == id && fewer[k].loc == location(
                stack,
                id,
            )->0;
        assert(stack[k].id == id && stack[k].loc == location(stack, id)->0);
    } else {
        let k = stack.len() - 1;
        assert(stack[k].id == id && stack[k].loc == location(stack, id)->0);
    }
}

/// A window shown on top is in front of every other one up to its band.
pub proof fn on_top_is_foremost(stack: Seq<Mapped>, m: Mapped)
    requires
        each_once(stack),
        banded(stack),
    ensures
        stands(on_top(stack, m), m.id, m.loc),
        foremost(on_top(stack, m), m.id, m.z),
{
    let rest = without(stack, m.id);
    let low = up_to_band(rest, m.z as int);
    let high = above_band(rest, m.z as int);
    let all = low.push(m) + high;
    without_keeps_the_rest(stack, m.id, m.id);
    on_top_keeps_the_rest(stack, m, m.id);
    bands_make_up_the_stack(rest, m.z as int);
    let n = low.len() as int;
    assert(all[n] == m);
    assert forall|i: int, j: int| 0 <= i < j < all.len() && (#[trigger] all[i]).id == m.id implies (
    #[trigger] all[j]).z > m.z by {
        if i < n {
            assert(all[i].id != all[n].id);
        } else if n < i {
            assert(all[n].id != all[i].id);
        }
        assert(all[j] == high[j - n - 1]);
    }
}

/// A window sent to the bottom is behind every other one from its band up.
pub proof fn at_bottom_is_hindmost(stack: Seq<Mapped>, m: Mapped)
    requires
        each_once(stack),
        banded(stack),
    ensures
        stands(at_bottom(stack, m), m.id, m.loc),
        hindmost(at_bottom(stack, m), m.id, m.z),
{
    let rest = without(stack, m.id);
    let low = up_to_band(rest, m.z - 1);
    let high = above_band(rest, m.z - 1);
    let all = low.push(m) + high;
    without_keeps_the_rest(stack, m.id, m.id);
    at_bottom_keeps_the_rest(stack, m, m.id);
    bands_make_up_the_stack(rest, m.z - 1);
    let n = low.len() as int;
    assert(all[n] == m);
    assert forall|i: int, j: int| 0 <= i < j < all.len() && (#[trigger] all[j]).id == m.id implies (
    #[trigger] all[i]).z < m.z by {
        if j < n {
            assert(all[j].id != all[n].id);
        } else if n < j {
            assert(all[n].id != all[j].id);
        }
        assert(all[i] == low[i]);
    }
}

} // verus!

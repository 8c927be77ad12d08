//! wlRIX shell components, recognized by app id: where they are anchored, and which of them stay
//! above ordinary windows.
use vstd::prelude::*;

use crate::outcomes::{at_home_is_its_screen, is_at_home};
use crate::state::{
    a_listed_window_is_found, find, find_screen, listed_once, location, on_top, Effect, Mapped,
    Scene, Screen, Window, Wlrix,
};
use crate::geometry::{fits, larger, max, Point, Rect, Size};
use crate::scan::same_text;
use crate::stacking::{
    a_located_window_stands, banded, below, each_once, located_is_stacked, on_top_is_above,
    on_top_keeps_the_order, on_top_keeps_the_rest, stacked, stands,
};
use crate::window_ops::screen_of;

verus! {

/// Where a shell component sits on its output.
#[derive(Debug, Clone, Copy, PartialEq, Eq, Structural)]
pub enum Anchor {
    TopLeft,
    TopRight,
    BottomLeft,
    BottomRight,
}

/// How the compositor treats a recognized shell component.
#[derive(Debug, Clone, Copy, PartialEq, Eq, Structural)]
pub struct ShellRule {
    pub anchor: Anchor,
    /// Keep stacked above ordinary windows.
    pub always_on_top: bool,
}

/// Marks a window that is recognized as a component.
#[derive(Debug, Clone, Copy, PartialEq, Eq, Structural)]
pub struct ShellComponent(pub ShellRule);

/// The rule for an app id, if it names a wlRIX shell component.
pub fn rule_for(app_id: &str) -> (rule: Option<ShellRule>)
    ensures
        rule == if app_id@ == "com.wlrix.toolchest"@ {
            Some(ShellRule { anchor: Anchor::TopLeft, always_on_top: true })
        } else if app_id@ == "com.wlrix.desks"@ {
            Some(ShellRule { anchor: Anchor::BottomLeft, always_on_top: true })
        } else {
            None
        },
{
    if same_text(app_id, "com.wlrix.toolchest") {
        Some(ShellRule { anchor: Anchor::TopLeft, always_on_top: true })
    } else if same_text(app_id, "com.wlrix.desks") {
        Some(ShellRule { anchor: Anchor::BottomLeft, always_on_top: true })
    } else {
        None
    }
}

/// Where a component's far side would start, never before the area's near edge.
pub open spec fn far_start(near: int, span: int, length: int) -> int {
    near + max(span - length, 0)
}

/// Where a component of `size` goes within `area`.
pub open spec fn anchored(anchor: Anchor, area: Rect, size: Size) -> Point {
    let right = far_start(area.loc.x as int, area.size.w as int, size.w as int) as i32;
    let bottom = far_start(area.loc.y as int, area.size.h as int, size.h as int) as i32;
    match anchor {
        Anchor::TopLeft => Point { x: area.loc.x, y: area.loc.y },
        Anchor::TopRight => Point { x: right, y: area.loc.y },
        Anchor::BottomLeft => Point { x: area.loc.x, y: bottom },
        Anchor::BottomRight => Point { x: right, y: bottom },
    }
}

/// Whether the far sides start where an `i32` can tell.
pub open spec fn can_anchor(area: Rect, size: Size) -> bool {
    &&& fits(far_start(area.loc.x as int, area.size.w as int, size.w as int))
    &&& fits(far_start(area.loc.y as int, area.size.h as int, size.h as int))
}

/// Positions a component of `size` within `area` according to its anchor.
pub fn anchor_position(anchor: Anchor, area: Rect, size: Size) -> (p: Point)
    requires
        can_anchor(area, size),
    ensures
        p == anchored(anchor, area, size),
{
    let right: i64 = area.loc.x as i64 + larger(area.size.w as i64 - size.w as i64, 0);
    let bottom: i64 = area.loc.y as i64 + larger(area.size.h as i64 - size.h as i64, 0);
    match anchor {
        Anchor::TopLeft => Point { x: area.loc.x, y: area.loc.y },
        Anchor::TopRight => Point { x: right as i32, y: area.loc.y },
        Anchor::BottomLeft => Point { x: area.loc.x, y: bottom as i32 },
        Anchor::BottomRight => Point { x: right as i32, y: bottom as i32 },
    }
}

/// A component no larger than the area is anchored inside it.
pub proof fn an_anchored_component_is_inside(anchor: Anchor, area: Rect, size: Size)
    requires
        can_anchor(area, size),
        size.w <= area.size.w,
        size.h <= area.size.h,
    ensures
        ({
            let p = anchored(anchor, area, size);
            &&& area.loc.x <= p.x && p.x + size.w <= area.right()
            &&& area.loc.y <= p.y && p.y + size.h <= area.bottom()
        }),
{
}

/// The first rule that the marks give a window.
pub open spec fn rule_of(marks: Seq<(u64, ShellComponent)>, id: u64) -> Option<ShellRule>
    decreases marks.len(),
{
    if marks.len() == 0 {
        None
    } else {
        match rule_of(marks.drop_last(), id) {
            Some(rule) => Some(rule),
            None => if marks.last().0 == id {
                Some(marks.last().1.0)
            } else {
                None
            },
        }
    }
}

/// Where a window is anchored, and whether it stays on top, where it is a component and has a
/// screen to be on.
pub open spec fn anchoring(s: Scene, marks: Seq<(u64, ShellComponent)>, id: u64) -> Option<
    (Point, bool),
> {
    match (rule_of(marks, id), find(s.windows, id)) {
        (Some(rule), Some(w)) => match screen_of(s, w) {
            Some(Screen { geometry: Some(area), .. }) => Some(
                (anchored(rule.anchor, area, w.size), rule.always_on_top),
            ),
            _ => None,
        },
        _ => None,
    }
}

/// The components in a stack, with where each is anchored and whether it stays on top.
pub open spec fn anchorings(s: Scene, marks: Seq<(u64, ShellComponent)>, stack: Seq<Mapped>) -> Seq<
    (u64, Point, bool),
>
    decreases stack.len(),
{
    if stack.len() == 0 {
        Seq::empty()
    } else {
        let before = anchorings(s, marks, stack.drop_last());
        match anchoring(s, marks, stack.last().id) {
            Some((at, top)) => before.push((stack.last().id, at, top)),
            None => before,
        }
    }
}

/// Anchoring components one after the other; one that is where it belongs is left alone.
pub open spec fn anchor_each(s: Scene, list: Seq<(u64, Point, bool)>) -> (Scene, Seq<Effect>)
    decreases list.len(),
{
    if list.len() == 0 {
        (s, Seq::empty())
    } else {
        let (before, asked) = anchor_each(s, list.drop_last());
        let (id, at, top) = list.last();
        if location(before.stack, id) == Some(at) {
            (before, asked)
        } else {
            let z = match find(before.windows, id) {
                Some(w) => w.z,
                None => 0,
            };
            (
                Scene { stack: on_top(before.stack, Mapped { id, z, loc: at }), ..before },
                asked.push(Effect::Show { window: id, at, activate: false }) + if top {
                    seq![Effect::Raise { window: id, activate: false }]
                } else {
                    Seq::empty()
                },
            )
        }
    }
}

/// Whether a window is a component that stays on top.
pub open spec fn stays_on_top(marks: Seq<(u64, ShellComponent)>, id: u64) -> bool {
    rule_of(marks, id) matches Some(rule) && rule.always_on_top
}

/// The components of a stack that stay on top.
pub open spec fn kept_on_top(marks: Seq<(u64, ShellComponent)>, stack: Seq<Mapped>) -> Seq<Mapped>
    decreases stack.len(),
{
    if stack.len() == 0 {
        Seq::empty()
    } else {
        let before = kept_on_top(marks, stack.drop_last());
        if stays_on_top(marks, stack.last().id) {
            before.push(stack.last())
        } else {
            before
        }
    }
}

/// Raising windows one after the other.
pub open spec fn raise_each(stack: Seq<Mapped>, list: Seq<Mapped>) -> Seq<Mapped>
    decreases list.len(),
{
    if list.len() == 0 {
        stack
    } else {
        on_top(raise_each(stack, list.drop_last()), list.last())
    }
}

/// Whether every component can be anchored on its screen.
pub open spec fn can_arrange(s: Scene) -> bool {
    forall|i: int, j: int|
        0 <= i < s.windows.len() && 0 <= j < s.screens.len() ==> (
        #[trigger] s.screens[j].geometry matches Some(area) ==> can_anchor(
            area,
            (#[trigger] s.windows[i]).size,
        ))
}

fn find_rule(marks: &[(u64, ShellComponent)], id: u64) -> (rule: Option<ShellRule>)
    ensures
        rule == rule_of(marks@, id),
{
    let mut rule: Option<ShellRule> = None;
    let mut i: usize = 0;
    assert(marks@.take(0) =~= Seq::empty());
    while i < marks.len()
        invariant
            i <= marks@.len(),
            rule == rule_of(marks@.take(i as int), id),
        decreases marks.len() - i,
    {
        let (other, component) = marks[i];
        i += 1;
        assert(marks@.take(i as int).drop_last() =~= marks@.take(i - 1));
        if rule.is_none() && other == id {
            rule = Some(component.0);
        }
    }
    assert(marks@.take(marks@.len() as int) =~= marks@);
    rule
}

proof fn screen_of_is_listed(s: Scene, w: Window) -> (j: int)
    requires
        screen_of(s, w) is Some,
    ensures
        0 <= j < s.screens.len(),
        screen_of(s, w) == Some(s.screens[j]),
{
    if w.home is Some && find_screen(s.screens, w.home->0) is Some {
        listed_screen(s.screens, w.home->0)
    } else {
        0
    }
}

proof fn listed_screen(screens: Seq<Screen>, id: u64) -> (i: int)
    requires
        find_screen(screens, id) is Some,
    ensures
        0 <= i < screens.len(),
        find_screen(screens, id) == Some(screens[i]),
    decreases screens.len(),
{
    if find_screen(screens.drop_last(), id) is Some {
        listed_screen(screens.drop_last(), id)
    } else {
        screens.len() - 1
    }
}

impl Wlrix {
    fn anchoring(&self, marks: &[(u64, ShellComponent)], id: u64) -> (at: Option<(Point, bool)>)
        requires
            can_arrange(self@),
        ensures
            at == anchoring(self@, marks@, id),
    {
        match (find_rule(marks, id), self.window(id)) {
            (Some(rule), Some(w)) => match self.screen_of(&w) {
                Some(screen) => match screen.geometry {
                    Some(area) => {
                        proof {
                            let i = crate::state::found_is_listed(self@.windows, id);
                            let j = screen_of_is_listed(self@, w);
                            assert(self@.screens[j].geometry == Some(area));
                            assert(self@.windows[i].size == w.size);
                        }
                        Some((anchor_position(rule.anchor, area, w.size), rule.always_on_top))
                    },
                    None => None,
                },
                None => None,
            },
            _ => None,
        }
    }

    /// Re-anchors every recognized shell component and keeps the always-on-top ones raised. A
    /// component that is where it belongs is left alone.
    pub fn arrange(&mut self, marks: &[(u64, ShellComponent)]) -> (effects: Vec<Effect>)
        requires
            can_arrange(old(self)@),
        ensures
            (final(self)@, effects@) == anchor_each(
                old(self)@,
                anchorings(old(self)@, marks@, old(self)@.stack),
            ),
    {
        let mut list: Vec<(u64, Point, bool)> = Vec::new();
        let mut i: usize = 0;
        assert(self.stack@.take(0) =~= Seq::empty());
        while i < self.stack.len()
            invariant
                i <= self.stack@.len(),
                can_arrange(self@),
                *self == *old(self),
                list@ == anchorings(self@, marks@, self.stack@.take(i as int)),
            decreases self.stack.len() - i,
        {
            let id: u64 = self.stack[i].id;
            i += 1;
            assert(self.stack@.take(i as int).drop_last() =~= self.stack@.take(i - 1));
            if let Some((at, top)) = self.anchoring(marks, id) {
                list.push((id, at, top));
            }
        }
        assert(self.stack@.take(self.stack@.len() as int) =~= self.stack@);
        let mut effects: Vec<Effect> = Vec::new();
        let mut j: usize = 0;
        assert(list@.take(0) =~= Seq::empty());
        while j < list.len()
            invariant
                j <= list@.len(),
                (self@, effects@) == anchor_each(old(self)@, list@.take(j as int)),
            decreases list.len() - j,
        {
            let (id, at, top) = list[j];
            j += 1;
            let ghost upto = list@.take(j as int);
            assert(upto.drop_last() =~= list@.take(j - 1));
            let ghost asked = effects@;
            let there = match self.element_location(id) {
                Some(loc) => loc.x == at.x && loc.y == at.y,
                None => false,
            };
            if !there {
                let z: u8 = match self.window(id) {
                    Some(w) => w.z,
                    None => 0,
                };
                self.map_on_top(Mapped { id, z, loc: at });
                effects.push(Effect::Show { window: id, at, activate: false });
                if top {
                    effects.push(Effect::Raise { window: id, activate: false });
                }
                assert(effects@ =~= asked.push(
                    Effect::Show { window: id, at, activate: false },
                ) + if top {
                    seq![Effect::Raise { window: id, activate: false }]
                } else {
                    Seq::empty()
                });
            }
        }
        assert(list@.take(list@.len() as int) =~= list@);
        effects
    }

    /// Raises always-on-top components back above ordinary windows, in their order.
    pub fn raise_always_on_top(&mut self, marks: &[(u64, ShellComponent)]) -> (raised: Vec<Mapped>)
        ensures
            raised@ == kept_on_top(marks@, old(self)@.stack),
            final(self)@ == (Scene {
                stack: raise_each(old(self)@.stack, raised@),
                ..old(self)@
            }),
    {
        let mut raised: Vec<Mapped> = Vec::new();
        let mut i: usize = 0;
        assert(self.stack@.take(0) =~= Seq::empty());
        while i < self.stack.len()
            invariant
                i <= self.stack@.len(),
                *self == *old(self),
                raised@ == kept_on_top(marks@, self.stack@.take(i as int)),
            decreases self.stack.len() - i,
        {
            let m = self.stack[i];
            i += 1;
            assert(self.stack@.take(i as int).drop_last() =~= self.stack@.take(i - 1));
            if let Some(rule) = find_rule(marks, m.id) {
                if rule.always_on_top {
                    raised.push(m);
                }
            }
        }
        assert(self.stack@.take(self.stack@.len() as int) =~= self.stack@);
        let mut j: usize = 0;
        assert(raised@.take(0) =~= Seq::empty());
        while j < raised.len()
            invariant
                j <= raised@.len(),
                self@ == (Scene {
                    stack: raise_each(old(self)@.stack, raised@.take(j as int)),
                    ..old(self)@
                }),
            decreases raised.len() - j,
        {
            self.map_on_top(raised[j]);
            j += 1;
            assert(raised@.take(j as int).drop_last() =~= raised@.take(j - 1));
        }
        assert(raised@.take(raised@.len() as int) =~= raised@);
        raised
    }
}

proof fn kept_are_the_components(marks: Seq<(u64, ShellComponent)>, stack: Seq<Mapped>)
    ensures
        forall|i: int|
            0 <= i < kept_on_top(marks, stack).len() ==> stack.contains(
                #[trigger] kept_on_top(marks, stack)[i],
            ) && stays_on_top(marks, kept_on_top(marks, stack)[i].id),
        forall|m: Mapped| #[trigger]
            stack.contains(m) && stays_on_top(marks, m.id) ==> kept_on_top(marks, stack).contains(
                m,
            ),
        each_once(stack) ==> each_once(kept_on_top(marks, stack)),
    decreases stack.len(),
{
    if stack.len() > 0 {
        let fewer = stack.drop_last();
        let last = stack.last();
        kept_are_the_components(marks, fewer);
        let before = kept_on_top(marks, fewer);
        let list = kept_on_top(marks, stack);
        assert forall|i: int| 0 <= i < list.len() implies stack.contains(#[trigger] list[i])
            && stays_on_top(marks, list[i].id) by {
            if i < before.len() {
                assert(before[i] == list[i]);
                let k = fewer.index_of(before[i]);
                assert(stack[k] == list[i]);
            } else {
                assert(stack[stack.len() - 1] == list[i]);
            }
        }
        assert forall|m: Mapped| #[trigger]
            stack.contains(m) && stays_on_top(marks, m.id) implies list.contains(m) by {
            if m == last {
                assert(list[list.len() - 1] == m);
            } else {
                let k = stack.index_of(m);
                assert(fewer[k] == m);
                assert(fewer.contains(m));
                let n = before.index_of(m);
                assert(list[n] == m);
            }
        }
        if each_once(stack) {
            assert forall|i: int, j: int| 0 <= i < j < fewer.len() implies (
            #[trigger] fewer[i]).id != (#[trigger] fewer[j]).id by {
                assert(stack[i].id != stack[j].id);
            }
            assert forall|i: int, j: int| 0 <= i < j < list.len() implies (
            #[trigger] list[i]).id != (#[trigger] list[j]).id by {
                if j < before.len() {
                    assert(before[i].id != before[j].id);
                } else {
                    assert(before[i] == list[i]);
                    let k = fewer.index_of(before[i]);
                    assert(stack[k].id != stack[stack.len() - 1].id);
                }
            }
        }
    }
}

proof fn raised_are_above(stack: Seq<Mapped>, list: Seq<Mapped>, o: Mapped)
    requires
        each_once(stack),
        banded(stack),
        each_once(list),
        stack.contains(o),
        forall|i: int| 0 <= i < list.len() ==> (#[trigger] list[i]).id != o.id,
    ensures
        each_once(raise_each(stack, list)),
        banded(raise_each(stack, list)),
        raise_each(stack, list).contains(o),
        forall|i: int|
            0 <= i < list.len() && o.z <= (#[trigger] list[i]).z ==> below(
                raise_each(stack, list),
                o.id,
                list[i].id,
            ),
    decreases list.len(),
{
    if list.len() > 0 {
        let fewer = list.drop_last();
        let m = list.last();
        assert(list[list.len() - 1] == m);
        assert forall|i: int, j: int| 0 <= i < j < fewer.len() implies (#[trigger] fewer[i]).id
            != (#[trigger] fewer[j]).id by {
            assert(list[i].id != list[j].id);
        }
        assert forall|i: int| 0 <= i < fewer.len() implies (#[trigger] fewer[i]).id != o.id by {
            assert(list[i].id != o.id);
        }
        raised_are_above(stack, fewer, o);
        let before = raise_each(stack, fewer);
        on_top_keeps_the_rest(before, m, o.id);
        on_top_is_above(before, m, o);
        assert forall|i: int| 0 <= i < list.len() && o.z <= (#[trigger] list[i]).z implies below(
            raise_each(stack, list),
            o.id,
            list[i].id,
        ) by {
            if i < fewer.len() {
                assert(fewer[i] == list[i]);
                assert(list[i].id != list[list.len() - 1].id);
                on_top_keeps_the_order(before, m, o.id, list[i].id);
            }
        }
    }
}

/// Raising the components that stay on top leaves none of them buried: whatever was raised before
/// them, every other window of their band or a lower one is below each of them.
pub proof fn no_window_buries_a_component(
    marks: Seq<(u64, ShellComponent)>,
    stack: Seq<Mapped>,
    component: Mapped,
    other: Mapped,
)
    requires
        each_once(stack),
        banded(stack),
        stack.contains(component),
        stays_on_top(marks, component.id),
        stack.contains(other),
        !stays_on_top(marks, other.id),
        other.z <= component.z,
    ensures
        below(raise_each(stack, kept_on_top(marks, stack)), other.id, component.id),
{
    let list = kept_on_top(marks, stack);
    kept_are_the_components(marks, stack);
    assert(list.contains(component));
    raised_are_above(stack, list, other);
    let i = list.index_of(component);
    assert(list[i] == component);
}

proof fn anchorings_are_of_the_stack(
    s: Scene,
    marks: Seq<(u64, ShellComponent)>,
    stack: Seq<Mapped>,
)
    ensures
        forall|i: int|
            0 <= i < anchorings(s, marks, stack).len() ==> ({
                let (id, at, top) = #[trigger] anchorings(s, marks, stack)[i];
                &&& location(stack, id) is Some
                &&& anchoring(s, marks, id) == Some((at, top))
            }),
        forall|id: u64, at: Point, top: bool|
            location(stack, id) is Some && anchoring(s, marks, id) == Some((at, top))
                ==> #[trigger] anchorings(s, marks, stack).contains((id, at, top)),
    decreases stack.len(),
{
    if stack.len() > 0 {
        let fewer = stack.drop_last();
        anchorings_are_of_the_stack(s, marks, fewer);
        let before = anchorings(s, marks, fewer);
        let list = anchorings(s, marks, stack);
        assert forall|i: int| 0 <= i < list.len() implies ({
            let (id, at, top) = #[trigger] list[i];
            &&& location(stack, id) is Some
            &&& anchoring(s, marks, id) == Some((at, top))
        }) by {
            if i < before.len() {
                assert(before[i] == list[i]);
            }
        }
        assert forall|id: u64, at: Point, top: bool|
            location(stack, id) is Some && anchoring(s, marks, id) == Some(
                (at, top),
            ) implies #[trigger] list.contains((id, at, top)) by {
            let entry = (id, at, top);
            if location(fewer, id) is Some {
                assert(before.contains(entry));
                let k = before.index_of(entry);
                assert(list[k] == entry);
            } else {
                assert(list[list.len() - 1] == entry);
            }
        }
    }
}

proof fn anchoring_each_puts_them_there(
    s: Scene,
    marks: Seq<(u64, ShellComponent)>,
    list: Seq<(u64, Point, bool)>,
)
    requires
        each_once(s.stack),
        banded(s.stack),
        forall|i: int|
            0 <= i < list.len() ==> ({
                let (id, at, top) = #[trigger] list[i];
                &&& location(s.stack, id) is Some
                &&& anchoring(s, marks, id) == Some((at, top))
            }),
    ensures
        ({
            let after = anchor_each(s, list).0;
            &&& after == (Scene { stack: after.stack, ..s })
            &&& each_once(after.stack)
            &&& banded(after.stack)
            &&& forall|id: u64|
                (#[trigger] location(after.stack, id)) is Some <==> location(s.stack, id) is Some
            &&& forall|i: int|
                0 <= i < list.len() ==> location(after.stack, (#[trigger] list[i]).0) == Some(
                    list[i].1,
                )
        }),
    decreases list.len(),
{
    if list.len() > 0 {
        let fewer = list.drop_last();
        assert forall|i: int| 0 <= i < fewer.len() implies ({
            let (id, at, top) = #[trigger] fewer[i];
            &&& location(s.stack, id) is Some
            &&& anchoring(s, marks, id) == Some((at, top))
        }) by {
            assert(fewer[i] == list[i]);
        }
        anchoring_each_puts_them_there(s, marks, fewer);
        let before = anchor_each(s, fewer).0;
        let after = anchor_each(s, list).0;
        let (id, at, top) = list.last();
        assert(list[list.len() - 1] == list.last());
        if location(before.stack, id) != Some(at) {
            let z = match find(before.windows, id) {
                Some(w) => w.z,
                None => 0,
            };
            let m = Mapped { id, z, loc: at };
            on_top_keeps_the_rest(before.stack, m, id);
            assert forall|other: u64|
                (#[trigger] location(after.stack, other)) is Some <==> location(
                    s.stack,
                    other,
                ) is Some by {
                on_top_keeps_the_rest(before.stack, m, other);
                assert(location(before.stack, other) is Some <==> location(s.stack, other) is Some);
            }
            assert forall|i: int| 0 <= i < list.len() implies location(
                after.stack,
                (#[trigger] list[i]).0,
            ) == Some(list[i].1) by {
                if i < fewer.len() {
                    assert(fewer[i] == list[i]);
                    on_top_keeps_the_rest(before.stack, m, list[i].0);
                }
            }
        } else {
            assert forall|i: int| 0 <= i < list.len() implies location(
                after.stack,
                (#[trigger] list[i]).0,
            ) == Some(list[i].1) by {
                if i < fewer.len() {
                    assert(fewer[i] == list[i]);
                }
            }
        }
    }
}

proof fn what_is_there_stays(s: Scene, list: Seq<(u64, Point, bool)>)
    requires
        forall|i: int|
            0 <= i < list.len() ==> location(s.stack, (#[trigger] list[i]).0) == Some(list[i].1),
    ensures
        anchor_each(s, list) == (s, Seq::<Effect>::empty()),
    decreases list.len(),
{
    if list.len() > 0 {
        let fewer = list.drop_last();
        assert forall|i: int| 0 <= i < fewer.len() implies location(
            s.stack,
            (#[trigger] fewer[i]).0,
        ) == Some(fewer[i].1) by {
            assert(fewer[i] == list[i]);
        }
        what_is_there_stays(s, fewer);
        assert(list[list.len() - 1] == list.last());
    }
}

/// Arranging the components a second time does nothing: once each is where it belongs, there is
/// nothing to move and nothing to ask for.
pub proof fn arranging_again_does_nothing(s: Scene, marks: Seq<(u64, ShellComponent)>)
    requires
        each_once(s.stack),
        banded(s.stack),
    ensures
        ({
            let after = anchor_each(s, anchorings(s, marks, s.stack)).0;
            anchor_each(after, anchorings(after, marks, after.stack)) == (
                after,
                Seq::<Effect>::empty(),
            )
        }),
{
    let list = anchorings(s, marks, s.stack);
    let after = anchor_each(s, list).0;
    anchorings_are_of_the_stack(s, marks, s.stack);
    anchoring_each_puts_them_there(s, marks, list);
    let again = anchorings(after, marks, after.stack);
    anchorings_are_of_the_stack(after, marks, after.stack);
    assert forall|i: int| 0 <= i < again.len() implies location(
        after.stack,
        (#[trigger] again[i]).0,
    ) == Some(again[i].1) by {
        let (id, at, top) = again[i];
        assert(anchoring(after, marks, id) == anchoring(s, marks, id));
        assert(list.contains((id, at, top)));
        let k = list.index_of((id, at, top));
        assert(list[k] == (id, at, top));
    }
    what_is_there_stays(after, again);
}

/// Whether a component touches the corner of an area that an anchor names; a side that is too long
/// for the area starts with it.
pub open spec fn touches(anchor: Anchor, area: Rect, size: Size, p: Point) -> bool {
    let left = p.x == area.loc.x;
    let top = p.y == area.loc.y;
    let right = if size.w <= area.size.w {
        p.x + size.w == area.loc.x + area.size.w
    } else {
        left
    };
    let bottom = if size.h <= area.size.h {
        p.y + size.h == area.loc.y + area.size.h
    } else {
        top
    };
    match anchor {
        Anchor::TopLeft => left && top,
        Anchor::TopRight => right && top,
        Anchor::BottomLeft => left && bottom,
        Anchor::BottomRight => right && bottom,
    }
}

/// A component is put in the corner that its anchor names.
pub proof fn a_component_touches_its_corner(anchor: Anchor, area: Rect, size: Size)
    requires
        can_anchor(area, size),
    ensures
        touches(anchor, area, size, anchored(anchor, area, size)),
{
}

proof fn the_first_mark_counts(marks: Seq<(u64, ShellComponent)>, m: int)
    requires
        0 <= m < marks.len(),
        forall|j: int| 0 <= j < m ==> (#[trigger] marks[j]).0 != marks[m].0,
    ensures
        rule_of(marks, marks[m].0) == Some(marks[m].1.0),
    decreases marks.len(),
{
    let fewer = marks.drop_last();
    if m < fewer.len() {
        assert forall|j: int| 0 <= j < m implies (#[trigger] fewer[j]).0 != fewer[m].0 by {
            assert(marks[j].0 != marks[m].0);
        }
        the_first_mark_counts(fewer, m);
    } else {
        assert forall|j: int| 0 <= j < fewer.len() implies (#[trigger] fewer[j]).0 != marks[m].0 by {
            assert(marks[j].0 != marks[m].0);
        }
        what_is_not_marked_has_no_rule(fewer, marks[m].0);
    }
}

proof fn what_is_not_marked_has_no_rule(marks: Seq<(u64, ShellComponent)>, id: u64)
    requires
        forall|j: int| 0 <= j < marks.len() ==> (#[trigger] marks[j]).0 != id,
    ensures
        rule_of(marks, id) is None,
    decreases marks.len(),
{
    if marks.len() > 0 {
        assert(marks[marks.len() - 1].0 != id);
        assert forall|j: int| 0 <= j < marks.drop_last().len() implies (
        #[trigger] marks.drop_last()[j]).0 != id by {
            assert(marks[j].0 != id);
        }
        what_is_not_marked_has_no_rule(marks.drop_last(), id);
    }
}

proof fn what_is_asked_is_to_show_them_there(s: Scene, list: Seq<(u64, Point, bool)>, e: int)
    requires
        0 <= e < anchor_each(s, list).1.len(),
    ensures
        exists|i: int|
            #![trigger list[i]]
            0 <= i < list.len() && (anchor_each(s, list).1[e] == (Effect::Show {
                window: list[i].0,
                at: list[i].1,
                activate: false,
            }) || list[i].2 && anchor_each(s, list).1[e] == (Effect::Raise {
                window: list[i].0,
                activate: false,
            })),
    decreases list.len(),
{
    if list.len() > 0 {
        let fewer = list.drop_last();
        let asked = anchor_each(s, fewer).1;
        if e < asked.len() {
            what_is_asked_is_to_show_them_there(s, fewer, e);
            let i = choose|i: int|
                #![trigger fewer[i]]
                0 <= i < fewer.len() && (asked[e] == (Effect::Show {
                    window: fewer[i].0,
                    at: fewer[i].1,
                    activate: false,
                }) || fewer[i].2 && asked[e] == (Effect::Raise {
                    window: fewer[i].0,
                    activate: false,
                }));
            assert(list[i] == fewer[i]);
        } else {
            assert(list[list.len() - 1] == list.last());
        }
    }
}

/// Once the components are arranged, each that is on screen stands in the corner of its own screen
/// that its rule names, wherever it was before; nothing is raised but a component whose rule keeps
/// it on top, and nothing takes the keyboard for it.
pub proof fn an_arranged_component_stands_in_its_corner(
    s: Scene,
    marks: Seq<(u64, ShellComponent)>,
    i: int,
    m: int,
    n: int,
    area: Rect,
)
    requires
        each_once(s.stack),
        banded(s.stack),
        can_arrange(s),
        listed_once(s.windows, i),
        stacked(s.stack, s.windows[i].id),
        0 <= m < marks.len(),
        marks[m].0 == s.windows[i].id,
        forall|j: int| 0 <= j < m ==> (#[trigger] marks[j]).0 != s.windows[i].id,
        is_at_home(s, s.windows[i], n),
        s.screens[n].geometry == Some(area),
    ensures
        ({
            let w = s.windows[i];
            let (after, asked) = anchor_each(s, anchorings(s, marks, s.stack));
            &&& exists|p: Point| #[trigger]
                touches(marks[m].1.0.anchor, area, w.size, p) && stands(after.stack, w.id, p)
            &&& after.windows == s.windows
            &&& forall|e: int|
                0 <= e < asked.len() ==> match #[trigger] asked[e] {
                    Effect::Show { window, at, activate } => !activate && (window == w.id
                        ==> touches(marks[m].1.0.anchor, area, w.size, at)),
                    Effect::Raise { window, activate } => !activate && (window == w.id
                        ==> marks[m].1.0.always_on_top),
                    _ => false,
                }
        }),
{
    let w = s.windows[i];
    let (after, asked) = anchor_each(s, anchorings(s, marks, s.stack));
    a_listed_window_is_found(s.windows, i);
    located_is_stacked(s.stack, w.id);
    at_home_is_its_screen(s, w, n);
    the_first_mark_counts(marks, m);
    let p = anchored(marks[m].1.0.anchor, area, w.size);
    assert(s.screens[n].geometry == Some(area));
    assert(can_anchor(area, s.windows[i].size));
    assert(touches(marks[m].1.0.anchor, area, w.size, p));
    let list = anchorings(s, marks, s.stack);
    anchorings_are_of_the_stack(s, marks, s.stack);
    anchoring_each_puts_them_there(s, marks, list);
    assert(list.contains((w.id, p, marks[m].1.0.always_on_top)));
    let k = list.index_of((w.id, p, marks[m].1.0.always_on_top));
    assert(list[k].0 == w.id);
    a_located_window_stands(after.stack, w.id);
    assert forall|e: int| 0 <= e < asked.len() implies match #[trigger] asked[e] {
        Effect::Show { window, at, activate } => !activate && (window == w.id ==> touches(
            marks[m].1.0.anchor,
            area,
            w.size,
            at,
        )),
        Effect::Raise { window, activate } => !activate && (window == w.id
            ==> marks[m].1.0.always_on_top),
        _ => false,
    } by {
        what_is_asked_is_to_show_them_there(s, list, e);
        let i = choose|i: int|
            #![trigger list[i]]
            0 <= i < list.len() && (asked[e] == (Effect::Show {
                window: list[i].0,
                at: list[i].1,
                activate: false,
            }) || list[i].2 && asked[e] == (Effect::Raise {
                window: list[i].0,
                activate: false,
            }));
        assert(anchoring(s, marks, list[i].0) == Some((list[i].1, list[i].2)));
    }
}

/// The toolchest is anchored at the top left and the desks overview at the bottom left, both kept
/// on top; no other app is a component.
pub proof fn the_components_are_these(app_id: &str, rule: Option<ShellRule>)
    requires
        call_ensures(rule_for, (app_id,), rule),
    ensures
        app_id@ == "com.wlrix.toolchest"@ ==> rule is Some && rule->0.anchor == Anchor::TopLeft,
        app_id@ == "com.wlrix.desks"@ ==> rule is Some && rule->0.anchor == Anchor::BottomLeft,
        rule is Some ==> rule->0.always_on_top && (app_id@ == "com.wlrix.toolchest"@ || app_id@
            == "com.wlrix.desks"@),
{
    reveal_strlit("com.wlrix.toolchest");
    reveal_strlit("com.wlrix.desks");
    assert("com.wlrix.toolchest"@.len() == 19);
    assert("com.wlrix.desks"@.len() == 15);
}

} // verus!

//! What each bound output manager was told of, and what it is told when the layout changes: the
//! heads it knew are finished, and every head is advertised anew.
use vstd::prelude::*;

use crate::output_management::{
    advertise_head, head_events, HeadEvent, Mode, OutputManagementState,
};

verus! {

/// What a manager is told of an output.
pub struct HeadFacts {
    pub output: u64,
    /// Whether it is switched on.
    pub enabled: bool,
    /// Whether adaptive sync is on.
    pub vrr: bool,
    pub modes: Vec<Mode>,
    pub preferred: Option<Mode>,
    pub current: Option<Mode>,
}

/// A head that a manager was told of.
#[derive(Debug, Clone, Copy, PartialEq, Eq, Structural)]
pub struct ShownHead {
    pub output: u64,
    /// How many modes it was given.
    pub modes: usize,
}

/// A bound manager, the version of the protocol that its client speaks, and the heads it was told
/// of.
pub struct HeadManager {
    pub manager: u64,
    pub version: u32,
    pub heads: Vec<ShownHead>,
}

/// An event for a manager. Heads and modes are told by their place in the manager's list.
#[derive(Debug, Clone, Copy, PartialEq, Eq)]
pub enum ManagerEvent {
    /// A mode of a head that the manager knew is no more.
    ModeFinished { head: usize, mode: usize },
    /// A head that the manager knew is no more.
    HeadFinished { head: usize },
    /// A head of the new list.
    Head { head: usize },
    /// Something of a head of the new list.
    Of { head: usize, event: HeadEvent },
    /// The list is complete; configurations are to quote the serial.
    Done(u32),
    /// The manager gets no more events.
    Finished,
}

/// What one manager is told.
pub struct ToldHeads {
    pub manager: u64,
    pub events: Vec<ManagerEvent>,
}

/// The serial that follows.
pub open spec fn next_serial(serial: u32) -> u32 {
    if serial == u32::MAX {
        0
    } else {
        (serial + 1) as u32
    }
}

/// The heads that a manager has been told of once it was told of these outputs.
pub open spec fn heads_shown(facts: Seq<HeadFacts>) -> Seq<ShownHead> {
    facts.map_values(
        |f: HeadFacts| ShownHead { output: f.output, modes: f.modes@.len() as usize },
    )
}

/// The end of the first `n` modes of a head.
pub open spec fn modes_finished(head: int, n: int) -> Seq<ManagerEvent>
    decreases n,
{
    if n <= 0 {
        Seq::empty()
    } else {
        modes_finished(head, n - 1).push(
            ManagerEvent::ModeFinished { head: head as usize, mode: (n - 1) as usize },
        )
    }
}

/// The end of the first `n` heads, each after its modes.
pub open spec fn heads_finished(heads: Seq<ShownHead>, n: int) -> Seq<ManagerEvent>
    decreases n,
{
    if n <= 0 {
        Seq::empty()
    } else {
        (heads_finished(heads, n - 1) + modes_finished(n - 1, heads[n - 1].modes as int)).push(
            ManagerEvent::HeadFinished { head: (n - 1) as usize },
        )
    }
}

/// The events of a head, for a manager that has it at a place of its list.
pub open spec fn of_head(head: int, events: Seq<HeadEvent>) -> Seq<ManagerEvent> {
    events.map_values(|event: HeadEvent| ManagerEvent::Of { head: head as usize, event })
}

/// What a manager is told of the first `n` outputs.
pub open spec fn heads_told(version: u32, facts: Seq<HeadFacts>, n: int) -> Seq<ManagerEvent>
    decreases n,
{
    if n <= 0 {
        Seq::empty()
    } else {
        let f = facts[n - 1];
        heads_told(version, facts, n - 1).push(ManagerEvent::Head { head: (n - 1) as usize })
            + of_head(
            n - 1,
            head_events(version, f.modes@, f.preferred, f.current, f.enabled, f.vrr),
        )
    }
}

/// What a manager that has just bound is told.
pub open spec fn advertised(version: u32, facts: Seq<HeadFacts>, serial: u32) -> Seq<ManagerEvent> {
    heads_told(version, facts, facts.len() as int).push(ManagerEvent::Done(serial))
}

/// What a manager is told when the layout has changed.
pub open spec fn advertised_anew(
    version: u32,
    heads: Seq<ShownHead>,
    facts: Seq<HeadFacts>,
    serial: u32,
) -> Seq<ManagerEvent> {
    heads_finished(heads, heads.len() as int) + advertised(version, facts, serial)
}

/// The managers that are alive.
pub open spec fn living(list: Seq<HeadManager>, alive: Seq<u64>) -> Seq<HeadManager>
    decreases list.len(),
{
    if list.len() == 0 {
        list
    } else if alive.contains(list.last().manager) {
        living(list.drop_last(), alive).push(list.last())
    } else {
        living(list.drop_last(), alive)
    }
}

/// The managers but one.
pub open spec fn all_but(list: Seq<HeadManager>, manager: u64) -> Seq<HeadManager>
    decreases list.len(),
{
    if list.len() == 0 {
        list
    } else if list.last().manager == manager {
        all_but(list.drop_last(), manager)
    } else {
        all_but(list.drop_last(), manager).push(list.last())
    }
}

/// Whether the first `n` managers have been told of the outputs anew.
pub open spec fn told_anew(
    before: Seq<HeadManager>,
    after: Seq<HeadManager>,
    told: Seq<ToldHeads>,
    facts: Seq<HeadFacts>,
    serial: u32,
    n: int,
) -> bool {
    &&& after.len() == before.len()
    &&& told.len() == n
    &&& forall|i: int|
        0 <= i < n ==> {
            &&& (#[trigger] after[i]).manager == before[i].manager
            &&& after[i].version == before[i].version
            &&& after[i].heads@ == heads_shown(facts)
            &&& told[i].manager == before[i].manager
            &&& told[i].events@ == advertised_anew(
                before[i].version,
                before[i].heads@,
                facts,
                serial,
            )
        }
    &&& forall|i: int| n <= i < after.len() ==> #[trigger] after[i] == before[i]
}

fn is_alive(alive: &[u64], manager: u64) -> (r: bool)
    ensures
        r == alive@.contains(manager),
{
    let mut i: usize = 0;
    while i < alive.len()
        invariant
            i <= alive@.len(),
            forall|j: int| 0 <= j < i ==> alive@[j] != manager,
        decreases alive.len() - i,
    {
        if alive[i] == manager {
            assert(alive@[i as int] == manager);
            return true;
        }
        i += 1;
    }
    false
}

fn show(facts: &[HeadFacts]) -> (heads: Vec<ShownHead>)
    ensures
        heads@ == heads_shown(facts@),
{
    let mut heads: Vec<ShownHead> = Vec::new();
    let mut i: usize = 0;
    while i < facts.len()
        invariant
            i <= facts@.len(),
            heads@ == heads_shown(facts@).take(i as int),
        decreases facts.len() - i,
    {
        heads.push(ShownHead { output: facts[i].output, modes: facts[i].modes.len() });
        i += 1;
        assert(heads@ =~= heads_shown(facts@).take(i as int));
    }
    assert(heads@ =~= heads_shown(facts@));
    heads
}

fn finish(heads: &Vec<ShownHead>) -> (events: Vec<ManagerEvent>)
    ensures
        events@ == heads_finished(heads@, heads@.len() as int),
{
    let mut events: Vec<ManagerEvent> = Vec::new();
    let mut i: usize = 0;
    while i < heads.len()
        invariant
            i <= heads@.len(),
            events@ == heads_finished(heads@, i as int),
        decreases heads.len() - i,
    {
        let ghost start = events@;
        let count: usize = heads[i].modes;
        let mut k: usize = 0;
        assert(events@ =~= start + modes_finished(i as int, 0));
        while k < count
            invariant
                k <= count,
                events@ == start + modes_finished(i as int, k as int),
            decreases count - k,
        {
            events.push(ManagerEvent::ModeFinished { head: i, mode: k });
            k += 1;
            assert(events@ =~= start + modes_finished(i as int, k as int));
        }
        events.push(ManagerEvent::HeadFinished { head: i });
        i += 1;
    }
    events
}

fn tell(version: u32, facts: &[HeadFacts], serial: u32, events: &mut Vec<ManagerEvent>)
    ensures
        final(events)@ == old(events)@ + advertised(version, facts@, serial),
{
    let ghost first = events@;
    let mut i: usize = 0;
    assert(events@ =~= first + heads_told(version, facts@, 0));
    while i < facts.len()
        invariant
            i <= facts@.len(),
            events@ == first + heads_told(version, facts@, i as int),
        decreases facts.len() - i,
    {
        let f = &facts[i];
        events.push(ManagerEvent::Head { head: i });
        let ghost start = events@;
        let of = advertise_head(
            version,
            f.modes.as_slice(),
            f.preferred,
            f.current,
            f.enabled,
            f.vrr,
        );
        let mut k: usize = 0;
        assert(events@ =~= start + of_head(i as int, of@).take(0));
        while k < of.len()
            invariant
                k <= of@.len(),
                events@ == start + of_head(i as int, of@).take(k as int),
            decreases of.len() - k,
        {
            events.push(ManagerEvent::Of { head: i, event: of[k] });
            k += 1;
            assert(events@ =~= start + of_head(i as int, of@).take(k as int));
        }
        i += 1;
        assert(events@ =~= first + heads_told(version, facts@, i as int));
    }
    events.push(ManagerEvent::Done(serial));
    assert(events@ =~= first + advertised(version, facts@, serial));
}

impl OutputManagementState {
    /// Advertises the layout to a manager that has just bound; gives what it is told.
    pub fn advertise(&mut self, manager: u64, version: u32, facts: &[HeadFacts]) -> (events: Vec<
        ManagerEvent,
    >)
        ensures
            events@ == advertised(version, facts@, old(self).serial),
            final(self).serial == old(self).serial,
            final(self).instances@.len() == old(self).instances@.len() + 1,
            final(self).instances@.drop_last() == old(self).instances@,
            final(self).instances@.last().manager == manager,
            final(self).instances@.last().version == version,
            final(self).instances@.last().heads@ == heads_shown(facts@),
    {
        let mut events: Vec<ManagerEvent> = Vec::new();
        tell(version, facts, self.serial, &mut events);
        assert(events@ =~= advertised(version, facts@, self.serial));
        self.instances.push(HeadManager { manager, version, heads: show(facts) });
        assert(self.instances@.drop_last() =~= old(self).instances@);
        events
    }

    fn drop_dead(&mut self, alive: &[u64])
        ensures
            final(self).serial == old(self).serial,
            final(self).instances@ == living(old(self).instances@, alive@),
    {
        let ghost first = self.instances@;
        let ghost mut seen: int = 0;
        let mut i: usize = 0;
        assert(first.take(0) =~= Seq::empty());
        assert(self.instances@ =~= living(first.take(0), alive@) + first.skip(0));
        while i < self.instances.len()
            invariant
                0 <= seen <= first.len(),
                i == living(first.take(seen), alive@).len(),
                self.instances@ == living(first.take(seen), alive@) + first.skip(seen),
                self.serial == old(self).serial,
            decreases first.len() - seen,
        {
            let ghost held = living(first.take(seen), alive@);
            assert(self.instances@.len() == held.len() + (first.len() - seen));
            assert(self.instances@[i as int] == first[seen]);
            assert(first.take(seen + 1).drop_last() =~= first.take(seen));
            assert(first.take(seen + 1).last() == first[seen]);
            if is_alive(alive, self.instances[i].manager) {
                i += 1;
                assert(self.instances@ =~= held.push(first[seen]) + first.skip(seen + 1));
            } else {
                self.instances.remove(i);
                assert(self.instances@ =~= held + first.skip(seen + 1));
            }
            proof {
                seen = seen + 1;
            }
        }
        assert(self.instances@.len() == living(first.take(seen), alive@).len() + (first.len()
            - seen));
        assert(first.take(seen) =~= first);
        assert(self.instances@ =~= living(first, alive@));
    }

    /// The layout changed. Configurations that are under way become stale, a manager that is gone
    /// is dropped, and the others are told: what they knew is finished and every head is
    /// advertised anew.
    pub fn outputs_changed(&mut self, alive: &[u64], facts: &[HeadFacts]) -> (told: Vec<ToldHeads>)
        ensures
            final(self).serial == next_serial(old(self).serial),
            told_anew(
                living(old(self).instances@, alive@),
                final(self).instances@,
                told@,
                facts@,
                next_serial(old(self).serial),
                final(self).instances@.len() as int,
            ),
    {
        self.serial = self.serial.wrapping_add(1);
        self.drop_dead(alive);
        let ghost rest = self.instances@;
        let mut told: Vec<ToldHeads> = Vec::new();
        let mut i: usize = 0;
        while i < self.instances.len()
            invariant
                i <= self.instances@.len(),
                self.serial == next_serial(old(self).serial),
                told_anew(rest, self.instances@, told@, facts@, self.serial, i as int),
            decreases self.instances.len() - i,
        {
            let ghost before = self.instances@;
            let ghost said = told@;
            assert(before[i as int] == rest[i as int]);
            let manager: u64 = self.instances[i].manager;
            let version: u32 = self.instances[i].version;
            let mut events = finish(&self.instances[i].heads);
            tell(version, facts, self.serial, &mut events);
            told.push(ToldHeads { manager, events });
            self.instances.set(i, HeadManager { manager, version, heads: show(facts) });
            assert forall|j: int| 0 <= j < i + 1 implies {
                &&& (#[trigger] self.instances@[j]).manager == rest[j].manager
                &&& self.instances@[j].version == rest[j].version
                &&& self.instances@[j].heads@ == heads_shown(facts@)
                &&& told@[j].manager == rest[j].manager
                &&& told@[j].events@ == advertised_anew(
                    rest[j].version,
                    rest[j].heads@,
                    facts@,
                    self.serial,
                )
            } by {
                if j < i {
                    assert(self.instances@[j] == before[j]);
                    assert(told@[j] == said[j]);
                }
            }
            i += 1;
        }
        told
    }

    /// Forgets a manager that is gone or wants no more.
    pub fn forget_manager(&mut self, manager: u64)
        ensures
            final(self).serial == old(self).serial,
            final(self).instances@ == all_but(old(self).instances@, manager),
    {
        let ghost first = self.instances@;
        let ghost mut seen: int = 0;
        let mut i: usize = 0;
        assert(first.take(0) =~= Seq::empty());
        assert(self.instances@ =~= all_but(first.take(0), manager) + first.skip(0));
        while i < self.instances.len()
            invariant
                0 <= seen <= first.len(),
                i == all_but(first.take(seen), manager).len(),
                self.instances@ == all_but(first.take(seen), manager) + first.skip(seen),
                self.serial == old(self).serial,
            decreases first.len() - seen,
        {
            let ghost held = all_but(first.take(seen), manager);
            assert(self.instances@.len() == held.len() + (first.len() - seen));
            assert(self.instances@[i as int] == first[seen]);
            assert(first.take(seen + 1).drop_last() =~= first.take(seen));
            assert(first.take(seen + 1).last() == first[seen]);
            if self.instances[i].manager != manager {
                i += 1;
                assert(self.instances@ =~= held.push(first[seen]) + first.skip(seen + 1));
            } else {
                self.instances.remove(i);
                assert(self.instances@ =~= held + first.skip(seen + 1));
            }
            proof {
                seen = seen + 1;
            }
        }
        assert(self.instances@.len() == all_but(first.take(seen), manager).len() + (first.len()
            - seen));
        assert(first.take(seen) =~= first);
        assert(self.instances@ =~= all_but(first, manager));
    }

    /// A manager wants no more events: it is told that it gets none, and forgotten.
    pub fn stop(&mut self, manager: u64) -> (event: ManagerEvent)
        ensures
            event == ManagerEvent::Finished,
            final(self).serial == old(self).serial,
            final(self).instances@ == all_but(old(self).instances@, manager),
    {
        self.forget_manager(manager);
        ManagerEvent::Finished
    }
}

/// Every manager that is told of a changed layout is told to the end: the last event names the
/// serial that is current from then on, which no configuration under way quotes.
pub proof fn a_changed_layout_has_a_new_serial(
    version: u32,
    heads: Seq<ShownHead>,
    facts: Seq<HeadFacts>,
    serial: u32,
)
    ensures
        next_serial(serial) != serial,
        advertised_anew(version, heads, facts, next_serial(serial)).last() == ManagerEvent::Done(
            next_serial(serial),
        ),
{
}

/// A manager that was forgotten is no longer listed, and every other one is.
pub proof fn a_forgotten_manager_is_gone(list: Seq<HeadManager>, manager: u64)
    ensures
        forall|i: int|
            0 <= i < all_but(list, manager).len() ==> {
                &&& (#[trigger] all_but(list, manager)[i]).manager != manager
                &&& list.contains(all_but(list, manager)[i])
            },
        forall|i: int|
            0 <= i < list.len() && (#[trigger] list[i]).manager != manager ==> all_but(
                list,
                manager,
            ).contains(list[i]),
    decreases list.len(),
{
    if list.len() > 0 {
        let fewer = list.drop_last();
        a_forgotten_manager_is_gone(fewer, manager);
        let kept = all_but(fewer, manager);
        let all = all_but(list, manager);
        assert forall|i: int| 0 <= i < all.len() implies (#[trigger] all[i]).manager != manager
            && list.contains(all[i]) by {
            if i < kept.len() {
                assert(all[i] == kept[i]);
                let k = fewer.index_of(kept[i]);
                assert(list[k] == all[i]);
            } else {
                assert(list[list.len() - 1] == all[i]);
            }
        }
        assert forall|i: int| 0 <= i < list.len() && (#[trigger] list[i]).manager
            != manager implies all.contains(list[i]) by {
            if i < fewer.len() {
                assert(fewer[i] == list[i]);
                let k = kept.index_of(fewer[i]);
                assert(all[k] == list[i]);
            } else {
                assert(all[all.len() - 1] == list[i]);
            }
        }
    }
}

proof fn modes_are_finished(head: int, n: int, event: ManagerEvent)
    requires
        0 <= head <= usize::MAX,
        0 <= n <= usize::MAX,
    ensures
        modes_finished(head, n).contains(event) <==> (event matches ManagerEvent::ModeFinished {
            head: h,
            mode,
        } && h == head && mode < n),
    decreases n,
{
    if n > 0 {
        modes_are_finished(head, n - 1, event);
        let before = modes_finished(head, n - 1);
        let all = modes_finished(head, n);
        if all.contains(event) {
            let k = all.index_of(event);
            if k < before.len() {
                assert(before[k] == event);
            }
        }
        if before.contains(event) {
            let k = before.index_of(event);
            assert(all[k] == event);
        }
        assert(all[all.len() - 1] == (ManagerEvent::ModeFinished {
            head: head as usize,
            mode: (n - 1) as usize,
        }));
    }
}

/// Every head that a manager knew is finished, and every mode of it, and no other.
pub proof fn every_known_head_is_finished(heads: Seq<ShownHead>, n: int, event: ManagerEvent)
    requires
        0 <= n <= heads.len(),
        heads.len() <= usize::MAX,
    ensures
        heads_finished(heads, n).contains(event) <==> match event {
            ManagerEvent::HeadFinished { head } => head < n,
            ManagerEvent::ModeFinished { head, mode } => head < n && mode
                < heads[head as int].modes,
            _ => false,
        },
    decreases n,
{
    if n > 0 {
        every_known_head_is_finished(heads, n - 1, event);
        modes_are_finished(n - 1, heads[n - 1].modes as int, event);
        let before = heads_finished(heads, n - 1);
        let modes = modes_finished(n - 1, heads[n - 1].modes as int);
        let all = heads_finished(heads, n);
        let last = ManagerEvent::HeadFinished { head: (n - 1) as usize };
        assert(all == (before + modes).push(last));
        if all.contains(event) {
            let k = all.index_of(event);
            if k < before.len() {
                assert(before[k] == event);
            } else if k < before.len() + modes.len() {
                assert(modes[k - before.len()] == event);
            }
        }
        if before.contains(event) {
            let k = before.index_of(event);
            assert(all[k] == event);
        }
        if modes.contains(event) {
            let k = modes.index_of(event);
            assert(all[before.len() + k] == event);
        }
        assert(all[all.len() - 1] == last);
    }
}

/// Every output is told of as a head, at its own place of the list, with everything that is to be
/// said of that output and nothing of another.
pub proof fn every_output_is_told_of(
    version: u32,
    facts: Seq<HeadFacts>,
    n: int,
    event: ManagerEvent,
)
    requires
        0 <= n <= facts.len(),
        facts.len() <= usize::MAX,
    ensures
        heads_told(version, facts, n).contains(event) <==> match event {
            ManagerEvent::Head { head } => head < n,
            ManagerEvent::Of { head, event } => head < n && ({
                let f = facts[head as int];
                head_events(version, f.modes@, f.preferred, f.current, f.enabled, f.vrr).contains(
                    event,
                )
            }),
            _ => false,
        },
    decreases n,
{
    if n > 0 {
        every_output_is_told_of(version, facts, n - 1, event);
        let f = facts[n - 1];
        let says = head_events(version, f.modes@, f.preferred, f.current, f.enabled, f.vrr);
        let before = heads_told(version, facts, n - 1);
        let head = ManagerEvent::Head { head: (n - 1) as usize };
        let of = of_head(n - 1, says);
        let all = heads_told(version, facts, n);
        assert(all == before.push(head) + of);
        assert forall|k: int| 0 <= k < of.len() implies #[trigger] of[k] == (ManagerEvent::Of {
            head: (n - 1) as usize,
            event: says[k],
        }) by {
        }
        if all.contains(event) {
            let k = all.index_of(event);
            if k < before.len() {
                assert(before[k] == event);
            } else if k > before.len() {
                assert(of[k - before.len() - 1] == event);
                assert(says.contains(says[k - before.len() - 1]));
            }
        }
        if before.contains(event) {
            let k = before.index_of(event);
            assert(all[k] == event);
        }
        assert(all[before.len() as int] == head);
        if let ManagerEvent::Of { head: h, event: e } = event {
            if h == n - 1 && says.contains(e) {
                let k = says.index_of(e);
                assert(of[k] == event);
                assert(all[before.len() + 1 + k] == event);
            }
        }
    }
}

} // verus!

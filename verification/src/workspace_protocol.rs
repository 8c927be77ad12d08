//! The standard way a pager sees and switches desks: what each manager is told of them, and the
//! requests it stages until it commits.
//!
//! Desks are global across outputs, so there is one group, which every output enters. The desk
//! whose windows are on every desk is not exposed: it is nowhere that a user switches to.
use vstd::prelude::*;

use crate::scan::{decimal_text, push_decimal, same_text};
use crate::state::Desk;

verus! {

/// A desk as a pager sees it.
pub struct WorkspaceSnapshot {
    pub id: u32,
    pub name: String,
    pub active: bool,
    /// Position in the desk list, sent as the workspace's coordinate.
    pub index: u32,
    pub removable: bool,
}

/// An ordinary desk of the model.
pub struct DeskEntry {
    pub id: u32,
    pub name: Option<String>,
    pub deletable: bool,
}

/// What a client asked for, waiting for its commit.
#[derive(Debug, Clone, Copy, PartialEq, Eq)]
pub enum Staged {
    Activate(u32),
    Remove(u32),
    Create,
}

/// A workspace as a manager was last told of it.
pub struct WorkspaceResource {
    pub id: u32,
    pub last_name: String,
    pub last_active: bool,
}

/// A client's manager.
pub struct ManagerInstance {
    pub manager: u64,
    pub client: u64,
    /// Whether it has its group.
    pub group: bool,
    pub workspaces: Vec<WorkspaceResource>,
    /// Requests received since the last commit, applied in order when it arrives.
    pub staged: Vec<Staged>,
}

pub struct WorkspaceProtocolState {
    pub instances: Vec<ManagerInstance>,
}

/// What a manager is told.
#[derive(Debug, Clone, Copy, PartialEq, Eq)]
pub enum WorkspaceEvent {
    /// A workspace leaves the group.
    Leave(u32),
    /// A workspace is gone.
    Removed(u32),
    /// A workspace has the name of the desk at an index of the list.
    Name { id: u32, at: usize },
    State { id: u32, active: bool },
    /// The desk at an index of the list is new.
    Added { at: usize },
    /// What was told belongs together.
    Done,
}

/// A workspace as values: its id, its name, and whether it is the active one.
pub ghost struct Shown {
    pub id: u32,
    pub name: Seq<char>,
    pub active: bool,
}

impl View for WorkspaceResource {
    type V = Shown;

    open spec fn view(&self) -> Shown {
        Shown { id: self.id, name: self.last_name@, active: self.last_active }
    }
}

impl View for WorkspaceSnapshot {
    type V = Shown;

    open spec fn view(&self) -> Shown {
        Shown { id: self.id, name: self.name@, active: self.active }
    }
}

/// The workspaces as values.
pub open spec fn shown(list: Seq<WorkspaceResource>) -> Seq<Shown> {
    Seq::new(list.len(), |i: int| list[i]@)
}

/// The desks as values.
pub open spec fn wanted(list: Seq<WorkspaceSnapshot>) -> Seq<Shown> {
    Seq::new(list.len(), |i: int| list[i]@)
}

/// Where the first entry with an id is.
pub open spec fn at_id(list: Seq<Shown>, id: u32) -> Option<int>
    decreases list.len(),
{
    if list.len() == 0 {
        None
    } else {
        match at_id(list.drop_last(), id) {
            Some(i) => Some(i),
            None => if list.last().id == id {
                Some(list.len() - 1)
            } else {
                None
            },
        }
    }
}

/// The entries that are still among the desks.
pub open spec fn kept(list: Seq<Shown>, desks: Seq<Shown>) -> Seq<Shown>
    decreases list.len(),
{
    if list.len() == 0 {
        list
    } else if at_id(desks, list.last().id) is Some {
        kept(list.drop_last(), desks).push(list.last())
    } else {
        kept(list.drop_last(), desks)
    }
}

/// What is told of the entries that are not.
pub open spec fn farewells(list: Seq<Shown>, desks: Seq<Shown>, group: bool) -> Seq<WorkspaceEvent>
    decreases list.len(),
{
    if list.len() == 0 {
        Seq::empty()
    } else {
        let before = farewells(list.drop_last(), desks, group);
        let id = list.last().id;
        if at_id(desks, id) is Some {
            before
        } else if group {
            before + seq![WorkspaceEvent::Leave(id), WorkspaceEvent::Removed(id)]
        } else {
            before + seq![WorkspaceEvent::Removed(id)]
        }
    }
}

/// The entries once the first `n` desks have been told of.
pub open spec fn brought_up(list: Seq<Shown>, desks: Seq<Shown>, n: int) -> Seq<Shown>
    decreases n,
{
    if n <= 0 {
        list
    } else {
        let before = brought_up(list, desks, n - 1);
        match at_id(before, desks[n - 1].id) {
            Some(i) => before.update(i, desks[n - 1]),
            None => before.push(desks[n - 1]),
        }
    }
}

/// What is told of the first `n` desks: each change of a name or of a state, and each desk that
/// is new.
pub open spec fn news(list: Seq<Shown>, desks: Seq<Shown>, n: int) -> Seq<WorkspaceEvent>
    decreases n,
{
    if n <= 0 {
        Seq::empty()
    } else {
        let desk = desks[n - 1];
        let held = brought_up(list, desks, n - 1);
        let before = news(list, desks, n - 1);
        match at_id(held, desk.id) {
            Some(i) => {
                let named = if held[i].name != desk.name {
                    before.push(WorkspaceEvent::Name { id: desk.id, at: (n - 1) as usize })
                } else {
                    before
                };
                if held[i].active != desk.active {
                    named.push(WorkspaceEvent::State { id: desk.id, active: desk.active })
                } else {
                    named
                }
            },
            None => before.push(WorkspaceEvent::Added { at: (n - 1) as usize }),
        }
    }
}

/// The entries of a manager that was brought up to date.
pub open spec fn refreshed(list: Seq<Shown>, desks: Seq<Shown>) -> Seq<Shown> {
    brought_up(kept(list, desks), desks, desks.len() as int)
}

/// What brings a manager up to date.
pub open spec fn refresh_events(list: Seq<Shown>, desks: Seq<Shown>, group: bool) -> Seq<
    WorkspaceEvent,
> {
    let gone = farewells(list, desks, group);
    let rest = kept(list, desks);
    let told = news(rest, desks, desks.len() as int);
    let changed = gone.len() > 0 || rest.len() != desks.len() || told.len() > 0;
    gone + told + (if changed {
        seq![WorkspaceEvent::Done]
    } else {
        Seq::empty()
    })
}

proof fn at_id_skips(list: Seq<Shown>, id: u32, upto: int)
    requires
        0 <= upto <= list.len(),
        at_id(list.take(upto), id) is Some,
    ensures
        at_id(list, id) == at_id(list.take(upto), id),
    decreases list.len(),
{
    if upto == list.len() {
        assert(list.take(upto) =~= list);
    } else {
        assert(list.drop_last().take(upto) =~= list.take(upto));
        at_id_skips(list.drop_last(), id, upto);
    }
}

proof fn at_id_is_there(list: Seq<Shown>, id: u32)
    ensures
        at_id(list, id) matches Some(i) ==> 0 <= i < list.len() && list[i].id == id,
        at_id(list, id) is None ==> forall|i: int|
            0 <= i < list.len() ==> (#[trigger] list[i]).id != id,
    decreases list.len(),
{
    if list.len() > 0 {
        at_id_is_there(list.drop_last(), id);
        assert forall|i: int| at_id(list, id) is None && 0 <= i < list.len() implies (
        #[trigger] list[i]).id != id by {
            if i < list.len() - 1 {
                assert(list[i] == list.drop_last()[i]);
            }
        }
    }
}

fn find_resource(list: &Vec<WorkspaceResource>, id: u32) -> (at: Option<usize>)
    ensures
        match at {
            Some(i) => at_id(shown(list@), id) == Some(i as int) && i < list@.len()
                && list@[i as int].id == id,
            None => at_id(shown(list@), id) is None,
        },
{
    let ghost values = shown(list@);
    let mut i: usize = 0;
    assert(values.take(0) =~= Seq::empty());
    while i < list.len()
        invariant
            values == shown(list@),
            i <= list@.len(),
            at_id(values.take(i as int), id) is None,
        decreases list.len() - i,
    {
        let known: u32 = list[i].id;
        i += 1;
        assert(values.take(i as int).drop_last() =~= values.take(i - 1));
        if known == id {
            proof {
                at_id_skips(values, id, i as int);
            }
            return Some(i - 1);
        }
    }
    assert(values.take(values.len() as int) =~= values);
    None
}

fn is_wanted(desks: &[WorkspaceSnapshot], id: u32) -> (r: bool)
    ensures
        r == (at_id(wanted(desks@), id) is Some),
{
    proof {
        at_id_is_there(wanted(desks@), id);
    }
    let mut i: usize = 0;
    while i < desks.len()
        invariant
            i <= desks@.len(),
            forall|j: int| 0 <= j < i ==> (#[trigger] desks@[j]).id != id,
            at_id(wanted(desks@), id) is None ==> forall|j: int|
                0 <= j < desks@.len() ==> (#[trigger] wanted(desks@)[j]).id != id,
        decreases desks.len() - i,
    {
        if desks[i].id == id {
            assert(wanted(desks@)[i as int].id == id);
            return true;
        }
        i += 1;
    }
    proof {
        if at_id(wanted(desks@), id) is Some {
            let j = at_id(wanted(desks@), id)->0;
            assert(desks@[j].id != id);
        }
    }
    false
}

impl ManagerInstance {
    /// Tells the manager that the desks are gone that are no longer in the list.
    fn drop_gone(&mut self, desks: &[WorkspaceSnapshot], events: &mut Vec<WorkspaceEvent>)
        ensures
            shown(final(self).workspaces@) == kept(shown(old(self).workspaces@), wanted(desks@)),
            final(events)@ == old(events)@ + farewells(
                shown(old(self).workspaces@),
                wanted(desks@),
                old(self).group,
            ),
            final(self).manager == old(self).manager,
            final(self).client == old(self).client,
            final(self).group == old(self).group,
            final(self).staged == old(self).staged,
    {
        let ghost before = shown(self.workspaces@);
        let ghost target = wanted(desks@);
        let ghost start = events@;
        let mut rest: Vec<WorkspaceResource> = Vec::new();
        let mut list: Vec<WorkspaceResource> = Vec::new();
        std::mem::swap(&mut list, &mut self.workspaces);
        let ghost whole = list@;
        let mut done: Vec<WorkspaceResource> = reversed(list);
        assert(before.take(0) =~= Seq::empty());
        assert(events@ =~= start + farewells(before.take(0), target, self.group));
        assert(shown(rest@) =~= kept(before.take(0), target));
        while done.len() > 0
            invariant
                whole.len() == before.len(),
                before == shown(whole),
                target == wanted(desks@),
                done@.len() <= whole.len(),
                forall|j: int| 0 <= j < done@.len() ==> done@[j] == whole[whole.len() - 1 - j],
                shown(rest@) == kept(before.take(whole.len() - done@.len()), target),
                events@ == start + farewells(
                    before.take(whole.len() - done@.len()),
                    target,
                    self.group,
                ),
                self.group == old(self).group,
                self.manager == old(self).manager,
                self.client == old(self).client,
                self.staged == old(self).staged,
            decreases done.len(),
        {
            let ghost n = whole.len() - done@.len();
            let next = done.pop();
            if let Some(workspace) = next {
                assert(workspace == whole[n]);
                assert(before.take(n + 1).drop_last() =~= before.take(n));
                assert(before.take(n + 1).last() == workspace@);
                if is_wanted(desks, workspace.id) {
                    let ghost held = rest@;
                    rest.push(workspace);
                    assert(shown(rest@) =~= shown(held).push(workspace@));
                } else {
                    if self.group {
                        events.push(WorkspaceEvent::Leave(workspace.id));
                    }
                    events.push(WorkspaceEvent::Removed(workspace.id));
                    assert(events@ =~= start + farewells(before.take(n + 1), target, self.group));
                }
            }
        }
        assert(before.take(whole.len() as int) =~= before);
        self.workspaces = rest;
    }

    /// Reconciles the manager's workspaces with the desks that exist; gives what it is told.
    pub fn refresh(&mut self, desks: &[WorkspaceSnapshot]) -> (events: Vec<WorkspaceEvent>)
        ensures
            shown(final(self).workspaces@) == refreshed(
                shown(old(self).workspaces@),
                wanted(desks@),
            ),
            events@ == refresh_events(
                shown(old(self).workspaces@),
                wanted(desks@),
                old(self).group,
            ),
            final(self).manager == old(self).manager,
            final(self).client == old(self).client,
            final(self).group == old(self).group,
            final(self).staged == old(self).staged,
    {
        let mut events: Vec<WorkspaceEvent> = Vec::new();
        let ghost first = shown(self.workspaces@);
        let ghost target = wanted(desks@);
        self.drop_gone(desks, &mut events);
        let ghost list = shown(self.workspaces@);
        let ghost start = events@;
        assert(start =~= farewells(first, target, self.group));
        let mut changed = events.len() > 0 || self.workspaces.len() != desks.len();
        let mut n: usize = 0;
        assert(events@ =~= start + news(list, target, 0));
        while n < desks.len()
            invariant
                n <= desks@.len(),
                target == wanted(desks@),
                shown(self.workspaces@) == brought_up(list, target, n as int),
                events@ == start + news(list, target, n as int),
                changed == (start.len() > 0 || list.len() != desks@.len() || news(
                    list,
                    target,
                    n as int,
                ).len() > 0),
                self.group == old(self).group,
                self.manager == old(self).manager,
                self.client == old(self).client,
                self.staged == old(self).staged,
            decreases desks.len() - n,
        {
            let desk = &desks[n];
            let ghost held = shown(self.workspaces@);
            let ghost told = news(list, target, n as int);
            assert(target[n as int] == desk@);
            match find_resource(&self.workspaces, desk.id) {
                Some(i) => {
                    assert(held[i as int] == self.workspaces@[i as int]@);
                    let renamed = !same_text(
                        self.workspaces[i].last_name.as_str(),
                        desk.name.as_str(),
                    );
                    let switched = self.workspaces[i].last_active != desk.active;
                    if renamed {
                        events.push(WorkspaceEvent::Name { id: desk.id, at: n });
                        changed = true;
                    }
                    if switched {
                        events.push(WorkspaceEvent::State { id: desk.id, active: desk.active });
                        changed = true;
                    }
                    let entry = WorkspaceResource {
                        id: desk.id,
                        last_name: desk.name.as_str().to_owned(),
                        last_active: desk.active,
                    };
                    assert(entry@ == desk@);
                    self.workspaces.set(i, entry);
                    assert(shown(self.workspaces@) =~= held.update(i as int, desk@));
                },
                None => {
                    let entry = WorkspaceResource {
                        id: desk.id,
                        last_name: desk.name.as_str().to_owned(),
                        last_active: desk.active,
                    };
                    assert(entry@ == desk@);
                    self.workspaces.push(entry);
                    assert(shown(self.workspaces@) =~= held.push(desk@));
                    events.push(WorkspaceEvent::Added { at: n });
                    changed = true;
                },
            }
            n += 1;
            assert(events@ =~= start + news(list, target, n as int));
        }
        if changed {
            events.push(WorkspaceEvent::Done);
        }
        assert(events@ =~= refresh_events(first, target, self.group));
        events
    }
}

/// The entries from the last to the first.
fn reversed(list: Vec<WorkspaceResource>) -> (out: Vec<WorkspaceResource>)
    ensures
        out@.len() == list@.len(),
        forall|j: int| 0 <= j < out@.len() ==> out@[j] == list@[list@.len() - 1 - j],
{
    let ghost whole = list@;
    let mut list = list;
    let mut out: Vec<WorkspaceResource> = Vec::new();
    while list.len() > 0
        invariant
            list@.len() + out@.len() == whole.len(),
            list@ == whole.take(list@.len() as int),
            forall|j: int| 0 <= j < out@.len() ==> out@[j] == whole[whole.len() - 1 - j],
        decreases list.len(),
    {
        if let Some(entry) = list.pop() {
            out.push(entry);
        }
    }
    out
}

/// The managers that are alive.
pub open spec fn living(list: Seq<ManagerInstance>, alive: Seq<u64>) -> Seq<ManagerInstance>
    decreases list.len(),
{
    if list.len() == 0 {
        list
    } else if alive.contains(list.last().manager) {
        living(list.drop_last(), alive).push(list.last())
    } else {
        living(list.drop_last(), alive)
    }
}

/// The managers but one.
pub open spec fn all_but(list: Seq<ManagerInstance>, manager: u64) -> Seq<ManagerInstance>
    decreases list.len(),
{
    if list.len() == 0 {
        list
    } else if list.last().manager != manager {
        all_but(list.drop_last(), manager).push(list.last())
    } else {
        all_but(list.drop_last(), manager)
    }
}

/// Where the first manager with an id is.
pub open spec fn manager_at(list: Seq<ManagerInstance>, manager: u64) -> Option<int>
    decreases list.len(),
{
    if list.len() == 0 {
        None
    } else {
        match manager_at(list.drop_last(), manager) {
            Some(i) => Some(i),
            None => if list.last().manager == manager {
                Some(list.len() - 1)
            } else {
                None
            },
        }
    }
}

proof fn manager_at_skips(list: Seq<ManagerInstance>, manager: u64, upto: int)
    requires
        0 <= upto <= list.len(),
        manager_at(list.take(upto), manager) is Some,
    ensures
        manager_at(list, manager) == manager_at(list.take(upto), manager),
    decreases list.len(),
{
    if upto == list.len() {
        assert(list.take(upto) =~= list);
    } else {
        assert(list.drop_last().take(upto) =~= list.take(upto));
        manager_at_skips(list.drop_last(), manager, upto);
    }
}

fn holds_id(list: &[u64], id: u64) -> (r: bool)
    ensures
        r == list@.contains(id),
{
    let mut i: usize = 0;
    while i < list.len()
        invariant
            i <= list@.len(),
            forall|j: int| 0 <= j < i ==> list@[j] != id,
        decreases list.len() - i,
    {
        if list[i] == id {
            return true;
        }
        i += 1;
    }
    false
}

/// Whether two managers differ at most in what was staged.
pub open spec fn same_but_staged(a: ManagerInstance, b: ManagerInstance) -> bool {
    &&& a.manager == b.manager
    &&& a.client == b.client
    &&& a.group == b.group
    &&& a.workspaces == b.workspaces
}

/// Whether two managers differ at most in the workspaces they were told of.
pub open spec fn same_but_workspaces(a: ManagerInstance, b: ManagerInstance) -> bool {
    &&& a.manager == b.manager
    &&& a.client == b.client
    &&& a.group == b.group
    &&& a.staged == b.staged
}

/// Whether a client's request came to wait with every manager of that client, and with no other.
pub open spec fn staged_with(
    before: Seq<ManagerInstance>,
    after: Seq<ManagerInstance>,
    client: u64,
    action: Staged,
) -> bool {
    &&& after.len() == before.len()
    &&& forall|i: int|
        0 <= i < before.len() ==> {
            &&& same_but_staged(#[trigger] after[i], before[i])
            &&& after[i].staged@ == if before[i].client == client {
                before[i].staged@.push(action)
            } else {
                before[i].staged@
            }
        }
}

/// Whether everything that waited with a manager was taken from it, and nothing from the others.
pub open spec fn taken_from(
    before: Seq<ManagerInstance>,
    after: Seq<ManagerInstance>,
    manager: u64,
    staged: Seq<Staged>,
) -> bool {
    match manager_at(before, manager) {
        Some(k) => {
            &&& after.len() == before.len()
            &&& staged == before[k].staged@
            &&& after[k].staged@ == Seq::<Staged>::empty()
            &&& same_but_staged(after[k], before[k])
            &&& forall|i: int|
                0 <= i < before.len() && i != k ==> (#[trigger] after[i]) == before[i]
        },
        None => staged == Seq::<Staged>::empty() && after == before,
    }
}

/// What one manager is told.
pub struct Told {
    pub manager: u64,
    pub events: Vec<WorkspaceEvent>,
}

/// Whether each manager was brought up to date with the desks, and told so.
pub open spec fn reconciled(
    before: Seq<ManagerInstance>,
    after: Seq<ManagerInstance>,
    told: Seq<Told>,
    desks: Seq<Shown>,
) -> bool {
    &&& after.len() == before.len()
    &&& told.len() == before.len()
    &&& forall|i: int|
        0 <= i < before.len() ==> {
            &&& same_but_workspaces(#[trigger] after[i], before[i])
            &&& shown(after[i].workspaces@) == refreshed(shown(before[i].workspaces@), desks)
            &&& told[i].manager == before[i].manager
            &&& told[i].events@ == refresh_events(
                shown(before[i].workspaces@),
                desks,
                before[i].group,
            )
        }
}

impl WorkspaceProtocolState {
    pub fn new() -> (state: Self)
        ensures
            state.instances@ == Seq::<ManagerInstance>::empty(),
    {
        WorkspaceProtocolState { instances: Vec::new() }
    }

    pub fn is_empty(&self) -> (r: bool)
        ensures
            r == (self.instances@.len() == 0),
    {
        self.instances.len() == 0
    }

    /// A manager has just bound: it is told of every desk, and holds nothing staged.
    pub fn advertise(
        &mut self,
        manager: u64,
        client: u64,
        group: bool,
        desks: &[WorkspaceSnapshot],
    ) -> (events: Vec<WorkspaceEvent>)
        ensures
            final(self).instances@.len() == old(self).instances@.len() + 1,
            final(self).instances@.drop_last() == old(self).instances@,
            final(self).instances@.last().manager == manager,
            final(self).instances@.last().client == client,
            final(self).instances@.last().group == group,
            final(self).instances@.last().staged@ == Seq::<Staged>::empty(),
            shown(final(self).instances@.last().workspaces@) == wanted(desks@),
            events@ == Seq::new(
                desks@.len(),
                |i: int| WorkspaceEvent::Added { at: i as usize },
            ).push(WorkspaceEvent::Done),
    {
        let mut events: Vec<WorkspaceEvent> = Vec::new();
        let mut workspaces: Vec<WorkspaceResource> = Vec::new();
        let mut i: usize = 0;
        while i < desks.len()
            invariant
                i <= desks@.len(),
                events@.len() == i,
                workspaces@.len() == i,
                forall|j: int| 0 <= j < i ==> (#[trigger] workspaces@[j])@ == desks@[j]@,
                forall|j: int|
                    0 <= j < i ==> events@[j] == (WorkspaceEvent::Added { at: j as usize }),
            decreases desks.len() - i,
        {
            let entry = WorkspaceResource {
                id: desks[i].id,
                last_name: desks[i].name.as_str().to_owned(),
                last_active: desks[i].active,
            };
            assert(entry@ == desks@[i as int]@);
            workspaces.push(entry);
            events.push(WorkspaceEvent::Added { at: i });
            i += 1;
        }
        assert(shown(workspaces@) =~= wanted(desks@));
        events.push(WorkspaceEvent::Done);
        let ghost before = self.instances@;
        self.instances.push(
            ManagerInstance { manager, client, group, workspaces, staged: Vec::new() },
        );
        assert(self.instances@.drop_last() =~= before);
        events
    }

    /// Reconciles each living manager with the desks that exist; gives what each is told.
    pub fn refresh(&mut self, alive: &[u64], desks: &[WorkspaceSnapshot]) -> (told: Vec<Told>)
        ensures
            reconciled(
                living(old(self).instances@, alive@),
                final(self).instances@,
                told@,
                wanted(desks@),
            ),
    {
        let ghost first = self.instances@;
        let ghost mut seen: int = 0;
        let mut i: usize = 0;
        assert(first.take(0) =~= Seq::empty());
        assert(self.instances@ =~= living(first.take(0), alive@) + first.skip(0));
        while i < self.instances.len()
            invariant
                0 <= seen <= first.len(),
                i == living(first.take(seen), alive@).len(),
                self.instances@ == living(first.take(seen), alive@) + first.skip(seen),
            decreases first.len() - seen,
        {
            let ghost held = living(first.take(seen), alive@);
            assert(self.instances@.len() == held.len() + (first.len() - seen));
            assert(self.instances@[i as int] == first[seen]);
            assert(first.take(seen + 1).drop_last() =~= first.take(seen));
            assert(first.take(seen + 1).last() == first[seen]);
            if holds_id(alive, self.instances[i].manager) {
                i += 1;
                assert(self.instances@ =~= held.push(first[seen]) + first.skip(seen + 1));
            } else {
                self.instances.remove(i);
                assert(self.instances@ =~= held + first.skip(seen + 1));
            }
            proof {
                seen = seen + 1;
            }
        }
        assert(first.take(seen) =~= first) by {
            assert(self.instances@.len() == living(first.take(seen), alive@).len() + (first.len()
                - seen));
        }
        assert(self.instances@ =~= living(first, alive@));
        let ghost rest = self.instances@;
        let mut told: Vec<Told> = Vec::new();
        let mut k: usize = 0;
        while k < self.instances.len()
            invariant
                k <= rest.len(),
                self.instances@.len() == rest.len(),
                told@.len() == k,
                forall|j: int| k <= j < rest.len() ==> self.instances@[j] == rest[j],
                forall|j: int|
                    0 <= j < k ==> {
                        &&& same_but_workspaces(#[trigger] self.instances@[j], rest[j])
                        &&& shown(self.instances@[j].workspaces@) == refreshed(
                            shown(rest[j].workspaces@),
                            wanted(desks@),
                        )
                        &&& told@[j].manager == rest[j].manager
                        &&& told@[j].events@ == refresh_events(
                            shown(rest[j].workspaces@),
                            wanted(desks@),
                            rest[j].group,
                        )
                    },
            decreases rest.len() - k,
        {
            let events = self.instances[k].refresh(desks);
            told.push(Told { manager: self.instances[k].manager, events });
            k += 1;
        }
        assert(reconciled(rest, self.instances@, told@, wanted(desks@)));
        told
    }

    /// Brings every living manager up to date with the desks in their order. With no manager bound
    /// there is nothing to do.
    pub fn workspaces_changed(&mut self, alive: &[u64], order: &[DeskEntry], active: Desk) -> (told:
        Vec<Told>)
        requires
            order@.len() <= u32::MAX,
        ensures
            reconciled(
                living(old(self).instances@, alive@),
                final(self).instances@,
                told@,
                exposed(order@, active),
            ),
    {
        if self.is_empty() {
            return Vec::new();
        }
        let desks = workspace_snapshots(order, active);
        self.refresh(alive, desks.as_slice())
    }

    /// A client asks for something: it waits with every manager of that client.
    pub fn stage(&mut self, client: u64, action: Staged)
        ensures
            staged_with(old(self).instances@, final(self).instances@, client, action),
    {
        let ghost first = self.instances@;
        let mut k: usize = 0;
        while k < self.instances.len()
            invariant
                k <= first.len(),
                self.instances@.len() == first.len(),
                forall|j: int| k <= j < first.len() ==> self.instances@[j] == first[j],
                forall|j: int|
                    0 <= j < k ==> {
                        &&& same_but_staged(#[trigger] self.instances@[j], first[j])
                        &&& self.instances@[j].staged@ == if first[j].client == client {
                            first[j].staged@.push(action)
                        } else {
                            first[j].staged@
                        }
                    },
            decreases first.len() - k,
        {
            if self.instances[k].client == client {
                self.instances[k].staged.push(action);
            }
            k += 1;
        }
    }

    /// Takes everything a manager staged, to apply on its commit.
    pub fn take_staged(&mut self, manager: u64) -> (staged: Vec<Staged>)
        ensures
            taken_from(old(self).instances@, final(self).instances@, manager, staged@),
    {
        let ghost first = self.instances@;
        let mut k: usize = 0;
        assert(first.take(0) =~= Seq::empty());
        while k < self.instances.len()
            invariant
                k <= first.len(),
                self.instances@ == first,
                *self == *old(self),
                manager_at(first.take(k as int), manager) is None,
            decreases first.len() - k,
        {
            assert(first.take(k + 1).drop_last() =~= first.take(k as int));
            if self.instances[k].manager == manager {
                proof {
                    manager_at_skips(first, manager, k + 1);
                }
                let mut out: Vec<Staged> = Vec::new();
                std::mem::swap(&mut out, &mut self.instances[k].staged);
                return out;
            }
            k += 1;
        }
        assert(first.take(first.len() as int) =~= first);
        Vec::new()
    }

    /// Forgets a manager that is gone or wants no more.
    pub fn forget_manager(&mut self, manager: u64)
        ensures
            final(self).instances@ == all_but(old(self).instances@, manager),
    {
        let ghost first = self.instances@;
        let ghost mut seen: int = 0;
        let mut i: usize = 0;
        assert(first.take(0) =~= Seq::empty());
        assert(self.instances@ =~= all_but(first.take(0), manager) + first.skip(0));
        while i < self.instances.len()
            invariant
                0 <= seen <= first.len(),
                i == all_but(first.take(seen), manager).len(),
                self.instances@ == all_but(first.take(seen), manager) + first.skip(seen),
            decreases first.len() - seen,
        {
            let ghost held = all_but(first.take(seen), manager);
            assert(self.instances@.len() == held.len() + (first.len() - seen));
            assert(self.instances@[i as int] == first[seen]);
            assert(first.take(seen + 1).drop_last() =~= first.take(seen));
            assert(first.take(seen + 1).last() == first[seen]);
            if self.instances[i].manager != manager {
                i += 1;
                assert(self.instances@ =~= held.push(first[seen]) + first.skip(seen + 1));
            } else {
                self.instances.remove(i);
                assert(self.instances@ =~= held + first.skip(seen + 1));
            }
            proof {
                seen = seen + 1;
            }
        }
        assert(first.take(seen) =~= first) by {
            assert(self.instances@.len() == all_but(first.take(seen), manager).len() + (first.len()
                - seen));
        }
        assert(self.instances@ =~= all_but(first, manager));
    }
}

/// What a manager is told of a workspace that is new to it, in order.
#[derive(Debug, Clone, Copy, PartialEq, Eq)]
pub enum Announcement {
    Workspace,
    /// It enters the group.
    Enter,
    Id,
    Name,
    Coordinates(u32),
    State { active: bool },
    /// It can be activated, and removed where a desk can be.
    Capabilities { remove: bool },
}

/// What a manager is told of a workspace that is new to it.
pub fn add_workspace(desk: &WorkspaceSnapshot, group: bool) -> (events: Vec<Announcement>)
    ensures
        events@ == seq![Announcement::Workspace] + (if group {
            seq![Announcement::Enter]
        } else {
            Seq::empty()
        }) + seq![
            Announcement::Id,
            Announcement::Name,
            Announcement::Coordinates(desk.index),
            Announcement::State { active: desk.active },
            Announcement::Capabilities { remove: desk.removable },
        ],
{
    let mut events: Vec<Announcement> = Vec::new();
    events.push(Announcement::Workspace);
    if group {
        events.push(Announcement::Enter);
    }
    events.push(Announcement::Id);
    events.push(Announcement::Name);
    events.push(Announcement::Coordinates(desk.index));
    events.push(Announcement::State { active: desk.active });
    events.push(Announcement::Capabilities { remove: desk.removable });
    assert(events@ =~= seq![Announcement::Workspace] + (if group {
        seq![Announcement::Enter]
    } else {
        Seq::empty()
    }) + seq![
        Announcement::Id,
        Announcement::Name,
        Announcement::Coordinates(desk.index),
        Announcement::State { active: desk.active },
        Announcement::Capabilities { remove: desk.removable },
    ]);
    events
}

/// The id that a pager knows a desk by: its number.
pub fn workspace_id(id: u32) -> (text: String)
    ensures
        text@ == decimal_text(id as nat),
{
    let mut text = String::new();
    push_decimal(&mut text, id as u64);
    assert(text@ =~= decimal_text(id as nat));
    text
}

/// The desks as a pager should see them: the ordinary ones, in order.
pub open spec fn exposed(order: Seq<DeskEntry>, active: Desk) -> Seq<Shown> {
    Seq::new(
        order.len(),
        |i: int|
            Shown {
                id: order[i].id,
                name: match order[i].name {
                    Some(name) => name@,
                    None => Seq::<char>::empty(),
                },
                active: active == Desk::Ordinary(order[i].id),
            },
    )
}

/// The desks a pager should see: the ordinary ones, in order.
pub fn workspace_snapshots(order: &[DeskEntry], active: Desk) -> (desks: Vec<WorkspaceSnapshot>)
    requires
        order@.len() <= u32::MAX,
    ensures
        wanted(desks@) == exposed(order@, active),
        forall|i: int|
            0 <= i < order@.len() ==> {
                &&& (#[trigger] desks@[i]).index == i
                &&& desks@[i].removable == order@[i].deletable
            },
{
    let mut desks: Vec<WorkspaceSnapshot> = Vec::new();
    let mut i: usize = 0;
    while i < order.len()
        invariant
            i <= order@.len() <= u32::MAX,
            desks@.len() == i,
            forall|j: int|
                0 <= j < i ==> {
                    &&& (#[trigger] desks@[j])@ == exposed(order@, active)[j]
                    &&& desks@[j].index == j
                    &&& desks@[j].removable == order@[j].deletable
                },
        decreases order.len() - i,
    {
        let entry = &order[i];
        let name = match &entry.name {
            Some(name) => name.as_str().to_owned(),
            None => String::new(),
        };
        desks.push(
            WorkspaceSnapshot {
                id: entry.id,
                name,
                active: active == Desk::Ordinary(entry.id),
                index: i as u32,
                removable: entry.deletable,
            },
        );
        i += 1;
    }
    assert(wanted(desks@) =~= exposed(order@, active));
    desks
}

/// The ids of entries.
pub open spec fn ids(list: Seq<Shown>) -> Seq<u32> {
    Seq::new(list.len(), |i: int| list[i].id)
}

proof fn first_is_the_one(list: Seq<Shown>, i: int)
    requires
        0 <= i < list.len(),
        ids(list).no_duplicates(),
    ensures
        at_id(list, list[i].id) == Some(i),
{
    at_id_is_there(list, list[i].id);
    let k = at_id(list, list[i].id)->0;
    if at_id(list, list[i].id) is Some {
        assert(ids(list)[k] == ids(list)[i]);
    }
}

proof fn kept_are_wanted(list: Seq<Shown>, desks: Seq<Shown>)
    requires
        ids(list).no_duplicates(),
    ensures
        ids(kept(list, desks)).no_duplicates(),
        forall|i: int|
            0 <= i < kept(list, desks).len() ==> at_id(
                desks,
                (#[trigger] kept(list, desks)[i]).id,
            ) is Some && exists|j: int| 0 <= j < list.len() && list[j] == kept(list, desks)[i],
    decreases list.len(),
{
    if list.len() > 0 {
        let fewer = list.drop_last();
        assert forall|i: int, j: int| 0 <= i < j < fewer.len() implies ids(fewer)[i]
            != ids(fewer)[j] by {
            assert(ids(list)[i] != ids(list)[j]);
        }
        kept_are_wanted(fewer, desks);
        let rest = kept(list, desks);
        let before = kept(fewer, desks);
        assert forall|i: int| 0 <= i < rest.len() implies at_id(
            desks,
            (#[trigger] rest[i]).id,
        ) is Some && exists|j: int| 0 <= j < list.len() && list[j] == rest[i] by {
            if i < before.len() {
                assert(rest[i] == before[i]);
                let j = choose|j: int| 0 <= j < fewer.len() && fewer[j] == before[i];
                assert(list[j] == rest[i]);
            } else {
                assert(list[list.len() - 1] == rest[i]);
            }
        }
        assert forall|i: int, j: int| 0 <= i < j < rest.len() implies ids(rest)[i] != ids(
            rest,
        )[j] by {
            if j < before.len() {
                assert(ids(before)[i] != ids(before)[j]);
            } else {
                let k = choose|k: int| 0 <= k < fewer.len() && fewer[k] == before[i];
                assert(before[i].id == list[k].id);
                assert(ids(list)[k] != ids(list)[list.len() - 1]);
            }
        }
    }
}

proof fn brought_up_shows(list: Seq<Shown>, desks: Seq<Shown>, n: int)
    requires
        0 <= n <= desks.len(),
        ids(list).no_duplicates(),
        ids(desks).no_duplicates(),
    ensures
        ids(brought_up(list, desks, n)).no_duplicates(),
        brought_up(list, desks, n).len() >= list.len(),
        forall|k: int|
            0 <= k < n ==> brought_up(list, desks, n).contains(#[trigger] desks[k]),
        forall|i: int|
            0 <= i < brought_up(list, desks, n).len() ==> desks.contains(
                #[trigger] brought_up(list, desks, n)[i],
            ) || list.contains(brought_up(list, desks, n)[i]),
    decreases n,
{
    if n > 0 {
        brought_up_shows(list, desks, n - 1);
        let before = brought_up(list, desks, n - 1);
        let after = brought_up(list, desks, n);
        let desk = desks[n - 1];
        at_id_is_there(before, desk.id);
        let spot: int = match at_id(before, desk.id) {
            Some(i) => i,
            None => before.len() as int,
        };
        assert(after[spot] == desk);
        assert forall|i: int, j: int| 0 <= i < j < after.len() implies ids(after)[i] != ids(
            after,
        )[j] by {
            if j < before.len() {
                assert(ids(before)[i] != ids(before)[j]);
            } else {
                assert(before[i].id != desk.id);
            }
        }
        assert forall|k: int| 0 <= k < n implies after.contains(#[trigger] desks[k]) by {
            if k < n - 1 {
                let i = choose|i: int| 0 <= i < before.len() && before[i] == desks[k];
                assert(ids(desks)[k] != ids(desks)[n - 1]);
                assert(after[i] == desks[k]);
            }
        }
        assert forall|i: int| 0 <= i < after.len() implies desks.contains(#[trigger] after[i])
            || list.contains(after[i]) by {
            if i == spot {
                assert(desks[n - 1] == after[i]);
            } else {
                assert(after[i] == before[i]);
            }
        }
    }
}

/// A manager that was brought up to date shows each desk once, with its name and state, and
/// nothing else.
pub proof fn a_refreshed_pager_shows_the_desks(list: Seq<Shown>, desks: Seq<Shown>)
    requires
        ids(list).no_duplicates(),
        ids(desks).no_duplicates(),
    ensures
        ids(refreshed(list, desks)).no_duplicates(),
        refreshed(list, desks).to_set() == desks.to_set(),
{
    let rest = kept(list, desks);
    let after = refreshed(list, desks);
    kept_are_wanted(list, desks);
    brought_up_shows(rest, desks, desks.len() as int);
    assert forall|s: Shown| desks.contains(s) implies after.contains(s) by {
        let k = choose|k: int| 0 <= k < desks.len() && desks[k] == s;
        assert(after.contains(desks[k]));
    }
    assert forall|s: Shown| after.contains(s) implies desks.contains(s) by {
        let i = choose|i: int| 0 <= i < after.len() && after[i] == s;
        if !desks.contains(after[i]) {
            let k = choose|k: int| 0 <= k < rest.len() && rest[k] == after[i];
            assert(at_id(desks, rest[k].id) is Some);
            at_id_is_there(desks, rest[k].id);
            let d = at_id(desks, rest[k].id)->0;
            assert(after.contains(desks[d]));
            let j = choose|j: int| 0 <= j < after.len() && after[j] == desks[d];
            assert(ids(after)[i] == ids(after)[j]);
            assert(i == j);
        }
    }
    assert(after.to_set() =~= desks.to_set());
}

proof fn all_are_kept(list: Seq<Shown>, desks: Seq<Shown>, group: bool)
    requires
        forall|i: int| 0 <= i < list.len() ==> at_id(desks, (#[trigger] list[i]).id) is Some,
    ensures
        kept(list, desks) == list,
        farewells(list, desks, group) == Seq::<WorkspaceEvent>::empty(),
    decreases list.len(),
{
    if list.len() > 0 {
        let fewer = list.drop_last();
        assert forall|i: int| 0 <= i < fewer.len() implies at_id(
            desks,
            (#[trigger] fewer[i]).id,
        ) is Some by {
            assert(fewer[i] == list[i]);
        }
        all_are_kept(fewer, desks, group);
        assert(list[list.len() - 1] == list.last());
        assert(fewer.push(list.last()) =~= list);
    }
}

proof fn no_news(list: Seq<Shown>, desks: Seq<Shown>, n: int)
    requires
        0 <= n <= desks.len(),
        ids(list).no_duplicates(),
        forall|k: int| 0 <= k < desks.len() ==> list.contains(#[trigger] desks[k]),
    ensures
        brought_up(list, desks, n) == list,
        news(list, desks, n) == Seq::<WorkspaceEvent>::empty(),
    decreases n,
{
    if n > 0 {
        no_news(list, desks, n - 1);
        assert(list.contains(desks[n - 1]));
        let i = choose|i: int| 0 <= i < list.len() && list[i] == desks[n - 1];
        first_is_the_one(list, i);
        assert(list.update(i, desks[n - 1]) =~= list);
    }
}

/// A manager that is up to date is told nothing.
pub proof fn an_up_to_date_pager_is_told_nothing(list: Seq<Shown>, desks: Seq<Shown>, group: bool)
    requires
        ids(list).no_duplicates(),
        ids(desks).no_duplicates(),
    ensures
        refresh_events(refreshed(list, desks), desks, group) == Seq::<WorkspaceEvent>::empty(),
        refreshed(refreshed(list, desks), desks) == refreshed(list, desks),
{
    let after = refreshed(list, desks);
    a_refreshed_pager_shows_the_desks(list, desks);
    assert forall|i: int| 0 <= i < after.len() implies at_id(
        desks,
        (#[trigger] after[i]).id,
    ) is Some by {
        assert(after.to_set().contains(after[i]));
        assert(desks.to_set().contains(after[i]));
        let k = choose|k: int| 0 <= k < desks.len() && desks[k] == after[i];
        first_is_the_one(desks, k);
    }
    assert forall|k: int| 0 <= k < desks.len() implies after.contains(#[trigger] desks[k]) by {
        assert(desks.to_set().contains(desks[k]));
        assert(after.to_set().contains(desks[k]));
    }
    all_are_kept(after, desks, group);
    no_news(after, desks, desks.len() as int);
    each_is_distinct(after);
    each_is_distinct(desks);
    after.unique_seq_to_set();
    desks.unique_seq_to_set();
    assert(refresh_events(after, desks, group) =~= Seq::empty());
}

proof fn each_is_distinct(list: Seq<Shown>)
    requires
        ids(list).no_duplicates(),
    ensures
        list.no_duplicates(),
{
    assert forall|i: int, j: int| 0 <= i < j < list.len() implies list[i] != list[j] by {
        assert(ids(list)[i] != ids(list)[j]);
    }
}

proof fn found_by_id(list: Seq<ManagerInstance>, other: Seq<ManagerInstance>, manager: u64)
    requires
        list.len() == other.len(),
        forall|i: int| 0 <= i < list.len() ==> (#[trigger] list[i]).manager == other[i].manager,
    ensures
        manager_at(list, manager) == manager_at(other, manager),
        manager_at(list, manager) matches Some(k) ==> 0 <= k < list.len(),
    decreases list.len(),
{
    if list.len() > 0 {
        assert(list[list.len() - 1].manager == other[list.len() - 1].manager);
        assert forall|i: int| 0 <= i < list.drop_last().len() implies (
        #[trigger] list.drop_last()[i]).manager == other.drop_last()[i].manager by {
            assert(list[i].manager == other[i].manager);
        }
        found_by_id(list.drop_last(), other.drop_last(), manager);
    }
}

/// What a client asks for is there when its manager commits, behind what it asked for before;
/// committing again gives nothing, and what other clients' managers hold is left alone.
pub proof fn a_commit_takes_what_was_staged(
    before: Seq<ManagerInstance>,
    asked: Seq<ManagerInstance>,
    after: Seq<ManagerInstance>,
    last: Seq<ManagerInstance>,
    manager: u64,
    action: Staged,
    staged: Seq<Staged>,
    again: Seq<Staged>,
)
    requires
        manager_at(before, manager) is Some,
        staged_with(before, asked, before[manager_at(before, manager)->0].client, action),
        taken_from(asked, after, manager, staged),
        taken_from(after, last, manager, again),
    ensures
        staged == before[manager_at(before, manager)->0].staged@.push(action),
        again == Seq::<Staged>::empty(),
        forall|i: int|
            0 <= i < before.len() && before[i].client != before[manager_at(
                before,
                manager,
            )->0].client ==> (#[trigger] after[i]).staged@ == before[i].staged@,
{
    assert forall|i: int| 0 <= i < before.len() implies (#[trigger] before[i]).manager
        == asked[i].manager by {
        assert(same_but_staged(asked[i], before[i]));
    }
    found_by_id(before, asked, manager);
    let k = manager_at(before, manager)->0;
    assert forall|i: int| 0 <= i < asked.len() implies (#[trigger] asked[i]).manager
        == after[i].manager by {
        if i != k {
            assert(after[i] == asked[i]);
        }
    }
    found_by_id(asked, after, manager);
    assert(same_but_staged(asked[k], before[k]));
    assert forall|i: int|
        0 <= i < before.len() && before[i].client != before[k].client implies (
    #[trigger] after[i]).staged@ == before[i].staged@ by {
        assert(same_but_staged(asked[i], before[i]));
        assert(after[i] == asked[i]);
    }
}

/// Whatever a manager is told, a desk that is gone included, ends with the event that makes the
/// client take it in.
pub proof fn every_change_is_taken_in(list: Seq<Shown>, desks: Seq<Shown>, group: bool)
    ensures
        refresh_events(list, desks, group).len() > 0 ==> refresh_events(list, desks, group).last()
            == WorkspaceEvent::Done,
{
}

/// A new workspace is introduced before anything is said of it, and enters its group where there
/// is one; what is said of it is how the desk is.
pub proof fn a_workspace_is_introduced_first(
    desk: &WorkspaceSnapshot,
    group: bool,
    events: Vec<Announcement>,
)
    requires
        call_ensures(add_workspace, (desk, group), events),
    ensures
        events@.len() > 0 && events@[0] is Workspace,
        events@.contains(Announcement::Enter) == group,
        events@.contains(Announcement::Id) && events@.contains(Announcement::Name),
        events@.contains(Announcement::Coordinates(desk.index)),
        events@.contains(Announcement::State { active: desk.active }),
        events@.contains(Announcement::Capabilities { remove: desk.removable }),
        forall|k: int|
            0 < k < events@.len() ==> match #[trigger] events@[k] {
                Announcement::Workspace => false,
                Announcement::Coordinates(at) => at == desk.index,
                Announcement::State { active } => active == desk.active,
                Announcement::Capabilities { remove } => remove == desk.removable,
                _ => true,
            },
{
    let n: int = if group {
        2
    } else {
        1
    };
    if group {
        assert(events@[1] is Enter);
    }
    assert(events@[n] is Id);
    assert(events@[n + 1] is Name);
    assert(events@[n + 2] == Announcement::Coordinates(desk.index));
    assert(events@[n + 3] == (Announcement::State { active: desk.active }));
    assert(events@[n + 4] == (Announcement::Capabilities { remove: desk.removable }));
}

/// Whether there is an entry with an id.
pub open spec fn has_id(list: Seq<Shown>, id: u32) -> bool {
    exists|i: int| 0 <= i < list.len() && (#[trigger] list[i]).id == id
}

proof fn at_id_is_having(list: Seq<Shown>, id: u32)
    ensures
        at_id(list, id) is Some <==> has_id(list, id),
    decreases list.len(),
{
    if list.len() > 0 {
        let fewer = list.drop_last();
        at_id_is_having(fewer, id);
        if has_id(fewer, id) {
            let i = choose|i: int| 0 <= i < fewer.len() && (#[trigger] fewer[i]).id == id;
            assert(list[i].id == id);
        }
        if has_id(list, id) {
            let i = choose|i: int| 0 <= i < list.len() && (#[trigger] list[i]).id == id;
            if i < fewer.len() {
                assert(fewer[i].id == id);
            }
        }
        if list.last().id == id {
            assert(list[list.len() - 1].id == id);
        }
    }
}

/// A manager is told of the end of exactly those of its workspaces whose desk is gone; one that has
/// a group is told that they leave it.
pub proof fn a_gone_desk_is_taken_leave_of(
    list: Seq<Shown>,
    desks: Seq<Shown>,
    group: bool,
    id: u32,
)
    ensures
        farewells(list, desks, group).contains(WorkspaceEvent::Removed(id)) <==> has_id(list, id)
            && !has_id(desks, id),
        farewells(list, desks, group).contains(WorkspaceEvent::Leave(id)) <==> group && has_id(
            list,
            id,
        ) && !has_id(desks, id),
        forall|k: int|
            0 <= k < farewells(list, desks, group).len() ==> (#[trigger] farewells(
                list,
                desks,
                group,
            )[k]) is Removed || farewells(list, desks, group)[k] is Leave,
    decreases list.len(),
{
    if list.len() > 0 {
        let fewer = list.drop_last();
        a_gone_desk_is_taken_leave_of(fewer, desks, group, id);
        at_id_is_having(desks, list.last().id);
        let before = farewells(fewer, desks, group);
        let all = farewells(list, desks, group);
        assert(has_id(list, id) <==> has_id(fewer, id) || list.last().id == id) by {
            at_id_is_having(list, id);
            at_id_is_having(fewer, id);
        }
        let gone = !has_id(desks, list.last().id);
        let more = if !gone {
            Seq::empty()
        } else if group {
            seq![
                WorkspaceEvent::Leave(list.last().id),
                WorkspaceEvent::Removed(list.last().id),
            ]
        } else {
            seq![WorkspaceEvent::Removed(list.last().id)]
        };
        assert(all =~= before + more);
        assert forall|event: WorkspaceEvent| #[trigger] all.contains(event) <==> before.contains(
            event,
        ) || more.contains(event) by {
            if all.contains(event) {
                let k = all.index_of(event);
                if k < before.len() {
                    assert(before[k] == event);
                } else {
                    assert(more[k - before.len()] == event);
                }
            }
            if before.contains(event) {
                let k = before.index_of(event);
                assert(all[k] == event);
            }
            if more.contains(event) {
                let k = more.index_of(event);
                assert(all[before.len() + k] == event);
            }
        }
        if gone {
            assert(more[more.len() - 1] == WorkspaceEvent::Removed(list.last().id));
            if group {
                assert(more[0] == WorkspaceEvent::Leave(list.last().id));
            }
        }
        assert(all.contains(WorkspaceEvent::Removed(id)) <==> before.contains(
            WorkspaceEvent::Removed(id),
        ) || more.contains(WorkspaceEvent::Removed(id)));
        assert(all.contains(WorkspaceEvent::Leave(id)) <==> before.contains(
            WorkspaceEvent::Leave(id),
        ) || more.contains(WorkspaceEvent::Leave(id)));
        assert forall|k: int| 0 <= k < all.len() implies (#[trigger] all[k]) is Removed
            || all[k] is Leave by {
            if k < before.len() {
                assert(all[k] == before[k]);
            }
        }
    }
}

proof fn the_others_are_not_touched(list: Seq<Shown>, desks: Seq<Shown>, n: int, m: int)
    requires
        0 <= n <= m < desks.len(),
        ids(desks).no_duplicates(),
    ensures
        at_id(brought_up(list, desks, n), desks[m].id) == at_id(list, desks[m].id),
        at_id(list, desks[m].id) matches Some(i) ==> 0 <= i < list.len() && i < brought_up(
            list,
            desks,
            n,
        ).len() && brought_up(list, desks, n)[i] == list[i],
    decreases n,
{
    at_id_is_there(list, desks[m].id);
    if n > 0 {
        the_others_are_not_touched(list, desks, n - 1, m);
        let before = brought_up(list, desks, n - 1);
        let after = brought_up(list, desks, n);
        let desk = desks[n - 1];
        assert(ids(desks)[n - 1] != ids(desks)[m]);
        at_id_is_there(before, desk.id);
        the_first_is_unmoved(before, after, desks[m].id, desk.id);
    }
}

proof fn the_first_is_unmoved(before: Seq<Shown>, after: Seq<Shown>, id: u32, other: u32)
    requires
        id != other,
        before.len() <= after.len() <= before.len() + 1,
        after.len() > before.len() ==> after.last().id == other,
        forall|i: int|
            0 <= i < before.len() ==> (#[trigger] after[i]) == before[i] || after[i].id == other
                && before[i].id == other,
    ensures
        at_id(after, id) == at_id(before, id),
    decreases before.len(),
{
    if after.len() > before.len() {
        assert(after.drop_last().len() == before.len());
        assert forall|i: int| 0 <= i < before.len() implies (#[trigger] after.drop_last()[i])
            == before[i] || after.drop_last()[i].id == other && before[i].id == other by {
            assert(after[i] == before[i] || after[i].id == other);
        }
        the_first_is_unmoved_in_place(before, after.drop_last(), id, other);
    } else {
        the_first_is_unmoved_in_place(before, after, id, other);
    }
}

proof fn the_first_is_unmoved_in_place(before: Seq<Shown>, after: Seq<Shown>, id: u32, other: u32)
    requires
        id != other,
        before.len() == after.len(),
        forall|i: int|
            0 <= i < before.len() ==> (#[trigger] after[i]) == before[i] || after[i].id == other
                && before[i].id == other,
    ensures
        at_id(after, id) == at_id(before, id),
    decreases before.len(),
{
    if before.len() > 0 {
        assert forall|i: int| 0 <= i < before.len() - 1 implies (#[trigger] after.drop_last()[i])
            == before.drop_last()[i] || after.drop_last()[i].id == other
            && before.drop_last()[i].id == other by {
            assert(after[i] == before[i] || after[i].id == other);
        }
        assert(after[after.len() - 1] == before[before.len() - 1] || after.last().id == other);
        the_first_is_unmoved_in_place(before.drop_last(), after.drop_last(), id, other);
    }
}

/// A desk that a manager has no workspace for is added. Of one that it has, the name is told where
/// it is another, and the state where it is; nothing is said of a desk that is as it was.
pub proof fn a_desk_is_told_of_where_it_changed(
    list: Seq<Shown>,
    desks: Seq<Shown>,
    n: int,
    m: int,
    i: int,
)
    requires
        0 <= m < n <= desks.len(),
        desks.len() <= usize::MAX,
        ids(desks).no_duplicates(),
        ids(list).no_duplicates(),
        0 <= i < list.len() && list[i].id == desks[m].id || i == -1 && !has_id(list, desks[m].id),
    ensures
        ({
            let told = news(list, desks, n);
            &&& told.contains(WorkspaceEvent::Added { at: m as usize }) == (i < 0)
            &&& i >= 0 ==> told.contains(
                WorkspaceEvent::Name { id: desks[m].id, at: m as usize },
            ) == (list[i].name != desks[m].name)
            &&& i >= 0 && list[i].active != desks[m].active ==> told.contains(
                WorkspaceEvent::State { id: desks[m].id, active: desks[m].active },
            )
            &&& forall|k: int|
                0 <= k < told.len() ==> match #[trigger] told[k] {
                    WorkspaceEvent::State { id, active } => id == desks[m].id ==> i >= 0 && active
                        == desks[m].active && list[i].active != active,
                    WorkspaceEvent::Name { id, at } => at < n,
                    WorkspaceEvent::Added { at } => at < n,
                    _ => false,
                }
        }),
    decreases n,
{
    let before = news(list, desks, n - 1);
    let told = news(list, desks, n);
    let desk = desks[n - 1];
    the_others_are_not_touched(list, desks, n - 1, n - 1);
    at_id_is_having(list, desks[m].id);
    at_id_is_there(list, desks[m].id);
    if n - 1 == m {
        nothing_is_said_of_it_before(list, desks, n - 1, m);
        if i >= 0 {
            let at = at_id(list, desks[m].id)->0;
            assert(ids(list)[at] == ids(list)[i]);
            assert(at == i);
            if list[i].name != desk.name {
                let named = before.push(WorkspaceEvent::Name { id: desk.id, at: m as usize });
                assert(named[named.len() - 1] == told[before.len() as int]);
            }
            if list[i].active != desk.active {
                assert(told[told.len() - 1] == (WorkspaceEvent::State {
                    id: desk.id,
                    active: desk.active,
                }));
            }
        } else {
            assert(told[told.len() - 1] == (WorkspaceEvent::Added { at: m as usize }));
        }
    } else {
        a_desk_is_told_of_where_it_changed(list, desks, n - 1, m, i);
        assert(ids(desks)[n - 1] != ids(desks)[m]);
        let added = WorkspaceEvent::Added { at: m as usize };
        let named = WorkspaceEvent::Name { id: desks[m].id, at: m as usize };
        let state = WorkspaceEvent::State { id: desks[m].id, active: desks[m].active };
        if before.contains(added) {
            let k = before.index_of(added);
            assert(told[k] == added);
        }
        if before.contains(named) {
            let k = before.index_of(named);
            assert(told[k] == named);
        }
        if before.contains(state) {
            let k = before.index_of(state);
            assert(told[k] == state);
        }
        if told.contains(added) {
            let k = told.index_of(added);
            assert(k < before.len() && before[k] == added);
        }
        if told.contains(named) {
            let k = told.index_of(named);
            assert(k < before.len() && before[k] == named);
        }
    }
    assert forall|k: int| 0 <= k < before.len() implies #[trigger] told[k] == before[k] by {
    }
}

proof fn nothing_is_said_of_it_before(list: Seq<Shown>, desks: Seq<Shown>, n: int, m: int)
    requires
        0 <= n <= m < desks.len(),
        desks.len() <= usize::MAX,
        ids(desks).no_duplicates(),
    ensures
        forall|k: int|
            0 <= k < news(list, desks, n).len() ==> match #[trigger] news(list, desks, n)[k] {
                WorkspaceEvent::State { id, .. } => id != desks[m].id,
                WorkspaceEvent::Name { id, at } => id != desks[m].id && at < n,
                WorkspaceEvent::Added { at } => at < n,
                _ => false,
            },
    decreases n,
{
    if n > 0 {
        nothing_is_said_of_it_before(list, desks, n - 1, m);
        assert(ids(desks)[n - 1] != ids(desks)[m]);
        let before = news(list, desks, n - 1);
        let told = news(list, desks, n);
        assert forall|k: int| 0 <= k < before.len() implies #[trigger] told[k] == before[k] by {
        }
    }
}

/// A pager sees every desk in its place, by its own id and name, and as active only the desk that
/// is shown.
pub proof fn a_pager_sees_the_desks(order: Seq<DeskEntry>, active: Desk, i: int)
    requires
        0 <= i < order.len(),
    ensures
        ({
            let seen = exposed(order, active);
            &&& seen.len() == order.len()
            &&& seen[i].id == order[i].id
            &&& order[i].name is Some ==> seen[i].name == order[i].name->0@
            &&& order[i].name is None ==> seen[i].name.len() == 0
            &&& seen[i].active <==> (active matches Desk::Ordinary(id) && id == order[i].id)
        }),
{
}

} // verus!

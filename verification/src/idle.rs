//! Telling clients when the user has stopped touching things. A client asks to be told after some
//! time without input, and is told again on the next input.
use vstd::prelude::*;

verus! {

/// What goes with a notification's resource: nothing. What a notification needs is kept with its
/// countdown, and there is one seat.
pub struct NotificationData;

/// The notifier itself, which holds nothing.
pub struct IdleNotifierState;

/// One outstanding notification and its countdown.
#[derive(Debug, Clone, Copy, PartialEq, Eq)]
pub struct Notification {
    pub id: u64,
    /// In milliseconds.
    pub timeout: u32,
    /// Whether it counts though something keeps the session awake.
    pub ignore_inhibitor: bool,
    /// Whether the client was told that the user is idle, and not yet that they are back.
    pub idle: bool,
    /// Whether the countdown runs.
    pub timer: bool,
}

/// What is to be done, in order.
#[derive(Debug, Clone, Copy, PartialEq, Eq)]
pub enum IdleStep {
    /// Start a countdown.
    Start { id: u64, timeout: u32 },
    /// Stop a countdown.
    Stop { id: u64 },
    /// Tell a client that the user is idle.
    Idled { id: u64 },
    /// Tell a client that the user is back.
    Resumed { id: u64 },
}

pub struct IdleState {
    pub notifications: Vec<Notification>,
    /// How many surfaces ask to keep the session awake.
    pub inhibitors: usize,
}

/// Whether a notification counts.
pub open spec fn counts(n: Notification, inhibited: bool) -> bool {
    !inhibited || n.ignore_inhibitor
}

/// A notification whose countdown was stopped.
pub open spec fn stopped(n: Notification) -> Notification {
    Notification { timer: false, ..n }
}

pub open spec fn stop_steps(n: Notification) -> Seq<IdleStep> {
    if n.timer {
        seq![IdleStep::Stop { id: n.id }]
    } else {
        Seq::empty()
    }
}

/// A notification that starts over: it is no longer idle, and its countdown runs from the full
/// time where it counts.
pub open spec fn restarted(n: Notification, inhibited: bool) -> Notification {
    Notification { idle: false, timer: counts(n, inhibited), ..n }
}

pub open spec fn restart_steps(n: Notification, inhibited: bool) -> Seq<IdleStep> {
    (if n.idle {
        seq![IdleStep::Resumed { id: n.id }]
    } else {
        Seq::empty()
    }) + stop_steps(n) + (if counts(n, inhibited) {
        seq![IdleStep::Start { id: n.id, timeout: n.timeout }]
    } else {
        Seq::empty()
    })
}

/// A notification after an inhibitor appeared or went away: one that ignores them is as it was,
/// one that is held off stops, one that is released starts over.
pub open spec fn reconsidered(n: Notification, inhibited: bool) -> Notification {
    if n.ignore_inhibitor {
        n
    } else if inhibited {
        stopped(n)
    } else {
        restarted(n, inhibited)
    }
}

pub open spec fn reconsider_steps(n: Notification, inhibited: bool) -> Seq<IdleStep> {
    if n.ignore_inhibitor {
        Seq::empty()
    } else if inhibited {
        stop_steps(n)
    } else {
        restart_steps(n, inhibited)
    }
}

/// What restarting each of the notifications asks.
pub open spec fn all_restart_steps(list: Seq<Notification>, inhibited: bool) -> Seq<IdleStep>
    decreases list.len(),
{
    if list.len() == 0 {
        Seq::empty()
    } else {
        all_restart_steps(list.drop_last(), inhibited) + restart_steps(list.last(), inhibited)
    }
}

/// What reconsidering each of the notifications asks.
pub open spec fn all_reconsider_steps(list: Seq<Notification>, inhibited: bool) -> Seq<IdleStep>
    decreases list.len(),
{
    if list.len() == 0 {
        Seq::empty()
    } else {
        all_reconsider_steps(list.drop_last(), inhibited) + reconsider_steps(
            list.last(),
            inhibited,
        )
    }
}

/// Where the first notification with an id is.
pub open spec fn notification_at(list: Seq<Notification>, id: u64) -> Option<int>
    decreases list.len(),
{
    if list.len() == 0 {
        None
    } else {
        match notification_at(list.drop_last(), id) {
            Some(i) => Some(i),
            None => if list.last().id == id {
                Some(list.len() - 1)
            } else {
                None
            },
        }
    }
}

proof fn notification_at_skips(list: Seq<Notification>, id: u64, upto: int)
    requires
        0 <= upto <= list.len(),
        notification_at(list.take(upto), id) is Some,
    ensures
        notification_at(list, id) == notification_at(list.take(upto), id),
    decreases list.len(),
{
    if upto == list.len() {
        assert(list.take(upto) =~= list);
    } else {
        assert(list.drop_last().take(upto) =~= list.take(upto));
        notification_at_skips(list.drop_last(), id, upto);
    }
}

fn find_notification(list: &Vec<Notification>, id: u64) -> (at: Option<usize>)
    ensures
        match at {
            Some(i) => notification_at(list@, id) == Some(i as int) && i < list@.len(),
            None => notification_at(list@, id) is None,
        },
{
    let mut i: usize = 0;
    assert(list@.take(0) =~= Seq::empty());
    while i < list.len()
        invariant
            i <= list@.len(),
            notification_at(list@.take(i as int), id) is None,
        decreases list.len() - i,
    {
        let known: u64 = list[i].id;
        i += 1;
        assert(list@.take(i as int).drop_last() =~= list@.take(i - 1));
        if known == id {
            proof {
                notification_at_skips(list@, id, i as int);
            }
            return Some(i - 1);
        }
    }
    assert(list@.take(list@.len() as int) =~= list@);
    None
}

/// Stops a countdown, leaving the rest alone.
fn disarm(n: &mut Notification, steps: &mut Vec<IdleStep>)
    ensures
        *final(n) == stopped(*old(n)),
        final(steps)@ == old(steps)@ + stop_steps(*old(n)),
{
    if n.timer {
        n.timer = false;
        steps.push(IdleStep::Stop { id: n.id });
    }
    assert(steps@ =~= old(steps)@ + stop_steps(*old(n)));
}

/// Starts a countdown, unless it is held off.
fn arm(n: &mut Notification, inhibited: bool, steps: &mut Vec<IdleStep>)
    ensures
        *final(n) == if counts(*old(n), inhibited) {
            Notification { timer: true, ..*old(n) }
        } else {
            *old(n)
        },
        final(steps)@ == old(steps)@ + if counts(*old(n), inhibited) {
            seq![IdleStep::Start { id: old(n).id, timeout: old(n).timeout }]
        } else {
            Seq::empty()
        },
{
    if !inhibited || n.ignore_inhibitor {
        steps.push(IdleStep::Start { id: n.id, timeout: n.timeout });
        n.timer = true;
    }
    assert(steps@ =~= old(steps)@ + if counts(*old(n), inhibited) {
        seq![IdleStep::Start { id: old(n).id, timeout: old(n).timeout }]
    } else {
        Seq::empty()
    });
}

/// Starts a notification over.
fn restart(n: &mut Notification, inhibited: bool, steps: &mut Vec<IdleStep>)
    ensures
        *final(n) == restarted(*old(n), inhibited),
        final(steps)@ == old(steps)@ + restart_steps(*old(n), inhibited),
{
    if n.idle {
        n.idle = false;
        steps.push(IdleStep::Resumed { id: n.id });
    }
    disarm(n, steps);
    arm(n, inhibited, steps);
    assert(steps@ =~= old(steps)@ + restart_steps(*old(n), inhibited));
}

impl IdleState {
    pub fn new() -> (state: Self)
        ensures
            state.notifications@ == Seq::<Notification>::empty(),
            state.inhibitors == 0,
    {
        IdleState { notifications: Vec::new(), inhibitors: 0 }
    }

    /// Whether something keeps the session awake.
    pub fn inhibited(&self) -> (r: bool)
        ensures
            r == (self.inhibitors > 0),
    {
        self.inhibitors > 0
    }

    /// A client asks to be told. Counting starts now, not at the next input: a client that asks
    /// while the user is already away should still be told.
    pub fn request(&mut self, id: u64, timeout: u32, ignore_inhibitor: bool) -> (steps: Vec<
        IdleStep,
    >)
        ensures
            ({
                let fresh = Notification { id, timeout, ignore_inhibitor, idle: false, timer: false };
                let inhibited = old(self).inhibitors > 0;
                &&& final(self).inhibitors == old(self).inhibitors
                &&& final(self).notifications@ == old(self).notifications@.push(
                    restarted(fresh, inhibited),
                )
                &&& steps@ == restart_steps(fresh, inhibited)
            }),
    {
        let mut steps: Vec<IdleStep> = Vec::new();
        let mut n = Notification { id, timeout, ignore_inhibitor, idle: false, timer: false };
        let ghost fresh = n;
        arm(&mut n, self.inhibited(), &mut steps);
        self.notifications.push(n);
        assert(steps@ =~= restart_steps(fresh, old(self).inhibitors > 0));
        steps
    }

    /// A countdown ran out.
    pub fn mark_idle(&mut self, id: u64) -> (steps: Vec<IdleStep>)
        ensures
            final(self).inhibitors == old(self).inhibitors,
            match notification_at(old(self).notifications@, id) {
                Some(i) => {
                    let n = old(self).notifications@[i];
                    &&& final(self).notifications@ == old(self).notifications@.update(
                        i,
                        Notification { idle: true, timer: false, ..n },
                    )
                    &&& steps@ == if n.idle {
                        Seq::empty()
                    } else {
                        seq![IdleStep::Idled { id: n.id }]
                    }
                },
                None => final(self).notifications@ == old(self).notifications@ && steps@
                    == Seq::<IdleStep>::empty(),
            },
    {
        let mut steps: Vec<IdleStep> = Vec::new();
        if let Some(i) = find_notification(&self.notifications, id) {
            let mut n = self.notifications[i];
            n.timer = false;
            if !n.idle {
                n.idle = true;
                steps.push(IdleStep::Idled { id: n.id });
            }
            self.notifications.set(i, n);
        }
        steps
    }

    /// The user did something. Everything idle resumes, and every countdown restarts.
    pub fn notify_activity(&mut self) -> (steps: Vec<IdleStep>)
        ensures
            final(self).inhibitors == old(self).inhibitors,
            final(self).notifications@.len() == old(self).notifications@.len(),
            forall|i: int|
                0 <= i < old(self).notifications@.len() ==> #[trigger] final(self).notifications@[i] == restarted(
                    old(self).notifications@[i],
                    old(self).inhibitors > 0,
                ),
            steps@ == all_restart_steps(old(self).notifications@, old(self).inhibitors > 0),
    {
        let mut steps: Vec<IdleStep> = Vec::new();
        let inhibited = self.inhibited();
        let ghost list = self.notifications@;
        let mut i: usize = 0;
        assert(list.take(0) =~= Seq::empty());
        while i < self.notifications.len()
            invariant
                i <= list.len(),
                self.notifications@.len() == list.len(),
                self.inhibitors == old(self).inhibitors,
                forall|j: int| i <= j < list.len() ==> self.notifications@[j] == list[j],
                forall|j: int|
                    0 <= j < i ==> (#[trigger] self.notifications@[j]) == restarted(
                        list[j],
                        inhibited,
                    ),
                steps@ == all_restart_steps(list.take(i as int), inhibited),
            decreases self.notifications.len() - i,
        {
            let mut n = self.notifications[i];
            restart(&mut n, inhibited, &mut steps);
            self.notifications.set(i, n);
            i += 1;
            assert(list.take(i as int).drop_last() =~= list.take(i - 1));
        }
        assert(list.take(list.len() as int) =~= list);
        steps
    }

    /// An inhibitor appeared or went away.
    pub fn set_inhibited(&mut self, inhibited: bool) -> (steps: Vec<IdleStep>)
        requires
            inhibited ==> old(self).inhibitors < usize::MAX,
        ensures
            final(self).inhibitors == if inhibited {
                old(self).inhibitors + 1
            } else if old(self).inhibitors > 0 {
                old(self).inhibitors - 1
            } else {
                0
            },
            final(self).notifications@.len() == old(self).notifications@.len(),
            forall|i: int|
                0 <= i < old(self).notifications@.len() ==> #[trigger] final(self).notifications@[i] == reconsidered(
                    old(self).notifications@[i],
                    final(self).inhibitors > 0,
                ),
            steps@ == all_reconsider_steps(old(self).notifications@, final(self).inhibitors > 0),
    {
        if inhibited {
            self.inhibitors += 1;
        } else if self.inhibitors > 0 {
            self.inhibitors -= 1;
        }
        let mut steps: Vec<IdleStep> = Vec::new();
        let held_off = self.inhibited();
        let ghost count = self.inhibitors;
        let ghost list = self.notifications@;
        let mut i: usize = 0;
        assert(list.take(0) =~= Seq::empty());
        while i < self.notifications.len()
            invariant
                i <= list.len(),
                self.notifications@.len() == list.len(),
                self.inhibitors == count,
                forall|j: int| i <= j < list.len() ==> self.notifications@[j] == list[j],
                forall|j: int|
                    0 <= j < i ==> (#[trigger] self.notifications@[j]) == reconsidered(
                        list[j],
                        held_off,
                    ),
                steps@ == all_reconsider_steps(list.take(i as int), held_off),
            decreases self.notifications.len() - i,
        {
            let ghost before = steps@;
            let mut n = self.notifications[i];
            if !n.ignore_inhibitor {
                if held_off {
                    disarm(&mut n, &mut steps);
                } else {
                    restart(&mut n, held_off, &mut steps);
                }
            }
            self.notifications.set(i, n);
            assert(steps@ =~= before + reconsider_steps(list[i as int], held_off));
            i += 1;
            assert(list.take(i as int).drop_last() =~= list.take(i - 1));
        }
        assert(list.take(list.len() as int) =~= list);
        steps
    }

    /// A notification is gone: its countdown must not run out for it.
    pub fn destroyed(&mut self, id: u64) -> (steps: Vec<IdleStep>)
        ensures
            final(self).inhibitors == old(self).inhibitors,
            match notification_at(old(self).notifications@, id) {
                Some(i) => {
                    &&& final(self).notifications@ == old(self).notifications@.remove(i)
                    &&& steps@ == stop_steps(old(self).notifications@[i])
                },
                None => final(self).notifications@ == old(self).notifications@ && steps@
                    == Seq::<IdleStep>::empty(),
            },
    {
        let mut steps: Vec<IdleStep> = Vec::new();
        if let Some(i) = find_notification(&self.notifications, id) {
            let mut n = self.notifications[i];
            let ghost held = n;
            disarm(&mut n, &mut steps);
            assert(steps@ =~= stop_steps(held));
            self.notifications.remove(i);
        }
        steps
    }
}

/// Whether every countdown that is held off stands still.
pub open spec fn held_off(list: Seq<Notification>, inhibited: bool) -> bool {
    forall|i: int|
        0 <= i < list.len() ==> ((#[trigger] list[i]).timer ==> counts(list[i], inhibited))
}

/// While the session is kept awake, no countdown that minds it runs: a request, an activity, a
/// countdown that runs out, a change of inhibitors and a notification's end each keep it so.
pub proof fn an_inhibitor_holds_the_countdowns_off(
    list: Seq<Notification>,
    inhibited: bool,
    fresh: Notification,
    at: int,
    idle: bool,
    now: bool,
)
    requires
        held_off(list, inhibited),
        0 <= at < list.len(),
    ensures
        held_off(list.push(restarted(fresh, inhibited)), inhibited),
        held_off(Seq::new(list.len(), |i: int| restarted(list[i], inhibited)), inhibited),
        held_off(
            list.update(at, Notification { idle, timer: false, ..list[at] }),
            inhibited,
        ),
        held_off(list.remove(at), inhibited),
        held_off(Seq::new(list.len(), |i: int| reconsidered(list[i], now)), now),
{
    let removed = list.remove(at);
    assert forall|i: int| 0 <= i < removed.len() && (#[trigger] removed[i]).timer implies counts(
        removed[i],
        inhibited,
    ) by {
        if i < at {
            assert(removed[i] == list[i]);
        } else {
            assert(removed[i] == list[i + 1]);
        }
    }
}

/// After an activity nobody is told that the user is idle, and every countdown that counts runs.
pub proof fn activity_ends_idleness(n: Notification, inhibited: bool)
    ensures
        !restarted(n, inhibited).idle,
        restarted(n, inhibited).timer == counts(n, inhibited),
        n.idle == restart_steps(n, inhibited).contains(IdleStep::Resumed { id: n.id }),
{
    let steps = restart_steps(n, inhibited);
    if n.idle {
        assert(steps[0] == IdleStep::Resumed { id: n.id });
    }
}

/// A notification that starts over counts down its own full time, unless the session is kept awake
/// and it minds that. What was running is stopped before, and a client that was told that the user
/// is idle is told first of all that they are back.
pub proof fn a_countdown_runs_its_full_time(n: Notification, inhibited: bool)
    ensures
        ({
            let steps = restart_steps(n, inhibited);
            let runs = !inhibited || n.ignore_inhibitor;
            &&& restarted(n, inhibited).timer == runs
            &&& runs ==> steps.len() > 0 && steps.last() == (IdleStep::Start {
                id: n.id,
                timeout: n.timeout,
            })
            &&& n.idle ==> steps.len() > 0 && steps[0] == (IdleStep::Resumed { id: n.id })
            &&& n.timer ==> steps.contains(IdleStep::Stop { id: n.id })
            &&& forall|k: int|
                0 <= k < steps.len() ==> match #[trigger] steps[k] {
                    IdleStep::Resumed { id } => k == 0 && n.idle && id == n.id,
                    IdleStep::Stop { id } => n.timer && id == n.id,
                    IdleStep::Start { id, timeout } => runs && k == steps.len() - 1 && id == n.id
                        && timeout == n.timeout,
                    IdleStep::Idled { .. } => false,
                }
            &&& restarted(n, inhibited).id == n.id && restarted(n, inhibited).timeout == n.timeout
        }),
{
    let steps = restart_steps(n, inhibited);
    if n.timer {
        let k: int = if n.idle {
            1
        } else {
            0
        };
        assert(steps[k] == (IdleStep::Stop { id: n.id }));
    }
}

/// An inhibitor that appears or goes away is nothing to a notification that ignores them. For the
/// others, one that appears stops the countdown and says nothing of the user; one that goes away
/// starts it over.
pub proof fn an_inhibitor_concerns_those_that_mind(n: Notification, inhibited: bool)
    ensures
        ({
            let after = reconsidered(n, inhibited);
            let steps = reconsider_steps(n, inhibited);
            &&& n.ignore_inhibitor ==> after == n && steps.len() == 0
            &&& !n.ignore_inhibitor ==> after.timer == !inhibited
            &&& !n.ignore_inhibitor && inhibited ==> after.idle == n.idle && forall|k: int|
                0 <= k < steps.len() ==> #[trigger] steps[k] == (IdleStep::Stop { id: n.id })
            &&& !n.ignore_inhibitor && !inhibited ==> !after.idle && steps.len() > 0
                && steps.last() == (IdleStep::Start { id: n.id, timeout: n.timeout })
        }),
{
}

proof fn an_appended_step_is_there(before: Seq<IdleStep>, more: Seq<IdleStep>, step: IdleStep)
    ensures
        (before + more).contains(step) <==> before.contains(step) || more.contains(step),
{
    let all = before + more;
    if all.contains(step) {
        let k = all.index_of(step);
        if k < before.len() {
            assert(before[k] == step);
        } else {
            assert(more[k - before.len()] == step);
        }
    }
    if before.contains(step) {
        let k = before.index_of(step);
        assert(all[k] == step);
    }
    if more.contains(step) {
        let k = more.index_of(step);
        assert(all[before.len() + k] == step);
    }
}

/// On an activity every client that was told that the user is idle is told that they are back, and
/// every countdown that counts starts over with its own time.
pub proof fn an_activity_reaches_everyone(list: Seq<Notification>, inhibited: bool, i: int)
    requires
        0 <= i < list.len(),
    ensures
        list[i].idle ==> all_restart_steps(list, inhibited).contains(
            IdleStep::Resumed { id: list[i].id },
        ),
        !inhibited || list[i].ignore_inhibitor ==> all_restart_steps(list, inhibited).contains(
            IdleStep::Start { id: list[i].id, timeout: list[i].timeout },
        ),
    decreases list.len(),
{
    let fewer = list.drop_last();
    let more = restart_steps(list.last(), inhibited);
    let before = all_restart_steps(fewer, inhibited);
    let resumed = IdleStep::Resumed { id: list[i].id };
    let start = IdleStep::Start { id: list[i].id, timeout: list[i].timeout };
    an_appended_step_is_there(before, more, resumed);
    an_appended_step_is_there(before, more, start);
    if i < fewer.len() {
        assert(fewer[i] == list[i]);
        an_activity_reaches_everyone(fewer, inhibited, i);
    } else {
        a_countdown_runs_its_full_time(list[i], inhibited);
        if list[i].idle {
            assert(more[0] == resumed);
        }
        if !inhibited || list[i].ignore_inhibitor {
            assert(more[more.len() - 1] == start);
        }
    }
}

/// A countdown that runs out is of the first notification with the id.
pub proof fn the_first_of_the_id_is_meant(list: Seq<Notification>, i: int)
    requires
        0 <= i < list.len(),
        forall|j: int| 0 <= j < i ==> (#[trigger] list[j]).id != list[i].id,
    ensures
        notification_at(list, list[i].id) == Some(i),
    decreases list.len(),
{
    let fewer = list.drop_last();
    if i < fewer.len() {
        assert forall|j: int| 0 <= j < i implies (#[trigger] fewer[j]).id != fewer[i].id by {
            assert(list[j].id != list[i].id);
        }
        the_first_of_the_id_is_meant(fewer, i);
    } else {
        assert forall|j: int| 0 <= j < fewer.len() implies (#[trigger] fewer[j]).id != list[i].id by {
            assert(list[j].id != list[i].id);
        }
        none_of_the_id_is_there(fewer, list[i].id);
    }
}

proof fn none_of_the_id_is_there(list: Seq<Notification>, id: u64)
    requires
        forall|j: int| 0 <= j < list.len() ==> (#[trigger] list[j]).id != id,
    ensures
        notification_at(list, id) is None,
    decreases list.len(),
{
    if list.len() > 0 {
        let fewer = list.drop_last();
        assert forall|j: int| 0 <= j < fewer.len() implies (#[trigger] fewer[j]).id != id by {
            assert(list[j].id != id);
        }
        assert(list[list.len() - 1].id != id);
        none_of_the_id_is_there(fewer, id);
    }
}

} // verus!

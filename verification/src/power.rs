//! Switching monitors off and on, as a client asks or once the session has been idle for a while.
use vstd::prelude::*;

use crate::stacking::ids_without_keeps_the_rest;
use crate::state::ids_without;

verus! {

/// A client's control of an output.
#[derive(Debug, Clone, Copy, PartialEq, Eq)]
pub struct Control {
    pub output: u64,
    pub resource: u64,
}

/// What is to be done, in order.
#[derive(Debug, Clone, Copy, PartialEq, Eq)]
pub enum PowerStep {
    /// Switch an output's connector.
    Connector { output: u64, on: bool },
    /// Tell a client the state of its output.
    Mode { resource: u64, on: bool },
    /// Tell a client that it has no control.
    Failed { resource: u64 },
    /// Start the countdown to a blank screen, in seconds.
    StartTimer { secs: u64 },
    StopTimer,
}

pub struct PowerState {
    /// Outputs that are switched off; a fresh output starts on.
    pub off: Vec<u64>,
    /// The controls that clients hold, at most one for an output.
    pub controls: Vec<Control>,
    /// Whether the countdown runs.
    pub timer: bool,
    /// Whether the screen is blank by the countdown's doing. A blank that a client asked for is
    /// left alone by input.
    pub blanked_by_idle: bool,
}

/// The state as values.
#[verifier::ext_equal]
pub ghost struct Power {
    pub off: Seq<u64>,
    pub controls: Seq<Control>,
    pub timer: bool,
    pub blanked_by_idle: bool,
}

impl View for PowerState {
    type V = Power;

    open spec fn view(&self) -> Power {
        Power {
            off: self.off@,
            controls: self.controls@,
            timer: self.timer,
            blanked_by_idle: self.blanked_by_idle,
        }
    }
}

/// What the holders of an output's control are told.
pub open spec fn told(controls: Seq<Control>, output: u64, on: bool) -> Seq<PowerStep>
    decreases controls.len(),
{
    if controls.len() == 0 {
        Seq::empty()
    } else if controls.last().output == output {
        told(controls.drop_last(), output, on).push(
            PowerStep::Mode { resource: controls.last().resource, on },
        )
    } else {
        told(controls.drop_last(), output, on)
    }
}

/// The state and the steps of switching one output.
pub open spec fn switched(p: Power, output: u64, on: bool) -> (Power, Seq<PowerStep>) {
    if on == !p.off.contains(output) {
        (p, Seq::empty())
    } else {
        (
            Power {
                off: if on {
                    ids_without(p.off, output)
                } else {
                    p.off.push(output)
                },
                ..p
            },
            seq![PowerStep::Connector { output, on }] + told(p.controls, output, on),
        )
    }
}

/// The state and the steps of switching outputs one after the other.
pub open spec fn all_switched(p: Power, outputs: Seq<u64>, on: bool) -> (Power, Seq<PowerStep>)
    decreases outputs.len(),
{
    if outputs.len() == 0 {
        (p, Seq::empty())
    } else {
        let (before, steps) = all_switched(p, outputs.drop_last(), on);
        let (after, more) = switched(before, outputs.last(), on);
        (after, steps + more)
    }
}

/// How long the session may be idle before the screen blanks: a time of nothing means never.
pub open spec fn blank_time(secs: Option<u64>) -> Option<u64> {
    match secs {
        Some(secs) => if secs > 0 {
            Some(secs)
        } else {
            None
        },
        None => None,
    }
}

/// The state and the steps of starting the countdown over: something that keeps the session
/// awake holds it off.
pub open spec fn armed(p: Power, secs: Option<u64>, inhibited: bool) -> (Power, Seq<PowerStep>) {
    let stop = if p.timer {
        seq![PowerStep::StopTimer]
    } else {
        Seq::empty()
    };
    match blank_time(secs) {
        Some(secs) => if inhibited {
            (Power { timer: false, ..p }, stop)
        } else {
            (Power { timer: true, ..p }, stop + seq![PowerStep::StartTimer { secs }])
        },
        None => (Power { timer: false, ..p }, stop),
    }
}

/// The state and the steps of an input: it undoes a blank that the countdown did, and starts the
/// countdown over.
pub open spec fn noticed(p: Power, secs: Option<u64>, inhibited: bool, outputs: Seq<u64>) -> (
    Power,
    Seq<PowerStep>,
) {
    if blank_time(secs) is None {
        (p, Seq::empty())
    } else if p.blanked_by_idle {
        let (woken, steps) = all_switched(Power { blanked_by_idle: false, ..p }, outputs, true);
        let (after, more) = armed(woken, secs, inhibited);
        (after, steps + more)
    } else {
        armed(p, secs, inhibited)
    }
}

/// The state and the steps of the countdown's end.
pub open spec fn blanked(p: Power, inhibited: bool, outputs: Seq<u64>) -> (Power, Seq<PowerStep>) {
    if inhibited {
        (Power { timer: false, ..p }, Seq::empty())
    } else {
        all_switched(Power { timer: false, blanked_by_idle: true, ..p }, outputs, false)
    }
}

/// Whether an output has a control.
pub open spec fn controlled(controls: Seq<Control>, output: u64) -> bool {
    exists|i: int| 0 <= i < controls.len() && (#[trigger] controls[i]).output == output
}

/// The controls but a client's.
pub open spec fn controls_without(controls: Seq<Control>, resource: u64) -> Seq<Control>
    decreases controls.len(),
{
    if controls.len() == 0 {
        controls
    } else if controls.last().resource == resource {
        controls_without(controls.drop_last(), resource)
    } else {
        controls_without(controls.drop_last(), resource).push(controls.last())
    }
}

impl PowerState {
    pub fn new() -> (state: Self)
        ensures
            state@ == (Power {
                off: Seq::empty(),
                controls: Seq::empty(),
                timer: false,
                blanked_by_idle: false,
            }),
    {
        PowerState {
            off: Vec::new(),
            controls: Vec::new(),
            timer: false,
            blanked_by_idle: false,
        }
    }

    /// Whether an output is switched on.
    pub fn output_powered(&self, output: u64) -> (r: bool)
        ensures
            r == !self@.off.contains(output),
    {
        let mut i: usize = 0;
        while i < self.off.len()
            invariant
                i <= self.off@.len(),
                forall|j: int| 0 <= j < i ==> self.off@[j] != output,
            decreases self.off.len() - i,
        {
            if self.off[i] == output {
                return false;
            }
            i += 1;
        }
        true
    }

    fn forget_off(&mut self, output: u64)
        ensures
            final(self)@ == (Power { off: ids_without(old(self)@.off, output), ..old(self)@ }),
    {
        let mut rest: Vec<u64> = Vec::new();
        let mut i: usize = 0;
        assert(self.off@.take(0) =~= Seq::empty());
        while i < self.off.len()
            invariant
                i <= self.off@.len(),
                *self == *old(self),
                rest@ == ids_without(self.off@.take(i as int), output),
            decreases self.off.len() - i,
        {
            let other: u64 = self.off[i];
            i += 1;
            assert(self.off@.take(i as int).drop_last() =~= self.off@.take(i - 1));
            if other != output {
                rest.push(other);
            }
        }
        assert(self.off@.take(self.off@.len() as int) =~= self.off@);
        self.off = rest;
    }

    /// Switches one output off or on, telling any client that watches it.
    pub fn set_output_power(&mut self, output: u64, on: bool) -> (steps: Vec<PowerStep>)
        ensures
            (final(self)@, steps@) == switched(old(self)@, output, on),
    {
        let mut steps: Vec<PowerStep> = Vec::new();
        if self.output_powered(output) == on {
            return steps;
        }
        if on {
            self.forget_off(output);
        } else {
            self.off.push(output);
        }
        steps.push(PowerStep::Connector { output, on });
        let ghost start = steps@;
        let ghost now = self@;
        let mut i: usize = 0;
        assert(self.controls@.take(0) =~= Seq::empty());
        assert(steps@ =~= start + told(self.controls@.take(0), output, on));
        while i < self.controls.len()
            invariant
                i <= self.controls@.len(),
                self@ == now,
                steps@ == start + told(self.controls@.take(i as int), output, on),
            decreases self.controls.len() - i,
        {
            let control = self.controls[i];
            i += 1;
            assert(self.controls@.take(i as int).drop_last() =~= self.controls@.take(i - 1));
            if control.output == output {
                steps.push(PowerStep::Mode { resource: control.resource, on });
            }
            assert(steps@ =~= start + told(self.controls@.take(i as int), output, on));
        }
        assert(self.controls@.take(self.controls@.len() as int) =~= self.controls@);
        assert(self@ =~= switched(old(self)@, output, on).0);
        steps
    }

    /// Switches every output off or on, which is what the countdown wants.
    pub fn set_all_outputs_power(&mut self, outputs: &[u64], on: bool) -> (steps: Vec<PowerStep>)
        ensures
            (final(self)@, steps@) == all_switched(old(self)@, outputs@, on),
    {
        let mut steps: Vec<PowerStep> = Vec::new();
        let mut i: usize = 0;
        assert(outputs@.take(0) =~= Seq::empty());
        while i < outputs.len()
            invariant
                i <= outputs@.len(),
                (self@, steps@) == all_switched(old(self)@, outputs@.take(i as int), on),
            decreases outputs.len() - i,
        {
            let mut more = self.set_output_power(outputs[i], on);
            steps.append(&mut more);
            i += 1;
            assert(outputs@.take(i as int).drop_last() =~= outputs@.take(i - 1));
        }
        assert(outputs@.take(outputs@.len() as int) =~= outputs@);
        steps
    }

    /// Starts, or restarts, the countdown.
    pub fn arm_blank_timer(&mut self, secs: Option<u64>, inhibited: bool) -> (steps: Vec<PowerStep>)
        ensures
            (final(self)@, steps@) == armed(old(self)@, secs, inhibited),
    {
        let mut steps: Vec<PowerStep> = Vec::new();
        if self.timer {
            self.timer = false;
            steps.push(PowerStep::StopTimer);
        }
        if let Some(secs) = blank_after(secs) {
            if !inhibited {
                steps.push(PowerStep::StartTimer { secs });
                self.timer = true;
            }
        }
        assert(steps@ =~= armed(old(self)@, secs, inhibited).1);
        steps
    }

    /// An input: the countdown restarts, and a blank that it did is undone. Nothing happens where
    /// no time is configured.
    pub fn notice_activity_for_blanking(
        &mut self,
        secs: Option<u64>,
        inhibited: bool,
        outputs: &[u64],
    ) -> (steps: Vec<PowerStep>)
        ensures
            (final(self)@, steps@) == noticed(old(self)@, secs, inhibited, outputs@),
    {
        let mut steps: Vec<PowerStep> = Vec::new();
        if blank_after(secs).is_none() {
            return steps;
        }
        if self.blanked_by_idle {
            self.blanked_by_idle = false;
            steps = self.set_all_outputs_power(outputs, true);
        }
        let mut more = self.arm_blank_timer(secs, inhibited);
        steps.append(&mut more);
        assert(steps@ =~= noticed(old(self)@, secs, inhibited, outputs@).1);
        steps
    }

    /// The countdown ran out.
    pub fn blank_for_idle(&mut self, inhibited: bool, outputs: &[u64]) -> (steps: Vec<PowerStep>)
        ensures
            (final(self)@, steps@) == blanked(old(self)@, inhibited, outputs@),
    {
        self.timer = false;
        if inhibited {
            return Vec::new();
        }
        self.blanked_by_idle = true;
        self.set_all_outputs_power(outputs, false)
    }

    /// A client asks for an output's control. There is one for each output, and none for an
    /// output that is gone: a second client is told that it lost. Says whether the client has the
    /// control.
    pub fn get_output_power(&mut self, resource: u64, output: Option<u64>) -> (given: (
        bool,
        Vec<PowerStep>,
    ))
        ensures
            given.0 == (output matches Some(output) && !controlled(old(self)@.controls, output)),
            match output {
                Some(output) if given.0 => {
                    &&& final(self)@ == (Power {
                        controls: old(self)@.controls.push(Control { output, resource }),
                        ..old(self)@
                    })
                    &&& given.1@ == seq![
                        PowerStep::Mode { resource, on: !old(self)@.off.contains(output) },
                    ]
                },
                _ => {
                    &&& final(self)@ == old(self)@
                    &&& given.1@ == seq![PowerStep::Failed { resource }]
                },
            },
    {
        let mut steps: Vec<PowerStep> = Vec::new();
        let wanted: u64 = match output {
            Some(wanted) => wanted,
            None => {
                steps.push(PowerStep::Failed { resource });
                return (false, steps);
            },
        };
        let mut i: usize = 0;
        while i < self.controls.len()
            invariant
                i <= self.controls@.len(),
                *self == *old(self),
                output == Some(wanted),
                steps@ == Seq::<PowerStep>::empty(),
                forall|j: int| 0 <= j < i ==> (#[trigger] self.controls@[j]).output != wanted,
            decreases self.controls.len() - i,
        {
            if self.controls[i].output == wanted {
                steps.push(PowerStep::Failed { resource });
                return (false, steps);
            }
            i += 1;
        }
        let on = self.output_powered(wanted);
        steps.push(PowerStep::Mode { resource, on });
        self.controls.push(Control { output: wanted, resource });
        (true, steps)
    }

    /// A client sets the state of an output it has the control of. That outranks the countdown:
    /// the next input does not undo it.
    pub fn set_mode(&mut self, output: Option<u64>, on: bool) -> (steps: Vec<PowerStep>)
        ensures
            match output {
                Some(output) => (final(self)@, steps@) == switched(
                    Power { blanked_by_idle: false, ..old(self)@ },
                    output,
                    on,
                ),
                None => final(self)@ == old(self)@ && steps@ == Seq::<PowerStep>::empty(),
            },
    {
        match output {
            Some(output) => {
                self.blanked_by_idle = false;
                self.set_output_power(output, on)
            },
            None => Vec::new(),
        }
    }

    /// A client's control is gone.
    pub fn destroyed(&mut self, resource: u64)
        ensures
            final(self)@ == (Power {
                controls: controls_without(old(self)@.controls, resource),
                ..old(self)@
            }),
    {
        let mut rest: Vec<Control> = Vec::new();
        let mut i: usize = 0;
        assert(self.controls@.take(0) =~= Seq::empty());
        while i < self.controls.len()
            invariant
                i <= self.controls@.len(),
                *self == *old(self),
                rest@ == controls_without(self.controls@.take(i as int), resource),
            decreases self.controls.len() - i,
        {
            let control = self.controls[i];
            i += 1;
            assert(self.controls@.take(i as int).drop_last() =~= self.controls@.take(i - 1));
            if control.resource != resource {
                rest.push(control);
            }
        }
        assert(self.controls@.take(self.controls@.len() as int) =~= self.controls@);
        self.controls = rest;
    }
}

/// How long the session may be idle before the screen blanks.
pub fn blank_after(secs: Option<u64>) -> (time: Option<u64>)
    ensures
        time == blank_time(secs),
{
    match secs {
        Some(secs) => {
            if secs > 0 {
                Some(secs)
            } else {
                None
            }
        },
        None => None,
    }
}

/// An output is as it was last switched, and the others are as they were.
pub proof fn switching_switches_one(p: Power, output: u64, on: bool, other: u64)
    ensures
        switched(p, output, on).0.off.contains(output) == !on,
        other != output ==> switched(p, output, on).0.off.contains(other) == p.off.contains(other),
        switched(p, output, on).0.controls == p.controls,
        switched(p, output, on).0.timer == p.timer,
        switched(p, output, on).0.blanked_by_idle == p.blanked_by_idle,
{
    ids_without_keeps_the_rest(p.off, output, other);
    ids_without_keeps_the_rest(p.off, output, output);
    let off = p.off.push(output);
    assert(off[off.len() - 1] == output);
    if p.off.contains(other) {
        let i = p.off.index_of(other);
        assert(off[i] == other);
    }
    if off.contains(other) && other != output {
        let i = off.index_of(other);
        assert(p.off[i] == other);
    }
}

/// Switching all of a list switches every output of it and no other.
pub proof fn switching_all_switches_each(p: Power, outputs: Seq<u64>, on: bool, output: u64)
    ensures
        all_switched(p, outputs, on).0.off.contains(output) == if outputs.contains(output) {
            !on
        } else {
            p.off.contains(output)
        },
        all_switched(p, outputs, on).0.controls == p.controls,
        all_switched(p, outputs, on).0.blanked_by_idle == p.blanked_by_idle,
        all_switched(p, outputs, on).0.timer == p.timer,
    decreases outputs.len(),
{
    if outputs.len() > 0 {
        let fewer = outputs.drop_last();
        switching_all_switches_each(p, fewer, on, output);
        switching_switches_one(all_switched(p, fewer, on).0, outputs.last(), on, output);
        assert(outputs.contains(output) <==> fewer.contains(output) || outputs.last() == output) by {
            if outputs.contains(output) {
                let i = outputs.index_of(output);
                if i < fewer.len() {
                    assert(fewer[i] == output);
                }
            }
            if fewer.contains(output) {
                let i = fewer.index_of(output);
                assert(outputs[i] == output);
            }
            assert(outputs[outputs.len() - 1] == outputs.last());
        }
    }
}

/// An input wakes the screens that the countdown blanked.
pub proof fn input_undoes_an_idle_blank(
    p: Power,
    secs: Option<u64>,
    inhibited: bool,
    outputs: Seq<u64>,
    output: u64,
)
    requires
        blank_time(secs) is Some,
        outputs.contains(output),
    ensures
        !noticed(blanked(p, false, outputs).0, secs, inhibited, outputs).0.off.contains(output),
        blanked(p, false, outputs).0.off.contains(output),
{
    let quiet = Power { timer: false, blanked_by_idle: true, ..p };
    switching_all_switches_each(quiet, outputs, false, output);
    let dark = blanked(p, false, outputs).0;
    switching_all_switches_each(Power { blanked_by_idle: false, ..dark }, outputs, true, output);
}

/// An input does not undo what a client switched.
pub proof fn input_leaves_a_clients_blank(
    p: Power,
    secs: Option<u64>,
    inhibited: bool,
    outputs: Seq<u64>,
    output: u64,
    on: bool,
)
    ensures
        ({
            let set = switched(Power { blanked_by_idle: false, ..p }, output, on).0;
            noticed(set, secs, inhibited, outputs).0.off == set.off && set.off.contains(output)
                == !on
        }),
{
    switching_switches_one(Power { blanked_by_idle: false, ..p }, output, on, output);
}

/// Whether each output has at most one control.
pub open spec fn one_for_each(controls: Seq<Control>) -> bool {
    forall|i: int, j: int|
        0 <= i < j < controls.len() ==> (#[trigger] controls[i]).output != (
        #[trigger] controls[j]).output
}

proof fn controls_without_are_listed(controls: Seq<Control>, resource: u64, i: int) -> (j: int)
    requires
        0 <= i < controls_without(controls, resource).len(),
    ensures
        i <= j < controls.len(),
        controls[j] == controls_without(controls, resource)[i],
    decreases controls.len(),
{
    let fewer = controls.drop_last();
    if i < controls_without(fewer, resource).len() {
        controls_without_are_listed(fewer, resource, i)
    } else {
        assert(controls_without(fewer, resource).len() <= fewer.len()) by {
            without_is_no_longer(fewer, resource);
        }
        controls.len() - 1
    }
}

proof fn without_is_no_longer(controls: Seq<Control>, resource: u64)
    ensures
        controls_without(controls, resource).len() <= controls.len(),
    decreases controls.len(),
{
    if controls.len() > 0 {
        without_is_no_longer(controls.drop_last(), resource);
    }
}

proof fn letting_go_keeps_one_for_each(controls: Seq<Control>, resource: u64)
    requires
        one_for_each(controls),
    ensures
        one_for_each(controls_without(controls, resource)),
    decreases controls.len(),
{
    if controls.len() > 0 {
        let fewer = controls.drop_last();
        assert forall|i: int, j: int| 0 <= i < j < fewer.len() implies (#[trigger] fewer[i]).output
            != (#[trigger] fewer[j]).output by {
            assert(controls[i].output != controls[j].output);
        }
        letting_go_keeps_one_for_each(fewer, resource);
        let rest = controls_without(controls, resource);
        let before = controls_without(fewer, resource);
        assert forall|i: int, j: int| 0 <= i < j < rest.len() implies (#[trigger] rest[i]).output
            != (#[trigger] rest[j]).output by {
            if j < before.len() {
                assert(before[i].output != before[j].output);
            } else {
                let k = controls_without_are_listed(fewer, resource, i);
                assert(controls[k].output != controls[controls.len() - 1].output);
            }
        }
    }
}

/// An output never comes to have a second control: one is given only where there is none, and
/// letting one go adds none.
pub proof fn an_output_has_one_control(controls: Seq<Control>, output: u64, resource: u64)
    requires
        one_for_each(controls),
    ensures
        !controlled(controls, output) ==> one_for_each(controls.push(Control { output, resource })),
        one_for_each(controls_without(controls, resource)),
{
    letting_go_keeps_one_for_each(controls, resource);
    if !controlled(controls, output) {
        let more = controls.push(Control { output, resource });
        assert forall|i: int, j: int| 0 <= i < j < more.len() implies (#[trigger] more[i]).output
            != (#[trigger] more[j]).output by {
            assert(more[i] == controls[i]);
            if j < controls.len() {
                assert(controls[i].output != controls[j].output);
            }
        }
    }
}

/// Those that hold an output's control are told its new state, and nobody else is told anything.
pub proof fn the_holders_are_told(controls: Seq<Control>, output: u64, on: bool)
    ensures
        forall|i: int|
            0 <= i < controls.len() && (#[trigger] controls[i]).output == output ==> told(
                controls,
                output,
                on,
            ).contains(PowerStep::Mode { resource: controls[i].resource, on }),
        forall|k: int|
            0 <= k < told(controls, output, on).len() ==> exists|i: int|
                #![trigger controls[i]]
                0 <= i < controls.len() && controls[i].output == output && (#[trigger] told(
                    controls,
                    output,
                    on,
                )[k]) == (PowerStep::Mode { resource: controls[i].resource, on }),
    decreases controls.len(),
{
    if controls.len() > 0 {
        let fewer = controls.drop_last();
        the_holders_are_told(fewer, output, on);
        let before = told(fewer, output, on);
        let all = told(controls, output, on);
        assert forall|i: int| 0 <= i < controls.len() && (#[trigger] controls[i]).output
            == output implies all.contains(
            PowerStep::Mode { resource: controls[i].resource, on },
        ) by {
            let mode = PowerStep::Mode { resource: controls[i].resource, on };
            if i < fewer.len() {
                assert(fewer[i] == controls[i]);
                let k = before.index_of(mode);
                assert(all[k] == mode);
            } else {
                assert(all[all.len() - 1] == mode);
            }
        }
        assert forall|k: int| 0 <= k < all.len() implies exists|i: int|
            #![trigger controls[i]]
            0 <= i < controls.len() && controls[i].output == output && (#[trigger] all[k]) == (
            PowerStep::Mode { resource: controls[i].resource, on }) by {
            if k < before.len() {
                assert(before[k] == all[k]);
                let i = choose|i: int|
                    #![trigger fewer[i]]
                    0 <= i < fewer.len() && fewer[i].output == output && before[k] == (
                    PowerStep::Mode { resource: fewer[i].resource, on });
                assert(controls[i] == fewer[i]);
            } else {
                assert(controls[controls.len() - 1] == controls.last());
            }
        }
    }
}

/// An output that is switched over has its connector switched that way first, and its holders told
/// then; one that is that way already is left alone.
pub proof fn a_switch_is_made_known(p: Power, output: u64, on: bool)
    ensures
        ({
            let steps = switched(p, output, on).1;
            &&& p.off.contains(output) == on ==> steps.len() > 0 && steps[0] == (
            PowerStep::Connector { output, on }) && forall|i: int|
                0 <= i < p.controls.len() && (#[trigger] p.controls[i]).output == output
                    ==> steps.contains(PowerStep::Mode { resource: p.controls[i].resource, on })
            &&& p.off.contains(output) != on ==> steps.len() == 0
            &&& forall|k: int|
                0 <= k < steps.len() ==> match #[trigger] steps[k] {
                    PowerStep::Connector { output: o, on: to } => k == 0 && o == output && to == on,
                    PowerStep::Mode { on: to, .. } => to == on,
                    _ => false,
                }
        }),
{
    the_holders_are_told(p.controls, output, on);
    let steps = switched(p, output, on).1;
    let tells = told(p.controls, output, on);
    if p.off.contains(output) == on {
        assert forall|i: int| 0 <= i < p.controls.len() && (#[trigger] p.controls[i]).output
            == output implies steps.contains(
            PowerStep::Mode { resource: p.controls[i].resource, on },
        ) by {
            let mode = PowerStep::Mode { resource: p.controls[i].resource, on };
            let k = tells.index_of(mode);
            assert(steps[k + 1] == mode);
        }
        assert forall|k: int| 0 < k < steps.len() implies #[trigger] steps[k] == tells[k - 1] by {
        }
    }
}

/// The countdown runs for the time that was set where there is one and nothing keeps the session
/// awake, and not at all otherwise; one that was running is stopped first.
pub proof fn the_countdown_starts_over(p: Power, secs: Option<u64>, inhibited: bool)
    ensures
        ({
            let (after, steps) = armed(p, secs, inhibited);
            let runs = secs is Some && secs->0 > 0 && !inhibited;
            &&& after.timer == runs
            &&& runs ==> steps.len() > 0 && steps.last() == (PowerStep::StartTimer { secs: secs->0 })
            &&& p.timer ==> steps.len() > 0 && steps[0] is StopTimer
            &&& steps.len() == (if runs {
                1int
            } else {
                0
            }) + (if p.timer {
                1int
            } else {
                0
            })
            &&& after.off == p.off && after.controls == p.controls && after.blanked_by_idle
                == p.blanked_by_idle
        }),
{
}

/// The countdown's end blanks nothing while something keeps the session awake, and no input starts
/// a countdown where no time was set.
pub proof fn nothing_blanks_what_is_kept_awake(
    p: Power,
    secs: Option<u64>,
    inhibited: bool,
    outputs: Seq<u64>,
)
    ensures
        blanked(p, true, outputs).0.off == p.off,
        blanked(p, true, outputs).1.len() == 0,
        blanked(p, false, outputs).0.blanked_by_idle,
        !blanked(p, inhibited, outputs).0.timer,
        secs is None || secs->0 == 0 ==> noticed(p, secs, inhibited, outputs) == (
            p,
            Seq::<PowerStep>::empty(),
        ),
        secs is Some && secs->0 > 0 && p.blanked_by_idle ==> !noticed(
            p,
            secs,
            inhibited,
            outputs,
        ).0.blanked_by_idle,
        secs is Some && secs->0 > 0 ==> noticed(p, secs, inhibited, outputs).0.timer == !inhibited,
{
    let quiet = Power { timer: false, blanked_by_idle: true, ..p };
    switching_all_switches_each(quiet, outputs, false, 0);
    switching_all_switches_each(Power { blanked_by_idle: false, ..p }, outputs, true, 0);
}

} // verus!

//! Monitor enumeration and configuration: what a client is told of each head, how it builds up a
//! configuration, and whether and how that is applied. A configuration is applied whole or not
//! at all.
use vstd::prelude::*;

use crate::geometry::Point;
use crate::head_protocol::HeadManager;
use crate::outputs::{
    format_mode, format_transform, mode_text, transform_name, OutputConfig, Real64,
    Settings, Transform,
};

verus! {

/// A resolution, and a refresh rate in millihertz.
#[derive(Debug, Clone, Copy, PartialEq, Eq, Structural)]
pub struct Mode {
    pub w: i32,
    pub h: i32,
    pub refresh: i32,
}

/// What a client asked to change for one head.
#[derive(Debug, Clone, Copy, PartialEq, Eq)]
pub struct HeadConfig {
    pub enabled: Option<bool>,
    pub adaptive_sync: Option<bool>,
    pub position: Option<Point>,
    pub transform: Option<Transform>,
    pub scale: Option<Real64>,
    pub mode: Option<Mode>,
}

/// One request of a client on a head of its configuration.
#[derive(Debug, Clone, Copy, PartialEq, Eq)]
pub enum Edit {
    Enable(bool),
    SetPosition(Point),
    /// Nothing for an orientation that is none.
    SetTransform(Option<Transform>),
    SetScale(Real64),
    /// Nothing for a mode that is none of the compositor's.
    SetMode(Option<Mode>),
    /// A mode that the connector does not advertise.
    SetCustomMode,
    /// Nothing for a state that is none; `supported` is whether the output can do it.
    SetAdaptiveSync { requested: Option<bool>, supported: bool },
}

/// No change.
pub open spec fn untouched() -> HeadConfig {
    HeadConfig {
        enabled: None,
        adaptive_sync: None,
        position: None,
        transform: None,
        scale: None,
        mode: None,
    }
}

/// A head's changes with a request added; none where the request cannot be met.
pub open spec fn edited(config: HeadConfig, edit: Edit) -> Option<HeadConfig> {
    match edit {
        Edit::Enable(on) => Some(HeadConfig { enabled: Some(on), ..config }),
        Edit::SetPosition(p) => Some(HeadConfig { position: Some(p), ..config }),
        Edit::SetTransform(Some(t)) => Some(HeadConfig { transform: Some(t), ..config }),
        Edit::SetScale(scale) => Some(HeadConfig { scale: Some(scale), ..config }),
        Edit::SetMode(Some(mode)) => Some(HeadConfig { mode: Some(mode), ..config }),
        Edit::SetAdaptiveSync { requested: Some(on), supported: true } => Some(
            HeadConfig { adaptive_sync: Some(on), ..config },
        ),
        _ => None,
    }
}

/// The changes for an output, in a list of changes; those of the first entry that is its.
pub open spec fn config_of(heads: Seq<(u64, HeadConfig)>, output: u64) -> Option<HeadConfig>
    decreases heads.len(),
{
    if heads.len() == 0 {
        None
    } else {
        match config_of(heads.drop_last(), output) {
            Some(config) => Some(config),
            None => if heads.last().0 == output {
                Some(heads.last().1)
            } else {
                None
            },
        }
    }
}

/// The list with the changes for an output replaced, in its place or at the end.
pub open spec fn with_config(heads: Seq<(u64, HeadConfig)>, output: u64, config: HeadConfig) -> Seq<
    (u64, HeadConfig),
> {
    match entry_at(heads, output) {
        Some(i) => heads.update(i, (output, config)),
        None => heads.push((output, config)),
    }
}

/// Where the first entry for an output is.
pub open spec fn entry_at(heads: Seq<(u64, HeadConfig)>, output: u64) -> Option<int>
    decreases heads.len(),
{
    if heads.len() == 0 {
        None
    } else {
        match entry_at(heads.drop_last(), output) {
            Some(i) => Some(i),
            None => if heads.last().0 == output {
                Some(heads.len() - 1)
            } else {
                None
            },
        }
    }
}

proof fn entry_at_skips(heads: Seq<(u64, HeadConfig)>, output: u64, upto: int)
    requires
        0 <= upto <= heads.len(),
        entry_at(heads.take(upto), output) is Some,
    ensures
        entry_at(heads, output) == entry_at(heads.take(upto), output),
    decreases heads.len(),
{
    if upto == heads.len() {
        assert(heads.take(upto) =~= heads);
    } else {
        assert(heads.drop_last().take(upto) =~= heads.take(upto));
        entry_at_skips(heads.drop_last(), output, upto);
    }
}

pub proof fn entry_holds_config(heads: Seq<(u64, HeadConfig)>, output: u64)
    ensures
        match entry_at(heads, output) {
            Some(i) => 0 <= i < heads.len() && heads[i].0 == output && config_of(heads, output)
                == Some(heads[i].1),
            None => config_of(heads, output) is None,
        },
    decreases heads.len(),
{
    if heads.len() > 0 {
        entry_holds_config(heads.drop_last(), output);
    }
}

/// A configuration a client is building up, applied atomically.
pub struct PendingConfiguration {
    /// The layout serial this was built against.
    pub serial: u32,
    /// The changes for each head, in the order the heads were first named.
    pub heads: Vec<(u64, HeadConfig)>,
    /// Whether the client asked for something that cannot be done.
    pub unsupported: bool,
}

impl PendingConfiguration {
    pub fn new(serial: u32) -> (pending: Self)
        ensures
            pending.serial == serial,
            pending.heads@ == Seq::<(u64, HeadConfig)>::empty(),
            !pending.unsupported,
    {
        PendingConfiguration { serial, heads: Vec::new(), unsupported: false }
    }

    /// Records a request for an output; one that cannot be met marks the whole configuration.
    pub fn update(&mut self, output: u64, edit: Edit)
        ensures
            final(self).serial == old(self).serial,
            ({
                let held = match config_of(old(self).heads@, output) {
                    Some(config) => config,
                    None => untouched(),
                };
                match edited(held, edit) {
                    Some(config) => {
                        &&& final(self).heads@ == with_config(old(self).heads@, output, config)
                        &&& final(self).unsupported == old(self).unsupported
                    },
                    None => {
                        &&& final(self).heads@ == old(self).heads@
                        &&& final(self).unsupported
                    },
                }
            }),
    {
        let mut at: Option<usize> = None;
        let mut i: usize = 0;
        assert(self.heads@.take(0) =~= Seq::empty());
        while i < self.heads.len() && at.is_none()
            invariant
                i <= self.heads@.len(),
                *self == *old(self),
                match at {
                    Some(k) => entry_at(self.heads@, output) == Some(k as int) && k
                        < self.heads@.len(),
                    None => entry_at(self.heads@.take(i as int), output) is None,
                },
            decreases self.heads.len() - i,
        {
            let known: u64 = self.heads[i].0;
            i += 1;
            assert(self.heads@.take(i as int).drop_last() =~= self.heads@.take(i - 1));
            if known == output {
                proof {
                    entry_at_skips(self.heads@, output, i as int);
                }
                at = Some(i - 1);
            }
        }
        assert(self.heads@.take(self.heads@.len() as int) =~= self.heads@);
        proof {
            entry_holds_config(self.heads@, output);
        }
        let mut config: HeadConfig = match at {
            Some(k) => self.heads[k].1,
            None => HeadConfig {
                enabled: None,
                adaptive_sync: None,
                position: None,
                transform: None,
                scale: None,
                mode: None,
            },
        };
        match edit {
            Edit::Enable(on) => {
                config.enabled = Some(on);
            },
            Edit::SetPosition(p) => {
                config.position = Some(p);
            },
            Edit::SetTransform(Some(t)) => {
                config.transform = Some(t);
            },
            Edit::SetScale(scale) => {
                config.scale = Some(scale);
            },
            Edit::SetMode(Some(mode)) => {
                config.mode = Some(mode);
            },
            Edit::SetAdaptiveSync { requested: Some(on), supported: true } => {
                config.adaptive_sync = Some(on);
            },
            _ => {
                self.unsupported = true;
                return ;
            },
        }
        match at {
            Some(k) => {
                self.heads.set(k, (output, config));
            },
            None => {
                self.heads.push((output, config));
            },
        }
    }
}

/// What the compositor knows of an output.
pub struct OutputFacts {
    pub id: u64,
    /// Whether it is switched on.
    pub on: bool,
    pub modes: Vec<Mode>,
}

/// Whether an output of the list advertises a mode.
pub open spec fn advertises(outputs: Seq<OutputFacts>, output: u64, mode: Mode) -> bool {
    exists|i: int|
        0 <= i < outputs.len() && (#[trigger] outputs[i]).id == output
            && outputs[i].modes@.contains(mode)
}

/// Whether an output of the list is switched on.
pub open spec fn is_on(outputs: Seq<OutputFacts>, output: u64) -> bool {
    exists|i: int| 0 <= i < outputs.len() && (#[trigger] outputs[i]).id == output && outputs[i].on
}

/// How many of the outputs are switched on.
pub open spec fn count_on(outputs: Seq<OutputFacts>) -> nat
    decreases outputs.len(),
{
    if outputs.len() == 0 {
        0
    } else {
        count_on(outputs.drop_last()) + if outputs.last().on {
            1nat
        } else {
            0nat
        }
    }
}

/// How many of the heads switch off an output that is on.
pub open spec fn count_off(heads: Seq<(u64, HeadConfig)>, outputs: Seq<OutputFacts>) -> nat
    decreases heads.len(),
{
    if heads.len() == 0 {
        0
    } else {
        let (output, config) = heads.last();
        count_off(heads.drop_last(), outputs) + if config.enabled == Some(false) && is_on(
            outputs,
            output,
        ) {
            1nat
        } else {
            0nat
        }
    }
}

/// How many of the heads switch an output on.
pub open spec fn count_enabled(heads: Seq<(u64, HeadConfig)>) -> nat
    decreases heads.len(),
{
    if heads.len() == 0 {
        0
    } else {
        count_enabled(heads.drop_last()) + if heads.last().1.enabled == Some(true) {
            1nat
        } else {
            0nat
        }
    }
}

/// Whether a head asks for a mode that its output does not advertise.
pub open spec fn unknown_mode(heads: Seq<(u64, HeadConfig)>, outputs: Seq<OutputFacts>) -> bool {
    exists|i: int|
        0 <= i < heads.len() && ((#[trigger] heads[i]).1.mode matches Some(mode) && !advertises(
            outputs,
            heads[i].0,
            mode,
        ))
}

/// The answer to a configuration.
#[derive(Debug, Clone, Copy, PartialEq, Eq, Structural)]
pub enum Answer {
    /// It was built against a layout that has since changed.
    Cancelled,
    /// It asks for something that cannot be done.
    Failed,
    Succeeded,
}

/// The answer to a test: a stale configuration is cancelled, one that asks for something
/// unsupported fails.
pub open spec fn tested(serial: u32, pending: PendingConfiguration) -> Answer {
    if serial != pending.serial {
        Answer::Cancelled
    } else if pending.unsupported {
        Answer::Failed
    } else {
        Answer::Succeeded
    }
}

/// The answer to an apply: as to a test, and a mode that an output does not advertise fails, and
/// so does switching off every output and switching on none.
pub open spec fn applied(serial: u32, pending: PendingConfiguration, outputs: Seq<OutputFacts>) -> Answer {
    if serial != pending.serial {
        Answer::Cancelled
    } else if pending.unsupported || unknown_mode(pending.heads@, outputs) || (count_off(
        pending.heads@,
        outputs,
    ) >= count_on(outputs) && count_enabled(pending.heads@) == 0) {
        Answer::Failed
    } else {
        Answer::Succeeded
    }
}

/// What applying a configuration asks of the outside, in order.
#[derive(Debug, Clone, Copy, PartialEq, Eq)]
pub enum Change {
    /// Change an output's orientation, scale and position, each where it is given.
    State {
        output: u64,
        transform: Option<Transform>,
        scale: Option<Real64>,
        position: Option<Point>,
    },
    /// The arrangement is to be saved.
    Dirty,
    /// Switch an output on or off.
    Toggle { output: u64, on: bool },
    SetMode { output: u64, mode: Mode },
    SetVrr { output: u64, on: bool },
    /// Put an output at a position of the desktop.
    Place { output: u64, at: Point },
    /// Bring back the windows that no screen shows any more.
    Relocate,
    /// Tell every client the new layout.
    Advertise,
    Redraw,
}

/// What follows every change of the layout.
pub open spec fn settled() -> Seq<Change> {
    seq![Change::Relocate, Change::Advertise, Change::Redraw]
}

/// What one head's changes ask.
pub open spec fn head_changes(output: u64, config: HeadConfig, outputs: Seq<OutputFacts>) -> Seq<
    Change,
> {
    seq![
        Change::State {
            output,
            transform: config.transform,
            scale: config.scale,
            position: config.position,
        },
        Change::Dirty,
    ] + (match config.enabled {
        Some(on) => if on != is_on(outputs, output) {
            seq![Change::Toggle { output, on }]
        } else {
            Seq::empty()
        },
        None => Seq::empty(),
    }) + (match config.mode {
        Some(mode) => seq![Change::SetMode { output, mode }],
        None => Seq::empty(),
    }) + (match config.adaptive_sync {
        Some(on) => seq![Change::SetVrr { output, on }],
        None => Seq::empty(),
    }) + (match config.position {
        Some(position) => seq![Change::Place { output, at: position }],
        None => Seq::empty(),
    })
}

/// What the heads' changes ask, one after the other.
pub open spec fn all_changes(heads: Seq<(u64, HeadConfig)>, outputs: Seq<OutputFacts>) -> Seq<Change>
    decreases heads.len(),
{
    if heads.len() == 0 {
        Seq::empty()
    } else {
        all_changes(heads.drop_last(), outputs) + head_changes(
            heads.last().0,
            heads.last().1,
            outputs,
        )
    }
}

fn output_is_on(outputs: &[OutputFacts], output: u64) -> (r: bool)
    ensures
        r == is_on(outputs@, output),
{
    let mut i: usize = 0;
    while i < outputs.len()
        invariant
            i <= outputs@.len(),
            forall|j: int| 0 <= j < i ==> !((#[trigger] outputs@[j]).id == output && outputs@[j].on),
        decreases outputs.len() - i,
    {
        if outputs[i].id == output && outputs[i].on {
            return true;
        }
        i += 1;
    }
    false
}

fn holds_mode(modes: &Vec<Mode>, mode: Mode) -> (r: bool)
    ensures
        r == modes@.contains(mode),
{
    let mut i: usize = 0;
    while i < modes.len()
        invariant
            i <= modes@.len(),
            forall|j: int| 0 <= j < i ==> modes@[j] != mode,
        decreases modes.len() - i,
    {
        if modes[i] == mode {
            return true;
        }
        i += 1;
    }
    false
}

fn output_advertises(outputs: &[OutputFacts], output: u64, mode: Mode) -> (r: bool)
    ensures
        r == advertises(outputs@, output, mode),
{
    let mut i: usize = 0;
    while i < outputs.len()
        invariant
            i <= outputs@.len(),
            forall|j: int|
                0 <= j < i ==> !((#[trigger] outputs@[j]).id == output
                    && outputs@[j].modes@.contains(mode)),
        decreases outputs.len() - i,
    {
        if outputs[i].id == output && holds_mode(&outputs[i].modes, mode) {
            return true;
        }
        i += 1;
    }
    false
}

fn asks_unknown_mode(heads: &[(u64, HeadConfig)], outputs: &[OutputFacts]) -> (r: bool)
    ensures
        r == unknown_mode(heads@, outputs@),
{
    let mut i: usize = 0;
    while i < heads.len()
        invariant
            i <= heads@.len(),
            forall|j: int|
                0 <= j < i ==> !((#[trigger] heads@[j]).1.mode matches Some(mode) && !advertises(
                    outputs@,
                    heads@[j].0,
                    mode,
                )),
        decreases heads.len() - i,
    {
        let (output, config) = heads[i];
        if let Some(mode) = config.mode {
            if !output_advertises(outputs, output, mode) {
                assert(heads@[i as int].1.mode == Some(mode));
                return true;
            }
        }
        i += 1;
    }
    false
}

fn number_on(outputs: &[OutputFacts]) -> (n: usize)
    ensures
        n == count_on(outputs@),
{
    let mut n: usize = 0;
    let mut i: usize = 0;
    assert(outputs@.take(0) =~= Seq::empty());
    while i < outputs.len()
        invariant
            n <= i <= outputs@.len(),
            n == count_on(outputs@.take(i as int)),
        decreases outputs.len() - i,
    {
        let on = outputs[i].on;
        i += 1;
        assert(outputs@.take(i as int).drop_last() =~= outputs@.take(i - 1));
        if on {
            n += 1;
        }
    }
    assert(outputs@.take(outputs@.len() as int) =~= outputs@);
    n
}

fn number_off(heads: &[(u64, HeadConfig)], outputs: &[OutputFacts]) -> (n: usize)
    ensures
        n == count_off(heads@, outputs@),
{
    let mut n: usize = 0;
    let mut i: usize = 0;
    assert(heads@.take(0) =~= Seq::empty());
    while i < heads.len()
        invariant
            n <= i <= heads@.len(),
            n == count_off(heads@.take(i as int), outputs@),
        decreases heads.len() - i,
    {
        let (output, config) = heads[i];
        i += 1;
        assert(heads@.take(i as int).drop_last() =~= heads@.take(i - 1));
        let off = match config.enabled {
            Some(on) => !on,
            None => false,
        };
        if off && output_is_on(outputs, output) {
            n += 1;
        }
    }
    assert(heads@.take(heads@.len() as int) =~= heads@);
    n
}

fn number_enabled(heads: &[(u64, HeadConfig)]) -> (n: usize)
    ensures
        n == count_enabled(heads@),
{
    let mut n: usize = 0;
    let mut i: usize = 0;
    assert(heads@.take(0) =~= Seq::empty());
    while i < heads.len()
        invariant
            n <= i <= heads@.len(),
            n == count_enabled(heads@.take(i as int)),
        decreases heads.len() - i,
    {
        let config = heads[i].1;
        i += 1;
        assert(heads@.take(i as int).drop_last() =~= heads@.take(i - 1));
        if let Some(true) = config.enabled {
            n += 1;
        }
    }
    assert(heads@.take(heads@.len() as int) =~= heads@);
    n
}

/// Applies one head's changes: what each asks of the outside.
pub fn apply_head(
    changes: &mut Vec<Change>,
    output: u64,
    config: &HeadConfig,
    outputs: &[OutputFacts],
)
    ensures
        final(changes)@ == old(changes)@ + head_changes(output, *config, outputs@),
{
    changes.push(
        Change::State {
            output,
            transform: config.transform,
            scale: config.scale,
            position: config.position,
        },
    );
    changes.push(Change::Dirty);
    if let Some(on) = config.enabled {
        if on != output_is_on(outputs, output) {
            changes.push(Change::Toggle { output, on });
        }
    }
    if let Some(mode) = config.mode {
        changes.push(Change::SetMode { output, mode });
    }
    if let Some(on) = config.adaptive_sync {
        changes.push(Change::SetVrr { output, on });
    }
    if let Some(position) = config.position {
        changes.push(Change::Place { output, at: position });
    }
    assert(changes@ =~= old(changes)@ + head_changes(output, *config, outputs@));
}

/// What a client is told of a head, in order.
#[derive(Debug, Clone, Copy, PartialEq, Eq)]
pub enum HeadEvent {
    Name,
    Description,
    PhysicalSize,
    Make,
    Model,
    /// The mode at an index of the output's list.
    Announce(usize),
    ModeSize(usize),
    ModeRefresh(usize),
    ModePreferred(usize),
    CurrentMode(usize),
    Enabled(bool),
    Position,
    Orientation,
    Scale,
    AdaptiveSync(bool),
}

/// What a client is told of the mode at an index.
pub open spec fn mode_events(
    modes: Seq<Mode>,
    i: int,
    preferred: Option<Mode>,
    current: Option<Mode>,
) -> Seq<HeadEvent> {
    seq![
        HeadEvent::Announce(i as usize),
        HeadEvent::ModeSize(i as usize),
        HeadEvent::ModeRefresh(i as usize),
    ] + (if preferred == Some(modes[i]) {
        seq![HeadEvent::ModePreferred(i as usize)]
    } else {
        Seq::empty()
    }) + (if current == Some(modes[i]) {
        seq![HeadEvent::CurrentMode(i as usize)]
    } else {
        Seq::empty()
    })
}

/// What a client is told of the first `n` modes.
pub open spec fn modes_events(
    modes: Seq<Mode>,
    n: int,
    preferred: Option<Mode>,
    current: Option<Mode>,
) -> Seq<HeadEvent>
    decreases n,
{
    if n <= 0 {
        Seq::empty()
    } else {
        modes_events(modes, n - 1, preferred, current) + mode_events(
            modes,
            n - 1,
            preferred,
            current,
        )
    }
}

/// What a client that speaks a version of the protocol is told of a head. What a version adds is
/// only sent to a client that knows it.
pub open spec fn head_events(
    version: u32,
    modes: Seq<Mode>,
    preferred: Option<Mode>,
    current: Option<Mode>,
    enabled: bool,
    vrr: bool,
) -> Seq<HeadEvent> {
    seq![HeadEvent::Name, HeadEvent::Description, HeadEvent::PhysicalSize] + (if version >= 2 {
        seq![HeadEvent::Make, HeadEvent::Model]
    } else {
        Seq::empty()
    }) + modes_events(modes, modes.len() as int, preferred, current) + seq![
        HeadEvent::Enabled(enabled),
        HeadEvent::Position,
        HeadEvent::Orientation,
        HeadEvent::Scale,
    ] + (if version >= 4 {
        seq![HeadEvent::AdaptiveSync(vrr)]
    } else {
        Seq::empty()
    })
}

fn is_mode(held: Option<Mode>, mode: Mode) -> (r: bool)
    ensures
        r == (held == Some(mode)),
{
    match held {
        Some(other) => other == mode,
        None => false,
    }
}

/// What a client is told of a head.
pub fn advertise_head(
    version: u32,
    modes: &[Mode],
    preferred: Option<Mode>,
    current: Option<Mode>,
    enabled: bool,
    vrr: bool,
) -> (events: Vec<HeadEvent>)
    ensures
        events@ == head_events(version, modes@, preferred, current, enabled, vrr),
{
    let mut events: Vec<HeadEvent> = Vec::new();
    events.push(HeadEvent::Name);
    events.push(HeadEvent::Description);
    events.push(HeadEvent::PhysicalSize);
    if version >= 2 {
        events.push(HeadEvent::Make);
        events.push(HeadEvent::Model);
    }
    let ghost start = events@;
    let mut i: usize = 0;
    assert(events@ =~= start + modes_events(modes@, 0, preferred, current));
    while i < modes.len()
        invariant
            i <= modes@.len(),
            events@ == start + modes_events(modes@, i as int, preferred, current),
        decreases modes.len() - i,
    {
        let ghost held = events@;
        events.push(HeadEvent::Announce(i));
        events.push(HeadEvent::ModeSize(i));
        events.push(HeadEvent::ModeRefresh(i));
        if is_mode(preferred, modes[i]) {
            events.push(HeadEvent::ModePreferred(i));
        }
        if is_mode(current, modes[i]) {
            events.push(HeadEvent::CurrentMode(i));
        }
        assert(events@ =~= held + mode_events(modes@, i as int, preferred, current));
        i += 1;
        assert(events@ =~= start + modes_events(modes@, i as int, preferred, current));
    }
    events.push(HeadEvent::Enabled(enabled));
    events.push(HeadEvent::Position);
    events.push(HeadEvent::Orientation);
    events.push(HeadEvent::Scale);
    if version >= 4 {
        events.push(HeadEvent::AdaptiveSync(vrr));
    }
    assert(events@ =~= head_events(version, modes@, preferred, current, enabled, vrr));
    events
}

/// Every head to advertise, with whether it is switched on: those that are on first.
pub fn heads_of(enabled: &[u64], disabled: &[u64]) -> (heads: Vec<(u64, bool)>)
    ensures
        heads@ == Seq::new(
            enabled@.len() + disabled@.len(),
            |i: int|
                if i < enabled@.len() {
                    (enabled@[i], true)
                } else {
                    (disabled@[i - enabled@.len()], false)
                },
        ),
{
    let mut heads: Vec<(u64, bool)> = Vec::new();
    let mut i: usize = 0;
    while i < enabled.len()
        invariant
            i <= enabled@.len(),
            heads@.len() == i,
            forall|k: int| 0 <= k < i ==> heads@[k] == (enabled@[k], true),
        decreases enabled.len() - i,
    {
        heads.push((enabled[i], true));
        i += 1;
    }
    let mut j: usize = 0;
    while j < disabled.len()
        invariant
            j <= disabled@.len(),
            heads@.len() == enabled@.len() + j,
            forall|k: int| 0 <= k < enabled@.len() ==> heads@[k] == (enabled@[k], true),
            forall|k: int|
                0 <= k < j ==> #[trigger] heads@[enabled@.len() + k] == (disabled@[k], false),
        decreases disabled.len() - j,
    {
        heads.push((disabled[j], false));
        j += 1;
    }
    assert(heads@ =~= Seq::new(
        enabled@.len() + disabled@.len(),
        |i: int|
            if i < enabled@.len() {
                (enabled@[i], true)
            } else {
                (disabled@[i - enabled@.len()], false)
            },
    )) by {
        assert forall|i: int| enabled@.len() <= i < heads@.len() implies heads@[i] == (
            disabled@[i - enabled@.len()],
            false,
        ) by {
            assert(heads@[enabled@.len() + (i - enabled@.len())] == (
                disabled@[i - enabled@.len()],
                false,
            ));
        }
    }
    heads
}

/// The state of the output-management global.
pub struct OutputManagementState {
    /// Bumped on every change; clients quote it when configuring, so that a stale configuration
    /// can be rejected rather than applied to a layout that moved on.
    pub serial: u32,
    /// The managers that clients bound, with the heads each was told of.
    pub instances: Vec<HeadManager>,
}

impl OutputManagementState {
    pub fn new() -> (state: Self)
        ensures
            state.serial == 0,
            state.instances@ == Seq::<HeadManager>::empty(),
    {
        OutputManagementState { serial: 0, instances: Vec::new() }
    }

    /// Whether a configuration quoting `serial` is still valid.
    pub fn serial_is_current(&self, serial: u32) -> (r: bool)
        ensures
            r == (self.serial == serial),
    {
        self.serial == serial
    }

    /// The answer to a test of a configuration.
    pub fn test(&self, pending: &PendingConfiguration) -> (answer: Answer)
        ensures
            answer == tested(self.serial, *pending),
    {
        if !self.serial_is_current(pending.serial) {
            Answer::Cancelled
        } else if pending.unsupported {
            Answer::Failed
        } else {
            Answer::Succeeded
        }
    }

    /// The answer to a configuration that is to be applied, and what applying it asks of the
    /// outside: nothing unless it succeeds.
    pub fn apply(&self, pending: &PendingConfiguration, outputs: &[OutputFacts]) -> (result: (
        Answer,
        Vec<Change>,
    ))
        ensures
            result.0 == applied(self.serial, *pending, outputs@),
            result.1@ == if result.0 == Answer::Succeeded {
                all_changes(pending.heads@, outputs@) + settled()
            } else {
                Seq::empty()
            },
    {
        let mut changes: Vec<Change> = Vec::new();
        if !self.serial_is_current(pending.serial) {
            return (Answer::Cancelled, changes);
        }
        if pending.unsupported || asks_unknown_mode(pending.heads.as_slice(), outputs) {
            return (Answer::Failed, changes);
        }
        let heads = pending.heads.as_slice();
        if number_off(heads, outputs) >= number_on(outputs) && number_enabled(heads) == 0 {
            return (Answer::Failed, changes);
        }
        let mut i: usize = 0;
        assert(heads@.take(0) =~= Seq::empty());
        while i < heads.len()
            invariant
                i <= heads@.len(),
                changes@ == all_changes(heads@.take(i as int), outputs@),
            decreases heads.len() - i,
        {
            apply_head(&mut changes, heads[i].0, &heads[i].1, outputs);
            i += 1;
            assert(heads@.take(i as int).drop_last() =~= heads@.take(i - 1));
        }
        assert(heads@.take(heads@.len() as int) =~= heads@);
        changes.push(Change::Relocate);
        changes.push(Change::Advertise);
        changes.push(Change::Redraw);
        assert(changes@ =~= all_changes(heads@, outputs@) + settled());
        (Answer::Succeeded, changes)
    }
}

/// A configuration built before the layout changed is cancelled, tested or applied.
pub proof fn a_stale_configuration_is_cancelled(
    serial: u32,
    pending: PendingConfiguration,
    outputs: Seq<OutputFacts>,
)
    requires
        pending.serial != serial,
    ensures
        tested(serial, pending) == Answer::Cancelled,
        applied(serial, pending, outputs) == Answer::Cancelled,
{
}

/// What passes an apply passes a test.
pub proof fn an_applied_configuration_would_pass_a_test(
    serial: u32,
    pending: PendingConfiguration,
    outputs: Seq<OutputFacts>,
)
    requires
        applied(serial, pending, outputs) == Answer::Succeeded,
    ensures
        tested(serial, pending) == Answer::Succeeded,
{
}

proof fn no_more_off_than_heads(heads: Seq<(u64, HeadConfig)>, outputs: Seq<OutputFacts>)
    requires
        forall|i: int| 0 <= i < heads.len() ==> (#[trigger] heads[i]).1.enabled != Some(false),
    ensures
        count_off(heads, outputs) == 0,
    decreases heads.len(),
{
    if heads.len() > 0 {
        let fewer = heads.drop_last();
        assert forall|i: int| 0 <= i < fewer.len() implies (#[trigger] fewer[i]).1.enabled != Some(
            false,
        ) by {
            assert(heads[i].1.enabled != Some(false));
        }
        assert(heads[heads.len() - 1] == heads.last());
        no_more_off_than_heads(fewer, outputs);
    }
}

/// A current configuration that switches nothing off, asks for nothing unsupported and for no
/// mode that is unknown succeeds while an output is on.
pub proof fn a_supported_configuration_succeeds(
    serial: u32,
    pending: PendingConfiguration,
    outputs: Seq<OutputFacts>,
)
    requires
        pending.serial == serial,
        !pending.unsupported,
        !unknown_mode(pending.heads@, outputs),
        count_on(outputs) > 0,
        forall|i: int|
            0 <= i < pending.heads@.len() ==> (#[trigger] pending.heads@[i]).1.enabled != Some(
                false,
            ),
    ensures
        applied(serial, pending, outputs) == Answer::Succeeded,
{
    no_more_off_than_heads(pending.heads@, outputs);
}

/// Whether no output is named by two heads.
pub open spec fn each_head_once(heads: Seq<(u64, HeadConfig)>) -> bool {
    forall|i: int, j: int|
        0 <= i < j < heads.len() ==> (#[trigger] heads[i]).0 != (#[trigger] heads[j]).0
}

/// Whether no output is listed twice.
pub open spec fn each_output_once(outputs: Seq<OutputFacts>) -> bool {
    forall|i: int, j: int|
        0 <= i < j < outputs.len() ==> (#[trigger] outputs[i]).id != (#[trigger] outputs[j]).id
}

/// Whether a head switches an output off.
pub open spec fn switched_off(heads: Seq<(u64, HeadConfig)>, output: u64) -> bool {
    exists|i: int|
        0 <= i < heads.len() && (#[trigger] heads[i]).0 == output && heads[i].1.enabled == Some(
            false,
        )
}

/// Whether a head switches an output on.
pub open spec fn switched_on(heads: Seq<(u64, HeadConfig)>, output: u64) -> bool {
    exists|i: int|
        0 <= i < heads.len() && (#[trigger] heads[i]).0 == output && heads[i].1.enabled == Some(
            true,
        )
}

/// Whether an output is on once the heads' changes are made.
pub open spec fn on_afterwards(
    heads: Seq<(u64, HeadConfig)>,
    outputs: Seq<OutputFacts>,
    output: u64,
) -> bool {
    switched_on(heads, output) || is_on(outputs, output) && !switched_off(heads, output)
}

proof fn an_entry_is_found(heads: Seq<(u64, HeadConfig)>, i: int)
    requires
        0 <= i < heads.len(),
    ensures
        entry_at(heads, heads[i].0) is Some,
    decreases heads.len(),
{
    if i < heads.len() - 1 {
        an_entry_is_found(heads.drop_last(), i);
    }
}

/// However a configuration is built up, it names each head once.
pub proof fn an_update_names_each_head_once(
    heads: Seq<(u64, HeadConfig)>,
    output: u64,
    config: HeadConfig,
)
    requires
        each_head_once(heads),
    ensures
        each_head_once(with_config(heads, output, config)),
{
    entry_holds_config(heads, output);
    if entry_at(heads, output) is None {
        assert forall|i: int| 0 <= i < heads.len() implies (#[trigger] heads[i]).0 != output by {
            an_entry_is_found(heads, i);
        }
    }
}

pub open spec fn ids_on(outputs: Seq<OutputFacts>) -> Set<u64>
    decreases outputs.len(),
{
    if outputs.len() == 0 {
        Set::empty()
    } else if outputs.last().on {
        ids_on(outputs.drop_last()).insert(outputs.last().id)
    } else {
        ids_on(outputs.drop_last())
    }
}

pub open spec fn ids_off(heads: Seq<(u64, HeadConfig)>, outputs: Seq<OutputFacts>) -> Set<u64>
    decreases heads.len(),
{
    if heads.len() == 0 {
        Set::empty()
    } else if heads.last().1.enabled == Some(false) && is_on(outputs, heads.last().0) {
        ids_off(heads.drop_last(), outputs).insert(heads.last().0)
    } else {
        ids_off(heads.drop_last(), outputs)
    }
}

pub proof fn outputs_on_are_counted(outputs: Seq<OutputFacts>)
    requires
        each_output_once(outputs),
    ensures
        ids_on(outputs).finite(),
        ids_on(outputs).len() == count_on(outputs),
        forall|id: u64| #[trigger]
            ids_on(outputs).contains(id) ==> exists|i: int|
                0 <= i < outputs.len() && (#[trigger] outputs[i]).id == id && outputs[i].on,
    decreases outputs.len(),
{
    if outputs.len() > 0 {
        let fewer = outputs.drop_last();
        assert(each_output_once(fewer)) by {
            assert forall|i: int, j: int| 0 <= i < j < fewer.len() implies (#[trigger] fewer[i]).id
                != (#[trigger] fewer[j]).id by {
                assert(outputs[i].id != outputs[j].id);
            }
        }
        outputs_on_are_counted(fewer);
        let last = outputs[outputs.len() - 1];
        if ids_on(fewer).contains(last.id) {
            let i = choose|i: int|
                0 <= i < fewer.len() && (#[trigger] fewer[i]).id == last.id && fewer[i].on;
            assert(outputs[i].id != last.id);
        }
        assert forall|id: u64| #[trigger] ids_on(outputs).contains(id) implies exists|i: int|
            0 <= i < outputs.len() && (#[trigger] outputs[i]).id == id && outputs[i].on by {
            if ids_on(fewer).contains(id) {
                let i = choose|i: int|
                    0 <= i < fewer.len() && (#[trigger] fewer[i]).id == id && fewer[i].on;
                assert(outputs[i].id == id && outputs[i].on);
            } else {
                assert(outputs[outputs.len() - 1].id == id);
            }
        }
    }
}

pub proof fn heads_off_are_counted(heads: Seq<(u64, HeadConfig)>, outputs: Seq<OutputFacts>)
    ensures
        ids_off(heads, outputs).finite(),
        ids_off(heads, outputs).len() <= count_off(heads, outputs),
        forall|id: u64|
            switched_off(heads, id) && is_on(outputs, id) ==> #[trigger] ids_off(
                heads,
                outputs,
            ).contains(id),
    decreases heads.len(),
{
    if heads.len() > 0 {
        let fewer = heads.drop_last();
        heads_off_are_counted(fewer, outputs);
        assert forall|id: u64| switched_off(heads, id) && is_on(outputs, id) implies #[trigger]
        ids_off(heads, outputs).contains(id) by {
            let i = choose|i: int|
                0 <= i < heads.len() && (#[trigger] heads[i]).0 == id && heads[i].1.enabled == Some(
                    false,
                );
            if i < fewer.len() {
                assert(fewer[i].0 == id && fewer[i].1.enabled == Some(false));
                assert(switched_off(fewer, id));
            }
        }
    }
}

proof fn an_enabling_head_is_one(heads: Seq<(u64, HeadConfig)>) -> (i: int)
    requires
        count_enabled(heads) > 0,
    ensures
        0 <= i < heads.len(),
        heads[i].1.enabled == Some(true),
    decreases heads.len(),
{
    if heads.last().1.enabled == Some(true) {
        heads.len() - 1
    } else {
        an_enabling_head_is_one(heads.drop_last())
    }
}

/// Whatever is applied, something is left to undo it with: an output stays on, or one is switched
/// on.
pub proof fn an_output_is_left_on(
    serial: u32,
    pending: PendingConfiguration,
    outputs: Seq<OutputFacts>,
)
    requires
        each_output_once(outputs),
        applied(serial, pending, outputs) == Answer::Succeeded,
    ensures
        exists|output: u64| #[trigger] on_afterwards(pending.heads@, outputs, output),
{
    let heads = pending.heads@;
    if count_enabled(heads) > 0 {
        let i = an_enabling_head_is_one(heads);
        assert(switched_on(heads, heads[i].0));
        assert(on_afterwards(heads, outputs, heads[i].0));
    } else {
        outputs_on_are_counted(outputs);
        heads_off_are_counted(heads, outputs);
        let on = ids_on(outputs);
        let off = ids_off(heads, outputs);
        if on.subset_of(off) {
            vstd::set_lib::lemma_len_subset(on, off);
        }
        let id = choose|id: u64| on.contains(id) && !off.contains(id);
        assert(on.contains(id) && !off.contains(id));
        assert(is_on(outputs, id));
        assert(on_afterwards(heads, outputs, id));
    }
}

/// An output's current settings.
pub struct OutputNow {
    pub name: String,
    pub mode: Option<Mode>,
    pub location: Point,
    pub scale: Real64,
    pub transform: Transform,
    pub vrr: bool,
}

/// An output's current settings as they are saved: a disabled head records that it is off, and
/// adaptive sync is recorded where it is on.
pub open spec fn entry_settings(output: OutputNow, enabled: bool) -> Settings {
    Settings {
        mode: match output.mode {
            Some(m) => Some(mode_text(m.w as int, m.h as int, m.refresh as int)),
            None => None,
        },
        position: Some((output.location.x, output.location.y)),
        scale: Some(output.scale),
        transform: Some(transform_name(output.transform)),
        enabled: if enabled {
            None
        } else {
            Some(false)
        },
        adaptive_sync: if output.vrr {
            Some(true)
        } else {
            None
        },
        hdr: None,
        sdr_white_nits: None,
        linear_blending: None,
    }
}

/// One output's current settings as a saveable entry.
pub fn output_entry(output: &OutputNow, enabled: bool) -> (entry: OutputConfig)
    ensures
        entry.name@ == output.name@,
        entry.settings() == entry_settings(*output, enabled),
{
    OutputConfig {
        name: output.name.as_str().to_owned(),
        mode: match output.mode {
            Some(m) => Some(format_mode(m.w, m.h, m.refresh)),
            None => None,
        },
        position: Some((output.location.x, output.location.y)),
        scale: Some(output.scale),
        transform: Some(format_transform(output.transform).to_owned()),
        enabled: if enabled {
            None
        } else {
            Some(false)
        },
        adaptive_sync: if output.vrr {
            Some(true)
        } else {
            None
        },
        hdr: None,
        sdr_white_nits: None,
        linear_blending: None,
    }
}

/// A complete snapshot of every output's current settings: the enabled ones, then the disabled.
pub fn snapshot_outputs(enabled: &[OutputNow], disabled: &[OutputNow]) -> (entries: Vec<
    OutputConfig,
>)
    ensures
        entries@.len() == enabled@.len() + disabled@.len(),
        forall|i: int|
            0 <= i < enabled@.len() ==> (#[trigger] entries@[i]).name@ == enabled@[i].name@
                && entries@[i].settings() == entry_settings(enabled@[i], true),
        forall|i: int|
            enabled@.len() <= i < entries@.len() ==> (#[trigger] entries@[i]).name@
                == disabled@[i - enabled@.len()].name@ && entries@[i].settings()
                == entry_settings(disabled@[i - enabled@.len()], false),
{
    let mut entries: Vec<OutputConfig> = Vec::new();
    let mut i: usize = 0;
    while i < enabled.len()
        invariant
            i <= enabled@.len(),
            entries@.len() == i,
            forall|k: int|
                0 <= k < i ==> (#[trigger] entries@[k]).name@ == enabled@[k].name@
                    && entries@[k].settings() == entry_settings(enabled@[k], true),
        decreases enabled.len() - i,
    {
        entries.push(output_entry(&enabled[i], true));
        i += 1;
    }
    let mut j: usize = 0;
    while j < disabled.len()
        invariant
            j <= disabled@.len(),
            entries@.len() == enabled@.len() + j,
            forall|k: int|
                0 <= k < enabled@.len() ==> (#[trigger] entries@[k]).name@ == enabled@[k].name@
                    && entries@[k].settings() == entry_settings(enabled@[k], true),
            forall|k: int|
                enabled@.len() <= k < entries@.len() ==> (#[trigger] entries@[k]).name@
                    == disabled@[k - enabled@.len()].name@ && entries@[k].settings()
                    == entry_settings(disabled@[k - enabled@.len()], false),
        decreases disabled.len() - j,
    {
        entries.push(output_entry(&disabled[j], false));
        j += 1;
    }
    entries
}

/// Every output is a head, the ones that are on before the ones that are off, in their order.
pub proof fn every_output_is_a_head(enabled: &[u64], disabled: &[u64], heads: Vec<(u64, bool)>)
    requires
        call_ensures(heads_of, (enabled, disabled), heads),
    ensures
        heads@.len() == enabled@.len() + disabled@.len(),
        forall|i: int|
            0 <= i < enabled@.len() ==> heads@[i].0 == #[trigger] enabled@[i] && heads@[i].1,
        forall|i: int|
            0 <= i < disabled@.len() ==> heads@[enabled@.len() + i].0 == #[trigger] disabled@[i]
                && !heads@[enabled@.len() + i].1,
{
}

} // verus!

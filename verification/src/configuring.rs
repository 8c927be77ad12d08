//! What a configuration of the outputs comes to: every output ends up with what was asked for it
//! and with nothing else changed, or the whole configuration is refused.
use vstd::prelude::*;

use crate::geometry::Point;
use crate::output_management::{
    all_changes, an_update_names_each_head_once, applied, count_enabled, each_head_once,
    each_output_once, edited, entry_at, entry_holds_config, entry_settings, head_changes,
    head_events, heads_off_are_counted, ids_off, ids_on, is_on, mode_events, modes_events,
    outputs_on_are_counted, settled, switched_off, unknown_mode, with_config, Answer, Change, Edit,
    HeadConfig, HeadEvent, Mode, OutputFacts, OutputNow, PendingConfiguration,
};
use crate::outputs::{
    a_mode_reads_back, a_transform_reads_back, mode_named, transform_named, Real64, Transform,
};

verus! {

/// What an output is set to.
pub ghost struct Standing {
    pub on: bool,
    pub transform: Transform,
    pub scale: Real64,
    /// Where the output says it is.
    pub position: Point,
    /// Where the desktop has it.
    pub place: Point,
    pub mode: Option<Mode>,
    pub vrr: bool,
}

/// An output once a change has been made.
pub open spec fn changed(now: Standing, output: u64, change: Change) -> Standing {
    match change {
        Change::State { output: of, transform, scale, position } => if of == output {
            Standing {
                transform: match transform {
                    Some(transform) => transform,
                    None => now.transform,
                },
                scale: match scale {
                    Some(scale) => scale,
                    None => now.scale,
                },
                position: match position {
                    Some(position) => position,
                    None => now.position,
                },
                ..now
            }
        } else {
            now
        },
        Change::Toggle { output: of, on } => if of == output {
            Standing { on, ..now }
        } else {
            now
        },
        Change::SetMode { output: of, mode } => if of == output {
            Standing { mode: Some(mode), ..now }
        } else {
            now
        },
        Change::SetVrr { output: of, on } => if of == output {
            Standing { vrr: on, ..now }
        } else {
            now
        },
        Change::Place { output: of, at } => if of == output {
            Standing { place: at, ..now }
        } else {
            now
        },
        _ => now,
    }
}

/// An output once changes have been made, one after the other.
pub open spec fn changed_by(now: Standing, output: u64, changes: Seq<Change>) -> Standing
    decreases changes.len(),
{
    if changes.len() == 0 {
        now
    } else {
        changed(changed_by(now, output, changes.drop_last()), output, changes.last())
    }
}

/// Whether an output has what was asked for it, and is otherwise as it was.
pub open spec fn is_as_asked(before: Standing, after: Standing, config: HeadConfig) -> bool {
    &&& config.enabled matches Some(on) ==> after.on == on
    &&& config.enabled is None ==> after.on == before.on
    &&& config.transform matches Some(transform) ==> after.transform == transform
    &&& config.transform is None ==> after.transform == before.transform
    &&& config.scale matches Some(scale) ==> after.scale == scale
    &&& config.scale is None ==> after.scale == before.scale
    &&& config.position matches Some(at) ==> after.position == at && after.place == at
    &&& config.position is None ==> after.position == before.position && after.place
        == before.place
    &&& config.mode matches Some(mode) ==> after.mode == Some(mode)
    &&& config.mode is None ==> after.mode == before.mode
    &&& config.adaptive_sync matches Some(on) ==> after.vrr == on
    &&& config.adaptive_sync is None ==> after.vrr == before.vrr
}

proof fn changes_in_two_parts(now: Standing, output: u64, a: Seq<Change>, b: Seq<Change>)
    ensures
        changed_by(now, output, a + b) == changed_by(changed_by(now, output, a), output, b),
    decreases b.len(),
{
    if b.len() == 0 {
        assert(a + b =~= a);
    } else {
        assert((a + b).drop_last() =~= a + b.drop_last());
        changes_in_two_parts(now, output, a, b.drop_last());
    }
}

proof fn one_change(now: Standing, output: u64, change: Change)
    ensures
        changed_by(now, output, seq![change]) == changed(now, output, change),
{
    assert(seq![change].drop_last() =~= Seq::empty());
    reveal_with_fuel(changed_by, 2);
}

proof fn a_head_is_set(
    now: Standing,
    of: u64,
    output: u64,
    config: HeadConfig,
    outputs: Seq<OutputFacts>,
)
    requires
        of == output ==> now.on == is_on(outputs, output),
    ensures
        ({
            let after = changed_by(now, of, head_changes(output, config, outputs));
            if of == output {
                is_as_asked(now, after, config)
            } else {
                after == now
            }
        }),
{
    let set = Change::State {
        output,
        transform: config.transform,
        scale: config.scale,
        position: config.position,
    };
    let toggle = match config.enabled {
        Some(on) => if on != is_on(outputs, output) {
            seq![Change::Toggle { output, on }]
        } else {
            Seq::empty()
        },
        None => Seq::empty(),
    };
    let mode = match config.mode {
        Some(mode) => seq![Change::SetMode { output, mode }],
        None => Seq::empty(),
    };
    let vrr = match config.adaptive_sync {
        Some(on) => seq![Change::SetVrr { output, on }],
        None => Seq::empty(),
    };
    let place = match config.position {
        Some(position) => seq![Change::Place { output, at: position }],
        None => Seq::empty(),
    };
    let first = seq![set, Change::Dirty];
    assert(first =~= seq![set] + seq![Change::Dirty]);
    one_change(now, of, set);
    changes_in_two_parts(now, of, seq![set], seq![Change::Dirty]);
    let a = changed(now, of, set);
    one_change(a, of, Change::Dirty);
    changes_in_two_parts(now, of, first, toggle);
    let b = changed_by(a, of, toggle);
    if toggle.len() > 0 {
        one_change(a, of, toggle[0]);
        assert(toggle =~= seq![toggle[0]]);
    }
    changes_in_two_parts(now, of, first + toggle, mode);
    let c = changed_by(b, of, mode);
    if mode.len() > 0 {
        one_change(b, of, mode[0]);
        assert(mode =~= seq![mode[0]]);
    }
    changes_in_two_parts(now, of, first + toggle + mode, vrr);
    let d = changed_by(c, of, vrr);
    if vrr.len() > 0 {
        one_change(c, of, vrr[0]);
        assert(vrr =~= seq![vrr[0]]);
    }
    changes_in_two_parts(now, of, first + toggle + mode + vrr, place);
    if place.len() > 0 {
        one_change(d, of, place[0]);
        assert(place =~= seq![place[0]]);
    }
    assert(head_changes(output, config, outputs) =~= first + toggle + mode + vrr + place);
}

proof fn heads_are_set(
    now: Standing,
    output: u64,
    heads: Seq<(u64, HeadConfig)>,
    outputs: Seq<OutputFacts>,
)
    requires
        each_head_once(heads),
        now.on == is_on(outputs, output),
    ensures
        ({
            let after = changed_by(now, output, all_changes(heads, outputs));
            &&& forall|i: int|
                0 <= i < heads.len() && (#[trigger] heads[i]).0 == output ==> is_as_asked(
                    now,
                    after,
                    heads[i].1,
                )
            &&& (forall|i: int| 0 <= i < heads.len() ==> (#[trigger] heads[i]).0 != output)
                ==> after == now
        }),
    decreases heads.len(),
{
    if heads.len() > 0 {
        let fewer = heads.drop_last();
        assert forall|i: int, j: int| 0 <= i < j < fewer.len() implies (#[trigger] fewer[i]).0 != (
        #[trigger] fewer[j]).0 by {
            assert(heads[i].0 != heads[j].0);
        }
        heads_are_set(now, output, fewer, outputs);
        let (last, config) = heads.last();
        let before = changed_by(now, output, all_changes(fewer, outputs));
        changes_in_two_parts(
            now,
            output,
            all_changes(fewer, outputs),
            head_changes(last, config, outputs),
        );
        if last == output {
            assert forall|i: int| 0 <= i < fewer.len() implies (#[trigger] fewer[i]).0 != output by {
                assert(heads[i].0 != heads[heads.len() - 1].0);
            }
            assert(before == now);
        }
        a_head_is_set(before, output, last, config, outputs);
        let after = changed_by(now, output, all_changes(heads, outputs));
        assert forall|i: int|
            0 <= i < heads.len() && (#[trigger] heads[i]).0 == output implies is_as_asked(
            now,
            after,
            heads[i].1,
        ) by {
            if i < fewer.len() {
                assert(fewer[i] == heads[i]);
                assert(heads[i].0 != heads[heads.len() - 1].0);
            }
        }
        if forall|i: int| 0 <= i < heads.len() ==> (#[trigger] heads[i]).0 != output {
            assert(heads[heads.len() - 1].0 != output);
            assert forall|i: int| 0 <= i < fewer.len() implies (#[trigger] fewer[i]).0 != output by {
                assert(heads[i].0 != output);
            }
        }
    }
}

proof fn settling_sets_nothing(now: Standing, output: u64)
    ensures
        changed_by(now, output, settled()) == now,
{
    let all = settled();
    assert(all =~= seq![Change::Relocate] + seq![Change::Advertise] + seq![Change::Redraw]);
    one_change(now, output, Change::Relocate);
    one_change(now, output, Change::Advertise);
    one_change(now, output, Change::Redraw);
    changes_in_two_parts(now, output, seq![Change::Relocate], seq![Change::Advertise]);
    changes_in_two_parts(
        now,
        output,
        seq![Change::Relocate] + seq![Change::Advertise],
        seq![Change::Redraw],
    );
}

/// Making the changes of a configuration leaves every output that it names with what was asked for
/// it, field by field, and an output that it does not name as it was.
pub proof fn an_applied_configuration_is_carried_out(
    heads: Seq<(u64, HeadConfig)>,
    outputs: Seq<OutputFacts>,
    output: u64,
    now: Standing,
)
    requires
        each_head_once(heads),
        now.on == is_on(outputs, output),
    ensures
        ({
            let after = changed_by(now, output, all_changes(heads, outputs) + settled());
            &&& forall|i: int|
                0 <= i < heads.len() && (#[trigger] heads[i]).0 == output ==> is_as_asked(
                    now,
                    after,
                    heads[i].1,
                )
            &&& (forall|i: int| 0 <= i < heads.len() ==> (#[trigger] heads[i]).0 != output)
                ==> after == now
        }),
{
    heads_are_set(now, output, heads, outputs);
    changes_in_two_parts(now, output, all_changes(heads, outputs), settled());
    settling_sets_nothing(
        changed_by(now, output, all_changes(heads, outputs)),
        output,
    );
}

/// Once the changes of a configuration have been made, the arrangement is saved, stranded windows
/// are brought back, and every client is told, in that order, before the screen is drawn again.
pub proof fn a_changed_layout_is_made_known(
    heads: Seq<(u64, HeadConfig)>,
    outputs: Seq<OutputFacts>,
)
    requires
        heads.len() > 0,
    ensures
        ({
            let changes = all_changes(heads, outputs) + settled();
            &&& changes.contains(Change::Dirty)
            &&& changes[changes.len() - 3] == Change::Relocate
            &&& changes[changes.len() - 2] == Change::Advertise
            &&& changes[changes.len() - 1] == Change::Redraw
        }),
{
    let before = all_changes(heads.drop_last(), outputs);
    let last = head_changes(heads.last().0, heads.last().1, outputs);
    let changes = all_changes(heads, outputs) + settled();
    assert(changes[before.len() as int + 1] == last[1]);
    assert(last[1] == Change::Dirty);
}

/// A request of a client sets its own field for its own output, and no other; a request that
/// cannot be met sets none.
pub proof fn a_request_sets_its_own_field(config: HeadConfig, edit: Edit)
    ensures
        match edit {
            Edit::SetTransform(None) => edited(config, edit) is None,
            Edit::SetMode(None) => edited(config, edit) is None,
            Edit::SetCustomMode => edited(config, edit) is None,
            Edit::SetAdaptiveSync { requested, supported } => edited(config, edit) is Some
                <==> requested is Some && supported,
            _ => edited(config, edit) is Some,
        },
        edited(config, edit) matches Some(now) ==> {
            &&& now.enabled == if edit is Enable {
                Some(edit->Enable_0)
            } else {
                config.enabled
            }
            &&& now.position == if edit is SetPosition {
                Some(edit->SetPosition_0)
            } else {
                config.position
            }
            &&& now.scale == if edit is SetScale {
                Some(edit->SetScale_0)
            } else {
                config.scale
            }
            &&& now.transform == if edit is SetTransform {
                edit->SetTransform_0
            } else {
                config.transform
            }
            &&& now.mode == if edit is SetMode {
                edit->SetMode_0
            } else {
                config.mode
            }
            &&& now.adaptive_sync == if edit is SetAdaptiveSync {
                edit->requested
            } else {
                config.adaptive_sync
            }
        },
{
}

/// What is recorded for an output is what is found for it, and what was recorded for the others
/// stays.
pub proof fn what_is_recorded_is_found(
    heads: Seq<(u64, HeadConfig)>,
    output: u64,
    config: HeadConfig,
)
    requires
        each_head_once(heads),
    ensures
        ({
            let after = with_config(heads, output, config);
            &&& exists|i: int|
                0 <= i < after.len() && (#[trigger] after[i]).0 == output && after[i].1 == config
            &&& forall|i: int|
                0 <= i < after.len() && (#[trigger] after[i]).0 == output ==> after[i].1 == config
            &&& forall|i: int|
                0 <= i < heads.len() && (#[trigger] heads[i]).0 != output ==> after[i] == heads[i]
            &&& heads.len() <= after.len() <= heads.len() + 1
        }),
{
    entry_holds_config(heads, output);
    an_update_names_each_head_once(heads, output, config);
    let after = with_config(heads, output, config);
    match entry_at(heads, output) {
        Some(i) => {
            assert(after[i] == (output, config));
            assert forall|j: int| 0 <= j < after.len() && (#[trigger] after[j]).0 == output implies after[j].1
                == config by {
                if j < i {
                    assert(after[j].0 != after[i].0);
                } else if i < j {
                    assert(after[i].0 != after[j].0);
                }
            }
        },
        None => {
            let i = after.len() - 1;
            assert(after[i] == (output, config));
            assert forall|j: int| 0 <= j < after.len() && (#[trigger] after[j]).0 == output implies after[j].1
                == config by {
                if j < i {
                    assert(after[j].0 != after[i].0);
                }
            }
        },
    }
}

/// A configuration that asks an output for a mode it does not have is refused.
pub proof fn an_unknown_mode_is_refused(
    serial: u32,
    pending: PendingConfiguration,
    outputs: Seq<OutputFacts>,
    i: int,
    mode: Mode,
)
    requires
        0 <= i < pending.heads@.len(),
        pending.heads@[i].1.mode == Some(mode),
        forall|j: int|
            0 <= j < outputs.len() && (#[trigger] outputs[j]).id == pending.heads@[i].0
                ==> !outputs[j].modes@.contains(mode),
    ensures
        applied(serial, pending, outputs) != Answer::Succeeded,
{
    assert(pending.heads@[i].1.mode == Some(mode));
    assert(unknown_mode(pending.heads@, outputs));
}

/// A configuration that switches off every output that is on, and switches on none, is refused.
pub proof fn the_last_output_is_not_switched_off(
    serial: u32,
    pending: PendingConfiguration,
    outputs: Seq<OutputFacts>,
)
    requires
        each_output_once(outputs),
        forall|i: int|
            0 <= i < pending.heads@.len() ==> (#[trigger] pending.heads@[i]).1.enabled != Some(
                true,
            ),
        forall|j: int|
            0 <= j < outputs.len() && (#[trigger] outputs[j]).on ==> switched_off(
                pending.heads@,
                outputs[j].id,
            ),
    ensures
        applied(serial, pending, outputs) != Answer::Succeeded,
{
    let heads = pending.heads@;
    none_is_enabled(heads);
    outputs_on_are_counted(outputs);
    heads_off_are_counted(heads, outputs);
    let on = ids_on(outputs);
    let off = ids_off(heads, outputs);
    assert forall|id: u64| on.contains(id) implies off.contains(id) by {
        let i = choose|i: int| 0 <= i < outputs.len() && (#[trigger] outputs[i]).id == id && outputs[i].on;
        assert(switched_off(heads, id));
        assert(is_on(outputs, id));
    }
    vstd::set_lib::lemma_len_subset(on, off);
}

proof fn none_is_enabled(heads: Seq<(u64, HeadConfig)>)
    requires
        forall|i: int| 0 <= i < heads.len() ==> (#[trigger] heads[i]).1.enabled != Some(true),
    ensures
        count_enabled(heads) == 0,
    decreases heads.len(),
{
    if heads.len() > 0 {
        let fewer = heads.drop_last();
        assert forall|i: int| 0 <= i < fewer.len() implies (#[trigger] fewer[i]).1.enabled != Some(
            true,
        ) by {
            assert(heads[i].1.enabled != Some(true));
        }
        assert(heads[heads.len() - 1].1.enabled != Some(true));
        none_is_enabled(fewer);
    }
}

/// What is saved of an output reads back as its mode, to the whole hertz, and its orientation; its
/// position and scale are saved as they are, and that it is off or has adaptive sync on is saved.
pub proof fn a_saved_output_reads_back(output: OutputNow, enabled: bool)
    ensures
        ({
            let saved = entry_settings(output, enabled);
            &&& saved.position == Some((output.location.x, output.location.y))
            &&& saved.scale == Some(output.scale)
            &&& saved.transform matches Some(name) && transform_named(name) == Some(
                output.transform,
            )
            &&& saved.mode is Some <==> output.mode is Some
            &&& output.mode matches Some(m) ==> (m.refresh >= 0 ==> (mode_named(saved.mode->0)
                matches Some((w, h, hz)) && w == m.w && h == m.h && (hz matches Some(hz) && -1000
                <= 2 * (1000 * hz - m.refresh) <= 1000)))
            &&& saved.enabled == Some(false) <==> !enabled
            &&& saved.enabled != Some(true)
            &&& saved.adaptive_sync == Some(true) <==> output.vrr
        }),
{
    a_transform_reads_back(output.transform);
    if output.mode is Some {
        let m = output.mode->0;
        if m.refresh >= 0 {
            a_mode_reads_back(m.w, m.h, m.refresh);
        }
    }
}

/// Whether an event of a head is one of those that a client is told of a mode.
pub open spec fn is_of_mode(
    event: HeadEvent,
    i: int,
    mode: Mode,
    preferred: Option<Mode>,
    current: Option<Mode>,
) -> bool {
    match event {
        HeadEvent::Announce(k) => k == i,
        HeadEvent::ModeSize(k) => k == i,
        HeadEvent::ModeRefresh(k) => k == i,
        HeadEvent::ModePreferred(k) => k == i && preferred == Some(mode),
        HeadEvent::CurrentMode(k) => k == i && current == Some(mode),
        _ => false,
    }
}

proof fn a_mode_is_told(
    modes: Seq<Mode>,
    i: int,
    preferred: Option<Mode>,
    current: Option<Mode>,
    event: HeadEvent,
)
    requires
        0 <= i < modes.len() <= usize::MAX,
    ensures
        mode_events(modes, i, preferred, current).contains(event) <==> is_of_mode(
            event,
            i,
            modes[i],
            preferred,
            current,
        ),
{
    let told = mode_events(modes, i, preferred, current);
    assert(told[0] == HeadEvent::Announce(i as usize));
    assert(told[1] == HeadEvent::ModeSize(i as usize));
    assert(told[2] == HeadEvent::ModeRefresh(i as usize));
    if preferred == Some(modes[i]) {
        assert(told[3] == HeadEvent::ModePreferred(i as usize));
        if current == Some(modes[i]) {
            assert(told[4] == HeadEvent::CurrentMode(i as usize));
        }
    } else if current == Some(modes[i]) {
        assert(told[3] == HeadEvent::CurrentMode(i as usize));
    }
}

proof fn held_in_either(a: Seq<HeadEvent>, b: Seq<HeadEvent>, event: HeadEvent)
    ensures
        (a + b).contains(event) <==> a.contains(event) || b.contains(event),
{
    if a.contains(event) {
        let k = a.index_of(event);
        assert((a + b)[k] == event);
    }
    if b.contains(event) {
        let k = b.index_of(event);
        assert((a + b)[a.len() + k] == event);
    }
    if (a + b).contains(event) {
        let k = (a + b).index_of(event);
        if k < a.len() {
            assert(a[k] == event);
        } else {
            assert(b[k - a.len()] == event);
        }
    }
}

proof fn modes_are_told(
    modes: Seq<Mode>,
    n: int,
    preferred: Option<Mode>,
    current: Option<Mode>,
    event: HeadEvent,
)
    requires
        0 <= n <= modes.len() <= usize::MAX,
    ensures
        modes_events(modes, n, preferred, current).contains(event) <==> exists|i: int|
            0 <= i < n && is_of_mode(event, i, #[trigger] modes[i], preferred, current),
    decreases n,
{
    if n > 0 {
        modes_are_told(modes, n - 1, preferred, current, event);
        a_mode_is_told(modes, n - 1, preferred, current, event);
        held_in_either(
            modes_events(modes, n - 1, preferred, current),
            mode_events(modes, n - 1, preferred, current),
            event,
        );
        if is_of_mode(event, n - 1, modes[n - 1], preferred, current) {
            assert(0 <= n - 1 < n);
        }
    }
}

/// A client is told of each mode of a head and how it is; which of them is preferred and which is
/// current; whether the head is on; and what its version of the protocol knows of besides.
pub proof fn a_head_is_told_of_whole(
    version: u32,
    modes: Seq<Mode>,
    preferred: Option<Mode>,
    current: Option<Mode>,
    enabled: bool,
    vrr: bool,
    event: HeadEvent,
)
    requires
        modes.len() <= usize::MAX,
    ensures
        head_events(version, modes, preferred, current, enabled, vrr).contains(event)
            <==> match event {
            HeadEvent::Make => version >= 2,
            HeadEvent::Model => version >= 2,
            HeadEvent::Enabled(on) => on == enabled,
            HeadEvent::AdaptiveSync(on) => version >= 4 && on == vrr,
            HeadEvent::Announce(i) => i < modes.len(),
            HeadEvent::ModeSize(i) => i < modes.len(),
            HeadEvent::ModeRefresh(i) => i < modes.len(),
            HeadEvent::ModePreferred(i) => i < modes.len() && preferred == Some(modes[i as int]),
            HeadEvent::CurrentMode(i) => i < modes.len() && current == Some(modes[i as int]),
            _ => true,
        },
{
    let names = seq![HeadEvent::Name, HeadEvent::Description, HeadEvent::PhysicalSize];
    let makes = if version >= 2 {
        seq![HeadEvent::Make, HeadEvent::Model]
    } else {
        Seq::empty()
    };
    let all = modes_events(modes, modes.len() as int, preferred, current);
    let rest = seq![
        HeadEvent::Enabled(enabled),
        HeadEvent::Position,
        HeadEvent::Orientation,
        HeadEvent::Scale,
    ];
    let sync = if version >= 4 {
        seq![HeadEvent::AdaptiveSync(vrr)]
    } else {
        Seq::empty()
    };
    held_in_either(names, makes, event);
    held_in_either(names + makes, all, event);
    held_in_either(names + makes + all, rest, event);
    held_in_either(names + makes + all + rest, sync, event);
    modes_are_told(modes, modes.len() as int, preferred, current, event);
    assert(names[0] == HeadEvent::Name && names[1] == HeadEvent::Description && names[2]
        == HeadEvent::PhysicalSize);
    assert(version >= 2 ==> makes[0] == HeadEvent::Make && makes[1] == HeadEvent::Model);
    assert(rest[0] == HeadEvent::Enabled(enabled) && rest[1] == HeadEvent::Position && rest[2]
        == HeadEvent::Orientation && rest[3] == HeadEvent::Scale);
    assert(version >= 4 ==> sync[0] == HeadEvent::AdaptiveSync(vrr));
    match event {
        HeadEvent::Announce(i) | HeadEvent::ModeSize(i) | HeadEvent::ModeRefresh(i)
        | HeadEvent::ModePreferred(i) | HeadEvent::CurrentMode(i) => {
            if i < modes.len() {
                assert(is_of_mode(event, i as int, modes[i as int], preferred, current) ==> exists|
                    k: int,
                |
                    0 <= k < modes.len() && is_of_mode(
                        event,
                        k,
                        #[trigger] modes[k],
                        preferred,
                        current,
                    ));
            }
        },
        _ => {},
    }
}

} // verus!

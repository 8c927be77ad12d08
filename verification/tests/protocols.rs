use wlrix_compositor::geometry::{Point, Rect, Size, Spot};
use wlrix_compositor::idle::{IdleState, IdleStep};
use wlrix_compositor::image_capture::{
    capture_size, capture_target, dmabuf_constraints, Format, ImageCaptureState, Target,
};
use wlrix_compositor::head_protocol::{HeadFacts, ManagerEvent, ShownHead};
use wlrix_compositor::output_management::{
    advertise_head, heads_of, output_entry, snapshot_outputs, Answer, Change, Edit, HeadEvent,
    Mode, OutputFacts, OutputManagementState, OutputNow, PendingConfiguration,
};
use wlrix_compositor::outputs::{Real64, Transform};
use wlrix_compositor::power::{blank_after, PowerState, PowerStep};
use wlrix_compositor::screencopy::{
    answer, capture_region, capture_transform, copy_length, offer_buffer, Captures, CopyError,
    FrameData, FrameEvent,
};
use wlrix_compositor::session_lock::LockState;
use wlrix_compositor::state::Desk;
use wlrix_compositor::workspace_protocol::{
    add_workspace, workspace_id, workspace_snapshots, Announcement, DeskEntry, Staged,
    WorkspaceEvent, WorkspaceProtocolState,
};

const HD: Mode = Mode { w: 1920, h: 1080, refresh: 60000 };
const QHD: Mode = Mode { w: 2560, h: 1440, refresh: 144000 };

fn outputs() -> Vec<OutputFacts> {
    vec![
        OutputFacts { id: 1, on: true, modes: vec![HD, QHD] },
        OutputFacts { id: 2, on: true, modes: vec![HD] },
        OutputFacts { id: 3, on: false, modes: vec![HD] },
    ]
}

#[test]
fn a_configuration_is_applied_whole_and_in_order() {
    let state = OutputManagementState::new();
    let mut pending = PendingConfiguration::new(0);
    pending.update(1, Edit::SetPosition(Point { x: 10, y: 20 }));
    pending.update(1, Edit::SetMode(Some(QHD)));
    pending.update(3, Edit::Enable(true));
    pending.update(1, Edit::SetAdaptiveSync { requested: Some(true), supported: true });
    assert_eq!(pending.heads.len(), 2, "a head is named once");
    assert_eq!(state.test(&pending), Answer::Succeeded);
    let (answer, changes) = state.apply(&pending, &outputs());
    assert_eq!(answer, Answer::Succeeded);
    assert_eq!(
        changes,
        vec![
            Change::State {
                output: 1,
                transform: None,
                scale: None,
                position: Some(Point { x: 10, y: 20 })
            },
            Change::Dirty,
            Change::SetMode { output: 1, mode: QHD },
            Change::SetVrr { output: 1, on: true },
            Change::Place { output: 1, at: Point { x: 10, y: 20 } },
            Change::State { output: 3, transform: None, scale: None, position: None },
            Change::Dirty,
            Change::Toggle { output: 3, on: true },
            Change::Relocate,
            Change::Advertise,
            Change::Redraw,
        ]
    );
}

#[test]
fn a_stale_configuration_changes_nothing() {
    let mut state = OutputManagementState::new();
    let mut pending = PendingConfiguration::new(0);
    pending.update(1, Edit::Enable(true));
    state.outputs_changed(&[], &[]);
    assert!(!state.serial_is_current(0) && state.serial_is_current(1));
    assert_eq!(state.test(&pending), Answer::Cancelled);
    assert_eq!(state.apply(&pending, &outputs()), (Answer::Cancelled, vec![]));
    state.serial = u32::MAX;
    state.outputs_changed(&[], &[]);
    assert_eq!(state.serial, 0);
}

#[test]
fn what_cannot_be_done_fails() {
    let state = OutputManagementState::new();
    for edit in [
        Edit::SetTransform(None),
        Edit::SetMode(None),
        Edit::SetCustomMode,
        Edit::SetAdaptiveSync { requested: Some(true), supported: false },
        Edit::SetAdaptiveSync { requested: None, supported: true },
    ] {
        let mut pending = PendingConfiguration::new(0);
        pending.update(1, edit);
        assert!(pending.unsupported && pending.heads.is_empty());
        assert_eq!(state.test(&pending), Answer::Failed);
        assert_eq!(state.apply(&pending, &outputs()), (Answer::Failed, vec![]));
    }
    // A mode of another output.
    let mut pending = PendingConfiguration::new(0);
    pending.update(2, Edit::SetMode(Some(QHD)));
    assert_eq!(state.test(&pending), Answer::Succeeded);
    assert_eq!(state.apply(&pending, &outputs()), (Answer::Failed, vec![]));
}

#[test]
fn the_last_display_is_not_switched_off() {
    let state = OutputManagementState::new();
    let mut pending = PendingConfiguration::new(0);
    pending.update(1, Edit::Enable(false));
    assert_eq!(state.apply(&pending, &outputs()).0, Answer::Succeeded);
    pending.update(2, Edit::Enable(false));
    assert_eq!(state.apply(&pending, &outputs()).0, Answer::Failed);
    // Unless another comes on.
    pending.update(3, Edit::Enable(true));
    assert_eq!(state.apply(&pending, &outputs()).0, Answer::Succeeded);
}

#[test]
fn a_head_is_told_what_its_client_knows_of() {
    assert_eq!(heads_of(&[1, 2], &[3]), vec![(1, true), (2, true), (3, false)]);
    let old = advertise_head(1, &[HD, QHD], Some(QHD), Some(HD), true, true);
    assert_eq!(
        old,
        vec![
            HeadEvent::Name,
            HeadEvent::Description,
            HeadEvent::PhysicalSize,
            HeadEvent::Announce(0),
            HeadEvent::ModeSize(0),
            HeadEvent::ModeRefresh(0),
            HeadEvent::CurrentMode(0),
            HeadEvent::Announce(1),
            HeadEvent::ModeSize(1),
            HeadEvent::ModeRefresh(1),
            HeadEvent::ModePreferred(1),
            HeadEvent::Enabled(true),
            HeadEvent::Position,
            HeadEvent::Orientation,
            HeadEvent::Scale,
        ]
    );
    let new = advertise_head(4, &[], None, None, false, true);
    assert_eq!(&new[3..5], &[HeadEvent::Make, HeadEvent::Model]);
    assert_eq!(new.last(), Some(&HeadEvent::AdaptiveSync(true)));
}

fn facts(output: u64, modes: Vec<Mode>) -> HeadFacts {
    HeadFacts { output, enabled: true, vrr: false, modes, preferred: None, current: None }
}

#[test]
fn a_changed_layout_is_advertised_anew() {
    let mut state = OutputManagementState::new();
    let told = state.advertise(10, 1, &[facts(1, vec![HD, QHD])]);
    assert_eq!(told[0], ManagerEvent::Head { head: 0 });
    assert_eq!(told[1], ManagerEvent::Of { head: 0, event: HeadEvent::Name });
    assert_eq!(told.last(), Some(&ManagerEvent::Done(0)));
    state.advertise(11, 4, &[facts(1, vec![HD])]);
    assert_eq!(state.instances.len(), 2);
    let told = state.outputs_changed(&[10], &[facts(1, vec![]), facts(2, vec![])]);
    assert_eq!(told.len(), 1, "a manager that is gone is told nothing");
    assert_eq!(told[0].manager, 10);
    assert_eq!(
        told[0].events[..4],
        [
            ManagerEvent::ModeFinished { head: 0, mode: 0 },
            ManagerEvent::ModeFinished { head: 0, mode: 1 },
            ManagerEvent::HeadFinished { head: 0 },
            ManagerEvent::Head { head: 0 },
        ]
    );
    assert!(told[0].events.contains(&ManagerEvent::Head { head: 1 }));
    assert_eq!(told[0].events.last(), Some(&ManagerEvent::Done(1)));
    assert_eq!(
        state.instances[0].heads,
        vec![ShownHead { output: 1, modes: 0 }, ShownHead { output: 2, modes: 0 }]
    );
    assert_eq!(state.stop(10), ManagerEvent::Finished);
    assert!(state.instances.is_empty());
    assert!(state.outputs_changed(&[10], &[]).is_empty());
}

#[test]
fn an_output_is_saved_as_it_is() {
    let now = OutputNow {
        name: "DP-1".to_string(),
        mode: Some(QHD),
        location: Point { x: 2560, y: 0 },
        scale: Real64 { bits: 1.5f64.to_bits() },
        transform: Transform::Normal,
        vrr: false,
    };
    let entry = output_entry(&now, true);
    assert_eq!(entry.name, "DP-1");
    assert_eq!(entry.position, Some((2560, 0)));
    assert_eq!(entry.enabled, None);
    assert_eq!(entry.adaptive_sync, None);
    assert_eq!(entry.scale.map(|s| f64::from_bits(s.bits)), Some(1.5));
    let all = snapshot_outputs(&[now], &[OutputNow {
        name: "DP-2".to_string(),
        mode: None,
        location: Point { x: 0, y: 0 },
        scale: Real64 { bits: 1.0f64.to_bits() },
        transform: Transform::Normal,
        vrr: true,
    }]);
    assert_eq!(all.len(), 2);
    assert_eq!(all[1].enabled, Some(false));
    assert_eq!(all[1].adaptive_sync, Some(true));
    assert_eq!(all[1].mode, None);
}

fn desk(id: u32, name: &str) -> DeskEntry {
    DeskEntry { id, name: Some(name.to_string()), deletable: id != 1 }
}

#[test]
fn a_pager_is_told_of_the_desks_and_of_each_change() {
    let mut state = WorkspaceProtocolState::new();
    assert!(state.is_empty());
    let desks = workspace_snapshots(&[desk(1, "Desk 1"), desk(2, "Desk 2")], Desk::Ordinary(1));
    assert!(desks[0].active && !desks[1].active);
    assert!(!desks[0].removable && desks[1].removable);
    assert_eq!(desks[1].index, 1);
    let events = state.advertise(10, 100, true, &desks);
    assert_eq!(
        events,
        vec![
            WorkspaceEvent::Added { at: 0 },
            WorkspaceEvent::Added { at: 1 },
            WorkspaceEvent::Done
        ]
    );
    // Nothing changed: nothing is told.
    let told = state.refresh(&[10], &desks);
    assert_eq!(told[0].events, vec![]);
    // A switch, a new name, and one desk more.
    let desks = workspace_snapshots(
        &[desk(1, "Mail"), desk(2, "Desk 2"), desk(3, "Desk 3")],
        Desk::Ordinary(2),
    );
    let told = state.refresh(&[10], &desks);
    assert_eq!(told[0].manager, 10);
    assert_eq!(
        told[0].events,
        vec![
            WorkspaceEvent::Name { id: 1, at: 0 },
            WorkspaceEvent::State { id: 1, active: false },
            WorkspaceEvent::State { id: 2, active: true },
            WorkspaceEvent::Added { at: 2 },
            WorkspaceEvent::Done,
        ]
    );
    // A desk is gone and nothing else changed: the client takes that in all the same.
    let mut other = WorkspaceProtocolState::new();
    other.advertise(12, 300, true, &desks);
    let fewer = workspace_snapshots(&[desk(1, "Mail"), desk(2, "Desk 2")], Desk::Ordinary(2));
    let told = other.refresh(&[12], &fewer);
    assert_eq!(
        told[0].events,
        vec![WorkspaceEvent::Leave(3), WorkspaceEvent::Removed(3), WorkspaceEvent::Done]
    );
    assert_eq!(other.refresh(&[12], &fewer)[0].events, vec![]);
    // A desk is gone, and another becomes active.
    let desks = workspace_snapshots(&[desk(1, "Mail"), desk(3, "Desk 3")], Desk::Ordinary(1));
    let told = state.refresh(&[10], &desks);
    assert_eq!(
        told[0].events,
        vec![
            WorkspaceEvent::Leave(2),
            WorkspaceEvent::Removed(2),
            WorkspaceEvent::State { id: 1, active: true },
            WorkspaceEvent::Done,
        ]
    );
    // A manager that died is told nothing.
    assert!(state.refresh(&[], &desks).is_empty());
    assert!(state.is_empty());
    assert_eq!(workspace_id(42), "42");
    assert_eq!(
        add_workspace(&desks[0], false),
        vec![
            Announcement::Workspace,
            Announcement::Id,
            Announcement::Name,
            Announcement::Coordinates(0),
            Announcement::State { active: true },
            Announcement::Capabilities { remove: false },
        ]
    );
}

#[test]
fn every_pager_is_brought_up_to_date() {
    let mut state = WorkspaceProtocolState::new();
    let order = [desk(1, "Desk 1"), desk(2, "Desk 2")];
    assert_eq!(state.workspaces_changed(&[], &order, Desk::Ordinary(1)).len(), 0);
    state.advertise(10, 100, true, &workspace_snapshots(&order, Desk::Ordinary(1)));
    state.advertise(11, 200, true, &workspace_snapshots(&order, Desk::Ordinary(1)));
    let told = state.workspaces_changed(&[11], &order, Desk::Ordinary(2));
    assert_eq!(told.len(), 1, "a manager that is gone is told nothing");
    assert_eq!(told[0].manager, 11);
    assert_eq!(
        told[0].events,
        vec![
            WorkspaceEvent::State { id: 1, active: false },
            WorkspaceEvent::State { id: 2, active: true },
            WorkspaceEvent::Done,
        ]
    );
}

#[test]
fn requests_wait_for_a_commit_and_keep_their_order() {
    let mut state = WorkspaceProtocolState::new();
    state.advertise(10, 100, true, &[]);
    state.advertise(11, 200, true, &[]);
    state.stage(100, Staged::Create);
    state.stage(100, Staged::Activate(2));
    state.stage(200, Staged::Remove(1));
    assert_eq!(state.take_staged(10), vec![Staged::Create, Staged::Activate(2)]);
    assert_eq!(state.take_staged(10), vec![]);
    assert_eq!(state.take_staged(99), vec![]);
    state.forget_manager(11);
    assert_eq!(state.take_staged(11), vec![]);
    assert_eq!(state.instances.len(), 1);
}

#[test]
fn idleness_ends_with_the_next_input() {
    let mut idle = IdleState::new();
    assert_eq!(idle.request(1, 5000, false), vec![IdleStep::Start { id: 1, timeout: 5000 }]);
    assert_eq!(idle.mark_idle(1), vec![IdleStep::Idled { id: 1 }]);
    assert_eq!(idle.mark_idle(1), vec![], "a client is told once");
    assert_eq!(
        idle.notify_activity(),
        vec![IdleStep::Resumed { id: 1 }, IdleStep::Start { id: 1, timeout: 5000 }]
    );
    assert_eq!(
        idle.notify_activity(),
        vec![IdleStep::Stop { id: 1 }, IdleStep::Start { id: 1, timeout: 5000 }]
    );
    assert_eq!(idle.destroyed(1), vec![IdleStep::Stop { id: 1 }]);
    assert_eq!(idle.notify_activity(), vec![]);
}

#[test]
fn an_inhibitor_holds_off_those_that_mind_it() {
    let mut idle = IdleState::new();
    idle.request(1, 5000, false);
    idle.request(2, 7000, true);
    assert_eq!(idle.set_inhibited(true), vec![IdleStep::Stop { id: 1 }]);
    assert!(idle.inhibited());
    assert_eq!(
        idle.notify_activity(),
        vec![IdleStep::Stop { id: 2 }, IdleStep::Start { id: 2, timeout: 7000 }]
    );
    assert_eq!(idle.request(3, 1000, false), vec![]);
    assert_eq!(
        idle.set_inhibited(false),
        vec![
            IdleStep::Start { id: 1, timeout: 5000 },
            IdleStep::Start { id: 3, timeout: 1000 }
        ]
    );
    // One too many is forgiven.
    idle.set_inhibited(false);
    assert!(!idle.inhibited());
}

#[test]
fn an_idle_blank_is_undone_by_input_and_a_clients_is_not() {
    let mut power = PowerState::new();
    let outputs = [1, 2];
    assert_eq!(
        power.arm_blank_timer(Some(600), false),
        vec![PowerStep::StartTimer { secs: 600 }]
    );
    assert_eq!(
        power.blank_for_idle(false, &outputs),
        vec![
            PowerStep::Connector { output: 1, on: false },
            PowerStep::Connector { output: 2, on: false }
        ]
    );
    assert!(!power.output_powered(1) && power.output_powered(3));
    assert_eq!(
        power.notice_activity_for_blanking(Some(600), false, &outputs),
        vec![
            PowerStep::Connector { output: 1, on: true },
            PowerStep::Connector { output: 2, on: true },
            PowerStep::StartTimer { secs: 600 }
        ]
    );
    power.set_mode(Some(1), false);
    assert_eq!(
        power.notice_activity_for_blanking(Some(600), true, &outputs),
        vec![PowerStep::StopTimer],
        "something keeps the session awake"
    );
    assert!(!power.output_powered(1));
    assert_eq!(power.notice_activity_for_blanking(None, false, &outputs), vec![]);
    assert_eq!(power.blank_for_idle(true, &outputs), vec![]);
    assert_eq!(blank_after(Some(0)), None);
    assert_eq!(blank_after(Some(5)), Some(5));
}

#[test]
fn an_output_has_one_controller() {
    let mut power = PowerState::new();
    assert_eq!(power.get_output_power(7, None), (false, vec![PowerStep::Failed { resource: 7 }]));
    assert_eq!(
        power.get_output_power(8, Some(1)),
        (true, vec![PowerStep::Mode { resource: 8, on: true }])
    );
    assert_eq!(
        power.get_output_power(9, Some(1)),
        (false, vec![PowerStep::Failed { resource: 9 }])
    );
    assert_eq!(
        power.set_mode(Some(1), false),
        vec![
            PowerStep::Connector { output: 1, on: false },
            PowerStep::Mode { resource: 8, on: false }
        ]
    );
    assert_eq!(power.set_mode(Some(1), false), vec![], "it is off already");
    assert_eq!(power.set_mode(None, true), vec![]);
    power.destroyed(8);
    assert!(power.get_output_power(9, Some(1)).0);
}

#[test]
fn a_lock_is_confirmed_when_it_is_drawn() {
    let mut lock = LockState::new();
    assert!(!lock.is_locked());
    assert_eq!(lock.after_render(), None);
    lock.begin(42);
    assert!(lock.is_locked());
    let dp1 = "DP-1".to_string();
    let size = lock.add_surface(dp1.clone(), Some(Size { w: 2560, h: 1440 }), 2, 7);
    assert_eq!(size, (1280, 720));
    assert_eq!(lock.add_surface("DP-2".to_string(), None, 1, 8), (0, 0));
    assert_eq!(lock.after_render(), Some(42));
    assert_eq!(lock.after_render(), None, "it is confirmed once");
    assert_eq!(lock.surface_for(&dp1), Some(7));
    assert!(matches!(lock.focus_lock_surface(), Some(7) | Some(8)));
    let geometry = Rect::new(Point { x: 2560, y: 0 }, Size { w: 2560, h: 1440 });
    let at = Spot { x: 2570 * 256, y: 5 * 256 };
    assert_eq!(
        lock.surface_under(Some((&dp1, geometry)), at),
        Some((7, Spot { x: 10 * 256, y: 5 * 256 }))
    );
    assert_eq!(lock.surface_under(None, at), None);
    lock.clear();
    assert!(!lock.is_locked() && lock.surface_for(&dp1).is_none());
    assert_eq!(lock.focus_lock_surface(), None);
}

#[test]
fn a_capture_is_clipped_to_its_output() {
    let mode = Some(Size { w: 1920, h: 1080 });
    let rect = |x, y, w, h| Rect::new(Point { x, y }, Size { w, h });
    let region = |requested| capture_region(Some(1), mode, requested).unwrap().region;
    assert_eq!(region(None), rect(0, 0, 1920, 1080));
    assert_eq!(region(Some(rect(1900, 1000, 100, 100))), rect(1900, 1000, 20, 80));
    assert_eq!(region(Some(rect(5000, 0, 10, 10))), rect(0, 0, 1920, 1080));
    assert_eq!(capture_region(None, mode, None), None);
    assert_eq!(capture_region(Some(1), None, None), None);
    let offer = offer_buffer(3, rect(0, 0, 1920, 1080));
    assert_eq!((offer.width, offer.height, offer.stride, offer.done), (1920, 1080, 7680, true));
    assert!(!offer_buffer(2, rect(0, 0, 1, 1)).done);
    assert_eq!(capture_transform(Some("0"), Transform::Flipped), Transform::Normal);
    assert_eq!(capture_transform(Some("1"), Transform::Normal), Transform::Flipped180);
    assert_eq!(capture_transform(None, Transform::Normal), Transform::Normal);
    assert_eq!(capture_transform(Some("2"), Transform::Flipped), Transform::Flipped);
}

#[test]
fn a_capture_waits_for_the_renderer() {
    let mut captures = Captures::new();
    let capture = capture_region(Some(1), Some(Size { w: 8, h: 4 }), None);
    let data = FrameData { capture, overlay_cursor: true };
    assert!(captures.copy(5, &data, 50, true));
    assert!(captures.copy(6, &data, 60, false));
    assert!(!captures.copy(7, &FrameData { capture: None, overlay_cursor: false }, 70, false));
    captures.destroyed(6);
    let pending = captures.take_pending();
    assert_eq!(pending.len(), 1);
    assert_eq!((pending[0].frame, pending[0].buffer), (5, 50));
    assert!(captures.take_pending().is_empty());
    let ready = FrameEvent::Ready { secs_high: 1, secs_low: 2, nanos: 3 };
    assert_eq!(
        answer(&pending[0], 3, true, 0x1_0000_0002, 3),
        vec![FrameEvent::Flags, FrameEvent::Damage { width: 8, height: 4 }, ready]
    );
    assert_eq!(
        answer(&pending[0], 1, true, 0x1_0000_0002, 3),
        vec![FrameEvent::Flags, ready],
        "the event came with a later version"
    );
    assert_eq!(answer(&pending[0], 3, false, 0, 0), vec![FrameEvent::Failed]);
    let size = Size { w: 8, h: 4 };
    assert_eq!(copy_length(true, 128, 200, size), Ok(128));
    assert_eq!(copy_length(true, 127, 200, size), Err(CopyError::TooSmall));
    assert_eq!(copy_length(true, 128, 100, size), Err(CopyError::TooSmall));
    assert_eq!(copy_length(false, 128, 128, size), Err(CopyError::Format));
}

#[test]
fn a_session_hears_of_its_size_when_it_changes() {
    let mut state = ImageCaptureState::new();
    let size = Size { w: 100, h: 50 };
    state.new_session(1, Some(size));
    state.new_session(2, Some(size));
    state.new_session(3, None);
    let wider = Size { w: 200, h: 50 };
    let updates = state.refresh_image_capture(&[Some(size), Some(wider), None]);
    assert_eq!(updates, vec![(2, wider)]);
    assert_eq!(state.sessions.len(), 2, "the third has nothing left to capture");
    assert_eq!(state.refresh_image_capture(&[Some(size), Some(wider)]), vec![]);
    state.session_destroyed(1);
    assert_eq!(state.sessions.len(), 1);
    assert_eq!(capture_size(Some(Size { w: 0, h: 5 })), None);
    assert_eq!(capture_target(Some(Some(4)), Some(9)), Some(Target::Output(4)));
    assert_eq!(capture_target(Some(None), Some(9)), None);
    assert_eq!(capture_target(None, Some(9)), Some(Target::Window(9)));
    assert!(state.frame(5, Some(Target::Window(9)), false));
    assert!(!state.frame(6, None, false));
    assert!(state.frame(7, Some(Target::Output(4)), true));
    state.frame_aborted(5);
    let pending = state.take_pending();
    assert_eq!(pending.len(), 1);
    assert_eq!(pending[0].frame, 7);
    assert!(state.take_pending().is_empty());
}

#[test]
fn formats_are_grouped_in_the_order_of_preference() {
    let format = |code, modifier| Format { code, modifier };
    let grouped = dmabuf_constraints(&[
        format(2, 10),
        format(1, 10),
        format(2, 11),
        format(1, 12),
        format(2, 12),
    ]);
    let shape: Vec<(u32, Vec<u64>)> =
        grouped.into_iter().map(|g| (g.code, g.modifiers)).collect();
    assert_eq!(shape, vec![(2, vec![10, 11, 12]), (1, vec![10, 12])]);
}

//! Switching, creating and removing desks, and what is to be saved afterwards.
use vstd::prelude::*;

use crate::state::Desk;

verus! {

/// What is to be done, in order.
#[derive(Debug, Clone, Copy, PartialEq, Eq)]
pub enum DeskStep {
    /// Show another desk.
    SwitchTo(Desk),
    /// Give the topmost window the keyboard.
    FocusTopmost,
    /// The desks are to be saved.
    MarkDirty,
    /// Tell the clients that watch the desks.
    DesksChanged,
    Redraw,
}

/// Switches to a desk. The windows that come back go where they were, so none is moved back onto
/// a screen.
pub open spec fn switching(id: Desk) -> Seq<DeskStep> {
    seq![
        DeskStep::SwitchTo(id),
        DeskStep::FocusTopmost,
        DeskStep::MarkDirty,
        DeskStep::DesksChanged,
        DeskStep::Redraw,
    ]
}

/// What switching to a desk asks.
pub fn switch_desk(id: Desk) -> (steps: Vec<DeskStep>)
    ensures
        steps@ == switching(id),
{
    let mut steps: Vec<DeskStep> = Vec::new();
    steps.push(DeskStep::SwitchTo(id));
    steps.push(DeskStep::FocusTopmost);
    steps.push(DeskStep::MarkDirty);
    steps.push(DeskStep::DesksChanged);
    steps.push(DeskStep::Redraw);
    assert(steps@ =~= switching(id));
    steps
}

/// What switching to the desk at an index of the order asks: nothing where there is none.
pub fn switch_desk_index(order: &[Desk], index: usize) -> (steps: Vec<DeskStep>)
    ensures
        steps@ == if index < order@.len() {
            switching(order@[index as int])
        } else {
            Seq::empty()
        },
{
    if index < order.len() {
        switch_desk(order[index])
    } else {
        Vec::new()
    }
}

/// What a new desk asks; it is not switched to.
pub fn create_desk() -> (steps: Vec<DeskStep>)
    ensures
        steps@ == seq![DeskStep::MarkDirty, DeskStep::DesksChanged],
{
    let mut steps: Vec<DeskStep> = Vec::new();
    steps.push(DeskStep::MarkDirty);
    steps.push(DeskStep::DesksChanged);
    steps
}

/// What the removal of a desk asks: nothing where it was not removed, as the last one is not.
pub fn remove_desk(deleted: bool) -> (steps: Vec<DeskStep>)
    ensures
        steps@ == if deleted {
            seq![
                DeskStep::FocusTopmost,
                DeskStep::MarkDirty,
                DeskStep::DesksChanged,
                DeskStep::Redraw,
            ]
        } else {
            Seq::empty()
        },
{
    let mut steps: Vec<DeskStep> = Vec::new();
    if deleted {
        steps.push(DeskStep::FocusTopmost);
        steps.push(DeskStep::MarkDirty);
        steps.push(DeskStep::DesksChanged);
        steps.push(DeskStep::Redraw);
    }
    steps
}

/// What has changed since it was last saved.
#[derive(Debug, Clone, Copy, PartialEq, Eq)]
pub struct Unsaved {
    pub outputs: bool,
    pub desks: bool,
}

impl Unsaved {
    /// Whether the display arrangement is to be saved now; once asked, it is not until it changes
    /// again.
    pub fn save_display_state_if_dirty(&mut self) -> (save: bool)
        ensures
            save == old(self).outputs,
            *final(self) == (Unsaved { outputs: false, ..*old(self) }),
    {
        let save = self.outputs;
        self.outputs = false;
        save
    }

    /// Whether the desks are to be saved now; once asked, they are not until they change again.
    pub fn save_desks_if_dirty(&mut self) -> (save: bool)
        ensures
            save == old(self).desks,
            *final(self) == (Unsaved { desks: false, ..*old(self) }),
    {
        let save = self.desks;
        self.desks = false;
        save
    }
}

/// The desk that is switched to is the one at the index, and only that one; the keyboard goes to
/// its topmost window once it is shown. Where there is no such desk, nothing is asked.
pub proof fn the_desk_at_the_index_is_switched_to(
    order: &[Desk],
    index: usize,
    steps: Vec<DeskStep>,
)
    requires
        call_ensures(switch_desk_index, (order, index), steps),
    ensures
        index >= order@.len() ==> steps@.len() == 0,
        index < order@.len() ==> {
            &&& steps@.len() > 1
            &&& steps@[0] == DeskStep::SwitchTo(order@[index as int])
            &&& steps@[1] is FocusTopmost
            &&& steps@.contains(DeskStep::MarkDirty) && steps@.contains(DeskStep::DesksChanged)
            &&& forall|k: int| 0 < k < steps@.len() ==> !((#[trigger] steps@[k]) is SwitchTo)
        },
{
    if index < order@.len() {
        assert(steps@[2] is MarkDirty);
        assert(steps@[3] is DesksChanged);
    }
}

/// A desk that was removed is saved and made known and leaves the keyboard to another window; one
/// that was not asks for nothing. No desk is switched to for either.
pub proof fn a_removed_desk_is_made_known(deleted: bool, steps: Vec<DeskStep>)
    requires
        call_ensures(remove_desk, (deleted,), steps),
    ensures
        steps@.contains(DeskStep::MarkDirty) == deleted,
        steps@.contains(DeskStep::DesksChanged) == deleted,
        steps@.contains(DeskStep::FocusTopmost) == deleted,
        forall|k: int| 0 <= k < steps@.len() ==> !((#[trigger] steps@[k]) is SwitchTo),
{
    if deleted {
        assert(steps@[0] is FocusTopmost);
        assert(steps@[1] is MarkDirty);
        assert(steps@[2] is DesksChanged);
    }
}

} // verus!

//! The standard way to read back what the compositor shows: what a capture needs of a buffer, and
//! which sessions still have something to capture.
use vstd::prelude::*;

use crate::geometry::Size;

verus! {

/// What a session captures.
#[derive(Debug, Clone, Copy, PartialEq, Eq)]
pub enum Target {
    Output(u64),
    Window(u64),
}

/// A session, and the buffer size its client was last told.
#[derive(Debug, Clone, Copy, PartialEq, Eq)]
pub struct Session {
    pub id: u64,
    pub size: Option<Size>,
}

/// A frame waiting to be filled, with what it captures resolved when it was asked for.
#[derive(Debug, Clone, Copy, PartialEq, Eq)]
pub struct Pending {
    pub frame: u64,
    pub target: Target,
    pub draw_cursor: bool,
}

pub struct ImageCaptureState {
    pub sessions: Vec<Session>,
    pub pending: Vec<Pending>,
}

/// What a source object names: an output, a window, or neither; nothing where it is gone.
pub fn capture_target(output: Option<Option<u64>>, window: Option<u64>) -> (target: Option<Target>)
    ensures
        target == match output {
            Some(Some(output)) => Some(Target::Output(output)),
            Some(None) => None,
            None => match window {
                Some(window) => Some(Target::Window(window)),
                None => None,
            },
        },
{
    match output {
        Some(Some(output)) => Some(Target::Output(output)),
        Some(None) => None,
        None => match window {
            Some(window) => Some(Target::Window(window)),
            None => None,
        },
    }
}

/// The buffer size a target needs: none where it has no size.
pub open spec fn needed(size: Option<Size>) -> Option<Size> {
    match size {
        Some(s) => if s.w > 0 && s.h > 0 {
            Some(s)
        } else {
            None
        },
        None => None,
    }
}

/// The buffer size a target needs, `size` being what it covers in pixels.
pub fn capture_size(size: Option<Size>) -> (need: Option<Size>)
    ensures
        need == needed(size),
{
    match size {
        Some(s) => {
            if s.w > 0 && s.h > 0 {
                Some(s)
            } else {
                None
            }
        },
        None => None,
    }
}

/// The sessions that still have something to capture, each with the size it is told.
pub open spec fn surviving(sessions: Seq<Session>, sizes: Seq<Option<Size>>) -> Seq<Session>
    decreases sessions.len(),
{
    if sessions.len() == 0 || sizes.len() != sessions.len() {
        Seq::empty()
    } else {
        let before = surviving(sessions.drop_last(), sizes.drop_last());
        match needed(sizes.last()) {
            Some(size) => before.push(Session { id: sessions.last().id, size: Some(size) }),
            None => before,
        }
    }
}

/// The sessions whose clients are told a new size, and the size.
pub open spec fn resized(sessions: Seq<Session>, sizes: Seq<Option<Size>>) -> Seq<(u64, Size)>
    decreases sessions.len(),
{
    if sessions.len() == 0 || sizes.len() != sessions.len() {
        Seq::empty()
    } else {
        let before = resized(sessions.drop_last(), sizes.drop_last());
        match needed(sizes.last()) {
            Some(size) => if sessions.last().size != Some(size) {
                before.push((sessions.last().id, size))
            } else {
                before
            },
            None => before,
        }
    }
}

fn is_size(told: Option<Size>, size: Size) -> (r: bool)
    ensures
        r == (told == Some(size)),
{
    match told {
        Some(told) => told == size,
        None => false,
    }
}

/// The frames that wait, without those of a frame.
pub open spec fn frames_without(list: Seq<Pending>, frame: u64) -> Seq<Pending>
    decreases list.len(),
{
    if list.len() == 0 {
        list
    } else if list.last().frame == frame {
        frames_without(list.drop_last(), frame)
    } else {
        frames_without(list.drop_last(), frame).push(list.last())
    }
}

/// The sessions without one.
pub open spec fn sessions_without(list: Seq<Session>, session: u64) -> Seq<Session>
    decreases list.len(),
{
    if list.len() == 0 {
        list
    } else if list.last().id == session {
        sessions_without(list.drop_last(), session)
    } else {
        sessions_without(list.drop_last(), session).push(list.last())
    }
}

impl ImageCaptureState {
    pub fn new() -> (state: Self)
        ensures
            state.sessions@ == Seq::<Session>::empty(),
            state.pending@ == Seq::<Pending>::empty(),
    {
        ImageCaptureState { sessions: Vec::new(), pending: Vec::new() }
    }

    /// Keeps every session's advertised buffer size in step with its source. `sizes` holds what
    /// each session's target covers now, or nothing where it is gone. A client is told its size
    /// only when that changed; a session with nothing left to capture is dropped.
    pub fn refresh_image_capture(&mut self, sizes: &[Option<Size>]) -> (updates: Vec<(u64, Size)>)
        requires
            sizes@.len() == old(self).sessions@.len(),
        ensures
            updates@ == resized(old(self).sessions@, sizes@),
            final(self).sessions@ == surviving(old(self).sessions@, sizes@),
            final(self).pending == old(self).pending,
    {
        let mut updates: Vec<(u64, Size)> = Vec::new();
        let mut rest: Vec<Session> = Vec::new();
        let mut i: usize = 0;
        assert(self.sessions@.take(0) =~= Seq::empty());
        while i < self.sessions.len()
            invariant
                i <= self.sessions@.len(),
                sizes@.len() == self.sessions@.len(),
                *self == *old(self),
                updates@ == resized(self.sessions@.take(i as int), sizes@.take(i as int)),
                rest@ == surviving(self.sessions@.take(i as int), sizes@.take(i as int)),
            decreases self.sessions.len() - i,
        {
            let session = self.sessions[i];
            let size = capture_size(sizes[i]);
            i += 1;
            assert(self.sessions@.take(i as int).drop_last() =~= self.sessions@.take(i - 1));
            assert(sizes@.take(i as int).drop_last() =~= sizes@.take(i - 1));
            if let Some(size) = size {
                if !is_size(session.size, size) {
                    updates.push((session.id, size));
                }
                rest.push(Session { id: session.id, size: Some(size) });
            }
        }
        assert(self.sessions@.take(self.sessions@.len() as int) =~= self.sessions@);
        assert(sizes@.take(sizes@.len() as int) =~= sizes@);
        self.sessions = rest;
        updates
    }

    /// A client starts a session.
    pub fn new_session(&mut self, id: u64, size: Option<Size>)
        ensures
            final(self).sessions@ == old(self).sessions@.push(Session { id, size }),
            final(self).pending == old(self).pending,
    {
        self.sessions.push(Session { id, size });
    }

    /// A client asks for a frame. Says whether it waits now; it has failed where there is nothing
    /// left to capture.
    pub fn frame(&mut self, frame: u64, target: Option<Target>, draw_cursor: bool) -> (queued: bool)
        ensures
            final(self).sessions == old(self).sessions,
            match target {
                Some(target) => queued && final(self).pending@ == old(self).pending@.push(
                    Pending { frame, target, draw_cursor },
                ),
                None => !queued && final(self).pending@ == old(self).pending@,
            },
    {
        match target {
            Some(target) => {
                self.pending.push(Pending { frame, target, draw_cursor });
                true
            },
            None => false,
        }
    }

    /// A client threw a frame away: its buffer is not to be filled.
    pub fn frame_aborted(&mut self, frame: u64)
        ensures
            final(self).sessions == old(self).sessions,
            final(self).pending@ == frames_without(old(self).pending@, frame),
    {
        let mut rest: Vec<Pending> = Vec::new();
        let mut i: usize = 0;
        assert(self.pending@.take(0) =~= Seq::empty());
        while i < self.pending.len()
            invariant
                i <= self.pending@.len(),
                *self == *old(self),
                rest@ == frames_without(self.pending@.take(i as int), frame),
            decreases self.pending.len() - i,
        {
            let waiting = self.pending[i];
            i += 1;
            assert(self.pending@.take(i as int).drop_last() =~= self.pending@.take(i - 1));
            if waiting.frame != frame {
                rest.push(waiting);
            }
        }
        assert(self.pending@.take(self.pending@.len() as int) =~= self.pending@);
        self.pending = rest;
    }

    /// A session is gone.
    pub fn session_destroyed(&mut self, session: u64)
        ensures
            final(self).pending == old(self).pending,
            final(self).sessions@ == sessions_without(old(self).sessions@, session),
    {
        let mut rest: Vec<Session> = Vec::new();
        let mut i: usize = 0;
        assert(self.sessions@.take(0) =~= Seq::empty());
        while i < self.sessions.len()
            invariant
                i <= self.sessions@.len(),
                *self == *old(self),
                rest@ == sessions_without(self.sessions@.take(i as int), session),
            decreases self.sessions.len() - i,
        {
            let held = self.sessions[i];
            i += 1;
            assert(self.sessions@.take(i as int).drop_last() =~= self.sessions@.take(i - 1));
            if held.id != session {
                rest.push(held);
            }
        }
        assert(self.sessions@.take(self.sessions@.len() as int) =~= self.sessions@);
        self.sessions = rest;
    }

    /// Every frame that waits, in the order they came; none waits afterwards.
    pub fn take_pending(&mut self) -> (pending: Vec<Pending>)
        ensures
            pending@ == old(self).pending@,
            final(self).pending@ == Seq::<Pending>::empty(),
            final(self).sessions == old(self).sessions,
    {
        let mut pending: Vec<Pending> = Vec::new();
        std::mem::swap(&mut pending, &mut self.pending);
        pending
    }
}

/// A client that was told its size is not told it again.
pub proof fn a_told_size_is_not_repeated(sessions: Seq<Session>, sizes: Seq<Option<Size>>)
    requires
        sizes.len() == sessions.len(),
        forall|i: int| 0 <= i < sizes.len() ==> needed(#[trigger] sizes[i]) is Some,
    ensures
        surviving(sessions, sizes).len() == sessions.len(),
        resized(surviving(sessions, sizes), sizes) == Seq::<(u64, Size)>::empty(),
    decreases sessions.len(),
{
    if sessions.len() > 0 {
        let fewer = sessions.drop_last();
        let less = sizes.drop_last();
        assert forall|i: int| 0 <= i < less.len() implies needed(#[trigger] less[i]) is Some by {
            assert(less[i] == sizes[i]);
        }
        assert(sizes[sizes.len() - 1] == sizes.last());
        a_told_size_is_not_repeated(fewer, less);
        let before = surviving(fewer, less);
        assert(surviving(sessions, sizes).drop_last() =~= before);
    }
}

/// A format that the renderer can draw into: a pixel code and one of its modifiers.
#[derive(Debug, Clone, Copy, PartialEq, Eq)]
pub struct Format {
    pub code: u32,
    pub modifier: u64,
}

/// A pixel code with all of its modifiers.
pub struct Grouped {
    pub code: u32,
    pub modifiers: Vec<u64>,
}

/// The codes of formats, each once, in the order in which they first come.
pub open spec fn codes(formats: Seq<Format>) -> Seq<u32>
    decreases formats.len(),
{
    if formats.len() == 0 {
        Seq::empty()
    } else {
        let before = codes(formats.drop_last());
        if before.contains(formats.last().code) {
            before
        } else {
            before.push(formats.last().code)
        }
    }
}

/// The modifiers of a code, in the order in which they come.
pub open spec fn modifiers_of(formats: Seq<Format>, code: u32) -> Seq<u64>
    decreases formats.len(),
{
    if formats.len() == 0 {
        Seq::empty()
    } else {
        let before = modifiers_of(formats.drop_last(), code);
        if formats.last().code == code {
            before.push(formats.last().modifier)
        } else {
            before
        }
    }
}

/// Whether formats are grouped by code, in their order.
pub open spec fn groups(grouped: Seq<Grouped>, formats: Seq<Format>) -> bool {
    &&& grouped.len() == codes(formats).len()
    &&& forall|i: int|
        0 <= i < grouped.len() ==> (#[trigger] grouped[i]).code == codes(formats)[i]
            && grouped[i].modifiers@ == modifiers_of(formats, grouped[i].code)
}

proof fn codes_differ(formats: Seq<Format>)
    ensures
        codes(formats).no_duplicates(),
        forall|code: u32| #[trigger]
            codes(formats).contains(code) || modifiers_of(formats, code) == Seq::<u64>::empty(),
    decreases formats.len(),
{
    if formats.len() > 0 {
        let fewer = formats.drop_last();
        codes_differ(fewer);
        let before = codes(fewer);
        let last = formats.last().code;
        assert forall|code: u32| #[trigger]
            codes(formats).contains(code) || modifiers_of(formats, code)
                == Seq::<u64>::empty() by {
            assert(before.contains(code) || modifiers_of(fewer, code) == Seq::<u64>::empty());
            if !before.contains(last) {
                let all = before.push(last);
                assert(all[all.len() - 1] == last);
                if before.contains(code) {
                    let i = before.index_of(code);
                    assert(all[i] == code);
                }
            }
        }
    }
}

/// The formats that can be drawn into, one entry for a code with all of its modifiers, in the
/// renderer's own order, which is its preference.
pub fn dmabuf_constraints(formats: &[Format]) -> (grouped: Vec<Grouped>)
    ensures
        groups(grouped@, formats@),
{
    let mut grouped: Vec<Grouped> = Vec::new();
    let mut i: usize = 0;
    assert(formats@.take(0) =~= Seq::empty());
    while i < formats.len()
        invariant
            i <= formats@.len(),
            groups(grouped@, formats@.take(i as int)),
        decreases formats.len() - i,
    {
        let format = formats[i];
        let ghost seen = formats@.take(i as int);
        let ghost list = codes(seen);
        i += 1;
        let ghost now = formats@.take(i as int);
        assert(now.drop_last() =~= seen);
        proof {
            codes_differ(seen);
        }
        let mut at: Option<usize> = None;
        let mut k: usize = 0;
        while k < grouped.len() && at.is_none()
            invariant
                k <= grouped@.len(),
                groups(grouped@, seen),
                list == codes(seen),
                match at {
                    Some(a) => a < grouped@.len() && grouped@[a as int].code == format.code,
                    None => forall|j: int| 0 <= j < k ==> list[j] != format.code,
                },
            decreases grouped.len() - k,
        {
            if grouped[k].code == format.code {
                at = Some(k);
            }
            k += 1;
        }
        match at {
            Some(a) => {
                assert(list[a as int] == format.code);
                assert(list.contains(format.code));
                let ghost before = grouped@;
                grouped[a].modifiers.push(format.modifier);
                assert(groups(grouped@, now)) by {
                    assert forall|j: int| 0 <= j < grouped@.len() implies (
                    #[trigger] grouped@[j]).code == codes(now)[j] && grouped@[j].modifiers@
                        == modifiers_of(now, grouped@[j].code) by {
                        if j != a {
                            assert(grouped@[j] == before[j]);
                            assert(list[j] != list[a as int]);
                        }
                    }
                }
            },
            None => {
                assert(!list.contains(format.code));
                let ghost before = grouped@;
                let mut modifiers: Vec<u64> = Vec::new();
                modifiers.push(format.modifier);
                grouped.push(Grouped { code: format.code, modifiers });
                assert(groups(grouped@, now)) by {
                    assert(modifiers_of(seen, format.code) == Seq::<u64>::empty());
                    assert forall|j: int| 0 <= j < grouped@.len() implies (
                    #[trigger] grouped@[j]).code == codes(now)[j] && grouped@[j].modifiers@
                        == modifiers_of(now, grouped@[j].code) by {
                        if j < before.len() {
                            assert(grouped@[j] == before[j]);
                            assert(list[j] != format.code) by {
                                if list[j] == format.code {
                                    assert(list.contains(format.code));
                                }
                            }
                        }
                    }
                }
            },
        }
    }
    assert(formats@.take(formats@.len() as int) =~= formats@);
    grouped
}

/// Every format is in a group, and each code has one.
pub proof fn grouping_keeps_every_format(formats: Seq<Format>, i: int)
    requires
        0 <= i < formats.len(),
    ensures
        codes(formats).no_duplicates(),
        codes(formats).contains(formats[i].code),
        modifiers_of(formats, formats[i].code).contains(formats[i].modifier),
    decreases formats.len(),
{
    codes_differ(formats);
    let fewer = formats.drop_last();
    let code = formats[i].code;
    let all = modifiers_of(formats, code);
    let before = modifiers_of(fewer, code);
    if i < fewer.len() {
        grouping_keeps_every_format(fewer, i);
        let at = before.index_of(formats[i].modifier);
        assert(all[at] == formats[i].modifier);
    } else {
        assert(all[all.len() - 1] == formats[i].modifier);
    }
    if !codes(formats).contains(code) {
        assert(all == Seq::<u64>::empty());
    }
}

/// A session goes on exactly where what it captures still has a size, which its client then knows;
/// the client is told a size where that is another than the one it knew, and of no other.
pub proof fn a_session_goes_on_while_it_has_a_size(
    sessions: Seq<Session>,
    sizes: Seq<Option<Size>>,
    i: int,
)
    requires
        sizes.len() == sessions.len(),
        0 <= i < sessions.len(),
        forall|j: int| 0 <= j < sessions.len() && j != i ==> (#[trigger] sessions[j]).id
            != sessions[i].id,
    ensures
        ({
            let there = sizes[i] is Some && sizes[i]->0.w > 0 && sizes[i]->0.h > 0;
            let (id, size) = (sessions[i].id, sizes[i]);
            &&& there ==> surviving(sessions, sizes).contains(Session { id, size })
            &&& forall|k: int|
                0 <= k < surviving(sessions, sizes).len() && (#[trigger] surviving(
                    sessions,
                    sizes,
                )[k]).id == id ==> there && surviving(sessions, sizes)[k].size == size
            &&& there && sessions[i].size != size ==> resized(sessions, sizes).contains(
                (id, size->0),
            )
            &&& forall|k: int|
                0 <= k < resized(sessions, sizes).len() && (#[trigger] resized(sessions, sizes)[k]).0
                    == id ==> there && sessions[i].size != size && resized(sessions, sizes)[k].1
                    == size->0
        }),
    decreases sessions.len(),
{
    let fewer = sessions.drop_last();
    let less = sizes.drop_last();
    let (id, size) = (sessions[i].id, sizes[i]);
    let before = surviving(fewer, less);
    let all = surviving(sessions, sizes);
    let told = resized(fewer, less);
    let tells = resized(sessions, sizes);
    assert(sizes[sizes.len() - 1] == sizes.last());
    assert(sessions[sessions.len() - 1] == sessions.last());
    if i < fewer.len() {
        assert forall|j: int| 0 <= j < fewer.len() && j != i implies (#[trigger] fewer[j]).id
            != fewer[i].id by {
            assert(sessions[j].id != sessions[i].id);
        }
        a_session_goes_on_while_it_has_a_size(fewer, less, i);
        if before.contains(Session { id, size }) {
            let k = before.index_of(Session { id, size });
            assert(all[k] == before[k]);
        }
        if told.contains((id, size->0)) {
            let k = told.index_of((id, size->0));
            assert(tells[k] == told[k]);
        }
    } else {
        the_others_are_of_other_sessions(fewer, less, id);
        if needed(size) is Some {
            assert(all[all.len() - 1] == (Session { id, size }));
            if sessions[i].size != size {
                assert(tells[tells.len() - 1] == (id, size->0));
            }
        }
    }
    assert forall|k: int| 0 <= k < before.len() implies #[trigger] all[k] == before[k] by {
    }
    assert forall|k: int| 0 <= k < told.len() implies #[trigger] tells[k] == told[k] by {
    }
}

proof fn the_others_are_of_other_sessions(
    sessions: Seq<Session>,
    sizes: Seq<Option<Size>>,
    id: u64,
)
    requires
        forall|j: int| 0 <= j < sessions.len() ==> (#[trigger] sessions[j]).id != id,
    ensures
        forall|k: int|
            0 <= k < surviving(sessions, sizes).len() ==> (#[trigger] surviving(sessions, sizes)[k]).id
                != id,
        forall|k: int|
            0 <= k < resized(sessions, sizes).len() ==> (#[trigger] resized(sessions, sizes)[k]).0
                != id,
    decreases sessions.len(),
{
    if sessions.len() > 0 && sizes.len() == sessions.len() {
        let fewer = sessions.drop_last();
        assert forall|j: int| 0 <= j < fewer.len() implies (#[trigger] fewer[j]).id != id by {
            assert(sessions[j].id != id);
        }
        assert(sessions[sessions.len() - 1].id != id);
        let less = sizes.drop_last();
        the_others_are_of_other_sessions(fewer, less, id);
        let told = resized(fewer, less);
        let tells = resized(sessions, sizes);
        assert forall|k: int| 0 <= k < tells.len() implies (#[trigger] tells[k]).0 != id by {
            if k < told.len() {
                assert(tells[k] == told[k]);
            }
        }
    }
}

/// What is captured is the output where one is named, which has to be there, and the window
/// otherwise.
pub proof fn a_source_is_what_it_names(
    output: Option<Option<u64>>,
    window: Option<u64>,
    target: Option<Target>,
)
    requires
        call_ensures(capture_target, (output, window), target),
    ensures
        target matches Some(Target::Output(id)) ==> output == Some(Some(id)),
        target matches Some(Target::Window(id)) ==> output is None && window == Some(id),
        target is None <==> output == Some(None::<u64>) || output is None && window is None,
{
}

/// A frame that was given up waits no longer, and every other one still does.
pub proof fn a_frame_that_was_given_up_is_gone(list: Seq<Pending>, frame: u64)
    ensures
        forall|i: int|
            0 <= i < frames_without(list, frame).len() ==> (#[trigger] frames_without(
                list,
                frame,
            )[i]).frame != frame && list.contains(frames_without(list, frame)[i]),
        forall|i: int|
            0 <= i < list.len() && (#[trigger] list[i]).frame != frame ==> frames_without(
                list,
                frame,
            ).contains(list[i]),
    decreases list.len(),
{
    if list.len() > 0 {
        let fewer = list.drop_last();
        a_frame_that_was_given_up_is_gone(fewer, frame);
        let rest = frames_without(list, frame);
        let before = frames_without(fewer, frame);
        assert forall|i: int| 0 <= i < rest.len() implies (#[trigger] rest[i]).frame != frame
            && list.contains(rest[i]) by {
            if i < before.len() {
                assert(rest[i] == before[i]);
                let k = fewer.index_of(before[i]);
                assert(list[k] == before[i]);
            } else {
                assert(list[list.len() - 1] == rest[i]);
            }
        }
        assert forall|i: int| 0 <= i < list.len() && (#[trigger] list[i]).frame
            != frame implies rest.contains(list[i]) by {
            if i < fewer.len() {
                assert(fewer[i] == list[i]);
                let k = before.index_of(list[i]);
                assert(rest[k] == list[i]);
            } else {
                assert(rest[rest.len() - 1] == list[i]);
            }
        }
    }
}

/// A session that ended is gone, and every other one goes on.
pub proof fn a_session_that_ended_is_gone(list: Seq<Session>, session: u64)
    ensures
        forall|i: int|
            0 <= i < sessions_without(list, session).len() ==> (#[trigger] sessions_without(
                list,
                session,
            )[i]).id != session && list.contains(sessions_without(list, session)[i]),
        forall|i: int|
            0 <= i < list.len() && (#[trigger] list[i]).id != session ==> sessions_without(
                list,
                session,
            ).contains(list[i]),
    decreases list.len(),
{
    if list.len() > 0 {
        let fewer = list.drop_last();
        a_session_that_ended_is_gone(fewer, session);
        let rest = sessions_without(list, session);
        let before = sessions_without(fewer, session);
        assert forall|i: int| 0 <= i < rest.len() implies (#[trigger] rest[i]).id != session
            && list.contains(rest[i]) by {
            if i < before.len() {
                assert(rest[i] == before[i]);
                let k = fewer.index_of(before[i]);
                assert(list[k] == before[i]);
            } else {
                assert(list[list.len() - 1] == rest[i]);
            }
        }
        assert forall|i: int| 0 <= i < list.len() && (#[trigger] list[i]).id
            != session implies rest.contains(list[i]) by {
            if i < fewer.len() {
                assert(fewer[i] == list[i]);
                let k = before.index_of(list[i]);
                assert(rest[k] == list[i]);
            } else {
                assert(rest[rest.len() - 1] == list[i]);
            }
        }
    }
}

} // verus!

//! Letting a client read back what an output shows: which area it gets, what buffer it is told to
//! allocate, and what it is answered.
use vstd::prelude::*;

use crate::geometry::{Point, Rect, Size};
use crate::outputs::Transform;
use crate::scan::same_text;

verus! {

/// The global itself, which holds nothing.
pub struct ScreencopyState;

/// What a frame captures, recorded when it is created; nothing where its output went away.
#[derive(Debug, Clone, Copy, PartialEq, Eq)]
pub struct FrameData {
    pub capture: Option<Capture>,
    pub overlay_cursor: bool,
}

/// An area of an output, in the output's own pixels.
#[derive(Debug, Clone, Copy, PartialEq, Eq)]
pub struct Capture {
    pub output: u64,
    pub region: Rect,
}

/// A capture that a client has handed a buffer to, waiting to be filled.
#[derive(Debug, Clone, Copy, PartialEq, Eq)]
pub struct PendingCapture {
    pub frame: u64,
    pub output: u64,
    pub region: Rect,
    pub buffer: u64,
    pub overlay_cursor: bool,
    /// Whether the client asked for what has changed, which is the only case in which it may be
    /// told.
    pub with_damage: bool,
}

/// The way up to render a capture.
pub open spec fn way_up(setting: Option<Seq<char>>, usual: Transform) -> Transform {
    if setting == Some("0"@) {
        Transform::Normal
    } else if setting == Some("1"@) {
        Transform::Flipped180
    } else {
        usual
    }
}

/// Which way up to render a capture before reading it back: what the setting says, or else what
/// is usual.
pub fn capture_transform(setting: Option<&str>, usual: Transform) -> (transform: Transform)
    ensures
        transform == way_up(crate::pidfile::text_of(setting), usual),
{
    proof {
        reveal_strlit("0");
        reveal_strlit("1");
    }
    match setting {
        Some(value) => {
            if same_text(value, "0") {
                Transform::Normal
            } else if same_text(value, "1") {
                assert("1"@ != "0"@) by {
                    assert("1"@[0] != "0"@[0]);
                }
                Transform::Flipped180
            } else {
                usual
            }
        },
        None => usual,
    }
}

/// The whole of an output with a mode.
pub open spec fn whole(mode: Size) -> Rect {
    Rect { loc: Point { x: 0, y: 0 }, size: mode }
}

/// The area that is captured of an output: what was asked for, clipped to the output, or all of
/// it where nothing was asked for or nothing of that is on the output.
pub open spec fn captured(mode: Size, requested: Option<Rect>) -> Rect {
    match requested {
        Some(r) => if r.meets(whole(mode)) {
            r.shared(whole(mode))
        } else {
            whole(mode)
        },
        None => whole(mode),
    }
}

/// The area that is captured of an output; none where the output is gone or has no mode.
pub fn capture_region(output: Option<u64>, mode: Option<Size>, requested: Option<Rect>) -> (capture:
    Option<Capture>)
    ensures
        capture == match (output, mode) {
            (Some(output), Some(mode)) => Some(
                Capture { output, region: captured(mode, requested) },
            ),
            _ => None,
        },
{
    match (output, mode) {
        (Some(output), Some(mode)) => {
            let full = Rect { loc: Point { x: 0, y: 0 }, size: mode };
            let region = match requested {
                Some(r) => match r.intersection(full) {
                    Some(shared) => shared,
                    None => full,
                },
                None => full,
            };
            Some(Capture { output, region })
        },
        _ => None,
    }
}

/// What a client is told of the buffer to allocate.
#[derive(Debug, Clone, Copy, PartialEq, Eq)]
pub struct BufferOffer {
    pub width: u32,
    pub height: u32,
    /// Bytes in a row.
    pub stride: u32,
    /// Whether it is told that this was all.
    pub done: bool,
}

/// What a client is told of the buffer to allocate for an area: four bytes for a pixel.
pub fn offer_buffer(version: u32, region: Rect) -> (offer: BufferOffer)
    requires
        0 <= region.size.w <= 0x3fff_ffff,
        0 <= region.size.h,
    ensures
        offer.width == region.size.w,
        offer.height == region.size.h,
        offer.stride == region.size.w * 4,
        offer.done == (version >= 3),
{
    BufferOffer {
        width: region.size.w as u32,
        height: region.size.h as u32,
        stride: region.size.w as u32 * 4,
        done: version >= 3,
    }
}

/// The captures that wait, without those of a frame.
pub open spec fn captures_without(list: Seq<PendingCapture>, frame: u64) -> Seq<PendingCapture>
    decreases list.len(),
{
    if list.len() == 0 {
        list
    } else if list.last().frame == frame {
        captures_without(list.drop_last(), frame)
    } else {
        captures_without(list.drop_last(), frame).push(list.last())
    }
}

/// The captures that wait for the renderer.
pub struct Captures {
    pub pending: Vec<PendingCapture>,
}

impl Captures {
    pub fn new() -> (captures: Self)
        ensures
            captures.pending@ == Seq::<PendingCapture>::empty(),
    {
        Captures { pending: Vec::new() }
    }

    /// A client hands a buffer over. Says whether the capture waits now; it has failed where its
    /// output went away.
    pub fn copy(&mut self, frame: u64, data: &FrameData, buffer: u64, with_damage: bool) -> (queued:
        bool)
        ensures
            match data.capture {
                Some(capture) => queued && final(self).pending@ == old(self).pending@.push(
                    PendingCapture {
                        frame,
                        output: capture.output,
                        region: capture.region,
                        buffer,
                        overlay_cursor: data.overlay_cursor,
                        with_damage,
                    },
                ),
                None => !queued && final(self).pending@ == old(self).pending@,
            },
    {
        match data.capture {
            Some(capture) => {
                self.pending.push(
                    PendingCapture {
                        frame,
                        output: capture.output,
                        region: capture.region,
                        buffer,
                        overlay_cursor: data.overlay_cursor,
                        with_damage,
                    },
                );
                true
            },
            None => false,
        }
    }

    /// A client threw a frame away: its buffer is not to be filled.
    pub fn destroyed(&mut self, frame: u64)
        ensures
            final(self).pending@ == captures_without(old(self).pending@, frame),
    {
        let mut rest: Vec<PendingCapture> = Vec::new();
        let mut i: usize = 0;
        assert(self.pending@.take(0) =~= Seq::empty());
        while i < self.pending.len()
            invariant
                i <= self.pending@.len(),
                *self == *old(self),
                rest@ == captures_without(self.pending@.take(i as int), frame),
            decreases self.pending.len() - i,
        {
            let capture = self.pending[i];
            i += 1;
            assert(self.pending@.take(i as int).drop_last() =~= self.pending@.take(i - 1));
            if capture.frame != frame {
                rest.push(capture);
            }
        }
        assert(self.pending@.take(self.pending@.len() as int) =~= self.pending@);
        self.pending = rest;
    }

    /// Everything that waits, in the order it came; nothing waits afterwards.
    pub fn take_pending(&mut self) -> (pending: Vec<PendingCapture>)
        ensures
            pending@ == old(self).pending@,
            final(self).pending@ == Seq::<PendingCapture>::empty(),
    {
        let mut pending: Vec<PendingCapture> = Vec::new();
        std::mem::swap(&mut pending, &mut self.pending);
        pending
    }
}

/// What a client is told of its capture.
#[derive(Debug, Clone, Copy, PartialEq, Eq)]
pub enum FrameEvent {
    Flags,
    /// What has changed: all of it.
    Damage { width: u32, height: u32 },
    /// When it was taken, in seconds, in two words, and nanoseconds.
    Ready { secs_high: u32, secs_low: u32, nanos: u32 },
    Failed,
}

/// The events of a capture that was copied, or was not.
pub open spec fn answers(
    capture: PendingCapture,
    version: u32,
    copied: bool,
    secs: u64,
    nanos: u32,
) -> Seq<FrameEvent> {
    if !copied {
        seq![FrameEvent::Failed]
    } else {
        seq![FrameEvent::Flags] + (if capture.with_damage && version >= 2 {
            seq![
                FrameEvent::Damage {
                    width: capture.region.size.w as u32,
                    height: capture.region.size.h as u32,
                },
            ]
        } else {
            Seq::empty()
        }) + seq![
            FrameEvent::Ready {
                secs_high: (secs / 0x1_0000_0000) as u32,
                secs_low: (secs % 0x1_0000_0000) as u32,
                nanos,
            },
        ]
    }
}

/// What a client is told of its capture. What has changed is only told to a client that asked for
/// it and knows the event.
pub fn answer(
    capture: &PendingCapture,
    version: u32,
    copied: bool,
    secs: u64,
    nanos: u32,
) -> (events: Vec<FrameEvent>)
    requires
        capture.region.size.w >= 0,
        capture.region.size.h >= 0,
    ensures
        events@ == answers(*capture, version, copied, secs, nanos),
{
    let mut events: Vec<FrameEvent> = Vec::new();
    if !copied {
        events.push(FrameEvent::Failed);
        return events;
    }
    events.push(FrameEvent::Flags);
    if capture.with_damage && version >= 2 {
        events.push(
            FrameEvent::Damage {
                width: capture.region.size.w as u32,
                height: capture.region.size.h as u32,
            },
        );
    }
    events.push(
        FrameEvent::Ready {
            secs_high: (secs / 0x1_0000_0000) as u32,
            secs_low: (secs % 0x1_0000_0000) as u32,
            nanos,
        },
    );
    assert(events@ =~= answers(*capture, version, copied, secs, nanos));
    events
}

/// Why pixels cannot be copied into a client's buffer.
#[derive(Debug, Clone, Copy, PartialEq, Eq, Structural)]
pub enum CopyError {
    /// The buffer is of a format that is not written.
    Format,
    /// The buffer, or what was read back, is smaller than the capture.
    TooSmall,
}

/// How many bytes of pixels are copied into a client's buffer; an error where it cannot hold
/// them. `known_format` is whether it is one of the two that are written.
pub fn copy_length(known_format: bool, buffer: usize, pixels: usize, size: Size) -> (length: Result<
    usize,
    CopyError,
>)
    requires
        size.w >= 0,
        size.h >= 0,
        size.w * size.h * 4 <= i32::MAX,
    ensures
        length == if !known_format {
            Err::<usize, CopyError>(CopyError::Format)
        } else if buffer < size.w * size.h * 4 || pixels < size.w * size.h * 4 {
            Err::<usize, CopyError>(CopyError::TooSmall)
        } else {
            Ok::<usize, CopyError>((size.w * size.h * 4) as usize)
        },
{
    if !known_format {
        return Err(CopyError::Format);
    }
    assert(0 <= size.w * size.h <= i32::MAX) by (nonlinear_arith)
        requires
            size.w >= 0,
            size.h >= 0,
            size.w * size.h * 4 <= i32::MAX,
    ;
    let expected: usize = (size.w as i64 * size.h as i64 * 4) as usize;
    if buffer < expected || pixels < expected {
        return Err(CopyError::TooSmall);
    }
    Ok(expected)
}

/// What is captured is on the output.
pub proof fn a_capture_is_on_its_output(mode: Size, requested: Option<Rect>, p: Point)
    requires
        captured(mode, requested).holds(p),
    ensures
        whole(mode).holds(p),
{
    if let Some(r) = requested {
        if r.meets(whole(mode)) {
            crate::geometry::sharing_is_holding_in_both(r, whole(mode), p);
        }
    }
}

/// A capture holds those pixels that were asked for and are on the output, where there are any;
/// it is all of the output where nothing was asked for, and where nothing of that is there.
pub proof fn a_capture_is_what_was_asked_for(mode: Size, requested: Option<Rect>, p: Point)
    requires
        requested matches Some(r) ==> r.size.w >= 0 && r.size.h >= 0,
        mode.w >= 0,
        mode.h >= 0,
    ensures
        ({
            let region = captured(mode, requested);
            let there = 0 <= p.x < mode.w && 0 <= p.y < mode.h;
            let held = region.loc.x <= p.x < region.loc.x + region.size.w && region.loc.y <= p.y
                < region.loc.y + region.size.h;
            match requested {
                Some(r) => {
                    let asked = r.loc.x <= p.x < r.loc.x + r.size.w && r.loc.y <= p.y < r.loc.y
                        + r.size.h;
                    &&& there && asked ==> held
                    &&& held && !asked ==> region.loc.x == 0 && region.loc.y == 0 && region.size
                        == mode
                    &&& held ==> there
                },
                None => held == there,
            }
        }),
{
    if let Some(r) = requested {
        if r.meets(whole(mode)) {
            crate::geometry::sharing_is_holding_in_both(r, whole(mode), p);
        }
    }
}

/// A capture is answered once, last of all: with when it was taken where it was copied, else that
/// it failed. The two words are the seconds. What has changed is told only to a client that asked
/// for it and knows the event, and is all of the capture.
pub proof fn a_capture_is_answered_once(
    capture: PendingCapture,
    version: u32,
    copied: bool,
    secs: u64,
    nanos: u32,
)
    requires
        capture.region.size.w >= 0,
        capture.region.size.h >= 0,
    ensures
        ({
            let events = answers(capture, version, copied, secs, nanos);
            &&& events.len() > 0
            &&& copied == (events.last() is Ready)
            &&& !copied ==> events.last() is Failed && events.len() == 1
            &&& events.last() matches FrameEvent::Ready { secs_high, secs_low, nanos: n }
                ==> secs_high * 0x1_0000_0000 + secs_low == secs && n == nanos
            &&& forall|k: int|
                0 <= k < events.len() - 1 ==> match #[trigger] events[k] {
                    FrameEvent::Flags => k == 0,
                    FrameEvent::Damage { width, height } => k == 1 && capture.with_damage
                        && version >= 2 && width == capture.region.size.w && height
                        == capture.region.size.h,
                    _ => false,
                }
            &&& copied && capture.with_damage && version >= 2 ==> events.len() == 3
            &&& copied ==> events.len() >= 2
        }),
{
}

/// A frame that was thrown away waits no longer, and every other capture still does.
pub proof fn a_destroyed_frame_waits_no_longer(list: Seq<PendingCapture>, frame: u64)
    ensures
        forall|i: int|
            0 <= i < captures_without(list, frame).len() ==> (#[trigger] captures_without(
                list,
                frame,
            )[i]).frame != frame && list.contains(captures_without(list, frame)[i]),
        forall|i: int|
            0 <= i < list.len() && (#[trigger] list[i]).frame != frame ==> captures_without(
                list,
                frame,
            ).contains(list[i]),
    decreases list.len(),
{
    if list.len() > 0 {
        let fewer = list.drop_last();
        a_destroyed_frame_waits_no_longer(fewer, frame);
        let rest = captures_without(list, frame);
        let before = captures_without(fewer, frame);
        assert forall|i: int| 0 <= i < rest.len() implies (#[trigger] rest[i]).frame != frame
            && list.contains(rest[i]) by {
            if i < before.len() {
                assert(rest[i] == before[i]);
                let k = fewer.index_of(before[i]);
                assert(list[k] == before[i]);
            } else {
                assert(list[list.len() - 1] == rest[i]);
            }
        }
        assert forall|i: int| 0 <= i < list.len() && (#[trigger] list[i]).frame
            != frame implies rest.contains(list[i]) by {
            if i < fewer.len() {
                assert(fewer[i] == list[i]);
                let k = before.index_of(list[i]);
                assert(rest[k] == list[i]);
            } else {
                assert(rest[rest.len() - 1] == list[i]);
            }
        }
    }
}

/// The buffer that a client is told of has room for every pixel of the area, four bytes each, and
/// no more.
pub proof fn an_offered_buffer_fits_the_area(version: u32, region: Rect, offer: BufferOffer)
    requires
        0 <= region.size.w <= 0x3fff_ffff,
        0 <= region.size.h,
        call_ensures(offer_buffer, (version, region), offer),
    ensures
        offer.stride == 4 * offer.width,
        offer.width == region.size.w && offer.height == region.size.h,
        offer.done <==> version > 2,
{
}

/// The bytes of a capture are copied whole or not at all: all of them, where the buffer is of a
/// format that is written and has room for them, and they were read back.
pub proof fn a_capture_is_copied_whole(
    known_format: bool,
    buffer: usize,
    pixels: usize,
    size: Size,
    length: Result<usize, CopyError>,
)
    requires
        size.w >= 0,
        size.h >= 0,
        size.w * size.h * 4 <= i32::MAX,
        call_ensures(copy_length, (known_format, buffer, pixels, size), length),
    ensures
        length matches Ok(n) ==> known_format && n == size.w * size.h * 4 && n <= buffer && n
            <= pixels,
        length is Ok <==> known_format && size.w * size.h * 4 <= buffer && size.w * size.h * 4
            <= pixels,
        length == Err::<usize, CopyError>(CopyError::Format) <==> !known_format,
{
}

/// The setting for which way up a capture is rendered turns it over or leaves it, and anything else
/// it is set to is as if it were not set.
pub proof fn a_setting_decides_which_way_up(setting: Option<Seq<char>>, usual: Transform)
    ensures
        setting is None ==> way_up(setting, usual) == usual,
        setting == Some(seq!['0']) ==> way_up(setting, usual) == Transform::Normal,
        setting == Some(seq!['1']) ==> way_up(setting, usual) == Transform::Flipped180,
        setting is Some && setting->0.len() != 1 ==> way_up(setting, usual) == usual,
{
    reveal_strlit("0");
    reveal_strlit("1");
    assert("0"@ =~= seq!['0']);
    assert("1"@ =~= seq!['1']);
    assert("0"@[0] == '0' && "1"@[0] == '1');
}

} // verus!

//! The arguments of the programs that a key starts.
use vstd::prelude::*;

use crate::geometry::Rect;
use crate::keybinds::ShotMode;
use crate::placement::{frame_fits, frame_rect, framed};
use crate::scan::{integer_text, push_integer, texts};
use crate::stacking::{a_stacked_window_is_located, each_once};
use crate::state::{a_listed_window_is_found, find, listed_once, location, Scene, Wlrix};

verus! {

/// The screenshot tool.
pub const SCREENSHOT: &'static str = "wlrix-screenshot";

/// A rectangle as the tool reads it: its corner and its size, with commas between.
pub open spec fn selection(rect: Rect) -> Seq<char> {
    integer_text(rect.loc.x as int).push(',') + integer_text(rect.loc.y as int).push(',')
        + integer_text(rect.size.w as int).push(',') + integer_text(rect.size.h as int)
}

/// The arguments that describe a screenshot: none for a region, which the tool asks for itself;
/// everything for the screen; and the active window's rectangle, or everything where there is no
/// such window.
pub open spec fn shot_args(mode: ShotMode, active: Option<Rect>) -> Seq<Seq<char>> {
    match mode {
        ShotMode::Region => Seq::empty(),
        ShotMode::Screen => seq!["--all"@],
        ShotMode::ActiveWindow => match active {
            Some(rect) => seq!["--select"@, selection(rect)],
            None => seq!["--all"@],
        },
    }
}

fn selection_text(rect: Rect) -> (text: String)
    ensures
        text@ == selection(rect),
{
    let mut text = String::new();
    push_integer(&mut text, rect.loc.x as i64);
    text.push(',');
    push_integer(&mut text, rect.loc.y as i64);
    text.push(',');
    push_integer(&mut text, rect.size.w as i64);
    text.push(',');
    push_integer(&mut text, rect.size.h as i64);
    assert(text@ =~= selection(rect));
    text
}

/// The arguments that describe a screenshot; `active` is the focused window's rectangle.
pub fn screenshot_args(mode: ShotMode, active: Option<Rect>) -> (args: Vec<String>)
    ensures
        texts(args@) == shot_args(mode, active),
{
    let mut args: Vec<String> = Vec::new();
    match mode {
        ShotMode::Region => {},
        ShotMode::Screen => {
            args.push("--all".to_owned());
        },
        ShotMode::ActiveWindow => match active {
            Some(rect) => {
                args.push("--select".to_owned());
                args.push(selection_text(rect));
            },
            None => {
                args.push("--all".to_owned());
            },
        },
    }
    assert(texts(args@) =~= shot_args(mode, active));
    args
}

/// The rectangle of a window that is on screen, its frame with it.
pub open spec fn frame_of(s: Scene, focused: Option<u64>, has_frame: bool) -> Option<Rect> {
    match focused {
        Some(id) => match (find(s.windows, id), location(s.stack, id)) {
            (Some(w), Some(loc)) => if has_frame {
                Some(framed(loc, w.size, w.framing()))
            } else {
                None
            },
            _ => None,
        },
        None => None,
    }
}

impl Wlrix {
    /// The focused window's rectangle, its frame with it. None where nothing is focused, or where
    /// the focused window has no frame or is not on screen: a minimized window has an icon rather
    /// than a rectangle.
    pub fn focused_frame_rect(&self, focused: Option<u64>, has_frame: bool) -> (rect: Option<Rect>)
        requires
            focused matches Some(id) ==> (find(self@.windows, id) matches Some(w) ==> (location(
                self@.stack,
                id,
            ) matches Some(loc) ==> frame_fits(loc, w.size, w.framing()))),
        ensures
            rect == frame_of(self@, focused, has_frame),
    {
        let id = match focused {
            Some(id) => id,
            None => {
                return None;
            },
        };
        if !has_frame {
            return None;
        }
        match self.window(id) {
            Some(w) => match self.element_location(id) {
                Some(loc) => Some(frame_rect(loc, w.size, w.frame_insets())),
                None => None,
            },
            None => None,
        }
    }
}

/// A screenshot of the screen is of everything; one of a region leaves the choice to the tool; one
/// of a window selects that window's rectangle, or everything where there is none.
pub proof fn a_screenshot_is_of_what_it_names(active: Option<Rect>)
    ensures
        shot_args(ShotMode::Screen, active).len() == 1 && shot_args(ShotMode::Screen, active)[0]
            == "--all"@,
        shot_args(ShotMode::Region, active).len() == 0,
        active is None ==> shot_args(ShotMode::ActiveWindow, active) == shot_args(
            ShotMode::Screen,
            active,
        ),
        active is Some ==> shot_args(ShotMode::ActiveWindow, active).len() == 2 && shot_args(
            ShotMode::ActiveWindow,
            active,
        )[0] == "--select"@,
{
}

/// What is selected names the left, the top, the width and the height of the window's frame, in
/// that order, in decimal with commas between.
pub proof fn the_selection_is_the_windows_frame(rect: Rect)
    ensures
        ({
            let text = shot_args(ShotMode::ActiveWindow, Some(rect))[1];
            let first = integer_text(rect.loc.x as int).len() as int;
            let second = first + 1 + integer_text(rect.loc.y as int).len() as int;
            let third = second + 1 + integer_text(rect.size.w as int).len() as int;
            &&& second < third < text.len()
            &&& text[first] == ',' && text[second] == ',' && text[third] == ','
            &&& text.take(first) == integer_text(rect.loc.x as int)
            &&& text.subrange(first + 1, second) == integer_text(rect.loc.y as int)
            &&& text.subrange(second + 1, third) == integer_text(rect.size.w as int)
            &&& text.skip(third + 1) == integer_text(rect.size.h as int)
        }),
{
    let text = shot_args(ShotMode::ActiveWindow, Some(rect))[1];
    let first = integer_text(rect.loc.x as int).len() as int;
    let second = first + 1 + integer_text(rect.loc.y as int).len() as int;
    let third = second + 1 + integer_text(rect.size.w as int).len() as int;
    assert(text == selection(rect));
    assert(text.take(first) =~= integer_text(rect.loc.x as int));
    assert(text.subrange(first + 1, second) =~= integer_text(rect.loc.y as int));
    assert(text.subrange(second + 1, third) =~= integer_text(rect.size.w as int));
    assert(text.skip(third + 1) =~= integer_text(rect.size.h as int));
}

/// The rectangle of the focused window holds its contents with its frame around them, where the
/// window is on screen; a fullscreen window has no frame around it.
pub proof fn the_rectangle_is_the_frame(s: Scene, i: int, k: int)
    requires
        each_once(s.stack),
        listed_once(s.windows, i),
        0 <= k < s.stack.len(),
        s.stack[k].id == s.windows[i].id,
        frame_fits(s.stack[k].loc, s.windows[i].size, s.windows[i].framing()),
    ensures
        ({
            let w = s.windows[i];
            let rect = frame_of(s, Some(w.id), true);
            &&& frame_of(s, Some(w.id), false) is None
            &&& rect is Some
            &&& w.state.fullscreen ==> rect->0.loc == s.stack[k].loc && rect->0.size == w.size
            &&& !w.state.fullscreen ==> {
                &&& rect->0.loc.x + w.insets.left == s.stack[k].loc.x
                &&& rect->0.loc.y + w.insets.top == s.stack[k].loc.y
                &&& rect->0.size.w == w.size.w + w.insets.left + w.insets.right
                &&& rect->0.size.h == w.size.h + w.insets.top + w.insets.bottom
            }
        }),
{
    a_listed_window_is_found(s.windows, i);
    a_stacked_window_is_located(s.stack, k);
}

} // verus!

//! Global keybinds: the table that turns a key combination into a compositor action.
//!
//! The entries of the config file's `[keybinds]` section are applied over `DEFAULTS`: a default
//! stays bound unless the section names the same combination, either to rebind it or to switch
//! it off with `none`.
use vstd::prelude::*;

use crate::defaults::every_default_parses;
use crate::menu::{rows_for, MenuAction, MenuState};
use crate::scan::{
    decimal_text, decimal_text_reads_back, is_digit, lowered, natural_up_to, parse_natural, quote,
    quoted, same_text, split, split_at_each, split_whitespace, texts, to_ascii_lowercase, trim,
    trim_back, trim_front, trimmed, words_of,
};
use crate::table::{Key, Table};

verus! {

/// The built-in bindings, as they would be written in the config file: the window menu's items
/// first, in the order the menu lists them.
pub const DEFAULTS: [(&'static str, &'static str); 37] = [
    ("Alt+F5", "restore"),
    ("Alt+F7", "move"),
    ("Alt+F8", "size"),
    ("Alt+F9", "minimize"),
    ("Alt+F10", "maximize"),
    ("Alt+F1", "raise"),
    ("Alt+F3", "lower"),
    ("Alt+F4", "close"),
    ("Print", "screenshot"),
    ("Alt+Print", "screenshot-window"),
    ("Shift+Print", "screenshot-screen"),
    ("Ctrl+Alt+BackSpace", "quit"),
    ("Super+space", "cycle-layout"),
    ("Super+1", "switch-desk 1"),
    ("Super+2", "switch-desk 2"),
    ("Super+3", "switch-desk 3"),
    ("Super+4", "switch-desk 4"),
    ("Super+5", "switch-desk 5"),
    ("Super+6", "switch-desk 6"),
    ("Super+7", "switch-desk 7"),
    ("Super+8", "switch-desk 8"),
    ("Super+9", "switch-desk 9"),
    ("Super+Ctrl+1", "move-to-desk 1"),
    ("Super+Ctrl+2", "move-to-desk 2"),
    ("Super+Ctrl+3", "move-to-desk 3"),
    ("Super+Ctrl+4", "move-to-desk 4"),
    ("Super+Ctrl+5", "move-to-desk 5"),
    ("Super+Ctrl+6", "move-to-desk 6"),
    ("Super+Ctrl+7", "move-to-desk 7"),
    ("Super+Ctrl+8", "move-to-desk 8"),
    ("Super+Ctrl+9", "move-to-desk 9"),
    ("Super+Shift+Up", "create-desk"),
    ("Super+Shift+Down", "delete-desk"),
    ("Super+f", "maximize-toggle"),
    ("Super+m", "minimize"),
    ("Super+Shift+m", "restore-all"),
    ("Super+l", "lower"),
];

/// A key combination: the modifiers that must be held, and the key itself.
///
/// The modifiers are the four a user can name; the locks are no part of a combination.
#[derive(Debug, Clone, Copy, PartialEq, Eq, Hash, Structural)]
pub struct Combo {
    pub ctrl: bool,
    pub alt: bool,
    pub shift: bool,
    pub logo: bool,
    /// The keysym, as a lookup of the key's name that ignores case gives it; zero is no keysym.
    pub sym: u32,
}

impl Key for Combo {
    type Of = Combo;

    open spec fn of(&self) -> Combo {
        *self
    }

    fn same(&self, other: &Self) -> (r: bool) {
        *self == *other
    }
}

/// The modifiers that are held while a key is pressed.
#[derive(Debug, Clone, Copy, PartialEq, Eq, Structural)]
pub struct Modifiers {
    pub ctrl: bool,
    pub alt: bool,
    pub shift: bool,
    pub logo: bool,
}

/// What a binding does when it fires.
#[derive(Debug, Clone, Copy, PartialEq, Eq, Structural)]
pub enum Action {
    /// One of the window menu's items, applied to the focused window.
    Window(MenuAction),
    /// Maximize the focused window, or un-maximize it if it already is.
    MaximizeToggle,
    /// Bring every minimized window back.
    RestoreAll,
    /// Switch to the desk at this index, counted from zero; the config file counts from one.
    SwitchDesk(usize),
    /// Send the focused window to the desk at this index, counted from zero.
    MoveToDesk(usize),
    /// Create a desk and switch to it.
    CreateDesk,
    /// Delete the active desk.
    DeleteDesk,
    /// Cycle to the next configured keyboard layout.
    CycleLayout,
    /// Take a screenshot.
    Screenshot(ShotMode),
    /// Stop the compositor, ending the session.
    Quit,
}

/// What a screenshot binding starts the selection at.
#[derive(Debug, Clone, Copy, PartialEq, Eq, Structural)]
pub enum ShotMode {
    /// Let the user drag a region out.
    Region,
    /// Start with the focused window selected, frame and all.
    ActiveWindow,
    /// Start with the whole desktop selected.
    Screen,
}

/// The modifiers a user can name.
#[derive(Debug, Clone, Copy, PartialEq, Eq, Structural)]
pub enum Modifier {
    Ctrl,
    Alt,
    Shift,
    Logo,
}

/// The modifier that a word names, whatever its case.
pub open spec fn modifier_named(word: Seq<char>) -> Option<Modifier> {
    let name = lowered(word);
    if name == "ctrl"@ || name == "control"@ {
        Some(Modifier::Ctrl)
    } else if name == "alt"@ {
        Some(Modifier::Alt)
    } else if name == "shift"@ {
        Some(Modifier::Shift)
    } else if name == "super"@ || name == "logo"@ || name == "meta"@ || name == "win"@ {
        Some(Modifier::Logo)
    } else {
        None
    }
}

/// The modifier that a word names, whatever its case.
pub fn modifier(word: &str) -> (held: Option<Modifier>)
    ensures
        held == modifier_named(word@),
{
    let name = to_ascii_lowercase(word);
    let name = name.as_str();
    if same_text(name, "ctrl") || same_text(name, "control") {
        Some(Modifier::Ctrl)
    } else if same_text(name, "alt") {
        Some(Modifier::Alt)
    } else if same_text(name, "shift") {
        Some(Modifier::Shift)
    } else if same_text(name, "super") || same_text(name, "logo") || same_text(name, "meta")
        || same_text(name, "win") {
        Some(Modifier::Logo)
    } else {
        None
    }
}

/// What the parts of a combination's text spell.
pub ghost enum Spelt {
    /// The modifiers, and the key where one is named.
    Parts { ctrl: bool, alt: bool, shift: bool, logo: bool, key: Option<Seq<char>> },
    /// A part is empty.
    Empty,
    /// A second part names a key.
    TwoKeys { first: Seq<char>, second: Seq<char> },
}

/// What the parts spell, read in order up to the first fault.
pub open spec fn spelt(parts: Seq<Seq<char>>) -> Spelt
    decreases parts.len(),
{
    if parts.len() == 0 {
        Spelt::Parts { ctrl: false, alt: false, shift: false, logo: false, key: None }
    } else {
        let part = trimmed(parts.last());
        match spelt(parts.drop_last()) {
            Spelt::Parts { ctrl, alt, shift, logo, key } => if part.len() == 0 {
                Spelt::Empty
            } else {
                match modifier_named(part) {
                    Some(Modifier::Ctrl) => Spelt::Parts { ctrl: true, alt, shift, logo, key },
                    Some(Modifier::Alt) => Spelt::Parts { ctrl, alt: true, shift, logo, key },
                    Some(Modifier::Shift) => Spelt::Parts { ctrl, alt, shift: true, logo, key },
                    Some(Modifier::Logo) => Spelt::Parts { ctrl, alt, shift, logo: true, key },
                    None => match key {
                        Some(first) => Spelt::TwoKeys { first, second: part },
                        None => Spelt::Parts { ctrl, alt, shift, logo, key: Some(part) },
                    },
                }
            },
            fault => fault,
        }
    }
}

/// The key that a combination's text names, where its parts are in order.
pub open spec fn key_in(text: Seq<char>) -> Option<Seq<char>> {
    match spelt(split_at_each(text, '+')) {
        Spelt::Parts { key, .. } => key,
        _ => None,
    }
}

/// The combination that a text names, or what is wrong with it; `sym` is the keysym of the key
/// that it names.
pub open spec fn combo_or_fault(text: Seq<char>, sym: u32) -> Result<Combo, Seq<char>> {
    match spelt(split_at_each(text, '+')) {
        Spelt::Empty => Err(
            quoted(text) + " has an empty part; write a literal plus as `plus`"@,
        ),
        Spelt::TwoKeys { first, second } => Err(
            quoted(text) + " names two keys, "@ + quoted(first) + " and "@ + quoted(second)
                + "; a binding has one"@,
        ),
        Spelt::Parts { key: None, .. } => Err(quoted(text) + " names no key, only modifiers"@),
        Spelt::Parts { ctrl, alt, shift, logo, key: Some(key) } => if sym == 0 {
            Err(quoted(key) + " is not a key name (in "@ + quoted(text) + ")"@)
        } else {
            Ok(Combo { ctrl, alt, shift, logo, sym })
        },
    }
}

/// Whether a result holds what its model says.
pub open spec fn holds<T>(result: Result<T, String>, model: Result<T, Seq<char>>) -> bool {
    match result {
        Ok(value) => model == Ok::<T, Seq<char>>(value),
        Err(message) => model == Err::<T, Seq<char>>(message@),
    }
}

/// The parts of a combination's text, before its key is looked up.
pub struct Parts {
    pub ctrl: bool,
    pub alt: bool,
    pub shift: bool,
    pub logo: bool,
    pub key: Option<String>,
}

/// What is wrong with the parts of a combination's text.
pub enum PartFault {
    Empty,
    TwoKeys { first: String, second: String },
}

/// What a reading of the parts stands for.
pub open spec fn reading(read: Result<Parts, PartFault>) -> Spelt {
    match read {
        Ok(p) => Spelt::Parts {
            ctrl: p.ctrl,
            alt: p.alt,
            shift: p.shift,
            logo: p.logo,
            key: match p.key {
                Some(key) => Some(key@),
                None => None,
            },
        },
        Err(PartFault::Empty) => Spelt::Empty,
        Err(PartFault::TwoKeys { first, second }) => Spelt::TwoKeys {
            first: first@,
            second: second@,
        },
    }
}

proof fn a_fault_stays(parts: Seq<Seq<char>>, upto: int)
    requires
        0 <= upto <= parts.len(),
        !(spelt(parts.take(upto)) is Parts),
    ensures
        spelt(parts) == spelt(parts.take(upto)),
    decreases parts.len() - upto,
{
    if upto == parts.len() {
        assert(parts.take(upto) =~= parts);
    } else {
        assert(parts.take(upto + 1).drop_last() =~= parts.take(upto));
        a_fault_stays(parts, upto + 1);
    }
}

/// Reads the parts of a combination's text: its modifiers and its key.
pub fn read_parts(text: &str) -> (read: Result<Parts, PartFault>)
    ensures
        reading(read) == spelt(split_at_each(text@, '+')),
{
    let parts = split(text, '+');
    let ghost all = texts(parts@);
    let mut ctrl = false;
    let mut alt = false;
    let mut shift = false;
    let mut logo = false;
    let mut key: Option<String> = None;
    let mut i: usize = 0;
    assert(all.take(0) =~= Seq::empty());
    while i < parts.len()
        invariant
            i <= parts@.len(),
            all == texts(parts@),
            all == split_at_each(text@, '+'),
            reading(Ok(Parts { ctrl, alt, shift, logo, key })) == spelt(all.take(i as int)),
        decreases parts.len() - i,
    {
        let part = trim(parts[i].as_str());
        i += 1;
        let ghost before = all.take(i - 1);
        assert(all.take(i as int).drop_last() =~= before);
        assert(all.take(i as int).last() == parts@[i - 1]@);
        if part.as_str().is_empty() {
            proof {
                assert(part@.len() == 0);
                a_fault_stays(all, i as int);
            }
            return Err(PartFault::Empty);
        }
        assert(part@.len() != 0);
        match modifier(part.as_str()) {
            Some(Modifier::Ctrl) => {
                ctrl = true;
            },
            Some(Modifier::Alt) => {
                alt = true;
            },
            Some(Modifier::Shift) => {
                shift = true;
            },
            Some(Modifier::Logo) => {
                logo = true;
            },
            None => {
                match key {
                    Some(first) => {
                        proof {
                            a_fault_stays(all, i as int);
                        }
                        return Err(PartFault::TwoKeys { first, second: part });
                    },
                    None => {
                        key = Some(part);
                    },
                }
            },
        }
    }
    assert(all.take(all.len() as int) =~= all);
    Ok(Parts { ctrl, alt, shift, logo, key })
}

/// The key that a combination's text names, where its parts are in order: what is to be looked
/// up for its keysym.
pub fn key_named(text: &str) -> (key: Option<String>)
    ensures
        match key {
            Some(key) => key_in(text@) == Some(key@),
            None => key_in(text@) is None,
        },
{
    match read_parts(text) {
        Ok(parts) => parts.key,
        Err(_) => None,
    }
}

/// The keysyms of keys, by the names that they are written under. A name that is no key's has
/// zero, or no entry.
pub type Keysyms = Table<String, u32>;

/// The keysym of the key that a combination's text names; zero where there is none.
pub open spec fn sym_in(keysyms: Map<Seq<char>, u32>, text: Seq<char>) -> u32 {
    match key_in(text) {
        Some(key) => if keysyms.dom().contains(key) {
            keysyms[key]
        } else {
            0
        },
        None => 0,
    }
}

/// The keysyms of the keys that the defaults name.
pub open spec fn default_syms(keysyms: Map<Seq<char>, u32>) -> Seq<u32> {
    Seq::new(DEFAULTS@.len(), |i: int| sym_in(keysyms, DEFAULTS@[i].0@))
}

/// The keysym of the key that a combination's text names; zero where there is none.
pub fn keysym_in(text: &str, keysyms: &Keysyms) -> (sym: u32)
    ensures
        sym == sym_in(keysyms@, text@),
{
    match key_named(text) {
        Some(key) => match keysyms.get(&key) {
            Some(sym) => *sym,
            None => 0,
        },
        None => 0,
    }
}

/// The combination of a text whose parts are `read`, where `sym` is the keysym of the key that
/// they name.
pub fn combo_of(text: &str, read: Result<Parts, PartFault>, sym: u32) -> (combo: Result<
    Combo,
    String,
>)
    requires
        reading(read) == spelt(split_at_each(text@, '+')),
    ensures
        holds(combo, combo_or_fault(text@, sym)),
{
    match read {
        Err(PartFault::Empty) => {
            let mut message = quote(text);
            message.append(" has an empty part; write a literal plus as `plus`");
            Err(message)
        },
        Err(PartFault::TwoKeys { first, second }) => {
            let mut message = quote(text);
            message.append(" names two keys, ");
            message.append(quote(first.as_str()).as_str());
            message.append(" and ");
            message.append(quote(second.as_str()).as_str());
            message.append("; a binding has one");
            Err(message)
        },
        Ok(parts) => {
            match parts.key {
                None => {
                    let mut message = quote(text);
                    message.append(" names no key, only modifiers");
                    Err(message)
                },
                Some(key) => {
                    if sym == 0 {
                        let mut message = quote(key.as_str());
                        message.append(" is not a key name (in ");
                        message.append(quote(text).as_str());
                        message.append(")");
                        Err(message)
                    } else {
                        Ok(
                            Combo {
                                ctrl: parts.ctrl,
                                alt: parts.alt,
                                shift: parts.shift,
                                logo: parts.logo,
                                sym,
                            },
                        )
                    }
                },
            }
        },
    }
}

/// A name with a plus sign behind it where it is held.
pub open spec fn held_text(held: bool, name: Seq<char>) -> Seq<char> {
    if held {
        name + "+"@
    } else {
        Seq::empty()
    }
}

/// The canonical spelling of a combination whose key has the name `key`.
pub open spec fn spelling(combo: Combo, key: Seq<char>) -> Seq<char> {
    held_text(combo.ctrl, "Ctrl"@) + held_text(combo.alt, "Alt"@) + held_text(
        combo.shift,
        "Shift"@,
    ) + held_text(combo.logo, "Super"@) + key
}

fn push_held(out: &mut String, held: bool, name: &str)
    ensures
        final(out)@ == old(out)@ + held_text(held, name@),
{
    if held {
        out.append(name);
        out.append("+");
    }
    assert(out@ =~= old(out)@ + held_text(held, name@));
}

impl Combo {
    /// The combination that the given modifiers and key form.
    pub fn with(mods: &Modifiers, sym: u32) -> (combo: Self)
        ensures
            combo == combo_with(*mods, sym),
    {
        Combo { ctrl: mods.ctrl, alt: mods.alt, shift: mods.shift, logo: mods.logo, sym }
    }

    /// Parses `Mod+Mod+Key`. Modifier names are matched whatever their case, and space around
    /// the separators is ignored. `sym` is the keysym of the key that the text names, see
    /// `key_named`; zero where there is none.
    pub fn from_str(text: &str, sym: u32) -> (combo: Result<Self, String>)
        ensures
            holds(combo, combo_or_fault(text@, sym)),
    {
        combo_of(text, read_parts(text), sym)
    }

    /// Parses `Mod+Mod+Key`, with the key looked up among the keysyms.
    pub fn from_text(text: &str, keysyms: &Keysyms) -> (combo: Result<Self, String>)
        ensures
            holds(combo, combo_or_fault(text@, sym_in(keysyms@, text@))),
    {
        Combo::from_str(text, keysym_in(text, keysyms))
    }

    /// The canonical spelling, which is what a message about a binding quotes; `key` is the name
    /// of the key.
    pub fn to_string(&self, key: &str) -> (out: String)
        ensures
            out@ == spelling(*self, key@),
    {
        let mut out = String::new();
        push_held(&mut out, self.ctrl, "Ctrl");
        push_held(&mut out, self.alt, "Alt");
        push_held(&mut out, self.shift, "Shift");
        push_held(&mut out, self.logo, "Super");
        out.append(key);
        assert(out@ =~= spelling(*self, key@));
        out
    }
}

/// The combination that modifiers and a key form.
pub open spec fn combo_with(mods: Modifiers, sym: u32) -> Combo {
    Combo { ctrl: mods.ctrl, alt: mods.alt, shift: mods.shift, logo: mods.logo, sym }
}

/// The action that a word names on its own.
pub open spec fn plain_action(name: Seq<char>) -> Option<Action> {
    if name == "restore"@ {
        Some(Action::Window(MenuAction::Restore))
    } else if name == "move"@ {
        Some(Action::Window(MenuAction::Move))
    } else if name == "size"@ {
        Some(Action::Window(MenuAction::Size))
    } else if name == "minimize"@ {
        Some(Action::Window(MenuAction::Minimize))
    } else if name == "maximize"@ {
        Some(Action::Window(MenuAction::Maximize))
    } else if name == "raise"@ {
        Some(Action::Window(MenuAction::Raise))
    } else if name == "lower"@ {
        Some(Action::Window(MenuAction::Lower))
    } else if name == "close"@ {
        Some(Action::Window(MenuAction::Close))
    } else if name == "maximize-toggle"@ {
        Some(Action::MaximizeToggle)
    } else if name == "restore-all"@ {
        Some(Action::RestoreAll)
    } else if name == "create-desk"@ {
        Some(Action::CreateDesk)
    } else if name == "delete-desk"@ {
        Some(Action::DeleteDesk)
    } else if name == "cycle-layout"@ {
        Some(Action::CycleLayout)
    } else if name == "screenshot"@ {
        Some(Action::Screenshot(ShotMode::Region))
    } else if name == "screenshot-window"@ {
        Some(Action::Screenshot(ShotMode::ActiveWindow))
    } else if name == "screenshot-screen"@ {
        Some(Action::Screenshot(ShotMode::Screen))
    } else if name == "quit"@ {
        Some(Action::Quit)
    } else {
        None
    }
}

fn plain(name: &str) -> (action: Option<Action>)
    ensures
        action == plain_action(name@),
{
    if same_text(name, "restore") {
        Some(Action::Window(MenuAction::Restore))
    } else if same_text(name, "move") {
        Some(Action::Window(MenuAction::Move))
    } else if same_text(name, "size") {
        Some(Action::Window(MenuAction::Size))
    } else if same_text(name, "minimize") {
        Some(Action::Window(MenuAction::Minimize))
    } else if same_text(name, "maximize") {
        Some(Action::Window(MenuAction::Maximize))
    } else if same_text(name, "raise") {
        Some(Action::Window(MenuAction::Raise))
    } else if same_text(name, "lower") {
        Some(Action::Window(MenuAction::Lower))
    } else if same_text(name, "close") {
        Some(Action::Window(MenuAction::Close))
    } else if same_text(name, "maximize-toggle") {
        Some(Action::MaximizeToggle)
    } else if same_text(name, "restore-all") {
        Some(Action::RestoreAll)
    } else if same_text(name, "create-desk") {
        Some(Action::CreateDesk)
    } else if same_text(name, "delete-desk") {
        Some(Action::DeleteDesk)
    } else if same_text(name, "cycle-layout") {
        Some(Action::CycleLayout)
    } else if same_text(name, "screenshot") {
        Some(Action::Screenshot(ShotMode::Region))
    } else if same_text(name, "screenshot-window") {
        Some(Action::Screenshot(ShotMode::ActiveWindow))
    } else if same_text(name, "screenshot-screen") {
        Some(Action::Screenshot(ShotMode::Screen))
    } else if same_text(name, "quit") {
        Some(Action::Quit)
    } else {
        None
    }
}

/// The desk that a word numbers from one, counted from zero.
pub open spec fn desk_numbered(word: Seq<char>) -> Option<usize> {
    match natural_up_to(word, usize::MAX as nat) {
        Some(n) => if n > 0 {
            Some((n - 1) as usize)
        } else {
            None
        },
        None => None,
    }
}

/// The desk that an action names, or what is wrong with its number.
pub open spec fn desk_or_fault(text: Seq<char>, name: Seq<char>, argument: Option<Seq<char>>) -> Result<
    usize,
    Seq<char>,
> {
    match argument {
        None => Err(quoted(name) + " needs a desk number, e.g. \""@ + name + " 1\""@),
        Some(argument) => match desk_numbered(argument) {
            Some(desk) => Ok(desk),
            None => Err(
                quoted(argument) + " is not a desk number (in "@ + quoted(text)
                    + "); they count from 1"@,
            ),
        },
    }
}

/// The action that a text names, or what is wrong with it.
pub open spec fn action_named(text: Seq<char>) -> Result<Action, Seq<char>> {
    let words = words_of(text);
    let name = if words.len() > 0 {
        words[0]
    } else {
        Seq::empty()
    };
    let argument = if words.len() > 1 {
        Some(words[1])
    } else {
        None
    };
    if words.len() > 2 {
        Err(quoted(text) + " has more than one argument"@)
    } else if name == "switch-desk"@ {
        match desk_or_fault(text, name, argument) {
            Ok(desk) => Ok(Action::SwitchDesk(desk)),
            Err(fault) => Err(fault),
        }
    } else if name == "move-to-desk"@ {
        match desk_or_fault(text, name, argument) {
            Ok(desk) => Ok(Action::MoveToDesk(desk)),
            Err(fault) => Err(fault),
        }
    } else {
        match plain_action(name) {
            Some(action) => if argument is Some {
                Err(quoted(name) + " takes no argument (in "@ + quoted(text) + ")"@)
            } else {
                Ok(action)
            },
            None => if name.len() == 0 {
                Err("a binding needs an action; use \"none\" to unbind"@)
            } else {
                Err(quoted(name) + " is not an action"@)
            },
        }
    }
}

fn desk_index(text: &str, name: &str, argument: Option<&str>) -> (desk: Result<usize, String>)
    ensures
        holds(
            desk,
            desk_or_fault(
                text@,
                name@,
                match argument {
                    Some(word) => Some(word@),
                    None => None,
                },
            ),
        ),
{
    match argument {
        None => {
            let mut message = quote(name);
            message.append(" needs a desk number, e.g. \"");
            message.append(name);
            message.append(" 1\"");
            Err(message)
        },
        Some(argument) => {
            let number: Option<u64> = parse_natural(argument, usize::MAX as u64);
            match number {
                Some(n) if n > 0 => Ok((n - 1) as usize),
                _ => {
                    let mut message = quote(argument);
                    message.append(" is not a desk number (in ");
                    message.append(quote(text).as_str());
                    message.append("); they count from 1");
                    Err(message)
                },
            }
        },
    }
}

impl Action {
    /// Parses an action: its name, and for the two that take one, a desk number.
    pub fn from_str(text: &str) -> (action: Result<Self, String>)
        ensures
            holds(action, action_named(text@)),
    {
        let words = split_whitespace(text);
        let ghost all = words_of(text@);
        assert(forall|i: int| 0 <= i < words@.len() ==> #[trigger] all[i] == words@[i]@);
        if words.len() > 2 {
            let mut message = quote(text);
            message.append(" has more than one argument");
            return Err(message);
        }
        let name: &str = if words.len() > 0 {
            words[0].as_str()
        } else {
            proof {
                reveal_strlit("");
            }
            ""
        };
        let argument: Option<&str> = if words.len() > 1 {
            Some(words[1].as_str())
        } else {
            None
        };
        assert(name@ =~= if all.len() > 0 {
            all[0]
        } else {
            Seq::empty()
        });
        if same_text(name, "switch-desk") {
            match desk_index(text, name, argument) {
                Ok(desk) => Ok(Action::SwitchDesk(desk)),
                Err(message) => Err(message),
            }
        } else if same_text(name, "move-to-desk") {
            match desk_index(text, name, argument) {
                Ok(desk) => Ok(Action::MoveToDesk(desk)),
                Err(message) => Err(message),
            }
        } else {
            match plain(name) {
                Some(action) => {
                    if argument.is_some() {
                        let mut message = quote(name);
                        message.append(" takes no argument (in ");
                        message.append(quote(text).as_str());
                        message.append(")");
                        Err(message)
                    } else {
                        Ok(action)
                    }
                },
                None => {
                    if name.is_empty() {
                        Err("a binding needs an action; use \"none\" to unbind".to_owned())
                    } else {
                        let mut message = quote(name);
                        message.append(" is not an action");
                        Err(message)
                    }
                },
            }
        }
    }
}

impl std::str::FromStr for Action {
    type Err = String;

    fn from_str(text: &str) -> (action: Result<Self, String>)
        ensures
            holds(action, action_named(text@)),
    {
        Action::from_str(text)
    }
}

/// What the right-hand side of a `[keybinds]` entry names: nothing for `none`, whatever its
/// case, which takes a binding away; else an action.
pub open spec fn binding_named(text: Seq<char>) -> Result<Option<Action>, Seq<char>> {
    if lowered(trimmed(text)) == "none"@ {
        Ok(None)
    } else {
        match action_named(text) {
            Ok(action) => Ok(Some(action)),
            Err(fault) => Err(fault),
        }
    }
}

/// Parses what the right-hand side of a `[keybinds]` entry names.
pub fn parse_binding(text: &str) -> (binding: Result<Option<Action>, String>)
    ensures
        holds(binding, binding_named(text@)),
{
    if same_text(to_ascii_lowercase(trim(text).as_str()).as_str(), "none") {
        return Ok(None);
    }
    match Action::from_str(text) {
        Ok(action) => Ok(Some(action)),
        Err(message) => Err(message),
    }
}

/// The table that a list of entries makes, a later entry in place of an earlier one.
pub open spec fn listed(entries: Seq<(Combo, Action)>) -> Map<Combo, Action>
    decreases entries.len(),
{
    if entries.len() == 0 {
        Map::empty()
    } else {
        listed(entries.drop_last()).insert(entries.last().0, entries.last().1)
    }
}

/// The table that `configured` makes of `defaults`: each of its entries in turn binds its
/// combination, or takes the binding away.
pub open spec fn bound(
    defaults: Seq<(Combo, Action)>,
    configured: Seq<(Combo, Option<Action>)>,
) -> Map<Combo, Action>
    decreases configured.len(),
{
    if configured.len() == 0 {
        listed(defaults)
    } else {
        let before = bound(defaults, configured.drop_last());
        match configured.last().1 {
            Some(action) => before.insert(configured.last().0, action),
            None => before.remove(configured.last().0),
        }
    }
}

/// The combinations that are named, in the order they were written: the defaults', then the
/// configured ones.
pub open spec fn candidates(
    defaults: Seq<(Combo, Action)>,
    configured: Seq<(Combo, Option<Action>)>,
) -> Seq<Combo> {
    Seq::new(
        defaults.len() + configured.len(),
        |i: int|
            if i < defaults.len() {
                defaults[i].0
            } else {
                configured[i - defaults.len()].0
            },
    )
}

/// Whether the table binds a combination to a menu item.
pub open spec fn binds(table: Map<Combo, Action>, combo: Combo, item: MenuAction) -> bool {
    table.contains_pair(combo, Action::Window(item))
}

/// The first of the candidates that the table binds to a menu item.
pub open spec fn advertised(
    candidates: Seq<Combo>,
    table: Map<Combo, Action>,
    item: MenuAction,
) -> Option<Combo>
    decreases candidates.len(),
{
    if candidates.len() == 0 {
        None
    } else {
        match advertised(candidates.drop_last(), table, item) {
            Some(combo) => Some(combo),
            None => if binds(table, candidates.last(), item) {
                Some(candidates.last())
            } else {
                None
            },
        }
    }
}

/// Whether the default at `i` parses, where its key has the keysym `sym`.
pub open spec fn default_parses(i: int, sym: u32) -> bool {
    &&& combo_or_fault(DEFAULTS@[i].0@, sym) is Ok
    &&& action_named(DEFAULTS@[i].1@) is Ok
}

/// Whether the defaults parse, where their keys have the keysyms `syms`.
pub open spec fn defaults_parse(syms: Seq<u32>) -> bool {
    &&& syms.len() == DEFAULTS@.len()
    &&& forall|i: int| 0 <= i < DEFAULTS@.len() ==> default_parses(i, #[trigger] syms[i])
}

/// Whether each key of the defaults has a keysym among `syms`.
pub open spec fn all_known(syms: Seq<u32>) -> bool {
    &&& syms.len() == DEFAULTS@.len()
    &&& forall|i: int| 0 <= i < syms.len() ==> #[trigger] syms[i] != 0
}

/// The built-in bindings, where their keys have the keysyms `syms`.
pub open spec fn built_in(syms: Seq<u32>) -> Seq<(Combo, Action)> {
    Seq::new(
        DEFAULTS@.len(),
        |i: int|
            (combo_or_fault(DEFAULTS@[i].0@, syms[i])->Ok_0, action_named(DEFAULTS@[i].1@)->Ok_0),
    )
}

/// What the bindings hold for a menu item is what the table advertises for it.
spec fn menu_shows(
    menu: Map<MenuAction, Combo>,
    candidates: Seq<Combo>,
    table: Map<Combo, Action>,
) -> bool {
    forall|item: MenuAction| #[trigger]
        advertised(candidates, table, item) == if menu.dom().contains(item) {
            Some(menu[item])
        } else {
            None
        }
}

/// Parses the built-in bindings, where all of their keys are known; `syms` are the keysyms of
/// their keys.
pub fn parse_defaults(syms: &[u32]) -> (defaults: Option<Vec<(Combo, Action)>>)
    ensures
        match defaults {
            Some(list) => all_known(syms@) && list@ == built_in(syms@),
            None => !all_known(syms@),
        },
{
    proof {
        if all_known(syms@) {
            every_default_parses(syms@);
        }
    }
    if syms.len() != DEFAULTS.len() {
        return None;
    }
    let mut list: Vec<(Combo, Action)> = Vec::new();
    let mut i: usize = 0;
    while i < DEFAULTS.len()
        invariant
            i <= DEFAULTS@.len(),
            syms@.len() == DEFAULTS@.len(),
            all_known(syms@) ==> defaults_parse(syms@),
            forall|j: int| 0 <= j < i ==> default_parses(j, #[trigger] syms@[j]),
            list@ == built_in(syms@).take(i as int),
        decreases DEFAULTS.len() - i,
    {
        let (keys, action) = DEFAULTS[i];
        match (Combo::from_str(keys, syms[i]), Action::from_str(action)) {
            (Ok(combo), Ok(action)) => {
                assert(default_parses(i as int, syms@[i as int]));
                list.push((combo, action));
                i += 1;
            },
            _ => {
                assert(!default_parses(i as int, syms@[i as int]));
                return None;
            },
        }
    }
    assert(built_in(syms@).take(DEFAULTS@.len() as int) =~= built_in(syms@));
    assert forall|j: int| 0 <= j < syms@.len() implies #[trigger] syms@[j] != 0 by {
        assert(default_parses(j, syms@[j]));
    }
    Some(list)
}

/// The resolved binding table: the defaults with the config's entries applied over them.
pub struct Bindings {
    table: Table<Combo, Action>,
    menu: Table<MenuAction, Combo>,
}

impl Bindings {
    /// What each combination is bound to.
    pub closed spec fn table(&self) -> Map<Combo, Action> {
        self.table@
    }

    /// The combination that the window menu prints beside each of its items.
    pub closed spec fn menu(&self) -> Map<MenuAction, Combo> {
        self.menu@
    }

    /// Whether these are the bindings that `configured` makes of `defaults`.
    pub open spec fn resolves(
        &self,
        defaults: Seq<(Combo, Action)>,
        configured: Seq<(Combo, Option<Action>)>,
    ) -> bool {
        &&& self.table() == bound(defaults, configured)
        &&& forall|item: MenuAction|
            #![trigger self.menu().dom().contains(item)]
            #![trigger self.menu()[item]]
            #![trigger advertised(candidates(defaults, configured), self.table(), item)]
            advertised(candidates(defaults, configured), self.table(), item)
                == if self.menu().dom().contains(item) {
                Some(self.menu()[item])
            } else {
                None
            }
    }

    /// Applies `configured` over the given defaults. `None` unbinds; anything else replaces
    /// whatever that combination was bound to.
    pub fn over(defaults: &[(Combo, Action)], configured: &[(Combo, Option<Action>)]) -> (bindings:
        Self)
        ensures
            bindings.resolves(defaults@, configured@),
    {
        let mut table: Table<Combo, Action> = Table::new();
        let mut i: usize = 0;
        assert(defaults@.take(0) =~= Seq::empty());
        while i < defaults.len()
            invariant
                i <= defaults@.len(),
                table@ == listed(defaults@.take(i as int)),
            decreases defaults.len() - i,
        {
            table.insert(defaults[i].0, defaults[i].1);
            i += 1;
            assert(defaults@.take(i as int).drop_last() =~= defaults@.take(i - 1));
        }
        assert(defaults@.take(defaults@.len() as int) =~= defaults@);
        let mut j: usize = 0;
        assert(configured@.take(0) =~= Seq::empty());
        while j < configured.len()
            invariant
                j <= configured@.len(),
                table@ == bound(defaults@, configured@.take(j as int)),
            decreases configured.len() - j,
        {
            match configured[j].1 {
                Some(action) => {
                    table.insert(configured[j].0, action);
                },
                None => {
                    table.remove(&configured[j].0);
                },
            }
            j += 1;
            assert(configured@.take(j as int).drop_last() =~= configured@.take(j - 1));
        }
        assert(configured@.take(configured@.len() as int) =~= configured@);
        let ghost named = candidates(defaults@, configured@);
        let mut menu: Table<MenuAction, Combo> = Table::new();
        let mut k: usize = 0;
        assert(named.take(0) =~= Seq::empty());
        while k < defaults.len()
            invariant
                k <= defaults@.len(),
                named == candidates(defaults@, configured@),
                menu_shows(menu@, named.take(k as int), table@),
            decreases defaults.len() - k,
        {
            advertise(&mut menu, &table, defaults[k].0, Ghost(named), Ghost(k as int));
            k += 1;
        }
        let mut m: usize = 0;
        while m < configured.len()
            invariant
                m <= configured@.len(),
                named == candidates(defaults@, configured@),
                menu_shows(menu@, named.take(defaults@.len() + m), table@),
            decreases configured.len() - m,
        {
            advertise(&mut menu, &table, configured[m].0, Ghost(named), Ghost(defaults@.len() + m));
            m += 1;
        }
        assert(named.take(named.len() as int) =~= named);
        Bindings { table, menu }
    }

    /// Applies `configured` over `DEFAULTS`, whose keys have the keysyms `syms`.
    pub fn resolve(syms: &[u32], configured: &[(Combo, Option<Action>)]) -> (bindings: Self)
        requires
            all_known(syms@),
        ensures
            bindings.resolves(built_in(syms@), configured@),
    {
        let defaults = parse_defaults(syms).unwrap();
        Bindings::over(defaults.as_slice(), configured)
    }

    /// Applies `configured` over `DEFAULTS`; nothing where a key of those has no keysym.
    pub fn try_resolve(syms: &[u32], configured: &[(Combo, Option<Action>)]) -> (bindings: Option<
        Self,
    >)
        ensures
            match bindings {
                Some(b) => all_known(syms@) && b.resolves(built_in(syms@), configured@),
                None => !all_known(syms@),
            },
    {
        match parse_defaults(syms) {
            Some(_) => Some(Bindings::resolve(syms, configured)),
            None => None,
        }
    }

    /// Applies `configured` over `DEFAULTS`, with the keys of those looked up among the keysyms;
    /// nothing where one of them has none.
    pub fn resolve_named(keysyms: &Keysyms, configured: &[(Combo, Option<Action>)]) -> (bindings:
        Option<Self>)
        ensures
            match bindings {
                Some(b) => all_known(default_syms(keysyms@)) && b.resolves(
                    built_in(default_syms(keysyms@)),
                    configured@,
                ),
                None => !all_known(default_syms(keysyms@)),
            },
    {
        let mut syms: Vec<u32> = Vec::new();
        let mut i: usize = 0;
        while i < DEFAULTS.len()
            invariant
                i <= DEFAULTS@.len(),
                syms@ == default_syms(keysyms@).take(i as int),
            decreases DEFAULTS.len() - i,
        {
            let (keys, _) = DEFAULTS[i];
            syms.push(keysym_in(keys, keysyms));
            i += 1;
            assert(syms@ =~= default_syms(keysyms@).take(i as int));
        }
        assert(syms@ =~= default_syms(keysyms@));
        Bindings::try_resolve(syms.as_slice(), configured)
    }

    /// What a combination is bound to, if anything.
    pub fn get(&self, combo: &Combo) -> (action: Option<Action>)
        ensures
            action == if self.table().dom().contains(*combo) {
                Some(self.table()[*combo])
            } else {
                None
            },
    {
        match self.table.get(combo) {
            Some(action) => Some(*action),
            None => None,
        }
    }

    /// The action that a key press is bound to, if any: `modified` is the key's symbol with the
    /// modifiers applied, `raw` the Latin symbol printed on it, where it has one.
    ///
    /// The modifiers have to match exactly: a binding that does not name Shift does not fire
    /// while Shift is held. The modified symbol is tried first, the raw one after it.
    pub fn action(&self, mods: &Modifiers, modified: u32, raw: Option<u32>) -> (action: Option<
        Action,
    >)
        ensures
            action == pressed(self.table(), *mods, modified, raw),
    {
        match self.get(&Combo::with(mods, modified)) {
            Some(action) => Some(action),
            None => match raw {
                Some(raw) => {
                    if raw == modified {
                        None
                    } else {
                        self.get(&Combo::with(mods, raw))
                    }
                },
                None => None,
            },
        }
    }

    /// The combination that the window menu prints beside `action`, if anything is bound to it.
    pub fn menu_combo(&self, action: MenuAction) -> (combo: Option<Combo>)
        ensures
            combo == if self.menu().dom().contains(action) {
                Some(self.menu()[action])
            } else {
                None
            },
    {
        match self.menu.get(&action) {
            Some(combo) => Some(*combo),
            None => None,
        }
    }

    /// How many combinations are bound.
    pub fn len(&self) -> (n: usize)
        ensures
            self.table().dom().finite(),
            n == self.table().dom().len(),
    {
        self.table.len()
    }

    /// Whether nothing at all is bound.
    pub fn is_empty(&self) -> (empty: bool)
        ensures
            empty == (self.table() == Map::<Combo, Action>::empty()),
    {
        let n: usize = self.table.len();
        proof {
            if n == 0 {
                assert(self.table@.dom() =~= Set::empty());
                assert(self.table@ =~= Map::empty());
            }
        }
        n == 0
    }
}

/// Puts the candidate at `k` beside the menu item that it is bound to, where that item has none
/// yet.
fn advertise(
    menu: &mut Table<MenuAction, Combo>,
    table: &Table<Combo, Action>,
    combo: Combo,
    Ghost(named): Ghost<Seq<Combo>>,
    Ghost(k): Ghost<int>,
)
    requires
        0 <= k < named.len(),
        named[k] == combo,
        menu_shows(old(menu)@, named.take(k), table@),
    ensures
        menu_shows(final(menu)@, named.take(k + 1), table@),
{
    assert(named.take(k + 1).drop_last() =~= named.take(k));
    if let Some(Action::Window(item)) = table.get(&combo) {
        if !menu.contains(item) {
            menu.insert(*item, combo);
        }
    }
    assert forall|other: MenuAction| #[trigger]
        advertised(named.take(k + 1), table@, other) == if menu@.dom().contains(other) {
            Some(menu@[other])
        } else {
            None
        } by {
        let earlier = advertised(named.take(k), table@, other);
    }
}

/// The action of a key press: what the combination with its modified symbol is bound to, else
/// what the one with its raw symbol is.
pub open spec fn pressed(
    table: Map<Combo, Action>,
    mods: Modifiers,
    modified: u32,
    raw: Option<u32>,
) -> Option<Action> {
    let first = combo_with(mods, modified);
    if table.dom().contains(first) {
        Some(table[first])
    } else if raw matches Some(raw) && table.dom().contains(combo_with(mods, raw)) {
        Some(table[combo_with(mods, raw->Some_0)])
    } else {
        None
    }
}

/// Whether an action is what a combination with exactly these modifiers is bound to.
pub open spec fn fires(
    table: Map<Combo, Action>,
    combo: Combo,
    mods: Modifiers,
    action: Action,
) -> bool {
    &&& table.contains_pair(combo, action)
    &&& combo.ctrl == mods.ctrl
    &&& combo.alt == mods.alt
    &&& combo.shift == mods.shift
    &&& combo.logo == mods.logo
}

/// The modifiers have to match exactly: whatever a key press runs is bound to a combination that
/// names the modifiers held, and no others.
pub proof fn modifiers_match_exactly(
    table: Map<Combo, Action>,
    mods: Modifiers,
    modified: u32,
    raw: Option<u32>,
)
    ensures
        pressed(table, mods, modified, raw) matches Some(action) ==> exists|combo: Combo|
            #[trigger] fires(table, combo, mods, action),
{
    if pressed(table, mods, modified, raw) is Some {
        let action = pressed(table, mods, modified, raw)->0;
        if table.dom().contains(combo_with(mods, modified)) {
            assert(fires(table, combo_with(mods, modified), mods, action));
        } else {
            assert(fires(table, combo_with(mods, raw->0), mods, action));
        }
    }
}

/// The last entry that names a combination decides what it is bound to.
pub proof fn the_last_entry_decides(
    defaults: Seq<(Combo, Action)>,
    configured: Seq<(Combo, Option<Action>)>,
    i: int,
)
    requires
        0 <= i < configured.len(),
        forall|j: int| i < j < configured.len() ==> (#[trigger] configured[j]).0 != configured[i].0,
    ensures
        match configured[i].1 {
            Some(action) => bound(defaults, configured).contains_pair(configured[i].0, action),
            None => !bound(defaults, configured).dom().contains(configured[i].0),
        },
    decreases configured.len(),
{
    if i < configured.len() - 1 {
        let fewer = configured.drop_last();
        assert(configured.last() == configured[configured.len() - 1]);
        assert forall|j: int| i < j < fewer.len() implies (#[trigger] fewer[j]).0 != fewer[i].0 by {
            assert(fewer[j] == configured[j]);
        }
        the_last_entry_decides(defaults, fewer, i);
    }
}

/// A combination that the configuration does not name stays bound as the defaults bind it.
pub proof fn what_is_not_named_stays(
    defaults: Seq<(Combo, Action)>,
    configured: Seq<(Combo, Option<Action>)>,
    combo: Combo,
)
    requires
        forall|j: int| 0 <= j < configured.len() ==> (#[trigger] configured[j]).0 != combo,
    ensures
        bound(defaults, configured).dom().contains(combo) <==> listed(defaults).dom().contains(combo),
        listed(defaults).dom().contains(combo) ==> bound(defaults, configured)[combo] == listed(
            defaults,
        )[combo],
    decreases configured.len(),
{
    if configured.len() > 0 {
        let fewer = configured.drop_last();
        assert(configured.last() == configured[configured.len() - 1]);
        assert forall|j: int| 0 <= j < fewer.len() implies (#[trigger] fewer[j]).0 != combo by {
            assert(fewer[j] == configured[j]);
        }
        what_is_not_named_stays(defaults, fewer, combo);
    }
}

proof fn listed_is_named(defaults: Seq<(Combo, Action)>, combo: Combo) -> (i: int)
    requires
        listed(defaults).dom().contains(combo),
    ensures
        0 <= i < defaults.len(),
        defaults[i].0 == combo,
    decreases defaults.len(),
{
    if defaults.last().0 == combo {
        defaults.len() - 1
    } else {
        listed_is_named(defaults.drop_last(), combo)
    }
}

proof fn bound_is_named(
    defaults: Seq<(Combo, Action)>,
    configured: Seq<(Combo, Option<Action>)>,
    combo: Combo,
) -> (i: int)
    requires
        bound(defaults, configured).dom().contains(combo),
    ensures
        0 <= i < candidates(defaults, configured).len(),
        candidates(defaults, configured)[i] == combo,
    decreases configured.len(),
{
    if configured.len() == 0 {
        listed_is_named(defaults, combo)
    } else if configured.last().0 == combo {
        defaults.len() + configured.len() - 1
    } else {
        bound_is_named(defaults, configured.drop_last(), combo)
    }
}

proof fn advertised_is_first(named: Seq<Combo>, table: Map<Combo, Action>, item: MenuAction, i: int)
    requires
        0 <= i < named.len(),
        binds(table, named[i], item),
    ensures
        advertised(named, table, item) is Some,
        named.take(i + 1).contains(advertised(named, table, item)->0),
    decreases named.len(),
{
    let fewer = named.drop_last();
    if i < fewer.len() {
        advertised_is_first(fewer, table, item, i);
        assert(fewer.take(i + 1) =~= named.take(i + 1));
    } else {
        advertised_is_bound(fewer, table, item);
        assert(named.take(i + 1) =~= named);
        if advertised(fewer, table, item) is Some {
            let combo = advertised(fewer, table, item)->0;
            let j = fewer.index_of(combo);
            assert(named[j] == combo);
        } else {
            assert(named[i] == named.last());
        }
    }
}

proof fn advertised_is_bound(named: Seq<Combo>, table: Map<Combo, Action>, item: MenuAction)
    ensures
        advertised(named, table, item) matches Some(combo) ==> binds(table, combo, item)
            && named.contains(combo),
    decreases named.len(),
{
    if named.len() > 0 {
        let fewer = named.drop_last();
        advertised_is_bound(fewer, table, item);
        if advertised(fewer, table, item) is Some {
            let combo = advertised(fewer, table, item)->0;
            let j = fewer.index_of(combo);
            assert(named[j] == combo);
        } else {
            assert(named[named.len() - 1] == named.last());
        }
    }
}

/// The menu shows what is bound: the combination beside an item is bound to it, and an item has
/// none beside it only where no combination at all is bound to it.
pub proof fn the_menu_shows_what_is_bound(
    defaults: Seq<(Combo, Action)>,
    configured: Seq<(Combo, Option<Action>)>,
    item: MenuAction,
)
    ensures
        ({
            let table = bound(defaults, configured);
            match advertised(candidates(defaults, configured), table, item) {
                Some(combo) => binds(table, combo, item),
                None => forall|combo: Combo| !#[trigger] binds(table, combo, item),
            }
        }),
{
    let table = bound(defaults, configured);
    let named = candidates(defaults, configured);
    advertised_is_bound(named, table, item);
    if advertised(named, table, item) is None {
        assert forall|combo: Combo| !#[trigger] binds(table, combo, item) by {
            if binds(table, combo, item) {
                let i = bound_is_named(defaults, configured, combo);
                advertised_is_first(named, table, item, i);
            }
        }
    }
}

/// A combination that is added beside a default does not displace it from the menu: while a
/// default is bound to an item, what stands beside the item is a default, and no later one.
pub proof fn an_added_combination_does_not_displace_a_default(
    defaults: Seq<(Combo, Action)>,
    configured: Seq<(Combo, Option<Action>)>,
    item: MenuAction,
    i: int,
)
    requires
        0 <= i < defaults.len(),
        binds(bound(defaults, configured), defaults[i].0, item),
    ensures
        exists|j: int|
            0 <= j <= i && advertised(
                candidates(defaults, configured),
                bound(defaults, configured),
                item,
            ) == Some((#[trigger] defaults[j]).0),
{
    let named = candidates(defaults, configured);
    let table = bound(defaults, configured);
    assert(named[i] == defaults[i].0);
    advertised_is_first(named, table, item, i);
    let shown = advertised(named, table, item)->0;
    let j = named.take(i + 1).index_of(shown);
    assert(named.take(i + 1)[j] == shown);
    assert(defaults[j].0 == shown);
}

proof fn lowered_twice(s: Seq<char>)
    ensures
        lowered(lowered(s)) == lowered(s),
{
    assert(lowered(lowered(s)) =~= lowered(s));
}

proof fn split_keeps_case_apart(s: Seq<char>)
    ensures
        split_at_each(lowered(s), '+').len() == split_at_each(s, '+').len(),
        split_at_each(s, '+').len() > 0,
        forall|i: int|
            0 <= i < split_at_each(s, '+').len() ==> #[trigger] split_at_each(lowered(s), '+')[i]
                == lowered(split_at_each(s, '+')[i]),
    decreases s.len(),
{
    let low = lowered(s);
    if s.len() == 0 {
        assert(low =~= s);
        assert(lowered(Seq::<char>::empty()) =~= Seq::<char>::empty());
    } else {
        split_keeps_case_apart(s.drop_last());
        assert(low.drop_last() =~= lowered(s.drop_last()));
        assert(low.last() == crate::scan::lower(s.last()));
        let before = split_at_each(s.drop_last(), '+');
        let low_before = split_at_each(low.drop_last(), '+');
        assert(lowered(Seq::<char>::empty()) =~= Seq::<char>::empty());
        assert(lowered(before.last().push(s.last())) =~= lowered(before.last()).push(low.last()));
        assert(low_before[before.len() - 1] == lowered(before[before.len() - 1]));
    }
}

proof fn trim_keeps_case_apart(s: Seq<char>)
    ensures
        trimmed(lowered(s)) == lowered(trimmed(s)),
{
    trim_front_keeps_case_apart(s);
    trim_back_keeps_case_apart(trim_front(s));
}

proof fn trim_front_keeps_case_apart(s: Seq<char>)
    ensures
        trim_front(lowered(s)) == lowered(trim_front(s)),
    decreases s.len(),
{
    if s.len() > 0 {
        let rest = s.subrange(1, s.len() as int);
        let low = lowered(s);
        assert(low.subrange(1, low.len() as int) =~= lowered(rest));
        assert(low[0] == crate::scan::lower(s[0]));
        trim_front_keeps_case_apart(rest);
    }
}

proof fn trim_back_keeps_case_apart(s: Seq<char>)
    ensures
        trim_back(lowered(s)) == lowered(trim_back(s)),
    decreases s.len(),
{
    if s.len() > 0 {
        let low = lowered(s);
        assert(low.drop_last() =~= lowered(s.drop_last()));
        assert(low.last() == crate::scan::lower(s.last()));
        trim_back_keeps_case_apart(s.drop_last());
    }
}

/// A reading with its key in lower case.
spec fn spelt_low(read: Spelt) -> Spelt {
    match read {
        Spelt::Parts { ctrl, alt, shift, logo, key: Some(key) } => Spelt::Parts {
            ctrl,
            alt,
            shift,
            logo,
            key: Some(lowered(key)),
        },
        Spelt::TwoKeys { first, second } => Spelt::TwoKeys {
            first: lowered(first),
            second: lowered(second),
        },
        other => other,
    }
}

proof fn spelt_keeps_case_apart(parts: Seq<Seq<char>>, low: Seq<Seq<char>>)
    requires
        low.len() == parts.len(),
        forall|i: int| 0 <= i < parts.len() ==> #[trigger] low[i] == lowered(parts[i]),
    ensures
        spelt(low) == spelt_low(spelt(parts)),
    decreases parts.len(),
{
    if parts.len() > 0 {
        assert forall|i: int| 0 <= i < parts.len() - 1 implies #[trigger] low.drop_last()[i]
            == lowered(parts.drop_last()[i]) by {
            assert(low[i] == lowered(parts[i]));
        }
        spelt_keeps_case_apart(parts.drop_last(), low.drop_last());
        assert(low[parts.len() - 1] == lowered(parts[parts.len() - 1]));
        trim_keeps_case_apart(parts.last());
        lowered_twice(trimmed(parts.last()));
    }
}

/// Letter case is no part of a combination: texts that differ in nothing else name keys that
/// differ in nothing else, and with the same keysym for those, the same combination.
pub proof fn case_is_no_part_of_a_combination(text: Seq<char>, other: Seq<char>, sym: u32)
    requires
        lowered(text) == lowered(other),
    ensures
        match (key_in(text), key_in(other)) {
            (Some(key), Some(same)) => lowered(key) == lowered(same),
            (None, None) => true,
            _ => false,
        },
        combo_or_fault(text, sym) is Ok ==> combo_or_fault(other, sym) == combo_or_fault(text, sym),
{
    split_keeps_case_apart(text);
    split_keeps_case_apart(other);
    spelt_keeps_case_apart(split_at_each(text, '+'), split_at_each(lowered(text), '+'));
    spelt_keeps_case_apart(split_at_each(other, '+'), split_at_each(lowered(other), '+'));
}

proof fn splitting_at_a_plus(a: Seq<char>, b: Seq<char>)
    requires
        forall|i: int| 0 <= i < b.len() ==> #[trigger] b[i] != '+',
    ensures
        split_at_each(a.push('+') + b, '+') == split_at_each(a, '+').push(b),
    decreases b.len(),
{
    let s = a.push('+') + b;
    if b.len() == 0 {
        assert(s =~= a.push('+'));
        assert(s.drop_last() =~= a);
        assert(b =~= Seq::<char>::empty());
    } else {
        let fewer = b.drop_last();
        assert forall|i: int| 0 <= i < fewer.len() implies #[trigger] fewer[i] != '+' by {
            assert(b[i] != '+');
        }
        assert(b[b.len() - 1] != '+');
        splitting_at_a_plus(a, fewer);
        assert(s.drop_last() =~= a.push('+') + fewer);
        let before = split_at_each(a, '+');
        assert(before.push(fewer).drop_last() =~= before);
        assert(fewer.push(b.last()) =~= b);
    }
}

proof fn a_word_is_one_part(b: Seq<char>)
    requires
        forall|i: int| 0 <= i < b.len() ==> #[trigger] b[i] != '+',
    ensures
        split_at_each(b, '+') == seq![b],
    decreases b.len(),
{
    if b.len() == 0 {
        assert(b =~= Seq::<char>::empty());
    } else {
        let fewer = b.drop_last();
        assert forall|i: int| 0 <= i < fewer.len() implies #[trigger] fewer[i] != '+' by {
            assert(b[i] != '+');
        }
        assert(b[b.len() - 1] != '+');
        a_word_is_one_part(fewer);
        assert(seq![fewer].drop_last() =~= Seq::<Seq<char>>::empty());
        assert(fewer.push(b.last()) =~= b);
        assert(Seq::<Seq<char>>::empty().push(b) =~= seq![b]);
    }
}

/// Whether a text is the name of a key, as far as a combination can tell: a word without a plus
/// sign or space around it that is no modifier.
pub open spec fn names_a_key(key: Seq<char>) -> bool {
    &&& key.len() > 0
    &&& trimmed(key) == key
    &&& modifier_named(key) is None
    &&& forall|i: int| 0 <= i < key.len() ==> #[trigger] key[i] != '+'
}

/// The parts that a spelling is put together from.
pub open spec fn spelling_parts(combo: Combo, key: Seq<char>) -> Seq<Seq<char>> {
    held_part(combo.ctrl, "Ctrl"@) + held_part(combo.alt, "Alt"@) + held_part(
        combo.shift,
        "Shift"@,
    ) + held_part(combo.logo, "Super"@) + seq![key]
}

pub open spec fn held_part(held: bool, name: Seq<char>) -> Seq<Seq<char>> {
    if held {
        seq![name]
    } else {
        Seq::empty()
    }
}

proof fn one_more_part(
    parts: Seq<Seq<char>>,
    text: Seq<char>,
    held: bool,
    name: Seq<char>,
    rest: Seq<char>,
)
    requires
        text.len() == 0 ==> parts.len() == 0,
        text.len() > 0 ==> text.last() == '+' && split_at_each(text.drop_last(), '+') == parts,
        name.len() > 0,
        forall|i: int| 0 <= i < name.len() ==> #[trigger] name[i] != '+',
        forall|i: int| 0 <= i < rest.len() ==> #[trigger] rest[i] != '+',
    ensures
        ({
            let more = text + held_text(held, name);
            let all = parts + held_part(held, name);
            &&& more.len() == 0 ==> all.len() == 0
            &&& more.len() > 0 ==> more.last() == '+' && split_at_each(more.drop_last(), '+') == all
            &&& split_at_each(more + rest, '+') == all + seq![rest]
        }),
{
    reveal_strlit("+");
    let more = text + held_text(held, name);
    let all = parts + held_part(held, name);
    if held {
        assert(more =~= text + name.push('+'));
        assert(more.drop_last() =~= text + name);
        if text.len() == 0 {
            assert(text + name =~= name);
            a_word_is_one_part(name);
            assert(all =~= seq![name]);
        } else {
            splitting_at_a_plus(text.drop_last(), name);
            assert(text.drop_last().push('+') =~= text);
            assert(all =~= parts.push(name));
        }
    } else {
        assert(more =~= text);
        assert(all =~= parts);
    }
    if more.len() == 0 {
        assert(more + rest =~= rest);
        a_word_is_one_part(rest);
        assert(all + seq![rest] =~= seq![rest]);
    } else {
        splitting_at_a_plus(more.drop_last(), rest);
        assert(more.drop_last().push('+') =~= more);
        assert(all + seq![rest] =~= all.push(rest));
    }
}

proof fn the_spelling_has_these_parts(combo: Combo, key: Seq<char>)
    requires
        forall|i: int| 0 <= i < key.len() ==> #[trigger] key[i] != '+',
    ensures
        split_at_each(spelling(combo, key), '+') == spelling_parts(combo, key),
{
    reveal_strlit("Ctrl");
    reveal_strlit("Alt");
    reveal_strlit("Shift");
    reveal_strlit("Super");
    let none = Seq::<char>::empty();
    let ctrl = none + held_text(combo.ctrl, "Ctrl"@);
    let ctrls = Seq::<Seq<char>>::empty() + held_part(combo.ctrl, "Ctrl"@);
    one_more_part(Seq::empty(), none, combo.ctrl, "Ctrl"@, key);
    let alt = ctrl + held_text(combo.alt, "Alt"@);
    let alts = ctrls + held_part(combo.alt, "Alt"@);
    one_more_part(ctrls, ctrl, combo.alt, "Alt"@, key);
    let shift = alt + held_text(combo.shift, "Shift"@);
    let shifts = alts + held_part(combo.shift, "Shift"@);
    one_more_part(alts, alt, combo.shift, "Shift"@, key);
    one_more_part(shifts, shift, combo.logo, "Super"@, key);
    assert(spelling(combo, key) =~= shift + held_text(combo.logo, "Super"@) + key);
    assert(spelling_parts(combo, key) =~= shifts + held_part(combo.logo, "Super"@) + seq![key]);
}

proof fn the_names_are_of_the_modifiers()
    ensures
        modifier_named("Ctrl"@) == Some(Modifier::Ctrl),
        modifier_named("Alt"@) == Some(Modifier::Alt),
        modifier_named("Shift"@) == Some(Modifier::Shift),
        modifier_named("Super"@) == Some(Modifier::Logo),
        trimmed("Ctrl"@) == "Ctrl"@ && "Ctrl"@.len() > 0,
        trimmed("Alt"@) == "Alt"@ && "Alt"@.len() > 0,
        trimmed("Shift"@) == "Shift"@ && "Shift"@.len() > 0,
        trimmed("Super"@) == "Super"@ && "Super"@.len() > 0,
{
    reveal_strlit("Ctrl");
    reveal_strlit("Alt");
    reveal_strlit("Shift");
    reveal_strlit("Super");
    reveal_strlit("ctrl");
    reveal_strlit("control");
    reveal_strlit("alt");
    reveal_strlit("shift");
    reveal_strlit("super");
    assert(lowered("Ctrl"@) =~= "ctrl"@);
    assert(lowered("Alt"@) =~= "alt"@);
    assert(lowered("Shift"@) =~= "shift"@);
    assert(lowered("Super"@) =~= "super"@);
    assert("ctrl"@.len() == 4 && "control"@.len() == 7 && "alt"@.len() == 3);
    assert("shift"@[1] == 'h' && "super"@[1] == 'u');
}

proof fn a_held_part_is_read(parts: Seq<Seq<char>>, held: bool, name: Seq<char>, m: Modifier)
    requires
        spelt(parts) is Parts,
        modifier_named(name) == Some(m),
        trimmed(name) == name,
        name.len() > 0,
    ensures
        spelt(parts + held_part(held, name)) == (match spelt(parts) {
            Spelt::Parts { ctrl, alt, shift, logo, key } => Spelt::Parts {
                ctrl: ctrl || held && m == Modifier::Ctrl,
                alt: alt || held && m == Modifier::Alt,
                shift: shift || held && m == Modifier::Shift,
                logo: logo || held && m == Modifier::Logo,
                key,
            },
            fault => fault,
        }),
{
    let all = parts + held_part(held, name);
    if held {
        assert(all =~= parts.push(name));
        assert(all.drop_last() =~= parts);
    } else {
        assert(all =~= parts);
    }
}

/// A combination that is spelt reads back as itself: the modifiers that it holds, no others, and
/// its key.
pub proof fn a_combination_reads_back(combo: Combo, key: Seq<char>)
    requires
        names_a_key(key),
        combo.sym != 0,
    ensures
        key_in(spelling(combo, key)) == Some(key),
        combo_or_fault(spelling(combo, key), combo.sym) == Ok::<Combo, Seq<char>>(combo),
{
    the_spelling_has_these_parts(combo, key);
    the_names_are_of_the_modifiers();
    let none = Seq::<Seq<char>>::empty();
    let ctrls = none + held_part(combo.ctrl, "Ctrl"@);
    a_held_part_is_read(none, combo.ctrl, "Ctrl"@, Modifier::Ctrl);
    let alts = ctrls + held_part(combo.alt, "Alt"@);
    a_held_part_is_read(ctrls, combo.alt, "Alt"@, Modifier::Alt);
    let shifts = alts + held_part(combo.shift, "Shift"@);
    a_held_part_is_read(alts, combo.shift, "Shift"@, Modifier::Shift);
    let logos = shifts + held_part(combo.logo, "Super"@);
    a_held_part_is_read(shifts, combo.logo, "Super"@, Modifier::Logo);
    let all = spelling_parts(combo, key);
    assert(all =~= logos.push(key));
    assert(all.drop_last() =~= logos);
}

/// The desks are numbered from one: the number that a binding gives is one more than the place of
/// its desk, and there is none before the first.
pub proof fn desks_are_numbered_from_one(place: usize)
    requires
        place < usize::MAX,
    ensures
        desk_numbered(decimal_text((place + 1) as nat)) == Some(place),
        desk_numbered(decimal_text(0)) is None,
{
    decimal_text_reads_back((place + 1) as nat);
    decimal_text_reads_back(0);
    assert(is_digit(decimal_text((place + 1) as nat)[0]));
    assert(is_digit(decimal_text(0)[0]));
}

/// A menu item is bound by the name it has in the menu, in lower case.
pub proof fn an_item_is_bound_by_its_label(state: MenuState, i: int)
    requires
        0 <= i < rows_for(state).len(),
        rows_for(state)[i].0 is Some,
    ensures
        plain_action(lowered(rows_for(state)[i].1)) == Some(
            Action::Window(rows_for(state)[i].0->0),
        ),
{
    reveal_strlit("Restore");
    reveal_strlit("Move");
    reveal_strlit("Size");
    reveal_strlit("Minimize");
    reveal_strlit("Maximize");
    reveal_strlit("Raise");
    reveal_strlit("Lower");
    reveal_strlit("Close");
    reveal_strlit("restore");
    reveal_strlit("move");
    reveal_strlit("size");
    reveal_strlit("minimize");
    reveal_strlit("maximize");
    reveal_strlit("raise");
    reveal_strlit("lower");
    reveal_strlit("close");
    assert(lowered("Restore"@) =~= "restore"@);
    assert(lowered("Move"@) =~= "move"@);
    assert(lowered("Size"@) =~= "size"@);
    assert(lowered("Minimize"@) =~= "minimize"@);
    assert(lowered("Maximize"@) =~= "maximize"@);
    assert(lowered("Raise"@) =~= "raise"@);
    assert(lowered("Lower"@) =~= "lower"@);
    assert(lowered("Close"@) =~= "close"@);
    assert("restore"@.len() == 7 && "move"@[0] == 'm' && "size"@[0] == 's');
    assert("minimize"@[1] == 'i' && "maximize"@[1] == 'a');
    assert("raise"@[0] == 'r' && "lower"@[0] == 'l' && "close"@[0] == 'c');
    assert("move"@.len() == 4 && "size"@.len() == 4 && "minimize"@.len() == 8 && "maximize"@.len()
        == 8 && "raise"@.len() == 5 && "lower"@.len() == 5 && "close"@.len() == 5);
}

/// The word `none` takes a binding away, however its letters are cased and whatever space is around
/// it; nothing else does.
pub proof fn none_takes_a_binding_away(text: Seq<char>)
    ensures
        binding_named(text) == Ok::<Option<Action>, Seq<char>>(None) <==> {
            let word = lowered(trimmed(text));
            word == seq!['n', 'o', 'n', 'e']
        },
        binding_named(text) matches Ok(Some(action)) ==> action_named(text) == Ok::<
            Action,
            Seq<char>,
        >(action),
{
    reveal_strlit("none");
    assert("none"@ =~= seq!['n', 'o', 'n', 'e']);
}

} // verus!

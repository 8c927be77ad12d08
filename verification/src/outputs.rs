//! Per-monitor display settings: the texts that a state file holds for a mode and an
//! orientation, and how that file's entries are laid over hand-set defaults, field by field.
use vstd::prelude::*;

use crate::geometry::rounded;
use crate::paths::{join, joined};
use crate::pidfile::text_of;
use crate::scan::{
    chars_of, decimal_text, decimal_text_reads_back, integer, integer_i32, integer_text,
    integer_text_reads_back, is_digit, is_space, lowered, natural, natural_up_to, parse_i32,
    parse_natural, push_integer, same_text, text_between, to_ascii_lowercase, trim, trim_back,
    trim_front, trimmed,
};
use crate::table::Table;

verus! {

/// Where the machine-written state lives, relative to the state directory.
pub const STATE_NAME: &'static str = "wlrix/outputs.toml";

/// The bits of an IEEE 754 double, for a number that is kept and never reckoned with.
#[derive(Debug, Clone, Copy, PartialEq, Eq, Structural)]
pub struct Real64 {
    pub bits: u64,
}

/// The bits of an IEEE 754 single.
#[derive(Debug, Clone, Copy, PartialEq, Eq, Structural)]
pub struct Real32 {
    pub bits: u32,
}

/// An output's orientation.
#[derive(Debug, Clone, Copy, PartialEq, Eq, Structural)]
pub enum Transform {
    Normal,
    _90,
    _180,
    _270,
    Flipped,
    Flipped90,
    Flipped180,
    Flipped270,
}

/// One monitor's saved settings. Every field past `name` is optional: an absent field means "no
/// opinion".
#[derive(Debug, PartialEq, Eq)]
pub struct OutputConfig {
    /// The connector name.
    pub name: String,
    /// Resolution and refresh as `WIDTHxHEIGHT@HZ`, or `WIDTHxHEIGHT`.
    pub mode: Option<String>,
    /// Top-left corner in the global layout.
    pub position: Option<(i32, i32)>,
    pub scale: Option<Real64>,
    /// Orientation, by name.
    pub transform: Option<String>,
    /// Whether the output is switched on. Absent is treated as on.
    pub enabled: Option<bool>,
    pub adaptive_sync: Option<bool>,
    pub hdr: Option<bool>,
    /// Reference white for SDR content on an HDR output, in cd/m2.
    pub sdr_white_nits: Option<Real32>,
    /// Whether to alpha-composite in linear light on an HDR output.
    pub linear_blending: Option<bool>,
}

/// What an entry says, past its name.
pub ghost struct Settings {
    pub mode: Option<Seq<char>>,
    pub position: Option<(i32, i32)>,
    pub scale: Option<Real64>,
    pub transform: Option<Seq<char>>,
    pub enabled: Option<bool>,
    pub adaptive_sync: Option<bool>,
    pub hdr: Option<bool>,
    pub sdr_white_nits: Option<Real32>,
    pub linear_blending: Option<bool>,
}

/// The second where it says something, else the first.
pub open spec fn over<T>(under: Option<T>, upper: Option<T>) -> Option<T> {
    if upper is Some {
        upper
    } else {
        under
    }
}

impl Settings {
    /// No opinion on anything.
    pub open spec fn none() -> Settings {
        Settings {
            mode: None,
            position: None,
            scale: None,
            transform: None,
            enabled: None,
            adaptive_sync: None,
            hdr: None,
            sdr_white_nits: None,
            linear_blending: None,
        }
    }

    /// These settings, with another entry's laid over them field by field.
    pub open spec fn overlaid(self, upper: Settings) -> Settings {
        Settings {
            mode: over(self.mode, upper.mode),
            position: over(self.position, upper.position),
            scale: over(self.scale, upper.scale),
            transform: over(self.transform, upper.transform),
            enabled: over(self.enabled, upper.enabled),
            adaptive_sync: over(self.adaptive_sync, upper.adaptive_sync),
            hdr: over(self.hdr, upper.hdr),
            sdr_white_nits: over(self.sdr_white_nits, upper.sdr_white_nits),
            linear_blending: over(self.linear_blending, upper.linear_blending),
        }
    }
}

/// What an owned text holds, if there is one.
pub open spec fn held_text(text: Option<String>) -> Option<Seq<char>> {
    match text {
        Some(text) => Some(text@),
        None => None,
    }
}

impl OutputConfig {
    /// What the entry says.
    pub open spec fn settings(self) -> Settings {
        Settings {
            mode: held_text(self.mode),
            position: self.position,
            scale: self.scale,
            transform: held_text(self.transform),
            enabled: self.enabled,
            adaptive_sync: self.adaptive_sync,
            hdr: self.hdr,
            sdr_white_nits: self.sdr_white_nits,
            linear_blending: self.linear_blending,
        }
    }

    /// An entry with no opinion on anything.
    pub fn named(name: String) -> (entry: Self)
        ensures
            entry.name == name,
            entry.settings() == Settings::none(),
    {
        OutputConfig {
            name,
            mode: None,
            position: None,
            scale: None,
            transform: None,
            enabled: None,
            adaptive_sync: None,
            hdr: None,
            sdr_white_nits: None,
            linear_blending: None,
        }
    }

    /// The same entry again.
    pub fn copied(&self) -> (entry: Self)
        ensures
            entry.name@ == self.name@,
            entry.settings() == self.settings(),
    {
        OutputConfig {
            name: self.name.clone(),
            mode: copied_text(&self.mode),
            position: self.position,
            scale: self.scale,
            transform: copied_text(&self.transform),
            enabled: self.enabled,
            adaptive_sync: self.adaptive_sync,
            hdr: self.hdr,
            sdr_white_nits: self.sdr_white_nits,
            linear_blending: self.linear_blending,
        }
    }

    /// Overlays another entry's set fields onto this one.
    pub fn overlay(&mut self, other: &OutputConfig)
        ensures
            final(self).settings() == old(self).settings().overlaid(other.settings()),
            final(self).name == old(self).name,
    {
        if other.mode.is_some() {
            self.mode = copied_text(&other.mode);
        }
        if other.position.is_some() {
            self.position = other.position;
        }
        if other.scale.is_some() {
            self.scale = other.scale;
        }
        if other.transform.is_some() {
            self.transform = copied_text(&other.transform);
        }
        if other.enabled.is_some() {
            self.enabled = other.enabled;
        }
        if other.adaptive_sync.is_some() {
            self.adaptive_sync = other.adaptive_sync;
        }
        if other.hdr.is_some() {
            self.hdr = other.hdr;
        }
        if other.sdr_white_nits.is_some() {
            self.sdr_white_nits = other.sdr_white_nits;
        }
        if other.linear_blending.is_some() {
            self.linear_blending = other.linear_blending;
        }
    }

    /// The orientation that this entry names, if it names a valid one.
    pub fn transform(&self) -> (transform: Option<Transform>)
        ensures
            transform == match held_text(self.transform) {
                Some(name) => transform_named(name),
                None => None,
            },
    {
        match &self.transform {
            Some(name) => parse_transform(name.as_str()),
            None => None,
        }
    }

    /// The scale that this entry sets.
    pub fn scale(&self) -> (scale: Option<Real64>)
        ensures
            scale == self.scale,
    {
        self.scale
    }
}

fn copied_text(text: &Option<String>) -> (copy: Option<String>)
    ensures
        held_text(copy) == held_text(*text),
{
    match text {
        Some(text) => Some(text.clone()),
        None => None,
    }
}

/// The name and the settings of an entry.
pub open spec fn entry_of(entry: OutputConfig) -> (Seq<char>, Settings) {
    (entry.name@, entry.settings())
}

/// The names and the settings of a list of entries.
pub open spec fn entries_of(entries: Seq<OutputConfig>) -> Seq<(Seq<char>, Settings)> {
    entries.map_values(|entry: OutputConfig| entry_of(entry))
}

/// The settings by output name that `state` makes of `defaults`: a later default replaces an
/// earlier one, and each entry of the state is laid over what there is for its name.
pub open spec fn resolved(
    defaults: Seq<(Seq<char>, Settings)>,
    state: Seq<(Seq<char>, Settings)>,
) -> Map<Seq<char>, Settings>
    decreases state.len(), defaults.len(),
{
    if state.len() > 0 {
        let before = resolved(defaults, state.drop_last());
        let (name, upper) = state.last();
        let under = if before.dom().contains(name) {
            before[name]
        } else {
            Settings::none()
        };
        before.insert(name, under.overlaid(upper))
    } else if defaults.len() > 0 {
        resolved(defaults.drop_last(), state).insert(defaults.last().0, defaults.last().1)
    } else {
        Map::empty()
    }
}

/// The merged, per-connector display config.
pub type DisplayConfig = Table<String, OutputConfig>;

/// The settings that a table of entries holds.
pub open spec fn held(config: Map<Seq<char>, OutputConfig>) -> Map<Seq<char>, Settings> {
    config.map_values(|entry: OutputConfig| entry.settings())
}

/// Builds the startup display config: hand-set defaults with the machine-written state overlaid
/// on top, per field.
pub fn resolve(defaults: &[OutputConfig], state: &[OutputConfig]) -> (config: DisplayConfig)
    ensures
        held(config@) == resolved(entries_of(defaults@), entries_of(state@)),
        forall|name: Seq<char>| #[trigger]
            config@.dom().contains(name) ==> config@[name].name@ == name,
{
    let mut config: DisplayConfig = Table::new();
    let ghost under = entries_of(defaults@);
    let ghost upper = entries_of(state@);
    let mut i: usize = 0;
    assert(under.take(0) =~= Seq::empty());
    assert(upper.take(0) =~= Seq::empty());
    assert(held(config@) =~= Map::empty());
    while i < defaults.len()
        invariant
            i <= defaults@.len(),
            under == entries_of(defaults@),
            held(config@) == resolved(under.take(i as int), Seq::empty()),
            forall|name: Seq<char>| #[trigger]
                config@.dom().contains(name) ==> config@[name].name@ == name,
        decreases defaults.len() - i,
    {
        let entry = defaults[i].copied();
        let ghost before = config@;
        config.insert(entry.name.clone(), entry);
        i += 1;
        assert(under.take(i as int).drop_last() =~= under.take(i - 1));
        assert(held(config@) =~= held(before).insert(entry.name@, entry.settings()));
    }
    assert(under.take(under.len() as int) =~= under);
    let mut j: usize = 0;
    while j < state.len()
        invariant
            j <= state@.len(),
            upper == entries_of(state@),
            held(config@) == resolved(under, upper.take(j as int)),
            forall|name: Seq<char>| #[trigger]
                config@.dom().contains(name) ==> config@[name].name@ == name,
        decreases state.len() - j,
    {
        let mut entry = match config.get(&state[j].name) {
            Some(held) => held.copied(),
            None => OutputConfig::named(state[j].name.clone()),
        };
        let ghost before = config@;
        entry.overlay(&state[j]);
        config.insert(state[j].name.clone(), entry);
        j += 1;
        assert(upper.take(j as int).drop_last() =~= upper.take(j - 1));
        assert(held(config@) =~= held(before).insert(state@[j - 1].name@, entry.settings()));
    }
    assert(upper.take(upper.len() as int) =~= upper);
    config
}

/// What there is for a name; no opinion where there is nothing.
pub open spec fn said_of(config: Map<Seq<char>, Settings>, name: Seq<char>) -> Settings {
    if config.dom().contains(name) {
        config[name]
    } else {
        Settings::none()
    }
}

/// What the state says of an output wins, field by field, over what the defaults say of it, and
/// a field that the state leaves open is the defaults'.
pub proof fn the_state_wins_per_field(
    defaults: Seq<(Seq<char>, Settings)>,
    state: Seq<(Seq<char>, Settings)>,
    i: int,
)
    requires
        0 <= i < state.len(),
        forall|j: int| 0 <= j < state.len() && j != i ==> (#[trigger] state[j]).0 != state[i].0,
    ensures
        resolved(defaults, state).contains_pair(
            state[i].0,
            said_of(resolved(defaults, Seq::empty()), state[i].0).overlaid(state[i].1),
        ),
    decreases state.len(),
{
    let fewer = state.drop_last();
    let name = state[i].0;
    if i < fewer.len() {
        assert forall|j: int| 0 <= j < fewer.len() && j != i implies (#[trigger] fewer[j]).0
            != fewer[i].0 by {
            assert(state[j].0 != state[i].0);
        }
        the_state_wins_per_field(defaults, fewer, i);
        assert(state[state.len() - 1].0 != name);
    } else {
        assert forall|j: int| 0 <= j < fewer.len() implies (#[trigger] fewer[j]).0 != name by {
            assert(state[j].0 != state[i].0);
        }
        what_the_state_does_not_name_stays(defaults, fewer, name);
    }
}

/// An output that the state does not name keeps what the defaults say of it.
pub proof fn what_the_state_does_not_name_stays(
    defaults: Seq<(Seq<char>, Settings)>,
    state: Seq<(Seq<char>, Settings)>,
    name: Seq<char>,
)
    requires
        forall|i: int| 0 <= i < state.len() ==> (#[trigger] state[i]).0 != name,
    ensures
        resolved(defaults, state).dom().contains(name) <==> resolved(
            defaults,
            Seq::empty(),
        ).dom().contains(name),
        resolved(defaults, state).dom().contains(name) ==> resolved(defaults, state)[name]
            == resolved(defaults, Seq::empty())[name],
    decreases state.len(),
{
    if state.len() > 0 {
        let fewer = state.drop_last();
        assert(state.last() == state[state.len() - 1]);
        assert forall|i: int| 0 <= i < fewer.len() implies (#[trigger] fewer[i]).0 != name by {
            assert(fewer[i] == state[i]);
        }
        what_the_state_does_not_name_stays(defaults, fewer, name);
    } else {
        assert(state =~= Seq::empty());
    }
}

/// Of two defaults for an output the later one counts, whole.
pub proof fn the_last_default_counts(defaults: Seq<(Seq<char>, Settings)>, k: int)
    requires
        0 <= k < defaults.len(),
        forall|j: int| k < j < defaults.len() ==> (#[trigger] defaults[j]).0 != defaults[k].0,
    ensures
        resolved(defaults, Seq::empty()).contains_pair(defaults[k].0, defaults[k].1),
    decreases defaults.len(),
{
    let fewer = defaults.drop_last();
    if k < fewer.len() {
        assert forall|j: int| k < j < fewer.len() implies (#[trigger] fewer[j]).0 != fewer[k].0 by {
            assert(defaults[j].0 != defaults[k].0);
        }
        the_last_default_counts(fewer, k);
        assert(defaults[defaults.len() - 1].0 != defaults[k].0);
    }
}

/// An output that no default is for has none.
pub proof fn what_no_default_names_has_none(
    defaults: Seq<(Seq<char>, Settings)>,
    name: Seq<char>,
)
    requires
        forall|j: int| 0 <= j < defaults.len() ==> (#[trigger] defaults[j]).0 != name,
    ensures
        !resolved(defaults, Seq::empty()).dom().contains(name),
    decreases defaults.len(),
{
    if defaults.len() > 0 {
        let fewer = defaults.drop_last();
        assert forall|j: int| 0 <= j < fewer.len() implies (#[trigger] fewer[j]).0 != name by {
            assert(defaults[j].0 != name);
        }
        what_no_default_names_has_none(fewer, name);
        assert(defaults[defaults.len() - 1].0 != name);
    }
}

/// Whether a field is what was saved, where that says something, and else the default; texts are
/// told by what they hold.
pub open spec fn saved_or_default<T>(
    field: Option<T>,
    saved: Option<T>,
    default: Option<T>,
) -> bool {
    &&& saved matches Some(value) ==> field == Some(value)
    &&& saved is None ==> field == default
}

/// Each setting of an output is the one that was saved, where one was, and otherwise the one that
/// was set by hand. What was set by hand is the last entry for the output, if there is any.
pub proof fn each_saved_setting_wins(
    defaults: Seq<OutputConfig>,
    state: Seq<OutputConfig>,
    i: int,
    k: Option<int>,
)
    requires
        0 <= i < state.len(),
        forall|j: int|
            0 <= j < state.len() && j != i ==> (#[trigger] state[j]).name@ != state[i].name@,
        match k {
            Some(k) => {
                &&& 0 <= k < defaults.len()
                &&& defaults[k].name@ == state[i].name@
                &&& forall|j: int|
                    k < j < defaults.len() ==> (#[trigger] defaults[j]).name@ != state[i].name@
            },
            None => forall|j: int|
                0 <= j < defaults.len() ==> (#[trigger] defaults[j]).name@ != state[i].name@,
        },
    ensures
        ({
            let all = resolved(entries_of(defaults), entries_of(state));
            let now = all[state[i].name@];
            let saved = state[i];
            &&& all.dom().contains(saved.name@)
            &&& saved.mode matches Some(text) ==> now.mode == Some(text@)
            &&& saved.transform matches Some(text) ==> now.transform == Some(text@)
            &&& match k {
                Some(k) => {
                    let default = defaults[k];
                    &&& saved.mode is None ==> (default.mode matches Some(text) ==> now.mode
                        == Some(text@)) && (default.mode is None ==> now.mode is None)
                    &&& saved.transform is None ==> (default.transform matches Some(text)
                        ==> now.transform == Some(text@)) && (default.transform is None
                        ==> now.transform is None)
                    &&& saved_or_default(now.position, saved.position, default.position)
                    &&& saved_or_default(now.scale, saved.scale, default.scale)
                    &&& saved_or_default(now.enabled, saved.enabled, default.enabled)
                    &&& saved_or_default(
                        now.adaptive_sync,
                        saved.adaptive_sync,
                        default.adaptive_sync,
                    )
                    &&& saved_or_default(now.hdr, saved.hdr, default.hdr)
                    &&& saved_or_default(
                        now.sdr_white_nits,
                        saved.sdr_white_nits,
                        default.sdr_white_nits,
                    )
                    &&& saved_or_default(
                        now.linear_blending,
                        saved.linear_blending,
                        default.linear_blending,
                    )
                },
                None => {
                    &&& saved.mode is None ==> now.mode is None
                    &&& saved.transform is None ==> now.transform is None
                    &&& now.position == saved.position
                    &&& now.scale == saved.scale
                    &&& now.enabled == saved.enabled
                    &&& now.adaptive_sync == saved.adaptive_sync
                    &&& now.hdr == saved.hdr
                    &&& now.sdr_white_nits == saved.sdr_white_nits
                    &&& now.linear_blending == saved.linear_blending
                },
            }
        }),
{
    let under = entries_of(defaults);
    let upper = entries_of(state);
    let name = state[i].name@;
    assert forall|j: int| 0 <= j < upper.len() && j != i implies (#[trigger] upper[j]).0
        != upper[i].0 by {
        assert(state[j].name@ != state[i].name@);
    }
    the_state_wins_per_field(under, upper, i);
    match k {
        Some(k) => {
            assert forall|j: int| k < j < under.len() implies (#[trigger] under[j]).0 != under[k].0 by {
                assert(defaults[j].name@ != name);
            }
            the_last_default_counts(under, k);
        },
        None => {
            assert forall|j: int| 0 <= j < under.len() implies (#[trigger] under[j]).0 != name by {
                assert(defaults[j].name@ != name);
            }
            what_no_default_names_has_none(under, name);
        },
    }
}

/// An output that nothing was saved of has what was set by hand, and one that nothing was said of
/// at all has no settings.
pub proof fn what_was_not_saved_is_as_set_by_hand(
    defaults: Seq<OutputConfig>,
    state: Seq<OutputConfig>,
    name: Seq<char>,
    k: Option<int>,
)
    requires
        forall|j: int| 0 <= j < state.len() ==> (#[trigger] state[j]).name@ != name,
        match k {
            Some(k) => {
                &&& 0 <= k < defaults.len()
                &&& defaults[k].name@ == name
                &&& forall|j: int| k < j < defaults.len() ==> (#[trigger] defaults[j]).name@ != name
            },
            None => forall|j: int| 0 <= j < defaults.len() ==> (#[trigger] defaults[j]).name@ != name,
        },
    ensures
        ({
            let all = resolved(entries_of(defaults), entries_of(state));
            match k {
                Some(k) => {
                    let now = all[name];
                    let default = defaults[k];
                    &&& all.dom().contains(name)
                    &&& default.mode matches Some(text) ==> now.mode == Some(text@)
                    &&& default.mode is None ==> now.mode is None
                    &&& default.transform matches Some(text) ==> now.transform == Some(text@)
                    &&& default.transform is None ==> now.transform is None
                    &&& now.position == default.position && now.scale == default.scale
                    &&& now.enabled == default.enabled && now.adaptive_sync
                        == default.adaptive_sync
                    &&& now.hdr == default.hdr && now.sdr_white_nits == default.sdr_white_nits
                    &&& now.linear_blending == default.linear_blending
                },
                None => !all.dom().contains(name),
            }
        }),
{
    let under = entries_of(defaults);
    let upper = entries_of(state);
    assert forall|j: int| 0 <= j < upper.len() implies (#[trigger] upper[j]).0 != name by {
        assert(state[j].name@ != name);
    }
    what_the_state_does_not_name_stays(under, upper, name);
    match k {
        Some(k) => {
            assert forall|j: int| k < j < under.len() implies (#[trigger] under[j]).0 != under[k].0 by {
                assert(defaults[j].name@ != name);
            }
            the_last_default_counts(under, k);
        },
        None => {
            assert forall|j: int| 0 <= j < under.len() implies (#[trigger] under[j]).0 != name by {
                assert(defaults[j].name@ != name);
            }
            what_no_default_names_has_none(under, name);
        },
    }
}

/// Laying one entry over another keeps of each field what the upper one says, and where it says
/// nothing what the lower one says.
pub proof fn what_is_laid_over_shows(lower: Settings, upper: Settings)
    ensures
        ({
            let both = lower.overlaid(upper);
            &&& saved_or_default(both.mode, upper.mode, lower.mode)
            &&& saved_or_default(both.position, upper.position, lower.position)
            &&& saved_or_default(both.scale, upper.scale, lower.scale)
            &&& saved_or_default(both.transform, upper.transform, lower.transform)
            &&& saved_or_default(both.enabled, upper.enabled, lower.enabled)
            &&& saved_or_default(both.adaptive_sync, upper.adaptive_sync, lower.adaptive_sync)
            &&& saved_or_default(both.hdr, upper.hdr, lower.hdr)
            &&& saved_or_default(both.sdr_white_nits, upper.sdr_white_nits, lower.sdr_white_nits)
            &&& saved_or_default(both.linear_blending, upper.linear_blending, lower.linear_blending)
        }),
{
}

/// The state directory: `xdg_state_home` where it is set and not empty, or `.local/state` below
/// the home directory.
pub open spec fn state_directory(xdg_state_home: Option<Seq<char>>, home: Option<Seq<char>>) -> Option<
    Seq<char>,
> {
    if xdg_state_home is Some && xdg_state_home->0.len() > 0 {
        xdg_state_home
    } else {
        match home {
            Some(home) => Some(joined(joined(home, ".local"@), "state"@)),
            None => None,
        }
    }
}

/// The state directory.
pub fn state_dir(xdg_state_home: Option<&str>, home: Option<&str>) -> (dir: Option<String>)
    ensures
        held_text(dir) == state_directory(text_of(xdg_state_home), text_of(home)),
{
    if let Some(dir) = xdg_state_home {
        if !dir.is_empty() {
            return Some(dir.to_owned());
        }
    }
    match home {
        Some(home) => Some(join(join(home, ".local").as_str(), "state")),
        None => None,
    }
}

/// The path to the machine-written state, if a state directory can be found.
pub fn state_file(xdg_state_home: Option<&str>, home: Option<&str>) -> (path: Option<String>)
    ensures
        held_text(path) == match state_directory(text_of(xdg_state_home), text_of(home)) {
            Some(dir) => Some(joined(dir, STATE_NAME@)),
            None => None,
        },
{
    match state_dir(xdg_state_home, home) {
        Some(dir) => Some(join(dir.as_str(), STATE_NAME)),
        None => None,
    }
}

/// The first place of a character in a text.
pub open spec fn first_at(s: Seq<char>, c: char) -> Option<int>
    decreases s.len(),
{
    if s.len() == 0 {
        None
    } else {
        match first_at(s.drop_last(), c) {
            Some(i) => Some(i),
            None => if s.last() == c {
                Some(s.len() - 1)
            } else {
                None
            },
        }
    }
}

/// What stands before the first of a character, and what stands behind it.
pub open spec fn split_once(s: Seq<char>, c: char) -> Option<(Seq<char>, Seq<char>)> {
    match first_at(s, c) {
        Some(i) => Some((s.take(i), s.skip(i + 1))),
        None => None,
    }
}

/// A text without the `Hz`s that it ends with.
pub open spec fn without_hz(s: Seq<char>) -> Seq<char>
    decreases s.len(),
{
    if s.len() >= 2 && s[s.len() - 2] == 'H' && s[s.len() - 1] == 'z' {
        without_hz(s.take(s.len() - 2))
    } else {
        s
    }
}

/// The width and height that a resolution names.
pub open spec fn resolution_named(s: Seq<char>) -> Option<(int, int)> {
    match split_once(s, 'x') {
        Some((width, height)) => match (
            integer_i32(trimmed(width)),
            integer_i32(trimmed(height)),
        ) {
            (Some(w), Some(h)) => Some((w, h)),
            _ => None,
        },
        None => None,
    }
}

/// The refresh rate that a text names.
pub open spec fn refresh_named(s: Seq<char>) -> Option<nat> {
    natural_up_to(trimmed(without_hz(trimmed(s))), u32::MAX as nat)
}

/// The mode that a text names: `WIDTHxHEIGHT@HZ` or `WIDTHxHEIGHT`.
pub open spec fn mode_named(s: Seq<char>) -> Option<(int, int, Option<nat>)> {
    match split_once(s, '@') {
        Some((resolution, hz)) => match (resolution_named(resolution), refresh_named(hz)) {
            (Some((w, h)), Some(hz)) => Some((w, h, Some(hz))),
            _ => None,
        },
        None => match resolution_named(s) {
            Some((w, h)) => Some((w, h, None)),
            None => None,
        },
    }
}

proof fn first_at_skips(s: Seq<char>, c: char, upto: int)
    requires
        0 <= upto <= s.len(),
        first_at(s.take(upto), c) is Some,
    ensures
        first_at(s, c) == first_at(s.take(upto), c),
    decreases s.len(),
{
    if upto == s.len() {
        assert(s.take(upto) =~= s);
    } else {
        assert(s.drop_last().take(upto) =~= s.take(upto));
        first_at_skips(s.drop_last(), c, upto);
    }
}

/// What stands before the first of a character, and what stands behind it.
fn divide(text: &str, c: char) -> (parts: Option<(String, String)>)
    ensures
        match parts {
            Some((before, behind)) => split_once(text@, c) == Some((before@, behind@)),
            None => split_once(text@, c) is None,
        },
{
    let chars = chars_of(text);
    let mut i: usize = 0;
    while i < chars.len()
        invariant
            i <= chars@.len(),
            chars@ == text@,
            first_at(chars@.take(i as int), c) is None,
        decreases chars.len() - i,
    {
        proof {
            assert(chars@.take(i + 1).drop_last() =~= chars@.take(i as int));
            if chars@[i as int] == c {
                first_at_skips(chars@, c, i + 1);
            }
        }
        if chars[i] == c {
            let before = text_between(chars.as_slice(), 0, i);
            let behind = text_between(chars.as_slice(), i + 1, chars.len());
            assert(before@ =~= text@.take(i as int));
            assert(behind@ =~= text@.skip(i + 1));
            return Some((before, behind));
        }
        i += 1;
    }
    assert(chars@.take(chars@.len() as int) =~= chars@);
    None
}

fn trim_hz(text: &str) -> (out: String)
    ensures
        out@ == without_hz(text@),
{
    let chars = chars_of(text);
    let mut to: usize = chars.len();
    assert(chars@.take(to as int) =~= chars@);
    while to >= 2 && chars[to - 2] == 'H' && chars[to - 1] == 'z'
        invariant
            to <= chars@.len(),
            without_hz(chars@) == without_hz(chars@.take(to as int)),
        decreases to,
    {
        assert(chars@.take(to as int).take(to - 2) =~= chars@.take(to - 2));
        to -= 2;
    }
    let out = text_between(chars.as_slice(), 0, to);
    assert(out@ =~= chars@.take(to as int));
    out
}

fn parse_resolution(text: &str) -> (resolution: Option<(i32, i32)>)
    ensures
        match resolution {
            Some((w, h)) => resolution_named(text@) == Some((w as int, h as int)),
            None => resolution_named(text@) is None,
        },
{
    match divide(text, 'x') {
        Some((width, height)) => match (
            parse_i32(trim(width.as_str()).as_str()),
            parse_i32(trim(height.as_str()).as_str()),
        ) {
            (Some(w), Some(h)) => Some((w, h)),
            _ => None,
        },
        None => None,
    }
}

/// Parses `WIDTHxHEIGHT@HZ` or `WIDTHxHEIGHT` into `(width, height, refresh_hz)`, with the
/// refresh absent when the text omits it.
pub fn parse_mode(spec_text: &str) -> (mode: Option<(i32, i32, Option<u32>)>)
    ensures
        match mode {
            Some((w, h, hz)) => mode_named(spec_text@) == Some(
                (
                    w as int,
                    h as int,
                    match hz {
                        Some(hz) => Some(hz as nat),
                        None => None,
                    },
                ),
            ),
            None => mode_named(spec_text@) is None,
        },
{
    match divide(spec_text, '@') {
        Some((resolution, hz)) => {
            let hz = trim(trim_hz(trim(hz.as_str()).as_str()).as_str());
            match (
                parse_resolution(resolution.as_str()),
                parse_natural(hz.as_str(), u32::MAX as u64),
            ) {
                (Some((w, h)), Some(hz)) => Some((w, h, Some(hz as u32))),
                _ => None,
            }
        },
        None => match parse_resolution(spec_text) {
            Some((w, h)) => Some((w, h, None)),
            None => None,
        },
    }
}

/// The text of a mode: its width, height and refresh rate in whole hertz.
pub open spec fn mode_text(width: int, height: int, refresh_mhz: int) -> Seq<char> {
    integer_text(width) + "x"@ + integer_text(height) + "@"@ + integer_text(
        rounded(refresh_mhz, 1000),
    )
}

/// Formats a mode for the state file. `refresh_mhz` is in millihertz; the file records whole
/// hertz, a half rounded away from zero.
pub fn format_mode(width: i32, height: i32, refresh_mhz: i32) -> (text: String)
    ensures
        text@ == mode_text(width as int, height as int, refresh_mhz as int),
{
    let hz: i64 = if refresh_mhz >= 0 {
        (2 * refresh_mhz as i64 + 1000) / 2000
    } else {
        -((2 * -(refresh_mhz as i64) + 1000) / 2000)
    };
    let mut text = String::new();
    push_integer(&mut text, width as i64);
    text.append("x");
    push_integer(&mut text, height as i64);
    text.append("@");
    push_integer(&mut text, hz);
    assert(text@ =~= mode_text(width as int, height as int, refresh_mhz as int));
    text
}

proof fn first_at_is_behind(a: Seq<char>, c: char, b: Seq<char>)
    requires
        forall|i: int| 0 <= i < a.len() ==> #[trigger] a[i] != c,
    ensures
        first_at(a.push(c) + b, c) == Some(a.len() as int),
{
    let s = a.push(c) + b;
    assert(s.take(a.len() as int + 1) =~= a.push(c));
    assert(a.push(c).drop_last() =~= a);
    first_at_misses(a, c);
    first_at_skips(s, c, a.len() as int + 1);
}

proof fn first_at_misses(a: Seq<char>, c: char)
    requires
        forall|i: int| 0 <= i < a.len() ==> #[trigger] a[i] != c,
    ensures
        first_at(a, c) is None,
    decreases a.len(),
{
    if a.len() > 0 {
        let fewer = a.drop_last();
        assert forall|i: int| 0 <= i < fewer.len() implies #[trigger] fewer[i] != c by {
            assert(a[i] != c);
        }
        assert(a[a.len() - 1] != c);
        first_at_misses(fewer, c);
    }
}

proof fn integer_text_is_plain(n: int)
    ensures
        integer_text(n).len() > 0,
        forall|i: int|
            0 <= i < integer_text(n).len() ==> is_digit(#[trigger] integer_text(n)[i])
                || integer_text(n)[i] == '-',
        trimmed(integer_text(n)) == integer_text(n),
        without_hz(integer_text(n)) == integer_text(n),
{
    let s = integer_text(n);
    decimal_text_reads_back(
        if n < 0 {
            (-n) as nat
        } else {
            n as nat
        },
    );
    if n < 0 {
        let digits = decimal_text((-n) as nat);
        assert forall|i: int| 0 <= i < s.len() implies is_digit(#[trigger] s[i]) || s[i] == '-' by {
            if i > 0 {
                assert(s[i] == digits[i - 1]);
            }
        }
    }
    assert(is_digit(s[0]) || s[0] == '-');
    assert(is_digit(s[s.len() - 1]) || s[s.len() - 1] == '-');
    assert(trim_front(s) == s);
    assert(trim_back(s) == s);
}

/// A mode that was formatted reads back as its width, its height and its refresh rate in whole
/// hertz.
pub proof fn a_mode_reads_back(width: i32, height: i32, refresh_mhz: i32)
    requires
        rounded(refresh_mhz as int, 1000) >= 0,
    ensures
        mode_named(mode_text(width as int, height as int, refresh_mhz as int)) == Some(
            (width as int, height as int, Some(rounded(refresh_mhz as int, 1000) as nat)),
        ),
{
    let w = integer_text(width as int);
    let h = integer_text(height as int);
    let n = rounded(refresh_mhz as int, 1000);
    let hz = integer_text(n);
    integer_text_is_plain(width as int);
    integer_text_is_plain(height as int);
    integer_text_is_plain(n);
    integer_text_reads_back(width as int);
    integer_text_reads_back(height as int);
    integer_text_reads_back(n);
    reveal_strlit("x");
    reveal_strlit("@");
    let resolution = w + "x"@ + h;
    assert(resolution =~= w.push('x') + h);
    let s = mode_text(width as int, height as int, refresh_mhz as int);
    assert(s =~= resolution.push('@') + hz);
    assert forall|i: int| 0 <= i < resolution.len() implies #[trigger] resolution[i] != '@' by {
        if i < w.len() {
            assert(resolution[i] == w[i]);
        } else if i > w.len() {
            assert(resolution[i] == h[i - w.len() - 1]);
        }
    }
    first_at_is_behind(resolution, '@', hz);
    assert(s.take(resolution.len() as int) =~= resolution);
    assert(s.skip(resolution.len() as int + 1) =~= hz);
    assert forall|i: int| 0 <= i < w.len() implies #[trigger] w[i] != 'x' by {
        assert(is_digit(w[i]) || w[i] == '-');
    }
    first_at_is_behind(w, 'x', h);
    assert(resolution.take(w.len() as int) =~= w);
    assert(resolution.skip(w.len() as int + 1) =~= h);
    assert(integer(hz) == natural_as_integer(hz)) by {
        decimal_text_reads_back(n as nat);
        assert(is_digit(hz[0]));
    }
    assert(n <= u32::MAX);
}

spec fn natural_as_integer(s: Seq<char>) -> Option<int> {
    match natural(s) {
        Some(n) => Some(n as int),
        None => None,
    }
}

/// A text without one of its characters.
pub open spec fn without_char(s: Seq<char>, c: char) -> Seq<char>
    decreases s.len(),
{
    if s.len() == 0 {
        s
    } else if s.last() == c {
        without_char(s.drop_last(), c)
    } else {
        without_char(s.drop_last(), c).push(s.last())
    }
}

/// The orientation that a text names: white space around it, letter case and dashes do not
/// matter.
pub open spec fn transform_named(name: Seq<char>) -> Option<Transform> {
    let plain = without_char(lowered(trimmed(name)), '-');
    if plain == "normal"@ || plain == "0"@ {
        Some(Transform::Normal)
    } else if plain == "90"@ {
        Some(Transform::_90)
    } else if plain == "180"@ {
        Some(Transform::_180)
    } else if plain == "270"@ {
        Some(Transform::_270)
    } else if plain == "flipped"@ {
        Some(Transform::Flipped)
    } else if plain == "flipped90"@ {
        Some(Transform::Flipped90)
    } else if plain == "flipped180"@ {
        Some(Transform::Flipped180)
    } else if plain == "flipped270"@ {
        Some(Transform::Flipped270)
    } else {
        None
    }
}

fn drop_char(text: &str, c: char) -> (out: String)
    ensures
        out@ == without_char(text@, c),
{
    let chars = chars_of(text);
    let mut out = String::new();
    let mut i: usize = 0;
    assert(chars@.take(0) =~= Seq::empty());
    while i < chars.len()
        invariant
            i <= chars@.len(),
            out@ == without_char(chars@.take(i as int), c),
        decreases chars.len() - i,
    {
        let next = chars[i];
        i += 1;
        assert(chars@.take(i as int).drop_last() =~= chars@.take(i - 1));
        if next != c {
            out.push(next);
        }
    }
    assert(chars@.take(chars@.len() as int) =~= chars@);
    out
}

/// The eight named orientations, parsed leniently.
pub fn parse_transform(name: &str) -> (transform: Option<Transform>)
    ensures
        transform == transform_named(name@),
{
    let plain = drop_char(to_ascii_lowercase(trim(name).as_str()).as_str(), '-');
    let plain = plain.as_str();
    if same_text(plain, "normal") || same_text(plain, "0") {
        Some(Transform::Normal)
    } else if same_text(plain, "90") {
        Some(Transform::_90)
    } else if same_text(plain, "180") {
        Some(Transform::_180)
    } else if same_text(plain, "270") {
        Some(Transform::_270)
    } else if same_text(plain, "flipped") {
        Some(Transform::Flipped)
    } else if same_text(plain, "flipped90") {
        Some(Transform::Flipped90)
    } else if same_text(plain, "flipped180") {
        Some(Transform::Flipped180)
    } else if same_text(plain, "flipped270") {
        Some(Transform::Flipped270)
    } else {
        None
    }
}

/// The name of an orientation.
pub open spec fn transform_name(transform: Transform) -> Seq<char> {
    match transform {
        Transform::Normal => "normal"@,
        Transform::_90 => "90"@,
        Transform::_180 => "180"@,
        Transform::_270 => "270"@,
        Transform::Flipped => "flipped"@,
        Transform::Flipped90 => "flipped-90"@,
        Transform::Flipped180 => "flipped-180"@,
        Transform::Flipped270 => "flipped-270"@,
    }
}

/// The name for an orientation, for the state file.
pub fn format_transform(transform: Transform) -> (name: &'static str)
    ensures
        name@ == transform_name(transform),
{
    match transform {
        Transform::Normal => "normal",
        Transform::_90 => "90",
        Transform::_180 => "180",
        Transform::_270 => "270",
        Transform::Flipped => "flipped",
        Transform::Flipped90 => "flipped-90",
        Transform::Flipped180 => "flipped-180",
        Transform::Flipped270 => "flipped-270",
    }
}

proof fn plain_text_is_kept(s: Seq<char>)
    requires
        forall|i: int| 0 <= i < s.len() ==> 48 <= (#[trigger] s[i]) as u32 <= 57 || 97 <= s[i] as u32 <= 122,
    ensures
        without_char(s, '-') == s,
    decreases s.len(),
{
    if s.len() > 0 {
        let fewer = s.drop_last();
        assert forall|i: int| 0 <= i < fewer.len() implies 48 <= (#[trigger] fewer[i]) as u32 <= 57
            || 97 <= fewer[i] as u32 <= 122 by {
            assert(fewer[i] == s[i]);
        }
        assert(s[s.len() - 1] == s.last());
        plain_text_is_kept(fewer);
        assert(fewer.push(s.last()) =~= s);
    }
}

proof fn without_char_in_two_parts(a: Seq<char>, b: Seq<char>, c: char)
    ensures
        without_char(a + b, c) == without_char(a, c) + without_char(b, c),
    decreases b.len(),
{
    if b.len() == 0 {
        assert(a + b =~= a);
        assert(without_char(a, c) + without_char(b, c) =~= without_char(a, c));
    } else {
        assert((a + b).drop_last() =~= a + b.drop_last());
        without_char_in_two_parts(a, b.drop_last(), c);
        assert(without_char(a + b, c) =~= without_char(a, c) + without_char(b, c));
    }
}

/// The name of an orientation reads back as that orientation.
pub proof fn a_transform_reads_back(transform: Transform)
    ensures
        transform_named(transform_name(transform)) == Some(transform),
{
    reveal_strlit("normal");
    reveal_strlit("0");
    reveal_strlit("90");
    reveal_strlit("180");
    reveal_strlit("270");
    reveal_strlit("flipped");
    reveal_strlit("flipped90");
    reveal_strlit("flipped180");
    reveal_strlit("flipped270");
    reveal_strlit("flipped-90");
    reveal_strlit("flipped-180");
    reveal_strlit("flipped-270");
    let s = transform_name(transform);
    assert(!is_space(s[0]) && !is_space(s[s.len() - 1]));
    assert(trim_front(s) == s && trim_back(s) == s);
    assert(lowered(s) =~= s);
    match transform {
        Transform::Flipped90 | Transform::Flipped180 | Transform::Flipped270 => {
            let word = s.take(7);
            let number = s.skip(8);
            assert(s =~= (word + seq!['-']) + number);
            without_char_in_two_parts(word + seq!['-'], number, '-');
            without_char_in_two_parts(word, seq!['-'], '-');
            reveal_with_fuel(without_char, 2);
            assert(seq!['-'].drop_last() =~= Seq::<char>::empty());
            assert(without_char(seq!['-'], '-') =~= Seq::<char>::empty());
            plain_text_is_kept(word);
            plain_text_is_kept(number);
            let plain = without_char(s, '-');
            assert(plain =~= word + number);
            if transform == Transform::Flipped90 {
                assert(plain =~= "flipped90"@);
            } else if transform == Transform::Flipped180 {
                assert(plain =~= "flipped180"@);
            } else {
                assert(plain =~= "flipped270"@);
            }
            assert(plain.len() >= 9);
        },
        _ => {
            plain_text_is_kept(s);
        },
    }
    assert("180"@[0] == '1' && "270"@[0] == '2');
    assert("flipped180"@[7] == '1' && "flipped270"@[7] == '2');
}

/// A resolution without a refresh rate reads as its width and its height, the width first, and
/// leaves the rate open.
pub proof fn a_resolution_is_width_by_height(width: i32, height: i32)
    ensures
        mode_named(integer_text(width as int).push('x') + integer_text(height as int)) == Some(
            (width as int, height as int, None::<nat>),
        ),
{
    let w = integer_text(width as int);
    let h = integer_text(height as int);
    integer_text_is_plain(width as int);
    integer_text_is_plain(height as int);
    integer_text_reads_back(width as int);
    integer_text_reads_back(height as int);
    let s = w.push('x') + h;
    assert forall|i: int| 0 <= i < s.len() implies #[trigger] s[i] != '@' by {
        if i < w.len() {
            assert(s[i] == w[i]);
        } else if i > w.len() {
            assert(s[i] == h[i - w.len() - 1]);
        }
    }
    first_at_misses(s, '@');
    assert forall|i: int| 0 <= i < w.len() implies #[trigger] w[i] != 'x' by {
        assert(is_digit(w[i]) || w[i] == '-');
    }
    first_at_is_behind(w, 'x', h);
    assert(s.take(w.len() as int) =~= w);
    assert(s.skip(w.len() as int + 1) =~= h);
}

/// A mode is written width first, and with the nearest rate in whole hertz last.
pub proof fn a_mode_is_written_width_first(width: i32, height: i32, refresh_mhz: i32)
    requires
        refresh_mhz >= 0,
    ensures
        ({
            let s = mode_text(width as int, height as int, refresh_mhz as int);
            exists|hz: int|
                #![trigger integer_text(hz)]
                {
                    &&& s == integer_text(width as int).push('x') + integer_text(
                        height as int,
                    ).push('@') + integer_text(hz)
                    &&& -1000 <= 2 * (1000 * hz - refresh_mhz) <= 1000
                }
        }),
{
    reveal_strlit("x");
    reveal_strlit("@");
    let hz = rounded(refresh_mhz as int, 1000);
    let s = mode_text(width as int, height as int, refresh_mhz as int);
    assert(hz == (2 * refresh_mhz + 1000) / 2000);
    assert(-1000 <= 2 * (1000 * hz - refresh_mhz) <= 1000);
    assert(s == integer_text(width as int).push('x') + integer_text(height as int).push('@')
        + integer_text(hz));
}

/// How far an orientation turns what is shown, in degrees.
pub open spec fn turn(transform: Transform) -> nat {
    match transform {
        Transform::Normal | Transform::Flipped => 0,
        Transform::_90 | Transform::Flipped90 => 90,
        Transform::_180 | Transform::Flipped180 => 180,
        Transform::_270 | Transform::Flipped270 => 270,
    }
}

/// Whether an orientation mirrors what is shown.
pub open spec fn mirrors(transform: Transform) -> bool {
    match transform {
        Transform::Flipped
        | Transform::Flipped90
        | Transform::Flipped180
        | Transform::Flipped270 => true,
        _ => false,
    }
}

/// The name of an orientation says whether it mirrors, and ends with the degrees that it turns by
/// where it turns at all.
pub proof fn an_orientation_is_named_for_its_turn(transform: Transform)
    ensures
        ({
            let name = transform_name(transform);
            let digits = decimal_text(turn(transform));
            &&& mirrors(transform) <==> name.len() >= 7 && name.take(7) == "flipped"@
            &&& turn(transform) > 0 ==> name.len() >= digits.len() && name.skip(
                name.len() - digits.len(),
            ) == digits
            &&& turn(transform) == 0 ==> name == if mirrors(transform) {
                "flipped"@
            } else {
                "normal"@
            }
        }),
{
    reveal_strlit("normal");
    reveal_strlit("90");
    reveal_strlit("180");
    reveal_strlit("270");
    reveal_strlit("flipped");
    reveal_strlit("flipped-90");
    reveal_strlit("flipped-180");
    reveal_strlit("flipped-270");
    reveal_with_fuel(decimal_text, 4);
    let name = transform_name(transform);
    let digits = decimal_text(turn(transform));
    if mirrors(transform) {
        assert(name.take(7) =~= "flipped"@);
    }
    if turn(transform) > 0 {
        assert(decimal_text(90) =~= seq!['9', '0']);
        assert(decimal_text(180) =~= seq!['1', '8', '0']);
        assert(decimal_text(270) =~= seq!['2', '7', '0']);
        assert(name.skip(name.len() - digits.len()) =~= digits);
    }
}

/// What the machine writes is kept below the state directory that is set, or else below
/// `.local/state` in the home directory; an empty setting is none.
pub proof fn the_state_is_kept_apart(dir: Seq<char>, home: Seq<char>)
    requires
        dir.len() > 0,
        home.len() > 0,
        home.last() != '/',
    ensures
        forall|h: Option<Seq<char>>| #[trigger] state_directory(Some(dir), h) == Some(dir),
        state_directory(None, Some(home)) == Some(home + "/.local/state"@),
        state_directory(Some(Seq::empty()), Some(home)) == Some(home + "/.local/state"@),
        state_directory(None, None) is None,
{
    reveal_strlit(".local");
    reveal_strlit("state");
    reveal_strlit("/.local/state");
    let below = joined(home, ".local"@);
    assert(below =~= home.push('/') + ".local"@);
    assert(below.last() == 'l');
    assert(joined(below, "state"@) =~= home + "/.local/state"@);
}

} // verus!

//! The hand-edited settings: which file they are read from, and what a reading that failed leaves
//! in force.
use vstd::prelude::*;

use crate::outputs::held_text;
use crate::paths::{join, joined};
use crate::pidfile::text_of;
use crate::scan::texts;

verus! {

/// The settings file below a configuration directory.
pub const CONFIG_NAME: &'static str = "wlrix/compositor.toml";

/// The settings file of the machine.
pub const MACHINE_CONFIG: &'static str = "/etc/wlrix/compositor.toml";

/// The user's settings file: below `xdg_config_home` where it is set and not empty, or below
/// `.config` in the home directory.
pub open spec fn own_config(xdg_config_home: Option<Seq<char>>, home: Option<Seq<char>>) -> Option<
    Seq<char>,
> {
    if xdg_config_home is Some && xdg_config_home->0.len() > 0 {
        Some(joined(xdg_config_home->0, CONFIG_NAME@))
    } else {
        match home {
            Some(home) => Some(joined(joined(home, ".config"@), CONFIG_NAME@)),
            None => None,
        }
    }
}

fn own_file(xdg_config_home: Option<&str>, home: Option<&str>) -> (path: Option<String>)
    ensures
        held_text(path) == own_config(text_of(xdg_config_home), text_of(home)),
{
    if let Some(dir) = xdg_config_home {
        if !dir.is_empty() {
            return Some(join(dir, CONFIG_NAME));
        }
    }
    match home {
        Some(home) => Some(join(join(home, ".config").as_str(), CONFIG_NAME)),
        None => None,
    }
}

/// The files that the settings may be in. The first that is there is used whole.
pub fn config_files(xdg_config_home: Option<&str>, home: Option<&str>) -> (files: Vec<String>)
    ensures
        texts(files@) == match own_config(text_of(xdg_config_home), text_of(home)) {
            Some(own) => seq![own, MACHINE_CONFIG@],
            None => seq![MACHINE_CONFIG@],
        },
{
    let mut files: Vec<String> = Vec::new();
    if let Some(own) = own_file(xdg_config_home, home) {
        files.push(own);
    }
    files.push(MACHINE_CONFIG.to_owned());
    assert(texts(files@) =~= match own_config(text_of(xdg_config_home), text_of(home)) {
        Some(own) => seq![own, MACHINE_CONFIG@],
        None => seq![MACHINE_CONFIG@],
    });
    files
}

/// The settings in force once the file was read again. One that no longer parses leaves those
/// that are running: a slip in the file must not take the keyboard away from the user.
pub fn reloaded<C>(running: C, read: Result<C, String>) -> (kept: C)
    ensures
        kept == match read {
            Ok(config) => config,
            Err(_) => running,
        },
{
    match read {
        Ok(config) => config,
        Err(_) => running,
    }
}

/// The user's settings are in `wlrix/compositor.toml` below the configuration directory that is
/// set, or else below `.config` in the home directory; an empty setting is none.
pub proof fn the_users_settings_are_found(dir: Seq<char>, home: Seq<char>)
    requires
        dir.len() > 0,
        dir.last() != '/',
        home.len() > 0,
        home.last() != '/',
    ensures
        forall|h: Option<Seq<char>>| #[trigger]
            own_config(Some(dir), h) == Some(dir + "/wlrix/compositor.toml"@),
        own_config(None, Some(home)) == Some(home + "/.config/wlrix/compositor.toml"@),
        own_config(Some(Seq::empty()), Some(home)) == Some(
            home + "/.config/wlrix/compositor.toml"@,
        ),
        own_config(None, None) is None,
{
    reveal_strlit("wlrix/compositor.toml");
    reveal_strlit("/wlrix/compositor.toml");
    reveal_strlit(".config");
    reveal_strlit("/.config/wlrix/compositor.toml");
    assert(joined(dir, CONFIG_NAME@) =~= dir + "/wlrix/compositor.toml"@);
    let below = joined(home, ".config"@);
    assert(below =~= home.push('/') + ".config"@);
    assert(below.last() == 'g');
    assert(joined(below, CONFIG_NAME@) =~= home + "/.config/wlrix/compositor.toml"@);
}

} // verus!

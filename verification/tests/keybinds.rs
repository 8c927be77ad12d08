use std::str::FromStr;
use wlrix_compositor::keybinds::{
    combo_of, key_named, modifier, parse_binding, parse_defaults, read_parts, Action, Bindings,
    Combo, Keysyms, Modifier, Modifiers, Parts, ShotMode, DEFAULTS,
};
use wlrix_compositor::menu::MenuAction;

/// The X11 keysym of a key's name, whatever its case; zero for a name that is none.
fn keysym(name: &str) -> u32 {
    let name = name.to_ascii_lowercase();
    if name.len() == 1 {
        return name.chars().next().unwrap() as u32;
    }
    match name.as_str() {
        "space" => 0x20,
        "plus" => 0x2b,
        "backspace" => 0xff08,
        "up" => 0xff52,
        "down" => 0xff54,
        "print" => 0xff61,
        _ => match name.strip_prefix('f').and_then(|n| n.parse::<u32>().ok()) {
            Some(n) if (1..=35).contains(&n) => 0xffbe + n - 1,
            _ => 0,
        },
    }
}

fn named(text: &str) -> Result<Combo, String> {
    let sym = key_named(text).map(|key| keysym(&key)).unwrap_or(0);
    Combo::from_str(text, sym)
}

fn combo(text: &str) -> Combo {
    named(text).expect(text)
}

fn syms() -> Vec<u32> {
    DEFAULTS
        .iter()
        .map(|(keys, _)| keysym(&key_named(keys).unwrap()))
        .collect()
}

fn resolve(configured: &[(Combo, Option<Action>)]) -> Bindings {
    Bindings::resolve(&syms(), configured)
}

fn defaults() -> Bindings {
    resolve(&[])
}

#[test]
fn every_default_parses() {
    for (keys, action) in DEFAULTS {
        named(keys).unwrap_or_else(|err| panic!("default binding {keys:?}: {err}"));
        action
            .parse::<Action>()
            .unwrap_or_else(|err| panic!("default action {action:?}: {err}"));
    }
    let mut seen = std::collections::HashSet::new();
    for (keys, _) in DEFAULTS {
        let combo: Combo = named(keys).unwrap();
        assert!(seen.insert(combo), "{keys:?} is bound twice in DEFAULTS");
    }
    assert_eq!(parse_defaults(&syms()).unwrap().len(), DEFAULTS.len());
}

#[test]
fn a_combination_parses_however_it_is_spelled() {
    let expected = Combo {
        ctrl: false,
        alt: true,
        shift: false,
        logo: false,
        sym: 0xffc1,
    };
    assert_eq!(combo("Alt+F4"), expected);
    assert_eq!(combo("alt+f4"), expected);
    assert_eq!(combo("ALT + F4"), expected);
    assert_eq!(combo("F4+Alt"), expected);
}

#[test]
fn the_modifier_aliases_are_accepted() {
    assert_eq!(combo("Control+q"), combo("Ctrl+q"));
    for name in ["Super", "Logo", "Meta", "Win"] {
        assert_eq!(combo(&format!("{name}+space")), combo("Super+space"));
    }
}

#[test]
fn letter_case_is_not_part_of_the_combination() {
    assert_eq!(combo("Super+Shift+m"), combo("Super+Shift+M"));
}

#[test]
fn a_bad_combination_is_rejected_with_its_reason() {
    for text in ["Alt+Nonsense", "Alt+", "Alt", "Ctrl++", "Alt+F4+F5", ""] {
        assert!(
            named(text).is_err(),
            "{text:?} should not have parsed"
        );
    }
    let err = named("Alt+Nonsense").unwrap_err();
    assert!(err.contains("Nonsense"), "{err}");
}

#[test]
fn each_fault_of_a_combination_has_its_message() {
    assert_eq!(
        named("Alt+").unwrap_err(),
        "\"Alt+\" has an empty part; write a literal plus as `plus`"
    );
    assert_eq!(
        named("Alt+F4+F5").unwrap_err(),
        "\"Alt+F4+F5\" names two keys, \"F4\" and \"F5\"; a binding has one"
    );
    assert_eq!(
        named("Alt + Ctrl").unwrap_err(),
        "\"Alt + Ctrl\" names no key, only modifiers"
    );
    assert_eq!(
        named("Alt+Nonsense").unwrap_err(),
        "\"Nonsense\" is not a key name (in \"Alt+Nonsense\")"
    );
}

#[test]
fn a_combination_is_made_of_its_parts_and_a_keysym() {
    let read = read_parts("super + Shift+ x");
    match &read {
        Ok(Parts { ctrl, alt, shift, logo, key }) => {
            assert_eq!((*ctrl, *alt, *shift, *logo), (false, false, true, true));
            assert_eq!(key.as_deref(), Some("x"));
        }
        Err(_) => panic!("the parts are in order"),
    }
    assert_eq!(
        combo_of("super + Shift+ x", read, 77),
        Ok(Combo { ctrl: false, alt: false, shift: true, logo: true, sym: 77 })
    );
    assert!(combo_of("x", read_parts("x"), 0).is_err());
    assert_eq!(modifier("META"), Some(Modifier::Logo));
    assert_eq!(modifier("metas"), None);
}

#[test]
fn a_combination_prints_the_way_it_is_written() {
    assert_eq!(combo("alt+f4").to_string("F4"), "Alt+F4");
    assert_eq!(
        combo("ctrl + alt + backspace").to_string("BackSpace"),
        "Ctrl+Alt+BackSpace"
    );
    assert_eq!(combo("Super+Shift+M").to_string("m"), "Shift+Super+m");
}

#[test]
fn actions_parse() {
    assert_eq!(
        "close".parse::<Action>().unwrap(),
        Action::Window(MenuAction::Close)
    );
    assert_eq!(
        "size".parse::<Action>().unwrap(),
        Action::Window(MenuAction::Size)
    );
    assert_eq!("quit".parse::<Action>().unwrap(), Action::Quit);
    assert_eq!(
        "switch-desk 3".parse::<Action>().unwrap(),
        Action::SwitchDesk(2)
    );
    assert_eq!(
        "move-to-desk 1".parse::<Action>().unwrap(),
        Action::MoveToDesk(0)
    );
}

#[test]
fn the_screenshot_actions_parse() {
    assert_eq!(
        "screenshot".parse::<Action>().unwrap(),
        Action::Screenshot(ShotMode::Region)
    );
    assert_eq!(
        "screenshot-window".parse::<Action>().unwrap(),
        Action::Screenshot(ShotMode::ActiveWindow)
    );
    assert_eq!(
        "screenshot-screen".parse::<Action>().unwrap(),
        Action::Screenshot(ShotMode::Screen)
    );
}

#[test]
fn print_is_bound_to_a_screenshot() {
    let bindings = defaults();
    assert_eq!(
        bindings.get(&combo("Print")),
        Some(Action::Screenshot(ShotMode::Region))
    );
    assert_eq!(
        bindings.get(&combo("Alt+Print")),
        Some(Action::Screenshot(ShotMode::ActiveWindow))
    );
    assert_eq!(
        bindings.get(&combo("Shift+Print")),
        Some(Action::Screenshot(ShotMode::Screen))
    );
}

#[test]
fn a_bad_action_is_rejected() {
    for text in [
        "nonsense",
        "switch-desk",
        "switch-desk 0",
        "switch-desk x",
        "switch-desk 1 2",
        "close 2",
        "screenshot 2",
        "",
    ] {
        assert!(
            text.parse::<Action>().is_err(),
            "{text:?} should not have parsed"
        );
    }
}

#[test]
fn each_fault_of_an_action_has_its_message() {
    let fault = |text: &str| Action::from_str(text).unwrap_err();
    assert_eq!(fault("nonsense"), "\"nonsense\" is not an action");
    assert_eq!(
        fault("switch-desk"),
        "\"switch-desk\" needs a desk number, e.g. \"switch-desk 1\""
    );
    assert_eq!(
        fault("move-to-desk 0"),
        "\"0\" is not a desk number (in \"move-to-desk 0\"); they count from 1"
    );
    assert_eq!(fault("quit 1 2"), "\"quit 1 2\" has more than one argument");
    assert_eq!(fault("close 2"), "\"close\" takes no argument (in \"close 2\")");
    assert_eq!(
        fault("  "),
        "a binding needs an action; use \"none\" to unbind"
    );
    assert_eq!(
        <Action as FromStr>::from_str("switch-desk 99999999999999999999999"),
        Err("\"99999999999999999999999\" is not a desk number (in \"switch-desk 99999999999999999999999\"); they count from 1".to_string())
    );
}

#[test]
fn none_unbinds_rather_than_binding() {
    assert_eq!(parse_binding("none").unwrap(), None);
    assert_eq!(parse_binding("None").unwrap(), None);
    assert_eq!(parse_binding("quit").unwrap(), Some(Action::Quit));
    assert!(parse_binding("nonsense").is_err());
}

#[test]
fn the_defaults_are_bound_when_nothing_is_configured() {
    let bindings = defaults();
    assert_eq!(bindings.len(), DEFAULTS.len());
    assert!(!bindings.is_empty());
    assert!(Bindings::try_resolve(&syms(), &[]).is_some());
    let mut unknown = syms();
    unknown[3] = 0;
    assert!(Bindings::try_resolve(&unknown, &[]).is_none());
    assert!(Bindings::try_resolve(&[], &[]).is_none());
}

#[test]
fn configured_bindings_are_applied_over_the_defaults() {
    let quit = combo("Ctrl+Alt+BackSpace");
    let close = combo("Alt+F4");
    let fresh = combo("Ctrl+Alt+q");

    let bindings = resolve(&[
        (quit, None),
        (close, Some(Action::Quit)),
        (fresh, Some(Action::Window(MenuAction::Close))),
    ]);

    assert_eq!(bindings.get(&quit), None, "`none` must unbind");
    assert_eq!(bindings.get(&close), Some(Action::Quit));
    assert_eq!(
        bindings.get(&fresh),
        Some(Action::Window(MenuAction::Close))
    );
    assert_eq!(
        bindings.get(&combo("Alt+F9")),
        Some(Action::Window(MenuAction::Minimize))
    );
    assert_eq!(bindings.len(), DEFAULTS.len() - 1 + 1);
}

#[test]
fn the_menu_shows_the_4dwm_key_where_two_are_bound() {
    let bindings = defaults();
    assert_eq!(
        bindings.menu_combo(MenuAction::Minimize),
        Some(combo("Alt+F9"))
    );
    assert_eq!(
        bindings.menu_combo(MenuAction::Lower),
        Some(combo("Alt+F3"))
    );
    assert_eq!(
        bindings.menu_combo(MenuAction::Close),
        Some(combo("Alt+F4"))
    );
}

#[test]
fn the_menu_combination_is_stable_across_resolutions() {
    let first = defaults();
    for _ in 0..8 {
        let again = defaults();
        for action in [MenuAction::Minimize, MenuAction::Lower, MenuAction::Close] {
            assert_eq!(first.menu_combo(action), again.menu_combo(action));
        }
    }
}

#[test]
fn the_menu_follows_what_is_actually_bound() {
    let close = Action::Window(MenuAction::Close);

    let replaced = resolve(&[
        (combo("Alt+F4"), None),
        (combo("Ctrl+Shift+w"), Some(close)),
    ]);
    assert_eq!(
        replaced.menu_combo(MenuAction::Close),
        Some(combo("Ctrl+Shift+w"))
    );

    let added = resolve(&[(combo("Ctrl+Shift+w"), Some(close))]);
    assert_eq!(added.menu_combo(MenuAction::Close), Some(combo("Alt+F4")));

    let unbound = resolve(&[(combo("Alt+F4"), None)]);
    assert_eq!(unbound.menu_combo(MenuAction::Close), None);
}

#[test]
fn unbinding_something_that_was_never_bound_is_not_an_error() {
    let bindings = resolve(&[(combo("Ctrl+Alt+F12"), None)]);
    assert_eq!(bindings.len(), DEFAULTS.len());
}

#[test]
fn bindings_are_made_over_any_defaults() {
    let a = Combo { ctrl: false, alt: false, shift: false, logo: true, sym: 5 };
    let b = Combo { sym: 6, ..a };
    let bindings = Bindings::over(
        &[(a, Action::Quit), (b, Action::Window(MenuAction::Raise))],
        &[(a, None), (b, Some(Action::Window(MenuAction::Lower)))],
    );
    assert_eq!(bindings.get(&a), None);
    assert_eq!(bindings.get(&b), Some(Action::Window(MenuAction::Lower)));
    assert_eq!(bindings.menu_combo(MenuAction::Raise), None);
    assert_eq!(bindings.menu_combo(MenuAction::Lower), Some(b));
    assert!(Bindings::over(&[], &[]).is_empty());
}

#[test]
fn the_modifiers_match_exactly_and_the_raw_symbol_comes_second() {
    let bindings = defaults();
    let mods = |shift: bool, logo: bool| Modifiers { ctrl: false, alt: false, shift, logo };
    let m = combo("Super+m").sym;
    let upper = 0x4d;
    assert_eq!(
        bindings.action(&mods(false, true), m, Some(m)),
        Some(Action::Window(MenuAction::Minimize))
    );
    assert_eq!(
        bindings.action(&mods(true, true), upper, Some(m)),
        Some(Action::RestoreAll)
    );
    assert_eq!(bindings.action(&mods(true, true), upper, None), None);
    assert_eq!(bindings.action(&mods(false, false), m, Some(m)), None);
    let f = combo("Super+f").sym;
    assert_eq!(bindings.action(&mods(true, true), f, Some(f)), None);
}

#[test]
fn the_key_of_a_text_is_looked_up_by_its_name() {
    let mut keysyms = Keysyms::new();
    keysyms.insert("F4".to_string(), 0xffc1);
    keysyms.insert("nokey".to_string(), 0);
    assert_eq!(Combo::from_text("Alt+F4", &keysyms), Ok(combo("Alt+F4")));
    for unknown in ["Alt+nokey", "Alt+F5"] {
        let fault = Combo::from_text(unknown, &keysyms).unwrap_err();
        assert!(fault.contains("is not a key name"), "{fault}");
    }
    // The defaults need the keysyms of all their keys.
    assert!(Bindings::resolve_named(&keysyms, &[]).is_none());
    for (keys, _) in DEFAULTS {
        let key = key_named(keys).unwrap();
        let sym = keysym(&key);
        keysyms.insert(key, sym);
    }
    let bindings = Bindings::resolve_named(&keysyms, &[]).unwrap();
    assert_eq!(bindings.len(), DEFAULTS.len());
    assert_eq!(bindings.get(&combo("Alt+F4")), Some(Action::Window(MenuAction::Close)));
}

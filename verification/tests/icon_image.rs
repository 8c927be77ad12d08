use wlrix_compositor::geometry::Size;
use wlrix_compositor::icon_image::{
    find, image_dirs, DirEntry, IconImages, ImageDir, Wanted, MAX_RESOLVED,
};

/// A directory with entries of which each is a file or not.
fn listing(path: &str, entries: &[(&str, bool)]) -> ImageDir {
    ImageDir {
        path: path.to_string(),
        entries: entries
            .iter()
            .map(|(n, file)| DirEntry { name: n.to_string(), is_file: *file })
            .collect(),
    }
}

fn found(path: &str) -> Option<String> {
    Some(path.to_string())
}

#[test]
fn the_user_directory_comes_before_the_system_ones() {
    let dirs =
        image_dirs(Some("/home/someone/.local/share"), Some("/home/someone"), Some("/opt/x:/usr/share"));
    assert_eq!(
        dirs,
        vec![
            "/home/someone/.local/share/wlrix/images",
            "/opt/x/wlrix/images",
            "/usr/share/wlrix/images",
        ]
    );
}

#[test]
fn unset_variables_fall_back_to_what_the_spec_says_to_assume() {
    for value in [None, Some("")] {
        for home in [None, Some("/home/someone")] {
            let dirs = image_dirs(value, home, value);
            let mut expected = Vec::new();
            if let Some(home) = home {
                expected.push(format!("{home}/.local/share/wlrix/images"));
            }
            expected.push("/usr/local/share/wlrix/images".to_string());
            expected.push("/usr/share/wlrix/images".to_string());
            assert_eq!(dirs, expected, "for {value:?}");
        }
    }
}

#[test]
fn an_exact_name_wins_and_the_user_copy_wins_over_the_system_one() {
    let app = "com.wlrix.terminal";
    let dirs = [
        listing("/user", &[("com.wlrix.terminal.png", true)]),
        listing("/system", &[("com.wlrix.terminal.png", true), ("default.png", true)]),
    ];
    assert_eq!(find(&dirs, app), found("/user/com.wlrix.terminal.png"));
}

#[test]
fn a_name_that_differs_only_in_case_still_matches() {
    let entries = [("Blender.png", true), ("steam.png", true)];
    assert_eq!(
        find(&[listing("/images", &entries)], "blender"),
        found("/images/Blender.png")
    );
    assert_eq!(
        find(&[listing("/images", &entries)], "Steam"),
        found("/images/steam.png")
    );
}

#[test]
fn an_exact_match_in_a_later_directory_beats_a_cased_one_in_an_earlier_directory() {
    let dirs = [
        listing("/user", &[("FIREFOX.PNG", true)]),
        listing("/system", &[("firefox.png", true)]),
    ];
    assert_eq!(find(&dirs, "firefox"), found("/system/firefox.png"));
}

#[test]
fn an_unmatched_application_gets_the_default() {
    let entries = [("com.wlrix.terminal.png", true), ("default.png", true)];
    let app = "org.example.unknown";
    assert_eq!(find(&[listing("/images", &entries)], app), found("/images/default.png"));
    // An X11 window with no class at all, and a client that simply never set one.
    assert_eq!(find(&[listing("/images", &entries)], ""), found("/images/default.png"));
}

#[test]
fn nothing_installed_is_no_picture_rather_than_a_panic() {
    for app in ["com.wlrix.terminal", ""] {
        let dirs = [listing("/images", &[]), listing("/does-not-exist", &[])];
        assert_eq!(find(&dirs, app), None);
    }
}

#[test]
fn an_alias_is_a_symlink_and_resolves_through_it() {
    // A link that leads to a file counts as one.
    let entries = [
        ("com.wlrix.terminal.png", true),
        ("Alacritty.png", true),
        ("default.png", true),
    ];
    assert_eq!(
        find(&[listing("/images", &entries)], "Alacritty"),
        found("/images/Alacritty.png")
    );
    // And through the case-insensitive pass too.
    assert_eq!(
        find(&[listing("/images", &entries)], "alacritty"),
        found("/images/Alacritty.png")
    );
}

#[test]
fn a_dangling_alias_falls_through_rather_than_resolving_to_nothing() {
    let entries = [("Alacritty.png", false), ("default.png", true)];
    assert_eq!(
        find(&[listing("/images", &entries)], "Alacritty"),
        found("/images/default.png")
    );
}

#[test]
fn a_directory_of_the_right_name_is_not_a_picture() {
    let dirs = [
        listing("/first", &[("default.png", false)]),
        listing("/second", &[("default.png", true)]),
    ];
    assert_eq!(find(&dirs, "anything"), found("/second/default.png"));
}

#[test]
fn a_resolved_file_is_remembered_until_all_are_dropped() {
    let mut images = IconImages::new();
    let app = "steam".to_string();
    let dirs = [listing("/images", &[("steam.png", true)])];
    assert!(!images.knows(&app));
    assert_eq!(images.resolve(&app, &dirs), found("/images/steam.png"));
    assert!(images.knows(&app));
    // Remembered, though the file is gone.
    assert_eq!(images.resolve(&app, &[]), found("/images/steam.png"));
    let size = Size { w: 85, h: 67 };
    let file = || "/images/steam.png".to_string();
    assert_eq!(images.buffer(&app, size, &[]), Wanted::Decode(file()));
    assert_eq!(images.buffer(&app, Size { w: 0, h: 67 }, &[]), Wanted::Nothing);
    // A picture is decoded once for a file and a size.
    assert_eq!(images.keep(file(), size, 5), 5);
    assert_eq!(images.keep(file(), size, 6), 5);
    assert_eq!(images.buffer(&app, size, &[]), Wanted::Ready(5));
    assert_eq!(images.buffer(&app, Size { w: 86, h: 67 }, &[]), Wanted::Decode(file()));
    assert_eq!(images.buffer(&"none.such".to_string(), size, &[]), Wanted::Nothing);
    for n in 2..MAX_RESOLVED {
        images.resolve(&format!("app{n}"), &[]);
    }
    assert!(images.knows(&app));
    images.resolve(&"one.more".to_string(), &[]);
    assert!(!images.knows(&app), "they are dropped together");
    assert!(images.knows(&"one.more".to_string()));
    images.clear();
    assert!(!images.knows(&"one.more".to_string()));
    assert_eq!(images.buffer(&app, size, &dirs), Wanted::Decode(file()), "it is decoded again");
}

use wlrix_compositor::cache::Cache;
use wlrix_compositor::handshake::{announce, enabled, fact_line};
use wlrix_compositor::invocation::{parse, Invocation};
use wlrix_compositor::logging::log_path;
use wlrix_compositor::config::{config_files, reloaded};
use wlrix_compositor::paths::{is_absolute, join};
use wlrix_compositor::pidfile;
use wlrix_compositor::scan::{
    is_whitespace, lower_char, parse_i32, parse_natural, push_decimal, push_integer, split,
    split_whitespace, to_ascii_lowercase, trim,
};
use wlrix_compositor::security_context::client_is_sandboxed;
use wlrix_compositor::table::Table;
use wlrix_compositor::thumbnail::{has_picture, letterbox};
use wlrix_compositor::geometry::{Point, Size};
use wlrix_compositor::vrr::VrrState;

fn args(list: &[&str]) -> Vec<String> {
    list.iter().map(|s| s.to_string()).collect()
}

#[test]
fn the_command_line_is_read_the_way_it_is_written() {
    assert_eq!(parse(&args(&[])), Invocation::Run);
    assert_eq!(parse(&args(&["-c", "foot"])), Invocation::RunCommand("foot".to_string()));
    assert_eq!(parse(&args(&["--command", "foot"])), Invocation::RunCommand("foot".to_string()));
    assert_eq!(parse(&args(&["-c"])), Invocation::Run);
    assert_eq!(
        parse(&args(&["--check-config", "/tmp/x.toml"])),
        Invocation::CheckConfig("/tmp/x.toml".to_string())
    );
    assert_eq!(parse(&args(&["--check-config"])), Invocation::CheckNothing);
    assert_eq!(parse(&args(&["foot", "-c"])), Invocation::Run);
}

#[test]
fn a_fact_is_announced_to_a_session_that_waits() {
    assert!(enabled(Some("1")));
    assert!(!enabled(Some("0")) && !enabled(None));
    assert_eq!(fact_line("DISPLAY", ":1"), "DISPLAY=:1\n");
    assert_eq!(announce(Some("1"), "DISPLAY", ":1"), Some("DISPLAY=:1\n".to_string()));
    assert_eq!(announce(None, "DISPLAY", ":1"), None);
}

#[test]
fn the_log_and_the_pidfile_sit_in_the_runtime_directory() {
    assert_eq!(log_path(Some("/run/user/1000"), "/tmp"), "/run/user/1000/wlrix-compositor.log");
    assert_eq!(log_path(Some("relative"), "/tmp"), "/tmp/wlrix-compositor.log");
    assert_eq!(log_path(None, "/tmp"), "/tmp/wlrix-compositor.log");
    assert_eq!(
        pidfile::path(Some("/run/user/1000"), "/tmp"),
        "/run/user/1000/wlrix-compositor.pid"
    );
    assert_eq!(pidfile::contents(1234), "1234");
    assert!(pidfile::guard("/tmp/x".to_string(), false).is_none());
    assert_eq!(pidfile::guard("/tmp/x".to_string(), true).unwrap().path, "/tmp/x");
}

#[test]
fn paths_join_as_the_standard_ones_do() {
    for dir in ["", "/", "/a", "/a/", "a b"] {
        for name in ["x", "x/y", "/abs", ""] {
            let expected = std::path::Path::new(dir).join(name);
            assert_eq!(join(dir, name), expected.to_str().unwrap(), "{dir:?} {name:?}");
        }
        assert_eq!(is_absolute(dir), std::path::Path::new(dir).is_absolute());
    }
}

#[test]
fn texts_are_read_as_the_standard_library_reads_them() {
    for n in 0..=0x10ffffu32 {
        if let Some(c) = char::from_u32(n) {
            assert_eq!(is_whitespace(c), c.is_whitespace(), "{n:x}");
            assert_eq!(lower_char(c), c.to_ascii_lowercase(), "{n:x}");
        }
    }
    for text in ["", "  ", " a b ", "\u{a0}x\u{2003}", "Alt+F4", "a++b", "a  b\tc\n", "É Ä"] {
        assert_eq!(trim(text), text.trim());
        assert_eq!(to_ascii_lowercase(text), text.to_ascii_lowercase());
        assert_eq!(split(text, '+'), text.split('+').collect::<Vec<_>>());
        assert_eq!(split_whitespace(text), text.split_whitespace().collect::<Vec<_>>());
    }
    for text in ["", "0", "-0", "+7", "007", "2147483647", "2147483648", "-2147483648", "x", "1x", "-", "+"] {
        assert_eq!(parse_i32(text), text.parse::<i32>().ok(), "{text:?}");
        assert_eq!(
            parse_natural(text, u32::MAX as u64),
            text.parse::<u32>().ok().map(u64::from),
            "{text:?}"
        );
    }
    for n in [0u64, 7, 10, 1234567890, u64::MAX] {
        let mut text = String::new();
        push_decimal(&mut text, n);
        assert_eq!(text, n.to_string());
    }
    for n in [0i64, -7, i64::MIN, i64::MAX] {
        let mut text = String::new();
        push_integer(&mut text, n);
        assert_eq!(text, n.to_string());
    }
}

#[test]
fn a_table_holds_one_value_for_a_key() {
    let mut table: Table<String, i32> = Table::new();
    assert!(table.any().is_none());
    table.insert("a".to_string(), 1);
    table.insert("b".to_string(), 2);
    table.insert("a".to_string(), 3);
    assert_eq!(table.len(), 2);
    assert_eq!(table.get(&"a".to_string()), Some(&3));
    assert!(table.contains(&"b".to_string()) && !table.contains(&"c".to_string()));
    table.remove(&"a".to_string());
    assert_eq!(table.any(), Some(&2));
    let mut cache: Cache<u64, i32> = Cache::new(2);
    cache.remember(1, 10);
    cache.remember(2, 20);
    assert_eq!(cache.get(&1), Some(&10));
    cache.remember(3, 30);
    assert_eq!((cache.len(), cache.get(&1), cache.get(&3)), (1, None, Some(&30)));
    cache.clear();
    assert_eq!(cache.len(), 0);
}

#[test]
fn an_unknown_client_is_treated_as_sandboxed() {
    assert!(client_is_sandboxed(None));
    assert!(client_is_sandboxed(Some(true)));
    assert!(!client_is_sandboxed(Some(false)));
}

#[test]
fn adaptive_sync_is_known_by_output() {
    let mut vrr = VrrState::new();
    let dp1 = "DP-1".to_string();
    assert!(!vrr.supported(&dp1) && !vrr.enabled(&dp1));
    vrr.set_supported(dp1.clone(), true);
    vrr.set_enabled(dp1.clone(), true);
    assert!(vrr.supported(&dp1) && vrr.enabled(&dp1));
    assert!(!vrr.supported(&"DP-2".to_string()));
    vrr.forget(&dp1);
    assert!(!vrr.supported(&dp1) && !vrr.enabled(&dp1));
}

#[test]
fn a_picture_is_drawn_in_the_middle_of_its_tile() {
    let tile = Size { w: 85, h: 67 };
    assert_eq!(letterbox(tile, Size { w: 85, h: 40 }), Point { x: 0, y: 13 });
    assert!(has_picture(Size { w: 1, h: 1 }, tile));
    assert!(!has_picture(Size { w: 0, h: 1 }, tile));
}

#[test]
fn a_config_that_no_longer_parses_keeps_the_running_one() {
    assert_eq!(reloaded(200, Ok(300)), 300);
    assert_eq!(reloaded(200, Err("line 3: expected a value".to_string())), 200);
}

#[test]
fn the_users_settings_come_before_the_machines() {
    assert_eq!(
        config_files(Some("/cfg"), Some("/home/u")),
        vec!["/cfg/wlrix/compositor.toml", "/etc/wlrix/compositor.toml"]
    );
    assert_eq!(
        config_files(Some(""), Some("/home/u")),
        vec!["/home/u/.config/wlrix/compositor.toml", "/etc/wlrix/compositor.toml"]
    );
    assert_eq!(config_files(None, None), vec!["/etc/wlrix/compositor.toml"]);
}

use wlrix_compositor::outputs::{
    format_mode, format_transform, parse_mode, parse_transform, resolve, state_file, OutputConfig,
    Real32, Real64, Transform,
};

fn real64(x: f64) -> Option<Real64> {
    Some(Real64 { bits: x.to_bits() })
}

fn real32(x: f32) -> Option<Real32> {
    Some(Real32 { bits: x.to_bits() })
}

#[test]
fn mode_round_trips() {
    assert_eq!(parse_mode("1920x1080@60"), Some((1920, 1080, Some(60))));
    assert_eq!(parse_mode("1280x800"), Some((1280, 800, None)));
    assert_eq!(parse_mode("1920x1080@59Hz"), Some((1920, 1080, Some(59))));
    assert_eq!(parse_mode("garbage"), None);
    assert_eq!(parse_mode("1920x"), None);
    assert_eq!(format_mode(1920, 1080, 59_951), "1920x1080@60");
}

#[test]
fn modes_are_formatted_as_a_float_would_round_them() {
    for mhz in [0, 1, 499, 500, 501, 1499, 1500, 59_940, 143_912, -499, -500, -1501, i32::MAX, i32::MIN] {
        let hz = (mhz as f64 / 1000.0).round() as i32;
        assert_eq!(format_mode(-3, i32::MIN, mhz), format!("{}x{}@{hz}", -3, i32::MIN));
    }
}

#[test]
fn modes_are_read_leniently() {
    assert_eq!(parse_mode(" 800 x 600 @ 75 HzHz "), Some((800, 600, Some(75))));
    assert_eq!(parse_mode("+800x-1@+5"), Some((800, -1, Some(5))));
    assert_eq!(parse_mode("800x600@"), None);
    assert_eq!(parse_mode("800x600@-1"), None);
    assert_eq!(parse_mode("2147483648x1"), None);
    assert_eq!(parse_mode("1x1@4294967296"), None);
    assert_eq!(parse_mode("1x1@4294967295"), Some((1, 1, Some(u32::MAX))));
}

#[test]
fn transform_round_trips() {
    for name in [
        "normal",
        "90",
        "180",
        "270",
        "flipped",
        "flipped-90",
        "flipped-180",
        "flipped-270",
    ] {
        let parsed = parse_transform(name).expect("named transform parses");
        assert_eq!(format_transform(parsed), name);
    }
    assert_eq!(parse_transform("flipped90"), Some(Transform::Flipped90));
    assert_eq!(parse_transform("sideways"), None);
    assert_eq!(parse_transform(" F-LIPPED-1-80\n"), Some(Transform::Flipped180));
    assert_eq!(parse_transform("0"), Some(Transform::Normal));
}

#[test]
fn state_overlays_defaults_per_field() {
    let mut default = OutputConfig::named("DP-1".to_string());
    default.mode = Some("2560x1440@144".to_string());
    default.scale = real64(1.0);
    default.hdr = Some(true);
    default.sdr_white_nits = real32(180.0);
    let mut state = OutputConfig::named("DP-1".to_string());
    state.position = Some((100, 0));
    state.scale = real64(2.0);

    let map = resolve(&[default], &[state]);
    let dp1 = map.get(&"DP-1".to_string()).unwrap();
    assert_eq!(dp1.mode.as_deref(), Some("2560x1440@144"));
    assert_eq!(dp1.position, Some((100, 0)));
    assert_eq!(dp1.scale(), real64(2.0));
    assert_eq!(dp1.hdr, Some(true));
    assert_eq!(dp1.sdr_white_nits, real32(180.0));
    assert_eq!(map.len(), 1);
}

#[test]
fn an_output_that_only_one_side_names_is_kept() {
    let mut default = OutputConfig::named("DP-1".to_string());
    default.transform = Some("90".to_string());
    let mut state = OutputConfig::named("DP-2".to_string());
    state.enabled = Some(false);
    let map = resolve(&[default], &[state]);
    assert_eq!(map.len(), 2);
    assert_eq!(
        map.get(&"DP-1".to_string()).unwrap().transform(),
        Some(Transform::_90)
    );
    assert_eq!(map.get(&"DP-2".to_string()).unwrap().enabled, Some(false));
}

#[test]
fn the_state_file_is_under_the_state_directory() {
    assert_eq!(
        state_file(Some("/state"), Some("/home/u")).as_deref(),
        Some("/state/wlrix/outputs.toml")
    );
    assert_eq!(
        state_file(Some(""), Some("/home/u")).as_deref(),
        Some("/home/u/.local/state/wlrix/outputs.toml")
    );
    assert_eq!(
        state_file(None, Some("/home/u/")).as_deref(),
        Some("/home/u/.local/state/wlrix/outputs.toml")
    );
    assert_eq!(state_file(None, None), None);
}

use wlrix_compositor::hdr::{
    edid_hdr_static_metadata, Chromaticity, DrmChromaticity, HdrMetadataInfoframe,
    HdrOutputMetadata, HdrState, LightLevels, Mastering, DEFAULT_SDR_WHITE_NITS,
    EOTF_SMPTE_ST2084, STATIC_METADATA_TYPE1,
};
use wlrix_compositor::outputs::Real32;

const EDID_MAGIC: [u8; 8] = [0x00, 0xff, 0xff, 0xff, 0xff, 0xff, 0xff, 0x00];

#[test]
fn metadata_blob_matches_the_kernel_struct() {
    assert_eq!(std::mem::size_of::<HdrOutputMetadata>(), 32);
    assert_eq!(std::mem::size_of::<HdrMetadataInfoframe>(), 26);
    assert_eq!(std::mem::size_of::<DrmChromaticity>(), 4);
}

#[test]
fn garbage_is_not_an_edid() {
    assert!(edid_hdr_static_metadata(&[]).is_none());
    assert!(edid_hdr_static_metadata(&[0u8; 128]).is_none());
    // A valid base block with no extensions has no CTA block, so no HDR block.
    let mut base = [0u8; 128];
    base[..8].copy_from_slice(&EDID_MAGIC);
    assert!(edid_hdr_static_metadata(&base).is_none());
}

/// A base block with the colors of a panel, and a CTA block whose second data block is the HDR
/// one.
fn panel(hdr: &[u8]) -> Vec<u8> {
    let mut edid = vec![0u8; 256];
    edid[..8].copy_from_slice(&EDID_MAGIC);
    // Red 702/311, green 256/700, blue 147/59, white 320/337, in 1024ths.
    let (rx, ry, gx, gy) = (702u16, 311u16, 256u16, 700u16);
    let (bx, by, wx, wy) = (147u16, 59u16, 320u16, 337u16);
    edid[0x19] = ((rx & 3) << 6 | (ry & 3) << 4 | (gx & 3) << 2 | (gy & 3)) as u8;
    edid[0x1a] = ((bx & 3) << 6 | (by & 3) << 4 | (wx & 3) << 2 | (wy & 3)) as u8;
    for (at, n) in [rx, ry, gx, gy, bx, by, wx, wy].into_iter().enumerate() {
        edid[0x1b + at] = (n >> 2) as u8;
    }
    edid[128] = 0x02;
    // A video block of three bytes first.
    edid[132] = 2 << 5 | 3;
    edid[136] = 7 << 5 | (hdr.len() as u8 + 1);
    edid[137] = 0x06;
    edid[138..138 + hdr.len()].copy_from_slice(hdr);
    edid[130] = (138 - 128 + hdr.len()) as u8;
    edid
}

fn chromaticity(x: u32, y: u32) -> Chromaticity {
    Chromaticity { x: x * 625, y: y * 625 }
}

#[test]
fn a_panel_tells_its_colors_and_its_luminance_codes() {
    let mastering = edid_hdr_static_metadata(&panel(&[0x05, 0x01, 102, 101, 2])).unwrap();
    assert_eq!(mastering.red, chromaticity(702, 311));
    assert_eq!(mastering.green, chromaticity(256, 700));
    assert_eq!(mastering.blue, chromaticity(147, 59));
    assert_eq!(mastering.white, chromaticity(320, 337));
    assert_eq!(mastering.max_luminance, Some(102));
    assert_eq!(mastering.max_frame_average, Some(101));
    assert_eq!(mastering.min_luminance, Some(2));
    // The codes are optional.
    let short = edid_hdr_static_metadata(&panel(&[0x04, 0x01])).unwrap();
    assert_eq!(short.max_luminance, None);
}

#[test]
fn a_panel_whose_transfer_functions_hold_no_pq_is_not_hdr() {
    assert!(edid_hdr_static_metadata(&panel(&[0x03, 0x01, 102, 102, 2])).is_none());
    // An HDR block that holds nothing.
    assert!(edid_hdr_static_metadata(&panel(&[])).is_none());
}

#[test]
fn a_data_block_that_runs_off_the_end_is_given_up_on() {
    let mut edid = panel(&[0x05, 0x01, 102, 102, 2]);
    edid[132] = 2 << 5 | 31;
    edid[130] = 128;
    edid[164] = 2 << 5 | 31;
    edid[196] = 2 << 5 | 31;
    edid[228] = 2 << 5 | 31;
    assert!(edid_hdr_static_metadata(&edid).is_none());
    // Without a second block there is nothing to read.
    assert!(edid_hdr_static_metadata(&panel(&[0x05])[..200]).is_none());
}

#[test]
fn the_blob_carries_the_panel_in_the_kernels_units() {
    let mastering = edid_hdr_static_metadata(&panel(&[0x05, 0x01, 102, 102, 2])).unwrap();
    let levels = LightLevels { max: 456, min: 3, frame_average: 455 };
    let blob = HdrOutputMetadata::st2084(&mastering, levels);
    assert_eq!(blob.metadata_type, 1);
    assert_eq!(blob.hdmi_metadata_type1.eotf, EOTF_SMPTE_ST2084);
    assert_eq!(blob.hdmi_metadata_type1.metadata_type, STATIC_METADATA_TYPE1);
    assert_eq!(blob.hdmi_metadata_type1.max_cll, 456);
    assert_eq!(blob.hdmi_metadata_type1.max_fall, 455);
    assert_eq!(blob.hdmi_metadata_type1.min_display_mastering_luminance, 3);
    // 702 / 1024 * 50000.
    assert_eq!(blob.hdmi_metadata_type1.display_primaries[0].x, 34277);
    let wide = HdrOutputMetadata::st2084(&Mastering::bt2020(), levels);
    assert_eq!(wide.hdmi_metadata_type1.display_primaries[0].x, 35400);
    assert_eq!(wide.hdmi_metadata_type1.display_primaries[2].y, 2300);
    assert_eq!(wide.hdmi_metadata_type1.white_point.x, 15635);
}

#[test]
fn an_output_that_is_gone_leaves_nothing_behind() {
    let dp1 = "DP-1".to_string();
    let mut state = HdrState::new();
    assert!(!state.supported(&dp1) && !state.active(&dp1) && state.mastering(&dp1).is_none());
    assert!(state.linear_blending(&dp1));
    assert_eq!(f32::from_bits(state.sdr_white(&dp1).bits), 203.0);
    state.set_supported(dp1.clone(), true);
    state.set_active(dp1.clone(), true);
    state.set_mastering(dp1.clone(), Mastering::bt2020());
    state.set_sdr_white(dp1.clone(), Real32 { bits: 300.0f32.to_bits() });
    state.set_linear_blending(dp1.clone(), false);
    assert!(state.supported(&dp1) && state.active(&dp1) && !state.linear_blending(&dp1));
    assert_eq!(state.mastering(&dp1), Some(Mastering::bt2020()));
    assert_eq!(state.sdr_white(&dp1).bits, 300.0f32.to_bits());
    assert!(!state.supported(&"DP-2".to_string()));
    state.forget(&dp1);
    assert!(!state.supported(&dp1) && !state.active(&dp1) && state.mastering(&dp1).is_none());
    assert!(state.linear_blending(&dp1));
    assert_eq!(state.sdr_white(&dp1).bits, DEFAULT_SDR_WHITE_NITS);
}

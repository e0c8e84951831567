use plain_capture::capture::linux::x11::{
    native_failure, randr_monitor_list, x11_display_bounds, x11_display_entry, x11_image_to_frame,
    x11_monitor_id, RandrMonitor, X11Monitor,
};
use plain_capture::capture::macos::{
    active_display_ids, capture_platform_error, cg_image_to_frame, check_cg_image_shape, display_id_at_point, excluded_sc_windows,
    monitor_id as macos_monitor_id, native_display_position, parse_display_id, sc_display_for,
    select_display_by_native_id, selected_native_display_id, MacosCapture, MAX_ACTIVE_DISPLAYS,
};
use plain_capture::capture::windows::{
    display_info_bounds, enumerated_monitors, find_monitor_for, monitor_id, platform_error,
    staging_rows_to_frame, utf16_to_string, MonitorEntry, RECT,
};
use plain_capture::capture::{CaptureErrorCode, DisplayBounds, PhysicalPoint, PhysicalSize};

fn native_bounds(display_id: u32, x: i32, y: i32, width: u32, height: u32) -> DisplayBounds {
    DisplayBounds {
        id: macos_monitor_id(display_id),
        physical_origin: PhysicalPoint { x, y },
        physical_size: PhysicalSize { width, height },
    }
}

fn x11_monitor(name: &str, x: i16, y: i16, width: u16, height: u16) -> X11Monitor {
    X11Monitor { name: name.to_string(), x, y, width, height }
}

fn entry(name: &str, left: i32, top: i32, right: i32, bottom: i32, dpi: u32) -> MonitorEntry {
    MonitorEntry {
        name: name.to_string(),
        frame: RECT { left, top, right, bottom },
        work: RECT { left, top, right, bottom },
        dpi,
    }
}

#[test]
fn monitor_ids_encode_index_name_and_root_geometry() {
    assert_eq!(
        x11_monitor_id(2, "DP-1", -1920, 0, 1920, 1080),
        "2:DP-1:-1920:0:1920:1080"
    );
}

#[test]
fn x11_monitor_ids_render_extreme_coordinates() {
    assert_eq!(x11_monitor_id(0, "", i16::MIN, i16::MAX, u16::MAX, 0), "0::-32768:32767:65535:0");
    assert_eq!(x11_monitor_id(usize::MAX, "a:b", 0, -1, 10, 9), format!("{}:a:b:0:-1:10:9", usize::MAX));
}

#[test]
fn monitor_ids_are_stable_indexed_descriptors() {
    let entry = MonitorEntry {
        name: "\\\\.\\DISPLAY1".to_string(),
        frame: RECT {
            left: 0,
            top: 0,
            right: 1920,
            bottom: 1080,
        },
        work: RECT {
            left: 0,
            top: 48,
            right: 1920,
            bottom: 1032,
        },
        dpi: 96,
    };
    assert_eq!(monitor_id(0, &entry), "0:\\\\.\\DISPLAY1:0:0:1920:1080");
}

#[test]
fn display_id_round_trip_rejects_zero_and_garbage() {
    let id = macos_monitor_id(7);
    assert_eq!(parse_display_id(&id), Some(7));
    assert_eq!(parse_display_id("macos-cg-display:0"), None);
    assert_eq!(parse_display_id("macos-cg-display:xyz"), None);
    assert_eq!(parse_display_id("wayland-winit:0"), None);
}

#[test]
fn display_id_parsing_accepts_only_the_canonical_rendering() {
    assert_eq!(parse_display_id(&macos_monitor_id(u32::MAX)), Some(u32::MAX));
    assert_eq!(macos_monitor_id(4294967295), "macos-cg-display:4294967295");
    assert_eq!(parse_display_id("macos-cg-display:4294967296"), None);
    assert_eq!(parse_display_id("macos-cg-display:+7"), None);
    assert_eq!(parse_display_id("macos-cg-display:07"), None);
    assert_eq!(parse_display_id("macos-cg-display:7 "), None);
    assert_eq!(parse_display_id("macos-cg-display:"), None);
    assert_eq!(parse_display_id("MACOS-CG-DISPLAY:7"), None);
    assert_eq!(parse_display_id("macos-cg-display:-7"), None);
}

#[test]
fn mixed_dpi_selection_uses_native_id_instead_of_rescaling_global_coordinates() {
    let monitors = vec![native_bounds(11, 0, 0, 3024, 1964), native_bounds(22, 1512, 0, 1920, 1080)];

    assert_eq!(select_display_by_native_id(&monitors, 22).unwrap(), 1);
    assert_eq!(monitors[0].physical_size.width, 3024);
    assert_eq!(monitors[1].physical_size.width, 1920);
}

#[test]
fn native_id_mapping_fails_closed_for_missing_or_duplicate_monitors() {
    let monitor = native_bounds(42, 0, 0, 200, 200);

    assert_eq!(
        select_display_by_native_id(std::slice::from_ref(&monitor), 7)
            .expect_err("missing display")
            .code,
        CaptureErrorCode::NoMonitor
    );
    assert_eq!(
        select_display_by_native_id(&[monitor.clone(), monitor], 42)
            .expect_err("ambiguous display")
            .code,
        CaptureErrorCode::InvalidMonitor
    );
}

#[test]
fn native_position_takes_the_first_match_and_ignores_foreign_ids() {
    let mut foreign = native_bounds(5, 0, 0, 10, 10);
    foreign.id = "0:DP-1:0:0:10:10".to_string();
    let displays = vec![foreign, native_bounds(5, 10, 0, 10, 10), native_bounds(5, 20, 0, 10, 10)];
    assert_eq!(native_display_position(&displays, 5).expect("display 5"), 1);
    let error = native_display_position(&displays, 6).expect_err("display 6");
    assert_eq!(error.code, CaptureErrorCode::NoMonitor);
    assert_eq!(error.detail, "the display at the pointer is no longer available");
}

#[test]
fn selected_monitor_must_carry_a_native_id() {
    assert_eq!(selected_native_display_id("macos-cg-display:3").expect("native"), 3);
    let error = selected_native_display_id("0:DP-1:0:0:1:1").expect_err("foreign");
    assert_eq!(error.code, CaptureErrorCode::InvalidMonitor);
    assert_eq!(error.detail, "selected macOS monitor has no native display id");
}

#[test]
fn stage_failures_name_the_stage_and_the_platform_error() {
    let x11 = native_failure("query_pointer", "connection lost");
    assert_eq!(x11.code, CaptureErrorCode::CaptureFailed);
    assert_eq!(x11.detail, "failed to query_pointer: connection lost");
    assert_eq!(capture_platform_error("capture the screen", "denied").detail, "failed to capture the screen: denied");
    assert_eq!(platform_error("StartCapture", "E_FAIL").detail, "failed to StartCapture: E_FAIL");
}

fn display_buffer(ids: &[u32]) -> Vec<u32> {
    let mut buffer = vec![0u32; MAX_ACTIVE_DISPLAYS as usize];
    buffer[..ids.len()].copy_from_slice(ids);
    buffer
}

#[test]
fn active_display_list_is_truncated_and_checked() {
    assert_eq!(active_display_ids(None, display_buffer(&[3, 1, 2]), 3).expect("three displays"), vec![3, 1, 2]);
    let failed = active_display_ids(Some("CGError(1001)"), display_buffer(&[1]), 1).expect_err("call failed");
    assert_eq!(failed.code, CaptureErrorCode::CaptureFailed);
    assert_eq!(failed.detail, "failed to enumerate CoreGraphics displays: CGError(1001)");
    for (ids, count) in [(vec![], 0), (vec![1], 64), (vec![1, 0], 2), (vec![4, 5, 4], 3)] {
        assert_eq!(
            active_display_ids(None, display_buffer(&ids), count).expect_err("rejected list").code,
            CaptureErrorCode::InvalidMonitor
        );
    }
}

#[test]
fn display_under_the_pointer_must_be_unique_and_active() {
    assert_eq!(display_id_at_point(None, 1, 9, true).expect("display 9"), 9);
    assert_eq!(display_id_at_point(None, 0, 0, false).expect_err("none").code, CaptureErrorCode::NoMonitor);
    assert_eq!(display_id_at_point(None, 2, 9, true).expect_err("two").code, CaptureErrorCode::InvalidMonitor);
    assert_eq!(display_id_at_point(None, 1, 9, false).expect_err("inactive").code, CaptureErrorCode::NoMonitor);
    assert_eq!(display_id_at_point(None, 1, 0, true).expect_err("zero").code, CaptureErrorCode::NoMonitor);
    assert_eq!(
        display_id_at_point(Some("CGError(1000)"), 1, 9, true).expect_err("failed").detail,
        "failed to select CoreGraphics display at cursor: CGError(1000)"
    );
}

#[test]
fn screen_capture_kit_display_and_window_matching() {
    assert_eq!(sc_display_for(&[4, 9, 9], 9).expect("display 9"), 1);
    assert_eq!(sc_display_for(&[4], 9).expect_err("missing").code, CaptureErrorCode::NoMonitor);
    assert_eq!(excluded_sc_windows(&[10, 11, 12, 11], &[11, 99]), vec![1, 3]);
    assert!(excluded_sc_windows(&[10, 11], &[]).is_empty());
    assert!(excluded_sc_windows(&[u32::MAX], &[u64::from(u32::MAX) + 1]).is_empty());
}

#[test]
fn screenshot_rows_lose_their_padding_and_become_rgba() {
    let raw = [
        1, 2, 3, 4, 5, 6, 7, 8, 0xee, 0xee, //
        9, 10, 11, 12, 13, 14, 15, 16, 0xee, 0xee,
    ];
    let frame = cg_image_to_frame(2, 2, 10, &raw).expect("frame");
    assert_eq!((frame.width, frame.height, frame.stride), (2, 2, 8));
    assert_eq!(frame.bytes, vec![3, 2, 1, 4, 7, 6, 5, 8, 11, 10, 9, 12, 15, 14, 13, 16]);
    let tight = cg_image_to_frame(1, 1, 4, &[1, 2, 3, 4]).expect("tight frame");
    assert_eq!(tight.bytes, vec![3, 2, 1, 4]);
}

#[test]
fn screenshot_layout_errors() {
    assert_eq!(cg_image_to_frame(0, 2, 8, &[0; 16]).expect_err("empty").code, CaptureErrorCode::InvalidFrame);
    let short = cg_image_to_frame(2, 2, 10, &[0; 17]).expect_err("short");
    assert_eq!(short.code, CaptureErrorCode::FrameTooLarge);
    assert_eq!(short.detail, "screenshot bytes 17 are shorter than the declared layout 18");
    let narrow_short = cg_image_to_frame(2, 2, 7, &[0; 15]).expect_err("narrow rows, short buffer");
    assert_eq!(narrow_short.detail, "screenshot bytes 15 are shorter than the declared layout 16");
    assert_eq!(
        cg_image_to_frame(usize::MAX, 1, 8, &[]).expect_err("wide").detail,
        "frame width overflow"
    );
    assert_eq!(
        cg_image_to_frame(0x4000_0000, 1, 0x1_0000_0000, &[]).expect_err("stride").detail,
        "RGBA stride overflow"
    );
}

#[test]
fn screenshot_dimensions_are_checked_before_any_bytes() {
    assert!(check_cg_image_shape(2, 2).is_ok());
    let empty = check_cg_image_shape(0, 5).expect_err("empty");
    assert_eq!(empty.code, CaptureErrorCode::InvalidFrame);
    assert_eq!(empty.detail, "ScreenCaptureKit returned an empty screenshot");
    assert_eq!(check_cg_image_shape(1, usize::MAX).expect_err("tall").detail, "frame height overflow");
    assert_eq!(check_cg_image_shape(0x4000_0000, 1).expect_err("stride").detail, "RGBA stride overflow");
    let same = cg_image_to_frame(0, 5, 0, &[]).expect_err("empty frame");
    assert_eq!(same.detail, empty.detail);
}

#[test]
fn narrow_screenshot_rows_are_read_back_to_back() {
    let raw: Vec<u8> = (1..=16).collect();
    let frame = cg_image_to_frame(2, 2, 7, &raw).expect("narrow rows");
    assert_eq!(frame.stride, 8);
    assert_eq!(frame.bytes, vec![3, 2, 1, 4, 7, 6, 5, 8, 11, 10, 9, 12, 15, 14, 13, 16]);
}

#[test]
fn macos_backend_is_stateless() {
    let _ = MacosCapture::new();
    let _: MacosCapture = Default::default();
}

#[test]
fn randr_monitors_are_named_or_fall_back_to_their_atom() {
    let reported = vec![
        RandrMonitor { atom: 77, name: Some(b"DP-1".to_vec()), x: 0, y: 0, width: 1920, height: 1080 },
        RandrMonitor { atom: 78, name: None, x: 1920, y: 0, width: 1280, height: 1024 },
        RandrMonitor { atom: 79, name: Some(vec![b'H', 0xff]), x: 0, y: 0, width: 1, height: 1 },
    ];
    let monitors = randr_monitor_list(&reported).expect("monitors");
    let names: Vec<&str> = monitors.iter().map(|m| m.name.as_str()).collect();
    assert_eq!(names, vec!["DP-1", "monitor-78", "H\u{fffd}"]);
    assert_eq!(monitors[1].x, 1920);
    let error = randr_monitor_list(&Vec::new()).expect_err("no monitors");
    assert_eq!(error.code, CaptureErrorCode::NoMonitor);
    assert_eq!(error.detail, "RandR reports no active monitors");
}

#[test]
fn x11_displays_carry_indexed_ids_and_root_geometry() {
    let monitors = vec![x11_monitor("DP-1", -1920, 0, 1920, 1080), x11_monitor("HDMI-1", 0, 0, 2560, 1440)];
    let displays = x11_display_bounds(&monitors).expect("displays");
    assert_eq!(displays[0].id, "0:DP-1:-1920:0:1920:1080");
    assert_eq!(displays[1].id, "1:HDMI-1:0:0:2560:1440");
    assert_eq!(displays[0].physical_origin, PhysicalPoint { x: -1920, y: 0 });
    assert_eq!(displays[1].physical_size, PhysicalSize { width: 2560, height: 1440 });
    let invalid = vec![x11_monitor("DP-1", 0, 0, 1920, 1080), x11_monitor("ghost", 0, 0, 0, 1080)];
    assert_eq!(x11_display_bounds(&invalid).expect_err("empty monitor").code, CaptureErrorCode::InvalidMonitor);
}

#[test]
fn x11_capture_finds_the_monitor_by_its_positional_id() {
    let monitors = vec![x11_monitor("DP-1", -1920, 0, 1920, 1080), x11_monitor("HDMI-1", 0, 0, 2560, 1440)];
    assert_eq!(x11_display_entry(&monitors, "1:HDMI-1:0:0:2560:1440").expect("HDMI-1"), 1);
    let moved = x11_display_entry(&monitors, "0:HDMI-1:0:0:2560:1440").expect_err("reordered");
    assert_eq!(moved.code, CaptureErrorCode::NoMonitor);
    assert_eq!(moved.detail, "the selected monitor disappeared before capture");
}

#[test]
fn x11_image_pixels_become_rgba_and_depth_24_becomes_opaque() {
    let data = vec![1, 2, 3, 0, 4, 5, 6, 7, 99, 98];
    let frame = x11_image_to_frame(24, 2, 1, data.clone()).expect("depth 24");
    assert_eq!((frame.width, frame.height, frame.stride), (2, 1, 8));
    assert_eq!(frame.bytes, vec![3, 2, 1, 255, 6, 5, 4, 255]);
    let frame = x11_image_to_frame(32, 2, 1, data).expect("depth 32");
    assert_eq!(frame.bytes, vec![3, 2, 1, 0, 6, 5, 4, 7]);
}

#[test]
fn x11_image_errors() {
    let depth = x11_image_to_frame(16, 1, 1, vec![0; 4]).expect_err("depth 16");
    assert_eq!(depth.code, CaptureErrorCode::CaptureFailed);
    assert_eq!(depth.detail, "x11 visual depth 16 is not a supported truecolor layout");
    let short = x11_image_to_frame(24, 2, 2, vec![0; 15]).expect_err("short reply");
    assert_eq!(short.code, CaptureErrorCode::FrameTooLarge);
    assert_eq!(short.detail, "get_image returned 15 bytes, expected 16");
}

#[test]
fn windows_display_bounds_validate_frame_and_dpi() {
    let monitor = entry("\\\\.\\DISPLAY2", -1920, 0, 0, 1080, 144);
    let display = display_info_bounds(3, &monitor).expect("display");
    assert_eq!(display.id, "3:\\\\.\\DISPLAY2:-1920:0:1920:1080");
    assert_eq!(display.physical_origin, PhysicalPoint { x: -1920, y: 0 });
    assert_eq!(display.physical_size, PhysicalSize { width: 1920, height: 1080 });
    for invalid in [entry("A", 0, 0, 0, 10, 96), entry("A", 10, 0, 0, 10, 96), entry("A", 0, 0, 10, 10, 0)] {
        assert_eq!(display_info_bounds(0, &invalid).expect_err("invalid").code, CaptureErrorCode::InvalidMonitor);
    }
}

#[test]
fn windows_monitor_lookup_validates_in_order() {
    let monitors = vec![entry("A", 0, 0, 1920, 1080, 96), entry("B", 1920, 0, 3840, 1080, 96), entry("C", 0, 0, 0, 0, 96)];
    assert_eq!(find_monitor_for(&monitors, "1:B:1920:0:1920:1080").expect("B"), 1);
    assert_eq!(
        find_monitor_for(&monitors, "9:Z:0:0:1:1").expect_err("unusable C met first").code,
        CaptureErrorCode::InvalidMonitor
    );
    let usable = vec![entry("A", 0, 0, 1920, 1080, 96)];
    assert_eq!(find_monitor_for(&usable, "9:Z:0:0:1:1").expect_err("missing").code, CaptureErrorCode::NoMonitor);
    assert_eq!(enumerated_monitors(true, usable).expect("enumerated").len(), 1);
    assert_eq!(enumerated_monitors(true, Vec::new()).expect_err("none").code, CaptureErrorCode::NoMonitor);
    assert_eq!(
        enumerated_monitors(false, vec![entry("A", 0, 0, 1, 1, 96)]).expect_err("failed").detail,
        "EnumDisplayMonitors failed to enumerate the desktop"
    );
}

#[test]
fn device_names_stop_at_the_first_nul() {
    let mut buffer = [0u16; 32];
    for (slot, unit) in buffer.iter_mut().zip("\\\\.\\DISPLAY1".encode_utf16()) {
        *slot = unit;
    }
    assert_eq!(utf16_to_string(&buffer), "\\\\.\\DISPLAY1");
    assert_eq!(utf16_to_string(&[0x41, 0xD800, 0x42]), "A\u{fffd}B");
    assert_eq!(utf16_to_string(&[0x41, 0x42]), "AB");
    assert_eq!(utf16_to_string(&[]), "");
}

#[test]
fn surrogate_pairs_decode_to_one_character_and_strays_are_replaced() {
    assert_eq!(
        utf16_to_string(&[0x48, 0xD83D, 0xDE00, 0xDC00, 0xD800, 0x41, 0, 0x42]),
        "H\u{1F600}\u{fffd}\u{fffd}A"
    );
}

#[test]
fn staging_texture_rows_are_copied_without_pitch_and_swizzled() {
    let mapped = [10, 20, 30, 40, 0, 0, 0, 0, 50, 60, 70, 80];
    let frame = staging_rows_to_frame(1, 2, &mapped, 8).expect("frame");
    assert_eq!((frame.width, frame.height, frame.stride), (1, 2, 4));
    assert_eq!(frame.bytes, vec![30, 20, 10, 40, 70, 60, 50, 80]);
    assert_eq!(staging_rows_to_frame(0, 2, &mapped, 8).expect_err("empty").code, CaptureErrorCode::InvalidFrame);
}

#[test]
fn listed_displays_are_found_again_by_their_ids() {
    let monitors = vec![
        x11_monitor("DP-1", 0, 0, 1920, 1080),
        x11_monitor("DP-1", 0, 0, 1920, 1080),
        x11_monitor("HDMI-1", 1920, 0, 1280, 1024),
    ];
    let displays = x11_display_bounds(&monitors).expect("displays");
    for (index, display) in displays.iter().enumerate() {
        assert_eq!(x11_display_entry(&monitors, &display.id).expect("listed display"), index);
    }
    let pointer = PhysicalPoint { x: 2000, y: 10 };
    assert_eq!(plain_capture::capture::display_index_at_point(&displays, pointer).expect("pointer"), 2);

    let entries = vec![entry("A", 0, 0, 1920, 1080, 96), entry("A", 0, 0, 1920, 1080, 144)];
    for index in 0..entries.len() {
        let display = display_info_bounds(index, &entries[index]).expect("display");
        assert_eq!(find_monitor_for(&entries, &display.id).expect("listed monitor"), index);
    }
}

use plain_capture::commands::screen_capture::selftest::{
    permission_wait_action, permission_wait_step, PermissionAction, PermissionWait, PERMISSION_POLL_ATTEMPTS,
};
use plain_capture::capture::pixels::{bgra_to_rgba_in_place, pack_rows};
use plain_capture::capture::{CaptureErrorCode, Frame};
use plain_capture::commands::screen_capture::selftest::{encode_frame_png, selfie_path, FLAG_PATH, OUTPUT_DIR};
use plain_capture::text::{
    decimal_string, eq_ignore_ascii_case, parse_u32, str_eq, strip_prefix, trims_to_empty,
};

#[test]
fn channel_swap_exchanges_red_and_blue_of_whole_pixels_only() {
    let mut bytes = vec![1, 2, 3, 4, 5, 6, 7, 8, 9, 10];
    bgra_to_rgba_in_place(&mut bytes, false);
    assert_eq!(bytes, vec![3, 2, 1, 4, 7, 6, 5, 8, 9, 10]);
    bgra_to_rgba_in_place(&mut bytes, false);
    assert_eq!(bytes, vec![1, 2, 3, 4, 5, 6, 7, 8, 9, 10]);
    bgra_to_rgba_in_place(&mut bytes, true);
    assert_eq!(bytes, vec![3, 2, 1, 255, 7, 6, 5, 255, 9, 10]);
    let mut empty: Vec<u8> = Vec::new();
    bgra_to_rgba_in_place(&mut empty, true);
    assert!(empty.is_empty());
}

#[test]
fn packing_keeps_each_row_and_drops_the_padding() {
    let src = [1, 2, 3, 0, 4, 5, 6, 0, 7, 8, 9];
    assert_eq!(pack_rows(&src, 4, 3, 3), vec![1, 2, 3, 4, 5, 6, 7, 8, 9]);
    assert_eq!(pack_rows(&src, 4, 3, 0), Vec::<u8>::new());
    assert_eq!(pack_rows(&src, 3, 3, 2), vec![1, 2, 3, 0, 4, 5]);
    assert_eq!(pack_rows(&src, 0, 2, 3), vec![1, 2, 1, 2, 1, 2]);
}

fn frame(width: u32, height: u32, stride: u32, bytes: Vec<u8>) -> Frame {
    Frame { width, height, stride, bytes }
}

#[test]
fn frames_encode_as_png_without_row_padding() {
    let padded = frame(1, 2, 8, vec![255, 0, 0, 255, 9, 9, 9, 9, 0, 255, 0, 255]);
    let png = encode_frame_png(&padded).expect("png");
    assert_eq!(&png[..8], &[0x89, b'P', b'N', b'G', 0x0d, 0x0a, 0x1a, 0x0a]);
    let tight = frame(1, 2, 4, vec![255, 0, 0, 255, 0, 255, 0, 255]);
    assert_eq!(encode_frame_png(&tight).expect("tight png"), png);
    let different = frame(1, 2, 4, vec![255, 0, 0, 255, 0, 0, 255, 255]);
    assert_ne!(encode_frame_png(&different).expect("other png"), png);
}

#[test]
fn the_last_row_needs_no_padding_behind_it() {
    let rows = frame(1, 3, 12, vec![
        1, 2, 3, 255, 0, 0, 0, 0, 0, 0, 0, 0,
        4, 5, 6, 255, 0, 0, 0, 0, 0, 0, 0, 0,
        7, 8, 9, 255,
    ]);
    let tight = frame(1, 3, 4, vec![1, 2, 3, 255, 4, 5, 6, 255, 7, 8, 9, 255]);
    assert_eq!(encode_frame_png(&rows).expect("short buffer"), encode_frame_png(&tight).expect("tight"));
}

#[test]
fn empty_frames_are_refused_by_the_encoder() {
    let error = encode_frame_png(&frame(0, 1, 0, Vec::new())).expect_err("empty frame");
    assert_eq!(error.code, CaptureErrorCode::InvalidFrame);
    assert!(error.detail.starts_with("self-test PNG encoding failed: "));
}

#[test]
fn selftest_paths() {
    assert_eq!(selfie_path("selfie-1"), "/tmp/cap-exp/selfie-1.png");
    assert_eq!(OUTPUT_DIR, "/tmp/cap-exp");
    assert_eq!(FLAG_PATH, "/tmp/plain-capture-selftest");
}

#[test]
fn decimal_rendering_matches_the_standard_formatting() {
    for value in [0i64, 7, 10, 99, 100, -1, -10, 65535, i64::MAX, i64::MIN] {
        assert_eq!(decimal_string(value), value.to_string());
    }
}

#[test]
fn unsigned_parsing_matches_the_standard_parser() {
    for text in ["0", "7", "+7", "007", "4294967295", "4294967296", "99999999999", "", "+", "-1", " 1", "1a", "٣"] {
        assert_eq!(parse_u32(text), text.parse::<u32>().ok(), "{text:?}");
    }
}

#[test]
fn ascii_case_folding_and_white_space() {
    assert!(eq_ignore_ascii_case("WayLand", "wayland"));
    assert!(!eq_ignore_ascii_case("wayland", "waylanD "));
    assert!(eq_ignore_ascii_case("Ünï", "Ünï"));
    assert!(!eq_ignore_ascii_case("ü", "Ü"));
    assert!(trims_to_empty(""));
    assert!(trims_to_empty(" \t\r\n\u{85}\u{a0}\u{2009}\u{3000}"));
    assert!(!trims_to_empty(" x "));
    assert!(!trims_to_empty("\u{200b}"));
    assert!(str_eq("abc", "abc"));
    assert!(!str_eq("abc", "abd"));
}

#[test]
fn prefixes_are_stripped_character_by_character() {
    assert_eq!(strip_prefix("macos-cg-display:7", "macos-cg-display:"), Some("7"));
    assert_eq!(strip_prefix("macos", "macos-cg-display:"), None);
    assert_eq!(strip_prefix("ünï:1", "ünï:"), Some("1"));
    assert_eq!(strip_prefix("abc", ""), Some("abc"));
}


fn run_permission_wait(observations: &[bool]) -> (PermissionAction, usize) {
    let mut state = PermissionWait::Checking;
    let mut used = 0;
    loop {
        match permission_wait_action(state) {
            PermissionAction::Stop { granted } => return (PermissionAction::Stop { granted }, used),
            _ => {
                state = permission_wait_step(state, observations[used]);
                used += 1;
            }
        }
    }
}

#[test]
fn permission_wait_stops_at_the_first_grant() {
    assert_eq!(run_permission_wait(&[true]), (PermissionAction::Stop { granted: true }, 1));
    assert_eq!(run_permission_wait(&[false, false]), (PermissionAction::Stop { granted: false }, 2));
    assert_eq!(run_permission_wait(&[false, true, false, false, true]), (PermissionAction::Stop { granted: true }, 5));
}

#[test]
fn permission_wait_gives_up_after_its_poll_budget() {
    let mut observations = vec![false, true];
    observations.extend(std::iter::repeat(false).take(PERMISSION_POLL_ATTEMPTS as usize + 5));
    assert_eq!(
        run_permission_wait(&observations),
        (PermissionAction::Stop { granted: false }, 2 + PERMISSION_POLL_ATTEMPTS as usize)
    );
    assert_eq!(permission_wait_action(PermissionWait::Polling { attempts: 3 }), PermissionAction::SleepThenCheck);
    assert_eq!(permission_wait_action(PermissionWait::Requesting), PermissionAction::ShowRequest);
}

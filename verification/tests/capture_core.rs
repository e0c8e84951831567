use plain_capture::capture::linux::x11_session_admitted;
use plain_capture::capture::{
    display_index_at_point, first_holding_index, permission_preflight_result, select_display_at,
    top_left_physical_work_area_to_local_physical, wayland_cursor_is_unavailable,
    with_native_acquisition_lease, CaptureAcquisitionGate, CaptureError, CaptureErrorCode, DisplayBounds,
    PhysicalPoint, PhysicalSize, MAX_RAW_FRAME_BYTES,
};

fn bounds(id: &str, x: i32, y: i32, width: u32, height: u32) -> DisplayBounds {
    DisplayBounds {
        id: id.to_string(),
        physical_origin: PhysicalPoint { x, y },
        physical_size: PhysicalSize { width, height },
    }
}

#[test]
fn acquisition_gate_rejects_overlap_and_releases_only_when_the_lease_drops() {
    let mut gate = CaptureAcquisitionGate::new();
    let first = gate.try_acquire().expect("first acquisition");
    let overlap = match gate.try_acquire() {
        Ok(_) => panic!("overlap must fail"),
        Err(error) => error,
    };
    assert_eq!(overlap.code, CaptureErrorCode::Busy);
    gate.release(first);
    gate.try_acquire().expect("gate released after the lease dropped");
}

#[test]
fn lease_wrapper_runs_the_operation_and_reopens_the_gate() {
    let mut gate = CaptureAcquisitionGate::new();
    let value = with_native_acquisition_lease(&mut gate, || Ok::<u32, CaptureError>(7));
    assert_eq!(value.expect("operation result"), 7);
    let failed = with_native_acquisition_lease(&mut gate, || {
        Err::<u32, CaptureError>(CaptureError::new(CaptureErrorCode::CaptureFailed, "backend failed"))
    });
    assert_eq!(failed.expect_err("operation error").detail, "backend failed");
    let lease = gate.try_acquire().expect("gate reopened after both operations");
    let mut ran = false;
    let busy = with_native_acquisition_lease(&mut gate, || {
        ran = true;
        Ok::<(), CaptureError>(())
    });
    assert_eq!(busy.expect_err("gate is held").code, CaptureErrorCode::Busy);
    assert!(!ran);
    gate.release(lease);
}

#[test]
fn preflight_maps_denied_state_to_the_permission_error() {
    permission_preflight_result(true).expect("granted");
    assert_eq!(
        permission_preflight_result(false).expect_err("denied").code,
        CaptureErrorCode::PermissionDenied
    );
}

#[test]
fn wayland_detection_matches_session_type_or_display_variable() {
    assert!(wayland_cursor_is_unavailable(Some("Wayland"), false));
    assert!(wayland_cursor_is_unavailable(Some("x11"), true));
    assert!(!wayland_cursor_is_unavailable(Some("x11"), false));
    assert!(!wayland_cursor_is_unavailable(None, false));
}

#[test]
fn wayland_detection_folds_only_ascii_case() {
    assert!(wayland_cursor_is_unavailable(Some("WAYLAND"), false));
    assert!(wayland_cursor_is_unavailable(Some("wAyLaNd"), false));
    assert!(!wayland_cursor_is_unavailable(Some("wayland "), false));
    assert!(!wayland_cursor_is_unavailable(Some("waylan"), false));
    assert!(!wayland_cursor_is_unavailable(Some(""), false));
}

#[test]
fn x11_backend_is_refused_in_wayland_sessions() {
    x11_session_admitted(Some("x11"), false).expect("x11 session");
    x11_session_admitted(None, false).expect("unknown session without wayland display");
    let error = x11_session_admitted(Some("wayland"), false).expect_err("wayland session");
    assert_eq!(error.code, CaptureErrorCode::MonitorSelectionUnavailable);
    assert_eq!(error.detail, "Wayland capture goes through the desktop portal path");
    assert!(x11_session_admitted(None, true).is_err());
}

#[test]
fn capture_error_is_a_displayable_std_error() {
    let error = CaptureError::new(CaptureErrorCode::Busy, "busy now");
    assert_eq!(error.to_string(), "busy now");
}

#[test]
fn display_validation_rejects_incomplete_geometry() {
    for invalid in [bounds("", 0, 0, 100, 100), bounds("id", 0, 0, 0, 100), bounds("id", 0, 0, 100, 0), bounds(" \t\n", 0, 0, 100, 100)] {
        assert_eq!(
            invalid.validate().expect_err("invalid display").code,
            CaptureErrorCode::InvalidMonitor
        );
    }
    bounds("id", -1920, 0, 1920, 1080).validate().expect("valid display");
}

#[test]
fn physical_selection_uses_half_open_bounds_in_list_order() {
    let displays = vec![bounds("a", 0, 0, 3024, 1964), bounds("b", 3024, 0, 1920, 1080)];
    assert_eq!(select_display_at(&displays, PhysicalPoint { x: 3023, y: 10 }).map(|d| d.id.as_str()), Some("a"));
    assert_eq!(select_display_at(&displays, PhysicalPoint { x: 3024, y: 10 }).map(|d| d.id.as_str()), Some("b"));
    assert!(select_display_at(&displays, PhysicalPoint { x: 3024, y: 1080 }).is_none());
    assert!(select_display_at(&displays, PhysicalPoint { x: -1, y: 0 }).is_none());
    let overlapping = vec![bounds("a", 0, 0, 100, 100), bounds("b", 50, 50, 100, 100)];
    assert_eq!(select_display_at(&overlapping, PhysicalPoint { x: 60, y: 60 }).map(|d| d.id.as_str()), Some("a"));
}

#[test]
fn physical_selection_handles_the_extremes_of_the_coordinate_space() {
    let displays = vec![bounds("everything", i32::MIN, i32::MIN, u32::MAX, u32::MAX)];
    assert!(select_display_at(&displays, PhysicalPoint { x: i32::MAX - 1, y: i32::MIN }).is_some());
    assert!(select_display_at(&displays, PhysicalPoint { x: i32::MAX, y: 0 }).is_none());
    let edge = vec![bounds("edge", i32::MAX - 1, 0, 5, 5)];
    assert!(select_display_at(&edge, PhysicalPoint { x: i32::MAX, y: 4 }).is_some());
}

#[test]
fn pointer_display_index_reports_the_first_position_of_the_selected_id() {
    let displays = vec![bounds("a", 0, 0, 100, 100), bounds("b", 100, 0, 100, 100), bounds("b", 200, 0, 100, 100)];
    assert_eq!(display_index_at_point(&displays, PhysicalPoint { x: 150, y: 5 }).expect("b"), 1);
    assert_eq!(display_index_at_point(&displays, PhysicalPoint { x: 250, y: 5 }).expect("second b"), 1);
    assert_eq!(display_index_at_point(&displays, PhysicalPoint { x: 5, y: 5 }).expect("a"), 0);
    let error = display_index_at_point(&displays, PhysicalPoint { x: 400, y: 5 }).expect_err("outside");
    assert_eq!(error.code, CaptureErrorCode::NoMonitor);
    assert_eq!(error.detail, "the pointer is not inside an active monitor");
}

#[test]
fn windows_work_area_maps_into_overlay_local_css_coordinates() {
    let area = top_left_physical_work_area_to_local_physical(
        PhysicalPoint { x: -1920, y: 0 },
        PhysicalSize { width: 1920, height: 1080 },
        PhysicalPoint { x: -1920, y: 48 },
        PhysicalSize { width: 1920, height: 1032 },
    )
    .expect("work area");
    assert_eq!((area.left, area.top, area.width, area.height), (0, 48, 1920, 1032));
    let scale_factor = 1.5;
    assert_eq!(f64::from(area.left) / scale_factor, 0.0);
    assert_eq!(f64::from(area.top) / scale_factor, 32.0);
    assert_eq!(f64::from(area.width) / scale_factor, 1280.0);

    assert_eq!(
        top_left_physical_work_area_to_local_physical(
            PhysicalPoint { x: 0, y: 0 },
            PhysicalSize { width: 100, height: 100 },
            PhysicalPoint { x: 0, y: 0 },
            PhysicalSize { width: 200, height: 100 },
        )
        .expect_err("out of bounds")
        .code,
        CaptureErrorCode::InvalidMonitor
    );
}

#[test]
fn work_area_rejects_empty_sizes_and_negative_offsets() {
    let frame = PhysicalSize { width: 100, height: 100 };
    let empty = top_left_physical_work_area_to_local_physical(
        PhysicalPoint { x: 0, y: 0 },
        frame,
        PhysicalPoint { x: 0, y: 0 },
        PhysicalSize { width: 0, height: 10 },
    )
    .expect_err("empty work area");
    assert_eq!(empty.detail, "the native monitor work area is invalid");
    let above = top_left_physical_work_area_to_local_physical(
        PhysicalPoint { x: 0, y: 10 },
        frame,
        PhysicalPoint { x: 0, y: 9 },
        PhysicalSize { width: 10, height: 10 },
    )
    .expect_err("above the frame");
    assert_eq!(above.detail, "the native monitor work area falls outside its display frame");
    let whole = top_left_physical_work_area_to_local_physical(
        PhysicalPoint { x: i32::MIN, y: i32::MIN },
        PhysicalSize { width: u32::MAX, height: u32::MAX },
        PhysicalPoint { x: i32::MAX - 1, y: i32::MAX - 1 },
        PhysicalSize { width: 1, height: 1 },
    )
    .expect("last pixel of the widest frame");
    assert_eq!((whole.left, whole.top), (u32::MAX - 1, u32::MAX - 1));
}

#[test]
fn raw_frame_limit_is_a_quarter_gibibyte() {
    assert_eq!(MAX_RAW_FRAME_BYTES, 268_435_456);
}

#[test]
fn first_holding_position_follows_list_order() {
    let displays = vec![bounds("a", 0, 0, 100, 100), bounds("a", 0, 0, 200, 200)];
    assert_eq!(first_holding_index(&displays, PhysicalPoint { x: 150, y: 150 }), Some(1));
    assert_eq!(first_holding_index(&displays, PhysicalPoint { x: 50, y: 50 }), Some(0));
    assert_eq!(first_holding_index(&displays, PhysicalPoint { x: 250, y: 50 }), None);
}

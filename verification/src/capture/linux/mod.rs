//! Linux capture dispatch: X11 through RandR and root-window `GetImage`;
//! Wayland sessions go through the desktop portal instead.
pub mod x11;

use vstd::prelude::*;
use crate::capture::{is_wayland_session, opt_str_view, wayland_cursor_is_unavailable, CaptureError, CaptureErrorCode, fails_as};

verus! {

/// Admits the X11 backend only outside Wayland sessions: a Wayland session
/// is refused with `MonitorSelectionUnavailable`, since its capture goes
/// through the desktop portal.
pub fn x11_session_admitted(session_type: Option<&str>, wayland_display_present: bool) -> (r: Result<(), CaptureError>)
    ensures
        r is Err <==> is_wayland_session(opt_str_view(session_type), wayland_display_present),
        r is Err ==> fails_as(
            r,
            CaptureErrorCode::MonitorSelectionUnavailable,
            "Wayland capture goes through the desktop portal path"@,
        ),
{
    if wayland_cursor_is_unavailable(session_type, wayland_display_present) {
        return Err(CaptureError::new(
            CaptureErrorCode::MonitorSelectionUnavailable,
            "Wayland capture goes through the desktop portal path",
        ));
    }
    Ok(())
}

} // verus!

//! Screen-capture core: physical geometry, the error contract, display
//! selection, work-area mapping and the acquisition gate that serializes
//! native screen grabs.
pub mod linux;
pub mod macos;
pub mod pixels;
pub mod windows;

use vstd::prelude::*;
use crate::text::{eq_ignore_ascii_case, eq_ignore_ascii_case_spec, is_blank, push_str, trims_to_empty};

verus! {

/// Upper bound on the bytes of one raw frame that the capture pipeline accepts.
pub const MAX_RAW_FRAME_BYTES: usize = 256 * 1024 * 1024;

#[derive(Debug, Clone, Copy, PartialEq, Eq, Structural)]
pub struct PhysicalPoint {
    pub x: i32,
    pub y: i32,
}

#[derive(Debug, Clone, Copy, PartialEq, Eq, Structural)]
pub struct PhysicalSize {
    pub width: u32,
    pub height: u32,
}

#[derive(Debug, Clone, Copy, PartialEq, Eq, Structural)]
pub struct PhysicalRect {
    pub origin: PhysicalPoint,
    pub size: PhysicalSize,
}

#[derive(Debug, Clone, Copy, PartialEq, Eq, Structural)]
pub enum CaptureErrorCode {
    Busy,
    PermissionDenied,
    NoMonitor,
    MonitorSelectionUnavailable,
    InvalidMonitor,
    CaptureFailed,
    InvalidFrame,
    FrameTooLarge,
    OverlayFailed,
    InvalidSession,
    InvalidPhase,
    UnauthorizedCaller,
    TargetUnavailable,
    EncodeFailed,
    ClipboardFailed,
    SaveFailed,
    TimedOut,
}

/// A capture failure: a machine-readable code and a human-readable detail.
#[derive(Debug, Clone, PartialEq, Eq)]
pub struct CaptureError {
    pub code: CaptureErrorCode,
    pub detail: String,
}

impl CaptureError {
    pub fn new(code: CaptureErrorCode, detail: &str) -> (r: Self)
        ensures
            r.code == code,
            r.detail@ == detail@,
    {
        CaptureError { code, detail: detail.to_owned() }
    }

    /// An error that takes ownership of an already built detail text.
    pub fn with_detail(code: CaptureErrorCode, detail: String) -> (r: Self)
        ensures
            r.code == code,
            r.detail@ == detail@,
    {
        CaptureError { code, detail }
    }

    /// The text shown for the error: its detail.
    pub fn to_string(&self) -> (r: String)
        ensures
            r@ == self.detail@,
    {
        self.detail.clone()
    }
}

/// Whether `r` failed with error code `code`.
pub open spec fn fails_with<T>(r: Result<T, CaptureError>, code: CaptureErrorCode) -> bool {
    r matches Err(e) && e.code == code
}

/// Whether `r` failed with error code `code` and detail text `detail`.
pub open spec fn fails_as<T>(r: Result<T, CaptureError>, code: CaptureErrorCode, detail: Seq<char>) -> bool {
    r matches Err(e) && e.code == code && e.detail@ == detail
}

/// `failed to {stage}: {error}`.
pub open spec fn stage_failure_detail(stage: Seq<char>, error: Seq<char>) -> Seq<char> {
    "failed to "@ + stage + ": "@ + error
}

/// A `CaptureFailed` error for a native call that failed at `stage` with the
/// platform's description `error`.
pub fn stage_failure(stage: &str, error: &str) -> (r: CaptureError)
    ensures
        r.code == CaptureErrorCode::CaptureFailed,
        r.detail@ == stage_failure_detail(stage@, error@),
{
    let mut detail = String::new();
    push_str(&mut detail, "failed to ");
    push_str(&mut detail, stage);
    push_str(&mut detail, ": ");
    push_str(&mut detail, error);
    CaptureError::with_detail(CaptureErrorCode::CaptureFailed, detail)
}

/// Maps the platform's permission state to the capture contract.
pub fn permission_preflight_result(granted: bool) -> (r: Result<(), CaptureError>)
    ensures
        granted <==> r is Ok,
        !granted ==> fails_as(r, CaptureErrorCode::PermissionDenied, "screen capture permission is required"@),
{
    if granted {
        Ok(())
    } else {
        Err(CaptureError::new(CaptureErrorCode::PermissionDenied, "screen capture permission is required"))
    }
}

/// The pointer cannot be located through X11 when the session is a Wayland
/// session (by `XDG_SESSION_TYPE`, ASCII case ignored) or a Wayland display
/// is announced.
pub open spec fn is_wayland_session(session_type: Option<Seq<char>>, wayland_display_present: bool) -> bool {
    ||| (session_type matches Some(v) && eq_ignore_ascii_case_spec(v, seq!['w', 'a', 'y', 'l', 'a', 'n', 'd']))
    ||| wayland_display_present
}

pub open spec fn opt_str_view(s: Option<&str>) -> Option<Seq<char>> {
    match s {
        Some(v) => Some(v@),
        None => None,
    }
}

pub fn wayland_cursor_is_unavailable(session_type: Option<&str>, wayland_display_present: bool) -> (r: bool)
    ensures
        r == is_wayland_session(opt_str_view(session_type), wayland_display_present),
{
    let named_wayland = match session_type {
        Some(value) => {
            let wayland = "wayland";
            proof {
                reveal_strlit("wayland");
                assert(wayland@ =~= seq!['w', 'a', 'y', 'l', 'a', 'n', 'd']);
            }
            eq_ignore_ascii_case(value, wayland)
        },
        None => false,
    };
    named_wayland || wayland_display_present
}

/// What the capture logic reads of a monitor: its identifier and its
/// physical (pixel) bounds in the desktop's top-left coordinate space.
#[derive(Debug, Clone, PartialEq, Eq)]
pub struct DisplayBounds {
    pub id: String,
    pub physical_origin: PhysicalPoint,
    pub physical_size: PhysicalSize,
}

impl DisplayBounds {
    /// The half-open pixel rectangle of the display holds `point`.
    pub open spec fn holds(&self, point: PhysicalPoint) -> bool {
        &&& self.physical_origin.x <= point.x
        &&& point.x < self.physical_origin.x + self.physical_size.width
        &&& self.physical_origin.y <= point.y
        &&& point.y < self.physical_origin.y + self.physical_size.height
    }

    pub fn contains(&self, point: PhysicalPoint) -> (r: bool)
        ensures
            r == self.holds(point),
            r <==> (self.physical_origin.x <= point.x < self.physical_origin.x + self.physical_size.width
                && self.physical_origin.y <= point.y < self.physical_origin.y + self.physical_size.height),
    {
        let left = self.physical_origin.x as i64;
        let top = self.physical_origin.y as i64;
        let right = left + self.physical_size.width as i64;
        let bottom = top + self.physical_size.height as i64;
        let x = point.x as i64;
        let y = point.y as i64;
        x >= left && x < right && y >= top && y < bottom
    }

    /// The identifier is not blank and the physical size is not empty.
    pub open spec fn is_complete(&self) -> bool {
        &&& !is_blank(self.id@)
        &&& self.physical_size.width != 0
        &&& self.physical_size.height != 0
    }

    /// The identifier and physical part of monitor validation.
    pub fn validate(&self) -> (r: Result<(), CaptureError>)
        ensures
            r is Ok <==> self.is_complete(),
            r is Err ==> fails_as(r, CaptureErrorCode::InvalidMonitor, "monitor geometry is incomplete or invalid"@),
    {
        if trims_to_empty(self.id.as_str()) || self.physical_size.width == 0
            || self.physical_size.height == 0 {
            return Err(CaptureError::new(
                CaptureErrorCode::InvalidMonitor,
                "monitor geometry is incomplete or invalid",
            ));
        }
        Ok(())
    }
}

/// A display holds exactly the points of its half-open pixel rectangle
/// `[x, x + width) x [y, y + height)`.
pub proof fn lemma_display_holds_its_rectangle(d: DisplayBounds, point: PhysicalPoint)
    ensures
        d.holds(point) <==> (d.physical_origin.x <= point.x < d.physical_origin.x + d.physical_size.width
            && d.physical_origin.y <= point.y < d.physical_origin.y + d.physical_size.height),
{
}

/// Moving a display and a point by the same offset does not change whether
/// the display holds the point; neither does the display's identifier.
pub proof fn lemma_display_holding_is_translation_invariant(
    d: DisplayBounds,
    e: DisplayBounds,
    p: PhysicalPoint,
    q: PhysicalPoint,
)
    requires
        e.physical_size == d.physical_size,
        e.physical_origin.x - d.physical_origin.x == q.x - p.x,
        e.physical_origin.y - d.physical_origin.y == q.y - p.y,
    ensures
        d.holds(p) == e.holds(q),
{
}

/// `k` is the first display, in list order, that holds `point`.
pub open spec fn is_first_holding(displays: Seq<DisplayBounds>, point: PhysicalPoint, k: int) -> bool {
    &&& 0 <= k < displays.len()
    &&& displays[k].holds(point)
    &&& forall|j: int| 0 <= j < k ==> !(#[trigger] displays[j]).holds(point)
}

/// The display under the pointer is determined by the list and the point:
/// two positions that are each the first to hold the point are the same
/// position, and no display before it holds the point.
pub proof fn lemma_first_holding_is_unique(displays: Seq<DisplayBounds>, point: PhysicalPoint, k: int, m: int, j: int)
    requires
        is_first_holding(displays, point, k),
        is_first_holding(displays, point, m),
        0 <= j < k,
    ensures
        k == m,
        displays[k].holds(point),
        !displays[j].holds(point),
{
    if m < k {
        assert(!displays[m].holds(point));
    }
    if k < m {
        assert(!displays[k].holds(point));
    }
}

pub open spec fn none_holds(displays: Seq<DisplayBounds>, point: PhysicalPoint) -> bool {
    forall|j: int| 0 <= j < displays.len() ==> !(#[trigger] displays[j]).holds(point)
}

/// The position of the first display whose physical bounds hold `point`.
pub fn first_holding_index(displays: &[DisplayBounds], point: PhysicalPoint) -> (r: Option<usize>)
    ensures
        r is None <==> none_holds(displays@, point),
        r matches Some(k) ==> is_first_holding(displays@, point, k as int),
{
    let mut i: usize = 0;
    while i < displays.len()
        invariant
            i <= displays@.len(),
            forall|j: int| 0 <= j < i ==> !(#[trigger] displays@[j]).holds(point),
        decreases displays@.len() - i,
    {
        if displays[i].contains(point) {
            return Some(i);
        }
        i = i + 1;
    }
    None
}

/// The first display whose physical bounds hold `point`.
pub fn select_display_at(displays: &[DisplayBounds], point: PhysicalPoint) -> (r: Option<&DisplayBounds>)
    ensures
        r is None <==> none_holds(displays@, point),
        r matches Some(d) ==> exists|k: int| is_first_holding(displays@, point, k) && *d == displays@[k],
{
    match first_holding_index(displays, point) {
        Some(k) => Some(&displays[k]),
        None => None,
    }
}

/// `j` is the first position whose display carries identifier `id`.
pub open spec fn is_first_with_id(displays: Seq<DisplayBounds>, id: Seq<char>, j: int) -> bool {
    &&& 0 <= j < displays.len()
    &&& displays[j].id@ == id
    &&& forall|i: int| 0 <= i < j ==> (#[trigger] displays[i]).id@ != id
}

fn position_of_id(displays: &[DisplayBounds], id: &String) -> (r: Option<usize>)
    ensures
        r matches Some(j) ==> is_first_with_id(displays@, id@, j as int),
        r is None ==> forall|i: int| 0 <= i < displays@.len() ==> (#[trigger] displays@[i]).id@ != id@,
{
    let mut i: usize = 0;
    while i < displays.len()
        invariant
            i <= displays@.len(),
            forall|j: int| 0 <= j < i ==> (#[trigger] displays@[j]).id@ != id@,
        decreases displays@.len() - i,
    {
        if displays[i].id == *id {
            return Some(i);
        }
        i = i + 1;
    }
    None
}

/// The position of the display under the pointer: the first display that
/// holds `point`, reported by the first position that carries its identifier.
pub fn display_index_at_point(displays: &[DisplayBounds], point: PhysicalPoint) -> (r: Result<usize, CaptureError>)
    ensures
        r is Err <==> none_holds(displays@, point),
        r is Err ==> fails_as(r, CaptureErrorCode::NoMonitor, "the pointer is not inside an active monitor"@),
        r matches Ok(j) ==> exists|k: int|
            is_first_holding(displays@, point, k) && is_first_with_id(displays@, displays@[k].id@, j as int),
{
    match first_holding_index(displays, point) {
        Some(k) => {
            let found = position_of_id(displays, &displays[k].id);
            match found {
                Some(j) => Ok(j),
                None => {
                    // Position `k` itself carries the identifier: this branch is never taken.
                    assert(displays@[k as int].id@ == displays@[k as int].id@);
                    Err(CaptureError::new(CaptureErrorCode::NoMonitor, "the pointer is not inside an active monitor"))
                },
            }
        },
        None => Err(CaptureError::new(CaptureErrorCode::NoMonitor, "the pointer is not inside an active monitor")),
    }
}

/// Identifiers are pairwise distinct.
pub open spec fn distinct_display_ids(displays: Seq<DisplayBounds>) -> bool {
    forall|i: int, j: int| 0 <= i < displays.len() && 0 <= j < displays.len() && i != j ==> (#[trigger] displays[i]).id@
        != (#[trigger] displays[j]).id@
}

/// With distinct identifiers, the position reported for the pointer is the
/// display under the pointer itself.
pub proof fn lemma_index_at_point_is_holding_display(displays: Seq<DisplayBounds>, point: PhysicalPoint, k: int, j: int)
    requires
        distinct_display_ids(displays),
        is_first_holding(displays, point, k),
        is_first_with_id(displays, displays[k].id@, j),
    ensures
        j == k,
{
    if j != k {
        assert(displays[j].id@ != displays[k].id@);
    }
}

/// A work area in overlay-local physical pixels: offsets from the display
/// frame's top-left corner and the area's size.
#[derive(Debug, Clone, Copy, PartialEq, Eq, Structural)]
pub struct LocalWorkArea {
    pub left: u32,
    pub top: u32,
    pub width: u32,
    pub height: u32,
}

pub open spec fn work_area_left(frame_origin: PhysicalPoint, work_origin: PhysicalPoint) -> int {
    work_origin.x - frame_origin.x
}

pub open spec fn work_area_top(frame_origin: PhysicalPoint, work_origin: PhysicalPoint) -> int {
    work_origin.y - frame_origin.y
}

/// The work area lies inside its display frame.
pub open spec fn work_area_inside_frame(
    frame_origin: PhysicalPoint,
    frame_size: PhysicalSize,
    work_origin: PhysicalPoint,
    work_size: PhysicalSize,
) -> bool {
    let left = work_area_left(frame_origin, work_origin);
    let top = work_area_top(frame_origin, work_origin);
    &&& 0 <= left
    &&& 0 <= top
    &&& left + work_size.width <= frame_size.width
    &&& top + work_size.height <= frame_size.height
}

/// Maps a native top-left physical monitor work area into overlay-local
/// physical coordinates: the frame and the work area must both be non-empty
/// and the work area must lie inside the frame. Dividing by the display's
/// scale factor then gives the overlay's CSS rectangle.
pub fn top_left_physical_work_area_to_local_physical(
    frame_origin: PhysicalPoint,
    frame_size: PhysicalSize,
    work_origin: PhysicalPoint,
    work_size: PhysicalSize,
) -> (r: Result<LocalWorkArea, CaptureError>)
    ensures
        r is Ok <==> (frame_size.width != 0 && frame_size.height != 0 && work_size.width != 0
            && work_size.height != 0 && work_area_inside_frame(frame_origin, frame_size, work_origin, work_size)),
        (frame_size.width == 0 || frame_size.height == 0 || work_size.width == 0 || work_size.height == 0)
            ==> fails_as(r, CaptureErrorCode::InvalidMonitor, "the native monitor work area is invalid"@),
        (frame_size.width != 0 && frame_size.height != 0 && work_size.width != 0 && work_size.height != 0
            && !work_area_inside_frame(frame_origin, frame_size, work_origin, work_size)) ==> fails_as(
            r,
            CaptureErrorCode::InvalidMonitor,
            "the native monitor work area falls outside its display frame"@,
        ),
        r matches Ok(area) ==> {
            &&& area.left == work_area_left(frame_origin, work_origin)
            &&& area.top == work_area_top(frame_origin, work_origin)
            &&& area.width == work_size.width
            &&& area.height == work_size.height
        },
{
    if frame_size.width == 0 || frame_size.height == 0 || work_size.width == 0 || work_size.height == 0 {
        return Err(CaptureError::new(CaptureErrorCode::InvalidMonitor, "the native monitor work area is invalid"));
    }
    let left = work_origin.x as i64 - frame_origin.x as i64;
    let top = work_origin.y as i64 - frame_origin.y as i64;
    let right = left + work_size.width as i64;
    let bottom = top + work_size.height as i64;
    if left < 0 || top < 0 || right > frame_size.width as i64 || bottom > frame_size.height as i64 {
        return Err(CaptureError::new(
            CaptureErrorCode::InvalidMonitor,
            "the native monitor work area falls outside its display frame",
        ));
    }
    Ok(LocalWorkArea { left: left as u32, top: top as u32, width: work_size.width, height: work_size.height })
}

/// The pixels delivered by every backend: 8-bit RGBA, top-left origin,
/// `stride >= width * 4`.
#[derive(Debug)]
pub struct Frame {
    pub width: u32,
    pub height: u32,
    pub stride: u32,
    pub bytes: Vec<u8>,
}

impl Frame {
    /// The row stride covers a full RGBA row and the buffer holds every row.
    pub open spec fn is_well_formed(&self) -> bool {
        &&& self.stride >= self.width * 4
        &&& self.bytes@.len() >= self.stride * self.height
    }
}

/// Serializes native acquisitions: at most one lease is out at a time.
pub struct CaptureAcquisitionGate {
    active: bool,
}

/// Held by whoever acquired; handed back on release.
#[derive(Debug)]
pub struct CaptureAcquisitionLease {
    held: bool,
}

/// Whether an acquisition is admitted in gate state `active`.
pub open spec fn gate_admits(active: bool) -> bool {
    !active
}

impl CaptureAcquisitionGate {
    pub closed spec fn is_active(&self) -> bool {
        self.active
    }

    pub fn new() -> (g: Self)
        ensures
            !g.is_active(),
    {
        CaptureAcquisitionGate { active: false }
    }

    /// Acquires, or fails with `Busy` while another lease is out.
    pub fn try_acquire(&mut self) -> (r: Result<CaptureAcquisitionLease, CaptureError>)
        ensures
            r is Ok <==> gate_admits(old(self).is_active()),
            r is Err ==> fails_as(r, CaptureErrorCode::Busy, "another native screen acquisition is still running"@),
            final(self).is_active(),
    {
        if self.active {
            Err(CaptureError::new(CaptureErrorCode::Busy, "another native screen acquisition is still running"))
        } else {
            self.active = true;
            Ok(CaptureAcquisitionLease { held: true })
        }
    }

    /// Hands a lease back, so that acquisition is admitted again.
    pub fn release(&mut self, lease: CaptureAcquisitionLease)
        ensures
            !final(self).is_active(),
    {
        let _ = lease.held;
        self.active = false;
    }
}

/// Acquisitions never overlap. From a gate that admits an acquisition,
/// `try_acquire` leaves a gate that admits none, as does every refused attempt
/// after it (`try_acquire` leaves every gate active); `release` leaves a gate
/// that admits one again.
pub proof fn lemma_gate_rejects_overlap_until_release(
    before: CaptureAcquisitionGate,
    acquired: CaptureAcquisitionGate,
    refused: CaptureAcquisitionGate,
    released: CaptureAcquisitionGate,
)
    requires
        gate_admits(before.is_active()),
        acquired.is_active(),
        refused.is_active(),
        !released.is_active(),
    ensures
        !gate_admits(acquired.is_active()),
        !gate_admits(refused.is_active()),
        gate_admits(released.is_active()),
{
}

/// Runs `operation` while holding an acquisition lease. When a lease is
/// already out the operation does not run and the call fails with `Busy`;
/// otherwise the operation's result is returned and the lease handed back.
/// The lease is handed back only when `operation` returns: if it panics, the
/// gate stays busy. A caller that must survive a panic in the operation holds
/// the lease in a guard of its own that releases it when dropped.
pub fn with_native_acquisition_lease<T, F: FnOnce() -> Result<T, CaptureError>>(
    gate: &mut CaptureAcquisitionGate,
    operation: F,
) -> (r: Result<T, CaptureError>)
    requires
        call_requires(operation, ()),
    ensures
        old(gate).is_active() ==> fails_as(r, CaptureErrorCode::Busy, "another native screen acquisition is still running"@)
            && final(gate).is_active(),
        !old(gate).is_active() ==> call_ensures(operation, (), r) && !final(gate).is_active(),
{
    let lease = gate.try_acquire()?;
    let result = operation();
    gate.release(lease);
    result
}

} // verus!

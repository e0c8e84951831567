//! X11 capture decisions: RandR monitor identifiers and geometry, and the
//! conversion of a root-window `GetImage` reply into an RGBA frame.
//!
//! X11 has no streaming screenshot API; one capture is one synchronous
//! `GetImage` for the monitor's region of the root window. The pointer is
//! never part of a `GetImage` result.
use vstd::prelude::*;
use crate::capture::pixels::{bgra_to_rgba_in_place, rgba_from_bgra};
use crate::capture::{
    CaptureError, CaptureErrorCode, DisplayBounds, Frame, PhysicalPoint, PhysicalSize, distinct_display_ids, fails_as, fails_with,
    stage_failure, stage_failure_detail,
};
use crate::text::{
    decimal, decimal_digits, lemma_decimal_field_injective, lemma_indexed_id_not_blank, push_char, push_decimal_i64,
    push_decimal_u64, push_str, str_eq, string_from_utf8_lossy, utf8_lossy,
};

verus! {

/// A native call failed at `stage` with the platform's description `error`.
pub fn native_failure(stage: &str, error: &str) -> (r: CaptureError)
    ensures
        r.code == CaptureErrorCode::CaptureFailed,
        r.detail@ == stage_failure_detail(stage@, error@),
{
    stage_failure(stage, error)
}

/// `{index}:{name}:{x}:{y}:{width}:{height}`.
pub open spec fn x11_monitor_id_spec(index: int, name: Seq<char>, x: int, y: int, width: int, height: int) -> Seq<char> {
    decimal(index) + seq![':'] + name + seq![':'] + decimal(x) + seq![':'] + decimal(y) + seq![':']
        + decimal(width) + seq![':'] + decimal(height)
}

/// The identifier of a RandR monitor: its index, name and root geometry.
pub fn x11_monitor_id(index: usize, name: &str, x: i16, y: i16, width: u16, height: u16) -> (r: String)
    ensures
        r@ == x11_monitor_id_spec(index as int, name@, x as int, y as int, width as int, height as int),
{
    let mut id = String::new();
    push_decimal_u64(&mut id, index as u64);
    push_char(&mut id, ':');
    push_str(&mut id, name);
    push_char(&mut id, ':');
    push_decimal_i64(&mut id, x as i64);
    push_char(&mut id, ':');
    push_decimal_i64(&mut id, y as i64);
    push_char(&mut id, ':');
    push_decimal_u64(&mut id, width as u64);
    push_char(&mut id, ':');
    push_decimal_u64(&mut id, height as u64);
    assert(id@ =~= x11_monitor_id_spec(index as int, name@, x as int, y as int, width as int, height as int));
    id
}

/// One monitor as RandR reports it, before its name atom is resolved.
#[derive(Debug)]
pub struct RandrMonitor {
    /// The monitor's name atom.
    pub atom: u32,
    /// The atom's name, when the server resolved it.
    pub name: Option<Vec<u8>>,
    pub x: i16,
    pub y: i16,
    pub width: u16,
    pub height: u16,
}

/// An active RandR monitor: its name and root-window geometry.
#[derive(Debug)]
pub struct X11Monitor {
    pub name: String,
    pub x: i16,
    pub y: i16,
    pub width: u16,
    pub height: u16,
}

/// The name of a monitor: its resolved atom name, or `monitor-{atom}`.
pub open spec fn x11_monitor_name(m: RandrMonitor) -> Seq<char> {
    match m.name {
        Some(bytes) => utf8_lossy(bytes@),
        None => "monitor-"@ + decimal_digits(m.atom as nat),
    }
}

/// The active monitors, named, in RandR order. An empty list is refused with
/// `NoMonitor`.
pub fn randr_monitor_list(reported: &Vec<RandrMonitor>) -> (r: Result<Vec<X11Monitor>, CaptureError>)
    ensures
        r is Err <==> reported@.len() == 0,
        r is Err ==> fails_as(r, CaptureErrorCode::NoMonitor, "RandR reports no active monitors"@),
        r matches Ok(list) ==> {
            &&& list@.len() == reported@.len()
            &&& forall|i: int| 0 <= i < list@.len() ==> {
                let m = #[trigger] list@[i];
                let src = reported@[i];
                &&& m.name@ == x11_monitor_name(src)
                &&& m.x == src.x
                &&& m.y == src.y
                &&& m.width == src.width
                &&& m.height == src.height
            }
        },
{
    let mut monitors: Vec<X11Monitor> = Vec::new();
    let mut i: usize = 0;
    while i < reported.len()
        invariant
            i <= reported@.len(),
            monitors@.len() == i,
            forall|k: int| 0 <= k < i ==> {
                let m = #[trigger] monitors@[k];
                let src = reported@[k];
                &&& m.name@ == x11_monitor_name(src)
                &&& m.x == src.x
                &&& m.y == src.y
                &&& m.width == src.width
                &&& m.height == src.height
            },
        decreases reported@.len() - i,
    {
        let entry = &reported[i];
        let name = match &entry.name {
            Some(bytes) => string_from_utf8_lossy(bytes.as_slice()),
            None => {
                let mut fallback = String::new();
                push_str(&mut fallback, "monitor-");
                push_decimal_u64(&mut fallback, entry.atom as u64);
                fallback
            },
        };
        monitors.push(X11Monitor { name, x: entry.x, y: entry.y, width: entry.width, height: entry.height });
        i = i + 1;
    }
    if monitors.len() == 0 {
        return Err(CaptureError::new(CaptureErrorCode::NoMonitor, "RandR reports no active monitors"));
    }
    Ok(monitors)
}

/// The display a RandR monitor becomes: identified by index, name and
/// geometry, with its root-window rectangle as physical bounds.
pub open spec fn x11_bounds_spec(index: int, m: X11Monitor) -> (Seq<char>, PhysicalPoint, PhysicalSize) {
    (
        x11_monitor_id_spec(index, m.name@, m.x as int, m.y as int, m.width as int, m.height as int),
        PhysicalPoint { x: m.x as i32, y: m.y as i32 },
        PhysicalSize { width: m.width as u32, height: m.height as u32 },
    )
}

/// The display of RandR monitor `m` covers `m`'s root-window rectangle: its
/// origin is `(m.x, m.y)` and its size `m.width` x `m.height`, so it holds a
/// root-window point exactly when the point lies in that rectangle.
pub proof fn lemma_x11_display_is_root_rectangle(index: int, m: X11Monitor, id: String, point: PhysicalPoint)
    ensures
        x11_bounds_spec(index, m).1.x == m.x,
        x11_bounds_spec(index, m).1.y == m.y,
        x11_bounds_spec(index, m).2.width == m.width,
        x11_bounds_spec(index, m).2.height == m.height,
        (DisplayBounds { id, physical_origin: x11_bounds_spec(index, m).1, physical_size: x11_bounds_spec(index, m).2 }).holds(
            point,
        ) <==> (m.x <= point.x < m.x + m.width && m.y <= point.y < m.y + m.height),
{
}

/// The displays of the RandR monitors, in order. Each display is validated;
/// the list is refused with `InvalidMonitor` when a monitor has an empty size.
pub fn x11_display_bounds(monitors: &Vec<X11Monitor>) -> (r: Result<Vec<DisplayBounds>, CaptureError>)
    ensures
        r is Ok <==> forall|i: int| 0 <= i < monitors@.len() ==> (#[trigger] monitors@[i]).width != 0 && monitors@[i].height != 0,
        r is Err ==> fails_as(r, CaptureErrorCode::InvalidMonitor, "monitor geometry is incomplete or invalid"@),
        r matches Ok(list) ==> {
            &&& list@.len() == monitors@.len()
            &&& forall|i: int| 0 <= i < list@.len() ==> {
                let d = #[trigger] list@[i];
                let spec = x11_bounds_spec(i, monitors@[i]);
                &&& d.id@ == spec.0
                &&& d.physical_origin == spec.1
                &&& d.physical_size == spec.2
                &&& d.physical_origin.x == monitors@[i].x
                &&& d.physical_origin.y == monitors@[i].y
                &&& d.physical_size.width == monitors@[i].width
                &&& d.physical_size.height == monitors@[i].height
            }
        },
{
    let mut displays: Vec<DisplayBounds> = Vec::new();
    let mut i: usize = 0;
    while i < monitors.len()
        invariant
            i <= monitors@.len(),
            displays@.len() == i,
            forall|k: int| 0 <= k < i ==> (#[trigger] monitors@[k]).width != 0 && monitors@[k].height != 0,
            forall|k: int| 0 <= k < i ==> {
                let d = #[trigger] displays@[k];
                let spec = x11_bounds_spec(k, monitors@[k]);
                &&& d.id@ == spec.0
                &&& d.physical_origin == spec.1
                &&& d.physical_size == spec.2
            },
        decreases monitors@.len() - i,
    {
        let m = &monitors[i];
        let id = x11_monitor_id(i, m.name.as_str(), m.x, m.y, m.width, m.height);
        let display = DisplayBounds {
            id,
            physical_origin: PhysicalPoint { x: m.x as i32, y: m.y as i32 },
            physical_size: PhysicalSize { width: m.width as u32, height: m.height as u32 },
        };
        proof {
            let spec = x11_bounds_spec(i as int, monitors@[i as int]);
            lemma_indexed_id_not_blank(i as nat, spec.0.subrange(decimal(i as int).len() + 1int, spec.0.len() as int));
            assert(spec.0 =~= decimal_digits(i as nat) + seq![':'] + spec.0.subrange(
                decimal(i as int).len() + 1int,
                spec.0.len() as int,
            ));
        }
        if display.validate().is_err() {
            return Err(CaptureError::new(CaptureErrorCode::InvalidMonitor, "monitor geometry is incomplete or invalid"));
        }
        displays.push(display);
        i = i + 1;
    }
    Ok(displays)
}

/// The monitor whose identifier at its RandR position equals `display_id`:
/// the first one, or `NoMonitor` when none does.
pub fn x11_display_entry(monitors: &Vec<X11Monitor>, display_id: &str) -> (r: Result<usize, CaptureError>)
    ensures
        r is Err <==> forall|i: int| 0 <= i < monitors@.len() ==> display_id@ != (#[trigger] x11_bounds_spec(i, monitors@[i])).0,
        r is Err ==> fails_as(r, CaptureErrorCode::NoMonitor, "the selected monitor disappeared before capture"@),
        r matches Ok(k) ==> {
            &&& k < monitors@.len()
            &&& display_id@ == x11_bounds_spec(k as int, monitors@[k as int]).0
            &&& forall|i: int| 0 <= i < k ==> display_id@ != (#[trigger] x11_bounds_spec(i, monitors@[i])).0
        },
{
    let mut i: usize = 0;
    while i < monitors.len()
        invariant
            i <= monitors@.len(),
            forall|k: int| 0 <= k < i ==> display_id@ != (#[trigger] x11_bounds_spec(k, monitors@[k])).0,
        decreases monitors@.len() - i,
    {
        let m = &monitors[i];
        let id = x11_monitor_id(i, m.name.as_str(), m.x, m.y, m.width, m.height);
        assert(x11_bounds_spec(i as int, monitors@[i as int]).0 == id@);
        if str_eq(id.as_str(), display_id) {
            return Ok(i);
        }
        i = i + 1;
    }
    Err(CaptureError::new(CaptureErrorCode::NoMonitor, "the selected monitor disappeared before capture"))
}

/// Monitor identifiers are positional: monitors at different positions never
/// share an identifier, so the display listed at position `k` is the one a
/// capture of that display looks up.
pub proof fn lemma_x11_ids_are_positional(monitors: Seq<X11Monitor>, i: int, k: int)
    requires
        0 <= i < monitors.len(),
        0 <= k < monitors.len(),
        i != k,
    ensures
        x11_bounds_spec(i, monitors[i]).0 != x11_bounds_spec(k, monitors[k]).0,
{
    let a = x11_bounds_spec(i, monitors[i]).0;
    let b = x11_bounds_spec(k, monitors[k]).0;
    if a == b {
        let ka = decimal(i).len() + 1int;
        let kb = decimal(k).len() + 1int;
        assert(a =~= decimal_digits(i as nat) + seq![':'] + a.subrange(ka, a.len() as int));
        assert(b =~= decimal_digits(k as nat) + seq![':'] + b.subrange(kb, b.len() as int));
        lemma_decimal_field_injective(i as nat, k as nat, ':', a.subrange(ka, a.len() as int), b.subrange(kb, b.len() as int));
    }
}

/// Looking up the identifier of the display listed at position `k` finds
/// position `k`: no earlier monitor carries that identifier.
pub proof fn lemma_x11_listed_display_is_found(monitors: Seq<X11Monitor>, k: int)
    requires
        0 <= k < monitors.len(),
    ensures
        forall|i: int| 0 <= i < monitors.len() && i != k ==> (#[trigger] x11_bounds_spec(i, monitors[i])).0
            != x11_bounds_spec(k, monitors[k]).0,
{
    assert forall|i: int| 0 <= i < monitors.len() && i != k implies (#[trigger] x11_bounds_spec(i, monitors[i])).0
        != x11_bounds_spec(k, monitors[k]).0 by {
        lemma_x11_ids_are_positional(monitors, i, k);
    }
}

/// The displays listed for RandR monitors carry distinct identifiers, so the
/// position reported for the pointer is the display under it.
pub proof fn lemma_x11_display_ids_distinct(monitors: Seq<X11Monitor>, displays: Seq<DisplayBounds>)
    requires
        displays.len() == monitors.len(),
        forall|i: int| 0 <= i < displays.len() ==> (#[trigger] displays[i]).id@ == x11_bounds_spec(i, monitors[i]).0,
    ensures
        distinct_display_ids(displays),
{
    assert forall|i: int, j: int| 0 <= i < displays.len() && 0 <= j < displays.len() && i != j implies (#[trigger] displays[i]).id@
        != (#[trigger] displays[j]).id@ by {
        lemma_x11_ids_are_positional(monitors, i, j);
    }
}

/// `x11 visual depth {depth} is not a supported truecolor layout`.
pub open spec fn unsupported_depth_detail(depth: u8) -> Seq<char> {
    "x11 visual depth "@ + decimal_digits(depth as nat) + " is not a supported truecolor layout"@
}

/// `get_image returned {len} bytes, expected {expected}`.
pub open spec fn short_image_detail(len: nat, expected: nat) -> Seq<char> {
    "get_image returned "@ + decimal_digits(len) + " bytes, expected "@ + decimal_digits(expected)
}

/// The tight RGBA frame of a `GetImage` reply of `width` x `height` pixels:
/// only 24- and 32-bit truecolor depths are accepted (`CaptureFailed`); the
/// reply must hold every row (`FrameTooLarge`); the BGRX/BGRA pixels become
/// RGBA, opaque for depth 24.
pub fn x11_image_to_frame(depth: u8, width: u16, height: u16, data: Vec<u8>) -> (r: Result<Frame, CaptureError>)
    ensures
        (depth != 24 && depth != 32) ==> (r matches Err(e) && e.code == CaptureErrorCode::CaptureFailed
            && e.detail@ == unsupported_depth_detail(depth)),
        (depth == 24 || depth == 32) ==> {
            let expected = width * 4 * height;
            &&& (expected > usize::MAX || data@.len() < expected) <==> r is Err
            &&& r is Err ==> fails_with(r, CaptureErrorCode::FrameTooLarge)
            &&& expected > usize::MAX ==> fails_as(r, CaptureErrorCode::FrameTooLarge, "frame size overflow"@)
            &&& (expected <= usize::MAX && data@.len() < expected) ==> (r matches Err(e)
                && e.detail@ == short_image_detail(data@.len(), expected as nat))
        },
        r matches Ok(frame) ==> {
            &&& frame.width == width
            &&& frame.height == height
            &&& frame.stride == width * 4
            &&& frame.bytes@ == rgba_from_bgra(data@.take(width * 4 * height), depth == 24)
            &&& frame.is_well_formed()
        },
{
    if depth != 24 && depth != 32 {
        let mut detail = String::new();
        push_str(&mut detail, "x11 visual depth ");
        push_decimal_u64(&mut detail, depth as u64);
        push_str(&mut detail, " is not a supported truecolor layout");
        return Err(CaptureError::with_detail(CaptureErrorCode::CaptureFailed, detail));
    }
    let stride: u32 = width as u32 * 4;
    assert(stride as u64 * height as u64 <= 262140 * 65535) by (nonlinear_arith)
        requires
            stride <= 262140,
            height <= 65535,
    ;
    let total: u64 = stride as u64 * height as u64;
    if total > usize::MAX as u64 {
        return Err(CaptureError::new(CaptureErrorCode::FrameTooLarge, "frame size overflow"));
    }
    let expected = total as usize;
    let mut bytes = data;
    if bytes.len() < expected {
        let mut detail = String::new();
        push_str(&mut detail, "get_image returned ");
        push_decimal_u64(&mut detail, bytes.len() as u64);
        push_str(&mut detail, " bytes, expected ");
        push_decimal_u64(&mut detail, expected as u64);
        return Err(CaptureError::with_detail(CaptureErrorCode::FrameTooLarge, detail));
    }
    bytes.truncate(expected);
    bgra_to_rgba_in_place(&mut bytes, depth == 24);
    Ok(Frame { width: width as u32, height: height as u32, stride, bytes })
}

} // verus!

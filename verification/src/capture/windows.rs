//! Windows capture decisions over Win32 monitor enumeration and Windows
//! Graphics Capture single-frame screenshots: monitor identifiers and
//! geometry, monitor lookup, and the conversion of a mapped staging texture
//! into an RGBA frame.
use vstd::prelude::*;
use crate::capture::pixels::{bgra_to_rgba_in_place, pack_rows, packed_rows, rgba_from_bgra, rows_fit};
use crate::capture::{
    CaptureError, CaptureErrorCode, DisplayBounds, Frame, PhysicalPoint, PhysicalSize, distinct_display_ids, fails_as, stage_failure,
    stage_failure_detail,
};
use crate::text::{
    decimal, decimal_digits, lemma_decimal_field_injective, lemma_indexed_id_not_blank, push_char, push_decimal_i64, push_decimal_u64, push_str,
    str_eq, string_from_utf16_lossy, utf16_lossy,
};

verus! {

/// DPI of a monitor at 100% scaling.
pub const BASE_DPI: u32 = 96;

/// A Win32 rectangle: left/top inclusive, right/bottom exclusive.
#[derive(Debug, Clone, Copy, PartialEq, Eq, Structural)]
pub struct RECT {
    pub left: i32,
    pub top: i32,
    pub right: i32,
    pub bottom: i32,
}

/// What the capture logic reads of an enumerated monitor: its device name,
/// its frame and work area in physical desktop pixels, and its effective DPI.
#[derive(Debug)]
pub struct MonitorEntry {
    pub name: String,
    pub frame: RECT,
    pub work: RECT,
    pub dpi: u32,
}

/// The extents of the rectangle fit in `i32`.
pub open spec fn rect_extents_fit(r: RECT) -> bool {
    &&& i32::MIN <= r.right - r.left <= i32::MAX
    &&& i32::MIN <= r.bottom - r.top <= i32::MAX
}

/// A native call failed at `stage` with the platform's description `error`.
pub fn platform_error(stage: &str, error: &str) -> (r: CaptureError)
    ensures
        r.code == CaptureErrorCode::CaptureFailed,
        r.detail@ == stage_failure_detail(stage@, error@),
{
    stage_failure(stage, error)
}

/// Length of a NUL-terminated UTF-16 buffer: up to its first zero unit, or
/// the whole buffer.
pub open spec fn nul_terminated_len(buf: Seq<u16>) -> int {
    if exists|i: int| 0 <= i < buf.len() && buf[i] == 0 {
        choose|i: int| 0 <= i < buf.len() && buf[i] == 0 && forall|j: int| 0 <= j < i ==> buf[j] != 0
    } else {
        buf.len() as int
    }
}

/// The text of a NUL-terminated UTF-16 buffer, unpaired surrogates replaced.
pub fn utf16_to_string(buf: &[u16]) -> (r: String)
    ensures
        r@ == utf16_lossy(buf@.take(nul_terminated_len(buf@))),
{
    let mut len: usize = 0;
    while len < buf.len() && buf[len] != 0
        invariant
            len <= buf@.len(),
            forall|j: int| 0 <= j < len ==> buf@[j] != 0,
        decreases buf@.len() - len,
    {
        len = len + 1;
    }
    proof {
        if len < buf@.len() {
            assert(buf@[len as int] == 0);
            let c = choose|i: int| 0 <= i < buf@.len() && buf@[i] == 0 && forall|j: int| 0 <= j < i ==> buf@[j] != 0;
            assert(c == len);
        }
    }
    let mut units: Vec<u16> = Vec::new();
    let mut i: usize = 0;
    while i < len
        invariant
            len <= buf@.len(),
            i <= len,
            units@ == buf@.take(i as int),
        decreases len - i,
    {
        units.push(buf[i]);
        i = i + 1;
        assert(units@ =~= buf@.take(i as int));
    }
    string_from_utf16_lossy(units.as_slice())
}

/// `{index}:{name}:{left}:{top}:{width}:{height}` of the monitor frame.
pub open spec fn windows_monitor_id_spec(index: int, entry: MonitorEntry) -> Seq<char> {
    decimal(index) + seq![':'] + entry.name@ + seq![':'] + decimal(entry.frame.left as int) + seq![':']
        + decimal(entry.frame.top as int) + seq![':'] + decimal(entry.frame.right - entry.frame.left)
        + seq![':'] + decimal(entry.frame.bottom - entry.frame.top)
}

/// The identifier of an enumerated monitor: its index, device name and frame.
pub fn monitor_id(index: usize, entry: &MonitorEntry) -> (r: String)
    requires
        rect_extents_fit(entry.frame),
    ensures
        r@ == windows_monitor_id_spec(index as int, *entry),
{
    let mut id = String::new();
    push_decimal_u64(&mut id, index as u64);
    push_char(&mut id, ':');
    push_str(&mut id, entry.name.as_str());
    push_char(&mut id, ':');
    push_decimal_i64(&mut id, entry.frame.left as i64);
    push_char(&mut id, ':');
    push_decimal_i64(&mut id, entry.frame.top as i64);
    push_char(&mut id, ':');
    push_decimal_i64(&mut id, (entry.frame.right - entry.frame.left) as i64);
    push_char(&mut id, ':');
    push_decimal_i64(&mut id, (entry.frame.bottom - entry.frame.top) as i64);
    assert(id@ =~= windows_monitor_id_spec(index as int, *entry));
    id
}

/// Physical width and height of a monitor frame, negative extents read as 0.
pub open spec fn frame_size_spec(frame: RECT) -> PhysicalSize {
    PhysicalSize {
        width: if frame.right - frame.left > 0 { (frame.right - frame.left) as u32 } else { 0 },
        height: if frame.bottom - frame.top > 0 { (frame.bottom - frame.top) as u32 } else { 0 },
    }
}

/// The physical size of a monitor is the extent of its frame, a negative
/// extent counting as 0; frames that differ by a translation have the same
/// size.
pub proof fn lemma_frame_size_is_extent(frame: RECT, moved: RECT)
    requires
        rect_extents_fit(frame),
        moved.right - moved.left == frame.right - frame.left,
        moved.bottom - moved.top == frame.bottom - frame.top,
    ensures
        frame_size_spec(frame).width as int == if frame.right - frame.left > 0 { frame.right - frame.left } else { 0 },
        frame_size_spec(frame).height as int == if frame.bottom - frame.top > 0 { frame.bottom - frame.top } else { 0 },
        frame_size_spec(moved) == frame_size_spec(frame),
{
}

/// A monitor is usable: a non-empty frame and a non-zero DPI (its scale
/// factor is `dpi / 96`).
pub open spec fn monitor_is_usable(entry: MonitorEntry) -> bool {
    &&& frame_size_spec(entry.frame).width != 0
    &&& frame_size_spec(entry.frame).height != 0
    &&& entry.dpi != 0
}

/// The identifier and physical bounds of monitor `index`, validated: an
/// empty frame or a zero DPI is refused with `InvalidMonitor`. With a
/// non-zero DPI the logical geometry (physical / (dpi / 96)) is finite and
/// positive whenever the frame is non-empty, so this is the whole validation
/// of the display.
pub fn display_info_bounds(index: usize, entry: &MonitorEntry) -> (r: Result<DisplayBounds, CaptureError>)
    requires
        rect_extents_fit(entry.frame),
    ensures
        r is Ok <==> monitor_is_usable(*entry),
        r is Ok <==> (entry.frame.right - entry.frame.left > 0 && entry.frame.bottom - entry.frame.top > 0
            && entry.dpi != 0),
        r is Err ==> fails_as(r, CaptureErrorCode::InvalidMonitor, "monitor geometry is incomplete or invalid"@),
        r matches Ok(d) ==> {
            &&& d.id@ == windows_monitor_id_spec(index as int, *entry)
            &&& d.physical_origin == PhysicalPoint { x: entry.frame.left, y: entry.frame.top }
            &&& d.physical_size == frame_size_spec(entry.frame)
            &&& d.physical_size.width == entry.frame.right - entry.frame.left
            &&& d.physical_size.height == entry.frame.bottom - entry.frame.top
        },
{
    let extent_x = entry.frame.right - entry.frame.left;
    let extent_y = entry.frame.bottom - entry.frame.top;
    let width: u32 = if extent_x > 0 { extent_x as u32 } else { 0 };
    let height: u32 = if extent_y > 0 { extent_y as u32 } else { 0 };
    let id = monitor_id(index, entry);
    proof {
        let spec = windows_monitor_id_spec(index as int, *entry);
        let k = decimal(index as int).len() + 1int;
        lemma_indexed_id_not_blank(index as nat, spec.subrange(k, spec.len() as int));
        assert(spec =~= decimal_digits(index as nat) + seq![':'] + spec.subrange(k, spec.len() as int));
    }
    let display = DisplayBounds {
        id,
        physical_origin: PhysicalPoint { x: entry.frame.left, y: entry.frame.top },
        physical_size: PhysicalSize { width, height },
    };
    if display.validate().is_err() || entry.dpi == 0 {
        return Err(CaptureError::new(CaptureErrorCode::InvalidMonitor, "monitor geometry is incomplete or invalid"));
    }
    Ok(display)
}

/// The enumerated monitors, or `NoMonitor` when enumeration failed or found
/// none.
pub fn enumerated_monitors(enumerated: bool, entries: Vec<MonitorEntry>) -> (r: Result<Vec<MonitorEntry>, CaptureError>)
    ensures
        r is Ok <==> enumerated && entries@.len() > 0,
        !enumerated ==> fails_as(r, CaptureErrorCode::NoMonitor, "EnumDisplayMonitors failed to enumerate the desktop"@),
        enumerated && entries@.len() == 0 ==> fails_as(r, CaptureErrorCode::NoMonitor, "no active monitor is available"@),
        r matches Ok(list) ==> list@ == entries@,
{
    if !enumerated {
        return Err(CaptureError::new(CaptureErrorCode::NoMonitor, "EnumDisplayMonitors failed to enumerate the desktop"));
    }
    if entries.len() == 0 {
        return Err(CaptureError::new(CaptureErrorCode::NoMonitor, "no active monitor is available"));
    }
    Ok(entries)
}

/// Monitor `i` carries the identifier `id` at its position.
pub open spec fn monitor_has_id(entries: Seq<MonitorEntry>, i: int, id: Seq<char>) -> bool {
    windows_monitor_id_spec(i, entries[i]) == id
}

/// The lookup stops at monitor `k`: it is the first that is unusable or
/// carries `id`.
pub open spec fn lookup_stops_at(entries: Seq<MonitorEntry>, id: Seq<char>, k: int) -> bool {
    &&& 0 <= k < entries.len()
    &&& (!monitor_is_usable(entries[k]) || monitor_has_id(entries, k, id))
    &&& forall|j: int| 0 <= j < k ==> monitor_is_usable(#[trigger] entries[j]) && !monitor_has_id(entries, j, id)
}

/// The position of the monitor with identifier `display_id`. Monitors are
/// validated in order while searching: an unusable monitor met first is
/// `InvalidMonitor`; when no monitor carries the identifier the result is
/// `NoMonitor`.
pub fn find_monitor_for(entries: &Vec<MonitorEntry>, display_id: &str) -> (r: Result<usize, CaptureError>)
    requires
        forall|i: int| 0 <= i < entries@.len() ==> rect_extents_fit(#[trigger] entries@[i].frame),
    ensures
        fails_as(r, CaptureErrorCode::NoMonitor, "the selected monitor disappeared before capture"@) <==> forall|j: int|
            0 <= j < entries@.len() ==> monitor_is_usable(#[trigger] entries@[j]) && !monitor_has_id(entries@, j, display_id@),
        fails_as(r, CaptureErrorCode::InvalidMonitor, "monitor geometry is incomplete or invalid"@) <==> exists|k: int|
            lookup_stops_at(entries@, display_id@, k) && !monitor_is_usable(#[trigger] entries@[k]),
        r is Err ==> fails_as(r, CaptureErrorCode::NoMonitor, "the selected monitor disappeared before capture"@)
            || fails_as(r, CaptureErrorCode::InvalidMonitor, "monitor geometry is incomplete or invalid"@),
        r matches Ok(k) ==> lookup_stops_at(entries@, display_id@, k as int) && monitor_is_usable(entries@[k as int]),
{
    let mut i: usize = 0;
    while i < entries.len()
        invariant
            i <= entries@.len(),
            forall|j: int| 0 <= j < entries@.len() ==> rect_extents_fit(#[trigger] entries@[j].frame),
            forall|j: int| 0 <= j < i ==> monitor_is_usable(#[trigger] entries@[j]) && !monitor_has_id(entries@, j, display_id@),
        decreases entries@.len() - i,
    {
        let info = match display_info_bounds(i, &entries[i]) {
            Ok(info) => info,
            Err(error) => {
                assert(lookup_stops_at(entries@, display_id@, i as int));
                return Err(error);
            },
        };
        if str_eq(info.id.as_str(), display_id) {
            assert(lookup_stops_at(entries@, display_id@, i as int));
            return Ok(i);
        }
        i = i + 1;
    }
    proof {
        assert forall|k: int| !(lookup_stops_at(entries@, display_id@, k) && !monitor_is_usable(#[trigger] entries@[k])) by {
            if 0 <= k < entries@.len() {
                assert(monitor_is_usable(entries@[k]));
            }
        }
    }
    Err(CaptureError::new(CaptureErrorCode::NoMonitor, "the selected monitor disappeared before capture"))
}

/// Monitor identifiers are positional: monitors at different positions never
/// share an identifier.
pub proof fn lemma_windows_ids_are_positional(entries: Seq<MonitorEntry>, i: int, k: int)
    requires
        0 <= i < entries.len(),
        0 <= k < entries.len(),
        i != k,
    ensures
        windows_monitor_id_spec(i, entries[i]) != windows_monitor_id_spec(k, entries[k]),
{
    let a = windows_monitor_id_spec(i, entries[i]);
    let b = windows_monitor_id_spec(k, entries[k]);
    if a == b {
        let ka = decimal(i).len() + 1int;
        let kb = decimal(k).len() + 1int;
        assert(a =~= decimal_digits(i as nat) + seq![':'] + a.subrange(ka, a.len() as int));
        assert(b =~= decimal_digits(k as nat) + seq![':'] + b.subrange(kb, b.len() as int));
        lemma_decimal_field_injective(i as nat, k as nat, ':', a.subrange(ka, a.len() as int), b.subrange(kb, b.len() as int));
    }
}

/// The displays listed for enumerated monitors carry distinct identifiers,
/// so the position reported for the pointer is the display under it.
pub proof fn lemma_windows_display_ids_distinct(entries: Seq<MonitorEntry>, displays: Seq<DisplayBounds>)
    requires
        displays.len() == entries.len(),
        forall|i: int| 0 <= i < displays.len() ==> (#[trigger] displays[i]).id@ == windows_monitor_id_spec(i, entries[i]),
    ensures
        distinct_display_ids(displays),
{
    assert forall|i: int, j: int| 0 <= i < displays.len() && 0 <= j < displays.len() && i != j implies (#[trigger] displays[i]).id@
        != (#[trigger] displays[j]).id@ by {
        lemma_windows_ids_are_positional(entries, i, j);
    }
}

/// When every monitor is usable, looking up the identifier of the display
/// listed at position `k` stops at position `k`.
pub proof fn lemma_windows_listed_display_is_found(entries: Seq<MonitorEntry>, k: int)
    requires
        0 <= k < entries.len(),
        forall|i: int| 0 <= i < entries.len() ==> monitor_is_usable(#[trigger] entries[i]),
    ensures
        lookup_stops_at(entries, windows_monitor_id_spec(k, entries[k]), k),
{
    let id = windows_monitor_id_spec(k, entries[k]);
    assert forall|j: int| 0 <= j < k implies monitor_is_usable(#[trigger] entries[j]) && !monitor_has_id(entries, j, id) by {
        lemma_windows_ids_are_positional(entries, j, k);
    }
}

/// The tight RGBA frame of a mapped BGRA staging texture of `width` x
/// `height` pixels whose rows start `row_pitch` bytes apart in `mapped`: an
/// empty texture is `InvalidFrame`, a row too wide for `u32` is
/// `FrameTooLarge`; the rows are copied without padding and swizzled. The
/// mapped rows are read only for a texture that passes both checks.
pub fn staging_rows_to_frame(width: u32, height: u32, mapped: &[u8], row_pitch: usize) -> (r: Result<Frame, CaptureError>)
    requires
        width != 0 && height != 0 && width * 4 <= u32::MAX ==> {
            &&& width * 4 * height <= usize::MAX
            &&& rows_fit(mapped@.len(), row_pitch as nat, (width * 4) as nat, height as nat)
        },
    ensures
        (width == 0 || height == 0) ==> fails_as(r, CaptureErrorCode::InvalidFrame, "the captured texture is empty"@),
        (width != 0 && height != 0 && width * 4 > u32::MAX) ==> fails_as(r, CaptureErrorCode::FrameTooLarge, "RGBA stride overflow"@),
        r is Ok <==> (width != 0 && height != 0 && width * 4 <= u32::MAX),
        r matches Ok(frame) ==> {
            &&& frame.width == width
            &&& frame.height == height
            &&& frame.stride == width * 4
            &&& frame.bytes@ == rgba_from_bgra(packed_rows(mapped@, row_pitch as nat, (width * 4) as nat, height as nat), false)
            &&& frame.is_well_formed()
        },
{
    if width == 0 || height == 0 {
        return Err(CaptureError::new(CaptureErrorCode::InvalidFrame, "the captured texture is empty"));
    }
    let stride = match width.checked_mul(4) {
        Some(stride) => stride,
        None => {
            return Err(CaptureError::new(CaptureErrorCode::FrameTooLarge, "RGBA stride overflow"));
        },
    };
    assert(height * stride == stride * height && stride * height == width * 4 * height) by (nonlinear_arith)
        requires
            stride == width * 4,
    ;
    let mut bytes = pack_rows(mapped, row_pitch, stride as usize, height as usize);
    bgra_to_rgba_in_place(&mut bytes, false);
    Ok(Frame { width, height, stride, bytes })
}

} // verus!

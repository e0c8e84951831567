//! macOS capture decisions over CoreGraphics display enumeration and
//! ScreenCaptureKit screenshots: native display identifiers, the checks on
//! what CoreGraphics reports, display and window matching, and the
//! conversion of a screenshot into an RGBA frame.
use vstd::prelude::*;
use crate::capture::pixels::{bgra_to_rgba_in_place, pack_rows, packed_rows, rgba_from_bgra};
use crate::capture::{
    CaptureError, CaptureErrorCode, DisplayBounds, Frame, fails_as, stage_failure, stage_failure_detail,
};
use crate::text::{
    decimal_digits, lemma_decimal_digits_value, parse_u32, parsed_u32, push_decimal_u64, push_str, str_eq,
    strip_prefix, unsigned_digit_part,
};

verus! {

/// `macos-cg-display:{id}`.
pub open spec fn macos_monitor_id_spec(cg_display_id: u32) -> Seq<char> {
    "macos-cg-display:"@ + decimal_digits(cg_display_id as nat)
}

/// The monitor identifier of a CoreGraphics display.
pub fn monitor_id(cg_display_id: u32) -> (r: String)
    ensures
        r@ == macos_monitor_id_spec(cg_display_id),
{
    let mut id = String::new();
    push_str(&mut id, "macos-cg-display:");
    push_decimal_u64(&mut id, cg_display_id as u64);
    id
}

/// `value` is the identifier of the non-zero CoreGraphics display `id`.
pub open spec fn names_native_display(value: Seq<char>, id: u32) -> bool {
    id != 0 && value == macos_monitor_id_spec(id)
}

proof fn lemma_canonical_id_parses(value: Seq<char>, rest: Seq<char>, n: u32)
    requires
        value == macos_monitor_id_spec(n),
        value == "macos-cg-display:"@ + rest,
    ensures
        rest == decimal_digits(n as nat),
        parsed_u32(rest) == Some(n),
{
    let prefix = "macos-cg-display:"@;
    assert(rest =~= value.skip(prefix.len() as int));
    assert(decimal_digits(n as nat) =~= value.skip(prefix.len() as int));
    lemma_decimal_digits_value(n as nat);
    assert(unsigned_digit_part(rest) == rest);
}

/// Reads back the CoreGraphics display id of a monitor identifier. Only the
/// exact identifier of a non-zero display is accepted: no other prefix, no
/// sign, no leading zero, no trailing text.
pub fn parse_display_id(value: &str) -> (r: Option<u32>)
    ensures
        r matches Some(n) ==> names_native_display(value@, n),
        r is None ==> forall|n: u32| !names_native_display(value@, n),
{
    let raw = match strip_prefix(value, "macos-cg-display:") {
        Some(raw) => raw,
        None => {
            assert forall|n: u32| !names_native_display(value@, n) by {
                if names_native_display(value@, n) {
                    assert(value@.take("macos-cg-display:"@.len() as int) =~= "macos-cg-display:"@);
                }
            }
            return None;
        },
    };
    let parsed = parse_u32(raw);
    match parsed {
        Some(cg_display_id) => {
            let canonical = monitor_id(cg_display_id);
            if cg_display_id != 0 && str_eq(canonical.as_str(), value) {
                Some(cg_display_id)
            } else {
                assert forall|n: u32| !names_native_display(value@, n) by {
                    if names_native_display(value@, n) {
                        lemma_canonical_id_parses(value@, raw@, n);
                    }
                }
                None
            }
        },
        None => {
            assert forall|n: u32| !names_native_display(value@, n) by {
                if names_native_display(value@, n) {
                    lemma_canonical_id_parses(value@, raw@, n);
                }
            }
            None
        },
    }
}

/// Identifiers are read back exactly: the identifier of a non-zero display
/// names that display and no other, and the identifier of display 0 names
/// none.
pub proof fn lemma_monitor_id_round_trip(id: u32, other: u32)
    ensures
        names_native_display(macos_monitor_id_spec(id), other) <==> (other == id && id != 0),
{
    if names_native_display(macos_monitor_id_spec(id), other) {
        let prefix = "macos-cg-display:"@;
        assert(decimal_digits(id as nat) =~= macos_monitor_id_spec(id).skip(prefix.len() as int));
        assert(decimal_digits(other as nat) =~= macos_monitor_id_spec(other).skip(prefix.len() as int));
        lemma_decimal_digits_value(id as nat);
        lemma_decimal_digits_value(other as nat);
    }
}

/// Display `i` carries the identifier of CoreGraphics display `id`.
pub open spec fn carries_native_id(displays: Seq<DisplayBounds>, i: int, id: u32) -> bool {
    names_native_display(displays[i].id@, id)
}

/// The position of the single display that carries the identifier of
/// `cg_display_id`: `NoMonitor` when none does, `InvalidMonitor` when several
/// claim it.
pub fn select_display_by_native_id(displays: &[DisplayBounds], cg_display_id: u32) -> (r: Result<usize, CaptureError>)
    ensures
        fails_as(r, CaptureErrorCode::NoMonitor, "the native display disappeared before selection"@) <==> forall|i: int|
            0 <= i < displays@.len() ==> !carries_native_id(displays@, i, cg_display_id),
        fails_as(r, CaptureErrorCode::InvalidMonitor, "multiple monitors claim the same native display id"@) <==> exists|i: int, j: int|
            0 <= i < j < displays@.len() && carries_native_id(displays@, i, cg_display_id)
                && carries_native_id(displays@, j, cg_display_id),
        r is Err ==> fails_as(r, CaptureErrorCode::NoMonitor, "the native display disappeared before selection"@)
            || fails_as(r, CaptureErrorCode::InvalidMonitor, "multiple monitors claim the same native display id"@),
        r matches Ok(k) ==> {
            &&& k < displays@.len()
            &&& carries_native_id(displays@, k as int, cg_display_id)
            &&& forall|i: int| 0 <= i < displays@.len() && i != k ==> !carries_native_id(displays@, i, cg_display_id)
        },
{
    let mut selected: Option<usize> = None;
    let mut i: usize = 0;
    while i < displays.len()
        invariant
            i <= displays@.len(),
            selected matches Some(k) ==> k < i && carries_native_id(displays@, k as int, cg_display_id) && forall|j: int|
                0 <= j < i && j != k ==> !carries_native_id(displays@, j, cg_display_id),
            selected is None ==> forall|j: int| 0 <= j < i ==> !carries_native_id(displays@, j, cg_display_id),
        decreases displays@.len() - i,
    {
        let parsed = parse_display_id(displays[i].id.as_str());
        let matches = match parsed {
            Some(id) => id == cg_display_id,
            None => false,
        };
        proof {
            if let Some(id) = parsed {
                lemma_monitor_id_round_trip(id, cg_display_id);
            }
        }
        if matches {
            match selected {
                Some(k) => {
                    assert(carries_native_id(displays@, k as int, cg_display_id) && carries_native_id(displays@, i as int, cg_display_id));
                    return Err(CaptureError::new(
                        CaptureErrorCode::InvalidMonitor,
                        "multiple monitors claim the same native display id",
                    ));
                },
                None => {
                    selected = Some(i);
                },
            }
        }
        i = i + 1;
    }
    match selected {
        Some(k) => Ok(k),
        None => Err(CaptureError::new(CaptureErrorCode::NoMonitor, "the native display disappeared before selection")),
    }
}

/// Displays identified by the distinct non-zero ids that CoreGraphics lists
/// are selected unambiguously: the display built from the `k`-th id is the
/// only one that carries it.
pub proof fn lemma_distinct_native_ids_select_their_display(displays: Seq<DisplayBounds>, ids: Seq<u32>, k: int)
    requires
        displays.len() == ids.len(),
        distinct_nonzero_ids(ids),
        forall|i: int| 0 <= i < displays.len() ==> (#[trigger] displays[i]).id@ == macos_monitor_id_spec(ids[i]),
        0 <= k < displays.len(),
    ensures
        carries_native_id(displays, k, ids[k]),
        forall|i: int| 0 <= i < displays.len() && i != k ==> !carries_native_id(displays, i, ids[k]),
{
    assert(ids[k] != 0);
    lemma_monitor_id_round_trip(ids[k], ids[k]);
    assert forall|i: int| 0 <= i < displays.len() && i != k implies !carries_native_id(displays, i, ids[k]) by {
        assert(displays[i].id@ == macos_monitor_id_spec(ids[i]));
        lemma_monitor_id_round_trip(ids[i], ids[k]);
        if i < k {
            assert(ids[i] != ids[k]);
        } else {
            assert(ids[k] != ids[i]);
        }
    }
}

/// The position of the first display that carries the identifier of
/// `cg_display_id`, or `NoMonitor`.
pub fn native_display_position(displays: &[DisplayBounds], cg_display_id: u32) -> (r: Result<usize, CaptureError>)
    ensures
        r is Err <==> forall|i: int| 0 <= i < displays@.len() ==> !carries_native_id(displays@, i, cg_display_id),
        r is Err ==> fails_as(r, CaptureErrorCode::NoMonitor, "the display at the pointer is no longer available"@),
        r matches Ok(k) ==> {
            &&& k < displays@.len()
            &&& carries_native_id(displays@, k as int, cg_display_id)
            &&& forall|i: int| 0 <= i < k ==> !carries_native_id(displays@, i, cg_display_id)
        },
{
    let mut i: usize = 0;
    while i < displays.len()
        invariant
            i <= displays@.len(),
            forall|j: int| 0 <= j < i ==> !carries_native_id(displays@, j, cg_display_id),
        decreases displays@.len() - i,
    {
        let parsed = parse_display_id(displays[i].id.as_str());
        proof {
            if let Some(id) = parsed {
                lemma_monitor_id_round_trip(id, cg_display_id);
            }
        }
        if let Some(id) = parsed {
            if id == cg_display_id {
                assert(carries_native_id(displays@, i as int, cg_display_id));
                return Ok(i);
            }
        }
        i = i + 1;
    }
    Err(CaptureError::new(CaptureErrorCode::NoMonitor, "the display at the pointer is no longer available"))
}

/// The CoreGraphics display id of the monitor selected for capture, or
/// `InvalidMonitor` when its identifier names no native display.
pub fn selected_native_display_id(display_id: &str) -> (r: Result<u32, CaptureError>)
    ensures
        r matches Ok(n) ==> names_native_display(display_id@, n),
        r is Err ==> fails_as(r, CaptureErrorCode::InvalidMonitor, "selected macOS monitor has no native display id"@)
            && forall|n: u32| !names_native_display(display_id@, n),
{
    match parse_display_id(display_id) {
        Some(id) => Ok(id),
        None => Err(CaptureError::new(CaptureErrorCode::InvalidMonitor, "selected macOS monitor has no native display id")),
    }
}

/// A native call failed at `stage` with the platform's description `error`.
pub fn capture_platform_error(stage: &str, error: &str) -> (r: CaptureError)
    ensures
        r.code == CaptureErrorCode::CaptureFailed,
        r.detail@ == stage_failure_detail(stage@, error@),
{
    stage_failure(stage, error)
}

/// Capacity of the display-id buffer handed to `CGGetActiveDisplayList`.
pub const MAX_ACTIVE_DISPLAYS: u32 = 64;

/// No id is zero and no id occurs twice.
pub open spec fn distinct_nonzero_ids(ids: Seq<u32>) -> bool {
    &&& forall|i: int| 0 <= i < ids.len() ==> #[trigger] ids[i] != 0
    &&& forall|i: int, j: int| 0 <= i < j < ids.len() ==> #[trigger] ids[i] != #[trigger] ids[j]
}

/// The active display list from `CGGetActiveDisplayList`, which filled the
/// first `count` slots of `displays` or failed with `error`: a failure is
/// `CaptureFailed`; an empty or possibly truncated list, or one with a zero
/// or repeated id, is `InvalidMonitor`.
pub fn active_display_ids(error: Option<&str>, displays: Vec<u32>, count: u32) -> (r: Result<Vec<u32>, CaptureError>)
    requires
        displays@.len() == MAX_ACTIVE_DISPLAYS,
    ensures
        error is Some ==> (r matches Err(e) && e.code == CaptureErrorCode::CaptureFailed
            && e.detail@ == stage_failure_detail("enumerate CoreGraphics displays"@, error->0@)),
        error is None ==> {
            &&& r is Ok <==> (0 < count < MAX_ACTIVE_DISPLAYS && distinct_nonzero_ids(displays@.take(count as int)))
            &&& !(0 < count < MAX_ACTIVE_DISPLAYS) ==> fails_as(
                r,
                CaptureErrorCode::InvalidMonitor,
                "CoreGraphics returned an empty or truncated display list"@,
            )
            &&& (0 < count < MAX_ACTIVE_DISPLAYS && !distinct_nonzero_ids(displays@.take(count as int))) ==> fails_as(
                r,
                CaptureErrorCode::InvalidMonitor,
                "CoreGraphics returned invalid or duplicate display ids"@,
            )
        },
        r matches Ok(ids) ==> ids@ == displays@.take(count as int),
{
    if let Some(description) = error {
        return Err(capture_platform_error("enumerate CoreGraphics displays", description));
    }
    if count == 0 || count >= MAX_ACTIVE_DISPLAYS {
        return Err(CaptureError::new(
            CaptureErrorCode::InvalidMonitor,
            "CoreGraphics returned an empty or truncated display list",
        ));
    }
    let ghost listed = displays@.take(count as int);
    let mut ids = displays;
    ids.truncate(count as usize);
    let n = ids.len();
    let mut i: usize = 0;
    while i < n
        invariant
            error is None,
            0 < count < MAX_ACTIVE_DISPLAYS,
            listed == displays@.take(count as int),
            ids@ == listed,
            n == ids@.len(),
            i <= n,
            forall|a: int| 0 <= a < i ==> #[trigger] ids@[a] != 0,
            forall|a: int, b: int| 0 <= a < b < i ==> #[trigger] ids@[a] != #[trigger] ids@[b],
        decreases n - i,
    {
        if ids[i] == 0 {
            assert(!distinct_nonzero_ids(listed));
            return Err(CaptureError::new(
                CaptureErrorCode::InvalidMonitor,
                "CoreGraphics returned invalid or duplicate display ids",
            ));
        }
        let mut j: usize = 0;
        while j < i
            invariant
                error is None,
                0 < count < MAX_ACTIVE_DISPLAYS,
                listed == displays@.take(count as int),
                ids@ == listed,
                n == ids@.len(),
                j <= i < n,
                forall|a: int| 0 <= a < j ==> #[trigger] ids@[a] != ids@[i as int],
            decreases i - j,
        {
            if ids[j] == ids[i] {
                assert(!distinct_nonzero_ids(listed)) by {
                    assert(listed[j as int] == listed[i as int]);
                }
                return Err(CaptureError::new(
                    CaptureErrorCode::InvalidMonitor,
                    "CoreGraphics returned invalid or duplicate display ids",
                ));
            }
            j = j + 1;
        }
        i = i + 1;
    }
    Ok(ids)
}

/// The display under the pointer from `CGGetDisplaysWithPoint`, which found
/// `count` displays (the first being `first`) or failed with `error`: a
/// failure is `CaptureFailed`; no display, or a display that is zero or no
/// longer active, is `NoMonitor`; several displays are `InvalidMonitor`.
pub fn display_id_at_point(error: Option<&str>, count: u32, first: u32, first_is_active: bool) -> (r: Result<u32, CaptureError>)
    ensures
        error is Some ==> (r matches Err(e) && e.code == CaptureErrorCode::CaptureFailed
            && e.detail@ == stage_failure_detail("select CoreGraphics display at cursor"@, error->0@)),
        error is None ==> {
            &&& r is Ok <==> (count == 1 && first != 0 && first_is_active)
            &&& count == 0 ==> fails_as(r, CaptureErrorCode::NoMonitor, "the pointer is not inside an active monitor"@)
            &&& count > 1 ==> fails_as(r, CaptureErrorCode::InvalidMonitor, "the pointer maps to multiple CoreGraphics displays"@)
            &&& (count == 1 && (first == 0 || !first_is_active)) ==> fails_as(
                r,
                CaptureErrorCode::NoMonitor,
                "the display at the pointer is no longer active"@,
            )
        },
        r matches Ok(id) ==> id == first,
{
    if let Some(description) = error {
        return Err(capture_platform_error("select CoreGraphics display at cursor", description));
    }
    if count == 0 {
        return Err(CaptureError::new(CaptureErrorCode::NoMonitor, "the pointer is not inside an active monitor"));
    }
    if count != 1 {
        return Err(CaptureError::new(
            CaptureErrorCode::InvalidMonitor,
            "the pointer maps to multiple CoreGraphics displays",
        ));
    }
    if first == 0 || !first_is_active {
        return Err(CaptureError::new(CaptureErrorCode::NoMonitor, "the display at the pointer is no longer active"));
    }
    Ok(first)
}

/// The position of the ScreenCaptureKit display with id `cg_display_id`, or
/// `NoMonitor`.
pub fn sc_display_for(display_ids: &[u32], cg_display_id: u32) -> (r: Result<usize, CaptureError>)
    ensures
        r is Err <==> !display_ids@.contains(cg_display_id),
        r is Err ==> fails_as(r, CaptureErrorCode::NoMonitor, "the selected native display disappeared before capture"@),
        r matches Ok(k) ==> k < display_ids@.len() && display_ids@[k as int] == cg_display_id
            && forall|i: int| 0 <= i < k ==> display_ids@[i] != cg_display_id,
{
    let mut i: usize = 0;
    while i < display_ids.len()
        invariant
            i <= display_ids@.len(),
            forall|j: int| 0 <= j < i ==> display_ids@[j] != cg_display_id,
        decreases display_ids@.len() - i,
    {
        if display_ids[i] == cg_display_id {
            return Ok(i);
        }
        i = i + 1;
    }
    Err(CaptureError::new(CaptureErrorCode::NoMonitor, "the selected native display disappeared before capture"))
}

/// Window `i` is one of the overlay windows to cut out of the capture.
pub open spec fn is_excluded_window(window_ids: Seq<u32>, exclude: Seq<u64>, i: int) -> bool {
    exclude.contains(window_ids[i] as u64)
}

/// The positions, in order, of the shareable windows whose id is listed in
/// `exclude_window_ids`.
pub fn excluded_sc_windows(window_ids: &[u32], exclude_window_ids: &[u64]) -> (r: Vec<usize>)
    ensures
        forall|k: int, l: int| 0 <= k < l < r@.len() ==> #[trigger] r@[k] < #[trigger] r@[l],
        forall|k: int| 0 <= k < r@.len() ==> #[trigger] r@[k] < window_ids@.len()
            && is_excluded_window(window_ids@, exclude_window_ids@, r@[k] as int),
        forall|i: int| 0 <= i < window_ids@.len() && is_excluded_window(window_ids@, exclude_window_ids@, i)
            ==> r@.contains(i as usize),
{
    let mut excluded: Vec<usize> = Vec::new();
    if exclude_window_ids.len() == 0 {
        return excluded;
    }
    let mut i: usize = 0;
    while i < window_ids.len()
        invariant
            i <= window_ids@.len(),
            forall|k: int, l: int| 0 <= k < l < excluded@.len() ==> #[trigger] excluded@[k] < #[trigger] excluded@[l],
            forall|k: int| 0 <= k < excluded@.len() ==> #[trigger] excluded@[k] < i
                && is_excluded_window(window_ids@, exclude_window_ids@, excluded@[k] as int),
            forall|j: int| 0 <= j < i && is_excluded_window(window_ids@, exclude_window_ids@, j)
                ==> excluded@.contains(j as usize),
        decreases window_ids@.len() - i,
    {
        let id = window_ids[i] as u64;
        let mut listed = false;
        let mut j: usize = 0;
        while j < exclude_window_ids.len()
            invariant
                j <= exclude_window_ids@.len(),
                listed <==> exists|m: int| 0 <= m < j && exclude_window_ids@[m] == id,
            decreases exclude_window_ids@.len() - j,
        {
            if exclude_window_ids[j] == id {
                listed = true;
            }
            j = j + 1;
        }
        let ghost before = excluded@;
        if listed {
            excluded.push(i);
            assert(excluded@[before.len() as int] == i);
        }
        assert forall|j: int| 0 <= j < i + 1 && is_excluded_window(window_ids@, exclude_window_ids@, j)
            implies excluded@.contains(j as usize) by {
            if j < i {
                let w = choose|w: int| 0 <= w < before.len() && before[w] == j as usize;
                assert(excluded@[w] == j as usize);
            } else {
                assert(excluded@[before.len() as int] == i);
            }
        }
        i = i + 1;
    }
    excluded
}

/// `screenshot bytes {len} are shorter than the declared layout {needed}`.
pub open spec fn short_screenshot_detail(len: nat, needed: nat) -> Seq<char> {
    "screenshot bytes "@ + decimal_digits(len) + " are shorter than the declared layout "@ + decimal_digits(needed)
}

/// Bytes a `height`-row image needs when its rows start `pitch` bytes apart
/// and each holds `stride` bytes of pixels.
pub open spec fn pitched_layout_len(pitch: int, stride: int, height: int) -> int {
    (height - 1) * pitch + stride
}

/// How far apart the rows of a screenshot are read: its declared
/// `bytes_per_row`, but never less than a full row of `stride` pixel bytes.
pub open spec fn screenshot_pitch(bytes_per_row: int, stride: int) -> int {
    if bytes_per_row < stride {
        stride
    } else {
        bytes_per_row
    }
}

/// Screenshot rows are read at least a full row of pixels apart: the pitch is
/// the larger of the declared `bytes_per_row` and the row's `stride`.
pub proof fn lemma_screenshot_pitch_is_larger(bytes_per_row: int, stride: int)
    ensures
        screenshot_pitch(bytes_per_row, stride) >= stride,
        screenshot_pitch(bytes_per_row, stride) >= bytes_per_row,
        screenshot_pitch(bytes_per_row, stride) == stride || screenshot_pitch(bytes_per_row, stride) == bytes_per_row,
{
}

/// The first check on the dimensions alone that a screenshot of `width` x
/// `height` pixels fails, before any of its bytes are read.
pub open spec fn cg_image_shape_failure(width: int, height: int) -> Option<(CaptureErrorCode, Seq<char>)> {
    if width > u32::MAX {
        Some((CaptureErrorCode::FrameTooLarge, "frame width overflow"@))
    } else if height > u32::MAX {
        Some((CaptureErrorCode::FrameTooLarge, "frame height overflow"@))
    } else if width == 0 || height == 0 {
        Some((CaptureErrorCode::InvalidFrame, "ScreenCaptureKit returned an empty screenshot"@))
    } else if width * 4 > u32::MAX {
        Some((CaptureErrorCode::FrameTooLarge, "RGBA stride overflow"@))
    } else {
        None
    }
}

/// The first check that a screenshot of `width` x `height` pixels, with rows
/// `bytes_per_row` apart in `len` bytes, fails: its error code and detail.
pub open spec fn cg_image_failure(width: int, height: int, bytes_per_row: int, len: int) -> Option<(CaptureErrorCode, Seq<char>)> {
    let stride = width * 4;
    let layout = pitched_layout_len(screenshot_pitch(bytes_per_row, stride), stride, height);
    if cg_image_shape_failure(width, height) is Some {
        cg_image_shape_failure(width, height)
    } else if stride * height > usize::MAX {
        Some((CaptureErrorCode::FrameTooLarge, "frame size overflow"@))
    } else if layout > usize::MAX {
        Some((CaptureErrorCode::FrameTooLarge, "frame size overflow"@))
    } else if len < layout {
        Some((CaptureErrorCode::FrameTooLarge, short_screenshot_detail(len as nat, layout as nat)))
    } else {
        None
    }
}

/// Checks a screenshot's dimensions before its bytes are read: too wide or
/// tall for `u32`, empty, or a row too wide for a `u32` stride.
pub fn check_cg_image_shape(width: usize, height: usize) -> (r: Result<(), CaptureError>)
    ensures
        match cg_image_shape_failure(width as int, height as int) {
            Some(failure) => fails_as(r, failure.0, failure.1),
            None => r is Ok,
        },
{
    if width > u32::MAX as usize {
        return Err(CaptureError::new(CaptureErrorCode::FrameTooLarge, "frame width overflow"));
    }
    if height > u32::MAX as usize {
        return Err(CaptureError::new(CaptureErrorCode::FrameTooLarge, "frame height overflow"));
    }
    if width == 0 || height == 0 {
        return Err(CaptureError::new(CaptureErrorCode::InvalidFrame, "ScreenCaptureKit returned an empty screenshot"));
    }
    if (width as u32).checked_mul(4).is_none() {
        return Err(CaptureError::new(CaptureErrorCode::FrameTooLarge, "RGBA stride overflow"));
    }
    Ok(())
}

/// The RGBA frame of a ScreenCaptureKit screenshot of `width` x `height`
/// BGRA pixels whose rows start `bytes_per_row` bytes apart in `raw`: the
/// channels are swizzled into RGBA and any row padding is stripped. A
/// `bytes_per_row` below a full row (`width * 4`) is not taken as overlap:
/// the rows are then read back to back.
pub fn cg_image_to_frame(width: usize, height: usize, bytes_per_row: usize, raw: &[u8]) -> (r: Result<Frame, CaptureError>)
    ensures
        match cg_image_failure(width as int, height as int, bytes_per_row as int, raw@.len() as int) {
            Some(failure) => fails_as(r, failure.0, failure.1),
            None => r is Ok,
        },
        r matches Ok(frame) ==> {
            &&& frame.width == width
            &&& frame.height == height
            &&& frame.stride == width * 4
            &&& frame.bytes@ == rgba_from_bgra(
                packed_rows(
                    raw@,
                    screenshot_pitch(bytes_per_row as int, width * 4) as nat,
                    (width * 4) as nat,
                    height as nat,
                ),
                false,
            )
            &&& frame.is_well_formed()
        },
{
    if let Err(error) = check_cg_image_shape(width, height) {
        return Err(error);
    }
    let width = width as u32;
    let height = height as u32;
    let stride = width * 4;
    assert(stride as u64 * height as u64 <= 0xffff_ffff * 0xffff_ffff) by (nonlinear_arith)
        requires
            stride <= 0xffff_ffff,
            height <= 0xffff_ffff,
    ;
    let total: u64 = stride as u64 * height as u64;
    assert((width as int * 4) * (height as int) == total as int) by (nonlinear_arith)
        requires
            stride as int == width as int * 4,
            total as int == stride as int * height as int,
    ;
    if total > usize::MAX as u64 {
        return Err(CaptureError::new(CaptureErrorCode::FrameTooLarge, "frame size overflow"));
    }
    let pitch: usize = if bytes_per_row < stride as usize {
        stride as usize
    } else {
        bytes_per_row
    };
    let needed = match pitch.checked_mul((height - 1) as usize) {
        Some(skip) => match skip.checked_add(stride as usize) {
            Some(needed) => needed,
            None => {
                assert((height as int - 1) * pitch as int == skip as int) by (nonlinear_arith)
                    requires
                        skip as int == pitch as int * (height as int - 1),
                ;
                return Err(CaptureError::new(CaptureErrorCode::FrameTooLarge, "frame size overflow"));
            },
        },
        None => {
            assert((height - 1) * pitch + stride > usize::MAX) by (nonlinear_arith)
                requires
                    pitch * (height - 1) > usize::MAX,
            ;
            return Err(CaptureError::new(CaptureErrorCode::FrameTooLarge, "frame size overflow"));
        },
    };
    assert((height as int - 1) * pitch as int + stride as int == needed as int) by (nonlinear_arith)
        requires
            needed as int == pitch as int * (height as int - 1) + stride as int,
    ;
    if raw.len() < needed {
        let mut detail = String::new();
        push_str(&mut detail, "screenshot bytes ");
        push_decimal_u64(&mut detail, raw.len() as u64);
        push_str(&mut detail, " are shorter than the declared layout ");
        push_decimal_u64(&mut detail, needed as u64);
        return Err(CaptureError::with_detail(CaptureErrorCode::FrameTooLarge, detail));
    }
    assert(height as int * stride as int == stride as int * height as int) by (nonlinear_arith);

    let mut bytes = pack_rows(raw, pitch, stride as usize, height as usize);
    bgra_to_rgba_in_place(&mut bytes, false);
    Ok(Frame { width, height, stride, bytes })
}

/// The macOS backend: CoreGraphics enumeration with ScreenCaptureKit
/// screenshots. It holds no state of its own.
pub struct MacosCapture;

impl MacosCapture {
    pub fn new() -> (r: Self)
        ensures
            r == MacosCapture,
    {
        MacosCapture
    }
}

impl Default for MacosCapture {
    fn default() -> (r: Self)
        ensures
            r == MacosCapture,
    {
        Self::new()
    }
}

} // verus!

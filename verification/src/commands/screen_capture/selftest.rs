//! The capture self-test's frame handling: a captured frame becomes a PNG
//! image written under the self-test's output directory.
//!
//! The self-test is armed by the flag file `/tmp/plain-capture-selftest`;
//! it re-captures the display under the pointer and writes the pixels to
//! `/tmp/cap-exp/{stem}.png` as ground truth of what was on screen.
use vstd::prelude::*;
use image::ImageEncoder;
use crate::capture::pixels::{lemma_packed_rows_index, pack_rows, packed_rows, rows_fit};
use crate::capture::{CaptureError, CaptureErrorCode, Frame, fails_as};
use crate::text::push_str;

verus! {

/// The flag file whose presence arms the self-test.
pub const FLAG_PATH: &'static str = "/tmp/plain-capture-selftest";

/// The directory the self-test writes its images to.
pub const OUTPUT_DIR: &'static str = "/tmp/cap-exp";

/// What `image`'s PNG encoder (`PngEncoder::write_image` with `Rgba8` into a
/// byte vector) makes of `width` x `height` tightly packed RGBA pixels: the
/// encoded file, or the text of the encoder's error when it refuses the image.
pub uninterp spec fn png_rgba8_encoding(pixels: Seq<u8>, width: u32, height: u32) -> Result<Seq<u8>, Seq<char>>;

/// Encodes tightly packed RGBA pixels as a PNG file with `image`'s
/// `PngEncoder`. What the encoding is, and which images it refuses beyond
/// empty ones, and the text of each refusal, are left to the name
/// `png_rgba8_encoding`; on refusal the encoder's error text is handed back.
#[verifier::external_body]
fn encode_png_rgba8(pixels: &[u8], width: u32, height: u32) -> (r: Result<Vec<u8>, String>)
    requires
        pixels@.len() == width * height * 4,
    ensures
        r is Ok <==> png_rgba8_encoding(pixels@, width, height) is Ok,
        r matches Ok(png) ==> png@ == png_rgba8_encoding(pixels@, width, height)->Ok_0,
        r matches Err(text) ==> text@ == png_rgba8_encoding(pixels@, width, height)->Err_0,
        (width == 0 || height == 0) ==> r is Err,
{
    let mut encoded = Vec::new();
    match image::codecs::png::PngEncoder::new(&mut encoded).write_image(
        pixels,
        width,
        height,
        image::ExtendedColorType::Rgba8,
    ) {
        Ok(()) => Ok(encoded),
        Err(error) => Err(error.to_string()),
    }
}

/// The tightly packed RGBA pixels of a frame: each row's first `width * 4`
/// bytes, padding dropped.
pub open spec fn frame_pixels(frame: &Frame) -> Seq<u8> {
    packed_rows(frame.bytes@, frame.stride as nat, (frame.width * 4) as nat, frame.height as nat)
}

/// The pixels handed to the encoder are the frame's own bytes, row by row and
/// unchanged: byte `j` of row `r` is the buffer's byte `r * stride + j`, and
/// there are `width * 4` bytes for each of the `height` rows.
pub proof fn lemma_frame_pixels_are_frame_rows(frame: &Frame, r: int, j: int)
    requires
        frame_rows_fit(frame),
        0 <= r < frame.height,
        0 <= j < frame.width * 4,
    ensures
        frame_pixels(frame).len() == frame.height * (frame.width * 4),
        frame_pixels(frame)[r * (frame.width * 4) + j] == frame.bytes@[r * frame.stride + j],
{
    lemma_packed_rows_index(
        frame.bytes@,
        frame.stride as nat,
        (frame.width * 4) as nat,
        frame.height as nat,
        r as nat,
        j as nat,
    );
}

/// `self-test PNG encoding failed: {error}`.
pub open spec fn png_failure_detail(error: Seq<char>) -> Seq<char> {
    "self-test PNG encoding failed: "@ + error
}

/// Every row of the frame, `width * 4` bytes from each multiple of the
/// stride, lies inside its buffer.
pub open spec fn frame_rows_fit(frame: &Frame) -> bool {
    rows_fit(frame.bytes@.len(), frame.stride as nat, (frame.width * 4) as nat, frame.height as nat)
}

/// The PNG image of a frame: its rows packed without padding and encoded as
/// RGBA. A refusal by the encoder is `InvalidFrame`, carrying the encoder's
/// error text.
pub fn encode_frame_png(frame: &Frame) -> (r: Result<Vec<u8>, CaptureError>)
    requires
        frame_rows_fit(frame),
        frame.width * 4 * frame.height <= usize::MAX,
    ensures
        r is Ok <==> png_rgba8_encoding(frame_pixels(frame), frame.width, frame.height) is Ok,
        r matches Ok(png) ==> png@ == png_rgba8_encoding(frame_pixels(frame), frame.width, frame.height)->Ok_0,
        r is Err ==> fails_as(
            r,
            CaptureErrorCode::InvalidFrame,
            png_failure_detail(png_rgba8_encoding(frame_pixels(frame), frame.width, frame.height)->Err_0),
        ),
        (frame.width == 0 || frame.height == 0) ==> r is Err,
{
    proof {
        assert(frame.height * (frame.width * 4) == frame.width * 4 * frame.height) by (nonlinear_arith);
        assert(frame.width * 4 * frame.height == frame.width * frame.height * 4) by (nonlinear_arith);
    }
    let row_bytes: usize = if frame.height == 0 {
        0
    } else {
        assert(frame.width * 4 <= frame.width * 4 * frame.height) by (nonlinear_arith)
            requires
                frame.height >= 1,
        ;
        frame.width as usize * 4
    };
    let packed = pack_rows(frame.bytes.as_slice(), frame.stride as usize, row_bytes, frame.height as usize);
    match encode_png_rgba8(packed.as_slice(), frame.width, frame.height) {
        Ok(png) => Ok(png),
        Err(error) => {
            let mut detail = String::new();
            push_str(&mut detail, "self-test PNG encoding failed: ");
            push_str(&mut detail, error.as_str());
            assert(detail@ == png_failure_detail(error@));
            Err(CaptureError::with_detail(CaptureErrorCode::InvalidFrame, detail))
        },
    }
}

/// How many times the self-test re-checks the permission after showing the
/// system request.
pub const PERMISSION_POLL_ATTEMPTS: u32 = 45;

/// Where the self-test's wait for the screen-recording permission stands.
#[derive(Debug, Clone, Copy, PartialEq, Eq, Structural)]
pub enum PermissionWait {
    /// The permission has not been checked yet.
    Checking,
    /// The permission was missing; the system request is to be shown.
    Requesting,
    /// The request was shown; `attempts` re-checks have found no grant yet.
    Polling { attempts: u32 },
    /// The wait is over.
    Finished { granted: bool },
}

/// What the runner does next in the permission wait.
#[derive(Debug, Clone, Copy, PartialEq, Eq, Structural)]
pub enum PermissionAction {
    /// Check whether the permission is granted.
    CheckGranted,
    /// Show the system permission request and report whether it was shown.
    ShowRequest,
    /// Sleep one poll interval, then check whether the permission is granted.
    SleepThenCheck,
    /// Stop; the capture may proceed only when `granted`.
    Stop { granted: bool },
}

/// The wait's state is consistent: polling never exceeds its budget.
pub open spec fn permission_wait_valid(state: PermissionWait) -> bool {
    state matches PermissionWait::Polling { attempts } ==> attempts < PERMISSION_POLL_ATTEMPTS
}

/// Observations still possible before the wait finishes.
pub open spec fn permission_wait_budget(state: PermissionWait) -> nat {
    match state {
        PermissionWait::Checking => PERMISSION_POLL_ATTEMPTS as nat + 2,
        PermissionWait::Requesting => PERMISSION_POLL_ATTEMPTS as nat + 1,
        PermissionWait::Polling { attempts } => (PERMISSION_POLL_ATTEMPTS - attempts) as nat,
        PermissionWait::Finished { .. } => 0,
    }
}

/// The next state after the runner reports `observation`, the outcome of the
/// action that `state` prescribes: whether the permission is granted
/// (checking, polling) or whether the request was shown (requesting).
pub open spec fn permission_wait_next(state: PermissionWait, observation: bool) -> PermissionWait {
    match state {
        PermissionWait::Checking => if observation {
            PermissionWait::Finished { granted: true }
        } else {
            PermissionWait::Requesting
        },
        PermissionWait::Requesting => if observation {
            PermissionWait::Polling { attempts: 0 }
        } else {
            PermissionWait::Finished { granted: false }
        },
        PermissionWait::Polling { attempts } => if observation {
            PermissionWait::Finished { granted: true }
        } else if attempts + 1 >= PERMISSION_POLL_ATTEMPTS {
            PermissionWait::Finished { granted: false }
        } else {
            PermissionWait::Polling { attempts: (attempts + 1) as u32 }
        },
        PermissionWait::Finished { granted } => PermissionWait::Finished { granted },
    }
}

/// The action the runner performs in `state`.
pub fn permission_wait_action(state: PermissionWait) -> (r: PermissionAction)
    ensures
        r == match state {
            PermissionWait::Checking => PermissionAction::CheckGranted,
            PermissionWait::Requesting => PermissionAction::ShowRequest,
            PermissionWait::Polling { .. } => PermissionAction::SleepThenCheck,
            PermissionWait::Finished { granted } => PermissionAction::Stop { granted },
        },
{
    match state {
        PermissionWait::Checking => PermissionAction::CheckGranted,
        PermissionWait::Requesting => PermissionAction::ShowRequest,
        PermissionWait::Polling { .. } => PermissionAction::SleepThenCheck,
        PermissionWait::Finished { granted } => PermissionAction::Stop { granted },
    }
}

/// Advances the permission wait by the outcome of its last action.
pub fn permission_wait_step(state: PermissionWait, observation: bool) -> (r: PermissionWait)
    requires
        permission_wait_valid(state),
    ensures
        r == permission_wait_next(state, observation),
        permission_wait_valid(r),
{
    match state {
        PermissionWait::Checking => if observation {
            PermissionWait::Finished { granted: true }
        } else {
            PermissionWait::Requesting
        },
        PermissionWait::Requesting => if observation {
            PermissionWait::Polling { attempts: 0 }
        } else {
            PermissionWait::Finished { granted: false }
        },
        PermissionWait::Polling { attempts } => if observation {
            PermissionWait::Finished { granted: true }
        } else if attempts + 1 >= PERMISSION_POLL_ATTEMPTS {
            PermissionWait::Finished { granted: false }
        } else {
            PermissionWait::Polling { attempts: attempts + 1 }
        },
        PermissionWait::Finished { granted } => PermissionWait::Finished { granted },
    }
}

/// The wait always ends: every step before the end uses up part of a budget
/// of `PERMISSION_POLL_ATTEMPTS + 2` observations, and the wait ends granted
/// only on an observation that found the permission granted.
pub proof fn lemma_permission_wait_terminates(state: PermissionWait, observation: bool)
    requires
        permission_wait_valid(state),
        !(state is Finished),
    ensures
        permission_wait_budget(permission_wait_next(state, observation)) < permission_wait_budget(state),
        permission_wait_valid(permission_wait_next(state, observation)),
        permission_wait_next(state, observation) == (PermissionWait::Finished { granted: true }) ==> observation
            && !(state is Requesting),
{
}

/// `{OUTPUT_DIR}/{stem}.png`.
pub open spec fn selfie_path_spec(stem: Seq<char>) -> Seq<char> {
    OUTPUT_DIR@ + seq!['/'] + stem + ".png"@
}

/// Where the self-test writes the image named `stem`.
pub fn selfie_path(stem: &str) -> (r: String)
    ensures
        r@ == selfie_path_spec(stem@),
{
    let mut path = String::new();
    push_str(&mut path, OUTPUT_DIR);
    crate::text::push_char(&mut path, '/');
    push_str(&mut path, stem);
    push_str(&mut path, ".png");
    path
}

} // verus!

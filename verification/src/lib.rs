//! Screen-capture planning and frame handling: display geometry and
//! selection, native display identifiers, pixel-layout conversion and the
//! acquisition gate that serializes native screen grabs.
//!
//! The native backends (X11, ScreenCaptureKit, Windows Graphics Capture)
//! perform the OS calls; every decision they take on the values that come
//! back lives here, with its contract.
pub mod text;
pub mod capture;
pub mod commands;

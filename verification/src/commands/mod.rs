//! Application commands built on the capture library.
pub mod screen_capture;

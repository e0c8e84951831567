# plain_capture

Screen capture for the Plain desktop app: native single-frame screenshots on
X11, macOS (ScreenCaptureKit) and Windows (Windows Graphics Capture), with the
monitor geometry the capture overlay is planned from.

Every decision the backends take is a verified function with a contract:

- `src/capture/mod.rs`: physical geometry, the error contract, display
  selection under the pointer, work-area mapping and the acquisition lease
  that keeps native grabs from overlapping.
- `src/capture/pixels.rs`: BGRA to RGBA conversion and packing of pitched rows.
- `src/capture/linux/`, `src/capture/macos.rs`, `src/capture/windows.rs`:
  monitor identifiers, the checks on what each platform reports, monitor
  lookup, and the conversion of each platform's pixel buffer into a frame.
- `src/commands/screen_capture/selftest.rs`: the self-test's PNG image and its
  wait for the screen-recording permission.
- `src/text.rs`: decimal rendering and parsing, ASCII case folding and
  white space.

`app/` holds what runs against the operating system: the native calls, the
process-wide lease, serde forms of the capture types and the overlay's
floating-point geometry. `tests/` exercises the library.

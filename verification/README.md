# soul_listener

Firmware-side logic of the Soul Listener digital audio player, verified with
Verus: Bluetooth HCI framing and connection state, the user-interface
components (buttons, labels, icons), and the e-ink display emulator —
waveforms, look-up tables and their file formats, the power model, the
framebuffer and its presentation, the controller's refresh and
initialization sequence, hardware quirks, and the debug inspector with its
overlays and side panel.

## Layout

- `src/` — the verified library. Every function carries a contract; the
  public proof functions (`lemma_*`) state the library's laws, such as the
  round trips of the binary and JSON LUT formats, read-after-write on the
  framebuffer and the idempotence of rectangle alignment.
  - `bluetooth/` — HCI command and event packets, connection state.
  - `components/` — buttons, labels and icons, described as the shapes they
    draw.
  - `eink/` — the display emulator, including the window's own decisions
    (its fixed size, fullscreen refusal, key mapping); `eink/debug/` the
    inspector, its scene tree, overlays and side panel.
- `tests/` — tests run against the compiled library.
- `app/` — ordinary Rust around the library: the winit/softbuffer window,
  the async refresh and initialization loops, PNG screenshots, the
  floating-point pixel physics, power graph and progress bar, JSON and file
  I/O for LUTs, the keyboard input pipe, and shapes and text drawn with
  `embedded-graphics`.

The side panel and the layout overlay are laid out and painted by the
library; the caller draws the returned texts with a 6 × 10 font.

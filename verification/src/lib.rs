//! Firmware-side logic of the Soul Listener digital audio player: Bluetooth
//! HCI framing and connection state, the user-interface components, and the
//! e-ink display emulator's waveforms, look-up tables, power model,
//! framebuffer, window and debug inspector.
pub mod bluetooth;
pub mod eink;
pub mod components;

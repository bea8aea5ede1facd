//! E-ink display emulation: waveforms, look-up tables, power model,
//! framebuffer, window presentation and the debug inspector.
pub mod waveform_mode;
pub mod lut;
pub mod lut_binary;
pub mod lut_read;
pub mod lut_json;
pub mod config;
pub mod clock;
pub mod initialization;
pub mod power;
pub mod pixel_color;
pub mod framebuffer;
pub mod geometry;
pub mod alignment;
pub mod partial_window;
pub mod window;
pub mod window_events;
pub mod display;
pub mod input;
pub mod emulator;
pub mod quirks;
pub mod text;
pub mod debug;

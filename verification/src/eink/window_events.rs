//! What the emulator window decides on its own: its fixed size in physical
//! pixels, and what it does with the window events that the debug system
//! leaves to it.
use vstd::prelude::*;
use crate::eink::config::Rotation;
use crate::eink::input::{key_button, InputEvent, Key};
use crate::eink::text::{fmt_i64, prefix, signed_decimal, take_chars};
use crate::eink::window::{rotated_dims, PANEL_W};

verus! {

/// Width and height, in physical pixels, of a `width × height` display
/// shown with `rotation` at `scale`; the debug panel starts right of it.
pub fn display_extent(rotation: Rotation, width: u32, height: u32, scale: u32) -> (r: (u32, u32))
    requires
        rotated_dims(rotation, width as int, height as int).0 * scale <= u32::MAX,
        rotated_dims(rotation, width as int, height as int).1 * scale <= u32::MAX,
    ensures
        r.0 == rotated_dims(rotation, width as int, height as int).0 * scale,
        r.1 == rotated_dims(rotation, width as int, height as int).1 * scale,
{
    let (rw, rh) = match rotation {
        Rotation::Degrees0 | Rotation::Degrees180 => (width, height),
        Rotation::Degrees90 | Rotation::Degrees270 => (height, width),
    };
    (rw * scale, rh * scale)
}

/// `v`, or 1 when it is smaller.
pub open spec fn at_least_one(v: int) -> int {
    if v < 1 { 1 } else { v }
}

/// Size of the window, in physical pixels, for a `width × height` display
/// shown with `rotation` at `scale`: the display's extent, at least 1 × 1.
pub fn window_size(rotation: Rotation, width: u32, height: u32, scale: u32) -> (r: (u32, u32))
    requires
        rotated_dims(rotation, width as int, height as int).0 * scale <= u32::MAX,
        rotated_dims(rotation, width as int, height as int).1 * scale <= u32::MAX,
    ensures
        r.0 == at_least_one(rotated_dims(rotation, width as int, height as int).0 * scale),
        r.1 == at_least_one(rotated_dims(rotation, width as int, height as int).1 * scale),
{
    let (w, h) = display_extent(rotation, width, height, scale);
    (if w < 1 { 1 } else { w }, if h < 1 { 1 } else { h })
}

/// Width of the window for a display `disp_phys_w` physical pixels wide:
/// the side panel's width more while the debug panel is open.
pub fn window_width(disp_phys_w: u32, panel_open: bool) -> (r: u32)
    requires
        disp_phys_w + PANEL_W <= u32::MAX,
    ensures
        r == if panel_open { disp_phys_w + PANEL_W } else { disp_phys_w as int },
{
    if panel_open { disp_phys_w + PANEL_W } else { disp_phys_w }
}

/// The warning shown after a temperature outside 5 to 35 °C.
pub open spec fn temperature_warning_text(temperature: i8) -> Seq<char> {
    if temperature < 5 || temperature > 35 { " \u{26A0} OUTSIDE OPTIMAL RANGE"@ } else { ""@ }
}

/// The warning shown after a temperature outside 5 to 35 °C.
pub fn temperature_warning(temperature: i8) -> (r: &'static str)
    ensures
        r@ == temperature_warning_text(temperature),
{
    if temperature < 5 || temperature > 35 {
        let w = " \u{26A0} OUTSIDE OPTIMAL RANGE";
        proof {
            reveal_strlit(" \u{26A0} OUTSIDE OPTIMAL RANGE");
        }
        w
    } else {
        let w = "";
        proof {
            reveal_strlit("");
        }
        w
    }
}

/// The title's note of the active quirk: its first forty characters.
pub open spec fn quirk_note_text(quirk: Option<Seq<char>>) -> Seq<char> {
    match quirk {
        Some(q) => " | \u{26A0} QUIRK: "@ + prefix(q, 40),
        None => ""@,
    }
}

/// The title's note of the active quirk, if any.
pub fn quirk_note(quirk: Option<&str>) -> (r: String)
    ensures
        r@ == quirk_note_text(match quirk {
            Some(q) => Some(q@),
            None => None,
        }),
{
    match quirk {
        Some(q) => {
            let head = String::from_str(" | \u{26A0} QUIRK: ");
            head.concat(take_chars(q, 40).as_str())
        },
        None => {
            proof {
                reveal_strlit("");
            }
            String::new()
        },
    }
}

/// The window title when no power statistics are known:
/// `E-Ink Emulator (T°C)`, the temperature warning and the quirk note.
pub fn plain_title(temperature: i8, quirk: Option<&str>) -> (r: String)
    ensures
        r@ == "E-Ink Emulator ("@ + signed_decimal(temperature as int) + "\u{00B0}C)"@ + temperature_warning_text(
            temperature,
        ) + quirk_note_text(
            match quirk {
                Some(q) => Some(q@),
                None => None,
            },
        ),
{
    let t = fmt_i64(temperature as i64);
    let title = String::from_str("E-Ink Emulator (").concat(t.as_str()).concat("\u{00B0}C)");
    let note = quirk_note(quirk);
    title.concat(temperature_warning(temperature)).concat(note.as_str())
}

/// A window event, as far as the window itself reads it.
#[derive(Debug, Clone, Copy, PartialEq, Eq, Structural)]
pub enum WindowEvent {
    /// The user asked to close the window.
    CloseRequested,
    /// The window moved to a monitor with another scale factor.
    ScaleFactorChanged,
    /// The window's inner size changed; `fullscreen` tells whether the
    /// window is now fullscreen.
    Resized { width: u32, height: u32, fullscreen: bool },
    /// A key was pressed (`pressed`) or released.
    Key { code: Key, pressed: bool },
    /// Anything else.
    Other,
}

/// What the window does in answer to an event.
#[derive(Debug, Clone, Copy, PartialEq, Eq, Structural)]
pub enum WindowAction {
    /// Leave the event loop.
    Exit,
    /// Ask for an inner size of `width × height`.
    RequestSize { width: u32, height: u32 },
    /// Leave fullscreen mode.
    LeaveFullscreen,
    /// Resize the drawing surface to `width × height`.
    ResizeSurface { width: u32, height: u32 },
    /// Hand an input event to the application.
    Input(InputEvent),
    /// Nothing.
    Ignore,
}

/// The window's answer to `event` when its fixed size is
/// `phys_w × phys_h`: it closes on request, keeps its size across scale
/// factor changes, refuses fullscreen and growing beyond its size (F11
/// too), follows other resizes with its surface, and turns mapped keys
/// into input events.
pub open spec fn window_answer(event: WindowEvent, phys_w: u32, phys_h: u32) -> WindowAction {
    match event {
        WindowEvent::CloseRequested => WindowAction::Exit,
        WindowEvent::ScaleFactorChanged => WindowAction::RequestSize { width: phys_w, height: phys_h },
        WindowEvent::Resized { width, height, fullscreen } => if fullscreen {
            WindowAction::LeaveFullscreen
        } else if width > phys_w || height > phys_h {
            WindowAction::RequestSize { width: phys_w, height: phys_h }
        } else if width > 0 && height > 0 {
            WindowAction::ResizeSurface { width, height }
        } else {
            WindowAction::Ignore
        },
        WindowEvent::Key { code, pressed } => if code == Key::F11 {
            WindowAction::LeaveFullscreen
        } else {
            match key_button(code) {
                Some(b) => WindowAction::Input(
                    if pressed { InputEvent::ButtonPress(b) } else { InputEvent::ButtonRelease(b) },
                ),
                None => WindowAction::Ignore,
            }
        },
        WindowEvent::Other => WindowAction::Ignore,
    }
}

/// The window's answer to `event`; see [`window_answer`].
pub fn window_action(event: WindowEvent, phys_w: u32, phys_h: u32) -> (r: WindowAction)
    ensures
        r == window_answer(event, phys_w, phys_h),
{
    match event {
        WindowEvent::CloseRequested => WindowAction::Exit,
        WindowEvent::ScaleFactorChanged => WindowAction::RequestSize { width: phys_w, height: phys_h },
        WindowEvent::Resized { width, height, fullscreen } => {
            if fullscreen {
                WindowAction::LeaveFullscreen
            } else if width > phys_w || height > phys_h {
                WindowAction::RequestSize { width: phys_w, height: phys_h }
            } else if width > 0 && height > 0 {
                WindowAction::ResizeSurface { width, height }
            } else {
                WindowAction::Ignore
            }
        },
        WindowEvent::Key { code, pressed } => {
            if let Key::F11 = code {
                WindowAction::LeaveFullscreen
            } else {
                match crate::eink::input::map_key(code, pressed) {
                    Some(ev) => WindowAction::Input(ev),
                    None => WindowAction::Ignore,
                }
            }
        },
        WindowEvent::Other => WindowAction::Ignore,
    }
}


/// The window keeps its fixed physical size on every monitor: the only
/// size it asks for is its own, it follows only resizes that stay within
/// it, and it leaves fullscreen whenever it finds itself there.
pub proof fn lemma_window_keeps_size(event: WindowEvent, phys_w: u32, phys_h: u32)
    ensures
        window_answer(event, phys_w, phys_h) matches WindowAction::RequestSize { width, height } ==> width == phys_w
            && height == phys_h,
        window_answer(event, phys_w, phys_h) matches WindowAction::ResizeSurface { width, height } ==> 0 < width
            <= phys_w && 0 < height <= phys_h,
        event matches WindowEvent::Resized { fullscreen, .. } && fullscreen ==> window_answer(event, phys_w, phys_h)
            == WindowAction::LeaveFullscreen,
{
}

} // verus!

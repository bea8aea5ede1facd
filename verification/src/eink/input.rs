//! Keyboard input for the desktop emulator: the mapping from keys to
//! device buttons and the bounded queue between the window and the
//! application.
//!
//! | Key(s)              | Action             |
//! |---------------------|--------------------|
//! | Space, K            | `Button::Play`     |
//! | →, L, .             | `Button::Next`     |
//! | ←, J, ,             | `Button::Previous` |
//! | ↑, =                | `Button::VolumeUp` |
//! | ↓, -                | `Button::VolumeDown` |
//! | M                   | `Button::Menu`     |
//! | Backspace, Esc      | `Button::Back`     |
//! | Enter               | `Button::Select`   |
use vstd::prelude::*;
use std::collections::VecDeque;

verus! {

/// A button of the device.
#[derive(Debug, Clone, Copy, PartialEq, Eq, Structural)]
pub enum Button {
    Play,
    Next,
    Previous,
    VolumeUp,
    VolumeDown,
    Menu,
    Back,
    Select,
}

/// An input event of the device.
#[derive(Debug, Clone, Copy, PartialEq, Eq, Structural)]
pub enum InputEvent {
    ButtonPress(Button),
    ButtonRelease(Button),
    /// Rotary encoder steps, positive clockwise.
    RotaryIncrement(i32),
}

/// A physical key of the desktop keyboard.
#[derive(Debug, Clone, Copy, PartialEq, Eq, Structural)]
pub enum Key {
    Space,
    KeyK,
    ArrowRight,
    KeyL,
    Period,
    ArrowLeft,
    KeyJ,
    Comma,
    ArrowUp,
    Equal,
    ArrowDown,
    Minus,
    KeyM,
    Backspace,
    Escape,
    Enter,
    /// The fullscreen key, which the window refuses.
    F11,
    /// Any other key.
    Other,
}

/// The button a key stands for, if any.
pub open spec fn key_button(code: Key) -> Option<Button> {
    match code {
        Key::Space | Key::KeyK => Some(Button::Play),
        Key::ArrowRight | Key::KeyL | Key::Period => Some(Button::Next),
        Key::ArrowLeft | Key::KeyJ | Key::Comma => Some(Button::Previous),
        Key::ArrowUp | Key::Equal => Some(Button::VolumeUp),
        Key::ArrowDown | Key::Minus => Some(Button::VolumeDown),
        Key::KeyM => Some(Button::Menu),
        Key::Backspace | Key::Escape => Some(Button::Back),
        Key::Enter => Some(Button::Select),
        Key::F11 | Key::Other => None,
    }
}

/// Map a key and its press/release state to an input event; `None` for
/// keys without a mapping.
pub fn map_key(code: Key, pressed: bool) -> (r: Option<InputEvent>)
    ensures
        r == match key_button(code) {
            Some(b) => Some(if pressed { InputEvent::ButtonPress(b) } else { InputEvent::ButtonRelease(b) }),
            None => None,
        },
{
    let btn = match code {
        Key::Space | Key::KeyK => Button::Play,
        Key::ArrowRight | Key::KeyL | Key::Period => Button::Next,
        Key::ArrowLeft | Key::KeyJ | Key::Comma => Button::Previous,
        Key::ArrowUp | Key::Equal => Button::VolumeUp,
        Key::ArrowDown | Key::Minus => Button::VolumeDown,
        Key::KeyM => Button::Menu,
        Key::Backspace | Key::Escape => Button::Back,
        Key::Enter => Button::Select,
        Key::F11 | Key::Other => return None,
    };
    Some(if pressed { InputEvent::ButtonPress(btn) } else { InputEvent::ButtonRelease(btn) })
}

/// Maximum number of unread events buffered in the queue.
pub const QUEUE_CAP: usize = 64;

/// Queue of unread input events, oldest first, holding at most
/// [`QUEUE_CAP`] of them; events pushed while it is full are dropped.
pub struct InputQueue {
    queue: VecDeque<InputEvent>,
}

impl InputQueue {
    /// The unread events, oldest first.
    pub closed spec fn events(self) -> Seq<InputEvent> {
        self.queue@
    }

    /// The queue never holds more than [`QUEUE_CAP`] events.
    pub closed spec fn wf(self) -> bool {
        self.queue@.len() <= QUEUE_CAP
    }

    /// An empty queue.
    pub fn new() -> (r: Self)
        ensures
            r.wf(),
            r.events() == Seq::<InputEvent>::empty(),
    {
        InputQueue { queue: VecDeque::new() }
    }

    /// Enqueue an event, or drop it when the queue is full.
    pub fn push(&mut self, event: InputEvent)
        requires
            old(self).wf(),
        ensures
            final(self).wf(),
            final(self).events() == if old(self).events().len() < QUEUE_CAP {
                old(self).events().push(event)
            } else {
                old(self).events()
            },
    {
        if self.queue.len() < QUEUE_CAP {
            self.queue.push_back(event);
        }
    }

    /// Take the oldest unread event, if any.
    pub fn poll_event(&mut self) -> (r: Option<InputEvent>)
        requires
            old(self).wf(),
        ensures
            final(self).wf(),
            old(self).events().len() == 0 ==> r is None && final(self).events() == old(self).events(),
            old(self).events().len() > 0 ==> r == Some(old(self).events()[0])
                && final(self).events() == old(self).events().drop_first(),
    {
        self.queue.pop_front()
    }

    /// Number of unread events.
    pub fn len(&self) -> (r: usize)
        ensures
            r == self.events().len(),
    {
        self.queue.len()
    }
}

} // verus!

use soul_listener::eink::input::{map_key, Button, InputEvent, InputQueue, Key, QUEUE_CAP};

#[test]
fn map_key_play_buttons() {
    assert_eq!(map_key(Key::Space, true), Some(InputEvent::ButtonPress(Button::Play)));
    assert_eq!(map_key(Key::KeyK, false), Some(InputEvent::ButtonRelease(Button::Play)));
}

#[test]
fn map_key_unmapped_returns_none() {
    assert_eq!(map_key(Key::Other, true), None);
    assert_eq!(map_key(Key::F11, true), None);
    assert_eq!(map_key(Key::Other, false), None);
}

#[test]
fn map_key_table() {
    let table = [
        (Key::ArrowRight, Button::Next),
        (Key::KeyL, Button::Next),
        (Key::Period, Button::Next),
        (Key::ArrowLeft, Button::Previous),
        (Key::KeyJ, Button::Previous),
        (Key::Comma, Button::Previous),
        (Key::ArrowUp, Button::VolumeUp),
        (Key::Equal, Button::VolumeUp),
        (Key::ArrowDown, Button::VolumeDown),
        (Key::Minus, Button::VolumeDown),
        (Key::KeyM, Button::Menu),
        (Key::Backspace, Button::Back),
        (Key::Escape, Button::Back),
        (Key::Enter, Button::Select),
    ];
    for (k, b) in table {
        assert_eq!(map_key(k, true), Some(InputEvent::ButtonPress(b)));
        assert_eq!(map_key(k, false), Some(InputEvent::ButtonRelease(b)));
    }
}

#[test]
fn input_queue_push_and_poll() {
    let mut queue = InputQueue::new();
    queue.push(InputEvent::ButtonPress(Button::Menu));
    assert_eq!(queue.poll_event(), Some(InputEvent::ButtonPress(Button::Menu)));
    assert_eq!(queue.poll_event(), None);
}

#[test]
fn input_queue_capacity_limit() {
    let mut queue = InputQueue::new();
    for _ in 0..QUEUE_CAP + 10 {
        queue.push(InputEvent::ButtonPress(Button::Select));
    }
    let mut count = 0;
    while queue.poll_event().is_some() {
        count += 1;
    }
    assert_eq!(count, QUEUE_CAP);
}

#[test]
fn input_queue_is_first_in_first_out() {
    let mut queue = InputQueue::new();
    queue.push(InputEvent::RotaryIncrement(1));
    queue.push(InputEvent::RotaryIncrement(-2));
    assert_eq!(queue.len(), 2);
    assert_eq!(queue.poll_event(), Some(InputEvent::RotaryIncrement(1)));
    assert_eq!(queue.poll_event(), Some(InputEvent::RotaryIncrement(-2)));
    assert_eq!(queue.len(), 0);
}

use first_os::keyboard::{keyboard_action, Key, KeyboardAction, KeyboardDecoder};
use pc_keyboard::KeyCode;

#[test]
fn shifted_letter_prints_one_uppercase_character() {
    let mut decoder = KeyboardDecoder::new();
    let first = decoder.handle_scancode(0x2A);
    assert_eq!(first, KeyboardAction { output: None, ack: 33 });
    let second = decoder.handle_scancode(0x1E);
    assert_eq!(second, KeyboardAction { output: Some(Key::Unicode('A')), ack: 33 });
}

#[test]
fn plain_letter_is_lower_case() {
    let mut decoder = KeyboardDecoder::new();
    assert_eq!(decoder.handle_scancode(0x1E).output, Some(Key::Unicode('a')));
    assert_eq!(decoder.handle_scancode(0x9E).output, None);
}

#[test]
fn extended_prefix_prints_nothing_but_is_acknowledged() {
    let mut decoder = KeyboardDecoder::new();
    assert_eq!(decoder.handle_scancode(0xE0), KeyboardAction { output: None, ack: 33 });
}

#[test]
fn key_without_character_is_named() {
    let mut decoder = KeyboardDecoder::new();
    assert_eq!(decoder.handle_scancode(0x3B).output, Some(Key::RawKey(KeyCode::F1)));
}

#[test]
fn unknown_scan_code_prints_nothing() {
    let mut decoder = KeyboardDecoder::new();
    assert_eq!(decoder.handle_scancode(0x00), KeyboardAction { output: None, ack: 33 });
}

#[test]
fn action_passes_key_through() {
    assert_eq!(keyboard_action(None), KeyboardAction { output: None, ack: 33 });
    assert_eq!(
        keyboard_action(Some(Key::Unicode('x'))),
        KeyboardAction { output: Some(Key::Unicode('x')), ack: 33 }
    );
}

#[test]
fn control_then_letter_stays_a_letter() {
    let mut decoder = KeyboardDecoder::new();
    assert_eq!(decoder.handle_scancode(0x1D).output, None);
    assert_eq!(decoder.handle_scancode(0x1E).output, Some(Key::Unicode('a')));
}

#[test]
fn shift_release_returns_to_lower_case() {
    let mut decoder = KeyboardDecoder::new();
    assert_eq!(decoder.handle_scancode(0x36).output, None);
    assert_eq!(decoder.handle_scancode(0x2C).output, Some(Key::Unicode('Z')));
    assert_eq!(decoder.handle_scancode(0xB6).output, None);
    assert_eq!(decoder.handle_scancode(0x2C).output, Some(Key::Unicode('z')));
}

#[test]
fn caps_lock_and_shift_cancel() {
    let mut decoder = KeyboardDecoder::new();
    assert_eq!(decoder.handle_scancode(0x3A).output, None);
    assert_eq!(decoder.handle_scancode(0x10).output, Some(Key::Unicode('Q')));
    assert_eq!(decoder.handle_scancode(0x2A).output, None);
    assert_eq!(decoder.handle_scancode(0x10).output, Some(Key::Unicode('q')));
}

use vstd::prelude::*;
use pc_keyboard::layouts::Us104Key;
use pc_keyboard::{DecodedKey, Error, HandleControl, KeyCode, KeyEvent, KeyState, Keyboard, ScancodeSet1};
use crate::interrupts::InterruptIndex;

verus! {

/// The decoder of the pc_keyboard crate for the US 104-key layout and
/// scan-code set 1, held opaque: Verus cannot declare its generic type.
#[verifier::external_body]
pub struct ScancodeDecoder {
    inner: Keyboard<Us104Key, ScancodeSet1>,
}

#[verifier::external_type_specification]
pub struct ExKeyEvent(KeyEvent);

#[verifier::external_type_specification]
pub struct ExKeyState(KeyState);

#[verifier::external_type_specification]
pub struct ExKeyCode(KeyCode);

#[verifier::external_type_specification]
#[verifier::external_body]
pub struct ExKeyError(Error);

/// Byte that opens a two-byte (extended) scan code in scan-code set 1.
pub const EXTENDED_PREFIX: u8 = 0xE0;

/// I/O port that the keyboard controller hands scan codes out on.
pub const KEYBOARD_DATA_PORT: u16 = 0x60;

/// A key as the decoder reports it.
#[derive(Clone, Copy, Debug, PartialEq, Eq)]
pub enum Key {
    /// A key that stands for a character.
    Unicode(char),
    /// A key without a character, printed by its name.
    RawKey(KeyCode),
}

/// What the keyboard routine does with one scan-code byte.
#[derive(Clone, Copy, Debug, PartialEq, Eq)]
pub struct KeyboardAction {
    /// The key to print, if the byte completed one.
    pub output: Option<Key>,
    /// The vector to acknowledge: always the keyboard's.
    pub ack: u8,
}

/// The part of the decoder's state that decides what the stated keys give:
/// whether an extended prefix waits for its second byte, the two shift keys
/// and caps lock.
pub struct KeyModel {
    pub prefix_pending: bool,
    pub lshift: bool,
    pub rshift: bool,
    pub capslock: bool,
}

/// A new decoder: nothing pending, no shift held, caps lock off.
pub open spec fn fresh_model() -> KeyModel {
    KeyModel { prefix_pending: false, lshift: false, rshift: false, capslock: false }
}

/// Entries of the scan-code set 1 table (key pressed): the letters, the
/// shift and left control keys, caps lock and F1 to F10.
pub open spec fn set1_key(code: u8) -> Option<KeyCode> {
    match code {
        0x10 => Some(KeyCode::Q),
        0x11 => Some(KeyCode::W),
        0x12 => Some(KeyCode::E),
        0x13 => Some(KeyCode::R),
        0x14 => Some(KeyCode::T),
        0x15 => Some(KeyCode::Y),
        0x16 => Some(KeyCode::U),
        0x17 => Some(KeyCode::I),
        0x18 => Some(KeyCode::O),
        0x19 => Some(KeyCode::P),
        0x1E => Some(KeyCode::A),
        0x1F => Some(KeyCode::S),
        0x20 => Some(KeyCode::D),
        0x21 => Some(KeyCode::F),
        0x22 => Some(KeyCode::G),
        0x23 => Some(KeyCode::H),
        0x24 => Some(KeyCode::J),
        0x25 => Some(KeyCode::K),
        0x26 => Some(KeyCode::L),
        0x2C => Some(KeyCode::Z),
        0x2D => Some(KeyCode::X),
        0x2E => Some(KeyCode::C),
        0x2F => Some(KeyCode::V),
        0x30 => Some(KeyCode::B),
        0x31 => Some(KeyCode::N),
        0x32 => Some(KeyCode::M),
        0x1D => Some(KeyCode::ControlLeft),
        0x2A => Some(KeyCode::ShiftLeft),
        0x36 => Some(KeyCode::ShiftRight),
        0x3A => Some(KeyCode::CapsLock),
        0x3B => Some(KeyCode::F1),
        0x3C => Some(KeyCode::F2),
        0x3D => Some(KeyCode::F3),
        0x3E => Some(KeyCode::F4),
        0x3F => Some(KeyCode::F5),
        0x40 => Some(KeyCode::F6),
        0x41 => Some(KeyCode::F7),
        0x42 => Some(KeyCode::F8),
        0x43 => Some(KeyCode::F9),
        0x44 => Some(KeyCode::F10),
        _ => None,
    }
}

/// The lower- and upper-case character of a letter key.
pub open spec fn letter_of(code: KeyCode) -> Option<(char, char)> {
    match code {
        KeyCode::A => Some(('a', 'A')),
        KeyCode::B => Some(('b', 'B')),
        KeyCode::C => Some(('c', 'C')),
        KeyCode::D => Some(('d', 'D')),
        KeyCode::E => Some(('e', 'E')),
        KeyCode::F => Some(('f', 'F')),
        KeyCode::G => Some(('g', 'G')),
        KeyCode::H => Some(('h', 'H')),
        KeyCode::I => Some(('i', 'I')),
        KeyCode::J => Some(('j', 'J')),
        KeyCode::K => Some(('k', 'K')),
        KeyCode::L => Some(('l', 'L')),
        KeyCode::M => Some(('m', 'M')),
        KeyCode::N => Some(('n', 'N')),
        KeyCode::O => Some(('o', 'O')),
        KeyCode::P => Some(('p', 'P')),
        KeyCode::Q => Some(('q', 'Q')),
        KeyCode::R => Some(('r', 'R')),
        KeyCode::S => Some(('s', 'S')),
        KeyCode::T => Some(('t', 'T')),
        KeyCode::U => Some(('u', 'U')),
        KeyCode::V => Some(('v', 'V')),
        KeyCode::W => Some(('w', 'W')),
        KeyCode::X => Some(('x', 'X')),
        KeyCode::Y => Some(('y', 'Y')),
        KeyCode::Z => Some(('z', 'Z')),
        _ => None,
    }
}

pub open spec fn is_function_key(code: KeyCode) -> bool {
    code == KeyCode::F1 || code == KeyCode::F2 || code == KeyCode::F3 || code == KeyCode::F4 || code == KeyCode::F5 || code == KeyCode::F6 || code == KeyCode::F7 || code == KeyCode::F8 || code == KeyCode::F9 || code == KeyCode::F10
}

/// Keys whose press only changes the decoder's modifier state.
pub open spec fn is_modifier(code: KeyCode) -> bool {
    code == KeyCode::ShiftLeft || code == KeyCode::ShiftRight || code == KeyCode::CapsLock
        || code == KeyCode::NumpadLock || code == KeyCode::ControlLeft || code == KeyCode::ControlRight
        || code == KeyCode::AltRight
}

/// The model after the decoder has taken the key event `ev`.
pub open spec fn model_after(m: KeyModel, ev: KeyEvent) -> KeyModel {
    if ev.code == KeyCode::ShiftLeft {
        KeyModel { lshift: ev.state == KeyState::Down, ..m }
    } else if ev.code == KeyCode::ShiftRight {
        KeyModel { rshift: ev.state == KeyState::Down, ..m }
    } else if ev.code == KeyCode::CapsLock && ev.state == KeyState::Down {
        KeyModel { capslock: !m.capslock, ..m }
    } else {
        m
    }
}

/// What the decoder makes of the key event `ev`, where this library states
/// it: nothing for a release or a modifier, the character of a letter (upper
/// case where exactly one of shift and caps lock is on; the control keys do
/// not change letters), the key itself for F1 to F10. `None` where not stated.
pub open spec fn decoded_key(m: KeyModel, ev: KeyEvent) -> Option<Option<Key>> {
    if ev.state == KeyState::Up || is_modifier(ev.code) {
        Some(None)
    } else if letter_of(ev.code) is Some {
        let (lower, upper) = letter_of(ev.code)->0;
        Some(Some(Key::Unicode(if (m.lshift || m.rshift) != m.capslock { upper } else { lower })))
    } else if is_function_key(ev.code) {
        Some(Some(Key::RawKey(ev.code)))
    } else {
        None
    }
}

/// The key event that byte `b` gives with no prefix pending, where the
/// table entry of its key is stated: a press below 0x80, a release above.
pub open spec fn scancode_event(b: u8) -> Option<KeyEvent> {
    if b < 0x80 && set1_key(b) is Some {
        Some(KeyEvent { code: set1_key(b)->0, state: KeyState::Down })
    } else if b >= 0x80 && b != EXTENDED_PREFIX && set1_key((b - 0x80) as u8) is Some {
        Some(KeyEvent { code: set1_key((b - 0x80) as u8)->0, state: KeyState::Up })
    } else {
        None
    }
}

/// The scan-code decoder of the keyboard routine, with its state between
/// interrupts (a pending prefix, the modifier keys held).
pub struct KeyboardDecoder {
    keyboard: ScancodeDecoder,
    model: Ghost<KeyModel>,
}

/// Relies on pc_keyboard::Keyboard::new: a decoder for the US 104-key layout
/// and scan-code set 1 that passes control-key combinations through, with
/// nothing pending, no shift held and caps lock off.
#[verifier::external_body]
fn new_us104_set1() -> (r: KeyboardDecoder)
    ensures
        r.model() == fresh_model(),
{
    let inner = Keyboard::new(Us104Key, ScancodeSet1, HandleControl::Ignore);
    KeyboardDecoder { keyboard: ScancodeDecoder { inner }, model: Ghost(fresh_model()) }
}

/// Relies on pc_keyboard::Keyboard::add_byte with scan-code set 1 (its
/// advance_state): with nothing pending, 0xE0 is stored as a pending prefix
/// and gives no event, a byte of 0x80 or more gives the release of the key of
/// the byte less 0x80, any other byte the press of its key, or an error for a
/// byte with no key; with a prefix pending the byte completes it. The
/// modifier keys are not touched.
#[verifier::external_body]
fn add_byte(decoder: &mut KeyboardDecoder, byte: u8) -> (r: Result<Option<KeyEvent>, Error>)
    ensures
        final(decoder).model().lshift == old(decoder).model().lshift,
        final(decoder).model().rshift == old(decoder).model().rshift,
        final(decoder).model().capslock == old(decoder).model().capslock,
        final(decoder).model().prefix_pending == (!old(decoder).model().prefix_pending && byte == EXTENDED_PREFIX),
        !old(decoder).model().prefix_pending && byte == EXTENDED_PREFIX ==> (r is Ok && r->Ok_0 is None),
        old(decoder).model().prefix_pending ==> !(r is Ok && r->Ok_0 is None),
        !old(decoder).model().prefix_pending && byte >= 0x80 && byte != EXTENDED_PREFIX
            ==> (r is Err || (r->Ok_0 is Some && r->Ok_0->0.state == KeyState::Up)),
        !old(decoder).model().prefix_pending && scancode_event(byte) is Some
            ==> (r is Ok && r->Ok_0 == Some(scancode_event(byte)->0)),
{
    decoder.keyboard.inner.add_byte(byte)
}

/// Relies on pc_keyboard::Keyboard::process_keyevent with the US 104-key
/// layout and control handling off: it updates the modifier keys and maps a
/// key press to a character or a key name, as `model_after` and
/// `decoded_key` state.
#[verifier::external_body]
fn process_keyevent(decoder: &mut KeyboardDecoder, event: KeyEvent) -> (r: Option<Key>)
    ensures
        final(decoder).model() == model_after(old(decoder).model(), event),
        decoded_key(old(decoder).model(), event) is Some ==> r == decoded_key(old(decoder).model(), event)->0,
{
    match decoder.keyboard.inner.process_keyevent(event) {
        Some(DecodedKey::Unicode(c)) => Some(Key::Unicode(c)),
        Some(DecodedKey::RawKey(k)) => Some(Key::RawKey(k)),
        None => None,
    }
}

/// The action for a byte that decoded to `key` (or to nothing): print the
/// key if there is one, and acknowledge the keyboard line either way.
pub fn keyboard_action(key: Option<Key>) -> (r: KeyboardAction)
    ensures
        r.output == key,
        r.ack == InterruptIndex::Keyboard.vector(),
{
    KeyboardAction { output: key, ack: InterruptIndex::Keyboard.as_u8() }
}

impl KeyboardDecoder {
    pub closed spec fn model(&self) -> KeyModel {
        self.model@
    }

    pub fn new() -> (r: KeyboardDecoder)
        ensures
            r.model() == fresh_model(),
    {
        new_us104_set1()
    }

    /// Feeds one scan-code byte to the decoder. The extended prefix and a
    /// release print nothing; a press of a stated key prints what
    /// `decoded_key` gives; the keyboard line is acknowledged whatever the byte.
    pub fn handle_scancode(&mut self, scan_code: u8) -> (r: KeyboardAction)
        ensures
            r.ack == InterruptIndex::Keyboard.vector(),
            !old(self).model().prefix_pending && scan_code == EXTENDED_PREFIX ==> r.output is None
                && final(self).model() == (KeyModel { prefix_pending: true, ..old(self).model() }),
            old(self).model().prefix_pending ==> !final(self).model().prefix_pending,
            !old(self).model().prefix_pending && scan_code >= 0x80 ==> r.output is None,
            !old(self).model().prefix_pending && scancode_event(scan_code) is Some ==> {
                let ev = scancode_event(scan_code)->0;
                &&& final(self).model() == model_after(old(self).model(), ev)
                &&& decoded_key(old(self).model(), ev) is Some ==> r.output == decoded_key(old(self).model(), ev)->0
            },
    {
        let key = match add_byte(self, scan_code) {
            Ok(Some(event)) => process_keyevent(self, event),
            _ => None,
        };
        keyboard_action(key)
    }
}

} // verus!

use vstd::prelude::*;

verus! {

/// Number of keys on the keypad.
pub const KEY_COUNT: u8 = 16;

/// Scancode of the escape key.
pub const SCANCODE_ESCAPE: i32 = 41;

/// An event of the host's window system, reduced to what the machine reads
/// of it. Scancodes are the numbers of the USB keyboard page, which is what
/// SDL calls them by.
#[derive(Clone, Copy, Debug, PartialEq, Eq)]
pub enum InputEvent {
    /// The user asked the program to end.
    Quit,
    /// A key went down; `scancode` is the physical key, where the host
    /// knows it.
    KeyDown { scancode: Option<i32> },
    /// Anything else.
    Other,
}

/// What the run loop does with the input of one cycle.
#[derive(Clone, Copy, Debug, PartialEq, Eq)]
pub enum InputSignal {
    /// End the program.
    Terminate,
    /// Go on, with the key that is pressed, if any.
    Key { keycode: Option<u8> },
}

/// The scancode of the physical key that stands for key `key` of the
/// keypad. The keypad lies on the left of the keyboard:
///
/// ```text
/// 1 2 3 C      1 2 3 4
/// 4 5 6 D  on  Q W E R
/// 7 8 9 E      A S D F
/// A 0 B F      Z X C V
/// ```
pub open spec fn scancode_of_key(key: u8) -> i32 {
    if key == 0x1 {
        30
    } else if key == 0x2 {
        31
    } else if key == 0x3 {
        32
    } else if key == 0xC {
        33
    } else if key == 0x4 {
        20
    } else if key == 0x5 {
        26
    } else if key == 0x6 {
        8
    } else if key == 0xD {
        21
    } else if key == 0x7 {
        4
    } else if key == 0x8 {
        22
    } else if key == 0x9 {
        7
    } else if key == 0xE {
        9
    } else if key == 0xA {
        29
    } else if key == 0x0 {
        27
    } else if key == 0xB {
        6
    } else {
        25
    }
}

/// The key of the keypad that a physical key stands for, if any: the key
/// whose scancode it has.
pub open spec fn key_of_scancode(code: i32) -> Option<u8> {
    if code == 30 {
        Some(0x1u8)
    } else if code == 31 {
        Some(0x2u8)
    } else if code == 32 {
        Some(0x3u8)
    } else if code == 33 {
        Some(0xCu8)
    } else if code == 20 {
        Some(0x4u8)
    } else if code == 26 {
        Some(0x5u8)
    } else if code == 8 {
        Some(0x6u8)
    } else if code == 21 {
        Some(0xDu8)
    } else if code == 4 {
        Some(0x7u8)
    } else if code == 22 {
        Some(0x8u8)
    } else if code == 7 {
        Some(0x9u8)
    } else if code == 9 {
        Some(0xEu8)
    } else if code == 29 {
        Some(0xAu8)
    } else if code == 27 {
        Some(0x0u8)
    } else if code == 6 {
        Some(0xBu8)
    } else if code == 25 {
        Some(0xFu8)
    } else {
        None
    }
}

/// The two tables of the keypad are inverse to each other: a scancode
/// stands for a key if and only if it is that key's scancode. So every key
/// has one physical key, and no physical key stands for two.
pub proof fn law_keypad_tables_are_inverse(code: i32, key: u8)
    ensures
        key_of_scancode(code) == Some(key) <==> key < KEY_COUNT && scancode_of_key(key) == code,
{
}

/// Maps the scancode of a physical key to the key of the keypad that it
/// stands for.
pub fn convert_std_to_chip8_code(code: i32) -> (key: Option<u8>)
    ensures
        key == key_of_scancode(code),
        key matches Some(k) ==> k < KEY_COUNT && scancode_of_key(k) == code,
        key is None ==> forall|k: u8| k < KEY_COUNT ==> scancode_of_key(k) != code,
{
    match code {
        // First row 123C
        30 => Some(0x1),
        31 => Some(0x2),
        32 => Some(0x3),
        33 => Some(0xC),
        // Second row 456D
        20 => Some(0x4),
        26 => Some(0x5),
        8 => Some(0x6),
        21 => Some(0xD),
        // Third row 789E
        4 => Some(0x7),
        22 => Some(0x8),
        7 => Some(0x9),
        9 => Some(0xE),
        // Fourth row A0BF
        29 => Some(0xA),
        27 => Some(0x0),
        6 => Some(0xB),
        25 => Some(0xF),
        _ => None,
    }
}

/// What the most recent pending event means to the run loop.
pub open spec fn signal_of(last_event: Option<InputEvent>) -> InputSignal {
    match last_event {
        Some(InputEvent::Quit) => InputSignal::Terminate,
        Some(InputEvent::KeyDown { scancode: Some(code) }) => if code == SCANCODE_ESCAPE {
            InputSignal::Terminate
        } else {
            InputSignal::Key { keycode: key_of_scancode(code) }
        },
        _ => InputSignal::Key { keycode: None },
    }
}

/// Reads the input of one cycle out of the most recent pending event, if
/// there is one: a request to quit or the escape key end the program, a key
/// of the keypad is handed to the machine, everything else is no input.
pub fn last_input(last_event: Option<InputEvent>) -> (signal: InputSignal)
    ensures
        signal == signal_of(last_event),
{
    let last_event = match last_event {
        Some(event) => event,
        None => return InputSignal::Key { keycode: None },
    };
    match last_event {
        InputEvent::Quit | InputEvent::KeyDown { scancode: Some(SCANCODE_ESCAPE) } => {
            InputSignal::Terminate
        },
        InputEvent::KeyDown { scancode: Some(code) } => {
            InputSignal::Key { keycode: convert_std_to_chip8_code(code) }
        },
        _ => InputSignal::Key { keycode: None },
    }
}

} // verus!

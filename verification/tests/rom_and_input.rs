use chip8::input::{convert_std_to_chip8_code, last_input, InputEvent, InputSignal};
use chip8::rom::{Rom, RomError};

#[test]
fn rom_pads_short_image_with_zeros() {
    let rom = match Rom::new(&[0x00, 0xE0, 0x12, 0x00]) {
        Ok(rom) => rom,
        Err(error) => panic!("refused: {:?}", error),
    };
    assert_eq!(rom.data.len(), 3584);
    assert_eq!(&rom.data[..4], &[0x00, 0xE0, 0x12, 0x00]);
    assert!(rom.data[4..].iter().all(|&byte| byte == 0));
}

#[test]
fn rom_of_full_size_is_kept_whole() {
    let mut bytes = vec![0u8; 3584];
    bytes[0] = 0xAA;
    bytes[3583] = 0x55;
    let rom = match Rom::new(&bytes) {
        Ok(rom) => rom,
        Err(error) => panic!("refused: {:?}", error),
    };
    assert_eq!(rom.data[0], 0xAA);
    assert_eq!(rom.data[3583], 0x55);
    assert_eq!(&rom.data[..], &bytes[..]);
}

#[test]
fn rom_refuses_empty_image() {
    assert!(matches!(Rom::new(&[]), Err(RomError::Empty)));
}

#[test]
fn rom_refuses_image_beyond_program_memory() {
    let bytes = vec![1u8; 3585];
    assert!(matches!(Rom::new(&bytes), Err(RomError::TooLarge)));
}

#[test]
fn keypad_layout() {
    // 1 2 3 4
    assert_eq!(convert_std_to_chip8_code(30), Some(0x1));
    assert_eq!(convert_std_to_chip8_code(31), Some(0x2));
    assert_eq!(convert_std_to_chip8_code(32), Some(0x3));
    assert_eq!(convert_std_to_chip8_code(33), Some(0xC));
    // Q W E R
    assert_eq!(convert_std_to_chip8_code(20), Some(0x4));
    assert_eq!(convert_std_to_chip8_code(26), Some(0x5));
    assert_eq!(convert_std_to_chip8_code(8), Some(0x6));
    assert_eq!(convert_std_to_chip8_code(21), Some(0xD));
    // A S D F
    assert_eq!(convert_std_to_chip8_code(4), Some(0x7));
    assert_eq!(convert_std_to_chip8_code(22), Some(0x8));
    assert_eq!(convert_std_to_chip8_code(7), Some(0x9));
    assert_eq!(convert_std_to_chip8_code(9), Some(0xE));
    // Z X C V
    assert_eq!(convert_std_to_chip8_code(29), Some(0xA));
    assert_eq!(convert_std_to_chip8_code(27), Some(0x0));
    assert_eq!(convert_std_to_chip8_code(6), Some(0xB));
    assert_eq!(convert_std_to_chip8_code(25), Some(0xF));
}

#[test]
fn keys_off_the_keypad_give_nothing() {
    for code in [-1, 0, 1, 5, 10, 19, 23, 24, 28, 34, 39, 40, 41, 44, 1000, i32::MAX, i32::MIN] {
        assert_eq!(convert_std_to_chip8_code(code), None);
    }
}

#[test]
fn every_key_has_exactly_one_scancode() {
    let mut seen = [0u32; 16];
    for code in -300..600 {
        if let Some(key) = convert_std_to_chip8_code(code) {
            assert!(key < 16);
            seen[key as usize] += 1;
        }
    }
    assert_eq!(seen, [1u32; 16]);
}

#[test]
fn no_event_is_no_input() {
    assert_eq!(last_input(None), InputSignal::Key { keycode: None });
}

#[test]
fn quit_and_escape_terminate() {
    assert_eq!(last_input(Some(InputEvent::Quit)), InputSignal::Terminate);
    assert_eq!(
        last_input(Some(InputEvent::KeyDown { scancode: Some(41) })),
        InputSignal::Terminate
    );
}

#[test]
fn key_down_on_the_keypad_is_handed_on() {
    assert_eq!(
        last_input(Some(InputEvent::KeyDown { scancode: Some(27) })),
        InputSignal::Key { keycode: Some(0x0) }
    );
    assert_eq!(
        last_input(Some(InputEvent::KeyDown { scancode: Some(25) })),
        InputSignal::Key { keycode: Some(0xF) }
    );
}

#[test]
fn other_events_are_no_input() {
    assert_eq!(last_input(Some(InputEvent::Other)), InputSignal::Key { keycode: None });
    assert_eq!(
        last_input(Some(InputEvent::KeyDown { scancode: None })),
        InputSignal::Key { keycode: None }
    );
    assert_eq!(
        last_input(Some(InputEvent::KeyDown { scancode: Some(44) })),
        InputSignal::Key { keycode: None }
    );
}

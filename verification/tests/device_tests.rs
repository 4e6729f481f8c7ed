use porcel8::device::Device;
use porcel8::graphics::SdlGraphicsAdapter;
use porcel8::instruction::Instruction;
use porcel8::keyboard::{Key, KeyboardEvent};
use porcel8::keyboard_adapter::SdlKeyboardAdapter;
use porcel8::timer::TimerState;
use porcel8::util::{DeviceConfig, EmulatorError};

fn new_device(is_new_chip8: bool, halt_on_invalid: bool) -> (SdlKeyboardAdapter, Device) {
    let (adapter, keyboard) = SdlKeyboardAdapter::new_keyboard();
    let config = DeviceConfig::new(is_new_chip8, halt_on_invalid, false, 800);
    (adapter, Device::new(keyboard, config))
}

#[test]
fn test_execute_set_register_then_read() {
    let (_adapter, mut device) = new_device(true, false);
    for x in 0..16usize {
        for v in 0..=255u8 {
            device
                .execute_instruction(Instruction::SetRegister(x, v))
                .expect("SetRegister failed");
            assert_eq!(v, device.registers.v[x]);
        }
    }
}

#[test]
fn test_alu_add_carry_flag() {
    let (_adapter, mut device) = new_device(true, false);
    device
        .execute_instruction(Instruction::SetRegister(0, 200))
        .unwrap();
    device
        .execute_instruction(Instruction::SetRegister(1, 100))
        .unwrap();
    device.execute_instruction(Instruction::Add(0, 1)).unwrap();
    assert_eq!(44, device.registers.v[0]);
    assert_eq!(1, device.registers.v[0xF]);

    device
        .execute_instruction(Instruction::SetRegister(2, 10))
        .unwrap();
    device
        .execute_instruction(Instruction::SetRegister(3, 20))
        .unwrap();
    device.execute_instruction(Instruction::Add(2, 3)).unwrap();
    assert_eq!(30, device.registers.v[2]);
    assert_eq!(0, device.registers.v[0xF]);
}

#[test]
fn test_alu_sub_borrow_flag() {
    let (_adapter, mut device) = new_device(true, false);
    device
        .execute_instruction(Instruction::SetRegister(0, 50))
        .unwrap();
    device
        .execute_instruction(Instruction::SetRegister(1, 30))
        .unwrap();
    device.execute_instruction(Instruction::Sub(0, 1)).unwrap();
    assert_eq!(20, device.registers.v[0]);
    assert_eq!(1, device.registers.v[0xF], "no borrow: flag must be 1");

    device
        .execute_instruction(Instruction::SetRegister(2, 30))
        .unwrap();
    device
        .execute_instruction(Instruction::SetRegister(3, 50))
        .unwrap();
    device.execute_instruction(Instruction::Sub(2, 3)).unwrap();
    assert_eq!(236, device.registers.v[2]);
    assert_eq!(0, device.registers.v[0xF], "borrow occurred: flag must be 0");

    // Equal operands leave no borrow.
    device
        .execute_instruction(Instruction::SetRegister(4, 7))
        .unwrap();
    device
        .execute_instruction(Instruction::SetRegister(5, 7))
        .unwrap();
    device.execute_instruction(Instruction::Sub(4, 5)).unwrap();
    assert_eq!(0, device.registers.v[4]);
    assert_eq!(1, device.registers.v[0xF]);
}

#[test]
fn test_right_shift_quirk() {
    // Legacy behaviour: v[y] is copied into v[x] first.
    let (_adapter, mut device) = new_device(false, false);
    device
        .execute_instruction(Instruction::SetRegister(0, 0xFF))
        .unwrap();
    device
        .execute_instruction(Instruction::SetRegister(1, 0x06))
        .unwrap();
    device
        .execute_instruction(Instruction::RShift(0, 1))
        .unwrap();
    assert_eq!(0x03, device.registers.v[0]);
    assert_eq!(0, device.registers.v[0xF]);

    // Updated behaviour: the copy is skipped, v[x] itself is shifted.
    let (_adapter2, mut device2) = new_device(true, false);
    device2
        .execute_instruction(Instruction::SetRegister(0, 0x05))
        .unwrap();
    device2
        .execute_instruction(Instruction::SetRegister(1, 0xF0))
        .unwrap();
    device2
        .execute_instruction(Instruction::RShift(0, 1))
        .unwrap();
    assert_eq!(0x02, device2.registers.v[0]);
    assert_eq!(1, device2.registers.v[0xF], "shifted-out bit of 0x05");
}

#[test]
fn test_left_shift_quirk() {
    let (_adapter, mut device) = new_device(false, false);
    device
        .execute_instruction(Instruction::SetRegister(2, 0x81))
        .unwrap();
    device
        .execute_instruction(Instruction::LShift(3, 2))
        .unwrap();
    assert_eq!(0x02, device.registers.v[3]);
    assert_eq!(1, device.registers.v[0xF]);

    let (_adapter2, mut device2) = new_device(true, false);
    device2
        .execute_instruction(Instruction::SetRegister(3, 0x41))
        .unwrap();
    device2
        .execute_instruction(Instruction::SetRegister(2, 0xFF))
        .unwrap();
    device2
        .execute_instruction(Instruction::LShift(3, 2))
        .unwrap();
    assert_eq!(0x82, device2.registers.v[3]);
    assert_eq!(0, device2.registers.v[0xF]);
}

#[test]
fn test_draw_twice_restores_screen() {
    let (_adapter, mut device) = new_device(true, false);
    device.set_default_font();
    device
        .execute_instruction(Instruction::SetIndex(0x50))
        .unwrap();
    device
        .execute_instruction(Instruction::SetRegister(0, 3))
        .unwrap();
    device
        .execute_instruction(Instruction::SetRegister(1, 5))
        .unwrap();
    device
        .execute_instruction(Instruction::Draw(0, 1, 5))
        .unwrap();
    assert_eq!(0, device.registers.v[0xF], "first draw toggles nothing off");
    assert!(device.frame_buffer.iter().any(|p| *p), "glyph was drawn");

    device
        .execute_instruction(Instruction::Draw(0, 1, 5))
        .unwrap();
    assert_eq!(1, device.registers.v[0xF], "second draw unsets pixels");
    assert!(
        device.frame_buffer.iter().all(|p| !*p),
        "drawing the same sprite twice restores the empty screen"
    );
}

#[test]
fn test_draw_clips_bottom_and_right_edges() {
    let (_adapter, mut device) = new_device(true, false);
    device.set_default_font();
    // Glyph 0 at (60, 30): only rows 30 and 31 and columns 60..=63 remain.
    device
        .execute_instruction(Instruction::SetIndex(0x50))
        .unwrap();
    device
        .execute_instruction(Instruction::SetRegister(0, 60))
        .unwrap();
    device
        .execute_instruction(Instruction::SetRegister(1, 30))
        .unwrap();
    device
        .execute_instruction(Instruction::Draw(0, 1, 5))
        .unwrap();
    let mut set_pixels: Vec<(usize, usize)> = Vec::new();
    for y in 0..32usize {
        for x in 0..64usize {
            if device.frame_buffer[y * 64 + x] {
                set_pixels.push((x, y));
            }
        }
    }
    // Row 0 of the glyph is 0xF0 (pixels 0..4), row 1 is 0x90 (pixels 0 and 3).
    assert_eq!(
        vec![(60, 30), (61, 30), (62, 30), (63, 30), (60, 31), (63, 31)],
        set_pixels
    );
}

#[test]
fn test_timer_countdown_to_zero() {
    let mut timers = TimerState::new();
    timers.set_delay(5);
    timers.set_sound(3);
    for _ in 0..5 {
        timers.tick();
    }
    assert_eq!(0, timers.delay);
    assert_eq!(0, timers.sound);
    for _ in 0..10 {
        timers.tick();
    }
    assert_eq!(0, timers.delay, "a timer at zero stays at zero");
    assert_eq!(0, timers.sound);
}

#[test]
fn test_delay_timer_instructions() {
    let (_adapter, mut device) = new_device(true, false);
    device
        .execute_instruction(Instruction::SetRegister(4, 42))
        .unwrap();
    device
        .execute_instruction(Instruction::SetDelayTimer(4))
        .unwrap();
    assert_eq!(42, device.timers.delay);
    device.timers.tick();
    device
        .execute_instruction(Instruction::FetchDelayTimer(6))
        .unwrap();
    assert_eq!(41, device.registers.v[6]);
    device
        .execute_instruction(Instruction::SetSoundTimer(4))
        .unwrap();
    assert_eq!(42, device.timers.sound);
}

#[test]
fn test_bcd_conversion_235() {
    let (_adapter, mut device) = new_device(true, false);
    device
        .execute_instruction(Instruction::SetRegister(7, 235))
        .unwrap();
    device
        .execute_instruction(Instruction::SetIndex(0x300))
        .unwrap();
    device
        .execute_instruction(Instruction::DoBCDConversion(7))
        .unwrap();
    assert_eq!(2, device.memory[0x300]);
    assert_eq!(3, device.memory[0x301]);
    assert_eq!(5, device.memory[0x302]);
}

#[test]
fn test_three_cycle_program() {
    let (_adapter, mut device) = new_device(true, false);
    let rom: [u8; 6] = [0x00, 0xE0, 0x6A, 0x02, 0x7A, 0x03];
    device.load_rom(&rom);
    for _ in 0..3 {
        device.cycle().expect("cycle failed");
    }
    assert_eq!(0x206, device.registers.pc);
    assert_eq!(5, device.registers.v[0xA]);
    assert!(device.frame_buffer.iter().all(|p| !*p));
}

#[test]
fn test_get_key_busy_polls_until_key() {
    let (adapter, mut device) = new_device(true, false);
    let rom: [u8; 2] = [0xF5, 0x0A];
    device.load_rom(&rom);
    for _ in 0..4 {
        device.cycle().expect("cycle failed");
        assert_eq!(
            0x200, device.registers.pc,
            "with no key down, the same instruction is re-fetched"
        );
    }
    adapter.send_key_down(7).expect("send failed");
    device.cycle().expect("cycle failed");
    assert_eq!(7, device.registers.v[5]);
    assert_eq!(0x202, device.registers.pc);
}

#[test]
fn test_reference_rom_matches_bitmap() {
    let (_adapter, mut device) = new_device(true, false);
    device.set_default_font();
    let rom: [u8; 10] = [
        0x00, 0xE0, // clear screen
        0xA0, 0x50, // index at the font's first glyph
        0x6A, 0x00, // vA = 0
        0x6B, 0x00, // vB = 0
        0xDA, 0xB5, // draw the 5-row glyph at (0, 0)
    ];
    device.load_rom(&rom);
    for _ in 0..5 {
        device.cycle().expect("cycle failed");
    }
    assert_eq!(0x20A, device.registers.pc);
    // The glyph for 0 (rows 0xF0, 0x90, 0x90, 0x90, 0xF0) at the top-left.
    let expected: [(usize, usize); 14] = [
        (0, 0),
        (1, 0),
        (2, 0),
        (3, 0),
        (0, 1),
        (3, 1),
        (0, 2),
        (3, 2),
        (0, 3),
        (3, 3),
        (0, 4),
        (1, 4),
        (2, 4),
        (3, 4),
    ];
    for y in 0..32usize {
        for x in 0..64usize {
            let should_be_set = expected.contains(&(x, y));
            assert_eq!(
                should_be_set,
                device.frame_buffer[y * 64 + x],
                "pixel ({}, {})",
                x,
                y
            );
        }
    }
}

#[test]
fn test_return_with_empty_stack_errors() {
    let (_adapter, mut device) = new_device(true, false);
    let result = device.execute_instruction(Instruction::ReturnFromProcedure);
    assert!(matches!(result, Err(EmulatorError::StackUnderflow)));
    assert_eq!(0x200, device.registers.pc, "a fault leaves the state unchanged");
}

#[test]
fn test_call_and_return() {
    let (_adapter, mut device) = new_device(true, false);
    device
        .execute_instruction(Instruction::JumpAndLink(0x400))
        .unwrap();
    assert_eq!(0x400, device.registers.pc);
    assert_eq!(vec![0x200], device.stack);
    device
        .execute_instruction(Instruction::ReturnFromProcedure)
        .unwrap();
    assert_eq!(0x200, device.registers.pc);
    assert!(device.stack.is_empty());
}

#[test]
fn test_bcd_out_of_bounds_errors() {
    let (_adapter, mut device) = new_device(true, false);
    device
        .execute_instruction(Instruction::SetRegister(0, 99))
        .unwrap();
    device.registers.i = 4094;
    let result = device.execute_instruction(Instruction::DoBCDConversion(0));
    assert!(matches!(result, Err(EmulatorError::MemoryOutOfBounds)));
}

#[test]
fn test_invalid_opcode_honours_halt_flag() {
    let (_adapter, mut device) = new_device(true, true);
    let result = device.execute_instruction(Instruction::PassThrough);
    assert!(matches!(result, Err(EmulatorError::IOError(_))));

    let (_adapter2, mut device2) = new_device(true, false);
    device2
        .execute_instruction(Instruction::PassThrough)
        .expect("a lenient device treats an invalid opcode as a no-op");
    assert_eq!(0x200, device2.registers.pc);
}

#[test]
fn test_store_load_registers_quirk() {
    // Legacy behaviour: the index register is left incremented.
    let (_adapter, mut device) = new_device(false, false);
    for x in 0..4usize {
        device
            .execute_instruction(Instruction::SetRegister(x, 10 + x as u8))
            .unwrap();
    }
    device
        .execute_instruction(Instruction::SetIndex(0x300))
        .unwrap();
    device
        .execute_instruction(Instruction::StoreRegistersToMemory(3))
        .unwrap();
    assert_eq!([10, 11, 12, 13], device.memory[0x300..0x304]);
    assert_eq!(0x304, device.registers.i, "legacy store increments the index");

    // Updated behaviour: the index register is left unchanged, and a load
    // round-trips what a store wrote.
    let (_adapter2, mut device2) = new_device(true, false);
    for x in 0..4usize {
        device2
            .execute_instruction(Instruction::SetRegister(x, 20 + x as u8))
            .unwrap();
    }
    device2
        .execute_instruction(Instruction::SetIndex(0x300))
        .unwrap();
    device2
        .execute_instruction(Instruction::StoreRegistersToMemory(3))
        .unwrap();
    assert_eq!(0x300, device2.registers.i, "updated store leaves the index");
    for x in 0..4usize {
        device2
            .execute_instruction(Instruction::SetRegister(x, 0))
            .unwrap();
    }
    device2
        .execute_instruction(Instruction::LoadRegistersFromMemory(3))
        .unwrap();
    assert_eq!([20, 21, 22, 23], device2.registers.v[0..4]);
}

#[test]
fn test_store_registers_out_of_bounds_errors() {
    let (_adapter, mut device) = new_device(true, false);
    device.registers.i = 4090;
    let result = device.execute_instruction(Instruction::StoreRegistersToMemory(8));
    assert!(matches!(result, Err(EmulatorError::MemoryOutOfBounds)));
}

#[test]
fn test_add_to_index_quirk() {
    // Updated behaviour: wrap within 12 bits and set the flag on overflow.
    let (_adapter, mut device) = new_device(true, false);
    device
        .execute_instruction(Instruction::SetIndex(0xFFF))
        .unwrap();
    device
        .execute_instruction(Instruction::SetRegister(0, 2))
        .unwrap();
    device
        .execute_instruction(Instruction::AddToIndex(0))
        .unwrap();
    assert_eq!(0x001, device.registers.i);
    assert_eq!(1, device.registers.v[0xF]);

    // Legacy behaviour: no 12-bit wrap and no flag side effect.
    let (_adapter2, mut device2) = new_device(false, false);
    device2
        .execute_instruction(Instruction::SetIndex(0xFFF))
        .unwrap();
    device2
        .execute_instruction(Instruction::SetRegister(0, 2))
        .unwrap();
    device2
        .execute_instruction(Instruction::AddToIndex(0))
        .unwrap();
    assert_eq!(0x1001, device2.registers.i);
    assert_eq!(0, device2.registers.v[0xF]);
}

#[test]
fn test_jump_with_offset_quirk() {
    // Legacy behaviour: register 0 supplies the offset base.
    let (_adapter, mut device) = new_device(false, false);
    device
        .execute_instruction(Instruction::SetRegister(0, 4))
        .unwrap();
    device
        .execute_instruction(Instruction::SetRegister(2, 0x10))
        .unwrap();
    device
        .execute_instruction(Instruction::JumpWithOffset(2, 0x300))
        .unwrap();
    assert_eq!(0x304, device.registers.pc);

    // Updated behaviour: the encoded register supplies the offset base.
    let (_adapter2, mut device2) = new_device(true, false);
    device2
        .execute_instruction(Instruction::SetRegister(0, 4))
        .unwrap();
    device2
        .execute_instruction(Instruction::SetRegister(2, 0x10))
        .unwrap();
    device2
        .execute_instruction(Instruction::JumpWithOffset(2, 0x300))
        .unwrap();
    assert_eq!(0x310, device2.registers.pc);
}

#[test]
fn test_random_and_respects_mask() {
    let (_adapter, mut device) = new_device(true, false);
    device
        .execute_instruction(Instruction::SetRegister(3, 0xAA))
        .unwrap();
    device
        .execute_instruction(Instruction::RandomAnd(3, 0x00))
        .unwrap();
    assert_eq!(0, device.registers.v[3], "a zero mask clears the register");
    for _ in 0..32 {
        device
            .execute_instruction(Instruction::RandomAnd(3, 0x0F))
            .unwrap();
        assert_eq!(0, device.registers.v[3] & 0xF0, "the mask bounds the result");
    }
}

#[test]
fn test_font_written_at_fixed_location() {
    let (_adapter, mut device) = new_device(true, false);
    device.set_default_font();
    assert_eq!(0xF0, device.memory[0x50]);
    assert_eq!(0x80, device.memory[0x9F]);
    device
        .execute_instruction(Instruction::SetRegister(0, 0xA))
        .unwrap();
    device
        .execute_instruction(Instruction::SetIndexToFontCharacter(0))
        .unwrap();
    assert_eq!(0x50 + 5 * 0xA, device.registers.i);
}

#[test]
fn test_skip_instructions_advance_pc() {
    let (adapter, mut device) = new_device(true, false);
    device
        .execute_instruction(Instruction::SetRegister(1, 9))
        .unwrap();
    device
        .execute_instruction(Instruction::ConditionalEqSkipNext(1, 9))
        .unwrap();
    assert_eq!(0x202, device.registers.pc);
    device
        .execute_instruction(Instruction::ConditionalEqSkipNext(1, 8))
        .unwrap();
    assert_eq!(0x202, device.registers.pc);
    device
        .execute_instruction(Instruction::ConditionalInEqSkipNext(1, 8))
        .unwrap();
    assert_eq!(0x204, device.registers.pc);

    adapter.send_key_down(9).expect("send failed");
    device.device_keyboard.update_keyboard_registers().unwrap();
    // The key index is the register's value, not the register index.
    device
        .execute_instruction(Instruction::SkipIfKeyPressed(1))
        .unwrap();
    assert_eq!(0x206, device.registers.pc);
    device
        .execute_instruction(Instruction::SkipIfKeyNotPressed(1))
        .unwrap();
    assert_eq!(0x206, device.registers.pc);
}

#[test]
fn test_rgb_frame_buffer_conversion() {
    let (_adapter, mut device) = new_device(true, false);
    device.set_default_font();
    device
        .execute_instruction(Instruction::SetIndex(0x50))
        .unwrap();
    device
        .execute_instruction(Instruction::SetRegister(0, 0))
        .unwrap();
    device
        .execute_instruction(Instruction::SetRegister(1, 0))
        .unwrap();
    device
        .execute_instruction(Instruction::Draw(0, 1, 1))
        .unwrap();
    let mut graphics = SdlGraphicsAdapter::new();
    graphics.fill_rgb_frame_buffer(&device.frame_buffer);
    assert_eq!(0xFF, graphics.rgb_frame_buffer[0]);
    assert_eq!(0xFF, graphics.rgb_frame_buffer[1]);
    assert_eq!(0xFF, graphics.rgb_frame_buffer[2]);
    assert_eq!(0x00, graphics.rgb_frame_buffer[3 * 4]);
}

#[test]
fn test_clear_screen_blanks_every_pixel() {
    let (_adapter, mut device) = new_device(true, false);
    device.set_default_font();
    device
        .execute_instruction(Instruction::SetIndex(0x50))
        .unwrap();
    device
        .execute_instruction(Instruction::Draw(0, 1, 5))
        .unwrap();
    assert!(device.frame_buffer.iter().any(|p| *p));
    device
        .execute_instruction(Instruction::ClearScreen)
        .unwrap();
    assert!(device.frame_buffer.iter().all(|p| !*p));
}

#[test]
fn test_rom_loading_is_verbatim() {
    let (_adapter, mut device) = new_device(true, false);
    let rom: [u8; 4] = [0xDE, 0xAD, 0xBE, 0xEF];
    device.load_rom(&rom);
    assert_eq!([0xDE, 0xAD, 0xBE, 0xEF], device.memory[0x200..0x204]);
    assert_eq!(0, device.memory[0x204], "memory past the image stays as it was");
}

#[test]
fn test_cycle_with_input_is_deterministic() {
    let (_adapter, mut device) = new_device(true, false);
    // RandomAnd v5 with mask 0xFF: the result is exactly the supplied byte.
    let rom: [u8; 4] = [0xC5, 0xFF, 0x6A, 0x02];
    device.load_rom(&rom);
    device
        .cycle_with_input(&vec![KeyboardEvent::KeyDown(Key::K3)], 0x5A)
        .expect("cycle failed");
    assert_eq!(0x5A, device.registers.v[5]);
    assert_eq!(0x202, device.registers.pc);
    assert!(device.device_keyboard.query_key_down(3));
    device
        .cycle_with_input(&Vec::new(), 0)
        .expect("cycle failed");
    assert_eq!(2, device.registers.v[0xA]);
    assert_eq!(0x204, device.registers.pc);
}

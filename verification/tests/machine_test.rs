use chip8::displays::GamePixels;
use chip8::hexadecimal_sprites::glyph_bytes;
use chip8::input_driver::EventPollable;
use chip8::interpreters::{Fault, Interpreter, Opcodes, ProgramCounter, RegisterN};
use chip8::keypads::Keypad;
use chip8::memory::Memory;
use chip8::timers::{DelayTimer, TimerActions};

pub struct IdleInput {
    pub terminate: bool,
}

impl EventPollable for IdleInput {
    fn poll(&mut self) -> Result<Keypad, ()> {
        if self.terminate {
            Err(())
        } else {
            Ok(Keypad::new())
        }
    }
}

fn build_machine() -> Interpreter<GamePixels, IdleInput, DelayTimer, DelayTimer> {
    Interpreter::new(
        Memory::empty(),
        GamePixels::new(),
        IdleInput { terminate: false },
        DelayTimer { value: 0 },
        DelayTimer { value: 0 },
    )
}

#[test]
fn test_add_no_carry() {
    let mut m = build_machine();
    m.registers.v[3] = 100;
    m.registers.v[4] = 55;
    m.execute_opcode(0x8344).unwrap();
    assert_eq!(m.registers.v[3], 155);
    assert_eq!(m.registers.v[0xf], 0);
}

#[test]
fn test_sub_no_borrow() {
    let mut m = build_machine();
    m.registers.v[1] = 9;
    m.registers.v[2] = 5;
    m.execute_opcode(0x8125).unwrap();
    assert_eq!(m.registers.v[1], 4);
    assert_eq!(m.registers.v[0xf], 1);
}

#[test]
fn test_sub_with_borrow() {
    let mut m = build_machine();
    m.registers.v[1] = 5;
    m.registers.v[2] = 9;
    m.execute_opcode(0x8125).unwrap();
    assert_eq!(m.registers.v[1], 252);
    assert_eq!(m.registers.v[0xf], 0);
}

#[test]
fn test_subn() {
    let mut m = build_machine();
    m.registers.v[1] = 5;
    m.registers.v[2] = 9;
    m.execute_opcode(0x8127).unwrap();
    assert_eq!(m.registers.v[1], 4);
    assert_eq!(m.registers.v[0xf], 1);
}

#[test]
fn test_shr_sets_low_bit() {
    let mut m = build_machine();
    m.registers.v[6] = 0x0B;
    m.execute_opcode(0x8606).unwrap();
    assert_eq!(m.registers.v[6], 5);
    assert_eq!(m.registers.v[0xf], 1);
}

#[test]
fn test_shl_sets_high_bit() {
    let mut m = build_machine();
    m.registers.v[6] = 0x81;
    m.execute_opcode(0x860E).unwrap();
    assert_eq!(m.registers.v[6], 2);
    assert_eq!(m.registers.v[0xf], 1);
}

#[test]
fn test_or_and_xor() {
    let mut m = build_machine();
    m.registers.v[1] = 0b1100;
    m.registers.v[2] = 0b1010;
    m.execute_opcode(0x8121).unwrap();
    assert_eq!(m.registers.v[1], 0b1110);
    m.registers.v[1] = 0b1100;
    m.execute_opcode(0x8122).unwrap();
    assert_eq!(m.registers.v[1], 0b1000);
    m.registers.v[1] = 0b1100;
    m.execute_opcode(0x8123).unwrap();
    assert_eq!(m.registers.v[1], 0b0110);
}

#[test]
fn test_addvxbyte_wraps_without_flag() {
    let mut m = build_machine();
    m.registers.v[2] = 250;
    m.registers.v[0xf] = 7;
    m.execute_opcode(0x720A).unwrap();
    assert_eq!(m.registers.v[2], 4);
    assert_eq!(m.registers.v[0xf], 7);
}

#[test]
fn test_decode_words() {
    assert_eq!(Opcodes::from_bytes(0x00E0), Some(Opcodes::CLS));
    assert_eq!(
        Opcodes::from_bytes(0x1ABC),
        Some(Opcodes::JP(chip8::interpreters::Addr(0xABC)))
    );
    assert_eq!(
        Opcodes::from_bytes(0xD123),
        Some(Opcodes::DRW(
            RegisterN(1),
            RegisterN(2),
            chip8::interpreters::Nibble(3)
        ))
    );
    assert_eq!(Opcodes::from_bytes(0x0120), Some(Opcodes::CLS));
    assert_eq!(Opcodes::from_bytes(0x034E), Some(Opcodes::RET));
    assert_eq!(Opcodes::from_bytes(0x0011), None);
    assert_eq!(Opcodes::from_bytes(0x00A5), None);
    assert_eq!(Opcodes::from_bytes(0x5121), None);
    assert_eq!(Opcodes::from_bytes(0x8128), None);
    assert_eq!(Opcodes::from_bytes(0xF199), None);
}

#[test]
fn test_decode_failure_is_fatal() {
    let mut m = build_machine();
    assert_eq!(m.execute_opcode(0x0011), Err(Fault::DecodeError));
}

#[test]
fn test_ret_underflow() {
    let mut m = build_machine();
    assert_eq!(m.registers.sp, 0);
    assert_eq!(m.execute_opcode(0x00EE), Err(Fault::StackUnderflow));
}

#[test]
fn test_call_overflow() {
    let mut m = build_machine();
    m.registers.sp = 16;
    assert_eq!(m.execute_opcode(0x2200), Err(Fault::StackOverflow));
}

#[test]
fn test_draw_out_of_bounds() {
    let mut m = build_machine();
    m.registers.i = 4090;
    assert_eq!(m.execute_opcode(0xD12F), Err(Fault::OutOfBounds));
}

#[test]
fn test_bcd_out_of_bounds() {
    let mut m = build_machine();
    m.registers.i = 4094;
    assert_eq!(m.execute_opcode(0xF133), Err(Fault::OutOfBounds));
}

#[test]
fn test_call_then_ret_returns_past_call() {
    let mut m = build_machine();
    m.registers.pc = 0x0300;
    let pc = m.execute_opcode(0x2ABC).unwrap();
    assert_eq!(pc, ProgramCounter::Jump(0xABC));
    m.registers.pc = 0xABC;
    let pc = m.execute_opcode(0x00EE).unwrap();
    assert_eq!(pc, ProgramCounter::Jump(0x0302));
    assert_eq!(m.registers.sp, 0);
}

#[test]
fn test_bulk_store_load_round_trip() {
    let mut m = build_machine();
    m.registers.i = 0x300;
    for k in 0..4 {
        m.registers.v[k] = 40 + k as u8;
    }
    m.execute_opcode(0xF355).unwrap();
    assert_eq!(m.registers.i, 0x300);
    for k in 0..4 {
        m.registers.v[k] = 0;
    }
    m.execute_opcode(0xF365).unwrap();
    assert_eq!(m.registers.i, 0x300);
    for k in 0..4 {
        assert_eq!(m.registers.v[k], 40 + k as u8);
    }
}

#[test]
fn test_draw_twice_restores() {
    let mut m = build_machine();
    m.registers.i = 0x400;
    m.memory.value[0x400] = 0x3C;
    m.memory.value[0x401] = 0x42;
    m.registers.v[1] = 10;
    m.registers.v[2] = 20;
    m.execute_opcode(0xD122).unwrap();
    assert_eq!(m.registers.v[0xf], 0);
    assert_eq!(m.display.value[20][12], 1);
    m.execute_opcode(0xD122).unwrap();
    assert_eq!(m.registers.v[0xf], 1);
    for r in 0..32 {
        for c in 0..64 {
            assert_eq!(m.display.value[r][c], 0);
        }
    }
}

#[test]
fn test_draw_wraps_full_byte_at_right_edge() {
    let mut m = build_machine();
    m.registers.i = 0x400;
    m.memory.value[0x400] = 0xFF;
    m.registers.v[1] = 62;
    m.registers.v[2] = 0;
    m.execute_opcode(0xD121).unwrap();
    for c in [62usize, 63, 0, 1, 2, 3, 4, 5] {
        assert_eq!(m.display.value[0][c], 1, "column {}", c);
    }
    for c in 6..62 {
        assert_eq!(m.display.value[0][c], 0);
    }
}

#[test]
fn test_glyph_seven_address_and_bytes() {
    assert_eq!(Memory::query_hex_location(7), Some(35));
    assert_eq!(Memory::query_hex_location(16), None);
    let mem = Memory::empty();
    let seven = glyph_bytes(7);
    assert_eq!(&mem.value[35..40], &seven[..]);
    assert_eq!(seven, vec![0xF0, 0x10, 0x20, 0x40, 0x40]);
}

#[test]
fn test_cls_clears_pixels() {
    let mut m = build_machine();
    m.registers.i = 0x400;
    m.memory.value[0x400] = 0xFF;
    m.execute_opcode(0xD121).unwrap();
    assert_eq!(m.display.value[0][0], 1);
    m.execute_opcode(0x00E0).unwrap();
    for r in 0..32 {
        for c in 0..64 {
            assert_eq!(m.display.value[r][c], 0);
        }
    }
}

#[test]
fn test_rnd_masked_to_zero() {
    let mut m = build_machine();
    m.registers.v[1] = 0xAA;
    m.execute_opcode(0xC100).unwrap();
    assert_eq!(m.registers.v[1], 0);
    m.execute_opcode(0xC20F).unwrap();
    assert!(m.registers.v[2] < 16);
}

#[test]
fn test_skp_sknp() {
    let mut m = build_machine();
    m.keypad[5] = true;
    m.registers.v[1] = 5;
    assert_eq!(m.execute_opcode(0xE19E).unwrap(), ProgramCounter::Skip(true));
    assert_eq!(m.execute_opcode(0xE1A1).unwrap(), ProgramCounter::Skip(false));
    m.registers.v[1] = 6;
    assert_eq!(m.execute_opcode(0xE19E).unwrap(), ProgramCounter::Skip(false));
    m.registers.v[1] = 200;
    assert_eq!(m.execute_opcode(0xE19E), Err(Fault::OutOfBounds));
}

#[test]
fn test_wait_for_key_suspends_until_press() {
    let mut m = build_machine();
    m.registers.pc = 0x0220;
    assert_eq!(
        m.execute_opcode(0xF10A).unwrap(),
        ProgramCounter::Jump(0x0220)
    );
    m.last_pressed = Some(0xB);
    assert_eq!(m.execute_opcode(0xF10A).unwrap(), ProgramCounter::Next);
    assert_eq!(m.registers.v[1], 0xB);
}

#[test]
fn test_ldi_addi_flag_convention() {
    let mut m = build_machine();
    m.execute_opcode(0xAFFF).unwrap();
    assert_eq!(m.registers.i, 0xFFF);
    m.registers.v[1] = 2;
    m.execute_opcode(0xF11E).unwrap();
    assert_eq!(m.registers.i, 0x1001);
    assert_eq!(m.registers.v[0xf], 1);
    m.execute_opcode(0xA100).unwrap();
    m.registers.v[1] = 1;
    m.execute_opcode(0xF11E).unwrap();
    assert_eq!(m.registers.i, 0x101);
    assert_eq!(m.registers.v[0xf], 0);
}

#[test]
fn test_ldsprite_ignores_non_digit() {
    let mut m = build_machine();
    m.registers.i = 0x321;
    m.registers.v[1] = 0x42;
    m.execute_opcode(0xF129).unwrap();
    assert_eq!(m.registers.i, 0x321);
}

#[test]
fn test_jpv0() {
    let mut m = build_machine();
    m.registers.v[0] = 0x10;
    assert_eq!(m.execute_opcode(0xB200).unwrap(), ProgramCounter::Jump(0x210));
}

#[test]
fn test_ld_registers_and_timers() {
    let mut m = build_machine();
    m.registers.v[2] = 77;
    m.execute_opcode(0x8120).unwrap();
    assert_eq!(m.registers.v[1], 77);
    m.execute_opcode(0xF215).unwrap();
    assert_eq!(m.delay_timer.get(), 77);
    m.execute_opcode(0xF218).unwrap();
    assert_eq!(m.sound_timer.get(), 77);
}

#[test]
fn test_delay_timer_saturates_at_zero() {
    let mut t = DelayTimer { value: 1 };
    t.decrement();
    assert_eq!(t.get(), 0);
    t.decrement();
    assert_eq!(t.get(), 0);
    t.set(3);
    assert_eq!(t.get(), 3);
}

#[test]
fn test_memory_load_truncates() {
    let mut mem = Memory::empty();
    let image = vec![0x77u8; 4000];
    mem.load(&image);
    assert_eq!(mem.value[0x200], 0x77);
    assert_eq!(mem.value[4095], 0x77);
    assert_eq!(mem.value[0x1FF], 0);
    let seven = glyph_bytes(7);
    assert_eq!(&mem.value[35..40], &seven[..]);
}

#[test]
fn test_read_instruction_big_endian() {
    let mut mem = Memory::empty();
    mem.value[0x200] = 0x12;
    mem.value[0x201] = 0x34;
    assert_eq!(mem.read_instruction(0x200), 0x1234);
}

#[test]
fn test_step_executes_and_counts_down() {
    let mut m = build_machine();
    m.delay_timer.set(2);
    m.sound_timer.set(1);
    m.memory.value[0x200] = 0x61;
    m.memory.value[0x201] = 0x2A;
    assert_eq!(m.step(), Ok(true));
    assert_eq!(m.registers.v[1], 0x2A);
    assert_eq!(m.registers.pc, 0x202);
    assert_eq!(m.delay_timer.get(), 1);
    assert_eq!(m.sound_timer.get(), 0);
    m.input_driver.terminate = true;
    assert_eq!(m.step(), Ok(false));
    assert_eq!(m.registers.pc, 0x202);
}

#[test]
fn test_step_skip_advances_twice() {
    let mut m = build_machine();
    m.registers.v[1] = 0x22;
    m.memory.value[0x200] = 0x31;
    m.memory.value[0x201] = 0x22;
    assert_eq!(m.step(), Ok(true));
    assert_eq!(m.registers.pc, 0x204);
}

#[test]
fn test_step_faults_on_runaway_pc() {
    let mut m = build_machine();
    m.registers.pc = 4095;
    assert_eq!(m.step(), Err(Fault::OutOfBounds));
}

#[test]
fn test_keypad_new_empty() {
    let k = Keypad::new();
    assert_eq!(k.keypad, [false; 16]);
    assert_eq!(k.last_pressed, None);
}

#[test]
fn test_game_pixels_start_dark() {
    let p = GamePixels::new();
    for r in 0..32 {
        for c in 0..64 {
            assert_eq!(p.value[r][c], 0);
        }
    }
}

#[test]
fn test_fill_in_bytes_reports_collision() {
    let mut p = GamePixels::new();
    let sprite = [0x80u8];
    assert!(!p.fill_in_bytes(&sprite, (0, 0)));
    assert_eq!(p.value[0][0], 1);
    assert!(p.fill_in_bytes(&sprite, (0, 0)));
    assert_eq!(p.value[0][0], 0);
}

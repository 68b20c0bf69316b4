use chip8::cpu::Chip8VM;
use chip8::display_buffer::{DisplayBuffer, BG_COLOR, HEIGHT, PIXEL_COLOR, WIDTH};

fn machine(program: &[u8]) -> (Chip8VM, DisplayBuffer) {
    let mut vm = Chip8VM::new();
    vm.load(program.to_vec());
    (vm, DisplayBuffer(vec![BG_COLOR; WIDTH * HEIGHT]))
}

fn run(vm: &mut Chip8VM, buffer: &mut DisplayBuffer, steps: usize) {
    for _ in 0..steps {
        assert!(vm.can_exec(buffer));
        vm.exec(buffer);
    }
}

fn cell(buffer: &DisplayBuffer, col: usize, row: usize) -> u32 {
    buffer.0[row * WIDTH + col]
}

#[test]
fn new_machine_is_cleared() {
    let vm = Chip8VM::new();
    assert_eq!(vm.delay_timer, 0);
    assert_eq!(vm.sound_timer, 0);
    assert_eq!(vm.keys, [false; 16]);
    assert!(!vm.draw);
}

#[test]
fn load_register_into_delay_timer() {
    let (mut vm, mut buffer) = machine(&[0x60, 0x2A, 0xF0, 0x15, 0xF1, 0x18]);
    run(&mut vm, &mut buffer, 3);
    assert_eq!(vm.delay_timer, 0x2A);
    assert_eq!(vm.sound_timer, 0);
}

#[test]
fn add_byte_wraps() {
    let (mut vm, mut buffer) = machine(&[0x60, 0xFF, 0x70, 0x02, 0xF0, 0x15]);
    run(&mut vm, &mut buffer, 3);
    assert_eq!(vm.delay_timer, 1);
}

#[test]
fn add_registers_sets_carry() {
    // V0 = 0xFF + 0x03 = 0x02, VF = 1
    let prog = [0x60, 0xFF, 0x61, 0x03, 0x80, 0x14, 0xF0, 0x15, 0xFF, 0x18];
    let (mut vm, mut buffer) = machine(&prog);
    run(&mut vm, &mut buffer, 5);
    assert_eq!(vm.delay_timer, 2);
    assert_eq!(vm.sound_timer, 1);
}

#[test]
fn add_registers_without_carry() {
    let prog = [0x60, 0x10, 0x61, 0x20, 0x80, 0x14, 0xF0, 0x15, 0xFF, 0x18];
    let (mut vm, mut buffer) = machine(&prog);
    run(&mut vm, &mut buffer, 5);
    assert_eq!(vm.delay_timer, 0x30);
    assert_eq!(vm.sound_timer, 0);
}

#[test]
fn subtract_registers_wraps_and_flags() {
    // V0 = 5 - 7 = 254, VF = 0 since V0 was not greater
    let prog = [0x60, 0x05, 0x61, 0x07, 0x80, 0x15, 0xF0, 0x15, 0xFF, 0x18];
    let (mut vm, mut buffer) = machine(&prog);
    run(&mut vm, &mut buffer, 5);
    assert_eq!(vm.delay_timer, 254);
    assert_eq!(vm.sound_timer, 0);
}

#[test]
fn subtract_registers_greater() {
    let prog = [0x60, 0x09, 0x61, 0x02, 0x80, 0x15, 0xF0, 0x15, 0xFF, 0x18];
    let (mut vm, mut buffer) = machine(&prog);
    run(&mut vm, &mut buffer, 5);
    assert_eq!(vm.delay_timer, 7);
    assert_eq!(vm.sound_timer, 1);
}

#[test]
fn reverse_subtract() {
    // V0 = V1 - V0 = 9 - 2 = 7, VF = 1 since V1 > V0
    let prog = [0x60, 0x02, 0x61, 0x09, 0x80, 0x17, 0xF0, 0x15, 0xFF, 0x18];
    let (mut vm, mut buffer) = machine(&prog);
    run(&mut vm, &mut buffer, 5);
    assert_eq!(vm.delay_timer, 7);
    assert_eq!(vm.sound_timer, 1);
}

#[test]
fn reverse_subtract_wraps() {
    // V0 = V1 - V0 = 2 - 9 = 249 modulo 256, VF = 0 since V1 is not greater
    let prog = [0x60, 0x09, 0x61, 0x02, 0x80, 0x17, 0xF0, 0x15, 0xFF, 0x18];
    let (mut vm, mut buffer) = machine(&prog);
    run(&mut vm, &mut buffer, 5);
    assert_eq!(vm.delay_timer, 249);
    assert_eq!(vm.sound_timer, 0);
}

#[test]
fn shift_right_keeps_low_bit_in_flag() {
    let prog = [0x60, 0x07, 0x80, 0x06, 0xF0, 0x15, 0xFF, 0x18];
    let (mut vm, mut buffer) = machine(&prog);
    run(&mut vm, &mut buffer, 4);
    assert_eq!(vm.delay_timer, 3);
    assert_eq!(vm.sound_timer, 1);
}

#[test]
fn shift_left_doubles() {
    let prog = [0x60, 0x41, 0x80, 0x0E, 0xF0, 0x15, 0xFF, 0x18];
    let (mut vm, mut buffer) = machine(&prog);
    run(&mut vm, &mut buffer, 4);
    assert_eq!(vm.delay_timer, 0x82);
    assert_eq!(vm.sound_timer, 0);
}

#[test]
fn shift_left_drops_top_bit() {
    // V0 = 0x81 * 2 modulo 256 = 0x02, VF = 1 (the top bit of 0x81)
    let prog = [0x60, 0x81, 0x80, 0x0E, 0xF0, 0x15, 0xFF, 0x18];
    let (mut vm, mut buffer) = machine(&prog);
    run(&mut vm, &mut buffer, 4);
    assert_eq!(vm.delay_timer, 0x02);
    assert_eq!(vm.sound_timer, 1);
}

#[test]
fn bitwise_operations() {
    // V0 = 0b1100 | 0b1010, then & 0b0110, then ^ 0b0011
    let prog = [
        0x60, 0x0C, 0x61, 0x0A, 0x80, 0x11, 0x61, 0x06, 0x80, 0x12, 0x61, 0x03, 0x80, 0x13, 0xF0,
        0x15,
    ];
    let (mut vm, mut buffer) = machine(&prog);
    run(&mut vm, &mut buffer, 8);
    assert_eq!(vm.delay_timer, ((0x0C | 0x0A) & 0x06) ^ 0x03);
}

#[test]
fn skip_if_equal_byte() {
    let prog = [0x60, 0x05, 0x30, 0x05, 0x60, 0x09, 0xF0, 0x15];
    let (mut vm, mut buffer) = machine(&prog);
    run(&mut vm, &mut buffer, 3);
    assert_eq!(vm.delay_timer, 5);
}

#[test]
fn skip_if_not_equal_byte() {
    let prog = [0x60, 0x05, 0x40, 0x05, 0x60, 0x09, 0xF0, 0x15];
    let (mut vm, mut buffer) = machine(&prog);
    run(&mut vm, &mut buffer, 4);
    assert_eq!(vm.delay_timer, 9);
}

#[test]
fn skip_if_registers_equal() {
    let prog = [0x60, 0x03, 0x61, 0x03, 0x50, 0x10, 0x60, 0x09, 0xF0, 0x15];
    let (mut vm, mut buffer) = machine(&prog);
    run(&mut vm, &mut buffer, 4);
    assert_eq!(vm.delay_timer, 3);
}

#[test]
fn nine_skips_when_registers_differ() {
    let prog = [0x60, 0x03, 0x61, 0x04, 0x90, 0x10, 0x60, 0x09, 0xF0, 0x15];
    let (mut vm, mut buffer) = machine(&prog);
    run(&mut vm, &mut buffer, 4);
    assert_eq!(vm.delay_timer, 3);
}

#[test]
fn nine_does_not_skip_when_registers_equal() {
    let prog = [0x60, 0x03, 0x61, 0x03, 0x90, 0x10, 0x60, 0x09, 0xF0, 0x15];
    let (mut vm, mut buffer) = machine(&prog);
    run(&mut vm, &mut buffer, 5);
    assert_eq!(vm.delay_timer, 9);
}

#[test]
fn jump_and_jump_with_offset() {
    // 0x200: JP 0x206; 0x206: V0 = 2; BNNN to 0x20A + 2 = 0x20C: DT = V0
    let prog = [
        0x12, 0x06, 0x60, 0x09, 0x00, 0x00, 0x60, 0x02, 0xB2, 0x0A, 0x00, 0x00, 0xF0, 0x15,
    ];
    let (mut vm, mut buffer) = machine(&prog);
    run(&mut vm, &mut buffer, 4);
    assert_eq!(vm.delay_timer, 2);
}

#[test]
fn call_and_return() {
    // 0x200: CALL 0x206; 0x202: DT = V0; 0x204: JP 0x204
    // 0x206: V0 = 0x2A; 0x208: RET
    let prog = [0x22, 0x06, 0xF0, 0x15, 0x12, 0x04, 0x60, 0x2A, 0x00, 0xEE];
    let (mut vm, mut buffer) = machine(&prog);
    run(&mut vm, &mut buffer, 4);
    assert_eq!(vm.delay_timer, 0x2A);
}

#[test]
fn call_depth_is_bounded() {
    // calls itself: the stack has room for four return addresses
    let prog = [0x22, 0x00];
    let (mut vm, mut buffer) = machine(&prog);
    run(&mut vm, &mut buffer, 4);
    assert!(!vm.can_exec(&buffer));
}

#[test]
fn return_without_call_reads_stack_then_underflows() {
    let prog = [0x00, 0xEE];
    let (mut vm, mut buffer) = machine(&prog);
    assert!(vm.can_exec(&buffer));
    vm.exec(&mut buffer);
    // the empty stack holds address 0, where memory is zero: 0000 is unknown
    assert!(!vm.can_exec(&buffer));
}

#[test]
fn unknown_instructions_are_refused() {
    for prog in [[0x00, 0x00], [0x80, 0x08], [0xE0, 0x00], [0xF0, 0x00]] {
        let (vm, buffer) = machine(&prog);
        assert!(!vm.can_exec(&buffer));
    }
}

#[test]
fn decimal_digits_then_load_registers() {
    // V0 = 254; I = 0x300; BCD; load V0..V2; DT = V0, ST = V1, then DT = V2
    let prog = [
        0x60, 0xFE, 0xA3, 0x00, 0xF0, 0x33, 0xF2, 0x65, 0xF0, 0x15, 0xF1, 0x18,
    ];
    let (mut vm, mut buffer) = machine(&prog);
    run(&mut vm, &mut buffer, 6);
    assert_eq!(vm.delay_timer, 2);
    assert_eq!(vm.sound_timer, 5);
    let (mut vm, mut buffer) = machine(&[
        0x60, 0xFE, 0xA3, 0x00, 0xF0, 0x33, 0xF2, 0x65, 0xF2, 0x15,
    ]);
    run(&mut vm, &mut buffer, 5);
    assert_eq!(vm.delay_timer, 4);
}

#[test]
fn store_then_load_registers() {
    // V0 = 0x11, V1 = 0x22; store at 0x300; clear both; load back; DT = V1
    let prog = [
        0x60, 0x11, 0x61, 0x22, 0xA3, 0x00, 0xF1, 0x55, 0x60, 0x00, 0x61, 0x00, 0xF1, 0x65, 0xF1,
        0x15, 0xF0, 0x18,
    ];
    let (mut vm, mut buffer) = machine(&prog);
    run(&mut vm, &mut buffer, 9);
    assert_eq!(vm.delay_timer, 0x22);
    assert_eq!(vm.sound_timer, 0x11);
}

#[test]
fn add_to_index_register() {
    // I = 0x300; V0 = 4; I += V0; store V1 (= 7) at 0x304; I = 0x304; load V2
    let prog = [
        0xA3, 0x00, 0x60, 0x04, 0xF0, 0x1E, 0x61, 0x07, 0x60, 0x07, 0xF0, 0x55, 0xA3, 0x04, 0xF0,
        0x65, 0xF0, 0x15,
    ];
    let (mut vm, mut buffer) = machine(&prog);
    run(&mut vm, &mut buffer, 9);
    assert_eq!(vm.delay_timer, 7);
}

#[test]
fn delay_timer_to_register() {
    // DT = 9; V1 = DT; tick; DT = V1 gives 9 again
    let prog = [0x60, 0x09, 0xF0, 0x15, 0xF1, 0x07, 0xF1, 0x15];
    let (mut vm, mut buffer) = machine(&prog);
    run(&mut vm, &mut buffer, 3);
    vm.tick_timers();
    assert_eq!(vm.delay_timer, 8);
    run(&mut vm, &mut buffer, 1);
    assert_eq!(vm.delay_timer, 9);
}

#[test]
fn timers_tick_down_to_zero() {
    let prog = [0x60, 0x02, 0xF0, 0x15, 0x61, 0x01, 0xF1, 0x18];
    let (mut vm, mut buffer) = machine(&prog);
    run(&mut vm, &mut buffer, 4);
    vm.tick_timers();
    assert_eq!((vm.delay_timer, vm.sound_timer), (1, 0));
    vm.tick_timers();
    vm.tick_timers();
    assert_eq!((vm.delay_timer, vm.sound_timer), (0, 0));
}

#[test]
fn draw_font_digit_and_collide() {
    // I = 0x50 (digit 0); draw at (V0, V1) = (0, 0); draw again; ST = VF
    let prog = [0xA0, 0x50, 0xD0, 0x15, 0xF0, 0x0F];
    let (mut vm, mut buffer) = machine(&prog[..4]);
    run(&mut vm, &mut buffer, 2);
    assert!(vm.draw);
    for col in 0..4 {
        assert_eq!(cell(&buffer, col, 0), PIXEL_COLOR);
        assert_eq!(cell(&buffer, col, 4), PIXEL_COLOR);
    }
    assert_eq!(cell(&buffer, 0, 2), PIXEL_COLOR);
    assert_eq!(cell(&buffer, 1, 2), BG_COLOR);
    assert_eq!(cell(&buffer, 3, 2), PIXEL_COLOR);
    assert_eq!(cell(&buffer, 4, 0), BG_COLOR);

    let prog = [0xA0, 0x50, 0xD0, 0x15, 0xD0, 0x15, 0xFF, 0x18];
    let (mut vm, mut buffer) = machine(&prog);
    run(&mut vm, &mut buffer, 4);
    assert_eq!(vm.sound_timer, 1);
    assert!(buffer.0.iter().all(|&c| c == BG_COLOR));
}

#[test]
fn draw_wraps_start_coordinates() {
    // V0 = 66 (column 2), V1 = 33 (row 1); one row of 0x80
    let prog = [0x60, 0x42, 0x61, 0x21, 0xA3, 0x00, 0xF0, 0x55, 0xA3, 0x00, 0xD0, 0x11];
    // memory at 0x300 receives V0 = 0x42: the sprite row 0b0100_0010
    let (mut vm, mut buffer) = machine(&prog);
    run(&mut vm, &mut buffer, 6);
    assert_eq!(cell(&buffer, 3, 1), PIXEL_COLOR);
    assert_eq!(cell(&buffer, 8, 1), PIXEL_COLOR);
    let lit = buffer.0.iter().filter(|&&c| c == PIXEL_COLOR).count();
    assert_eq!(lit, 2);
}

#[test]
fn font_index_register_points_at_glyph() {
    // V0 = 0x1A: digit A (low nibble); I = 0x50 + 5 * 0xA; draw it at (0, 0)
    let prog = [0x60, 0x1A, 0xF0, 0x29, 0xD1, 0x25];
    let (mut vm, mut buffer) = machine(&prog);
    run(&mut vm, &mut buffer, 3);
    // glyph A: F0 90 F0 90 90
    for col in 0..4 {
        assert_eq!(cell(&buffer, col, 0), PIXEL_COLOR);
        assert_eq!(cell(&buffer, col, 2), PIXEL_COLOR);
    }
    for row in [1, 3, 4] {
        assert_eq!(cell(&buffer, 0, row), PIXEL_COLOR);
        assert_eq!(cell(&buffer, 1, row), BG_COLOR);
        assert_eq!(cell(&buffer, 2, row), BG_COLOR);
        assert_eq!(cell(&buffer, 3, row), PIXEL_COLOR);
    }
    let lit = buffer.0.iter().filter(|&&c| c == PIXEL_COLOR).count();
    assert_eq!(lit, 4 + 4 + 2 * 3);
}

#[test]
fn clear_screen_sets_draw() {
    let prog = [0xA0, 0x50, 0xD0, 0x05, 0x00, 0xE0];
    let (mut vm, mut buffer) = machine(&prog);
    run(&mut vm, &mut buffer, 2);
    vm.draw = false;
    run(&mut vm, &mut buffer, 1);
    assert!(vm.draw);
    assert_eq!(buffer.0.len(), WIDTH * HEIGHT);
    assert!(buffer.0.iter().all(|&c| c == BG_COLOR));
}

#[test]
fn skip_if_key_down() {
    let prog = [0x60, 0x05, 0xE0, 0x9E, 0x60, 0x09, 0xF0, 0x15];
    let (mut vm, mut buffer) = machine(&prog);
    vm.keys[5] = true;
    run(&mut vm, &mut buffer, 3);
    assert_eq!(vm.delay_timer, 5);

    let (mut vm, mut buffer) = machine(&prog);
    run(&mut vm, &mut buffer, 4);
    assert_eq!(vm.delay_timer, 9);
}

#[test]
fn skip_if_key_up() {
    let prog = [0x60, 0x05, 0xE0, 0xA1, 0x60, 0x09, 0xF0, 0x15];
    let (mut vm, mut buffer) = machine(&prog);
    run(&mut vm, &mut buffer, 3);
    assert_eq!(vm.delay_timer, 5);

    let (mut vm, mut buffer) = machine(&prog);
    vm.keys[5] = true;
    run(&mut vm, &mut buffer, 4);
    assert_eq!(vm.delay_timer, 9);
}

#[test]
fn key_beyond_keypad_is_never_down() {
    let prog = [0x60, 0x25, 0xE0, 0x9E, 0x60, 0x09, 0xF0, 0x15];
    let (mut vm, mut buffer) = machine(&prog);
    vm.keys = [true; 16];
    run(&mut vm, &mut buffer, 4);
    assert_eq!(vm.delay_timer, 9);
}

#[test]
fn wait_for_key() {
    let prog = [0xF3, 0x0A, 0xF3, 0x15];
    let (mut vm, mut buffer) = machine(&prog);
    run(&mut vm, &mut buffer, 3);
    assert_eq!(vm.delay_timer, 0);
    vm.keys[0xB] = true;
    vm.keys[0x7] = true;
    run(&mut vm, &mut buffer, 2);
    assert_eq!(vm.delay_timer, 7);
}

#[test]
fn random_byte_is_masked() {
    for _ in 0..50 {
        let prog = [0xC0, 0xF0, 0xF0, 0x15, 0xC1, 0x00, 0xF1, 0x18];
        let (mut vm, mut buffer) = machine(&prog);
        vm.sound_timer = 3;
        run(&mut vm, &mut buffer, 4);
        assert_eq!(vm.delay_timer & 0x0F, 0);
        assert_eq!(vm.sound_timer, 0);
    }
}

#[test]
fn exec_with_uses_given_byte() {
    let prog = [0xC0, 0x0F, 0xF0, 0x15];
    let (mut vm, mut buffer) = machine(&prog);
    vm.exec_with(&mut buffer, 0xAB);
    vm.exec_with(&mut buffer, 0xFF);
    assert_eq!(vm.delay_timer, 0x0B);
}

#[test]
fn fetch_past_memory_is_refused() {
    let prog = [0x1F, 0xFF];
    let (mut vm, mut buffer) = machine(&prog);
    run(&mut vm, &mut buffer, 1);
    assert!(!vm.can_exec(&buffer));
}

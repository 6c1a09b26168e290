//! Behavioral tests of the machine: construction, loading, stepping
//! through each instruction family, timers, input and the distinguished
//! errors.

use chip8_core::Machine;
use chip8_core::MachineError;

fn machine_with(program: &[u8]) -> Machine {
    let mut m = Machine::new();
    m.load(program).expect("program fits in memory");
    m
}

#[test]
fn new_machine_initial_state() {
    let m = Machine::new();
    assert_eq!(m.get_pc(), 0x200);
    assert_eq!(m.get_index_reg(), 0);
    assert_eq!(m.get_delay(), 0);
    assert_eq!(m.get_sound(), 0);
    assert_eq!(m.stack_depth(), 0);
    for i in 0..16 {
        assert_eq!(m.get_reg(i), 0);
    }
    let display = m.get_display();
    assert_eq!(display.len(), 64 * 32);
    for p in 0..display.len() {
        assert!(!display[p]);
    }
    // the glyph table occupies the first 80 bytes of memory
    assert_eq!(m.read_ram(0), 0xF0);
    assert_eq!(m.read_ram(4), 0xF0);
    assert_eq!(m.read_ram(79), 0x80);
    assert_eq!(m.read_ram(80), 0);
    assert_eq!(m.read_ram(0x200), 0);
}

#[test]
fn load_copies_exactly_the_image() {
    let mut m = Machine::new();
    m.load(&[1, 2, 3]).unwrap();
    assert_eq!(m.read_ram(0x200), 1);
    assert_eq!(m.read_ram(0x201), 2);
    assert_eq!(m.read_ram(0x202), 3);
    assert_eq!(m.read_ram(0x203), 0);
    assert_eq!(m.read_ram(0x1FF), 0);
}

#[test]
fn load_rejects_an_image_that_does_not_fit() {
    let mut m = Machine::new();
    let image = vec![0xAAu8; 4096 - 0x200 + 1];
    assert_eq!(m.load(&image), Err(MachineError::AddressOutOfRange));
    // the machine is unchanged
    assert_eq!(m.read_ram(0x200), 0);
    let largest = vec![0xBBu8; 4096 - 0x200];
    assert_eq!(m.load(&largest), Ok(()));
    assert_eq!(m.read_ram(0xFFF), 0xBB);
}

#[test]
fn tick_advances_pc_and_sets_register() {
    let mut m = machine_with(&[0x61, 0xAB]);
    m.tick().unwrap();
    assert_eq!(m.get_pc(), 0x202);
    assert_eq!(m.get_reg(1), 0xAB);
}

#[test]
fn add_with_carry_sets_vf_and_wraps() {
    // V1 = 250, V2 = 10, V1 += V2 with carry
    let mut m = machine_with(&[0x61, 0xFA, 0x62, 0x0A, 0x81, 0x24]);
    m.tick().unwrap();
    m.tick().unwrap();
    m.tick().unwrap();
    assert_eq!(m.get_reg(1), 4); // (250 + 10) mod 256
    assert_eq!(m.get_reg(0xF), 1);
}

#[test]
fn add_without_carry_clears_vf() {
    let mut m = machine_with(&[0x61, 0x0A, 0x62, 0x14, 0x81, 0x24]);
    m.tick().unwrap();
    m.tick().unwrap();
    m.tick().unwrap();
    assert_eq!(m.get_reg(1), 30);
    assert_eq!(m.get_reg(0xF), 0);
}

#[test]
fn sub_with_borrow_clears_vf_and_wraps() {
    // V1 = 5, V2 = 10, V1 -= V2: borrow, VF = 0
    let mut m = machine_with(&[0x61, 0x05, 0x62, 0x0A, 0x81, 0x25]);
    m.tick().unwrap();
    m.tick().unwrap();
    m.tick().unwrap();
    assert_eq!(m.get_reg(1), 251); // (5 - 10) mod 256
    assert_eq!(m.get_reg(0xF), 0);
}

#[test]
fn sub_without_borrow_sets_vf() {
    let mut m = machine_with(&[0x61, 0x0A, 0x62, 0x05, 0x81, 0x25]);
    m.tick().unwrap();
    m.tick().unwrap();
    m.tick().unwrap();
    assert_eq!(m.get_reg(1), 5);
    assert_eq!(m.get_reg(0xF), 1);
}

#[test]
fn reverse_sub_sets_vf_on_borrow() {
    // V1 = 10, V2 = 5, V1 = V2 - V1: borrow, VF = 1
    let mut m = machine_with(&[0x61, 0x0A, 0x62, 0x05, 0x81, 0x27]);
    m.tick().unwrap();
    m.tick().unwrap();
    m.tick().unwrap();
    assert_eq!(m.get_reg(1), 251);
    assert_eq!(m.get_reg(0xF), 1);
}

#[test]
fn logic_and_copy_instructions() {
    let mut m = machine_with(&[
        0x61, 0x0C, // V1 = 0b1100
        0x62, 0x0A, // V2 = 0b1010
        0x83, 0x10, // V3 = V1
        0x83, 0x21, // V3 |= V2
        0x84, 0x10, // V4 = V1
        0x84, 0x22, // V4 &= V2
        0x85, 0x10, // V5 = V1
        0x85, 0x23, // V5 ^= V2
        0x71, 0x01, // V1 += 1
    ]);
    for _ in 0..9 {
        m.tick().unwrap();
    }
    assert_eq!(m.get_reg(3), 0b1110);
    assert_eq!(m.get_reg(4), 0b1000);
    assert_eq!(m.get_reg(5), 0b0110);
    assert_eq!(m.get_reg(1), 0x0D);
}

#[test]
fn add_immediate_wraps() {
    let mut m = machine_with(&[0x61, 0xFF, 0x71, 0x02]);
    m.tick().unwrap();
    m.tick().unwrap();
    assert_eq!(m.get_reg(1), 1);
}

#[test]
fn shifts_report_the_moved_bit() {
    let mut m = machine_with(&[0x61, 0x05, 0x81, 0x06]);
    m.tick().unwrap();
    m.tick().unwrap();
    assert_eq!(m.get_reg(1), 2);
    assert_eq!(m.get_reg(0xF), 1);
    let mut m2 = machine_with(&[0x61, 0x81, 0x81, 0x0E]);
    m2.tick().unwrap();
    m2.tick().unwrap();
    assert_eq!(m2.get_reg(1), 2);
    assert_eq!(m2.get_reg(0xF), 1);
}

#[test]
fn skip_instructions_move_pc_past_one_instruction() {
    // 3XKK skips when equal
    let mut m = machine_with(&[0x61, 0x05, 0x31, 0x05]);
    m.tick().unwrap();
    m.tick().unwrap();
    assert_eq!(m.get_pc(), 0x206);
    // 4XKK skips when unequal
    let mut m2 = machine_with(&[0x61, 0x05, 0x41, 0x05]);
    m2.tick().unwrap();
    m2.tick().unwrap();
    assert_eq!(m2.get_pc(), 0x204);
    // 5XY0 skips when registers are equal
    let mut m3 = machine_with(&[0x61, 0x05, 0x62, 0x05, 0x51, 0x20]);
    m3.tick().unwrap();
    m3.tick().unwrap();
    m3.tick().unwrap();
    assert_eq!(m3.get_pc(), 0x208);
    // 9XY0 skips when registers differ
    let mut m4 = machine_with(&[0x61, 0x05, 0x62, 0x06, 0x91, 0x20]);
    m4.tick().unwrap();
    m4.tick().unwrap();
    m4.tick().unwrap();
    assert_eq!(m4.get_pc(), 0x208);
}

#[test]
fn jumps_set_pc() {
    let mut m = machine_with(&[0x12, 0x34]);
    m.tick().unwrap();
    assert_eq!(m.get_pc(), 0x234);
    let mut m2 = machine_with(&[0x60, 0x10, 0xB3, 0x00]);
    m2.tick().unwrap();
    m2.tick().unwrap();
    assert_eq!(m2.get_pc(), 0x310);
}

#[test]
fn index_register_instructions() {
    let mut m = machine_with(&[0xA1, 0x23, 0x61, 0x05, 0xF1, 0x1E]);
    m.tick().unwrap();
    assert_eq!(m.get_index_reg(), 0x123);
    m.tick().unwrap();
    m.tick().unwrap();
    assert_eq!(m.get_index_reg(), 0x128);
}

#[test]
fn glyph_address_is_five_bytes_per_digit() {
    let mut m = machine_with(&[0x61, 0x07, 0xF1, 0x29]);
    m.tick().unwrap();
    m.tick().unwrap();
    assert_eq!(m.get_index_reg(), 35);
    // that address holds the first row of the glyph for digit 7
    assert_eq!(m.read_ram(35), 0xF0);
}

#[test]
fn clear_screen_blanks_every_cell() {
    // draw the glyph for 0 at (0, 0), then clear
    let mut m = machine_with(&[0xA0, 0x00, 0xD0, 0x05, 0x00, 0xE0]);
    m.tick().unwrap();
    m.tick().unwrap();
    assert!(m.get_display()[0]); // something was drawn
    m.tick().unwrap();
    let display = m.get_display();
    for p in 0..display.len() {
        assert!(!display[p]);
    }
}

#[test]
fn draw_twice_restores_and_reports_collision() {
    // index at sprite data inside the program, drawn twice at (0, 0)
    let mut m = machine_with(&[
        0xA2, 0x0A, 0xD0, 0x05, 0xD0, 0x05, 0x00, 0x00, 0x00, 0x00, 0xF0, 0x90, 0x90, 0x90, 0xF0,
    ]);
    m.tick().unwrap();
    m.tick().unwrap();
    // first draw: glyph-shaped pixels on, no collision
    assert!(m.get_display()[0]);
    assert!(m.get_display()[1]);
    assert!(!m.get_display()[4]);
    assert_eq!(m.get_reg(0xF), 0);
    m.tick().unwrap();
    // second identical draw: every pixel toggled back, collision reported
    let display = m.get_display();
    for p in 0..display.len() {
        assert!(!display[p]);
    }
    assert_eq!(m.get_reg(0xF), 1);
}

#[test]
fn sprite_wraps_at_the_right_edge() {
    // a one-row sprite with its two leftmost bits set, drawn at column 63
    let mut m = machine_with(&[0x60, 0x3F, 0x61, 0x00, 0xA2, 0x08, 0xD0, 0x11, 0xC0, 0x00]);
    m.tick().unwrap();
    m.tick().unwrap();
    m.tick().unwrap();
    m.tick().unwrap();
    let display = m.get_display();
    assert!(display[63]); // column 63, row 0
    assert!(display[0]); // wrapped to column 0, row 0
    for p in 1..63 {
        assert!(!display[p]);
    }
}

#[test]
fn call_then_return_restores_pc_after_the_call() {
    let mut m = machine_with(&[0x22, 0x04, 0x00, 0x00, 0x00, 0xEE]);
    m.tick().unwrap();
    assert_eq!(m.get_pc(), 0x204);
    assert_eq!(m.stack_depth(), 1);
    m.tick().unwrap();
    assert_eq!(m.get_pc(), 0x202);
    assert_eq!(m.stack_depth(), 0);
}

#[test]
fn returning_with_an_empty_stack_is_a_distinguished_error() {
    let mut m = machine_with(&[0x00, 0xEE]);
    assert_eq!(m.tick(), Err(MachineError::StackUnderflow));
    // the machine is left unchanged
    assert_eq!(m.get_pc(), 0x200);
}

#[test]
fn pop_on_an_empty_stack_is_a_distinguished_error() {
    let mut m = Machine::new();
    assert_eq!(m.pop(), Err(MachineError::StackUnderflow));
}

#[test]
fn push_and_pop_are_last_in_first_out() {
    let mut m = Machine::new();
    m.push(0x123);
    m.push(0x456);
    assert_eq!(m.stack_depth(), 2);
    assert_eq!(m.pop(), Ok(0x456));
    assert_eq!(m.pop(), Ok(0x123));
    assert_eq!(m.pop(), Err(MachineError::StackUnderflow));
}

#[test]
fn timers_decrement_and_stop_at_zero() {
    let mut m = machine_with(&[0x61, 0x02, 0xF1, 0x15, 0xF1, 0x18]);
    m.tick().unwrap();
    m.tick().unwrap();
    m.tick().unwrap();
    assert_eq!(m.get_delay(), 2);
    assert_eq!(m.get_sound(), 2);
    m.tick_timers();
    assert_eq!(m.get_delay(), 1);
    assert_eq!(m.get_sound(), 1);
    m.tick_timers();
    assert_eq!(m.get_delay(), 0);
    assert_eq!(m.get_sound(), 0);
    // ticking at zero leaves both at zero: no wrap below zero
    m.tick_timers();
    assert_eq!(m.get_delay(), 0);
    assert_eq!(m.get_sound(), 0);
}

#[test]
fn delay_timer_reads_back() {
    let mut m = machine_with(&[0x61, 0x05, 0xF1, 0x15, 0xF2, 0x07]);
    m.tick().unwrap();
    m.tick().unwrap();
    m.tick().unwrap();
    assert_eq!(m.get_reg(2), 5);
}

#[test]
fn wait_for_key_blocks_until_a_key_arrives() {
    let mut m = machine_with(&[0xF5, 0x0A]);
    // no key pressed: the instruction re-executes, pc does not move
    m.tick().unwrap();
    assert_eq!(m.get_pc(), 0x200);
    assert_eq!(m.get_reg(5), 0);
    m.tick().unwrap();
    assert_eq!(m.get_pc(), 0x200);
    // keys 7 and 3 pressed: the lowest-indexed pressed key wins
    m.keypress(7, true);
    m.keypress(3, true);
    m.tick().unwrap();
    assert_eq!(m.get_pc(), 0x202);
    assert_eq!(m.get_reg(5), 3);
}

#[test]
fn key_skip_instructions_consult_the_key_state() {
    // EX9E skips when the key numbered by V1 is pressed
    let mut m = machine_with(&[0x61, 0x04, 0xE1, 0x9E, 0xE1, 0xA1]);
    m.keypress(4, true);
    m.tick().unwrap();
    m.tick().unwrap();
    assert_eq!(m.get_pc(), 0x206);
    // EXA1 does not skip while that key is held
    m.keypress(4, false);
    let mut m2 = machine_with(&[0x61, 0x04, 0xE1, 0x9E]);
    m2.tick().unwrap();
    m2.tick().unwrap();
    assert_eq!(m2.get_pc(), 0x204);
}

#[test]
fn key_skip_with_a_key_number_out_of_range_is_an_error() {
    let mut m = machine_with(&[0x61, 0xC8, 0xE1, 0x9E]);
    m.tick().unwrap();
    assert_eq!(m.tick(), Err(MachineError::AddressOutOfRange));
    assert_eq!(m.get_pc(), 0x202);
}

#[test]
fn masked_random_byte_respects_its_mask() {
    // a mask of zero forces the random register value to zero
    let mut m = machine_with(&[0x61, 0xFF, 0xC1, 0x00]);
    m.tick().unwrap();
    m.tick().unwrap();
    assert_eq!(m.get_reg(1), 0);
    // any random byte masked with 0x0F fits in the low nibble
    let mut m2 = machine_with(&[0xC1, 0x0F]);
    m2.tick().unwrap();
    assert!(m2.get_reg(1) <= 0x0F);
}

#[test]
fn bcd_writes_the_three_decimal_digits() {
    let mut m = machine_with(&[0x61, 0xEA, 0xA3, 0x00, 0xF1, 0x33]);
    m.tick().unwrap();
    m.tick().unwrap();
    m.tick().unwrap();
    assert_eq!(m.read_ram(0x300), 2);
    assert_eq!(m.read_ram(0x301), 3);
    assert_eq!(m.read_ram(0x302), 4);
    assert_eq!(m.read_ram(0x303), 0);
}

#[test]
fn register_block_store_and_load_round_trip() {
    let mut m = machine_with(&[
        0x60, 0x0A, // V0 = 10
        0x61, 0x0B, // V1 = 11
        0xA3, 0x00, // index = 0x300
        0xF1, 0x55, // store V0..V1
        0x60, 0x00, // V0 = 0
        0x61, 0x00, // V1 = 0
        0xF1, 0x65, // load V0..V1 back
    ]);
    for _ in 0..4 {
        m.tick().unwrap();
    }
    assert_eq!(m.read_ram(0x300), 10);
    assert_eq!(m.read_ram(0x301), 11);
    assert_eq!(m.read_ram(0x302), 0);
    for _ in 0..3 {
        m.tick().unwrap();
    }
    assert_eq!(m.get_reg(0), 10);
    assert_eq!(m.get_reg(1), 11);
}

#[test]
fn sprite_read_past_memory_end_is_an_error() {
    let mut m = machine_with(&[0xAF, 0xFD, 0xD0, 0x04]);
    m.tick().unwrap();
    assert_eq!(m.tick(), Err(MachineError::AddressOutOfRange));
    assert_eq!(m.get_pc(), 0x202);
}

#[test]
fn fetch_past_memory_end_is_an_error() {
    let mut m = machine_with(&[0x1F, 0xFF]);
    m.tick().unwrap();
    assert_eq!(m.get_pc(), 0xFFF);
    assert_eq!(m.tick(), Err(MachineError::AddressOutOfRange));
    assert_eq!(m.get_pc(), 0xFFF);
}

#[test]
fn unrecognized_opcodes_are_silent_no_ops() {
    let mut m = machine_with(&[0xFF, 0xFF, 0x51, 0x21, 0x00, 0x00]);
    m.tick().unwrap();
    assert_eq!(m.get_pc(), 0x202);
    m.tick().unwrap();
    assert_eq!(m.get_pc(), 0x204);
    m.tick().unwrap();
    assert_eq!(m.get_pc(), 0x206);
    for i in 0..16 {
        assert_eq!(m.get_reg(i), 0);
    }
}

#[test]
fn reset_restores_the_initial_construction_state() {
    let mut m = machine_with(&[0x61, 0xAB, 0xA0, 0x00, 0xD0, 0x05, 0xF1, 0x15]);
    m.tick().unwrap();
    m.tick().unwrap();
    m.tick().unwrap();
    m.tick().unwrap();
    m.keypress(2, true);
    m.push(0x321);
    assert_ne!(m.get_pc(), 0x200);
    m.reset();
    assert_eq!(m.get_pc(), 0x200);
    assert_eq!(m.get_index_reg(), 0);
    assert_eq!(m.get_delay(), 0);
    assert_eq!(m.get_sound(), 0);
    assert_eq!(m.stack_depth(), 0);
    for i in 0..16 {
        assert_eq!(m.get_reg(i), 0);
    }
    let display = m.get_display();
    for p in 0..display.len() {
        assert!(!display[p]);
    }
    // the loaded program is discarded and the glyph table reinstalled
    assert_eq!(m.read_ram(0x200), 0);
    assert_eq!(m.read_ram(0), 0xF0);
    assert_eq!(m.read_ram(79), 0x80);
    // key state is cleared: the wait-for-key instruction blocks again
    m.load(&[0xF5, 0x0A]).unwrap();
    m.tick().unwrap();
    assert_eq!(m.get_pc(), 0x200);
}

//! Instruction semantics, exercised through the executable engine.

use notch::cpu::Cpu;
use notch::error::VmError;

/// A machine booted with an empty ROM, ready for single instructions.
fn boot() -> Cpu {
    Cpu::new(Vec::new())
}

#[test]
fn boot_state_is_clean() {
    let cpu = boot();
    assert_eq!(cpu.pc, 0x200);
    assert_eq!(cpu.sp, 0);
    assert_eq!(cpu.i, 0);
    assert_eq!(cpu.dt, 0);
    assert_eq!(cpu.st, 0);
    assert!(cpu.v.iter().all(|&b| b == 0));
    assert!(cpu.stack.iter().all(|&w| w == 0));
    assert!(cpu.waiting.is_none());
}

#[test]
fn load_immediate_sets_exactly_one_register() {
    let mut cpu = boot();
    assert_eq!(cpu.execute_instruction(0x6A42), Ok(()));
    for k in 0..16 {
        assert_eq!(cpu.v[k], if k == 0xA { 0x42 } else { 0 });
    }
    assert_eq!(cpu.pc, 0x202);
    assert_eq!(cpu.i, 0);
    assert_eq!(cpu.sp, 0);
}

#[test]
fn add_immediate_wraps_and_leaves_the_flag_alone() {
    let mut cpu = boot();
    cpu.v[0xF] = 0x5A;
    assert_eq!(cpu.execute_instruction(0x60FA), Ok(())); // V0 = 250
    assert_eq!(cpu.execute_instruction(0x700A), Ok(())); // V0 += 10
    assert_eq!(cpu.v[0], 4); // 260 mod 256
    assert_eq!(cpu.v[0xF], 0x5A); // flag untouched
}

#[test]
fn arithmetic_add_sets_the_carry_flag() {
    let mut cpu = boot();
    cpu.v[0] = 200;
    cpu.v[1] = 100;
    assert_eq!(cpu.execute_instruction(0x8014), Ok(()));
    assert_eq!(cpu.v[0], 44); // 300 mod 256
    assert_eq!(cpu.v[0xF], 1);

    let mut cpu = boot();
    cpu.v[0] = 10;
    cpu.v[1] = 20;
    assert_eq!(cpu.execute_instruction(0x8014), Ok(()));
    assert_eq!(cpu.v[0], 30);
    assert_eq!(cpu.v[0xF], 0);
}

#[test]
fn subtract_follows_the_no_borrow_convention() {
    let mut cpu = boot();
    cpu.v[0] = 5;
    cpu.v[1] = 3;
    assert_eq!(cpu.execute_instruction(0x8015), Ok(()));
    assert_eq!(cpu.v[0], 2);
    assert_eq!(cpu.v[0xF], 1); // no borrow

    let mut cpu = boot();
    cpu.v[0] = 3;
    cpu.v[1] = 5;
    assert_eq!(cpu.execute_instruction(0x8015), Ok(()));
    assert_eq!(cpu.v[0], 254); // wrap
    assert_eq!(cpu.v[0xF], 0);
}

#[test]
fn subtract_of_equal_values_reports_no_borrow() {
    let mut cpu = boot();
    cpu.v[2] = 7;
    cpu.v[3] = 7;
    assert_eq!(cpu.execute_instruction(0x8235), Ok(()));
    assert_eq!(cpu.v[2], 0);
    assert_eq!(cpu.v[0xF], 1);
}

#[test]
fn subtract_reversed_follows_the_same_convention() {
    let mut cpu = boot();
    cpu.v[0] = 3;
    cpu.v[1] = 10;
    assert_eq!(cpu.execute_instruction(0x8017), Ok(())); // V0 = V1 - V0
    assert_eq!(cpu.v[0], 7);
    assert_eq!(cpu.v[0xF], 1);

    let mut cpu = boot();
    cpu.v[0] = 10;
    cpu.v[1] = 3;
    assert_eq!(cpu.execute_instruction(0x8017), Ok(()));
    assert_eq!(cpu.v[0], 249);
    assert_eq!(cpu.v[0xF], 0);
}

#[test]
fn bitwise_family_works_on_register_pairs() {
    let mut cpu = boot();
    cpu.v[0] = 0b1100;
    cpu.v[1] = 0b1010;
    assert_eq!(cpu.execute_instruction(0x8011), Ok(())); // OR
    assert_eq!(cpu.v[0], 0b1110);
    cpu.v[0] = 0b1100;
    assert_eq!(cpu.execute_instruction(0x8012), Ok(())); // AND
    assert_eq!(cpu.v[0], 0b1000);
    cpu.v[0] = 0b1100;
    assert_eq!(cpu.execute_instruction(0x8013), Ok(())); // XOR
    assert_eq!(cpu.v[0], 0b0110);
    assert_eq!(cpu.execute_instruction(0x8210), Ok(())); // V2 = V1
    assert_eq!(cpu.v[2], 0b1010);
}

#[test]
fn shifts_read_vx_and_latch_the_shifted_out_bit() {
    let mut cpu = boot();
    cpu.v[4] = 0b1001_0101;
    assert_eq!(cpu.execute_instruction(0x8406), Ok(())); // SHR
    assert_eq!(cpu.v[4], 0b0100_1010);
    assert_eq!(cpu.v[0xF], 1); // low bit was 1

    let mut cpu = boot();
    cpu.v[4] = 0b1001_0100;
    assert_eq!(cpu.execute_instruction(0x840E), Ok(())); // SHL
    assert_eq!(cpu.v[4], 0b0010_1000);
    assert_eq!(cpu.v[0xF], 1); // high bit was 1
}

#[test]
fn skips_advance_by_one_extra_instruction() {
    let mut cpu = boot();
    cpu.v[3] = 0x20;
    assert_eq!(cpu.execute_instruction(0x3320), Ok(())); // equal: skip
    assert_eq!(cpu.pc, 0x204);
    assert_eq!(cpu.execute_instruction(0x3321), Ok(())); // not equal: no skip
    assert_eq!(cpu.pc, 0x206);
    assert_eq!(cpu.execute_instruction(0x4321), Ok(())); // not equal: skip
    assert_eq!(cpu.pc, 0x20A);
    cpu.v[4] = 0x20;
    assert_eq!(cpu.execute_instruction(0x5340), Ok(())); // registers equal: skip
    assert_eq!(cpu.pc, 0x20E);
    assert_eq!(cpu.execute_instruction(0x9340), Ok(())); // equal: no skip
    assert_eq!(cpu.pc, 0x210);
}

#[test]
fn jumps_replace_the_program_counter() {
    let mut cpu = boot();
    assert_eq!(cpu.execute_instruction(0x1ABC), Ok(()));
    assert_eq!(cpu.pc, 0xABC);
    cpu.v[0] = 0x10;
    assert_eq!(cpu.execute_instruction(0xB300), Ok(()));
    assert_eq!(cpu.pc, 0x310);
}

#[test]
fn address_register_family() {
    let mut cpu = boot();
    assert_eq!(cpu.execute_instruction(0xA123), Ok(()));
    assert_eq!(cpu.i, 0x123);
    cpu.v[5] = 0x20;
    assert_eq!(cpu.execute_instruction(0xF51E), Ok(())); // I += V5
    assert_eq!(cpu.i, 0x143);
    cpu.v[6] = 0xA;
    assert_eq!(cpu.execute_instruction(0xF629), Ok(())); // I = glyph of hex digit A
    assert_eq!(cpu.i, 50);
}

#[test]
fn address_register_add_wraps_into_twelve_bits() {
    let mut cpu = boot();
    assert_eq!(cpu.execute_instruction(0xAFFF), Ok(()));
    cpu.v[0] = 3;
    assert_eq!(cpu.execute_instruction(0xF01E), Ok(()));
    assert_eq!(cpu.i, 2); // 0xFFF + 3, modulo 4096
}

#[test]
fn bcd_decomposes_into_decimal_digits() {
    let mut cpu = boot();
    cpu.v[0] = 255;
    assert_eq!(cpu.execute_instruction(0xA400), Ok(()));
    assert_eq!(cpu.execute_instruction(0xF033), Ok(()));
    assert_eq!(cpu.memory.read(0x400), 2);
    assert_eq!(cpu.memory.read(0x401), 5);
    assert_eq!(cpu.memory.read(0x402), 5);
}

#[test]
fn bcd_of_zero_writes_three_zero_digits() {
    let mut cpu = boot();
    cpu.memory.write(0x400, 9);
    cpu.memory.write(0x401, 9);
    cpu.memory.write(0x402, 9);
    assert_eq!(cpu.execute_instruction(0xA400), Ok(()));
    assert_eq!(cpu.execute_instruction(0xF033), Ok(())); // V0 is 0
    assert_eq!(cpu.memory.read(0x400), 0);
    assert_eq!(cpu.memory.read(0x401), 0);
    assert_eq!(cpu.memory.read(0x402), 0);
}

#[test]
fn register_dump_and_load_round_trip() {
    let mut cpu = boot();
    cpu.v[0] = 0x11;
    cpu.v[1] = 0x22;
    cpu.v[2] = 0x33;
    cpu.v[3] = 0x44;
    cpu.v[4] = 0x99; // past X: must not be stored
    assert_eq!(cpu.execute_instruction(0xA500), Ok(()));
    assert_eq!(cpu.execute_instruction(0xF355), Ok(())); // dump V0..=V3
    assert_eq!(cpu.memory.read(0x500), 0x11);
    assert_eq!(cpu.memory.read(0x501), 0x22);
    assert_eq!(cpu.memory.read(0x502), 0x33);
    assert_eq!(cpu.memory.read(0x503), 0x44);
    assert_eq!(cpu.memory.read(0x504), 0);

    for k in 0..5 {
        cpu.v[k] = 0;
    }
    assert_eq!(cpu.execute_instruction(0xF365), Ok(())); // load V0..=V3
    assert_eq!(cpu.v[0], 0x11);
    assert_eq!(cpu.v[1], 0x22);
    assert_eq!(cpu.v[2], 0x33);
    assert_eq!(cpu.v[3], 0x44);
    assert_eq!(cpu.v[4], 0); // past X: must not be loaded
}

#[test]
fn call_and_return_restore_the_stack_discipline() {
    let mut cpu = boot();
    let pc0 = cpu.pc;
    // Sixteen nested calls, each from wherever the previous one landed.
    for k in 0..16u16 {
        let target = 0x300 + 2 * k;
        assert_eq!(cpu.execute_instruction(0x2000 | target), Ok(()));
        assert_eq!(cpu.pc, target);
        assert_eq!(cpu.sp, k as u8 + 1);
    }
    // One more call is a fatal overflow and changes nothing.
    let pc_full = cpu.pc;
    assert_eq!(cpu.execute_instruction(0x2400), Err(VmError::StackOverflow));
    assert_eq!(cpu.pc, pc_full);
    assert_eq!(cpu.sp, 16);
    // Sixteen returns come back to the instruction after the first call.
    for k in (0..16u8).rev() {
        assert_eq!(cpu.execute_instruction(0x00EE), Ok(()));
        assert_eq!(cpu.sp, k);
    }
    assert_eq!(cpu.pc, pc0 + 2);
}

#[test]
fn return_with_an_empty_stack_underflows() {
    let mut cpu = boot();
    assert_eq!(cpu.execute_instruction(0x00EE), Err(VmError::StackUnderflow));
    assert_eq!(cpu.pc, 0x200);
    assert_eq!(cpu.sp, 0);
}

#[test]
fn unrecognized_words_are_invalid_opcodes() {
    let mut cpu = boot();
    assert_eq!(
        cpu.execute_instruction(0x0000),
        Err(VmError::InvalidOpcode { instr: 0x0000, pc: 0x200 })
    );
    assert_eq!(
        cpu.execute_instruction(0x8AB9),
        Err(VmError::InvalidOpcode { instr: 0x8AB9, pc: 0x200 })
    );
    assert_eq!(
        cpu.execute_instruction(0xF0FF),
        Err(VmError::InvalidOpcode { instr: 0xF0FF, pc: 0x200 })
    );
    assert_eq!(cpu.pc, 0x200);
}

#[test]
fn random_masks_with_the_immediate() {
    let mut cpu = boot();
    cpu.v[0] = 0xAA;
    assert_eq!(cpu.execute_instruction(0xC000), Ok(())); // mask 0x00
    assert_eq!(cpu.v[0], 0); // whatever byte was drawn, the mask zeroes it
    for _ in 0..32 {
        assert_eq!(cpu.execute_instruction(0xC10F), Ok(())); // mask 0x0F
        assert!(cpu.v[1] <= 0x0F);
    }
}

#[test]
fn register_file_checks_its_index() {
    let mut cpu = boot();
    assert_eq!(cpu.set_reg(7, 0x5C), Ok(()));
    assert_eq!(cpu.get_reg(7), Ok(0x5C));
    assert_eq!(cpu.get_reg(16), Err(VmError::InvalidRegister { reg: 16 }));
    assert_eq!(cpu.set_reg(255, 1), Err(VmError::InvalidRegister { reg: 255 }));
    assert_eq!(cpu.get_reg(7), Ok(0x5C));
}

#[test]
fn program_counter_wraps_at_the_top_of_memory() {
    let mut cpu = boot();
    assert_eq!(cpu.execute_instruction(0x1FFE), Ok(())); // jump to 0xFFE
    assert_eq!(cpu.pc, 0xFFE);
    assert_eq!(cpu.execute_instruction(0x6000), Ok(())); // any plain instruction
    assert_eq!(cpu.pc, 0); // 0x1000 wrapped into twelve bits
}

#[test]
fn fetch_at_the_last_byte_wraps_to_address_zero() {
    let mut cpu = boot();
    assert_eq!(cpu.execute_instruction(0x1FFF), Ok(())); // jump to 0xFFF
    // The word there is the byte at 0xFFF (0x00) followed by the byte at
    // 0x000, the first glyph row 0xF0: the word 0x00F0 is not a valid
    // instruction.
    assert_eq!(
        cpu.step(),
        Err(VmError::InvalidOpcode { instr: 0x00F0, pc: 0xFFF })
    );
}

#[test]
fn register_dump_wraps_addresses_into_twelve_bits() {
    let mut cpu = boot();
    cpu.v[0] = 0xAA;
    cpu.v[1] = 0xBB;
    assert_eq!(cpu.execute_instruction(0xAFFF), Ok(())); // I = 0xFFF
    assert_eq!(cpu.execute_instruction(0xF155), Ok(())); // dump V0..=V1
    assert_eq!(cpu.memory.read(0xFFF), 0xAA);
    assert_eq!(cpu.memory.read(0x000), 0xBB); // wrapped to the bottom
}

//! The memory model, the input latch, the timers, the blocking key wait,
//! and whole-machine runs.

use notch::cpu::{Cpu, RunExit};
use notch::error::VmError;
use notch::input::KeyEvent;
use notch::interpreter::Interpreter;
use notch::memory::Memory;

#[test]
fn rom_is_loaded_verbatim_at_program_space() {
    let m = Memory::new(vec![0x12, 0x34, 0xAB]);
    assert_eq!(m.read(0x200), 0x12);
    assert_eq!(m.read(0x201), 0x34);
    assert_eq!(m.read(0x202), 0xAB);
    assert_eq!(m.read(0x203), 0);
    assert_eq!(m.read(0xFFF), 0);
}

#[test]
fn instruction_words_read_big_endian() {
    let m = Memory::new(vec![0x12, 0x34, 0xAB, 0xCD]);
    assert_eq!(m.read_word(0x200), 0x1234);
    assert_eq!(m.read_word(0x202), 0xABCD);
    assert_eq!(m.read_word(0x201), 0x34AB);
}

#[test]
fn glyph_table_sits_at_the_bottom_of_reserved_memory() {
    let m = Memory::new(Vec::new());
    // Glyph of 0 is F0 90 90 90 F0.
    assert_eq!(m.read(0), 0xF0);
    assert_eq!(m.read(1), 0x90);
    assert_eq!(m.read(4), 0xF0);
    // Glyph of 1 starts with 0x20; glyph of F ends with 0x80.
    assert_eq!(m.read(5), 0x20);
    assert_eq!(m.read(79), 0x80);
    // Nothing else lives in the reserved region.
    assert_eq!(m.read(80), 0);
    assert_eq!(m.read(0x1FF), 0);
}

#[test]
fn glyph_addresses_are_five_bytes_apart() {
    let m = Memory::new(Vec::new());
    assert_eq!(m.get_font(0), 0);
    assert_eq!(m.get_font(1), 5);
    assert_eq!(m.get_font(0xF), 75);
}

#[test]
fn memory_writes_read_back() {
    let mut m = Memory::new(Vec::new());
    m.write(0x3FF, 0x7E);
    assert_eq!(m.read(0x3FF), 0x7E);
    m.write(0xFFF, 0x01);
    assert_eq!(m.read(0xFFF), 0x01);
}

#[test]
fn input_latch_tracks_events_in_order() {
    let mut cpu = Cpu::new(Vec::new());
    cpu.input.handle_input(&vec![
        KeyEvent::Down { key: 3 },
        KeyEvent::Down { key: 7 },
        KeyEvent::Up { key: 3 },
    ]);
    assert!(!cpu.input.is_pressed(3));
    assert!(cpu.input.is_pressed(7));
    assert!(!cpu.input.is_pressed(0));
    // The most recent transition wins.
    assert_eq!(cpu.input.last_input(), 3);
    assert!(cpu.input.dirty());
}

#[test]
fn key_ids_outside_the_pad_read_as_not_pressed() {
    let cpu = Cpu::new(Vec::new());
    assert!(!cpu.input.is_pressed(16));
    assert!(!cpu.input.is_pressed(255));
}

#[test]
fn key_skips_consult_the_latch() {
    let mut cpu = Cpu::new(Vec::new());
    cpu.input.handle_input(&vec![KeyEvent::Down { key: 5 }]);
    cpu.v[0] = 5;
    assert_eq!(cpu.execute_instruction(0xE09E), Ok(())); // pressed: skip
    assert_eq!(cpu.pc, 0x204);
    assert_eq!(cpu.execute_instruction(0xE0A1), Ok(())); // pressed: no skip
    assert_eq!(cpu.pc, 0x206);
    cpu.v[1] = 6;
    assert_eq!(cpu.execute_instruction(0xE19E), Ok(())); // not pressed: no skip
    assert_eq!(cpu.pc, 0x208);
    assert_eq!(cpu.execute_instruction(0xE1A1), Ok(())); // not pressed: skip
    assert_eq!(cpu.pc, 0x20C);
}

#[test]
fn timer_decay_reaches_zero_and_clamps() {
    let mut cpu = Cpu::new(Vec::new());
    cpu.v[1] = 5;
    assert_eq!(cpu.execute_instruction(0xF115), Ok(())); // delay timer = 5
    for expected in [4u8, 3, 2, 1, 0] {
        cpu.tick_timers();
        assert_eq!(cpu.dt, expected);
    }
    cpu.tick_timers();
    cpu.tick_timers();
    assert_eq!(cpu.dt, 0);
}

#[test]
fn timers_tick_independently_of_instructions() {
    let mut cpu = Cpu::new(Vec::new());
    cpu.v[1] = 3;
    assert_eq!(cpu.execute_instruction(0xF115), Ok(()));
    // Many instructions, no ticks: the timer must not move.
    for _ in 0..10 {
        assert_eq!(cpu.execute_instruction(0x6000), Ok(()));
    }
    assert_eq!(cpu.dt, 3);
    cpu.tick_timers();
    assert_eq!(cpu.dt, 2);
}

#[test]
fn delay_timer_reads_back_through_the_engine() {
    let mut cpu = Cpu::new(Vec::new());
    cpu.v[1] = 9;
    assert_eq!(cpu.execute_instruction(0xF115), Ok(()));
    assert_eq!(cpu.execute_instruction(0xF207), Ok(())); // V2 = delay timer
    assert_eq!(cpu.v[2], 9);
}

#[test]
fn tone_is_active_exactly_while_the_sound_timer_is_nonzero() {
    let mut cpu = Cpu::new(Vec::new());
    assert!(!cpu.tone_active());
    cpu.v[1] = 2;
    assert_eq!(cpu.execute_instruction(0xF118), Ok(())); // sound timer = 2
    assert!(cpu.tone_active());
    cpu.tick_timers();
    assert!(cpu.tone_active());
    cpu.tick_timers();
    assert!(!cpu.tone_active());
}

#[test]
fn wait_for_key_suspends_until_a_fresh_transition() {
    let mut cpu = Cpu::new(Vec::new());
    // A transition latched before the wait begins must not satisfy it.
    cpu.input.handle_input(&vec![KeyEvent::Down { key: 2 }]);
    assert_eq!(cpu.execute_instruction(0xF30A), Ok(())); // wait, store in V3
    assert_eq!(cpu.waiting, Some(3));
    assert_eq!(cpu.pc, 0x202);
    // Steps while nothing arrives change nothing.
    assert_eq!(cpu.step(), Ok(()));
    assert_eq!(cpu.step(), Ok(()));
    assert_eq!(cpu.waiting, Some(3));
    assert_eq!(cpu.v[3], 0);
    // A fresh transition completes the wait with that key's id.
    cpu.input.handle_input(&vec![KeyEvent::Down { key: 0xB }]);
    assert_eq!(cpu.step(), Ok(()));
    assert_eq!(cpu.waiting, None);
    assert_eq!(cpu.v[3], 0xB);
}

#[test]
fn run_reports_a_key_wait_to_the_host() {
    let mut it = Interpreter::new(vec![0xF0, 0x0A]); // wait for key into V0
    assert_eq!(it.run(100), RunExit::WaitingForKey);
    it.cpu.input.handle_input(&vec![KeyEvent::Up { key: 4 }]);
    // The wait completes; the machine then runs on from address 0x202.
    assert_eq!(it.run(1), RunExit::OutOfFuel);
    assert_eq!(it.cpu.v[0], 4);
}

#[test]
fn end_to_end_three_cycle_scenario() {
    // Load V0 = 0x0A, load V1 = 0x05, add V0 += V1.
    let rom = vec![0x60, 0x0A, 0x61, 0x05, 0x80, 0x14];
    let mut it = Interpreter::new(rom);
    assert_eq!(it.run(3), RunExit::OutOfFuel);
    assert_eq!(it.cpu.v[0], 0x0F);
    assert_eq!(it.cpu.v[0xF], 0);
    assert_eq!(it.cpu.pc, 0x200 + 6);
}

#[test]
fn run_halts_when_the_host_asks() {
    let mut it = Interpreter::new(vec![0x12, 0x00]); // jump-to-self loop
    assert_eq!(it.run(50), RunExit::OutOfFuel);
    it.cpu.input.handle_input(&vec![KeyEvent::Quit]);
    assert_eq!(it.run(50), RunExit::Halted);
    assert_eq!(it.run(50), RunExit::Halted);
}

#[test]
fn run_stops_at_the_first_fatal_error() {
    let mut it = Interpreter::new(vec![0x60, 0x01, 0x00, 0x00]);
    assert_eq!(
        it.run(50),
        RunExit::Failed(VmError::InvalidOpcode { instr: 0x0000, pc: 0x202 })
    );
    // The failing instruction left the machine as it found it.
    assert_eq!(it.cpu.pc, 0x202);
    assert_eq!(it.cpu.v[0], 1);
}

#[test]
fn run_of_zero_fuel_does_nothing() {
    let mut it = Interpreter::new(vec![0x60, 0x01]);
    assert_eq!(it.run(0), RunExit::OutOfFuel);
    assert_eq!(it.cpu.pc, 0x200);
    assert_eq!(it.cpu.v[0], 0);
}

#[test]
fn largest_rom_fills_program_space_to_the_top() {
    let rom = vec![0x7Eu8; 4096 - 0x200];
    let m = Memory::new(rom);
    assert_eq!(m.read(0x200), 0x7E);
    assert_eq!(m.read(0xFFF), 0x7E);
    assert_eq!(m.read(0x1FF), 0); // reserved space untouched above the glyphs
}

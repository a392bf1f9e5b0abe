//! The display and collision engine: XOR drawing, wraparound, collision.

use notch::cpu::Cpu;
use notch::graphics::Graphics;

#[test]
fn draw_and_redraw_round_trip_with_collision() {
    let mut g = Graphics::new();
    let coll = g.draw(0, 0, vec![0xFF]);
    assert_eq!(coll, 0);
    for col in 0..8 {
        assert_eq!(g.display[col], 1);
    }
    for col in 8..64 {
        assert_eq!(g.display[col], 0);
    }
    let coll = g.draw(0, 0, vec![0xFF]);
    assert_eq!(coll, 1);
    assert!(g.display.iter().all(|&p| p == 0));
}

#[test]
fn sprite_bits_run_left_to_right_from_the_high_bit() {
    let mut g = Graphics::new();
    g.draw(0, 0, vec![0b1010_0001]);
    assert_eq!(&g.display[0..8], &[1, 0, 1, 0, 0, 0, 0, 1]);
}

#[test]
fn drawing_wraps_horizontally() {
    let mut g = Graphics::new();
    let coll = g.draw(62, 0, vec![0xFF]);
    assert_eq!(coll, 0);
    for col in [62usize, 63, 0, 1, 2, 3, 4, 5] {
        assert_eq!(g.display[col], 1, "column {}", col);
    }
    assert_eq!(g.display[6], 0);
    assert_eq!(g.display[61], 0);
}

#[test]
fn drawing_wraps_vertically() {
    let mut g = Graphics::new();
    let coll = g.draw(0, 31, vec![0x80, 0x80]);
    assert_eq!(coll, 0);
    assert_eq!(g.display[31 * 64], 1); // first row lands on row 31
    assert_eq!(g.display[0], 1); // second row wraps to row 0
}

#[test]
fn coordinates_wrap_modulo_the_display_size() {
    let mut g = Graphics::new();
    g.draw(64 + 3, 32 + 2, vec![0x80]);
    assert_eq!(g.display[2 * 64 + 3], 1);
    assert_eq!(g.display.iter().map(|&p| p as u32).sum::<u32>(), 1);
}

#[test]
fn collision_means_a_lit_pixel_went_dark_not_any_change() {
    let mut g = Graphics::new();
    g.draw(0, 0, vec![0b1000_0000]);
    // Lights a new pixel next to a lit one: no collision.
    let coll = g.draw(0, 0, vec![0b0100_0000]);
    assert_eq!(coll, 0);
    // Touches the lit pixel: collision.
    let coll = g.draw(0, 0, vec![0b1000_0000]);
    assert_eq!(coll, 1);
}

#[test]
fn clear_display_turns_every_pixel_off() {
    let mut g = Graphics::new();
    g.draw(10, 10, vec![0xFF, 0xFF, 0xFF]);
    assert!(g.display.iter().any(|&p| p == 1));
    g.clear_display();
    assert_eq!(g.display.len(), 2048);
    assert!(g.display.iter().all(|&p| p == 0));
}

#[test]
fn draw_instruction_reads_memory_and_sets_the_flag() {
    let mut cpu = Cpu::new(Vec::new());
    cpu.memory.write(0x300, 0xFF);
    assert_eq!(cpu.execute_instruction(0xA300), Ok(())); // I = 0x300
    assert_eq!(cpu.execute_instruction(0xD011), Ok(())); // draw 8x1 at (V0, V1)
    assert_eq!(cpu.v[0xF], 0);
    for col in 0..8 {
        assert_eq!(cpu.graphics.display[col], 1);
    }
    assert_eq!(cpu.execute_instruction(0xD011), Ok(())); // identical draw
    assert_eq!(cpu.v[0xF], 1);
    assert!(cpu.graphics.display.iter().all(|&p| p == 0));
}

#[test]
fn clear_screen_instruction_resets_the_buffer() {
    let mut cpu = Cpu::new(Vec::new());
    cpu.memory.write(0x300, 0xFF);
    assert_eq!(cpu.execute_instruction(0xA300), Ok(()));
    assert_eq!(cpu.execute_instruction(0xD011), Ok(()));
    assert_eq!(cpu.execute_instruction(0x00E0), Ok(()));
    assert!(cpu.graphics.display.iter().all(|&p| p == 0));
}

#[test]
fn zero_row_sprite_draws_nothing_and_reports_no_collision() {
    let mut cpu = Cpu::new(Vec::new());
    cpu.v[0xF] = 1;
    assert_eq!(cpu.execute_instruction(0xD010), Ok(())); // n = 0
    assert_eq!(cpu.v[0xF], 0);
    assert!(cpu.graphics.display.iter().all(|&p| p == 0));
}

//! Decoding: every 16-bit word maps to exactly one instruction or is
//! rejected, and the operand fields land where the instruction layout says.

use notch::cpu::{decode, Instr};

/// An independent statement of which words are valid encodings, written
/// directly from the instruction layout.
fn expected_valid(w: u16) -> bool {
    let op = w >> 12;
    let n = w & 0x0F;
    let nn = w & 0xFF;
    match op {
        0x0 => nn == 0xE0 || nn == 0xEE,
        0x1 | 0x2 | 0x3 | 0x4 | 0x5 | 0x6 | 0x7 | 0x9 | 0xA | 0xB | 0xC | 0xD => true,
        0x8 => n <= 0x7 || n == 0xE,
        0xE => nn == 0x9E || nn == 0xA1,
        0xF => matches!(nn, 0x07 | 0x0A | 0x15 | 0x18 | 0x1E | 0x29 | 0x33 | 0x55 | 0x65),
        _ => unreachable!(),
    }
}

#[test]
fn dispatch_is_total_over_all_words() {
    let mut valid: u32 = 0;
    for w in 0..=0xFFFFu16 {
        let d = decode(w);
        assert_eq!(d.is_some(), expected_valid(w), "word {:#06x}", w);
        if d.is_some() {
            valid += 1;
        }
    }
    // The two zero-page forms and the key-skip and timer families fix the
    // low byte and leave only X free; the arithmetic family fixes the low
    // nibble; twelve families accept any operand bits.
    assert_eq!(valid, 2 * 16 + 12 * 4096 + 9 * 256 + 2 * 16 + 9 * 16);
}

#[test]
fn decode_picks_the_documented_fields() {
    assert_eq!(decode(0x00E0), Some(Instr::Cls));
    assert_eq!(decode(0x00EE), Some(Instr::Ret));
    assert_eq!(decode(0x0123), None);
    assert_eq!(decode(0x1ABC), Some(Instr::Jump { nnn: 0xABC }));
    assert_eq!(decode(0x2345), Some(Instr::Call { nnn: 0x345 }));
    assert_eq!(decode(0x3A55), Some(Instr::SkipEqImm { x: 0xA, nn: 0x55 }));
    assert_eq!(decode(0x4B66), Some(Instr::SkipNeImm { x: 0xB, nn: 0x66 }));
    assert_eq!(decode(0x5AB0), Some(Instr::SkipEqReg { x: 0xA, y: 0xB }));
    assert_eq!(decode(0x6C77), Some(Instr::LoadImm { x: 0xC, nn: 0x77 }));
    assert_eq!(decode(0x7D88), Some(Instr::AddImm { x: 0xD, nn: 0x88 }));
    assert_eq!(decode(0x8120), Some(Instr::Assign { x: 1, y: 2 }));
    assert_eq!(decode(0x8341), Some(Instr::Or { x: 3, y: 4 }));
    assert_eq!(decode(0x8562), Some(Instr::And { x: 5, y: 6 }));
    assert_eq!(decode(0x8783), Some(Instr::Xor { x: 7, y: 8 }));
    assert_eq!(decode(0x89A4), Some(Instr::Add { x: 9, y: 0xA }));
    assert_eq!(decode(0x8BC5), Some(Instr::Sub { x: 0xB, y: 0xC }));
    assert_eq!(decode(0x8D06), Some(Instr::ShiftRight { x: 0xD }));
    assert_eq!(decode(0x8E17), Some(Instr::SubNeg { x: 0xE, y: 1 }));
    assert_eq!(decode(0x812E), Some(Instr::ShiftLeft { x: 1 }));
    assert_eq!(decode(0x8ABF), None);
    assert_eq!(decode(0x9AB0), Some(Instr::SkipNeReg { x: 0xA, y: 0xB }));
    assert_eq!(decode(0xA9AB), Some(Instr::LoadAddr { nnn: 0x9AB }));
    assert_eq!(decode(0xB123), Some(Instr::JumpOffset { nnn: 0x123 }));
    assert_eq!(decode(0xC2F0), Some(Instr::Random { x: 2, nn: 0xF0 }));
    assert_eq!(decode(0xD125), Some(Instr::Draw { x: 1, y: 2, n: 5 }));
    assert_eq!(decode(0xE39E), Some(Instr::SkipKey { x: 3 }));
    assert_eq!(decode(0xE4A1), Some(Instr::SkipNoKey { x: 4 }));
    assert_eq!(decode(0xE4A2), None);
    assert_eq!(decode(0xF507), Some(Instr::GetDelay { x: 5 }));
    assert_eq!(decode(0xF60A), Some(Instr::WaitKey { x: 6 }));
    assert_eq!(decode(0xF715), Some(Instr::SetDelay { x: 7 }));
    assert_eq!(decode(0xF818), Some(Instr::SetSound { x: 8 }));
    assert_eq!(decode(0xF91E), Some(Instr::AddAddr { x: 9 }));
    assert_eq!(decode(0xFA29), Some(Instr::FontAddr { x: 0xA }));
    assert_eq!(decode(0xFB33), Some(Instr::StoreBcd { x: 0xB }));
    assert_eq!(decode(0xFC55), Some(Instr::StoreRegs { x: 0xC }));
    assert_eq!(decode(0xFD65), Some(Instr::LoadRegs { x: 0xD }));
    assert_eq!(decode(0xFFFF), None);
}

#[test]
fn skip_register_forms_ignore_the_trailing_nibble() {
    // The register-compare skip families dispatch on the top nibble alone.
    assert_eq!(decode(0x5AB7), Some(Instr::SkipEqReg { x: 0xA, y: 0xB }));
    assert_eq!(decode(0x9CD9), Some(Instr::SkipNeReg { x: 0xC, y: 0xD }));
}

#[test]
fn zero_page_dispatch_reads_the_low_byte_only() {
    // The clear and return forms are recognized by the low byte under a
    // zero top nibble; everything else there is a machine-code routine,
    // which is not implemented.
    assert_eq!(decode(0x01E0), Some(Instr::Cls));
    assert_eq!(decode(0x0FEE), Some(Instr::Ret));
    assert_eq!(decode(0x0ABC), None);
    assert_eq!(decode(0x0000), None);
}

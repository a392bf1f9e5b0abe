//! The display and collision engine: a 64x32 monochrome pixel buffer,
//! row-major, drawn onto by XOR-compositing sprites.
//!
//! Sprite rows are bytes; bit 7 is the leftmost pixel. Coordinates wrap
//! modulo the display width and height, so a sprite is never drawn outside
//! the buffer. A collision is strictly a previously-lit pixel turning off,
//! never merely "some pixel changed".

use vstd::prelude::*;

verus! {

/// Width of the display in pixels.
pub const DISPLAY_WIDTH: usize = 64;

/// Height of the display in pixels.
pub const DISPLAY_HEIGHT: usize = 32;

/// Number of pixels in the display buffer.
pub const DISPLAY_SIZE: usize = 2048;

/// Bit `j` of a sprite row, counted from the left: bit 7 of the byte is the
/// leftmost pixel.
pub open spec fn sprite_bit(b: u8, j: int) -> u8 {
    (b >> ((7 - j) as u8)) & 1
}

/// An all-dark display.
pub open spec fn blank_display() -> Seq<u8> {
    Seq::new(2048, |p: int| 0u8)
}

/// XOR-composite bits `j..8` of sprite row `b` onto `disp` at wrapped row
/// `row`, starting from horizontal position `x`. Yields the new display and
/// whether any previously-lit pixel was turned off.
pub open spec fn draw_row_from(disp: Seq<u8>, x: int, row: int, b: u8, j: int) -> (Seq<u8>, bool)
    decreases 8 - j,
{
    if j < 0 || j >= 8 {
        (disp, false)
    } else {
        let idx = row * 64 + ((x % 64) + j) % 64;
        let bit = sprite_bit(b, j);
        let prev = disp[idx];
        let rest = draw_row_from(disp.update(idx, bit ^ prev), x, row, b, j + 1);
        (rest.0, (bit == 1 && prev == 1) || rest.1)
    }
}

/// XOR-composite the first `n` rows of `sprite` onto `disp` starting at
/// (`x`, `y`), row `i` of the sprite landing on display row `(y + i) % 32`.
/// Yields the new display and the collision flag.
pub open spec fn draw_sprite(disp: Seq<u8>, x: int, y: int, sprite: Seq<u8>, n: int) -> (
    Seq<u8>,
    bool,
)
    decreases n,
{
    if n <= 0 {
        (disp, false)
    } else {
        let before = draw_sprite(disp, x, y, sprite, n - 1);
        let row = ((y % 32) + ((n - 1) % 32)) % 32;
        let after = draw_row_from(before.0, x, row, sprite[n - 1], 0);
        (after.0, before.1 || after.1)
    }
}

/// The monochrome display buffer, one byte per pixel, each 0 or 1.
pub struct Graphics {
    /// 64x32 buffer, row-major, for the machine to draw into. A host renders
    /// its set cells onto a window after each draw or clear.
    pub display: Vec<u8>,
}

impl Graphics {
    /// The buffer holds exactly one bit-valued byte per pixel.
    pub open spec fn wf(&self) -> bool {
        &&& self.display@.len() == 2048
        &&& forall|p: int| 0 <= p < 2048 ==> self.display@[p] <= 1
    }

    /// A display with every pixel dark.
    pub fn new() -> (g: Graphics)
        ensures
            g.wf(),
            g.display@ == blank_display(),
    {
        let g = Graphics { display: vec![0u8; DISPLAY_SIZE] };
        proof {
            assert(g.display@ =~= blank_display());
        }
        g
    }

    /// Draw a sprite at (`x`, `y`) by XOR-compositing its rows onto the
    /// display with wraparound, returning 1 exactly when a previously-lit
    /// pixel was turned off and 0 otherwise.
    pub fn draw(&mut self, x: usize, y: usize, sprite: Vec<u8>) -> (collision: u8)
        requires
            old(self).wf(),
        ensures
            final(self).wf(),
            final(self).display@ == draw_sprite(
                old(self).display@,
                x as int,
                y as int,
                sprite@,
                sprite@.len() as int,
            ).0,
            collision == (if draw_sprite(
                old(self).display@,
                x as int,
                y as int,
                sprite@,
                sprite@.len() as int,
            ).1 {
                1u8
            } else {
                0u8
            }),
    {
        let ghost d0 = self.display@;
        let mut hit: bool = false;
        let mut i: usize = 0;
        while i < sprite.len()
            invariant
                self.wf(),
                i <= sprite@.len(),
                self.display@ == draw_sprite(d0, x as int, y as int, sprite@, i as int).0,
                hit == draw_sprite(d0, x as int, y as int, sprite@, i as int).1,
            decreases sprite@.len() - i,
        {
            let row: usize = ((y % 32) + (i % 32)) % 32;
            let b: u8 = sprite[i];
            let ghost dr = self.display@;
            let ghost hit0 = hit;
            let mut j: usize = 0;
            while j < 8
                invariant
                    self.wf(),
                    j <= 8,
                    row < 32,
                    draw_row_from(dr, x as int, row as int, b, 0).0 == draw_row_from(
                        self.display@,
                        x as int,
                        row as int,
                        b,
                        j as int,
                    ).0,
                    (hit0 || draw_row_from(dr, x as int, row as int, b, 0).1) == (hit
                        || draw_row_from(self.display@, x as int, row as int, b, j as int).1),
                decreases 8 - j,
            {
                let bit: u8 = (b >> ((7 - j) as u8)) & 1;
                let idx: usize = row * 64 + ((x % 64) + j) % 64;
                let prev: u8 = self.display[idx];
                proof {
                    lemma_bit_value(b, (7 - j) as u8);
                    lemma_xor_bit(bit, prev);
                }
                self.display.set(idx, bit ^ prev);
                if bit == 1 && prev == 1 {
                    hit = true;
                }
                j += 1;
            }
            i += 1;
        }
        if hit {
            1
        } else {
            0
        }
    }

    /// Turn every pixel off.
    pub fn clear_display(&mut self)
        requires
            old(self).wf(),
        ensures
            final(self).wf(),
            final(self).display@ == blank_display(),
    {
        let mut p: usize = 0;
        while p < DISPLAY_SIZE
            invariant
                self.display@.len() == 2048,
                p <= 2048,
                forall|q: int| 0 <= q < p ==> self.display@[q] == 0,
            decreases 2048 - p,
        {
            self.display.set(p, 0);
            p += 1;
        }
        proof {
            assert(self.display@ =~= blank_display());
        }
    }
}

/// A single extracted sprite bit is 0 or 1.
proof fn lemma_bit_value(b: u8, k: u8)
    ensures
        ((b >> k) & 1) <= 1,
{
    assert(((b >> k) & 1) <= 1) by (bit_vector);
}

/// XOR of two bit-valued bytes is bit-valued.
proof fn lemma_xor_bit(a: u8, b: u8)
    requires
        a <= 1,
        b <= 1,
    ensures
        (a ^ b) <= 1,
{
    assert(a <= 1 && b <= 1 ==> (a ^ b) <= 1) by (bit_vector);
}

} // verus!

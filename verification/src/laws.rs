//! Laws of the machine, stated over the spec-level interpreter and proved
//! once and for all: totality of opcode dispatch, immediate loads and adds,
//! the carry and no-borrow flag conventions, call/return stack discipline,
//! timer decay, and the XOR draw/collision round-trip.

use vstd::prelude::*;

use crate::cpu::{decode_spec, exec_spec, fetch_word, next_pc, step_spec, tick_spec, Instr, VmState};
use crate::error::VmError;
use crate::graphics::{draw_row_from, draw_sprite, sprite_bit};

verus! {

/// Opcode dispatch is total: on a machine that is not waiting for a key,
/// the fetched word either decodes to exactly one instruction — decoding is
/// a function of the word — and the cycle executes that instruction, or the
/// cycle rejects the word as `InvalidOpcode` carrying the word and the
/// program counter. A word is never silently ignored.
pub proof fn lemma_dispatch_total(s: VmState, rnd: u8)
    requires
        s.waiting is None,
    ensures
        decode_spec(fetch_word(s)) matches Some(ins) ==> step_spec(s, rnd) == exec_spec(
            s,
            ins,
            rnd,
        ),
        decode_spec(fetch_word(s)) is None ==> step_spec(s, rnd) == Err::<VmState, VmError>(
            VmError::InvalidOpcode { instr: fetch_word(s), pc: s.pc },
        ),
{
}

/// Load-immediate: after `6XNN`, register X holds exactly NN; no other
/// register and no other part of the machine changes, apart from the
/// program counter advancing past the instruction.
pub proof fn lemma_load_immediate(s: VmState, x: u8, nn: u8, rnd: u8)
    requires
        s.wf(),
        x < 16,
    ensures
        exec_spec(s, Instr::LoadImm { x, nn }, rnd) is Ok,
        ({
            let t = exec_spec(s, Instr::LoadImm { x, nn }, rnd)->Ok_0;
            &&& t.v[x as int] == nn
            &&& (forall|k: int| 0 <= k < 16 && k != x ==> t.v[k] == s.v[k])
            &&& t.pc == next_pc(s.pc)
            &&& t.ram == s.ram
            &&& t.disp == s.disp
            &&& t.input == s.input
            &&& t.i == s.i
            &&& t.stack == s.stack
            &&& t.sp == s.sp
            &&& t.dt == s.dt
            &&& t.st == s.st
            &&& t.waiting == s.waiting
        }),
{
}

/// Add-immediate wraps modulo 256 and touches no other register: in
/// particular, when X is not the flag register, the flag register is
/// unchanged.
pub proof fn lemma_add_immediate_wraps(s: VmState, x: u8, nn: u8, rnd: u8)
    requires
        s.wf(),
        x < 16,
    ensures
        exec_spec(s, Instr::AddImm { x, nn }, rnd) is Ok,
        ({
            let t = exec_spec(s, Instr::AddImm { x, nn }, rnd)->Ok_0;
            &&& t.v[x as int] == (s.v[x as int] + nn) % 256
            &&& (forall|k: int| 0 <= k < 16 && k != x ==> t.v[k] == s.v[k])
            &&& (x != 15 ==> t.v[15] == s.v[15])
            &&& t.pc == next_pc(s.pc)
            &&& t.ram == s.ram
            &&& t.disp == s.disp
            &&& t.i == s.i
            &&& t.sp == s.sp
        }),
{
}

/// Arithmetic-add carry convention: `8XY4` stores the sum modulo 256 in VX
/// and sets the flag register to 1 exactly when the unsigned sum exceeds
/// 255, to 0 otherwise.
pub proof fn lemma_add_carry(s: VmState, x: u8, y: u8, rnd: u8)
    requires
        s.wf(),
        x < 16,
        y < 16,
        x != 15,
    ensures
        exec_spec(s, Instr::Add { x, y }, rnd) is Ok,
        ({
            let t = exec_spec(s, Instr::Add { x, y }, rnd)->Ok_0;
            &&& t.v[x as int] == (s.v[x as int] + s.v[y as int]) % 256
            &&& t.v[15] == (if s.v[x as int] + s.v[y as int] > 255 {
                1u8
            } else {
                0u8
            })
            &&& (forall|k: int| 0 <= k < 16 && k != x && k != 15 ==> t.v[k] == s.v[k])
            &&& t.pc == next_pc(s.pc)
        }),
{
}

/// Subtract no-borrow convention: `8XY5` stores (VX - VY) modulo 256 in VX
/// and sets the flag register to 1 exactly when VX >= VY (no borrow), to 0
/// otherwise.
pub proof fn lemma_sub_no_borrow(s: VmState, x: u8, y: u8, rnd: u8)
    requires
        s.wf(),
        x < 16,
        y < 16,
        x != 15,
    ensures
        exec_spec(s, Instr::Sub { x, y }, rnd) is Ok,
        ({
            let t = exec_spec(s, Instr::Sub { x, y }, rnd)->Ok_0;
            &&& t.v[x as int] == (s.v[x as int] + 256 - s.v[y as int]) % 256
            &&& (s.v[x as int] >= s.v[y as int] ==> t.v[x as int] == s.v[x as int] - s.v[
                y as int
            ])
            &&& (s.v[x as int] < s.v[y as int] ==> t.v[x as int] == s.v[x as int] + 256 - s.v[
                y as int
            ])
            &&& t.v[15] == (if s.v[x as int] >= s.v[y as int] {
                1u8
            } else {
                0u8
            })
            &&& (forall|k: int| 0 <= k < 16 && k != x && k != 15 ==> t.v[k] == s.v[k])
            &&& t.pc == next_pc(s.pc)
        }),
{
}

/// The machine after a sequence of nested calls to the given targets, or
/// `None` if one of them overflowed the stack.
pub open spec fn do_calls(s: VmState, targets: Seq<u16>) -> Option<VmState>
    decreases targets.len(),
{
    if targets.len() == 0 {
        Some(s)
    } else {
        match exec_spec(s, Instr::Call { nnn: targets[0] }, 0) {
            Ok(s2) => do_calls(s2, targets.drop_first()),
            Err(_) => None,
        }
    }
}

/// The machine after one return, or `None` on stack underflow.
pub open spec fn ret_once(s: VmState) -> Option<VmState> {
    match exec_spec(s, Instr::Ret, 0) {
        Ok(s2) => Some(s2),
        Err(_) => None,
    }
}

/// The machine after `n` returns, or `None` if one of them underflowed.
pub open spec fn do_rets(s: VmState, n: nat) -> Option<VmState>
    decreases n,
{
    if n == 0 {
        Some(s)
    } else {
        match ret_once(s) {
            Some(s2) => do_rets(s2, (n - 1) as nat),
            None => None,
        }
    }
}

/// Performing `n + 1` returns is performing `n` and then one more.
proof fn lemma_rets_snoc(s: VmState, n: nat)
    ensures
        do_rets(s, n + 1) == (match do_rets(s, n) {
            Some(t) => ret_once(t),
            None => None,
        }),
    decreases n,
{
    if n == 0 {
        assert(do_rets(s, 1) == (match ret_once(s) {
            Some(t) => do_rets(t, 0),
            None => None,
        }));
    } else {
        match ret_once(s) {
            Some(s2) => {
                lemma_rets_snoc(s2, (n - 1) as nat);
                assert(do_rets(s, n + 1) == do_rets(s2, ((n + 1) - 1) as nat));
                assert(do_rets(s2, ((n + 1) - 1) as nat) == do_rets(s2, (n - 1) as nat + 1));
            },
            None => {
                assert(do_rets(s, n + 1) == None::<VmState>);
                assert(do_rets(s, n) == None::<VmState>);
            },
        }
    }
}

/// Call/return stack discipline: from any well-formed state with room on
/// the call stack, any sequence of nested calls followed by as many returns
/// brings the stack pointer back exactly to its pre-call value and leaves
/// the machine at the instruction after the first call — the pushed return
/// address — with the registers, memory, display, input, timers and the
/// live portion of the stack untouched.
pub proof fn lemma_call_ret_discipline(s: VmState, targets: Seq<u16>)
    requires
        s.wf(),
        forall|k: int| 0 <= k < targets.len() ==> targets[k] < 4096,
        s.sp + targets.len() <= 16,
    ensures
        do_calls(s, targets) is Some,
        do_calls(s, targets)->Some_0.sp == s.sp + targets.len(),
        do_calls(s, targets)->Some_0.wf(),
        do_rets(do_calls(s, targets)->Some_0, targets.len()) is Some,
        ({
            let t = do_rets(do_calls(s, targets)->Some_0, targets.len())->Some_0;
            &&& t.wf()
            &&& t.sp == s.sp
            &&& (targets.len() > 0 ==> t.pc == next_pc(s.pc))
            &&& (targets.len() == 0 ==> t == s)
            &&& (forall|k: int| 0 <= k < s.sp ==> t.stack[k] == s.stack[k])
            &&& t.v == s.v
            &&& t.ram == s.ram
            &&& t.disp == s.disp
            &&& t.input == s.input
            &&& t.i == s.i
            &&& t.dt == s.dt
            &&& t.st == s.st
            &&& t.waiting == s.waiting
        }),
    decreases targets.len(),
{
    if targets.len() > 0 {
        let c = exec_spec(s, Instr::Call { nnn: targets[0] }, 0);
        assert(c is Ok);
        let s1 = c->Ok_0;
        assert(s1.wf());
        assert(forall|k: int|
            0 <= k < targets.drop_first().len() ==> targets.drop_first()[k] < 4096);
        lemma_call_ret_discipline(s1, targets.drop_first());
        let mid = do_calls(s1, targets.drop_first())->Some_0;
        let r1 = do_rets(mid, targets.drop_first().len())->Some_0;
        lemma_rets_snoc(mid, targets.drop_first().len());
        assert(r1.sp == s.sp + 1);
        assert(r1.stack[s.sp as int] == next_pc(s.pc));
        assert(do_rets(mid, targets.len()) == ret_once(r1));
    }
}

/// A call with the stack already full is a fatal overflow and changes
/// nothing.
pub proof fn lemma_call_overflow(s: VmState, nnn: u16, rnd: u8)
    requires
        s.sp >= 16,
    ensures
        exec_spec(s, Instr::Call { nnn }, rnd) == Err::<VmState, VmError>(VmError::StackOverflow),
{
}

/// The machine after `n` ticks of the fixed-cadence timer clock.
pub open spec fn ticks(s: VmState, n: nat) -> VmState
    decreases n,
{
    if n == 0 {
        s
    } else {
        tick_spec(ticks(s, (n - 1) as nat))
    }
}

/// Timer decay: `n` ticks of the fixed-cadence clock bring a timer from
/// `v` down to `v - n`, clamped at zero — so a delay timer set to five
/// reads zero after five ticks and stays there — and touch nothing else in
/// the machine.
pub proof fn lemma_timer_decay(s: VmState, n: nat)
    ensures
        ticks(s, n).dt == (if n >= s.dt {
            0int
        } else {
            s.dt - n
        }),
        ticks(s, n).st == (if n >= s.st {
            0int
        } else {
            s.st - n
        }),
        ticks(s, n) == (VmState { dt: ticks(s, n).dt, st: ticks(s, n).st, ..s }),
    decreases n,
{
    if n > 0 {
        lemma_timer_decay(s, (n - 1) as nat);
    }
}

} // verus!

verus! {

/// The display column hit by bit `j` of a sprite row drawn from horizontal
/// position `x`.
pub open spec fn pix_col(x: int, j: int) -> int {
    ((x % 64) + j) % 64
}

/// The display row hit by row `i` of a sprite drawn from vertical position
/// `y`.
pub open spec fn row_of(y: int, i: int) -> int {
    ((y % 32) + (i % 32)) % 32
}

/// The display index hit by bit `j` of sprite row `i` drawn at (`x`, `y`).
pub open spec fn pix(x: int, y: int, i: int, j: int) -> int {
    row_of(y, i) * 64 + pix_col(x, j)
}

/// Distinct bits of one sprite row land on distinct columns.
proof fn lemma_col_distinct(x: int, t1: int, t2: int)
    requires
        0 <= t1 < 8,
        0 <= t2 < 8,
        t1 != t2,
    ensures
        pix_col(x, t1) != pix_col(x, t2),
{
    let c = x % 64;
    assert(pix_col(x, t1) == if c + t1 < 64 {
        c + t1
    } else {
        c + t1 - 64
    });
    assert(pix_col(x, t2) == if c + t2 < 64 {
        c + t2
    } else {
        c + t2 - 64
    });
}

/// Distinct rows of a sprite of at most 32 rows land on distinct display
/// rows.
proof fn lemma_row_distinct(y: int, i1: int, i2: int)
    requires
        0 <= i1 < 32,
        0 <= i2 < 32,
        i1 != i2,
    ensures
        row_of(y, i1) != row_of(y, i2),
{
    let c = y % 32;
    assert(row_of(y, i1) == if c + i1 < 32 {
        c + i1
    } else {
        c + i1 - 32
    });
    assert(row_of(y, i2) == if c + i2 < 32 {
        c + i2
    } else {
        c + i2 - 32
    });
}

/// Within one draw of a sprite of at most 32 rows, distinct sprite bits
/// land on distinct display pixels.
proof fn lemma_pix_distinct(x: int, y: int, i1: int, j1: int, i2: int, j2: int)
    requires
        0 <= i1 < 32,
        0 <= i2 < 32,
        0 <= j1 < 8,
        0 <= j2 < 8,
        i1 != i2 || j1 != j2,
    ensures
        pix(x, y, i1, j1) != pix(x, y, i2, j2),
{
    assert(0 <= row_of(y, i1) < 32);
    assert(0 <= row_of(y, i2) < 32);
    assert(0 <= pix_col(x, j1) < 64);
    assert(0 <= pix_col(x, j2) < 64);
    if i1 != i2 {
        lemma_row_distinct(y, i1, i2);
    } else {
        lemma_col_distinct(x, j1, j2);
    }
}

/// Drawing one sprite row preserves the display's length.
proof fn lemma_row_len(disp: Seq<u8>, x: int, row: int, b: u8, j: int)
    requires
        disp.len() == 2048,
        0 <= row < 32,
    ensures
        draw_row_from(disp, x, row, b, j).0.len() == 2048,
    decreases 8 - j,
{
    if 0 <= j < 8 {
        let idx = row * 64 + ((x % 64) + j) % 64;
        lemma_row_len(disp.update(idx, sprite_bit(b, j) ^ disp[idx]), x, row, b, j + 1);
    }
}

/// Drawing one sprite row leaves every pixel it does not target unchanged.
proof fn lemma_row_frame(disp: Seq<u8>, x: int, row: int, b: u8, j: int, p: int)
    requires
        disp.len() == 2048,
        0 <= row < 32,
        0 <= p < 2048,
        forall|t: int| j <= t < 8 ==> p != row * 64 + pix_col(x, t),
    ensures
        draw_row_from(disp, x, row, b, j).0[p] == disp[p],
    decreases 8 - j,
{
    if 0 <= j < 8 {
        let idx = row * 64 + pix_col(x, j);
        lemma_row_frame(disp.update(idx, sprite_bit(b, j) ^ disp[idx]), x, row, b, j + 1, p);
    }
}

/// Each pixel one sprite row targets ends as its old value XOR the sprite
/// bit aimed at it.
proof fn lemma_row_effect(disp: Seq<u8>, x: int, row: int, b: u8, j: int, t: int)
    requires
        disp.len() == 2048,
        0 <= row < 32,
        0 <= j <= t < 8,
    ensures
        draw_row_from(disp, x, row, b, j).0[row * 64 + pix_col(x, t)] == sprite_bit(b, t) ^ disp[row
            * 64 + pix_col(x, t)],
    decreases 8 - j,
{
    let idx = row * 64 + pix_col(x, j);
    let d2 = disp.update(idx, sprite_bit(b, j) ^ disp[idx]);
    if t == j {
        assert forall|t2: int| j + 1 <= t2 < 8 implies idx != row * 64 + pix_col(x, t2) by {
            lemma_col_distinct(x, j, t2);
        }
        lemma_row_frame(d2, x, row, b, j + 1, idx);
    } else {
        lemma_col_distinct(x, j, t);
        lemma_row_effect(d2, x, row, b, j + 1, t);
    }
}

} // verus!

verus! {

/// Drawing a sprite preserves the display's length.
proof fn lemma_sprite_len(disp: Seq<u8>, x: int, y: int, sprite: Seq<u8>, n: int)
    requires
        disp.len() == 2048,
    ensures
        draw_sprite(disp, x, y, sprite, n).0.len() == 2048,
    decreases n,
{
    if n > 0 {
        lemma_sprite_len(disp, x, y, sprite, n - 1);
        let row = ((y % 32) + ((n - 1) % 32)) % 32;
        lemma_row_len(draw_sprite(disp, x, y, sprite, n - 1).0, x, row, sprite[n - 1], 0);
    }
}

/// Drawing a sprite leaves every pixel it does not target unchanged.
proof fn lemma_sprite_frame(disp: Seq<u8>, x: int, y: int, sprite: Seq<u8>, n: int, p: int)
    requires
        disp.len() == 2048,
        0 <= n <= 32,
        0 <= p < 2048,
        forall|i: int, j: int| 0 <= i < n && 0 <= j < 8 ==> p != pix(x, y, i, j),
    ensures
        draw_sprite(disp, x, y, sprite, n).0[p] == disp[p],
    decreases n,
{
    if n > 0 {
        lemma_sprite_frame(disp, x, y, sprite, n - 1, p);
        lemma_sprite_len(disp, x, y, sprite, n - 1);
        let d1 = draw_sprite(disp, x, y, sprite, n - 1).0;
        let row = ((y % 32) + ((n - 1) % 32)) % 32;
        assert(row == row_of(y, n - 1));
        assert forall|t: int| 0 <= t < 8 implies p != row * 64 + pix_col(x, t) by {
            assert(p != pix(x, y, n - 1, t));
        }
        lemma_row_frame(d1, x, row, sprite[n - 1], 0, p);
    }
}

/// Each pixel a sprite of at most 32 rows targets ends as the sprite bit
/// aimed at it XOR its old value.
proof fn lemma_sprite_effect(disp: Seq<u8>, x: int, y: int, sprite: Seq<u8>, n: int, i: int, j: int)
    requires
        disp.len() == 2048,
        0 <= n <= 32,
        0 <= i < n,
        0 <= j < 8,
    ensures
        draw_sprite(disp, x, y, sprite, n).0[pix(x, y, i, j)] == sprite_bit(sprite[i], j) ^ disp[pix(
            x,
            y,
            i,
            j,
        )],
    decreases n,
{
    let p = pix(x, y, i, j);
    assert(0 <= row_of(y, i) < 32);
    assert(0 <= pix_col(x, j) < 64);
    assert(0 <= p < 2048);
    lemma_sprite_len(disp, x, y, sprite, n - 1);
    let d1 = draw_sprite(disp, x, y, sprite, n - 1).0;
    let row = ((y % 32) + ((n - 1) % 32)) % 32;
    assert(row == row_of(y, n - 1));
    if i == n - 1 {
        assert forall|i2: int, j2: int|
            0 <= i2 < n - 1 && 0 <= j2 < 8 implies p != pix(x, y, i2, j2) by {
            lemma_pix_distinct(x, y, i, j, i2, j2);
        }
        lemma_sprite_frame(disp, x, y, sprite, n - 1, p);
        lemma_row_effect(d1, x, row, sprite[i], 0, j);
    } else {
        lemma_sprite_effect(disp, x, y, sprite, n - 1, i, j);
        assert forall|t: int| 0 <= t < 8 implies p != row * 64 + pix_col(x, t) by {
            lemma_pix_distinct(x, y, i, j, n - 1, t);
            assert(pix(x, y, n - 1, t) == row * 64 + pix_col(x, t));
        }
        lemma_row_frame(d1, x, row, sprite[n - 1], 0, p);
    }
}

/// XOR-ing the same value in twice restores a byte.
proof fn lemma_xor_involution(a: u8, b: u8)
    ensures
        a ^ (a ^ b) == b,
{
    assert(a ^ (a ^ b) == b) by (bit_vector);
}

/// XOR drawing is its own inverse: drawing the same sprite of at most 32
/// rows twice at the same position restores the display exactly.
pub proof fn lemma_draw_involution(disp: Seq<u8>, x: int, y: int, sprite: Seq<u8>)
    requires
        disp.len() == 2048,
        sprite.len() <= 32,
    ensures
        draw_sprite(
            draw_sprite(disp, x, y, sprite, sprite.len() as int).0,
            x,
            y,
            sprite,
            sprite.len() as int,
        ).0 == disp,
{
    let n = sprite.len() as int;
    let d1 = draw_sprite(disp, x, y, sprite, n).0;
    let d2 = draw_sprite(d1, x, y, sprite, n).0;
    lemma_sprite_len(disp, x, y, sprite, n);
    lemma_sprite_len(d1, x, y, sprite, n);
    assert forall|p: int| 0 <= p < 2048 implies d2[p] == disp[p] by {
        if exists|i: int, j: int| 0 <= i < n && 0 <= j < 8 && p == pix(x, y, i, j) {
            let (i, j) = choose|i: int, j: int| 0 <= i < n && 0 <= j < 8 && p == pix(x, y, i, j);
            lemma_sprite_effect(disp, x, y, sprite, n, i, j);
            lemma_sprite_effect(d1, x, y, sprite, n, i, j);
            lemma_xor_involution(sprite_bit(sprite[i], j), disp[p]);
        } else {
            lemma_sprite_frame(disp, x, y, sprite, n, p);
            lemma_sprite_frame(d1, x, y, sprite, n, p);
        }
    }
    assert(d2 =~= disp);
}

} // verus!

verus! {

/// The collision bit of one drawn row: some remaining sprite bit is set
/// where the pixel it lands on is lit.
proof fn lemma_row_collision(disp: Seq<u8>, x: int, row: int, b: u8, j: int)
    requires
        disp.len() == 2048,
        0 <= row < 32,
        0 <= j,
    ensures
        draw_row_from(disp, x, row, b, j).1 == exists|t: int|
            j <= t < 8 && sprite_bit(b, t) == 1 && disp[row * 64 + pix_col(x, t)] == 1,
    decreases 8 - j,
{
    if j < 8 {
        let idx = row * 64 + pix_col(x, j);
        let d2 = disp.update(idx, sprite_bit(b, j) ^ disp[idx]);
        lemma_row_collision(d2, x, row, b, j + 1);
        assert forall|t: int|
            j + 1 <= t < 8 implies d2[row * 64 + pix_col(x, t)] == disp[row * 64 + pix_col(
            x,
            t,
        )] by {
            lemma_col_distinct(x, j, t);
        }
        if exists|t: int|
            j + 1 <= t < 8 && sprite_bit(b, t) == 1 && d2[row * 64 + pix_col(x, t)] == 1 {
            let t = choose|t: int|
                j + 1 <= t < 8 && sprite_bit(b, t) == 1 && d2[row * 64 + pix_col(x, t)] == 1;
            assert(j <= t < 8 && sprite_bit(b, t) == 1 && disp[row * 64 + pix_col(x, t)] == 1);
        }
        if sprite_bit(b, j) == 1 && disp[idx] == 1 {
            assert(j <= j < 8 && sprite_bit(b, j) == 1 && disp[row * 64 + pix_col(x, j)] == 1);
        }
        if exists|t: int| j <= t < 8 && sprite_bit(b, t) == 1 && disp[row * 64 + pix_col(x, t)]
            == 1 {
            let t = choose|t: int|
                j <= t < 8 && sprite_bit(b, t) == 1 && disp[row * 64 + pix_col(x, t)] == 1;
            if t != j {
                assert(j + 1 <= t < 8 && sprite_bit(b, t) == 1 && d2[row * 64 + pix_col(x, t)]
                    == 1);
            }
        }
    }
}

/// The collision bit of a whole draw of at most 32 rows: some set sprite
/// bit lands on a lit pixel of the original display.
proof fn lemma_sprite_collision(disp: Seq<u8>, x: int, y: int, sprite: Seq<u8>, n: int)
    requires
        disp.len() == 2048,
        0 <= n <= 32,
    ensures
        draw_sprite(disp, x, y, sprite, n).1 == exists|i: int, j: int|
            0 <= i < n && 0 <= j < 8 && sprite_bit(sprite[i], j) == 1 && disp[pix(x, y, i, j)]
                == 1,
    decreases n,
{
    if n > 0 {
        lemma_sprite_collision(disp, x, y, sprite, n - 1);
        lemma_sprite_len(disp, x, y, sprite, n - 1);
        let d1 = draw_sprite(disp, x, y, sprite, n - 1).0;
        let row = ((y % 32) + ((n - 1) % 32)) % 32;
        assert(row == row_of(y, n - 1));
        lemma_row_collision(d1, x, row, sprite[n - 1], 0);
        assert forall|t: int|
            0 <= t < 8 implies d1[row * 64 + pix_col(x, t)] == disp[row * 64 + pix_col(x, t)] by {
            let p = pix(x, y, n - 1, t);
            assert(0 <= row_of(y, n - 1) < 32);
            assert(0 <= pix_col(x, t) < 64);
            assert forall|i2: int, j2: int|
                0 <= i2 < n - 1 && 0 <= j2 < 8 implies p != pix(x, y, i2, j2) by {
                lemma_pix_distinct(x, y, n - 1, t, i2, j2);
            }
            lemma_sprite_frame(disp, x, y, sprite, n - 1, p);
        }
        if exists|t: int|
            0 <= t < 8 && sprite_bit(sprite[n - 1], t) == 1 && d1[row * 64 + pix_col(x, t)] == 1 {
            let t = choose|t: int|
                0 <= t < 8 && sprite_bit(sprite[n - 1], t) == 1 && d1[row * 64 + pix_col(x, t)]
                    == 1;
            assert(0 <= n - 1 < n && 0 <= t < 8 && sprite_bit(sprite[n - 1], t) == 1 && disp[pix(
                x,
                y,
                n - 1,
                t,
            )] == 1);
        }
        if exists|i: int, j: int|
            0 <= i < n - 1 && 0 <= j < 8 && sprite_bit(sprite[i], j) == 1 && disp[pix(x, y, i, j)]
                == 1 {
            let (i, j) = choose|i: int, j: int|
                0 <= i < n - 1 && 0 <= j < 8 && sprite_bit(sprite[i], j) == 1 && disp[pix(
                    x,
                    y,
                    i,
                    j,
                )] == 1;
            assert(0 <= i < n && 0 <= j < 8 && sprite_bit(sprite[i], j) == 1 && disp[pix(
                x,
                y,
                i,
                j,
            )] == 1);
        }
        if exists|i: int, j: int|
            0 <= i < n && 0 <= j < 8 && sprite_bit(sprite[i], j) == 1 && disp[pix(x, y, i, j)]
                == 1 {
            let (i, j) = choose|i: int, j: int|
                0 <= i < n && 0 <= j < 8 && sprite_bit(sprite[i], j) == 1 && disp[pix(x, y, i, j)]
                    == 1;
            if i == n - 1 {
                assert(0 <= j < 8 && sprite_bit(sprite[n - 1], j) == 1 && d1[row * 64 + pix_col(
                    x,
                    j,
                )] == 1);
            } else {
                assert(0 <= i < n - 1 && 0 <= j < 8 && sprite_bit(sprite[i], j) == 1 && disp[pix(
                    x,
                    y,
                    i,
                    j,
                )] == 1);
            }
        }
    }
}

/// What the collision flag means: a draw of at most 32 rows reports a
/// collision exactly when some set sprite bit lands on a lit pixel — a
/// previously-lit pixel turned off — never merely because a pixel changed.
pub proof fn lemma_draw_collision_exact(disp: Seq<u8>, x: int, y: int, sprite: Seq<u8>)
    requires
        disp.len() == 2048,
        sprite.len() <= 32,
    ensures
        draw_sprite(disp, x, y, sprite, sprite.len() as int).1 == exists|i: int, j: int|
            0 <= i < sprite.len() && 0 <= j < 8 && sprite_bit(sprite[i], j) == 1 && disp[pix(
                x,
                y,
                i,
                j,
            )] == 1,
{
    lemma_sprite_collision(disp, x, y, sprite, sprite.len() as int);
}

/// Draw/collision round-trip: on a bit-valued display, drawing a sprite of
/// at most 32 rows twice at the same position restores the display; and
/// when the first draw reported no collision, the second reports one
/// exactly when the sprite has any set bit — it erases exactly what the
/// first draw lit.
pub proof fn lemma_draw_round_trip(disp: Seq<u8>, x: int, y: int, sprite: Seq<u8>)
    requires
        disp.len() == 2048,
        forall|p: int| 0 <= p < 2048 ==> disp[p] <= 1,
        sprite.len() <= 32,
    ensures
        draw_sprite(
            draw_sprite(disp, x, y, sprite, sprite.len() as int).0,
            x,
            y,
            sprite,
            sprite.len() as int,
        ).0 == disp,
        !draw_sprite(disp, x, y, sprite, sprite.len() as int).1 ==> draw_sprite(
            draw_sprite(disp, x, y, sprite, sprite.len() as int).0,
            x,
            y,
            sprite,
            sprite.len() as int,
        ).1 == (exists|i: int, j: int|
            0 <= i < sprite.len() && 0 <= j < 8 && sprite_bit(sprite[i], j) == 1),
{
    let n = sprite.len() as int;
    let d1 = draw_sprite(disp, x, y, sprite, n).0;
    lemma_draw_involution(disp, x, y, sprite);
    lemma_sprite_len(disp, x, y, sprite, n);
    lemma_sprite_collision(disp, x, y, sprite, n);
    lemma_sprite_collision(d1, x, y, sprite, n);
    if !draw_sprite(disp, x, y, sprite, n).1 {
        if exists|i: int, j: int|
            0 <= i < sprite.len() && 0 <= j < 8 && sprite_bit(sprite[i], j) == 1 {
            let (i, j) = choose|i: int, j: int|
                0 <= i < sprite.len() && 0 <= j < 8 && sprite_bit(sprite[i], j) == 1;
            let p = pix(x, y, i, j);
            assert(0 <= row_of(y, i) < 32);
            assert(0 <= pix_col(x, j) < 64);
            assert(disp[p] != 1);
            assert(disp[p] == 0);
            lemma_sprite_effect(disp, x, y, sprite, n, i, j);
            assert((1u8 ^ 0u8) == 1u8) by (bit_vector);
            assert(d1[p] == 1);
            assert(0 <= i < n && 0 <= j < 8 && sprite_bit(sprite[i], j) == 1 && d1[pix(x, y, i, j)]
                == 1);
        }
        if draw_sprite(d1, x, y, sprite, n).1 {
            let (i, j) = choose|i: int, j: int|
                0 <= i < n && 0 <= j < 8 && sprite_bit(sprite[i], j) == 1 && d1[pix(x, y, i, j)]
                    == 1;
            assert(0 <= i < sprite.len() && 0 <= j < 8 && sprite_bit(sprite[i], j) == 1);
        }
    }
}

} // verus!

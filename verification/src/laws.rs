//! Laws of the instruction set, stated over the model and proved once and
//! for all: wraparound arithmetic never faults, the borrow flag's polarity,
//! the XOR blit's round trip and collision report, edge clipping, the
//! call/return round trip, the timer floor, and the frozen wait state.

use vstd::prelude::*;
use crate::instruction::Instruction;
use crate::state::VmState;
use crate::state::covered_upto;
use crate::state::draw_upto;
use crate::state::first_pressed;
use crate::state::hit_upto;
use crate::state::rows_drawn;
use crate::state::spec_cycle;
use crate::state::spec_draw;
use crate::state::spec_execute;
use crate::state::sprite_bit;
use crate::state::sprite_bit_at;
use crate::state::tick;
use crate::state::wrap_add;
use crate::state::wrap_sub;

verus! {

/// Register arithmetic wraps and never faults: the add-immediate instruction
/// always succeeds, and the register receives the 8-bit wraparound sum.
pub proof fn lemma_add_register_wraps(s: VmState, x: u8, value: u8, rnd: u8)
    requires
        s.wf(),
        x < 16,
    ensures
        spec_execute(s, Instruction::AddRegister { x, value }, rnd).1 is Ok,
        spec_execute(s, Instruction::AddRegister { x, value }, rnd).0.regs[x as int] == wrap_add(
            s.regs[x as int],
            value,
        ),
{
}

/// The borrow flag's polarity: subtraction wraps, never faults, and `VF` is
/// one exactly when no borrow occurred, that is when the minuend is at least
/// the subtrahend.
pub proof fn lemma_sub_borrow_polarity(s: VmState, x: u8, y: u8, rnd: u8)
    requires
        s.wf(),
        x < 16,
        y < 16,
    ensures
        spec_execute(s, Instruction::SubWithBorrow { x, y }, rnd).1 is Ok,
        spec_execute(s, Instruction::SubWithBorrow { x, y }, rnd).0.regs[15] == (
        if s.regs[x as int] >= s.regs[y as int] {
            1u8
        } else {
            0u8
        }),
        x != 15 ==> spec_execute(s, Instruction::SubWithBorrow { x, y }, rnd).0.regs[x as int]
            == wrap_sub(s.regs[x as int], s.regs[y as int]),
{
}

/// The timer floor: a step never goes below zero, a positive timer loses
/// exactly one, and from one the timer reaches zero and stays there.
pub proof fn lemma_timer_floor(t: u8)
    ensures
        tick(t) <= t,
        t > 0 ==> tick(t) == t - 1,
        tick(0) == 0,
        tick(tick(1)) == 0,
{
}

/// The call/return round trip: a call from any state with stack room,
/// followed by a return, restores the program counter to the instruction
/// after the call and leaves the stack as it was.
pub proof fn lemma_call_return_round_trip(s: VmState, address: u16, rnd1: u8, rnd2: u8)
    requires
        s.wf(),
        s.stack.len() < 16,
        address < 0x1000,
    ensures
        spec_execute(s, Instruction::Call { address }, rnd1).1 is Ok,
        spec_execute(s, Instruction::Call { address }, rnd1).0.pc == address,
        spec_execute(
            spec_execute(s, Instruction::Call { address }, rnd1).0,
            Instruction::Return,
            rnd2,
        ).1 is Ok,
        spec_execute(
            spec_execute(s, Instruction::Call { address }, rnd1).0,
            Instruction::Return,
            rnd2,
        ).0.pc == (s.pc + 2) as u16,
        spec_execute(
            spec_execute(s, Instruction::Call { address }, rnd1).0,
            Instruction::Return,
            rnd2,
        ).0.stack == s.stack,
{
    let s1 = spec_execute(s, Instruction::Call { address }, rnd1).0;
    let s2 = spec_execute(s1, Instruction::Return, rnd2).0;
    assert(s1.stack == s.stack.push((s.pc + 2) as u16));
    assert(s2.stack =~= s.stack);
}

/// While suspended waiting for a key, a cycle decays no timer, executes no
/// opcode and moves the program counter nowhere; when some key is held, the
/// lowest pressed index lands in the wait target register and execution
/// resumes.
pub proof fn lemma_wait_freezes_machine(s: VmState, keys: Seq<bool>, rnd: u8)
    requires
        s.wf(),
        s.waiting,
        keys.len() == 16,
    ensures
        spec_cycle(s, keys, rnd).1 is Ok,
        spec_cycle(s, keys, rnd).0.delay == s.delay,
        spec_cycle(s, keys, rnd).0.sound == s.sound,
        spec_cycle(s, keys, rnd).0.pc == s.pc,
        spec_cycle(s, keys, rnd).0.mem == s.mem,
        spec_cycle(s, keys, rnd).0.fb == s.fb,
        first_pressed(keys) == 16 ==> spec_cycle(s, keys, rnd).0.waiting,
        first_pressed(keys) < 16 ==> !spec_cycle(s, keys, rnd).0.waiting && spec_cycle(
            s,
            keys,
            rnd,
        ).0.regs[s.wait_reg as int] == first_pressed(keys) as u8,
{
}

/// Clipping, not wrapping: a draw that succeeds changes no pixel outside the
/// sprite's window.  Columns left of the start column or past the right edge,
/// and rows above the start row or past the bottom edge, keep their value;
/// nothing wraps around to the opposite side.
pub proof fn lemma_draw_clips(s: VmState, fault_pc: u16, x: u8, y: u8, n: u8, p: int)
    requires
        s.wf(),
        x < 16,
        y < 16,
        n < 16,
        0 <= p < 2048,
        spec_draw(s, fault_pc, x, y, n).1 is Ok,
        !({
            let col0 = s.regs[x as int] % 64;
            let row0 = s.regs[y as int] % 32;
            col0 <= p % 64 < col0 + 8 && row0 <= p / 64 < row0 + rows_drawn(row0 as int, n)
        }),
    ensures
        spec_draw(s, fault_pc, x, y, n).0.fb[p] == s.fb[p],
{
}

/// The XOR blit's round trip and collision report: drawing a one-row sprite
/// into a clear region lights its pixels and reports no collision; drawing
/// the same sprite again at the same spot restores the framebuffer bit for
/// bit and, provided some bit of the sprite is visible, reports the
/// collision in `VF`.
pub proof fn lemma_draw_twice_restores(s: VmState, fault_pc: u16, x: u8, y: u8, rnd: u8)
    requires
        s.wf(),
        x < 16,
        y < 16,
        x != 15,
        y != 15,
        s.index < 4096,
        // the (at most eight) target pixels are clear: those of the sprite's
        // row, stopping at the right edge
        forall|p: int|
            (s.regs[y as int] % 32) * 64 + (s.regs[x as int] % 64) <= p < (s.regs[y as int] % 32)
                * 64 + (s.regs[x as int] % 64) + 8 && p < (s.regs[y as int] % 32) * 64 + 64
                ==> !(#[trigger] s.fb[p]),
        // some sprite bit lands on the screen
        exists|j: int|
            0 <= j < 8 && (s.regs[x as int] % 64) + j < 64 && #[trigger] sprite_bit(
                s.mem[s.index as int],
                j,
            ),
    ensures
        ({
            let first = spec_draw(s, fault_pc, x, y, 1);
            let second = spec_draw(first.0, fault_pc, x, y, 1);
            &&& first.1 is Ok
            &&& second.1 is Ok
            &&& first.0.regs[15] == 0
            &&& second.0.regs[15] == 1
            &&& second.0.fb == s.fb
        }),
{
    let col0 = (s.regs[x as int] % 64) as int;
    let row0 = (s.regs[y as int] % 32) as int;
    let i = s.index as int;
    let fb1 = draw_upto(s.fb, s.mem, i, col0, row0, 1, 0);
    assert(rows_drawn(row0, 1) == 1);

    // Every pixel the blit covers is one of the eight of the single row.
    assert forall|p: int|
        0 <= p < 2048 && #[trigger] covered_upto(col0, row0, 1, 0, p) implies p / 64 == row0 && p
        == row0 * 64 + (p % 64) && col0 <= p % 64 < col0 + 8 && p % 64 < 64 by {
        vstd::arithmetic::div_mod::lemma_fundamental_div_mod(p, 64);
        vstd::arithmetic::div_mod::lemma_mod_bound(p, 64);
    }

    // No covered pixel is lit, so the first draw collides with nothing.
    assert(!hit_upto(s.fb, s.mem, i, col0, row0, 1, 0)) by {
        assert forall|p: int|
            0 <= p < 2048 && #[trigger] covered_upto(col0, row0, 1, 0, p) implies !s.fb[p] by {
            vstd::arithmetic::div_mod::lemma_fundamental_div_mod(p, 64);
            vstd::arithmetic::div_mod::lemma_mod_bound(p, 64);
            assert(row0 * 64 + col0 <= p < row0 * 64 + col0 + 8 && p < row0 * 64 + 64);
        }
    }
    let first = spec_draw(s, fault_pc, x, y, 1);
    assert(first.1 is Ok);
    assert(first.0.regs[15] == 0);
    assert(first.0.fb == fb1);
    assert(first.0.regs[x as int] == s.regs[x as int] && first.0.regs[y as int] == s.regs[y
        as int]);

    // A visible sprite bit is now lit, so the second draw reports a collision.
    let j0 = choose|j: int|
        0 <= j < 8 && col0 + j < 64 && #[trigger] sprite_bit(s.mem[i], j);
    let p0 = row0 * 64 + col0 + j0;
    assert(p0 / 64 == row0 && p0 % 64 == col0 + j0) by (nonlinear_arith)
        requires
            p0 == row0 * 64 + (col0 + j0),
            0 <= col0 + j0 < 64,
            0 <= row0,
    ;
    assert(0 <= p0 < 2048);
    assert(covered_upto(col0, row0, 1, 0, p0));
    assert(sprite_bit_at(s.mem, i, col0, row0, p0));
    assert(fb1[p0]);
    assert(hit_upto(fb1, s.mem, i, col0, row0, 1, 0));

    let second = spec_draw(first.0, fault_pc, x, y, 1);
    assert(second.1 is Ok);
    assert(second.0.regs[15] == 1);

    // XOR twice is the identity, pixel for pixel.
    assert(second.0.fb =~= s.fb);
}

} // verus!

//! The mathematical model of the machine: an abstract state, the faults that
//! end a run, and the transition function that gives every opcode its meaning.
//!
//! The executable machine in `vm` refines this model: each of its operations
//! is proved to produce exactly the state these functions describe.

use vstd::prelude::*;
use crate::instruction::Instruction;
use crate::instruction::spec_decode;

verus! {

/// Memory holds 4096 bytes; every computed address must stay below this.
pub const MEMORY_SIZE: usize = 4096;

/// The framebuffer is 64 pixels wide.
pub const DISPLAY_WIDTH: usize = 64;

/// The framebuffer is 32 pixels high.
pub const DISPLAY_HEIGHT: usize = 32;

/// The framebuffer holds 64 * 32 one-bit pixels, row-major.
pub const DISPLAY_SIZE: usize = 2048;

/// The call stack holds at most this many return addresses.
pub const STACK_LIMIT: usize = 16;

/// Programs are loaded at, and execution starts from, this address.
pub const PROGRAM_START: u16 = 0x200;

/// A condition that ends the run: a logic error in the loaded program, never
/// a recoverable event.  Each variant carries the program counter of the
/// faulting instruction.
#[derive(Clone, Copy, Debug, PartialEq, Eq, Structural)]
pub enum Fault {
    /// The fetched word matches no known operation.
    UnknownOpcode { pc: u16, word: u16 },
    /// A return was executed with an empty call stack.
    StackUnderflow { pc: u16 },
    /// A call was executed with the call stack at capacity.
    StackOverflow { pc: u16 },
    /// A memory access computed an address at or beyond 4096; `address` is the
    /// first out-of-range address touched.
    OutOfBounds { pc: u16, address: u32 },
}

/// The abstract machine state: what the contracts speak of.
#[verifier::ext_equal]
pub struct VmState {
    /// 4096 bytes of memory; the font occupies the low 80 bytes.
    pub mem: Seq<u8>,
    /// 2048 one-bit pixels, row-major: pixel (row, col) is at `row * 64 + col`.
    pub fb: Seq<bool>,
    /// The program counter.
    pub pc: u16,
    /// The index register.
    pub index: u16,
    /// Return addresses, oldest first; at most 16.
    pub stack: Seq<u16>,
    /// The delay timer, decremented toward zero once per running cycle.
    pub delay: u8,
    /// The sound timer, decremented toward zero once per running cycle.
    pub sound: u8,
    /// The 16 general registers `V0`..`VF`.
    pub regs: Seq<u8>,
    /// Which of the 16 logical keys are held, replaced wholesale each cycle.
    pub keys: Seq<bool>,
    /// True while a wait-for-key instruction suspends execution.
    pub waiting: bool,
    /// The register that receives the key index that ends a wait.
    pub wait_reg: usize,
    /// True when an instruction changed the framebuffer and the renderer has
    /// not yet been notified.
    pub display_changed: bool,
}

impl VmState {
    /// The structural invariant: every collection has its fixed size, the
    /// stack is within capacity, and the wait target names a register.
    pub open spec fn wf(self) -> bool {
        &&& self.mem.len() == MEMORY_SIZE
        &&& self.fb.len() == DISPLAY_SIZE
        &&& self.regs.len() == 16
        &&& self.keys.len() == 16
        &&& self.stack.len() <= STACK_LIMIT
        &&& self.wait_reg < 16
    }
}

/// One row of the built-in font: glyph `g` drawn as five sprite bytes.
pub open spec fn glyph_sprite(g: int) -> Seq<u8> {
    if g == 0x0 {
        seq![0xF0u8, 0x90, 0x90, 0x90, 0xF0]
    } else if g == 0x1 {
        seq![0x20u8, 0x60, 0x20, 0x20, 0x70]
    } else if g == 0x2 {
        seq![0xF0u8, 0x10, 0xF0, 0x80, 0xF0]
    } else if g == 0x3 {
        seq![0xF0u8, 0x10, 0xF0, 0x10, 0xF0]
    } else if g == 0x4 {
        seq![0x90u8, 0x90, 0xF0, 0x10, 0x10]
    } else if g == 0x5 {
        seq![0xF0u8, 0x80, 0xF0, 0x10, 0xF0]
    } else if g == 0x6 {
        seq![0xF0u8, 0x80, 0xF0, 0x90, 0xF0]
    } else if g == 0x7 {
        seq![0xF0u8, 0x10, 0x20, 0x40, 0x40]
    } else if g == 0x8 {
        seq![0xF0u8, 0x90, 0xF0, 0x90, 0xF0]
    } else if g == 0x9 {
        seq![0xF0u8, 0x90, 0xF0, 0x10, 0xF0]
    } else if g == 0xA {
        seq![0xF0u8, 0x90, 0xF0, 0x90, 0x90]
    } else if g == 0xB {
        seq![0xE0u8, 0x90, 0xE0, 0x90, 0xE0]
    } else if g == 0xC {
        seq![0xF0u8, 0x80, 0x80, 0x80, 0xF0]
    } else if g == 0xD {
        seq![0xE0u8, 0x90, 0x90, 0x90, 0xE0]
    } else if g == 0xE {
        seq![0xF0u8, 0x80, 0xF0, 0x80, 0xF0]
    } else {
        seq![0xF0u8, 0x80, 0xF0, 0x80, 0x80]
    }
}

/// Byte `k` of the 80-byte font region: row `k % 5` of glyph `k / 5`.
pub open spec fn font_byte(k: int) -> u8 {
    glyph_sprite(k / 5)[k % 5]
}

/// Memory as a fresh machine has it: the font in the low 80 bytes, zero
/// everywhere else.
pub open spec fn initial_mem() -> Seq<u8> {
    Seq::new(4096, |k: int| if k < 80 { font_byte(k) } else { 0u8 })
}

/// The state of a fresh machine: cleared registers, stack, timers, keys and
/// framebuffer, the font preloaded, and the program counter at 0x200.
pub open spec fn initial_state() -> VmState {
    VmState {
        mem: initial_mem(),
        fb: Seq::new(2048, |p: int| false),
        pc: 0x200,
        index: 0,
        stack: Seq::empty(),
        delay: 0,
        sound: 0,
        regs: Seq::new(16, |r: int| 0u8),
        keys: Seq::new(16, |k: int| false),
        waiting: false,
        wait_reg: 0,
        display_changed: false,
    }
}

/// 8-bit wraparound addition.
pub open spec fn wrap_add(a: u8, b: u8) -> u8 {
    if a + b > 255 {
        (a + b - 256) as u8
    } else {
        (a + b) as u8
    }
}

/// 8-bit wraparound subtraction.
pub open spec fn wrap_sub(a: u8, b: u8) -> u8 {
    if a - b < 0 {
        (a - b + 256) as u8
    } else {
        (a - b) as u8
    }
}

/// 16-bit wraparound addition.
pub open spec fn wrap_add16(a: u16, b: u16) -> u16 {
    if a + b > 65535 {
        (a + b - 65536) as u16
    } else {
        (a + b) as u16
    }
}

/// One timer step: down by one, floored at zero, never negative.
pub open spec fn tick(t: u8) -> u8 {
    if t == 0 {
        0u8
    } else {
        (t - 1) as u8
    }
}

/// The big-endian instruction word stored at `pc`: first byte high.
pub open spec fn fetch_word(mem: Seq<u8>, pc: u16) -> u16
    recommends
        mem.len() == 4096,
        pc + 1 < 4096,
{
    ((mem[pc as int] as u16) << 8) | (mem[pc as int + 1] as u16)
}

/// The first out-of-range address of an access that starts at `base` and
/// walks upward: `base` itself when it is already out of range, else 4096.
pub open spec fn oob_address(base: int) -> u32
    recommends
        0 <= base < 0x20000,
{
    if base >= 4096 {
        base as u32
    } else {
        4096u32
    }
}

/// The memory address of the built-in glyph for the low nibble of `v`:
/// five bytes per glyph from address zero.
pub open spec fn glyph_address(v: u8) -> u16 {
    ((v & 0xF) * 5) as u16
}

/// Whether bit `j` (0 = leftmost) of sprite byte `b` is set.
pub open spec fn sprite_bit(b: u8, j: int) -> bool
    recommends
        0 <= j < 8,
{
    (b >> ((7 - j) as u8)) & 1 == 1
}

/// The sprite bit that lands on pixel `p` of a blit whose top-left corner is
/// `(row0, col0)` and whose rows are read from memory starting at `i`.
pub open spec fn sprite_bit_at(mem: Seq<u8>, i: int, col0: int, row0: int, p: int) -> bool
    recommends
        mem.len() == 4096,
{
    sprite_bit(mem[i + (p / 64 - row0)], p % 64 - col0)
}

/// Whether pixel `p` is touched by the partial blit that has finished `k`
/// whole rows and the first `j` columns of row `k`.  Columns at or beyond the
/// right edge are clipped by `p % 64 < 64`; rows past the bottom edge never
/// appear because `k` is capped before use.
pub open spec fn covered_upto(col0: int, row0: int, k: int, j: int, p: int) -> bool {
    let r = p / 64;
    let c = p % 64;
    &&& col0 <= c < col0 + 8
    &&& row0 <= r
    &&& (r - row0 < k || (r - row0 == k && c - col0 < j))
}

/// The framebuffer after the partial blit `(k, j)`: covered pixels are
/// XOR-combined with their sprite bit, all others keep their value.
pub open spec fn draw_upto(
    fb: Seq<bool>,
    mem: Seq<u8>,
    i: int,
    col0: int,
    row0: int,
    k: int,
    j: int,
) -> Seq<bool>
    recommends
        fb.len() == 2048,
        mem.len() == 4096,
{
    Seq::new(
        2048,
        |p: int|
            if covered_upto(col0, row0, k, j, p) {
                fb[p] != sprite_bit_at(mem, i, col0, row0, p)
            } else {
                fb[p]
            },
    )
}

/// Whether the partial blit `(k, j)` erased any pixel: some covered pixel was
/// lit and its sprite bit is set.
pub open spec fn hit_upto(
    fb: Seq<bool>,
    mem: Seq<u8>,
    i: int,
    col0: int,
    row0: int,
    k: int,
    j: int,
) -> bool
    recommends
        fb.len() == 2048,
        mem.len() == 4096,
{
    exists|p: int|
        0 <= p < 2048 && #[trigger] covered_upto(col0, row0, k, j, p) && sprite_bit_at(
            mem,
            i,
            col0,
            row0,
            p,
        ) && fb[p]
}

/// How many sprite rows a blit at row `row0` with nominal height `n` draws:
/// rows that would fall off the bottom edge are clipped.
pub open spec fn rows_drawn(row0: int, n: u8) -> int {
    if n as int <= 32 - row0 {
        n as int
    } else {
        32 - row0
    }
}

/// The program counter after the conditional-skip test: one extra instruction
/// width when the condition held.
pub open spec fn skip_if(s: VmState, cond: bool) -> VmState {
    if cond {
        VmState { pc: (s.pc + 2) as u16, ..s }
    } else {
        s
    }
}

/// Memory after registers `V0..=V(count-1)` were stored to `base..`.
pub open spec fn store_regs_mem(mem: Seq<u8>, regs: Seq<u8>, base: int, count: int) -> Seq<u8>
    recommends
        mem.len() == 4096,
        regs.len() == 16,
        count <= 16,
{
    Seq::new(
        4096,
        |m: int|
            if base <= m < base + count {
                regs[m - base]
            } else {
                mem[m]
            },
    )
}

/// Registers after `V0..=V(count-1)` were loaded from `base..`.
pub open spec fn load_regs(regs: Seq<u8>, mem: Seq<u8>, base: int, count: int) -> Seq<u8>
    recommends
        mem.len() == 4096,
        regs.len() == 16,
        count <= 16,
{
    Seq::new(
        16,
        |r: int|
            if r < count {
                mem[base + r]
            } else {
                regs[r]
            },
    )
}

/// The outcome of the draw instruction on state `s` (its program counter
/// already advanced): the blitted framebuffer and the collision flag in `VF`,
/// or a fault when a sprite row lies outside memory.  `fault_pc` is the
/// address of the instruction itself, reported on a fault.
pub open spec fn spec_draw(s: VmState, fault_pc: u16, x: u8, y: u8, n: u8) -> (VmState, Result<
    (),
    Fault,
>)
    recommends
        s.wf(),
        x < 16,
        y < 16,
        n < 16,
{
    let col0 = (s.regs[x as int] % 64) as int;
    let row0 = (s.regs[y as int] % 32) as int;
    let rows = rows_drawn(row0, n);
    let i = s.index as int;
    if rows > 0 && i + rows > 4096 {
        (s, Err(Fault::OutOfBounds { pc: fault_pc, address: oob_address(i) }))
    } else {
        let fb2 = draw_upto(s.fb, s.mem, i, col0, row0, rows, 0);
        let hit = hit_upto(s.fb, s.mem, i, col0, row0, rows, 0);
        (
            VmState {
                fb: fb2,
                regs: s.regs.update(15, if hit { 1u8 } else { 0u8 }),
                display_changed: true,
                ..s
            },
            Ok(()),
        )
    }
}

/// The meaning of one decoded instruction: the next machine state and whether
/// execution may continue.  The program counter is advanced by one
/// instruction width first; jump, call, return and offset-jump overwrite it.
/// `rnd` is the byte the randomness source supplied for this step; only the
/// random instruction reads it.
pub open spec fn spec_execute(s: VmState, instr: Instruction, rnd: u8) -> (VmState, Result<
    (),
    Fault,
>)
    recommends
        s.wf(),
        instr.wf(),
{
    let s1 = VmState { pc: (s.pc + 2) as u16, ..s };
    match instr {
        Instruction::ClearScreen => (
            VmState { fb: Seq::new(2048, |p: int| false), display_changed: true, ..s1 },
            Ok(()),
        ),
        Instruction::Return => {
            if s.stack.len() == 0 {
                (s1, Err(Fault::StackUnderflow { pc: s.pc }))
            } else {
                (VmState { pc: s.stack.last(), stack: s.stack.drop_last(), ..s1 }, Ok(()))
            }
        },
        Instruction::Jump { address } => (VmState { pc: address, ..s1 }, Ok(())),
        Instruction::Call { address } => {
            if s.stack.len() >= 16 {
                (s1, Err(Fault::StackOverflow { pc: s.pc }))
            } else {
                (VmState { pc: address, stack: s.stack.push(s1.pc), ..s1 }, Ok(()))
            }
        },
        Instruction::SkipIfEqualByte { x, value } => (
            skip_if(s1, s.regs[x as int] == value),
            Ok(()),
        ),
        Instruction::SkipIfNotEqualByte { x, value } => (
            skip_if(s1, s.regs[x as int] != value),
            Ok(()),
        ),
        Instruction::SkipIfEqualRegister { x, y } => (
            skip_if(s1, s.regs[x as int] == s.regs[y as int]),
            Ok(()),
        ),
        Instruction::SetRegister { x, value } => (
            VmState { regs: s.regs.update(x as int, value), ..s1 },
            Ok(()),
        ),
        Instruction::AddRegister { x, value } => (
            VmState { regs: s.regs.update(x as int, wrap_add(s.regs[x as int], value)), ..s1 },
            Ok(()),
        ),
        Instruction::CopyRegister { x, y } => (
            VmState { regs: s.regs.update(x as int, s.regs[y as int]), ..s1 },
            Ok(()),
        ),
        Instruction::OrRegister { x, y } => (
            VmState { regs: s.regs.update(x as int, s.regs[x as int] | s.regs[y as int]), ..s1 },
            Ok(()),
        ),
        Instruction::AndRegister { x, y } => (
            VmState { regs: s.regs.update(x as int, s.regs[x as int] & s.regs[y as int]), ..s1 },
            Ok(()),
        ),
        Instruction::XorRegister { x, y } => (
            VmState { regs: s.regs.update(x as int, s.regs[x as int] ^ s.regs[y as int]), ..s1 },
            Ok(()),
        ),
        Instruction::AddWithCarry { x, y } => {
            let vx = s.regs[x as int];
            let vy = s.regs[y as int];
            let carry: u8 = if vx + vy > 255 {
                1
            } else {
                0
            };
            (VmState { regs: s.regs.update(x as int, wrap_add(vx, vy)).update(15, carry), ..s1 }, Ok(()))
        },
        Instruction::SubWithBorrow { x, y } => {
            let vx = s.regs[x as int];
            let vy = s.regs[y as int];
            let no_borrow: u8 = if vx >= vy {
                1
            } else {
                0
            };
            (
                VmState { regs: s.regs.update(x as int, wrap_sub(vx, vy)).update(15, no_borrow), ..s1 },
                Ok(()),
            )
        },
        Instruction::ShiftRight { x } => {
            let vx = s.regs[x as int];
            let low: u8 = if vx & 1 == 1 {
                1
            } else {
                0
            };
            (VmState { regs: s.regs.update(x as int, vx >> 1).update(15, low), ..s1 }, Ok(()))
        },
        Instruction::SubFrom { x, y } => {
            let vx = s.regs[x as int];
            let vy = s.regs[y as int];
            let no_borrow: u8 = if vy >= vx {
                1
            } else {
                0
            };
            (
                VmState { regs: s.regs.update(x as int, wrap_sub(vy, vx)).update(15, no_borrow), ..s1 },
                Ok(()),
            )
        },
        Instruction::ShiftLeft { x } => {
            let vx = s.regs[x as int];
            let high: u8 = if vx & 0x80 == 0x80 {
                1
            } else {
                0
            };
            (VmState { regs: s.regs.update(x as int, vx << 1).update(15, high), ..s1 }, Ok(()))
        },
        Instruction::SkipIfNotEqualRegister { x, y } => (
            skip_if(s1, s.regs[x as int] != s.regs[y as int]),
            Ok(()),
        ),
        Instruction::SetIRegister { address } => (VmState { index: address, ..s1 }, Ok(())),
        Instruction::JumpWithOffset { address } => (
            VmState { pc: (address + s.regs[0]) as u16, ..s1 },
            Ok(()),
        ),
        Instruction::Random { x, mask } => (
            VmState { regs: s.regs.update(x as int, rnd & mask), ..s1 },
            Ok(()),
        ),
        Instruction::Draw { x, y, nibble } => spec_draw(s1, s.pc, x, y, nibble),
        Instruction::SkipIfKeyPressed { x } => (
            skip_if(s1, s.keys[(s.regs[x as int] & 0xF) as int]),
            Ok(()),
        ),
        Instruction::SkipIfKeyNotPressed { x } => (
            skip_if(s1, !s.keys[(s.regs[x as int] & 0xF) as int]),
            Ok(()),
        ),
        Instruction::ReadDelayTimer { x } => (
            VmState { regs: s.regs.update(x as int, s.delay), ..s1 },
            Ok(()),
        ),
        Instruction::WaitForKey { x } => (
            VmState { waiting: true, wait_reg: x as usize, ..s1 },
            Ok(()),
        ),
        Instruction::SetDelayTimer { x } => (
            VmState { delay: s.regs[x as int], ..s1 },
            Ok(()),
        ),
        Instruction::SetSoundTimer { x } => (
            VmState { sound: s.regs[x as int], ..s1 },
            Ok(()),
        ),
        Instruction::AddIRegister { x } => (
            VmState { index: wrap_add16(s.index, s.regs[x as int] as u16), ..s1 },
            Ok(()),
        ),
        Instruction::SetGlyphIndex { x } => (
            VmState { index: glyph_address(s.regs[x as int]), ..s1 },
            Ok(()),
        ),
        Instruction::StoreBcd { x } => {
            let i = s.index as int;
            if i + 2 >= 4096 {
                (s1, Err(Fault::OutOfBounds { pc: s.pc, address: oob_address(i) }))
            } else {
                let v = s.regs[x as int];
                (
                    VmState {
                        mem: s.mem.update(i, (v / 100) as u8).update(i + 1, ((v / 10) % 10) as u8).update(
                            i + 2,
                            (v % 10) as u8,
                        ),
                        ..s1
                    },
                    Ok(()),
                )
            }
        },
        Instruction::StoreRegisters { x } => {
            let i = s.index as int;
            if i + x >= 4096 {
                (s1, Err(Fault::OutOfBounds { pc: s.pc, address: oob_address(i) }))
            } else {
                (VmState { mem: store_regs_mem(s.mem, s.regs, i, x + 1), ..s1 }, Ok(()))
            }
        },
        Instruction::LoadRegisters { x } => {
            let i = s.index as int;
            if i + x >= 4096 {
                (s1, Err(Fault::OutOfBounds { pc: s.pc, address: oob_address(i) }))
            } else {
                (VmState { regs: load_regs(s.regs, s.mem, i, x + 1), ..s1 }, Ok(()))
            }
        },
        Instruction::Unknown { word } => (s1, Err(Fault::UnknownOpcode { pc: s.pc, word })),
    }
}

/// Masking a byte to its low nibble yields a value below 16, so it can index
/// the sixteen keys or glyphs, and five times it stays inside the font region.
pub proof fn lemma_low_nibble_bound(v: u8)
    ensures
        v & 0xF < 16,
{
    assert(v & 0xF < 16) by (bit_vector);
}

/// An empty partial blit leaves the framebuffer as it is and hits nothing.
pub proof fn lemma_draw_init(fb: Seq<bool>, mem: Seq<u8>, i: int, col0: int, row0: int)
    requires
        fb.len() == 2048,
    ensures
        draw_upto(fb, mem, i, col0, row0, 0, 0) == fb,
        !hit_upto(fb, mem, i, col0, row0, 0, 0),
{
    assert forall|p: int| !covered_upto(col0, row0, 0, 0, p) by {
        let r = p / 64;
        let c = p % 64;
        assert(col0 <= c && row0 <= r ==> !(r - row0 < 0 || (r - row0 == 0 && c - col0 < 0)));
    }
    assert(draw_upto(fb, mem, i, col0, row0, 0, 0) =~= fb);
}

/// Blitting one more pixel: pixel `idx` of row `k`, column offset `j`, is
/// XOR-combined with its sprite bit; the partial blit `(k, j)` had left it
/// untouched; and the partial hit flag picks up exactly that pixel's overlap.
pub proof fn lemma_draw_step(
    fb: Seq<bool>,
    mem: Seq<u8>,
    i: int,
    col0: int,
    row0: int,
    k: int,
    j: int,
    idx: int,
)
    requires
        fb.len() == 2048,
        mem.len() == 4096,
        0 <= col0 < 64,
        0 <= row0 < 32,
        0 <= k,
        row0 + k < 32,
        0 <= j < 8,
        col0 + j < 64,
        idx == (row0 + k) * 64 + (col0 + j),
    ensures
        0 <= idx < 2048,
        idx / 64 == row0 + k,
        idx % 64 == col0 + j,
        draw_upto(fb, mem, i, col0, row0, k, j)[idx] == fb[idx],
        draw_upto(fb, mem, i, col0, row0, k, j + 1) == draw_upto(
            fb,
            mem,
            i,
            col0,
            row0,
            k,
            j,
        ).update(idx, fb[idx] != sprite_bit_at(mem, i, col0, row0, idx)),
        hit_upto(fb, mem, i, col0, row0, k, j + 1) == (hit_upto(fb, mem, i, col0, row0, k, j)
            || (sprite_bit_at(mem, i, col0, row0, idx) && fb[idx])),
{
    assert(idx / 64 == row0 + k && idx % 64 == col0 + j) by (nonlinear_arith)
        requires
            idx == (row0 + k) * 64 + (col0 + j),
            0 <= col0 + j < 64,
            0 <= row0 + k,
    ;
    assert(!covered_upto(col0, row0, k, j, idx));
    assert(covered_upto(col0, row0, k, j + 1, idx));
    assert forall|p: int|
        0 <= p < 2048 && p != idx implies covered_upto(col0, row0, k, j + 1, p) == covered_upto(
        col0,
        row0,
        k,
        j,
        p,
    ) by {
        vstd::arithmetic::div_mod::lemma_fundamental_div_mod(p, 64);
    }
    assert(draw_upto(fb, mem, i, col0, row0, k, j + 1) =~= draw_upto(
        fb,
        mem,
        i,
        col0,
        row0,
        k,
        j,
    ).update(idx, fb[idx] != sprite_bit_at(mem, i, col0, row0, idx)));
    let hit_old = hit_upto(fb, mem, i, col0, row0, k, j);
    let hit_new = hit_upto(fb, mem, i, col0, row0, k, j + 1);
    let pixel_hit = sprite_bit_at(mem, i, col0, row0, idx) && fb[idx];
    if hit_old {
        let p = choose|p: int|
            0 <= p < 2048 && #[trigger] covered_upto(col0, row0, k, j, p) && sprite_bit_at(
                mem,
                i,
                col0,
                row0,
                p,
            ) && fb[p];
        assert(covered_upto(col0, row0, k, j + 1, p));
        assert(hit_new);
    }
    if pixel_hit {
        assert(hit_new);
    }
    if hit_new && !hit_old && !pixel_hit {
        let p = choose|p: int|
            0 <= p < 2048 && #[trigger] covered_upto(col0, row0, k, j + 1, p) && sprite_bit_at(
                mem,
                i,
                col0,
                row0,
                p,
            ) && fb[p];
        assert(p != idx);
        assert(covered_upto(col0, row0, k, j, p));
        assert(false);
    }
}

/// When a row's columns are exhausted or clipped at the right edge, the
/// partial blit equals the one that has finished the whole row.
pub proof fn lemma_draw_row_end(
    fb: Seq<bool>,
    mem: Seq<u8>,
    i: int,
    col0: int,
    row0: int,
    k: int,
    j: int,
)
    requires
        fb.len() == 2048,
        mem.len() == 4096,
        0 <= col0 < 64,
        0 <= row0 < 32,
        0 <= k,
        0 <= j <= 8,
        j == 8 || col0 + j >= 64,
    ensures
        draw_upto(fb, mem, i, col0, row0, k, j) == draw_upto(fb, mem, i, col0, row0, k + 1, 0),
        hit_upto(fb, mem, i, col0, row0, k, j) == hit_upto(fb, mem, i, col0, row0, k + 1, 0),
{
    assert forall|p: int| covered_upto(col0, row0, k + 1, 0, p) == covered_upto(
        col0,
        row0,
        k,
        j,
        p,
    ) by {
        vstd::arithmetic::div_mod::lemma_mod_bound(p, 64);
    }
    assert(draw_upto(fb, mem, i, col0, row0, k, j) =~= draw_upto(fb, mem, i, col0, row0, k + 1, 0));
    let a = hit_upto(fb, mem, i, col0, row0, k, j);
    let b = hit_upto(fb, mem, i, col0, row0, k + 1, 0);
    if a {
        let p = choose|p: int|
            0 <= p < 2048 && #[trigger] covered_upto(col0, row0, k, j, p) && sprite_bit_at(
                mem,
                i,
                col0,
                row0,
                p,
            ) && fb[p];
        assert(covered_upto(col0, row0, k + 1, 0, p));
        assert(b);
    }
    if b {
        let p = choose|p: int|
            0 <= p < 2048 && #[trigger] covered_upto(col0, row0, k + 1, 0, p) && sprite_bit_at(
                mem,
                i,
                col0,
                row0,
                p,
            ) && fb[p];
        assert(covered_upto(col0, row0, k, j, p));
        assert(a);
    }
}

/// The lowest pressed key from position `i` on, or 16 when none is held.
pub open spec fn first_pressed_from(keys: Seq<bool>, i: int) -> int
    recommends
        keys.len() == 16,
        0 <= i <= 16,
    decreases 16 - i,
    when 0 <= i <= 16
{
    if i >= 16 {
        16
    } else if keys[i] {
        i
    } else {
        first_pressed_from(keys, i + 1)
    }
}

/// The lowest pressed key, or 16 when none is held: ties go to the lowest
/// index.
pub open spec fn first_pressed(keys: Seq<bool>) -> int
    recommends
        keys.len() == 16,
{
    first_pressed_from(keys, 0)
}

/// One scheduler invocation: refresh the key snapshot; while waiting for a
/// key, resume on the first pressed key without executing an opcode and with
/// timers frozen; otherwise decay both timers, then fetch, decode and execute
/// exactly one instruction.  After a completed step the display-changed flag
/// is down: the scheduler has notified the renderer.
pub open spec fn spec_cycle(s: VmState, keys: Seq<bool>, rnd: u8) -> (VmState, Result<(), Fault>)
    recommends
        s.wf(),
        keys.len() == 16,
{
    let sk = VmState { keys: keys, ..s };
    if s.waiting {
        let j = first_pressed(keys);
        if j < 16 {
            (
                VmState { waiting: false, regs: sk.regs.update(sk.wait_reg as int, j as u8), ..sk },
                Ok(()),
            )
        } else {
            (sk, Ok(()))
        }
    } else {
        let st = VmState { delay: tick(sk.delay), sound: tick(sk.sound), ..sk };
        if st.pc + 1 >= 4096 {
            (st, Err(Fault::OutOfBounds { pc: st.pc, address: oob_address(st.pc as int) }))
        } else {
            let word = fetch_word(st.mem, st.pc);
            let outcome = spec_execute(st, spec_decode(word), rnd);
            if outcome.1 is Ok {
                (VmState { display_changed: false, ..outcome.0 }, Ok(()))
            } else {
                outcome
            }
        }
    }
}

/// Whether one scheduler invocation on state `s` with key snapshot `keys`
/// and random byte `rnd` yields exactly the state `s2` and outcome `r`.
pub open spec fn cycle_outcome(
    s: VmState,
    keys: Seq<bool>,
    rnd: u8,
    s2: VmState,
    r: Result<(), Fault>,
) -> bool {
    s2 == spec_cycle(s, keys, rnd).0 && r == spec_cycle(s, keys, rnd).1
}

/// Memory after an image was copied verbatim to 0x200.
pub open spec fn loaded_mem(mem: Seq<u8>, image: Seq<u8>) -> Seq<u8>
    recommends
        mem.len() == 4096,
        0x200 + image.len() <= 4096,
{
    Seq::new(
        4096,
        |k: int|
            if 0x200 <= k < 0x200 + image.len() {
                image[k - 0x200]
            } else {
                mem[k]
            },
    )
}

} // verus!

//! The executable machine: memory, registers, stack, timers, framebuffer and
//! keypad, together with the fetch-decode-execute step and the per-cycle
//! scheduler.  Every operation is proved to produce exactly the state that
//! the transition functions in `state` describe.

use vstd::prelude::*;
use crate::instruction::Instruction;
use crate::instruction::lemma_decode_wf;
use crate::state::Fault;
use crate::state::VmState;
use crate::state::fetch_word;
use crate::state::first_pressed;
use crate::state::first_pressed_from;
use crate::state::initial_mem;
use crate::state::initial_state;
use crate::state::loaded_mem;
use crate::state::DISPLAY_HEIGHT;
use crate::state::DISPLAY_WIDTH;
use crate::state::PROGRAM_START;
use crate::state::cycle_outcome;
use crate::state::spec_cycle;
use crate::state::spec_draw;
use crate::state::spec_execute;
use crate::state::draw_upto;
use crate::state::hit_upto;
use crate::state::rows_drawn;
use crate::state::sprite_bit_at;
use crate::state::lemma_draw_init;
use crate::state::lemma_draw_step;
use crate::state::lemma_draw_row_end;
use crate::state::lemma_low_nibble_bound;
use crate::state::store_regs_mem;
use crate::state::load_regs;
use crate::state::wrap_add;
use crate::state::wrap_sub;

verus! {

broadcast use vstd::array::group_array_axioms;

/// What the machine asks of its display: wipe it, poll the host for the
/// pressed-key snapshot (or an exit request, as the error), and present a
/// framebuffer of 64 x 32 row-major pixels.  Implementations live outside the
/// core; nothing is assumed of their behaviour.
pub trait Renderer {
    /// Blank the visible surface.
    fn clear_screen(&mut self);

    /// Poll the host: the 16 pressed-key flags, or an error to request exit.
    fn handle_event(&mut self) -> Result<[bool; 16], ()>;

    /// Present the framebuffer: pixel (row, col) is `pixels[row * 64 + col]`.
    fn draw(&mut self, pixels: &[bool; 2048]);
}

/// Relies on `rand::random`: a uniformly distributed byte from the thread's
/// generator.  Nothing is assumed of the value; every caller must hold for
/// every outcome.
#[verifier::external_body]
fn random_byte() -> u8 {
    rand::random::<u8>()
}

/// The machine: created once per run, mutated only through the operations
/// below, observed through its view.
pub struct VM {
    memory: [u8; 4096],
    display_bits: [bool; 2048],
    pc: u16,
    i: u16,
    stack: Vec<u16>,
    delay_timer: u8,
    sound_timer: u8,
    registers: [u8; 16],
    keys: [bool; 16],
    execution_paused: bool,
    key_register: usize,
    display_changed: bool,
}

impl View for VM {
    type V = VmState;

    closed spec fn view(&self) -> VmState {
        VmState {
            mem: self.memory@,
            fb: self.display_bits@,
            pc: self.pc,
            index: self.i,
            stack: self.stack@,
            delay: self.delay_timer,
            sound: self.sound_timer,
            regs: self.registers@,
            keys: self.keys@,
            waiting: self.execution_paused,
            wait_reg: self.key_register,
            display_changed: self.display_changed,
        }
    }
}

impl VM {
    /// The machine's invariant, stated on its view.
    pub open spec fn wf(&self) -> bool {
        self@.wf()
    }

    /// A fresh machine: everything zeroed, the font preloaded, the program
    /// counter at 0x200.
    pub fn new() -> (vm: VM)
        ensures
            vm.wf(),
            vm@ == initial_state(),
    {
        let mut memory: [u8; 4096] = [0; 4096];
        memory[0] = 0xF0;
        memory[1] = 0x90;
        memory[2] = 0x90;
        memory[3] = 0x90;
        memory[4] = 0xF0;
        memory[5] = 0x20;
        memory[6] = 0x60;
        memory[7] = 0x20;
        memory[8] = 0x20;
        memory[9] = 0x70;
        memory[10] = 0xF0;
        memory[11] = 0x10;
        memory[12] = 0xF0;
        memory[13] = 0x80;
        memory[14] = 0xF0;
        memory[15] = 0xF0;
        memory[16] = 0x10;
        memory[17] = 0xF0;
        memory[18] = 0x10;
        memory[19] = 0xF0;
        memory[20] = 0x90;
        memory[21] = 0x90;
        memory[22] = 0xF0;
        memory[23] = 0x10;
        memory[24] = 0x10;
        memory[25] = 0xF0;
        memory[26] = 0x80;
        memory[27] = 0xF0;
        memory[28] = 0x10;
        memory[29] = 0xF0;
        memory[30] = 0xF0;
        memory[31] = 0x80;
        memory[32] = 0xF0;
        memory[33] = 0x90;
        memory[34] = 0xF0;
        memory[35] = 0xF0;
        memory[36] = 0x10;
        memory[37] = 0x20;
        memory[38] = 0x40;
        memory[39] = 0x40;
        memory[40] = 0xF0;
        memory[41] = 0x90;
        memory[42] = 0xF0;
        memory[43] = 0x90;
        memory[44] = 0xF0;
        memory[45] = 0xF0;
        memory[46] = 0x90;
        memory[47] = 0xF0;
        memory[48] = 0x10;
        memory[49] = 0xF0;
        memory[50] = 0xF0;
        memory[51] = 0x90;
        memory[52] = 0xF0;
        memory[53] = 0x90;
        memory[54] = 0x90;
        memory[55] = 0xE0;
        memory[56] = 0x90;
        memory[57] = 0xE0;
        memory[58] = 0x90;
        memory[59] = 0xE0;
        memory[60] = 0xF0;
        memory[61] = 0x80;
        memory[62] = 0x80;
        memory[63] = 0x80;
        memory[64] = 0xF0;
        memory[65] = 0xE0;
        memory[66] = 0x90;
        memory[67] = 0x90;
        memory[68] = 0x90;
        memory[69] = 0xE0;
        memory[70] = 0xF0;
        memory[71] = 0x80;
        memory[72] = 0xF0;
        memory[73] = 0x80;
        memory[74] = 0xF0;
        memory[75] = 0xF0;
        memory[76] = 0x80;
        memory[77] = 0xF0;
        memory[78] = 0x80;
        memory[79] = 0x80;
        let vm = VM {
            memory,
            display_bits: [false; 2048],
            pc: 0x200,
            i: 0,
            stack: Vec::new(),
            delay_timer: 0,
            sound_timer: 0,
            registers: [0; 16],
            keys: [false; 16],
            execution_paused: false,
            key_register: 0,
            display_changed: false,
        };
        proof {
            assert(vm@.mem =~= initial_mem());
            assert(vm@.fb =~= initial_state().fb);
            assert(vm@.regs =~= initial_state().regs);
            assert(vm@.keys =~= initial_state().keys);
            assert(vm@.stack =~= initial_state().stack);
            assert(vm@ =~= initial_state());
        }
        vm
    }

    /// Bounds-checked memory write: stores the byte and reports success, or
    /// leaves the machine untouched when the address is out of range.
    pub fn set_byte(&mut self, index: usize, value: u8) -> (ok: bool)
        ensures
            ok <==> index < 4096,
            ok ==> final(self)@ == (VmState { mem: old(self)@.mem.update(index as int, value), ..old(self)@ }),
            !ok ==> final(self)@ == old(self)@,
    {
        if index < 4096 {
            self.memory[index] = value;
            true
        } else {
            false
        }
    }

    /// Bounds-checked memory read: the byte at `index`, or nothing when the
    /// address is out of range.
    pub fn get_byte(&self, index: usize) -> (r: Option<u8>)
        ensures
            (r is Some) <==> index < 4096,
            index < 4096 ==> r == Some(self@.mem[index as int]),
    {
        if index < 4096 {
            Some(self.memory[index])
        } else {
            None
        }
    }

    /// Copy a program image verbatim into memory starting at 0x200 and report
    /// success, or leave memory untouched when the image would run past the
    /// end of memory.
    pub fn load_image(&mut self, image: &Vec<u8>) -> (ok: bool)
        ensures
            ok <==> 0x200 + image@.len() <= 4096,
            ok ==> final(self)@ == (VmState { mem: loaded_mem(old(self)@.mem, image@), ..old(self)@ }),
            !ok ==> final(self)@ == old(self)@,
    {
        if image.len() <= 4096 - PROGRAM_START as usize {
            let mut k: usize = 0;
            while k < image.len()
                invariant
                    0 <= k <= image@.len(),
                    image@.len() <= 4096 - 0x200,
                    self@ == (VmState { mem: self@.mem, ..old(self)@ }),
                    self@.mem.len() == 4096,
                    forall|m: int|
                        0x200 <= m < 0x200 + k ==> self@.mem[m] == image@[m - 0x200],
                    forall|m: int|
                        0 <= m < 4096 && !(0x200 <= m < 0x200 + k) ==> self@.mem[m] == old(
                            self,
                        )@.mem[m],
                decreases image@.len() - k,
            {
                self.memory[0x200 + k] = image[k];
                k = k + 1;
            }
            proof {
                assert(self@.mem =~= loaded_mem(old(self)@.mem, image@));
                assert(self@ =~= VmState { mem: loaded_mem(old(self)@.mem, image@), ..old(self)@ });
            }
            true
        } else {
            false
        }
    }

    /// Set the index register.
    pub fn set_i_register(&mut self, value: u16)
        ensures
            final(self)@ == (VmState { index: value, ..old(self)@ }),
    {
        self.i = value;
    }

    /// Set general register `index`.
    pub fn set_register(&mut self, index: usize, value: u8)
        requires
            index < 16,
        ensures
            final(self)@ == (VmState { regs: old(self)@.regs.update(index as int, value), ..old(self)@ }),
    {
        self.registers[index] = value;
    }

    /// Read general register `index`.
    pub fn get_register(&self, index: usize) -> (r: u8)
        requires
            index < 16,
        ensures
            r == self@.regs[index as int],
    {
        self.registers[index]
    }

    /// Write the flag register `VF`: one when the predicate holds, else zero.
    pub fn register_checker(&mut self, predicate: bool)
        ensures
            final(self)@ == (VmState {
                regs: old(self)@.regs.update(15, if predicate { 1u8 } else { 0u8 }),
                ..old(self)@
            }),
    {
        if predicate {
            self.registers[0xF] = 1;
        } else {
            self.registers[0xF] = 0;
        }
    }

    /// 8-bit wraparound addition into register `index`; no flag is touched.
    pub fn add_register(&mut self, index: usize, value: u8)
        requires
            index < 16,
        ensures
            final(self)@ == (VmState {
                regs: old(self)@.regs.update(
                    index as int,
                    wrap_add(old(self)@.regs[index as int], value),
                ),
                ..old(self)@
            }),
    {
        self.registers[index] = u8::wrapping_add(self.registers[index], value);
    }

    /// 8-bit wraparound subtraction from register `index`; no flag is touched.
    pub fn sub_register(&mut self, index: usize, value: u8)
        requires
            index < 16,
        ensures
            final(self)@ == (VmState {
                regs: old(self)@.regs.update(
                    index as int,
                    wrap_sub(old(self)@.regs[index as int], value),
                ),
                ..old(self)@
            }),
    {
        self.registers[index] = u8::wrapping_sub(self.registers[index], value);
    }

    /// Push a return address and report success; a full stack refuses and
    /// leaves the machine untouched.
    pub fn push_stack(&mut self, value: u16) -> (ok: bool)
        requires
            old(self).wf(),
        ensures
            final(self).wf(),
            ok <==> old(self)@.stack.len() < 16,
            ok ==> final(self)@ == (VmState { stack: old(self)@.stack.push(value), ..old(self)@ }),
            !ok ==> final(self)@ == old(self)@,
    {
        if self.stack.len() < 16 {
            self.stack.push(value);
            true
        } else {
            false
        }
    }

    /// Pop the most recent return address, or nothing from an empty stack.
    pub fn pop_stack(&mut self) -> (r: Option<u16>)
        ensures
            (r is Some) <==> old(self)@.stack.len() > 0,
            old(self)@.stack.len() > 0 ==> r == Some(old(self)@.stack.last()) && final(self)@ == (VmState {
                stack: old(self)@.stack.drop_last(),
                ..old(self)@
            }),
            old(self)@.stack.len() == 0 ==> final(self)@ == old(self)@,
    {
        let r = self.stack.pop();
        proof {
            if old(self)@.stack.len() == 0 {
                assert(self@ =~= old(self)@);
            }
        }
        r
    }

    /// Advance the program counter by one instruction width.
    pub fn increment_pc(&mut self)
        requires
            old(self)@.pc + 2 <= u16::MAX,
        ensures
            final(self)@ == (VmState { pc: (old(self)@.pc + 2) as u16, ..old(self)@ }),
    {
        self.pc = self.pc + 2;
    }

    /// Advance the program counter one extra instruction width when the
    /// predicate holds: the conditional-skip primitive.
    pub fn skip_instruction_if(&mut self, predicate: bool)
        requires
            old(self)@.pc + 2 <= u16::MAX,
        ensures
            final(self)@ == crate::state::skip_if(old(self)@, predicate),
    {
        if predicate {
            self.increment_pc()
        }
    }

    /// Set the program counter.
    pub fn jump_pc(&mut self, address: u16)
        ensures
            final(self)@ == (VmState { pc: address, ..old(self)@ }),
    {
        self.pc = address
    }

    /// The current program counter.
    pub fn get_pc(&self) -> (r: u16)
        ensures
            r == self@.pc,
    {
        self.pc
    }

    /// The current index register.
    pub fn get_i_register(&self) -> (r: u16)
        ensures
            r == self@.index,
    {
        self.i
    }

    /// The current delay timer.
    pub fn get_delay_timer(&self) -> (r: u8)
        ensures
            r == self@.delay,
    {
        self.delay_timer
    }

    /// The current sound timer.
    pub fn get_sound_timer(&self) -> (r: u8)
        ensures
            r == self@.sound,
    {
        self.sound_timer
    }

    /// How many return addresses the call stack holds.
    pub fn stack_depth(&self) -> (r: usize)
        ensures
            r == self@.stack.len(),
    {
        self.stack.len()
    }

    /// Whether execution is suspended waiting for a key.
    pub fn is_waiting_for_key(&self) -> (r: bool)
        ensures
            r == self@.waiting,
    {
        self.execution_paused
    }

    /// The pixel at (`row`, `col`): true when lit.
    pub fn get_pixel(&self, row: usize, col: usize) -> (r: bool)
        requires
            row < DISPLAY_HEIGHT,
            col < DISPLAY_WIDTH,
        ensures
            r == self@.fb[row as int * 64 + col as int],
    {
        self.display_bits[row * 64 + col]
    }

    /// XOR-blit the 8-bit-wide, `n`-row sprite at memory `I` to the position
    /// given by registers `x` and `y`, clipping at the display edges, with the
    /// collision flag left in `VF`.  `fault_pc` is reported when a sprite row
    /// lies outside memory.
    fn draw_sprite(&mut self, x: u8, y: u8, n: u8, fault_pc: u16) -> (r: Result<(), Fault>)
        requires
            old(self).wf(),
            x < 16,
            y < 16,
            n < 16,
        ensures
            final(self).wf(),
            final(self)@ == spec_draw(old(self)@, fault_pc, x, y, n).0,
            r == spec_draw(old(self)@, fault_pc, x, y, n).1,
    {
        let col0: usize = (self.registers[x as usize] % 64) as usize;
        let row0: usize = (self.registers[y as usize] % 32) as usize;
        let rows: usize = if (n as usize) <= 32 - row0 {
            n as usize
        } else {
            32 - row0
        };
        let i: usize = self.i as usize;
        if rows > 0 && i + rows > 4096 {
            let address: u32 = if i >= 4096 {
                i as u32
            } else {
                4096
            };
            return Err(Fault::OutOfBounds { pc: fault_pc, address });
        }
        let ghost fb0 = self@.fb;
        let ghost mem0 = self@.mem;
        proof {
            lemma_draw_init(fb0, mem0, i as int, col0 as int, row0 as int);
        }
        let mut hit = false;
        let mut k: usize = 0;
        while k < rows
            invariant
                old(self).wf(),
                x < 16,
                y < 16,
                n < 16,
                col0 == old(self)@.regs[x as int] % 64,
                row0 == old(self)@.regs[y as int] % 32,
                rows == rows_drawn(row0 as int, n),
                i == old(self)@.index,
                rows > 0 ==> i + rows <= 4096,
                0 <= k <= rows,
                fb0 == old(self)@.fb,
                mem0 == old(self)@.mem,
                self@ == (VmState { fb: self@.fb, ..old(self)@ }),
                self@.fb == draw_upto(fb0, mem0, i as int, col0 as int, row0 as int, k as int, 0),
                hit == hit_upto(fb0, mem0, i as int, col0 as int, row0 as int, k as int, 0),
            decreases rows - k,
        {
            let byte = self.memory[i + k];
            let mut j: usize = 0;
            while j < 8 && col0 + j < 64
                invariant
                    old(self).wf(),
                    col0 < 64,
                    row0 < 32,
                    rows == rows_drawn(row0 as int, n),
                    n < 16,
                    i == old(self)@.index,
                    i + rows <= 4096,
                    0 <= k < rows,
                    0 <= j <= 8,
                    fb0 == old(self)@.fb,
                    mem0 == old(self)@.mem,
                    byte == mem0[i + k],
                    self@ == (VmState { fb: self@.fb, ..old(self)@ }),
                    self@.fb == draw_upto(
                        fb0,
                        mem0,
                        i as int,
                        col0 as int,
                        row0 as int,
                        k as int,
                        j as int,
                    ),
                    hit == hit_upto(
                        fb0,
                        mem0,
                        i as int,
                        col0 as int,
                        row0 as int,
                        k as int,
                        j as int,
                    ),
                decreases 8 - j,
            {
                let c: usize = col0 + j;
                let idx: usize = (row0 + k) * 64 + c;
                proof {
                    lemma_draw_step(
                        fb0,
                        mem0,
                        i as int,
                        col0 as int,
                        row0 as int,
                        k as int,
                        j as int,
                        idx as int,
                    );
                }
                let shift: u8 = (7 - j) as u8;
                let src = (byte >> shift) & 1 == 1;
                proof {
                    assert(src == sprite_bit_at(
                        mem0,
                        i as int,
                        col0 as int,
                        row0 as int,
                        idx as int,
                    ));
                }
                let old_px = self.display_bits[idx];
                if src && old_px {
                    hit = true;
                }
                self.display_bits[idx] = old_px != src;
                j = j + 1;
            }
            proof {
                lemma_draw_row_end(
                    fb0,
                    mem0,
                    i as int,
                    col0 as int,
                    row0 as int,
                    k as int,
                    j as int,
                );
            }
            k = k + 1;
        }
        self.registers[15] = if hit {
            1
        } else {
            0
        };
        self.display_changed = true;
        proof {
            assert(self@ =~= spec_draw(old(self)@, fault_pc, x, y, n).0);
        }
        Ok(())
    }

    /// The big-endian instruction word at the program counter.
    pub fn get_current_instruction(&self) -> (word: u16)
        requires
            self@.pc + 1 < 4096,
        ensures
            word == fetch_word(self@.mem, self@.pc),
    {
        ((self.memory[self.pc as usize] as u16) << 8) | (self.memory[self.pc as usize + 1] as u16)
    }

    /// Apply one decoded instruction: advance the program counter by one
    /// instruction width, then perform the operation, exactly as
    /// `spec_execute` describes.  `rnd` is the byte the randomness source
    /// supplied for this step; only the random instruction reads it.  The
    /// renderer is told when the screen is cleared; a faulting instruction
    /// leaves the machine with only the program counter advanced.
    #[verifier::rlimit(100)]
    pub fn execute<R: Renderer>(
        &mut self,
        instr: Instruction,
        rnd: u8,
        renderer: &mut R,
    ) -> (r: Result<(), Fault>)
        requires
            old(self).wf(),
            instr.wf(),
            old(self)@.pc + 1 < 4096,
        ensures
            final(self).wf(),
            final(self)@ == spec_execute(old(self)@, instr, rnd).0,
            r == spec_execute(old(self)@, instr, rnd).1,
    {
        let ghost s0 = self@;
        let fault_pc = self.pc;
        self.pc = self.pc + 2;
        match instr {
            Instruction::ClearScreen => {
                self.display_bits = [false; 2048];
                renderer.clear_screen();
                self.display_changed = true;
                proof {
                    assert(self@.fb =~= spec_execute(s0, instr, rnd).0.fb);
                    assert(self@ =~= spec_execute(s0, instr, rnd).0);
                }
                Ok(())
            },
            Instruction::Return => {
                match self.stack.pop() {
                    None => Err(Fault::StackUnderflow { pc: fault_pc }),
                    Some(address) => {
                        self.pc = address;
                        Ok(())
                    },
                }
            },
            Instruction::Jump { address } => {
                self.pc = address;
                Ok(())
            },
            Instruction::Call { address } => {
                if self.stack.len() >= 16 {
                    Err(Fault::StackOverflow { pc: fault_pc })
                } else {
                    self.stack.push(self.pc);
                    self.pc = address;
                    Ok(())
                }
            },
            Instruction::SkipIfEqualByte { x, value } => {
                if self.registers[x as usize] == value {
                    self.pc = self.pc + 2;
                }
                Ok(())
            },
            Instruction::SkipIfNotEqualByte { x, value } => {
                if self.registers[x as usize] != value {
                    self.pc = self.pc + 2;
                }
                Ok(())
            },
            Instruction::SkipIfEqualRegister { x, y } => {
                if self.registers[x as usize] == self.registers[y as usize] {
                    self.pc = self.pc + 2;
                }
                Ok(())
            },
            Instruction::SetRegister { x, value } => {
                self.registers[x as usize] = value;
                Ok(())
            },
            Instruction::AddRegister { x, value } => {
                self.registers[x as usize] = u8::wrapping_add(self.registers[x as usize], value);
                Ok(())
            },
            Instruction::CopyRegister { x, y } => {
                self.registers[x as usize] = self.registers[y as usize];
                Ok(())
            },
            Instruction::OrRegister { x, y } => {
                self.registers[x as usize] = self.registers[x as usize] | self.registers[y
                    as usize];
                Ok(())
            },
            Instruction::AndRegister { x, y } => {
                self.registers[x as usize] = self.registers[x as usize] & self.registers[y
                    as usize];
                Ok(())
            },
            Instruction::XorRegister { x, y } => {
                self.registers[x as usize] = self.registers[x as usize] ^ self.registers[y
                    as usize];
                Ok(())
            },
            Instruction::AddWithCarry { x, y } => {
                let vx = self.registers[x as usize];
                let vy = self.registers[y as usize];
                self.registers[x as usize] = u8::wrapping_add(vx, vy);
                self.registers[15] = if (vx as u16) + (vy as u16) > 255 {
                    1
                } else {
                    0
                };
                Ok(())
            },
            Instruction::SubWithBorrow { x, y } => {
                let vx = self.registers[x as usize];
                let vy = self.registers[y as usize];
                self.registers[x as usize] = u8::wrapping_sub(vx, vy);
                self.registers[15] = if vx >= vy {
                    1
                } else {
                    0
                };
                Ok(())
            },
            Instruction::ShiftRight { x } => {
                let vx = self.registers[x as usize];
                self.registers[x as usize] = vx >> 1;
                self.registers[15] = if vx & 1 == 1 {
                    1
                } else {
                    0
                };
                Ok(())
            },
            Instruction::SubFrom { x, y } => {
                let vx = self.registers[x as usize];
                let vy = self.registers[y as usize];
                self.registers[x as usize] = u8::wrapping_sub(vy, vx);
                self.registers[15] = if vy >= vx {
                    1
                } else {
                    0
                };
                Ok(())
            },
            Instruction::ShiftLeft { x } => {
                let vx = self.registers[x as usize];
                self.registers[x as usize] = vx << 1;
                self.registers[15] = if vx & 0x80 == 0x80 {
                    1
                } else {
                    0
                };
                Ok(())
            },
            Instruction::SkipIfNotEqualRegister { x, y } => {
                if self.registers[x as usize] != self.registers[y as usize] {
                    self.pc = self.pc + 2;
                }
                Ok(())
            },
            Instruction::SetIRegister { address } => {
                self.i = address;
                Ok(())
            },
            Instruction::JumpWithOffset { address } => {
                self.pc = address + (self.registers[0] as u16);
                Ok(())
            },
            Instruction::Random { x, mask } => {
                self.registers[x as usize] = rnd & mask;
                Ok(())
            },
            Instruction::Draw { x, y, nibble } => self.draw_sprite(x, y, nibble, fault_pc),
            Instruction::SkipIfKeyPressed { x } => {
                let vx = self.registers[x as usize];
                proof {
                    lemma_low_nibble_bound(vx);
                }
                if self.keys[(vx & 0xF) as usize] {
                    self.pc = self.pc + 2;
                }
                Ok(())
            },
            Instruction::SkipIfKeyNotPressed { x } => {
                let vx = self.registers[x as usize];
                proof {
                    lemma_low_nibble_bound(vx);
                }
                if !self.keys[(vx & 0xF) as usize] {
                    self.pc = self.pc + 2;
                }
                Ok(())
            },
            Instruction::ReadDelayTimer { x } => {
                self.registers[x as usize] = self.delay_timer;
                Ok(())
            },
            Instruction::WaitForKey { x } => {
                self.execution_paused = true;
                self.key_register = x as usize;
                Ok(())
            },
            Instruction::SetDelayTimer { x } => {
                self.delay_timer = self.registers[x as usize];
                Ok(())
            },
            Instruction::SetSoundTimer { x } => {
                self.sound_timer = self.registers[x as usize];
                Ok(())
            },
            Instruction::AddIRegister { x } => {
                self.i = u16::wrapping_add(self.i, self.registers[x as usize] as u16);
                Ok(())
            },
            Instruction::SetGlyphIndex { x } => {
                let vx = self.registers[x as usize];
                proof {
                    lemma_low_nibble_bound(vx);
                }
                self.i = ((vx & 0xF) as u16) * 5;
                Ok(())
            },
            Instruction::StoreBcd { x } => {
                let i = self.i as usize;
                if i + 2 >= 4096 {
                    let address: u32 = if i >= 4096 {
                        i as u32
                    } else {
                        4096
                    };
                    return Err(Fault::OutOfBounds { pc: fault_pc, address });
                }
                let v = self.registers[x as usize];
                self.memory[i] = v / 100;
                self.memory[i + 1] = (v / 10) % 10;
                self.memory[i + 2] = v % 10;
                Ok(())
            },
            Instruction::StoreRegisters { x } => {
                let i = self.i as usize;
                if i + (x as usize) >= 4096 {
                    let address: u32 = if i >= 4096 {
                        i as u32
                    } else {
                        4096
                    };
                    return Err(Fault::OutOfBounds { pc: fault_pc, address });
                }
                let ghost s1 = self@;
                let count = x as usize + 1;
                let mut k: usize = 0;
                while k < count
                    invariant
                        count == x + 1,
                        x < 16,
                        i + x < 4096,
                        0 <= k <= count,
                        self@ == (VmState { mem: self@.mem, ..s1 }),
                        self@.mem == store_regs_mem(s1.mem, s1.regs, i as int, k as int),
                    decreases count - k,
                {
                    self.memory[i + k] = self.registers[k];
                    proof {
                        assert(self@.mem =~= store_regs_mem(s1.mem, s1.regs, i as int, k + 1));
                    }
                    k = k + 1;
                }
                proof {
                    assert(self@ =~= spec_execute(s0, instr, rnd).0);
                }
                Ok(())
            },
            Instruction::LoadRegisters { x } => {
                let i = self.i as usize;
                if i + (x as usize) >= 4096 {
                    let address: u32 = if i >= 4096 {
                        i as u32
                    } else {
                        4096
                    };
                    return Err(Fault::OutOfBounds { pc: fault_pc, address });
                }
                let ghost s1 = self@;
                let count = x as usize + 1;
                let mut k: usize = 0;
                while k < count
                    invariant
                        count == x + 1,
                        x < 16,
                        i + x < 4096,
                        0 <= k <= count,
                        self@ == (VmState { regs: self@.regs, ..s1 }),
                        self@.regs.len() == 16,
                        self@.regs == load_regs(s1.regs, s1.mem, i as int, k as int),
                    decreases count - k,
                {
                    self.registers[k] = self.memory[i + k];
                    proof {
                        assert(self@.regs =~= load_regs(s1.regs, s1.mem, i as int, k + 1));
                    }
                    k = k + 1;
                }
                proof {
                    assert(self@ =~= spec_execute(s0, instr, rnd).0);
                }
                Ok(())
            },
            Instruction::Unknown { word } => Err(Fault::UnknownOpcode { pc: fault_pc, word }),
        }
    }

    /// One scheduler invocation with the random byte supplied by the caller:
    /// deterministic, and exactly what `spec_cycle` describes.  Refreshes the
    /// key snapshot; while waiting for a key, resumes on the lowest pressed
    /// key without executing an opcode and with timers frozen; otherwise
    /// decays both timers, then fetches, decodes and executes one
    /// instruction, and presents the framebuffer to the renderer when it
    /// changed.
    pub fn cycle_with_random<R: Renderer>(
        &mut self,
        keys: [bool; 16],
        rnd: u8,
        renderer: &mut R,
    ) -> (r: Result<(), Fault>)
        requires
            old(self).wf(),
        ensures
            final(self).wf(),
            final(self)@ == spec_cycle(old(self)@, keys@, rnd).0,
            r == spec_cycle(old(self)@, keys@, rnd).1,
    {
        self.keys = keys;
        if self.execution_paused {
            let mut idx: usize = 0;
            while idx < 16 && !self.keys[idx]
                invariant
                    0 <= idx <= 16,
                    self@ == (VmState { keys: keys@, ..old(self)@ }),
                    self@.keys.len() == 16,
                    first_pressed(keys@) == first_pressed_from(keys@, idx as int),
                decreases 16 - idx,
            {
                idx = idx + 1;
            }
            if idx < 16 {
                proof {
                    assert(old(self)@.wait_reg < 16);
                }
                self.registers[self.key_register] = idx as u8;
                self.execution_paused = false;
                proof {
                    assert(self@ =~= spec_cycle(old(self)@, keys@, rnd).0);
                }
            }
            Ok(())
        } else {
            self.delay_timer = if self.delay_timer == 0 {
                0
            } else {
                self.delay_timer - 1
            };
            self.sound_timer = if self.sound_timer == 0 {
                0
            } else {
                self.sound_timer - 1
            };
            if self.pc >= 4095 {
                let address: u32 = if self.pc >= 4096 {
                    self.pc as u32
                } else {
                    4096
                };
                return Err(Fault::OutOfBounds { pc: self.pc, address });
            }
            let word = self.get_current_instruction();
            let instr = Instruction::from_u16(word);
            proof {
                lemma_decode_wf(word);
            }
            match self.execute(instr, rnd, renderer) {
                Err(fault) => Err(fault),
                Ok(()) => {
                    if self.display_changed {
                        renderer.draw(&self.display_bits);
                        self.display_changed = false;
                    }
                    proof {
                        assert(self@ =~= spec_cycle(old(self)@, keys@, rnd).0);
                    }
                    Ok(())
                },
            }
        }
    }

    /// One scheduler invocation, drawing the random byte from the thread's
    /// generator: some byte exists for which this step is exactly the cycle
    /// the model describes.
    pub fn cycle<R: Renderer>(&mut self, keys: [bool; 16], renderer: &mut R) -> (r: Result<
        (),
        Fault,
    >)
        requires
            old(self).wf(),
        ensures
            final(self).wf(),
            (exists|rnd: u8| #[trigger] cycle_outcome(old(self)@, keys@, rnd, final(self)@, r)),
    {
        let rnd = random_byte();
        let r = self.cycle_with_random(keys, rnd, renderer);
        proof {
            assert(cycle_outcome(old(self)@, keys@, rnd, self@, r));
        }
        r
    }
}

} // verus!

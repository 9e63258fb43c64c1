//! The execution engine: it owns all machine state and mutates it one
//! instruction at a time. Every operation is proved to perform exactly the
//! transition that `isa::spec_execute` and `isa::spec_tick` give for it.

use vstd::prelude::*;

use rand::Rng;

use crate::fonts::HEX_DIGIT_DATA;
use crate::isa::Chip8Error;
use crate::isa::CpuState;
use crate::isa::InstructionPointer;
use crate::isa::apply_ip;
use crate::isa::bit_at;
use crate::isa::col_of;
use crate::isa::draw_collides;
use crate::isa::draw_vram;
use crate::isa::fetch16;
use crate::isa::first_pressed;
use crate::isa::first_pressed_from;
use crate::isa::flag;
use crate::isa::keywait_resolve;
use crate::isa::lemma_draw_empty;
use crate::isa::lemma_draw_row_boundary;
use crate::isa::lemma_draw_step;
use crate::isa::op_hi;
use crate::isa::pix;
use crate::isa::row_of;
use crate::isa::st_block_load;
use crate::isa::st_block_store;
use crate::isa::st_drw;
use crate::isa::st_load_rom;
use crate::isa::step_matches;
use crate::isa::tick_matches;
use crate::isa::tick_uses_rnd;
use crate::isa::wrap16;

verus! {

/// Address at which execution starts and program images are loaded.
pub const RESET_VECTOR: u16 = 0x200;

/// Size of the addressable memory in bytes.
pub const RAM_LENGTH: usize = 0x1000;

/// Width of one instruction in bytes.
pub const OPCODE_SIZE: u16 = 2;

/// Number of pixels in the framebuffer (64 columns by 32 rows).
pub const VRAM_LENGTH: usize = 2048;

/// Largest program image that fits between the reset vector and the end of
/// memory.
pub const MAX_ROM_SIZE: usize = 0xE00;

/// The machine: sixteen 8-bit registers (the one at index 15 doubling as the
/// flags register), a 16-bit program counter and address register, a
/// sixteen-deep call stack, 4096 bytes of memory with the glyph table burned
/// into its first bytes, a 64x32 one-bit framebuffer stored row-major, the
/// two hardware timers, and the key-wait state.
pub struct Cpu {
    pub pc: u16,
    pub v: [u8; 16],
    pub sp: u8,
    pub stack: [u16; 16],
    pub i: u16,
    pub delay_timer: u8,
    pub sound_timer: u8,
    pub ram: [u8; RAM_LENGTH],
    pub vram: [u8; VRAM_LENGTH],
    pub awaiting_keypress: bool,
    pub first_key_pressed_register: usize,
    pub keys_pressed: [bool; 16],
    pub vram_changed: bool,
}

impl View for Cpu {
    type V = CpuState;

    open spec fn view(&self) -> CpuState {
        CpuState {
            pc: self.pc,
            v: self.v@,
            sp: self.sp,
            stack: self.stack@,
            i: self.i,
            delay_timer: self.delay_timer,
            sound_timer: self.sound_timer,
            ram: self.ram@,
            vram: self.vram@,
            awaiting_keypress: self.awaiting_keypress,
            first_key_pressed_register: self.first_key_pressed_register,
            keys_pressed: self.keys_pressed@,
            vram_changed: self.vram_changed,
        }
    }
}

impl Cpu {
    /// Well-formedness of the machine: the sizes are fixed by the types;
    /// the stack pointer and the key-wait target register stay in range.
    pub open spec fn wf(self) -> bool {
        self@.wf()
    }

    /// A machine at reset: glyph table in low memory, everything else
    /// zeroed, program counter at the reset vector.
    pub fn new() -> (r: Cpu)
        ensures
            r.wf(),
            r@ == CpuState::initial(),
    {
        let mut ram: [u8; RAM_LENGTH] = [0; RAM_LENGTH];
        let mut idx: usize = 0;
        while idx < 80
            invariant
                idx <= 80,
                forall|j: int| 0 <= j < idx ==> ram@[j] == HEX_DIGIT_DATA@[j],
                forall|j: int| idx <= j < 4096 ==> ram@[j] == 0u8,
            decreases 80 - idx,
        {
            ram[idx] = HEX_DIGIT_DATA[idx];
            idx += 1;
        }
        let r = Cpu {
            pc: RESET_VECTOR,
            v: [0; 16],
            sp: 0,
            stack: [0; 16],
            i: 0,
            delay_timer: 0,
            sound_timer: 0,
            ram,
            vram: [0; VRAM_LENGTH],
            awaiting_keypress: false,
            first_key_pressed_register: 0,
            keys_pressed: [false; 16],
            vram_changed: false,
        };
        proof {
            assert(r@ =~= CpuState::initial());
        }
        r
    }

    /// Writes a program image verbatim into memory starting at the reset
    /// vector. An image larger than the loadable region is rejected whole:
    /// nothing is written.
    pub fn load_rom(&mut self, rom: &Vec<u8>) -> (r: Result<(), Chip8Error>)
        requires
            old(self).wf(),
        ensures
            final(self).wf(),
            rom@.len() > MAX_ROM_SIZE ==> r == Err::<(), Chip8Error>(Chip8Error::ProgramTooLarge)
                && final(self)@ == old(self)@,
            rom@.len() <= MAX_ROM_SIZE ==> r is Ok && final(self)@ == st_load_rom(
                old(self)@,
                rom@,
            ),
    {
        if rom.len() > MAX_ROM_SIZE {
            return Err(Chip8Error::ProgramTooLarge);
        }
        let ghost g = self@;
        let mut idx: usize = 0;
        while idx < rom.len()
            invariant
                self@ == (CpuState { ram: self@.ram, ..g }),
                idx <= rom@.len(),
                rom@.len() <= MAX_ROM_SIZE,
                self@.ram.len() == 4096,
                forall|a: int|
                    0 <= a < 4096 && !(0x200 <= a < 0x200 + idx) ==> self@.ram[a] == g.ram[a],
                forall|a: int| 0x200 <= a < 0x200 + idx ==> self@.ram[a] == rom@[a - 0x200],
            decreases rom@.len() - idx,
        {
            self.ram[0x200 + idx] = rom[idx];
            idx += 1;
        }
        proof {
            assert(self@ =~= st_load_rom(g, rom@));
        }
        Ok(())
    }

    /// Clear-screen: every framebuffer cell to 0; the buffer is marked
    /// changed.
    fn op_cls(&mut self) -> (r: InstructionPointer)
        requires
            old(self).wf(),
        ensures
            final(self).wf(),
            final(self)@ == (CpuState {
                vram: Seq::new(2048, |p: int| 0u8),
                vram_changed: true,
                ..old(self)@
            }),
            r == InstructionPointer::Inc,
    {
        self.vram = [0; VRAM_LENGTH];
        self.vram_changed = true;
        proof {
            assert(self@.vram =~= Seq::new(2048, |p: int| 0u8));
        }
        InstructionPointer::Inc
    }

    /// Return: jump to the address on top of the call stack and pop it.
    /// A return with an empty stack is fatal.
    fn op_ret(&mut self) -> (r: Result<InstructionPointer, Chip8Error>)
        requires
            old(self).wf(),
        ensures
            final(self).wf(),
            old(self).sp == 0 ==> r == Err::<InstructionPointer, Chip8Error>(
                Chip8Error::StackUnderflow,
            ) && final(self)@ == old(self)@,
            old(self).sp > 0 ==> r == Ok::<InstructionPointer, Chip8Error>(
                InstructionPointer::Jump(old(self)@.stack[old(self).sp as int]),
            ) && final(self)@ == (CpuState { sp: (old(self).sp - 1) as u8, ..old(self)@ }),
    {
        if self.sp == 0 {
            return Err(Chip8Error::StackUnderflow);
        }
        let target = self.stack[self.sp as usize];
        self.sp -= 1;
        Ok(InstructionPointer::Jump(target))
    }

    /// Call: push the address of the instruction after the call, then jump.
    /// A call with a full stack is fatal.
    fn op_call(&mut self, nnn: u16) -> (r: Result<InstructionPointer, Chip8Error>)
        requires
            old(self).wf(),
        ensures
            final(self).wf(),
            old(self).sp >= 15 ==> r == Err::<InstructionPointer, Chip8Error>(
                Chip8Error::StackOverflow,
            ) && final(self)@ == old(self)@,
            old(self).sp < 15 ==> r == Ok::<InstructionPointer, Chip8Error>(
                InstructionPointer::Jump(nnn),
            ) && final(self)@ == (CpuState {
                sp: (old(self).sp + 1) as u8,
                stack: old(self)@.stack.update(old(self).sp + 1, wrap16(old(self)@.pc + 2)),
                ..old(self)@
            }),
    {
        if self.sp >= 15 {
            return Err(Chip8Error::StackOverflow);
        }
        let ret_addr = (((self.pc as u32) + 2) % 0x10000) as u16;
        self.sp += 1;
        self.stack[self.sp as usize] = ret_addr;
        Ok(InstructionPointer::Jump(nnn))
    }

    /// Load immediate: register `x` takes the immediate byte.
    fn op_ldx_b(&mut self, x: usize, kk: u8) -> (r: InstructionPointer)
        requires
            old(self).wf(),
            x < 16,
        ensures
            final(self).wf(),
            final(self)@ == (CpuState { v: old(self)@.v.update(x as int, kk), ..old(self)@ }),
            r == InstructionPointer::Inc,
    {
        self.v[x] = kk;
        InstructionPointer::Inc
    }

    /// Add immediate: 8-bit wrapping sum, no flag side effect.
    fn op_add(&mut self, x: usize, kk: u8) -> (r: InstructionPointer)
        requires
            old(self).wf(),
            x < 16,
        ensures
            final(self).wf(),
            final(self)@ == (CpuState {
                v: old(self)@.v.update(x as int, ((old(self)@.v[x as int] + kk) % 256) as u8),
                ..old(self)@
            }),
            r == InstructionPointer::Inc,
    {
        self.v[x] = (((self.v[x] as u16) + (kk as u16)) % 256) as u8;
        InstructionPointer::Inc
    }

    /// Register copy: register `x` takes the value of register `y`.
    fn op_ldx_y(&mut self, x: usize, y: usize) -> (r: InstructionPointer)
        requires
            old(self).wf(),
            x < 16,
            y < 16,
        ensures
            final(self).wf(),
            final(self)@ == (CpuState {
                v: old(self)@.v.update(x as int, old(self)@.v[y as int]),
                ..old(self)@
            }),
            r == InstructionPointer::Inc,
    {
        self.v[x] = self.v[y];
        InstructionPointer::Inc
    }

    /// Bitwise OR of two registers into the first; no flag side effect.
    fn op_or(&mut self, x: usize, y: usize) -> (r: InstructionPointer)
        requires
            old(self).wf(),
            x < 16,
            y < 16,
        ensures
            final(self).wf(),
            final(self)@ == (CpuState {
                v: old(self)@.v.update(x as int, old(self)@.v[x as int] | old(self)@.v[y as int]),
                ..old(self)@
            }),
            r == InstructionPointer::Inc,
    {
        self.v[x] = self.v[x] | self.v[y];
        InstructionPointer::Inc
    }

    /// Bitwise AND of two registers into the first; no flag side effect.
    fn op_and(&mut self, x: usize, y: usize) -> (r: InstructionPointer)
        requires
            old(self).wf(),
            x < 16,
            y < 16,
        ensures
            final(self).wf(),
            final(self)@ == (CpuState {
                v: old(self)@.v.update(x as int, old(self)@.v[x as int] & old(self)@.v[y as int]),
                ..old(self)@
            }),
            r == InstructionPointer::Inc,
    {
        self.v[x] = self.v[x] & self.v[y];
        InstructionPointer::Inc
    }

    /// Bitwise XOR of two registers into the first; no flag side effect.
    fn op_xor(&mut self, x: usize, y: usize) -> (r: InstructionPointer)
        requires
            old(self).wf(),
            x < 16,
            y < 16,
        ensures
            final(self).wf(),
            final(self)@ == (CpuState {
                v: old(self)@.v.update(x as int, old(self)@.v[x as int] ^ old(self)@.v[y as int]),
                ..old(self)@
            }),
            r == InstructionPointer::Inc,
    {
        self.v[x] = self.v[x] ^ self.v[y];
        InstructionPointer::Inc
    }

    /// Add with carry: 8-bit wrapping sum of two registers; the flags
    /// register becomes 1 exactly when the mathematical sum exceeds 255.
    fn op_add_xy(&mut self, x: usize, y: usize) -> (r: InstructionPointer)
        requires
            old(self).wf(),
            x < 16,
            y < 16,
        ensures
            final(self).wf(),
            final(self)@ == (CpuState {
                v: old(self)@.v.update(
                    x as int,
                    ((old(self)@.v[x as int] + old(self)@.v[y as int]) % 256) as u8,
                ).update(15, flag(old(self)@.v[x as int] + old(self)@.v[y as int] > 255)),
                ..old(self)@
            }),
            r == InstructionPointer::Inc,
    {
        let sum = (self.v[x] as u16) + (self.v[y] as u16);
        self.v[x] = (sum % 256) as u8;
        self.v[15] = if sum > 255 {
            1
        } else {
            0
        };
        InstructionPointer::Inc
    }

    /// Subtract with borrow, `x` minus `y`: wrapping difference; the flags
    /// register becomes 1 exactly when no borrow occurred (`x >= y`).
    fn op_sub_xy(&mut self, x: usize, y: usize) -> (r: InstructionPointer)
        requires
            old(self).wf(),
            x < 16,
            y < 16,
        ensures
            final(self).wf(),
            final(self)@ == (CpuState {
                v: old(self)@.v.update(
                    x as int,
                    ((old(self)@.v[x as int] - old(self)@.v[y as int] + 256) % 256) as u8,
                ).update(15, flag(old(self)@.v[x as int] >= old(self)@.v[y as int])),
                ..old(self)@
            }),
            r == InstructionPointer::Inc,
    {
        let vx = self.v[x];
        let vy = self.v[y];
        self.v[x] = (((vx as u16) + 256 - (vy as u16)) % 256) as u8;
        self.v[15] = if vx >= vy {
            1
        } else {
            0
        };
        InstructionPointer::Inc
    }

    /// Shift right by one: the flags register takes the discarded low bit
    /// of the pre-shift value, then the register is halved. The second
    /// register operand of the instruction is ignored.
    fn op_shr(&mut self, x: usize) -> (r: InstructionPointer)
        requires
            old(self).wf(),
            x < 16,
        ensures
            final(self).wf(),
            final(self)@ == (CpuState {
                v: ({
                    let v1 = old(self)@.v.update(15, (old(self)@.v[x as int] % 2) as u8);
                    v1.update(x as int, (v1[x as int] / 2) as u8)
                }),
                ..old(self)@
            }),
            r == InstructionPointer::Inc,
    {
        self.v[15] = self.v[x] % 2;
        self.v[x] = self.v[x] / 2;
        InstructionPointer::Inc
    }

    /// Reverse subtract, `y` minus `x`: wrapping difference into register
    /// `x`; the flags register becomes 1 exactly when no borrow occurred
    /// (`y >= x`).
    fn op_subn(&mut self, x: usize, y: usize) -> (r: InstructionPointer)
        requires
            old(self).wf(),
            x < 16,
            y < 16,
        ensures
            final(self).wf(),
            final(self)@ == (CpuState {
                v: old(self)@.v.update(
                    15,
                    flag(old(self)@.v[y as int] >= old(self)@.v[x as int]),
                ).update(
                    x as int,
                    ((old(self)@.v[y as int] - old(self)@.v[x as int] + 256) % 256) as u8,
                ),
                ..old(self)@
            }),
            r == InstructionPointer::Inc,
    {
        let vx = self.v[x];
        let vy = self.v[y];
        self.v[15] = if vy >= vx {
            1
        } else {
            0
        };
        self.v[x] = (((vy as u16) + 256 - (vx as u16)) % 256) as u8;
        InstructionPointer::Inc
    }

    /// Shift left by one: the flags register takes the discarded high bit
    /// of the pre-shift value, then the register is doubled modulo 256. The
    /// second register operand of the instruction is ignored.
    fn op_shl(&mut self, x: usize) -> (r: InstructionPointer)
        requires
            old(self).wf(),
            x < 16,
        ensures
            final(self).wf(),
            final(self)@ == (CpuState {
                v: ({
                    let v1 = old(self)@.v.update(15, (old(self)@.v[x as int] / 128) as u8);
                    v1.update(x as int, ((v1[x as int] * 2) % 256) as u8)
                }),
                ..old(self)@
            }),
            r == InstructionPointer::Inc,
    {
        self.v[15] = self.v[x] / 128;
        self.v[x] = (((self.v[x] as u16) * 2) % 256) as u8;
        InstructionPointer::Inc
    }

    /// Load the address register with a 12-bit immediate.
    fn op_ld_i(&mut self, nnn: u16) -> (r: InstructionPointer)
        requires
            old(self).wf(),
        ensures
            final(self).wf(),
            final(self)@ == (CpuState { i: nnn, ..old(self)@ }),
            r == InstructionPointer::Inc,
    {
        self.i = nnn;
        InstructionPointer::Inc
    }

    /// Indexed jump: to the 12-bit address plus the value of register 0.
    fn op_jpv(&mut self, nnn: u16) -> (r: InstructionPointer)
        requires
            old(self).wf(),
            nnn < 0x1000,
        ensures
            final(self).wf(),
            final(self)@ == old(self)@,
            r == InstructionPointer::Jump((nnn + old(self)@.v[0]) as u16),
    {
        InstructionPointer::Jump(nnn + (self.v[0] as u16))
    }

    /// Sprite draw: `n` sprite bytes starting at the address register,
    /// drawn with origin (column register `x`, row register `y`), each bit
    /// exclusive-or'd into its destination pixel; coordinates wrap
    /// toroidally per axis, even mid-sprite. The flags register becomes 1
    /// exactly when some destination pixel had both its old bit and its
    /// incoming bit set. The framebuffer is marked changed unconditionally.
    /// Sprite bytes past the end of memory are fatal; nothing is drawn then.
    fn op_drw(&mut self, x: usize, y: usize, n: usize) -> (r: Result<
        InstructionPointer,
        Chip8Error,
    >)
        requires
            old(self).wf(),
            x < 16,
            y < 16,
            n <= 15,
        ensures
            final(self).wf(),
            match st_drw(old(self)@, x as int, y as int, n as int) {
                Ok(t) => r == Ok::<InstructionPointer, Chip8Error>(InstructionPointer::Inc)
                    && final(self)@ == t,
                Err(e) => r == Err::<InstructionPointer, Chip8Error>(e) && final(self)@ == old(
                    self,
                )@,
            },
    {
        if n > 0 && (self.i as usize) + n > 4096 {
            return Err(Chip8Error::MemoryOutOfRange);
        }
        let ghost g = self@;
        let ghost ii = self@.i as int;
        let vx = self.v[x];
        let vy = self.v[y];
        self.v[15] = 0;
        proof {
            lemma_draw_empty(g.vram, g.ram, ii, vx, vy);
        }
        let mut by: usize = 0;
        while by < n
            invariant
                g.wf(),
                x < 16,
                y < 16,
                n <= 15,
                by <= n,
                vx == g.v[x as int],
                vy == g.v[y as int],
                ii == g.i as int,
                n > 0 ==> ii + n <= 4096,
                self@ == (CpuState {
                    v: g.v.update(
                        15,
                        flag(draw_collides(g.vram, g.ram, ii, vx, vy, by as int, 0)),
                    ),
                    vram: draw_vram(g.vram, g.ram, ii, vx, vy, by as int, 0),
                    ..g
                }),
            decreases n - by,
        {
            let row = ((vy as usize) + by) % 32;
            let pb = self.ram[(self.i as usize) + by];
            let mut bi: usize = 0;
            while bi < 8
                invariant
                    g.wf(),
                    x < 16,
                    y < 16,
                    n <= 15,
                    by < n,
                    bi <= 8,
                    vx == g.v[x as int],
                    vy == g.v[y as int],
                    ii == g.i as int,
                    ii + n <= 4096,
                    row == row_of(vy, by as int),
                    pb == g.ram[ii + by],
                    self@ == (CpuState {
                        v: g.v.update(
                            15,
                            flag(draw_collides(g.vram, g.ram, ii, vx, vy, by as int, bi as int)),
                        ),
                        vram: draw_vram(g.vram, g.ram, ii, vx, vy, by as int, bi as int),
                        ..g
                    }),
                decreases 8 - bi,
            {
                let ghost pre = self@;
                let col = ((vx as usize) + bi) % 64;
                let divisor: u8 = if bi == 0 {
                    128
                } else if bi == 1 {
                    64
                } else if bi == 2 {
                    32
                } else if bi == 3 {
                    16
                } else if bi == 4 {
                    8
                } else if bi == 5 {
                    4
                } else if bi == 6 {
                    2
                } else {
                    1
                };
                let px = (pb / divisor) % 2;
                let idx = row * 64 + col;
                proof {
                    lemma_draw_step(g.vram, g.ram, ii, vx, vy, by as int, bi as int);
                    assert(col == col_of(vx, bi as int));
                    assert(idx == pix(row_of(vy, by as int), col_of(vx, bi as int)));
                    assert(px == bit_at(pb, bi as int));
                }
                let cur = self.vram[idx];
                if cur & px != 0 {
                    self.v[15] = 1;
                }
                self.vram[idx] = cur ^ px;
                proof {
                    assert(self@.vram == draw_vram(
                        g.vram,
                        g.ram,
                        ii,
                        vx,
                        vy,
                        by as int,
                        bi + 1,
                    ));
                    if cur & px != 0 {
                        assert(self@.v =~= g.v.update(
                            15,
                            flag(draw_collides(g.vram, g.ram, ii, vx, vy, by as int, bi + 1)),
                        ));
                    } else {
                        assert(!((g.vram[idx as int] & bit_at(g.ram[ii + by], bi as int)) != 0));
                        assert(self@.v == g.v.update(
                            15,
                            flag(draw_collides(g.vram, g.ram, ii, vx, vy, by as int, bi + 1)),
                        ));
                    }
                }
                bi += 1;
            }
            proof {
                lemma_draw_row_boundary(g.vram, g.ram, ii, vx, vy, by as int);
            }
            by += 1;
        }
        self.vram_changed = true;
        proof {
            assert(self@ == st_drw(g, x as int, y as int, n as int)->Ok_0);
        }
        Ok(InstructionPointer::Inc)
    }

    /// Unconditional jump to an absolute 12-bit address.
    fn op_jp(&mut self, nnn: u16) -> (r: InstructionPointer)
        requires
            old(self).wf(),
        ensures
            final(self).wf(),
            final(self)@ == old(self)@,
            r == InstructionPointer::Jump(nnn),
    {
        InstructionPointer::Jump(nnn)
    }

    /// Skip the next instruction when register `x` equals the immediate.
    fn op_se(&mut self, x: usize, kk: u8) -> (r: InstructionPointer)
        requires
            old(self).wf(),
            x < 16,
        ensures
            final(self).wf(),
            final(self)@ == old(self)@,
            r == (if old(self)@.v[x as int] == kk {
                InstructionPointer::Skip
            } else {
                InstructionPointer::Inc
            }),
    {
        if self.v[x] == kk {
            InstructionPointer::Skip
        } else {
            InstructionPointer::Inc
        }
    }

    /// Skip the next instruction when register `x` differs from the
    /// immediate.
    fn op_sne(&mut self, x: usize, kk: u8) -> (r: InstructionPointer)
        requires
            old(self).wf(),
            x < 16,
        ensures
            final(self).wf(),
            final(self)@ == old(self)@,
            r == (if old(self)@.v[x as int] != kk {
                InstructionPointer::Skip
            } else {
                InstructionPointer::Inc
            }),
    {
        if self.v[x] != kk {
            InstructionPointer::Skip
        } else {
            InstructionPointer::Inc
        }
    }

    /// Skip the next instruction when registers `x` and `y` are equal.
    fn op_se_vxy(&mut self, x: usize, y: usize) -> (r: InstructionPointer)
        requires
            old(self).wf(),
            x < 16,
            y < 16,
        ensures
            final(self).wf(),
            final(self)@ == old(self)@,
            r == (if old(self)@.v[x as int] == old(self)@.v[y as int] {
                InstructionPointer::Skip
            } else {
                InstructionPointer::Inc
            }),
    {
        if self.v[x] == self.v[y] {
            InstructionPointer::Skip
        } else {
            InstructionPointer::Inc
        }
    }

    /// Skip the next instruction when registers `x` and `y` differ.
    fn op_sne_xy(&mut self, x: usize, y: usize) -> (r: InstructionPointer)
        requires
            old(self).wf(),
            x < 16,
            y < 16,
        ensures
            final(self).wf(),
            final(self)@ == old(self)@,
            r == (if old(self)@.v[x as int] != old(self)@.v[y as int] {
                InstructionPointer::Skip
            } else {
                InstructionPointer::Inc
            }),
    {
        if self.v[x] != self.v[y] {
            InstructionPointer::Skip
        } else {
            InstructionPointer::Inc
        }
    }

    /// Random byte AND immediate into register `x`. The byte comes from
    /// the process-wide pseudo-random source, so only its existence is
    /// stated; no two calls need agree.
    fn op_rnd(&mut self, x: usize, kk: u8) -> (r: InstructionPointer)
        requires
            old(self).wf(),
            x < 16,
        ensures
            final(self).wf(),
            exists|rb: u8|
                final(self)@ == (CpuState {
                    v: #[trigger] old(self)@.v.update(x as int, kk & rb),
                    ..old(self)@
                }),
            r == InstructionPointer::Inc,
    {
        let rb = random_byte();
        self.v[x] = kk & rb;
        proof {
            assert(self@ == (CpuState { v: old(self)@.v.update(x as int, kk & rb), ..old(self)@ }));
        }
        InstructionPointer::Inc
    }

    /// Skip-if-key-pressed: reads the key-state entry indexed by register
    /// `x`. A register value above 15 is fatal.
    fn op_skp(&mut self, x: usize) -> (r: Result<InstructionPointer, Chip8Error>)
        requires
            old(self).wf(),
            x < 16,
        ensures
            final(self).wf(),
            final(self)@ == old(self)@,
            old(self)@.v[x as int] > 15 ==> r == Err::<InstructionPointer, Chip8Error>(
                Chip8Error::KeyOutOfRange { key: old(self)@.v[x as int] },
            ),
            old(self)@.v[x as int] <= 15 ==> r == Ok::<InstructionPointer, Chip8Error>(
                if old(self)@.keys_pressed[old(self)@.v[x as int] as int] {
                    InstructionPointer::Skip
                } else {
                    InstructionPointer::Inc
                },
            ),
    {
        let key = self.v[x];
        if key > 15 {
            return Err(Chip8Error::KeyOutOfRange { key });
        }
        if self.keys_pressed[key as usize] {
            Ok(InstructionPointer::Skip)
        } else {
            Ok(InstructionPointer::Inc)
        }
    }

    /// Skip-if-key-not-pressed: reads the key-state entry indexed by
    /// register `x`. A register value above 15 is fatal.
    fn op_sknp(&mut self, x: usize) -> (r: Result<InstructionPointer, Chip8Error>)
        requires
            old(self).wf(),
            x < 16,
        ensures
            final(self).wf(),
            final(self)@ == old(self)@,
            old(self)@.v[x as int] > 15 ==> r == Err::<InstructionPointer, Chip8Error>(
                Chip8Error::KeyOutOfRange { key: old(self)@.v[x as int] },
            ),
            old(self)@.v[x as int] <= 15 ==> r == Ok::<InstructionPointer, Chip8Error>(
                if !old(self)@.keys_pressed[old(self)@.v[x as int] as int] {
                    InstructionPointer::Skip
                } else {
                    InstructionPointer::Inc
                },
            ),
    {
        let key = self.v[x];
        if key > 15 {
            return Err(Chip8Error::KeyOutOfRange { key });
        }
        if !self.keys_pressed[key as usize] {
            Ok(InstructionPointer::Skip)
        } else {
            Ok(InstructionPointer::Inc)
        }
    }

    /// Read the delay timer into register `x`.
    fn op_ld_vx_dt(&mut self, x: usize) -> (r: InstructionPointer)
        requires
            old(self).wf(),
            x < 16,
        ensures
            final(self).wf(),
            final(self)@ == (CpuState {
                v: old(self)@.v.update(x as int, old(self)@.delay_timer),
                ..old(self)@
            }),
            r == InstructionPointer::Inc,
    {
        self.v[x] = self.delay_timer;
        InstructionPointer::Inc
    }

    /// Block-for-keypress: suspend fetching until a key is observed
    /// pressed; the key value will be written into register `x`.
    fn op_ld_vx_k(&mut self, x: usize) -> (r: InstructionPointer)
        requires
            old(self).wf(),
            x < 16,
        ensures
            final(self).wf(),
            final(self)@ == (CpuState {
                awaiting_keypress: true,
                first_key_pressed_register: x,
                ..old(self)@
            }),
            r == InstructionPointer::Inc,
    {
        self.first_key_pressed_register = x;
        self.awaiting_keypress = true;
        InstructionPointer::Inc
    }

    /// Write register `x` into the delay timer.
    fn op_ld_dt_vx(&mut self, x: usize) -> (r: InstructionPointer)
        requires
            old(self).wf(),
            x < 16,
        ensures
            final(self).wf(),
            final(self)@ == (CpuState { delay_timer: old(self)@.v[x as int], ..old(self)@ }),
            r == InstructionPointer::Inc,
    {
        self.delay_timer = self.v[x];
        InstructionPointer::Inc
    }

    /// Write register `x` into the sound timer.
    fn op_ld_st_vx(&mut self, x: usize) -> (r: InstructionPointer)
        requires
            old(self).wf(),
            x < 16,
        ensures
            final(self).wf(),
            final(self)@ == (CpuState { sound_timer: old(self)@.v[x as int], ..old(self)@ }),
            r == InstructionPointer::Inc,
    {
        self.sound_timer = self.v[x];
        InstructionPointer::Inc
    }

    /// Add register `x`, zero-extended, into the address register,
    /// wrapping at 16 bits.
    fn op_add_i_vx(&mut self, x: usize) -> (r: InstructionPointer)
        requires
            old(self).wf(),
            x < 16,
        ensures
            final(self).wf(),
            final(self)@ == (CpuState {
                i: wrap16(old(self)@.i + old(self)@.v[x as int]),
                ..old(self)@
            }),
            r == InstructionPointer::Inc,
    {
        self.i = (((self.i as u32) + (self.v[x] as u32)) % 0x10000) as u16;
        InstructionPointer::Inc
    }

    /// Font-glyph lookup: point the address register at the glyph bitmap
    /// for the digit held in register `x` (five bytes per glyph).
    fn op_ld_f_vx(&mut self, x: usize) -> (r: InstructionPointer)
        requires
            old(self).wf(),
            x < 16,
        ensures
            final(self).wf(),
            final(self)@ == (CpuState { i: (old(self)@.v[x as int] * 5) as u16, ..old(self)@ }),
            r == InstructionPointer::Inc,
    {
        self.i = (self.v[x] as u16) * 5;
        InstructionPointer::Inc
    }

    /// Binary-coded-decimal expansion: the hundreds, tens and ones digits
    /// of register `x` go to memory at the address register and the two
    /// following bytes. Reaching past the end of memory is fatal.
    fn op_ld_b_vx(&mut self, x: usize) -> (r: Result<InstructionPointer, Chip8Error>)
        requires
            old(self).wf(),
            x < 16,
        ensures
            final(self).wf(),
            old(self)@.i + 2 > 4095 ==> r == Err::<InstructionPointer, Chip8Error>(
                Chip8Error::MemoryOutOfRange,
            ) && final(self)@ == old(self)@,
            old(self)@.i + 2 <= 4095 ==> r == Ok::<InstructionPointer, Chip8Error>(
                InstructionPointer::Inc,
            ) && final(self)@ == (CpuState {
                ram: old(self)@.ram.update(old(self)@.i as int, (old(self)@.v[x as int] / 100) as u8)
                    .update(old(self)@.i + 1, ((old(self)@.v[x as int] % 100) / 10) as u8)
                    .update(old(self)@.i + 2, (old(self)@.v[x as int] % 10) as u8),
                ..old(self)@
            }),
    {
        if self.i > 4093 {
            return Err(Chip8Error::MemoryOutOfRange);
        }
        let base = self.i as usize;
        let val = self.v[x];
        self.ram[base] = val / 100;
        self.ram[base + 1] = (val % 100) / 10;
        self.ram[base + 2] = val % 10;
        Ok(InstructionPointer::Inc)
    }

    /// Block store: registers 0 through `x` inclusive are copied into
    /// memory starting at the address register. Reaching past the end of
    /// memory is fatal; nothing is written then.
    fn op_ld_i_vx(&mut self, x: usize) -> (r: Result<InstructionPointer, Chip8Error>)
        requires
            old(self).wf(),
            x < 16,
        ensures
            final(self).wf(),
            match st_block_store(old(self)@, x as int) {
                Ok(t) => r == Ok::<InstructionPointer, Chip8Error>(InstructionPointer::Inc)
                    && final(self)@ == t,
                Err(e) => r == Err::<InstructionPointer, Chip8Error>(e) && final(self)@ == old(
                    self,
                )@,
            },
    {
        if (self.i as usize) + x > 4095 {
            return Err(Chip8Error::MemoryOutOfRange);
        }
        let ghost g = self@;
        let base = self.i as usize;
        let mut idx: usize = 0;
        while idx < x + 1
            invariant
                self@ == (CpuState { ram: self@.ram, ..g }),
                base == g.i,
                x < 16,
                idx <= x + 1,
                g.i + x <= 4095,
                self@.ram.len() == 4096,
                g.v.len() == 16,
                forall|a: int|
                    0 <= a < 4096 && !(base <= a < base + idx) ==> self@.ram[a] == g.ram[a],
                forall|a: int| base <= a < base + idx ==> self@.ram[a] == g.v[a - base],
            decreases x + 1 - idx,
        {
            self.ram[base + idx] = self.v[idx];
            idx += 1;
        }
        proof {
            assert(self@ =~= st_block_store(g, x as int)->Ok_0);
        }
        Ok(InstructionPointer::Inc)
    }

    /// Block load: memory starting at the address register is copied into
    /// registers 0 through `x` inclusive. Reaching past the end of memory
    /// is fatal; nothing is written then.
    fn op_ld_vx_i(&mut self, x: usize) -> (r: Result<InstructionPointer, Chip8Error>)
        requires
            old(self).wf(),
            x < 16,
        ensures
            final(self).wf(),
            match st_block_load(old(self)@, x as int) {
                Ok(t) => r == Ok::<InstructionPointer, Chip8Error>(InstructionPointer::Inc)
                    && final(self)@ == t,
                Err(e) => r == Err::<InstructionPointer, Chip8Error>(e) && final(self)@ == old(
                    self,
                )@,
            },
    {
        if (self.i as usize) + x > 4095 {
            return Err(Chip8Error::MemoryOutOfRange);
        }
        let ghost g = self@;
        let base = self.i as usize;
        let mut idx: usize = 0;
        while idx < x + 1
            invariant
                self@ == (CpuState { v: self@.v, ..g }),
                base == g.i,
                x < 16,
                idx <= x + 1,
                g.i + x <= 4095,
                self@.v.len() == 16,
                g.ram.len() == 4096,
                forall|q: int| 0 <= q < 16 && !(q < idx) ==> self@.v[q] == g.v[q],
                forall|q: int| 0 <= q < idx ==> self@.v[q] == g.ram[base + q],
            decreases x + 1 - idx,
        {
            self.v[idx] = self.ram[base + idx];
            idx += 1;
        }
        proof {
            assert(self@ =~= st_block_load(g, x as int)->Ok_0);
        }
        Ok(InstructionPointer::Inc)
    }

    /// One framebuffer pixel, addressed (row, column).
    pub fn pixel(&self, row: usize, col: usize) -> (r: u8)
        requires
            row < 32,
            col < 64,
        ensures
            r == self@.vram[row * 64 + col],
    {
        self.vram[row * 64 + col]
    }

    /// Whether the tone should be sounding: exactly while the sound timer
    /// is above zero.
    pub fn sound_active(&self) -> (r: bool)
        ensures
            r == (self@.sound_timer > 0),
    {
        self.sound_timer > 0
    }

    /// Clears the framebuffer's dirty flag after a successful presentation;
    /// nothing else changes.
    pub fn clear_vram_changed(&mut self)
        ensures
            final(self)@ == (CpuState { vram_changed: false, ..old(self)@ }),
    {
        self.vram_changed = false;
    }

    /// One tick of the two hardware timers, to be driven at a fixed real-
    /// time rate by the frame loop, independently of instruction execution:
    /// each timer above zero counts down by one; nothing else changes.
    pub fn tick_timers(&mut self)
        ensures
            final(self)@ == (CpuState {
                delay_timer: if old(self)@.delay_timer > 0 {
                    (old(self)@.delay_timer - 1) as u8
                } else {
                    0
                },
                sound_timer: if old(self)@.sound_timer > 0 {
                    (old(self)@.sound_timer - 1) as u8
                } else {
                    0
                },
                ..old(self)@
            }),
    {
        if self.delay_timer > 0 {
            self.delay_timer -= 1;
        }
        if self.sound_timer > 0 {
            self.sound_timer -= 1;
        }
    }

    /// The instruction word at the program counter: high byte first.
    pub fn fetch(&self) -> (r: u16)
        requires
            self.wf(),
            self@.pc + 1 < 4096,
        ensures
            r == fetch16(self@.ram, self@.pc),
    {
        let addr = self.pc as usize;
        (self.ram[addr] as u16) * 256 + (self.ram[addr + 1] as u16)
    }

    /// One step of the machine: samples the fresh key snapshot; while
    /// suspended waiting for a key with none down, nothing else happens;
    /// the first step that sees a key down writes the smallest pressed
    /// index into the recorded register and resumes execution within the
    /// same step. Otherwise exactly one instruction is fetched, decoded and
    /// executed, per `isa::spec_tick`.
    pub fn tick(&mut self, keys_pressed: &[bool; 16]) -> (r: Result<(), Chip8Error>)
        requires
            old(self).wf(),
        ensures
            final(self).wf(),
            exists|rb: u8| #[trigger] tick_matches(old(self)@, keys_pressed@, rb, final(self)@, r),
            !tick_uses_rnd(old(self)@, keys_pressed@) ==> tick_matches(
                old(self)@,
                keys_pressed@,
                0,
                final(self)@,
                r,
            ),
    {
        let ghost g = self@;
        self.keys_pressed = *keys_pressed;
        if self.awaiting_keypress {
            let k = first_pressed_key(keys_pressed);
            if k < 16 {
                self.v[self.first_key_pressed_register] = k as u8;
                self.awaiting_keypress = false;
            }
        }
        proof {
            assert(self@ == keywait_resolve(g, keys_pressed@));
        }
        if !self.awaiting_keypress {
            if self.pc >= 4095 {
                proof {
                    assert(tick_matches(
                        g,
                        keys_pressed@,
                        0,
                        self@,
                        Err::<(), Chip8Error>(
                            Chip8Error::ProgramCounterOutOfRange { address: self@.pc },
                        ),
                    ));
                }
                return Err(Chip8Error::ProgramCounterOutOfRange { address: self.pc });
            }
            let ghost mid = self@;
            let op = self.fetch();
            let res = self.execute(op);
            proof {
                if op_hi(op) == 0xC {
                    let rbw = choose|rb: u8| step_matches(mid, op, rb, self@, res);
                    assert(tick_matches(g, keys_pressed@, rbw, self@, res));
                } else {
                    assert(tick_matches(g, keys_pressed@, 0, self@, res));
                }
            }
            res
        } else {
            proof {
                assert(tick_matches(g, keys_pressed@, 0, self@, Ok::<(), Chip8Error>(())));
            }
            Ok(())
        }
    }

    /// Decodes and executes one instruction word. On success the state is
    /// exactly the transition `isa::spec_execute` gives, including the
    /// program-counter effect; on an error the state is untouched and the
    /// reported condition is exactly the specified one. The byte drawn for
    /// the random-number instruction is the only thing left open.
    pub fn execute(&mut self, opcode: u16) -> (r: Result<(), Chip8Error>)
        requires
            old(self).wf(),
        ensures
            final(self).wf(),
            op_hi(opcode) != 0xC ==> step_matches(old(self)@, opcode, 0, final(self)@, r),
            op_hi(opcode) == 0xC ==> exists|rb: u8|
                step_matches(old(self)@, opcode, rb, final(self)@, r),
    {
        let hi = opcode / 0x1000;
        let x = ((opcode / 0x100) % 16) as usize;
        let y = ((opcode / 16) % 16) as usize;
        let lo = opcode % 16;
        let nnn = opcode % 0x1000;
        let kk = (opcode % 0x100) as u8;
        let n = (opcode % 16) as usize;
        let ghost g = self@;
        let ipr: Result<InstructionPointer, Chip8Error> = if hi == 0x0 {
            if opcode == 0x00E0 {
                Ok(self.op_cls())
            } else if opcode == 0x00EE {
                self.op_ret()
            } else {
                // legacy machine-code jump: ignored by this interpreter
                Ok(InstructionPointer::Inc)
            }
        } else if hi == 0x1 {
            Ok(self.op_jp(nnn))
        } else if hi == 0x2 {
            self.op_call(nnn)
        } else if hi == 0x3 {
            Ok(self.op_se(x, kk))
        } else if hi == 0x4 {
            Ok(self.op_sne(x, kk))
        } else if hi == 0x5 {
            Ok(self.op_se_vxy(x, y))
        } else if hi == 0x6 {
            Ok(self.op_ldx_b(x, kk))
        } else if hi == 0x7 {
            Ok(self.op_add(x, kk))
        } else if hi == 0x8 {
            if lo == 0x0 {
                Ok(self.op_ldx_y(x, y))
            } else if lo == 0x1 {
                Ok(self.op_or(x, y))
            } else if lo == 0x2 {
                Ok(self.op_and(x, y))
            } else if lo == 0x3 {
                Ok(self.op_xor(x, y))
            } else if lo == 0x4 {
                Ok(self.op_add_xy(x, y))
            } else if lo == 0x5 {
                Ok(self.op_sub_xy(x, y))
            } else if lo == 0x6 {
                Ok(self.op_shr(x))
            } else if lo == 0x7 {
                Ok(self.op_subn(x, y))
            } else if lo == 0xE {
                Ok(self.op_shl(x))
            } else {
                Err(Chip8Error::UnrecognizedInstruction { opcode, address: self.pc })
            }
        } else if hi == 0x9 {
            if lo == 0x0 {
                Ok(self.op_sne_xy(x, y))
            } else {
                Err(Chip8Error::UnrecognizedInstruction { opcode, address: self.pc })
            }
        } else if hi == 0xA {
            Ok(self.op_ld_i(nnn))
        } else if hi == 0xB {
            Ok(self.op_jpv(nnn))
        } else if hi == 0xC {
            Ok(self.op_rnd(x, kk))
        } else if hi == 0xD {
            self.op_drw(x, y, n)
        } else if hi == 0xE {
            if kk == 0x9E {
                self.op_skp(x)
            } else if kk == 0xA1 {
                self.op_sknp(x)
            } else {
                Err(Chip8Error::UnrecognizedInstruction { opcode, address: self.pc })
            }
        } else {
            if kk == 0x07 {
                Ok(self.op_ld_vx_dt(x))
            } else if kk == 0x0A {
                Ok(self.op_ld_vx_k(x))
            } else if kk == 0x15 {
                Ok(self.op_ld_dt_vx(x))
            } else if kk == 0x18 {
                Ok(self.op_ld_st_vx(x))
            } else if kk == 0x1E {
                Ok(self.op_add_i_vx(x))
            } else if kk == 0x29 {
                Ok(self.op_ld_f_vx(x))
            } else if kk == 0x33 {
                self.op_ld_b_vx(x)
            } else if kk == 0x55 {
                self.op_ld_i_vx(x)
            } else if kk == 0x65 {
                self.op_ld_vx_i(x)
            } else {
                Err(Chip8Error::UnrecognizedInstruction { opcode, address: self.pc })
            }
        };
        let ghost mid = self@;
        match ipr {
            Err(e) => Err(e),
            Ok(ip) => {
                match ip {
                    InstructionPointer::Inc => {
                        self.pc = (((self.pc as u32) + 2) % 0x10000) as u16;
                    },
                    InstructionPointer::Jump(a) => {
                        self.pc = a;
                    },
                    InstructionPointer::Skip => {
                        self.pc = (((self.pc as u32) + 4) % 0x10000) as u16;
                    },
                }
                proof {
                    assert(self@ == apply_ip(mid, ip));
                    if op_hi(opcode) == 0xC {
                        let rbw = choose|rb: u8|
                            mid == (CpuState {
                                v: #[trigger] g.v.update(x as int, kk & rb),
                                ..g
                            });
                        assert(step_matches(g, opcode, rbw, self@, Ok::<(), Chip8Error>(())));
                    }
                }
                Ok(())
            },
        }
    }
}

/// The smallest pressed key index in the snapshot, or 16 when no key is
/// down.
fn first_pressed_key(keys: &[bool; 16]) -> (r: usize)
    ensures
        r as int == first_pressed(keys@),
{
    let mut k: usize = 0;
    while k < 16
        invariant
            k <= 16,
            first_pressed(keys@) == first_pressed_from(keys@, k as int),
        decreases 16 - k,
    {
        if keys[k] {
            return k;
        }
        k += 1;
    }
    16
}

/// Relies on rand::thread_rng and rand::Rng::gen: one byte from the
/// process-wide pseudo-random generator, uniform over the byte space.
/// Nothing can be promised of its value.
#[verifier::external_body]
fn random_byte() -> u8 {
    rand::thread_rng().gen()
}

} // verus!

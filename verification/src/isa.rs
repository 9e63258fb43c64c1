//! The instruction-set semantics: a mathematical model of the machine state
//! and, for every instruction, the exact state transition it performs. The
//! executable engine in `cpu` is proved to follow `spec_execute` and
//! `spec_tick` step for step.

use vstd::prelude::*;

use crate::fonts::HEX_DIGIT_DATA;

verus! {

/// Fatal conditions: the machine cannot safely continue past any of these.
#[derive(Clone, Copy, Debug, PartialEq, Eq, Structural)]
pub enum Chip8Error {
    /// The decoder found no matching instruction pattern.
    UnrecognizedInstruction { opcode: u16, address: u16 },
    /// A return was executed with an empty call stack.
    StackUnderflow,
    /// A call was executed with the call stack already full.
    StackOverflow,
    /// A key-skip instruction used a register value above 15 as a key index.
    KeyOutOfRange { key: u8 },
    /// An address-register operation reached past the end of memory.
    MemoryOutOfRange,
    /// The program counter points past the last instruction slot.
    ProgramCounterOutOfRange { address: u16 },
    /// A program image larger than the loadable region was rejected.
    ProgramTooLarge,
}

/// What an executed instruction asks to happen to the program counter:
/// exactly one of advance by one instruction, advance by two (a skip), or a
/// jump to an explicit address.
pub enum InstructionPointer {
    Inc,
    Jump(u16),
    Skip,
}

/// The mathematical machine state. `cpu::Cpu` views to this.
#[verifier::ext_equal]
pub ghost struct CpuState {
    pub pc: u16,
    pub v: Seq<u8>,
    pub sp: u8,
    pub stack: Seq<u16>,
    pub i: u16,
    pub delay_timer: u8,
    pub sound_timer: u8,
    pub ram: Seq<u8>,
    pub vram: Seq<u8>,
    pub awaiting_keypress: bool,
    pub first_key_pressed_register: usize,
    pub keys_pressed: Seq<bool>,
    pub vram_changed: bool,
}

impl CpuState {
    /// Well-formedness: the fixed sizes of the state's components, and the
    /// two indices that must stay inside them.
    pub open spec fn wf(self) -> bool {
        &&& self.v.len() == 16
        &&& self.stack.len() == 16
        &&& self.ram.len() == 4096
        &&& self.vram.len() == 2048
        &&& self.keys_pressed.len() == 16
        &&& self.sp < 16
        &&& self.first_key_pressed_register < 16
    }

    /// The state at reset: glyph table in the first bytes of memory, all
    /// other fields zeroed, program counter at the reset vector.
    pub open spec fn initial() -> CpuState {
        CpuState {
            pc: 0x200,
            v: Seq::new(16, |r: int| 0u8),
            sp: 0,
            stack: Seq::new(16, |d: int| 0u16),
            i: 0,
            delay_timer: 0,
            sound_timer: 0,
            ram: Seq::new(
                4096,
                |a: int|
                    if a < 80 {
                        HEX_DIGIT_DATA@[a]
                    } else {
                        0u8
                    },
            ),
            vram: Seq::new(2048, |p: int| 0u8),
            awaiting_keypress: false,
            first_key_pressed_register: 0,
            keys_pressed: Seq::new(16, |k: int| false),
            vram_changed: false,
        }
    }
}

/// The state after a program image is written into memory at the reset
/// vector; nothing else changes.
pub open spec fn st_load_rom(s: CpuState, rom: Seq<u8>) -> CpuState {
    CpuState {
        ram: Seq::new(
            4096,
            |a: int|
                if 0x200 <= a < 0x200 + rom.len() {
                    rom[a - 0x200]
                } else {
                    s.ram[a]
                },
        ),
        ..s
    }
}

/// 1 when the condition holds, else 0: the value written into the flags
/// register by arithmetic, shift and draw operations.
pub open spec fn flag(b: bool) -> u8 {
    if b {
        1
    } else {
        0
    }
}

/// A 16-bit quantity reduced modulo 2^16.
pub open spec fn wrap16(a: int) -> u16 {
    (a % 0x10000) as u16
}

/// High nibble of an instruction word.
pub open spec fn op_hi(op: u16) -> int {
    (op as int) / 0x1000
}

/// Second nibble: the first register operand.
pub open spec fn op_x(op: u16) -> int {
    ((op as int) / 0x100) % 16
}

/// Third nibble: the second register operand.
pub open spec fn op_y(op: u16) -> int {
    ((op as int) / 16) % 16
}

/// Low nibble: the sprite-height or sub-opcode operand.
pub open spec fn op_n(op: u16) -> int {
    (op as int) % 16
}

/// Low byte: the immediate operand.
pub open spec fn op_kk(op: u16) -> u8 {
    ((op as int) % 0x100) as u8
}

/// Low twelve bits: the address operand.
pub open spec fn op_nnn(op: u16) -> int {
    (op as int) % 0x1000
}

/// The instruction word at `pc`: high byte first.
pub open spec fn fetch16(ram: Seq<u8>, pc: u16) -> u16 {
    (ram[pc as int] * 256 + ram[pc as int + 1]) as u16
}

/// The program counter after an instruction, by the instruction's own
/// program-counter effect; no implicit increment is applied beyond it.
pub open spec fn apply_ip(s: CpuState, ip: InstructionPointer) -> CpuState {
    match ip {
        InstructionPointer::Inc => CpuState { pc: wrap16(s.pc + 2), ..s },
        InstructionPointer::Jump(a) => CpuState { pc: a, ..s },
        InstructionPointer::Skip => CpuState { pc: wrap16(s.pc + 4), ..s },
    }
}

/// The framebuffer row a sprite byte lands on: rows wrap toroidally.
pub open spec fn row_of(vy: u8, by: int) -> int {
    (vy + by) % 32
}

/// The framebuffer column a sprite bit lands on: columns wrap toroidally,
/// independently of the rows.
pub open spec fn col_of(vx: u8, bi: int) -> int {
    (vx + bi) % 64
}

/// Index of a pixel in the row-major framebuffer.
pub open spec fn pix(row: int, col: int) -> int {
    row * 64 + col
}

/// Which sprite byte (row) reaches pixel index `p` for a draw with row
/// origin `vy`; it reaches the framebuffer only when this is below the
/// sprite height.
pub open spec fn byte_for(p: int, vy: u8) -> int {
    (p / 64 - vy) % 32
}

/// Which sprite bit (column) reaches pixel index `p` for a draw with column
/// origin `vx`; it reaches the framebuffer only when this is below 8.
pub open spec fn bit_for(p: int, vx: u8) -> int {
    (p % 64 - vx) % 64
}

/// Bit `k` of a sprite byte, most significant bit first.
pub open spec fn bit_at(b: u8, k: int) -> u8 {
    if k == 0 {
        (b / 128) as u8
    } else if k == 1 {
        ((b / 64) % 2) as u8
    } else if k == 2 {
        ((b / 32) % 2) as u8
    } else if k == 3 {
        ((b / 16) % 2) as u8
    } else if k == 4 {
        ((b / 8) % 2) as u8
    } else if k == 5 {
        ((b / 4) % 2) as u8
    } else if k == 6 {
        ((b / 2) % 2) as u8
    } else {
        (b % 2) as u8
    }
}

/// The sprite bit that a draw sends to pixel index `p`.
pub open spec fn sprite_px(ram: Seq<u8>, i: int, vx: u8, vy: u8, p: int) -> u8 {
    bit_at(ram[i + byte_for(p, vy)], bit_for(p, vx))
}

/// Whether pixel index `p` is reached once the draw has fully processed
/// `bytes` sprite rows and `bits` bits of the next row.
pub open spec fn draw_hit(p: int, vx: u8, vy: u8, bytes: int, bits: int) -> bool {
    let by = byte_for(p, vy);
    let bi = bit_for(p, vx);
    bi < 8 && (by < bytes || (by == bytes && bi < bits))
}

/// The framebuffer once the draw has processed `bytes` full sprite rows and
/// `bits` bits of the next row: every reached pixel has its sprite bit
/// exclusive-or'd in, every other pixel is untouched. Each pixel is reached
/// by at most one sprite bit, so the order of processing does not matter.
pub open spec fn draw_vram(
    vram: Seq<u8>,
    ram: Seq<u8>,
    i: int,
    vx: u8,
    vy: u8,
    bytes: int,
    bits: int,
) -> Seq<u8> {
    Seq::new(
        2048,
        |p: int|
            if draw_hit(p, vx, vy, bytes, bits) {
                vram[p] ^ sprite_px(ram, i, vx, vy, p)
            } else {
                vram[p]
            },
    )
}

/// Whether the draw collides within the processed region: some destination
/// pixel has both its old bit and its incoming sprite bit set.
pub open spec fn draw_collides(
    vram: Seq<u8>,
    ram: Seq<u8>,
    i: int,
    vx: u8,
    vy: u8,
    bytes: int,
    bits: int,
) -> bool {
    exists|by: int, bi: int|
        0 <= by && 0 <= bi < 8 && (by < bytes || (by == bytes && bi < bits)) && (vram[pix(
            row_of(vy, by),
            col_of(vx, bi),
        )] & bit_at(ram[i + by], bi)) != 0
}

/// The state transition of the draw operation: `n` sprite bytes starting at
/// the address register, drawn with origin (column `s.v[x]`, row `s.v[y]`),
/// wrapping per axis; the flags register reports a collision; the
/// framebuffer is marked changed unconditionally.
pub open spec fn st_drw(s: CpuState, x: int, y: int, n: int) -> Result<CpuState, Chip8Error> {
    if n > 0 && s.i + n > 4096 {
        Err(Chip8Error::MemoryOutOfRange)
    } else {
        let vx = s.v[x];
        let vy = s.v[y];
        Ok(
            CpuState {
                v: s.v.update(
                    15,
                    flag(draw_collides(s.vram, s.ram, s.i as int, vx, vy, n, 0)),
                ),
                vram: draw_vram(s.vram, s.ram, s.i as int, vx, vy, n, 0),
                vram_changed: true,
                ..s
            },
        )
    }
}

/// The state transition of the block store: registers 0 through `x`
/// inclusive are copied into memory starting at the address register.
pub open spec fn st_block_store(s: CpuState, x: int) -> Result<CpuState, Chip8Error> {
    if s.i + x > 4095 {
        Err(Chip8Error::MemoryOutOfRange)
    } else {
        Ok(
            CpuState {
                ram: Seq::new(
                    4096,
                    |a: int|
                        if s.i <= a <= s.i + x {
                            s.v[a - s.i]
                        } else {
                            s.ram[a]
                        },
                ),
                ..s
            },
        )
    }
}

/// The state transition of the block load: memory starting at the address
/// register is copied into registers 0 through `x` inclusive.
pub open spec fn st_block_load(s: CpuState, x: int) -> Result<CpuState, Chip8Error> {
    if s.i + x > 4095 {
        Err(Chip8Error::MemoryOutOfRange)
    } else {
        Ok(
            CpuState {
                v: Seq::new(
                    16,
                    |r: int|
                        if r <= x {
                            s.ram[s.i + r]
                        } else {
                            s.v[r]
                        },
                ),
                ..s
            },
        )
    }
}

/// One executed instruction: the decoded operation's transition followed by
/// its program-counter effect. Exactly the bit patterns of the fixed
/// instruction set are accepted; the legacy machine-code-jump range (high
/// nibble 0) is a no-op; everything else fails as unrecognized. `rnd` is the
/// byte drawn by the random-number instruction, which is the only use of it.
pub open spec fn spec_execute(s: CpuState, op: u16, rnd: u8) -> Result<CpuState, Chip8Error> {
    let x = op_x(op);
    let y = op_y(op);
    let n = op_n(op);
    let kk = op_kk(op);
    let nnn = op_nnn(op);
    let hi = op_hi(op);
    if hi == 0x0 {
        if op == 0x00E0 {
            Ok(
                apply_ip(
                    CpuState { vram: Seq::new(2048, |p: int| 0u8), vram_changed: true, ..s },
                    InstructionPointer::Inc,
                ),
            )
        } else if op == 0x00EE {
            if s.sp == 0 {
                Err(Chip8Error::StackUnderflow)
            } else {
                Ok(CpuState { pc: s.stack[s.sp as int], sp: (s.sp - 1) as u8, ..s })
            }
        } else {
            Ok(apply_ip(s, InstructionPointer::Inc))
        }
    } else if hi == 0x1 {
        Ok(CpuState { pc: nnn as u16, ..s })
    } else if hi == 0x2 {
        if s.sp >= 15 {
            Err(Chip8Error::StackOverflow)
        } else {
            Ok(
                CpuState {
                    pc: nnn as u16,
                    sp: (s.sp + 1) as u8,
                    stack: s.stack.update(s.sp + 1, wrap16(s.pc + 2)),
                    ..s
                },
            )
        }
    } else if hi == 0x3 {
        Ok(
            apply_ip(
                s,
                if s.v[x] == kk {
                    InstructionPointer::Skip
                } else {
                    InstructionPointer::Inc
                },
            ),
        )
    } else if hi == 0x4 {
        Ok(
            apply_ip(
                s,
                if s.v[x] != kk {
                    InstructionPointer::Skip
                } else {
                    InstructionPointer::Inc
                },
            ),
        )
    } else if hi == 0x5 {
        Ok(
            apply_ip(
                s,
                if s.v[x] == s.v[y] {
                    InstructionPointer::Skip
                } else {
                    InstructionPointer::Inc
                },
            ),
        )
    } else if hi == 0x6 {
        Ok(apply_ip(CpuState { v: s.v.update(x, kk), ..s }, InstructionPointer::Inc))
    } else if hi == 0x7 {
        Ok(
            apply_ip(
                CpuState { v: s.v.update(x, ((s.v[x] + kk) % 256) as u8), ..s },
                InstructionPointer::Inc,
            ),
        )
    } else if hi == 0x8 {
        if n == 0x0 {
            Ok(apply_ip(CpuState { v: s.v.update(x, s.v[y]), ..s }, InstructionPointer::Inc))
        } else if n == 0x1 {
            Ok(
                apply_ip(
                    CpuState { v: s.v.update(x, s.v[x] | s.v[y]), ..s },
                    InstructionPointer::Inc,
                ),
            )
        } else if n == 0x2 {
            Ok(
                apply_ip(
                    CpuState { v: s.v.update(x, s.v[x] & s.v[y]), ..s },
                    InstructionPointer::Inc,
                ),
            )
        } else if n == 0x3 {
            Ok(
                apply_ip(
                    CpuState { v: s.v.update(x, s.v[x] ^ s.v[y]), ..s },
                    InstructionPointer::Inc,
                ),
            )
        } else if n == 0x4 {
            Ok(
                apply_ip(
                    CpuState {
                        v: s.v.update(x, ((s.v[x] + s.v[y]) % 256) as u8).update(
                            15,
                            flag(s.v[x] + s.v[y] > 255),
                        ),
                        ..s
                    },
                    InstructionPointer::Inc,
                ),
            )
        } else if n == 0x5 {
            Ok(
                apply_ip(
                    CpuState {
                        v: s.v.update(x, ((s.v[x] - s.v[y] + 256) % 256) as u8).update(
                            15,
                            flag(s.v[x] >= s.v[y]),
                        ),
                        ..s
                    },
                    InstructionPointer::Inc,
                ),
            )
        } else if n == 0x6 {
            let v1 = s.v.update(15, (s.v[x] % 2) as u8);
            Ok(
                apply_ip(
                    CpuState { v: v1.update(x, (v1[x] / 2) as u8), ..s },
                    InstructionPointer::Inc,
                ),
            )
        } else if n == 0x7 {
            Ok(
                apply_ip(
                    CpuState {
                        v: s.v.update(15, flag(s.v[y] >= s.v[x])).update(
                            x,
                            ((s.v[y] - s.v[x] + 256) % 256) as u8,
                        ),
                        ..s
                    },
                    InstructionPointer::Inc,
                ),
            )
        } else if n == 0xE {
            let v1 = s.v.update(15, (s.v[x] / 128) as u8);
            Ok(
                apply_ip(
                    CpuState { v: v1.update(x, ((v1[x] * 2) % 256) as u8), ..s },
                    InstructionPointer::Inc,
                ),
            )
        } else {
            Err(Chip8Error::UnrecognizedInstruction { opcode: op, address: s.pc })
        }
    } else if hi == 0x9 {
        if n == 0x0 {
            Ok(
                apply_ip(
                    s,
                    if s.v[x] != s.v[y] {
                        InstructionPointer::Skip
                    } else {
                        InstructionPointer::Inc
                    },
                ),
            )
        } else {
            Err(Chip8Error::UnrecognizedInstruction { opcode: op, address: s.pc })
        }
    } else if hi == 0xA {
        Ok(apply_ip(CpuState { i: nnn as u16, ..s }, InstructionPointer::Inc))
    } else if hi == 0xB {
        Ok(CpuState { pc: (nnn + s.v[0]) as u16, ..s })
    } else if hi == 0xC {
        Ok(apply_ip(CpuState { v: s.v.update(x, kk & rnd), ..s }, InstructionPointer::Inc))
    } else if hi == 0xD {
        match st_drw(s, x, y, n) {
            Ok(t) => Ok(apply_ip(t, InstructionPointer::Inc)),
            Err(e) => Err(e),
        }
    } else if hi == 0xE {
        if kk == 0x9E || kk == 0xA1 {
            if s.v[x] > 15 {
                Err(Chip8Error::KeyOutOfRange { key: s.v[x] })
            } else {
                Ok(
                    apply_ip(
                        s,
                        if s.keys_pressed[s.v[x] as int] == (kk == 0x9E) {
                            InstructionPointer::Skip
                        } else {
                            InstructionPointer::Inc
                        },
                    ),
                )
            }
        } else {
            Err(Chip8Error::UnrecognizedInstruction { opcode: op, address: s.pc })
        }
    } else {
        if kk == 0x07 {
            Ok(
                apply_ip(
                    CpuState { v: s.v.update(x, s.delay_timer), ..s },
                    InstructionPointer::Inc,
                ),
            )
        } else if kk == 0x0A {
            Ok(
                apply_ip(
                    CpuState { awaiting_keypress: true, first_key_pressed_register: x as usize, ..s },
                    InstructionPointer::Inc,
                ),
            )
        } else if kk == 0x15 {
            Ok(apply_ip(CpuState { delay_timer: s.v[x], ..s }, InstructionPointer::Inc))
        } else if kk == 0x18 {
            Ok(apply_ip(CpuState { sound_timer: s.v[x], ..s }, InstructionPointer::Inc))
        } else if kk == 0x1E {
            Ok(apply_ip(CpuState { i: wrap16(s.i + s.v[x]), ..s }, InstructionPointer::Inc))
        } else if kk == 0x29 {
            Ok(apply_ip(CpuState { i: (s.v[x] * 5) as u16, ..s }, InstructionPointer::Inc))
        } else if kk == 0x33 {
            if s.i + 2 > 4095 {
                Err(Chip8Error::MemoryOutOfRange)
            } else {
                Ok(
                    apply_ip(
                        CpuState {
                            ram: s.ram.update(s.i as int, (s.v[x] / 100) as u8).update(
                                s.i + 1,
                                ((s.v[x] % 100) / 10) as u8,
                            ).update(s.i + 2, (s.v[x] % 10) as u8),
                            ..s
                        },
                        InstructionPointer::Inc,
                    ),
                )
            }
        } else if kk == 0x55 {
            match st_block_store(s, x) {
                Ok(t) => Ok(apply_ip(t, InstructionPointer::Inc)),
                Err(e) => Err(e),
            }
        } else if kk == 0x65 {
            match st_block_load(s, x) {
                Ok(t) => Ok(apply_ip(t, InstructionPointer::Inc)),
                Err(e) => Err(e),
            }
        } else {
            Err(Chip8Error::UnrecognizedInstruction { opcode: op, address: s.pc })
        }
    }
}

/// A draw that has processed nothing yet has touched no pixel and found no
/// collision.
pub proof fn lemma_draw_empty(vram: Seq<u8>, ram: Seq<u8>, i: int, vx: u8, vy: u8)
    requires
        vram.len() == 2048,
    ensures
        draw_vram(vram, ram, i, vx, vy, 0, 0) == vram,
        !draw_collides(vram, ram, i, vx, vy, 0, 0),
{
    broadcast use vstd::arithmetic::div_mod::lemma_mod_bound;

    assert forall|p: int| 0 <= p < 2048 implies draw_vram(vram, ram, i, vx, vy, 0, 0)[p]
        == vram[p] by {
        assert(byte_for(p, vy) >= 0);
        assert(bit_for(p, vx) >= 0);
    }
    assert(draw_vram(vram, ram, i, vx, vy, 0, 0) =~= vram);
}

/// Reversing the toroidal wrap: adding an offset below the modulus to a base
/// and reducing, then subtracting the base and reducing, gives the offset
/// back.
proof fn lemma_wrap_unwrap(base: u8, off: int, m: int)
    requires
        0 < m,
        0 <= off < m,
    ensures
        ((base + off) % m - base) % m == off,
{
    vstd::arithmetic::div_mod::lemma_fundamental_div_mod(base + off, m);
    let k = (base + off) / m;
    assert((base + off) % m - base == m * (-k) + off) by {
        vstd::arithmetic::mul::lemma_mul_unary_negation(m, k);
    }
    vstd::arithmetic::div_mod::lemma_mod_multiples_vanish(-k, off, m);
    vstd::arithmetic::div_mod::lemma_small_mod(off as nat, m as nat);
}

/// The wrap is invertible: a cell index below the modulus whose distance
/// from the base reduces to the offset is the wrapped sum itself.
proof fn lemma_wrap_unique(base: u8, off: int, m: int, r: int)
    requires
        0 < m,
        0 <= off < m,
        0 <= r < m,
        (r - base) % m == off,
    ensures
        r == (base + off) % m,
{
    vstd::arithmetic::div_mod::lemma_add_mod_noop_right(base as int, r - base, m);
    vstd::arithmetic::div_mod::lemma_small_mod(r as nat, m as nat);
}

/// The destination pixel of sprite bit (`by`, `bi`) lies in the
/// framebuffer, the inversion maps it back to exactly (`by`, `bi`), and no
/// other pixel maps there: each sprite bit lands on its own pixel.
pub proof fn lemma_draw_target(vx: u8, vy: u8, by: int, bi: int)
    requires
        0 <= by < 32,
        0 <= bi < 8,
    ensures
        ({
            let q = pix(row_of(vy, by), col_of(vx, bi));
            &&& 0 <= row_of(vy, by) < 32
            &&& 0 <= col_of(vx, bi) < 64
            &&& 0 <= q < 2048
            &&& byte_for(q, vy) == by
            &&& bit_for(q, vx) == bi
            &&& forall|p: int|
                0 <= p < 2048 && byte_for(p, vy) == by && bit_for(p, vx) == bi ==> p == q
        }),
{
    let r = row_of(vy, by);
    let c = col_of(vx, bi);
    let q = pix(r, c);
    vstd::arithmetic::div_mod::lemma_mod_bound(vy + by, 32);
    vstd::arithmetic::div_mod::lemma_mod_bound(vx + bi, 64);
    vstd::arithmetic::div_mod::lemma_fundamental_div_mod_converse(q, 64, r, c);
    lemma_wrap_unwrap(vy, by, 32);
    lemma_wrap_unwrap(vx, bi, 64);
    assert forall|p: int|
        0 <= p < 2048 && byte_for(p, vy) == by && bit_for(p, vx) == bi implies p == q by {
        let pr = p / 64;
        let pc = p % 64;
        vstd::arithmetic::div_mod::lemma_fundamental_div_mod(p, 64);
        vstd::arithmetic::div_mod::lemma_mod_bound(p, 64);
        lemma_wrap_unique(vy, by, 32, pr);
        lemma_wrap_unique(vx, bi, 64, pc);
    }
}

/// One sprite bit of the draw: processing bit `bi` of sprite row `by`
/// exclusive-ors that bit into its own pixel, leaves every other pixel as
/// it was, and adds exactly that pixel's overlap to the collision
/// condition.
pub proof fn lemma_draw_step(vram: Seq<u8>, ram: Seq<u8>, i: int, vx: u8, vy: u8, by: int, bi: int)
    requires
        vram.len() == 2048,
        0 <= by < 32,
        0 <= bi < 8,
    ensures
        ({
            let q = pix(row_of(vy, by), col_of(vx, bi));
            let spr = bit_at(ram[i + by], bi);
            &&& 0 <= q < 2048
            &&& draw_vram(vram, ram, i, vx, vy, by, bi)[q] == vram[q]
            &&& draw_vram(vram, ram, i, vx, vy, by, bi + 1) == draw_vram(
                vram,
                ram,
                i,
                vx,
                vy,
                by,
                bi,
            ).update(q, vram[q] ^ spr)
            &&& draw_collides(vram, ram, i, vx, vy, by, bi + 1) <==> (draw_collides(
                vram,
                ram,
                i,
                vx,
                vy,
                by,
                bi,
            ) || (vram[q] & spr) != 0)
        }),
{
    lemma_draw_target(vx, vy, by, bi);
    let q = pix(row_of(vy, by), col_of(vx, bi));
    let spr = bit_at(ram[i + by], bi);
    assert(sprite_px(ram, i, vx, vy, q) == spr);
    assert(!draw_hit(q, vx, vy, by, bi));
    let a = draw_vram(vram, ram, i, vx, vy, by, bi + 1);
    let b = draw_vram(vram, ram, i, vx, vy, by, bi).update(q, vram[q] ^ spr);
    assert forall|p: int| 0 <= p < 2048 implies a[p] == b[p] by {
        if p != q {
            assert(!(byte_for(p, vy) == by && bit_for(p, vx) == bi));
        }
    }
    assert(a =~= b);
    if draw_collides(vram, ram, i, vx, vy, by, bi + 1) {
        let (by0, bi0) = choose|by0: int, bi0: int|
            0 <= by0 && 0 <= bi0 < 8 && (by0 < by || (by0 == by && bi0 < bi + 1)) && (vram[pix(
                row_of(vy, by0),
                col_of(vx, bi0),
            )] & bit_at(ram[i + by0], bi0)) != 0;
        if by0 < by || (by0 == by && bi0 < bi) {
            assert(draw_collides(vram, ram, i, vx, vy, by, bi));
        } else {
            assert(by0 == by && bi0 == bi);
            assert((vram[q] & spr) != 0);
        }
    }
    if draw_collides(vram, ram, i, vx, vy, by, bi) {
        let (by0, bi0) = choose|by0: int, bi0: int|
            0 <= by0 && 0 <= bi0 < 8 && (by0 < by || (by0 == by && bi0 < bi)) && (vram[pix(
                row_of(vy, by0),
                col_of(vx, bi0),
            )] & bit_at(ram[i + by0], bi0)) != 0;
        assert(by0 < by || (by0 == by && bi0 < bi + 1));
        assert(draw_collides(vram, ram, i, vx, vy, by, bi + 1));
    }
    if (vram[q] & spr) != 0 {
        assert(0 <= by && 0 <= bi < 8 && (by < by || (by == by && bi < bi + 1)) && (vram[pix(
            row_of(vy, by),
            col_of(vx, bi),
        )] & bit_at(ram[i + by], bi)) != 0);
        assert(draw_collides(vram, ram, i, vx, vy, by, bi + 1));
    }
}

/// Finishing the eighth bit of a sprite row is the same as standing at the
/// start of the next row.
pub proof fn lemma_draw_row_boundary(
    vram: Seq<u8>,
    ram: Seq<u8>,
    i: int,
    vx: u8,
    vy: u8,
    by: int,
)
    requires
        vram.len() == 2048,
        0 <= by,
    ensures
        draw_vram(vram, ram, i, vx, vy, by, 8) == draw_vram(vram, ram, i, vx, vy, by + 1, 0),
        draw_collides(vram, ram, i, vx, vy, by, 8) == draw_collides(
            vram,
            ram,
            i,
            vx,
            vy,
            by + 1,
            0,
        ),
{
    assert forall|p: int| 0 <= p < 2048 implies draw_vram(vram, ram, i, vx, vy, by, 8)[p]
        == draw_vram(vram, ram, i, vx, vy, by + 1, 0)[p] by {
        assert(draw_hit(p, vx, vy, by, 8) == draw_hit(p, vx, vy, by + 1, 0));
    }
    assert(draw_vram(vram, ram, i, vx, vy, by, 8) =~= draw_vram(vram, ram, i, vx, vy, by + 1, 0));
    if draw_collides(vram, ram, i, vx, vy, by, 8) {
        let (by0, bi0) = choose|by0: int, bi0: int|
            0 <= by0 && 0 <= bi0 < 8 && (by0 < by || (by0 == by && bi0 < 8)) && (vram[pix(
                row_of(vy, by0),
                col_of(vx, bi0),
            )] & bit_at(ram[i + by0], bi0)) != 0;
        assert(by0 < by + 1);
        assert(draw_collides(vram, ram, i, vx, vy, by + 1, 0));
    }
    if draw_collides(vram, ram, i, vx, vy, by + 1, 0) {
        let (by0, bi0) = choose|by0: int, bi0: int|
            0 <= by0 && 0 <= bi0 < 8 && (by0 < by + 1) && (vram[pix(
                row_of(vy, by0),
                col_of(vx, bi0),
            )] & bit_at(ram[i + by0], bi0)) != 0;
        assert(by0 < by || (by0 == by && bi0 < 8));
        assert(draw_collides(vram, ram, i, vx, vy, by, 8));
    }
}

/// Relates one call of the engine's execute to the semantics: on success the
/// new state is exactly the specified transition; on an error the reported
/// condition is exactly the specified one and the state is untouched.
pub open spec fn step_matches(
    s: CpuState,
    op: u16,
    rnd: u8,
    s2: CpuState,
    r: Result<(), Chip8Error>,
) -> bool {
    match spec_execute(s, op, rnd) {
        Ok(t) => r is Ok && s2 == t,
        Err(e) => r == Err::<(), Chip8Error>(e) && s2 == s,
    }
}

/// The smallest pressed key index at or above `k`, or 16 when none is:
/// the tie-break for the key-wait state scans in increasing index order.
pub open spec fn first_pressed_from(keys: Seq<bool>, k: int) -> int
    decreases 16 - k,
{
    if k < 0 || k >= 16 {
        16
    } else if keys[k] {
        k
    } else {
        first_pressed_from(keys, k + 1)
    }
}

/// The smallest pressed key index, or 16 when no key is down.
pub open spec fn first_pressed(keys: Seq<bool>) -> int {
    first_pressed_from(keys, 0)
}

/// The key-wait side of a step: the fresh key snapshot is stored; when the
/// machine is suspended and some key is down, the smallest pressed index is
/// written into the recorded register and the suspension ends.
pub open spec fn keywait_resolve(s: CpuState, keys: Seq<bool>) -> CpuState {
    if s.awaiting_keypress && first_pressed(keys) < 16 {
        CpuState {
            keys_pressed: keys,
            v: s.v.update(s.first_key_pressed_register as int, first_pressed(keys) as u8),
            awaiting_keypress: false,
            ..s
        }
    } else {
        CpuState { keys_pressed: keys, ..s }
    }
}

/// Whether the step from `s` with `keys` reaches the random-number
/// instruction: only then does the step depend on the drawn byte.
pub open spec fn tick_uses_rnd(s: CpuState, keys: Seq<bool>) -> bool {
    let s1 = keywait_resolve(s, keys);
    &&& !s1.awaiting_keypress
    &&& s1.pc + 1 < 4096
    &&& op_hi(fetch16(s1.ram, s1.pc)) == 0xC
}

/// One step of the machine: sample the keys; while suspended with no key
/// down, nothing else happens and the program counter stays put; otherwise
/// fetch, decode and execute exactly one instruction at the program
/// counter.
pub open spec fn spec_tick(s: CpuState, keys: Seq<bool>, rnd: u8) -> Result<CpuState, Chip8Error> {
    let s1 = keywait_resolve(s, keys);
    if s1.awaiting_keypress {
        Ok(s1)
    } else if s1.pc + 1 >= 4096 {
        Err(Chip8Error::ProgramCounterOutOfRange { address: s1.pc })
    } else {
        spec_execute(s1, fetch16(s1.ram, s1.pc), rnd)
    }
}

/// Relates one call of the engine's tick to the semantics: on success the
/// new state is exactly the specified step; on an error the condition is
/// the specified one and the state holds only the fresh key snapshot and
/// any key-wait resolution.
pub open spec fn tick_matches(
    s: CpuState,
    keys: Seq<bool>,
    rnd: u8,
    s2: CpuState,
    r: Result<(), Chip8Error>,
) -> bool {
    match spec_tick(s, keys, rnd) {
        Ok(t) => r is Ok && s2 == t,
        Err(e) => r == Err::<(), Chip8Error>(e) && s2 == keywait_resolve(s, keys),
    }
}

} // verus!

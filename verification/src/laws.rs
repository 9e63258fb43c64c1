//! Laws of the instruction set, proved from the semantics in `isa`: the
//! flag conventions of the arithmetic and shift operations, the draw
//! operation's collision condition, the block store/load round trip, the
//! call/return pairing, and the width of conditional skips.

use vstd::prelude::*;

use crate::isa::CpuState;
use crate::isa::bit_at;
use crate::isa::bit_for;
use crate::isa::byte_for;
use crate::isa::col_of;
use crate::isa::draw_collides;
use crate::isa::flag;
use crate::isa::lemma_draw_target;
use crate::isa::op_hi;
use crate::isa::op_kk;
use crate::isa::op_n;
use crate::isa::op_nnn;
use crate::isa::op_x;
use crate::isa::op_y;
use crate::isa::pix;
use crate::isa::row_of;
use crate::isa::spec_execute;
use crate::isa::st_block_load;
use crate::isa::st_block_store;
use crate::isa::st_drw;
use crate::isa::wrap16;

verus! {

/// For every add-with-carry instruction and all register contents: the
/// flags register becomes 1 exactly when the mathematical sum of the two
/// registers exceeds 255, and the target register (when it is not the flags
/// register itself) stores the sum modulo 256.
pub proof fn lemma_add_carry(s: CpuState, op: u16)
    requires
        s.wf(),
        op_hi(op) == 0x8,
        op_n(op) == 0x4,
    ensures
        ({
            let x = op_x(op);
            let y = op_y(op);
            let t = spec_execute(s, op, 0)->Ok_0;
            &&& spec_execute(s, op, 0) is Ok
            &&& t.v[15] == flag(s.v[x] + s.v[y] > 255)
            &&& x != 15 ==> t.v[x] == ((s.v[x] + s.v[y]) % 256) as u8
        }),
{
}

/// For every subtract-with-borrow instruction and all register contents:
/// the flags register becomes 1 exactly when the minuend is at least the
/// subtrahend (no borrow), and the target register (when it is not the
/// flags register itself) stores the wrapping difference.
pub proof fn lemma_sub_borrow(s: CpuState, op: u16)
    requires
        s.wf(),
        op_hi(op) == 0x8,
        op_n(op) == 0x5,
    ensures
        ({
            let x = op_x(op);
            let y = op_y(op);
            let t = spec_execute(s, op, 0)->Ok_0;
            &&& spec_execute(s, op, 0) is Ok
            &&& t.v[15] == flag(s.v[x] >= s.v[y])
            &&& x != 15 ==> t.v[x] == ((s.v[x] - s.v[y] + 256) % 256) as u8
        }),
{
}

/// The shift-right instruction moves exactly the discarded low bit of the
/// shifted register into the flags register (stated away from the flags
/// register itself, which the flag write overwrites), and its second
/// register operand is ignored: any instruction word with the same target
/// register performs the same transition.
pub proof fn lemma_shift_right(s: CpuState, op: u16)
    requires
        s.wf(),
        op_hi(op) == 0x8,
        op_n(op) == 0x6,
    ensures
        ({
            let x = op_x(op);
            let t = spec_execute(s, op, 0)->Ok_0;
            &&& spec_execute(s, op, 0) is Ok
            &&& x != 15 ==> t.v[15] == (s.v[x] % 2) as u8
            &&& x != 15 ==> t.v[x] == (s.v[x] / 2) as u8
        }),
        forall|op2: u16|
            op_hi(op2) == 0x8 && op_n(op2) == 0x6 && op_x(op2) == op_x(op) ==> #[trigger] spec_execute(
                s,
                op2,
                0,
            ) == spec_execute(s, op, 0),
{
}

/// The shift-left instruction moves exactly the discarded high bit of the
/// shifted register into the flags register (stated away from the flags
/// register itself, which the flag write overwrites), and its second
/// register operand is ignored: any instruction word with the same target
/// register performs the same transition.
pub proof fn lemma_shift_left(s: CpuState, op: u16)
    requires
        s.wf(),
        op_hi(op) == 0x8,
        op_n(op) == 0xE,
    ensures
        ({
            let x = op_x(op);
            let t = spec_execute(s, op, 0)->Ok_0;
            &&& spec_execute(s, op, 0) is Ok
            &&& x != 15 ==> t.v[15] == (s.v[x] / 128) as u8
            &&& x != 15 ==> t.v[x] == ((s.v[x] * 2) % 256) as u8
        }),
        forall|op2: u16|
            op_hi(op2) == 0x8 && op_n(op2) == 0xE && op_x(op2) == op_x(op) ==> #[trigger] spec_execute(
                s,
                op2,
                0,
            ) == spec_execute(s, op, 0),
{
}

/// For every draw instruction that succeeds, the flags register becomes 1
/// exactly when some destination pixel had both its old bit and its
/// incoming sprite bit set — for every sprite height and every origin,
/// including ones that wrap on both axes.
pub proof fn lemma_draw_collision(s: CpuState, op: u16)
    requires
        s.wf(),
        op_hi(op) == 0xD,
        st_drw(s, op_x(op), op_y(op), op_n(op)) is Ok,
    ensures
        ({
            let vx = s.v[op_x(op)];
            let vy = s.v[op_y(op)];
            let n = op_n(op);
            let t = spec_execute(s, op, 0)->Ok_0;
            &&& spec_execute(s, op, 0) is Ok
            &&& (t.v[15] == 1 <==> exists|by: int, bi: int|
                0 <= by < n && 0 <= bi < 8 && (s.vram[pix(row_of(vy, by), col_of(vx, bi))]
                    & bit_at(s.ram[s.i + by], bi)) != 0)
        }),
{
    let vx = s.v[op_x(op)];
    let vy = s.v[op_y(op)];
    let n = op_n(op);
    let ii = s.i as int;
    if draw_collides(s.vram, s.ram, ii, vx, vy, n, 0) {
        let (by0, bi0) = choose|by0: int, bi0: int|
            0 <= by0 && 0 <= bi0 < 8 && (by0 < n || (by0 == n && bi0 < 0)) && (s.vram[pix(
                row_of(vy, by0),
                col_of(vx, bi0),
            )] & bit_at(s.ram[ii + by0], bi0)) != 0;
        assert(0 <= by0 < n && 0 <= bi0 < 8 && (s.vram[pix(row_of(vy, by0), col_of(vx, bi0))]
            & bit_at(s.ram[s.i + by0], bi0)) != 0);
    }
    if exists|by: int, bi: int|
        0 <= by < n && 0 <= bi < 8 && (s.vram[pix(row_of(vy, by), col_of(vx, bi))] & bit_at(
            s.ram[s.i + by],
            bi,
        )) != 0 {
        let (by0, bi0) = choose|by0: int, bi0: int|
            0 <= by0 < n && 0 <= bi0 < 8 && (s.vram[pix(row_of(vy, by0), col_of(vx, bi0))]
                & bit_at(s.ram[s.i + by0], bi0)) != 0;
        assert(draw_collides(s.vram, s.ram, ii, vx, vy, n, 0));
    }
}

/// For every draw instruction that succeeds: each destination pixel —
/// (origin row + sprite row) modulo 32, (origin column + sprite bit) modulo
/// 64, each axis wrapping on its own — takes its old bit exclusive-or'd
/// with the sprite bit, and every other pixel is untouched.
pub proof fn lemma_draw_pixels(s: CpuState, op: u16)
    requires
        s.wf(),
        op_hi(op) == 0xD,
        st_drw(s, op_x(op), op_y(op), op_n(op)) is Ok,
    ensures
        ({
            let vx = s.v[op_x(op)];
            let vy = s.v[op_y(op)];
            let n = op_n(op);
            let t = spec_execute(s, op, 0)->Ok_0;
            &&& spec_execute(s, op, 0) is Ok
            &&& t.vram.len() == 2048
            &&& forall|by: int, bi: int|
                0 <= by < n && 0 <= bi < 8 ==> t.vram[#[trigger] pix(
                    row_of(vy, by),
                    col_of(vx, bi),
                )] == s.vram[pix(row_of(vy, by), col_of(vx, bi))] ^ bit_at(s.ram[s.i + by], bi)
            &&& forall|p: int|
                0 <= p < 2048 && !(exists|by: int, bi: int|
                    0 <= by < n && 0 <= bi < 8 && p == pix(row_of(vy, by), col_of(vx, bi)))
                    ==> #[trigger] t.vram[p] == s.vram[p]
        }),
{
    broadcast use vstd::arithmetic::div_mod::lemma_mod_bound;

    let vx = s.v[op_x(op)];
    let vy = s.v[op_y(op)];
    let n = op_n(op);
    let ii = s.i as int;
    let t = spec_execute(s, op, 0)->Ok_0;
    assert forall|by: int, bi: int| 0 <= by < n && 0 <= bi < 8 implies t.vram[#[trigger] pix(
        row_of(vy, by),
        col_of(vx, bi),
    )] == s.vram[pix(row_of(vy, by), col_of(vx, bi))] ^ bit_at(s.ram[s.i + by], bi) by {
        lemma_draw_target(vx, vy, by, bi);
    }
    assert forall|p: int|
        0 <= p < 2048 && !(exists|by: int, bi: int|
            0 <= by < n && 0 <= bi < 8 && p == pix(row_of(vy, by), col_of(vx, bi)))
        implies #[trigger] t.vram[p] == s.vram[p] by {
        let by = byte_for(p, vy);
        let bi = bit_for(p, vx);
        if by < n && bi < 8 {
            lemma_draw_target(vx, vy, by, bi);
            assert(p == pix(row_of(vy, by), col_of(vx, bi)));
        }
    }
}

/// Block store then block load with the same address-register value and the
/// same register count round-trips: for every count and all register and
/// memory contents, the registers end exactly as they began, and memory
/// keeps the stored block.
pub proof fn lemma_block_store_load_roundtrip(s: CpuState, op1: u16, op2: u16)
    requires
        s.wf(),
        op_hi(op1) == 0xF,
        op_kk(op1) == 0x55,
        op_hi(op2) == 0xF,
        op_kk(op2) == 0x65,
        op_x(op2) == op_x(op1),
        s.i + op_x(op1) <= 4095,
    ensures
        ({
            let s1 = spec_execute(s, op1, 0)->Ok_0;
            let s2 = spec_execute(s1, op2, 0)->Ok_0;
            &&& spec_execute(s, op1, 0) is Ok
            &&& spec_execute(s1, op2, 0) is Ok
            &&& s2.v == s.v
            &&& s2.ram == s1.ram
        }),
{
    let x = op_x(op1);
    let s1 = spec_execute(s, op1, 0)->Ok_0;
    let s2 = spec_execute(s1, op2, 0)->Ok_0;
    assert(st_block_store(s, x) is Ok);
    assert(st_block_load(s1, x) is Ok);
    assert(s2.v =~= s.v);
}

/// A call immediately followed by a return leaves the program counter at
/// the address immediately after the call instruction, and the stack
/// pointer at its pre-call value.
pub proof fn lemma_call_then_return(s: CpuState, op: u16)
    requires
        s.wf(),
        op_hi(op) == 0x2,
        s.sp < 15,
        s.pc + 2 < 0x10000,
    ensures
        ({
            let s1 = spec_execute(s, op, 0)->Ok_0;
            let s2 = spec_execute(s1, 0x00EE, 0)->Ok_0;
            &&& spec_execute(s, op, 0) is Ok
            &&& s1.pc == op_nnn(op)
            &&& spec_execute(s1, 0x00EE, 0) is Ok
            &&& s2.pc == s.pc + 2
            &&& s2.sp == s.sp
        }),
{
    assert(wrap16(s.pc + 2) == s.pc + 2) by {
        vstd::arithmetic::div_mod::lemma_small_mod((s.pc + 2) as nat, 0x10000);
    }
}

/// Conditional skips advance the program counter by exactly one
/// instruction width when the condition is false and by exactly two when
/// it is true — for the register-immediate and register-register equality
/// tests and for both key-state tests.
pub proof fn lemma_skip_width(s: CpuState, op: u16)
    requires
        s.wf(),
        s.pc + 4 < 0x10000,
    ensures
        op_hi(op) == 0x3 ==> spec_execute(s, op, 0) == Ok::<CpuState, crate::isa::Chip8Error>(
            CpuState {
                pc: (s.pc + if s.v[op_x(op)] == op_kk(op) {
                    4int
                } else {
                    2int
                }) as u16,
                ..s
            },
        ),
        op_hi(op) == 0x4 ==> spec_execute(s, op, 0) == Ok::<CpuState, crate::isa::Chip8Error>(
            CpuState {
                pc: (s.pc + if s.v[op_x(op)] != op_kk(op) {
                    4int
                } else {
                    2int
                }) as u16,
                ..s
            },
        ),
        op_hi(op) == 0x5 ==> spec_execute(s, op, 0) == Ok::<CpuState, crate::isa::Chip8Error>(
            CpuState {
                pc: (s.pc + if s.v[op_x(op)] == s.v[op_y(op)] {
                    4int
                } else {
                    2int
                }) as u16,
                ..s
            },
        ),
        op_hi(op) == 0x9 && op_n(op) == 0x0 ==> spec_execute(s, op, 0) == Ok::<
            CpuState,
            crate::isa::Chip8Error,
        >(
            CpuState {
                pc: (s.pc + if s.v[op_x(op)] != s.v[op_y(op)] {
                    4int
                } else {
                    2int
                }) as u16,
                ..s
            },
        ),
        op_hi(op) == 0xE && op_kk(op) == 0x9E && s.v[op_x(op)] <= 15 ==> spec_execute(s, op, 0)
            == Ok::<CpuState, crate::isa::Chip8Error>(
            CpuState {
                pc: (s.pc + if s.keys_pressed[s.v[op_x(op)] as int] {
                    4int
                } else {
                    2int
                }) as u16,
                ..s
            },
        ),
        op_hi(op) == 0xE && op_kk(op) == 0xA1 && s.v[op_x(op)] <= 15 ==> spec_execute(s, op, 0)
            == Ok::<CpuState, crate::isa::Chip8Error>(
            CpuState {
                pc: (s.pc + if !s.keys_pressed[s.v[op_x(op)] as int] {
                    4int
                } else {
                    2int
                }) as u16,
                ..s
            },
        ),
{
    vstd::arithmetic::div_mod::lemma_small_mod((s.pc + 2) as nat, 0x10000);
    vstd::arithmetic::div_mod::lemma_small_mod((s.pc + 4) as nat, 0x10000);
}

} // verus!

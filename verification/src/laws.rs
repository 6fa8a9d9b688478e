//! Laws of the instruction set that relate several operations or hold
//! of every state, proved against the executor's step function.

use vstd::prelude::*;
use crate::arith::{lemma_mod_injective, wrap16, wrap8};
use crate::decode::Instr;
use crate::draw::lemma_draw_display_twice;
use crate::decode::spec_decode;
use crate::exec::{load_regs, spec_cycle, spec_exec, spec_fetch, store_regs};
use crate::state::Chip8View;

verus! {

/// Wraparound of one 8-bit sum or difference is reduction modulo 256.
proof fn lemma_wrap8_is_mod(a: int)
    requires
        -256 < a < 512,
    ensures
        wrap8(a) as int == a % 256,
{
    if a < 0 {
        assert(a % 256 == a + 256) by (nonlinear_arith)
            requires
                -256 < a < 0,
        ;
    } else if a < 256 {
        assert(a % 256 == a) by (nonlinear_arith)
            requires
                0 <= a < 256,
        ;
    } else {
        assert(a % 256 == a - 256) by (nonlinear_arith)
            requires
                256 <= a < 512,
        ;
    }
}

/// 7xnn adds its immediate into Vx modulo 256. It is no flag operation:
/// when Vx is not VF itself, VF keeps its value.
pub proof fn lemma_add_imm_wraps(pre: Chip8View, x: u8, nn: u8, rnd: u8)
    requires
        pre.wf(),
        x < 16,
    ensures
        spec_exec(pre, Instr::AddImm(x, nn), rnd).v[x as int] as int == (pre.v[x as int] + nn)
            % 256,
        x != 15 ==> spec_exec(pre, Instr::AddImm(x, nn), rnd).v[15] == pre.v[15],
{
    lemma_wrap8_is_mod(pre.v[x as int] + nn);
}

/// 8xy4 leaves in Vx the 8-bit sum and in VF exactly the carry out of
/// bit 7.
pub proof fn lemma_add_reg_carry(pre: Chip8View, x: u8, y: u8, rnd: u8)
    requires
        pre.wf(),
        x < 16,
        y < 16,
    ensures
        spec_exec(pre, Instr::AddReg(x, y), rnd).v[15] == (if pre.v[x as int] + pre.v[y as int]
            > 255 {
            1u8
        } else {
            0u8
        }),
        x != 15 ==> spec_exec(pre, Instr::AddReg(x, y), rnd).v[x as int] as int == (pre.v[x as int]
            + pre.v[y as int]) % 256,
{
    lemma_wrap8_is_mod(pre.v[x as int] + pre.v[y as int]);
}

/// 8xy5 leaves in Vx the 8-bit difference Vx - Vy and in VF the
/// inverted borrow: 1 when no borrow occurred, 0 when one did.
pub proof fn lemma_sub_reg_borrow(pre: Chip8View, x: u8, y: u8, rnd: u8)
    requires
        pre.wf(),
        x < 16,
        y < 16,
    ensures
        spec_exec(pre, Instr::SubReg(x, y), rnd).v[15] == (if pre.v[x as int] >= pre.v[y as int] {
            1u8
        } else {
            0u8
        }),
        x != 15 ==> spec_exec(pre, Instr::SubReg(x, y), rnd).v[x as int] as int == (pre.v[x as int]
            - pre.v[y as int]) % 256,
{
    lemma_wrap8_is_mod(pre.v[x as int] - pre.v[y as int]);
}

/// 8xy6 halves Vx and leaves in VF the bit shifted out: the least
/// significant bit of Vx before the shift.
pub proof fn lemma_shr_flag(pre: Chip8View, x: u8, rnd: u8)
    requires
        pre.wf(),
        x < 16,
    ensures
        spec_exec(pre, Instr::Shr(x), rnd).v[15] as int == pre.v[x as int] % 2,
        x != 15 ==> spec_exec(pre, Instr::Shr(x), rnd).v[x as int] as int == pre.v[x as int] / 2,
{
}

/// Drawing the same sprite twice in a row, with nothing in between,
/// restores the framebuffer exactly: the XOR blit is its own inverse.
/// The sprite, its coordinates and its rows are re-read from the state
/// the first draw left behind, and are unchanged by it — VF is read as
/// a coordinate only after it is cleared, so even V15 names the same
/// coordinate both times.
pub proof fn lemma_draw_twice(pre: Chip8View, x: u8, y: u8, n: u8, r1: u8, r2: u8)
    requires
        pre.wf(),
        x < 16,
        y < 16,
        n < 16,
    ensures
        spec_exec(spec_exec(pre, Instr::Drw(x, y, n), r1), Instr::Drw(x, y, n), r2).display
            == pre.display,
{
    let s1 = spec_exec(pre, Instr::Drw(x, y, n), r1);
    let v1 = pre.v.update(15, 0u8);
    assert(s1.v.update(15, 0u8) =~= v1);
    let vx = v1[x as int] as int;
    let vy = v1[y as int] as int;
    lemma_draw_display_twice(pre.memory, pre.i as int, vx, vy, n as int, pre.display);
    assert(spec_exec(s1, Instr::Drw(x, y, n), r2).display =~= pre.display);
}

/// The lengths of the register file and of memory survive a register
/// store.
proof fn lemma_store_regs_len(mem: Seq<u8>, v: Seq<u8>, i: int, x: int)
    requires
        mem.len() == 4096,
    ensures
        store_regs(mem, v, i, x).len() == mem.len(),
    decreases x + 1,
{
    if x >= 0 {
        lemma_store_regs_len(mem, v, i, x - 1);
    }
}

/// What Fx55 wrote at offset `k` is register `k`.
proof fn lemma_store_regs_at(mem: Seq<u8>, v: Seq<u8>, i: int, x: int, k: int)
    requires
        mem.len() == 4096,
        0 <= k <= x < 16,
    ensures
        store_regs(mem, v, i, x)[(i + k) % 4096] == v[k],
    decreases x + 1,
{
    lemma_store_regs_len(mem, v, i, x - 1);
    if k < x {
        lemma_store_regs_at(mem, v, i, x - 1, k);
        if (i + k) % 4096 == (i + x) % 4096 {
            lemma_mod_injective(i, k, x, 4096);
        }
    }
}

/// The register file keeps its length through a register load.
proof fn lemma_load_regs_len(v: Seq<u8>, mem: Seq<u8>, i: int, x: int)
    requires
        v.len() == 16,
        x < 16,
    ensures
        load_regs(v, mem, i, x).len() == v.len(),
    decreases x + 1,
{
    if x >= 0 {
        lemma_load_regs_len(v, mem, i, x - 1);
    }
}

/// What Fx65 put into register `k` is the byte at offset `k`.
proof fn lemma_load_regs_at(v: Seq<u8>, mem: Seq<u8>, i: int, x: int, k: int)
    requires
        v.len() == 16,
        0 <= k <= x < 16,
    ensures
        load_regs(v, mem, i, x)[k] == mem[(i + k) % 4096],
    decreases x + 1,
{
    lemma_load_regs_len(v, mem, i, x - 1);
    if k < x {
        lemma_load_regs_at(v, mem, i, x - 1, k);
    }
}

/// Storing V0..=Vx and loading the same region back reproduces the
/// stored registers, whatever the register file looked like in between:
/// the targeted addresses are distinct, so no write shadows another.
pub proof fn lemma_store_load_regs(mem: Seq<u8>, v: Seq<u8>, v0: Seq<u8>, i: int, x: int)
    requires
        mem.len() == 4096,
        v.len() == 16,
        v0.len() == 16,
        0 <= x < 16,
    ensures
        forall|k: int|
            0 <= k <= x ==> load_regs(v0, store_regs(mem, v, i, x), i, x)[k] == v[k],
{
    let stored = store_regs(mem, v, i, x);
    lemma_store_regs_len(mem, v, i, x);
    assert forall|k: int| 0 <= k <= x implies load_regs(v0, stored, i, x)[k] == v[k] by {
        lemma_load_regs_at(v0, stored, i, x, k);
        lemma_store_regs_at(mem, v, i, x, k);
    };
}

/// The Fx55/Fx65 round trip at the machine level: after Fx55 runs on
/// `s`, any well-formed state `t` that keeps that memory and the same I
/// — registers zeroed or not — gets registers V0..=Vx of `s` back from
/// Fx65.
pub proof fn lemma_store_load_round_trip(s: Chip8View, t: Chip8View, x: u8, r1: u8, r2: u8)
    requires
        s.wf(),
        t.wf(),
        x < 16,
        t.memory == spec_exec(s, Instr::StoreRegs(x), r1).memory,
        t.i == s.i,
    ensures
        forall|k: int| 0 <= k <= x ==> spec_exec(t, Instr::LoadRegs(x), r2).v[k] == s.v[k],
{
    lemma_store_load_regs(s.memory, s.v, t.v, s.i as int, x as int);
}

/// Only Cxnn reads the random byte: every other operation leaves the
/// same state whatever byte the random source produced.
pub proof fn lemma_exec_random_only_cxnn(pre: Chip8View, instr: Instr, r1: u8, r2: u8)
    requires
        !(instr is Rnd),
    ensures
        spec_exec(pre, instr, r1) == spec_exec(pre, instr, r2),
{
}

/// A cycle whose fetched opcode is not Cxnn is deterministic.
pub proof fn lemma_cycle_deterministic(pre: Chip8View, r1: u8, r2: u8)
    requires
        !(spec_decode(spec_fetch(pre)) is Rnd),
    ensures
        spec_cycle(pre, r1) == spec_cycle(pre, r2),
{
    lemma_exec_random_only_cxnn(pre, spec_decode(spec_fetch(pre)), r1, r2);
}

/// 1nnn sets the program counter to its address exactly: no further
/// increment follows a jump.
pub proof fn lemma_jump_exact(pre: Chip8View, nnn: u16, rnd: u8)
    ensures
        spec_exec(pre, Instr::Jp(nnn), rnd).pc == nnn,
{
}

/// An opcode outside the table is a two-byte no-op: the program counter
/// advances and nothing else changes.
pub proof fn lemma_unknown_noop(pre: Chip8View, op: u16, rnd: u8)
    ensures
        spec_exec(pre, Instr::Unknown(op), rnd) == (Chip8View { pc: wrap16(pre.pc + 2), ..pre }),
{
}

} // verus!

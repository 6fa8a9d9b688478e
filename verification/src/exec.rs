//! The executor: one fetch-decode-execute cycle, specified by a step
//! function over the machine state model.

use vstd::prelude::*;
use rand::Rng;
use crate::arith::{wrap8, wrap16};
use crate::decode::{bounded, decode, lemma_decode_bounded, spec_decode, Instr};
use crate::draw::{draw_sprite, spec_draw_result};
use crate::state::{Chip8, Chip8View, DISPLAY_SIZE, MEMORY_SIZE};

verus! {

/// The first pressed key at or after slot `k`, scanning upward.
pub open spec fn first_key_from(keypad: Seq<u8>, k: int) -> Option<u8>
    decreases 16 - k,
{
    if k < 0 || k >= 16 {
        None
    } else if keypad[k] != 0 {
        Some(k as u8)
    } else {
        first_key_from(keypad, k + 1)
    }
}

/// Memory after V0..=Vx are stored at `i` onward, each address reduced
/// modulo the memory size.
pub open spec fn store_regs(mem: Seq<u8>, v: Seq<u8>, i: int, x: int) -> Seq<u8>
    decreases x + 1,
{
    if x < 0 {
        mem
    } else {
        store_regs(mem, v, i, x - 1).update((i + x) % 4096, v[x])
    }
}

/// The register file after V0..=Vx are loaded from `i` onward, each
/// address reduced modulo the memory size.
pub open spec fn load_regs(v: Seq<u8>, mem: Seq<u8>, i: int, x: int) -> Seq<u8>
    decreases x + 1,
{
    if x < 0 {
        v
    } else {
        load_regs(v, mem, i, x - 1).update(x, mem[(i + x) % 4096])
    }
}

/// The authoritative instruction table: the machine state after one
/// decoded operation executes on `pre`. `rnd` is the byte the random
/// source produced for this cycle; only Cxnn reads it. A return with an
/// empty stack and a call with a full one are treated as two-byte
/// no-ops, and every memory or keypad address computed from a register
/// is reduced modulo its container's size.
pub open spec fn spec_exec(pre: Chip8View, instr: Instr, rnd: u8) -> Chip8View {
    match instr {
        Instr::Cls => Chip8View {
            display: Seq::new(pre.display.len(), |p: int| 0u8),
            pc: wrap16(pre.pc + 2),
            ..pre
        },
        Instr::Ret => if pre.sp == 0 {
            Chip8View { pc: wrap16(pre.pc + 2), ..pre }
        } else {
            Chip8View {
                sp: (pre.sp - 1) as u8,
                pc: wrap16(pre.stack[pre.sp - 1] + 2),
                ..pre
            }
        },
        Instr::Jp(nnn) => Chip8View { pc: nnn, ..pre },
        Instr::Call(nnn) => if pre.sp >= 16 {
            Chip8View { pc: wrap16(pre.pc + 2), ..pre }
        } else {
            Chip8View {
                stack: pre.stack.update(pre.sp as int, pre.pc),
                sp: (pre.sp + 1) as u8,
                pc: nnn,
                ..pre
            }
        },
        Instr::SeImm(x, nn) => Chip8View {
            pc: wrap16(pre.pc + if pre.v[x as int] == nn { 4int } else { 2int }),
            ..pre
        },
        Instr::SneImm(x, nn) => Chip8View {
            pc: wrap16(pre.pc + if pre.v[x as int] != nn { 4int } else { 2int }),
            ..pre
        },
        Instr::SeReg(x, y) => Chip8View {
            pc: wrap16(pre.pc + if pre.v[x as int] == pre.v[y as int] { 4int } else { 2int }),
            ..pre
        },
        Instr::LdImm(x, nn) => Chip8View {
            v: pre.v.update(x as int, nn),
            pc: wrap16(pre.pc + 2),
            ..pre
        },
        Instr::AddImm(x, nn) => Chip8View {
            v: pre.v.update(x as int, wrap8(pre.v[x as int] + nn)),
            pc: wrap16(pre.pc + 2),
            ..pre
        },
        Instr::LdReg(x, y) => Chip8View {
            v: pre.v.update(x as int, pre.v[y as int]),
            pc: wrap16(pre.pc + 2),
            ..pre
        },
        Instr::Or(x, y) => Chip8View {
            v: pre.v.update(x as int, pre.v[x as int] | pre.v[y as int]),
            pc: wrap16(pre.pc + 2),
            ..pre
        },
        Instr::And(x, y) => Chip8View {
            v: pre.v.update(x as int, pre.v[x as int] & pre.v[y as int]),
            pc: wrap16(pre.pc + 2),
            ..pre
        },
        Instr::Xor(x, y) => Chip8View {
            v: pre.v.update(x as int, pre.v[x as int] ^ pre.v[y as int]),
            pc: wrap16(pre.pc + 2),
            ..pre
        },
        Instr::AddReg(x, y) => Chip8View {
            v: pre.v.update(x as int, wrap8(pre.v[x as int] + pre.v[y as int])).update(
                15,
                if pre.v[x as int] + pre.v[y as int] > 255 { 1u8 } else { 0u8 },
            ),
            pc: wrap16(pre.pc + 2),
            ..pre
        },
        Instr::SubReg(x, y) => Chip8View {
            v: pre.v.update(x as int, wrap8(pre.v[x as int] - pre.v[y as int])).update(
                15,
                if pre.v[x as int] >= pre.v[y as int] { 1u8 } else { 0u8 },
            ),
            pc: wrap16(pre.pc + 2),
            ..pre
        },
        Instr::Shr(x) => Chip8View {
            v: pre.v.update(x as int, (pre.v[x as int] / 2) as u8).update(
                15,
                (pre.v[x as int] % 2) as u8,
            ),
            pc: wrap16(pre.pc + 2),
            ..pre
        },
        Instr::SubN(x, y) => Chip8View {
            v: pre.v.update(x as int, wrap8(pre.v[y as int] - pre.v[x as int])).update(
                15,
                if pre.v[y as int] >= pre.v[x as int] { 1u8 } else { 0u8 },
            ),
            pc: wrap16(pre.pc + 2),
            ..pre
        },
        Instr::Shl(x) => Chip8View {
            v: pre.v.update(x as int, wrap8(pre.v[x as int] * 2)).update(
                15,
                (pre.v[x as int] / 128) as u8,
            ),
            pc: wrap16(pre.pc + 2),
            ..pre
        },
        Instr::SneReg(x, y) => Chip8View {
            pc: wrap16(pre.pc + if pre.v[x as int] != pre.v[y as int] { 4int } else { 2int }),
            ..pre
        },
        Instr::LdI(nnn) => Chip8View { i: nnn, pc: wrap16(pre.pc + 2), ..pre },
        Instr::JpV0(nnn) => Chip8View { pc: wrap16(nnn + pre.v[0]), ..pre },
        Instr::Rnd(x, nn) => Chip8View {
            v: pre.v.update(x as int, rnd & nn),
            pc: wrap16(pre.pc + 2),
            ..pre
        },
        Instr::Drw(x, y, n) => Chip8View {
            pc: wrap16(pre.pc + 2),
            ..spec_draw_result(pre, x, y, n)
        },
        Instr::Skp(x) => Chip8View {
            pc: wrap16(
                pre.pc + if pre.keypad[pre.v[x as int] as int % 16] == 1 { 4int } else { 2int },
            ),
            ..pre
        },
        Instr::Sknp(x) => Chip8View {
            pc: wrap16(
                pre.pc + if pre.keypad[pre.v[x as int] as int % 16] == 0 { 4int } else { 2int },
            ),
            ..pre
        },
        Instr::LdVxDt(x) => Chip8View {
            v: pre.v.update(x as int, pre.delay_timer),
            pc: wrap16(pre.pc + 2),
            ..pre
        },
        Instr::LdVxKey(x) => match first_key_from(pre.keypad, 0) {
            Some(k) => Chip8View {
                v: pre.v.update(x as int, k),
                pc: wrap16(pre.pc + 2),
                ..pre
            },
            None => pre,
        },
        Instr::LdDtVx(x) => Chip8View {
            delay_timer: pre.v[x as int],
            pc: wrap16(pre.pc + 2),
            ..pre
        },
        Instr::LdStVx(x) => Chip8View {
            sound_timer: pre.v[x as int],
            pc: wrap16(pre.pc + 2),
            ..pre
        },
        Instr::AddIVx(x) => Chip8View {
            i: wrap16(pre.i + pre.v[x as int]),
            pc: wrap16(pre.pc + 2),
            ..pre
        },
        Instr::LdFontVx(x) => Chip8View {
            i: (pre.v[x as int] * 5) as u16,
            pc: wrap16(pre.pc + 2),
            ..pre
        },
        Instr::StoreBcd(x) => Chip8View {
            memory: pre.memory.update(pre.i as int % 4096, (pre.v[x as int] / 100) as u8).update(
                (pre.i + 1) as int % 4096,
                (pre.v[x as int] / 10 % 10) as u8,
            ).update((pre.i + 2) as int % 4096, (pre.v[x as int] % 10) as u8),
            pc: wrap16(pre.pc + 2),
            ..pre
        },
        Instr::StoreRegs(x) => Chip8View {
            memory: store_regs(pre.memory, pre.v, pre.i as int, x as int),
            pc: wrap16(pre.pc + 2),
            ..pre
        },
        Instr::LoadRegs(x) => Chip8View {
            v: load_regs(pre.v, pre.memory, pre.i as int, x as int),
            pc: wrap16(pre.pc + 2),
            ..pre
        },
        Instr::Unknown(_op) => Chip8View { pc: wrap16(pre.pc + 2), ..pre },
    }
}

/// The opcode fetched at the program counter: two bytes, big endian.
pub open spec fn spec_fetch(pre: Chip8View) -> u16 {
    (pre.memory[pre.pc as int] * 256 + pre.memory[pre.pc as int + 1]) as u16
}

/// One whole cycle: fetch, decode, execute. A program counter too close
/// to the end of memory to hold an instruction stalls the machine.
pub open spec fn spec_cycle(pre: Chip8View, rnd: u8) -> Chip8View {
    if pre.pc + 1 < MEMORY_SIZE {
        spec_exec(pre, spec_decode(spec_fetch(pre)), rnd)
    } else {
        pre
    }
}

/// Relies on rand::rng and rand::Rng::random: one byte from the
/// thread-local generator, approximately uniform. Nothing is promised
/// of the value; the executor's contract states what holds of every
/// outcome.
#[verifier::external_body]
fn random_byte() -> u8 {
    rand::rng().random()
}

/// Scan the keypad for the first pressed key, lowest slot first.
fn first_pressed_key(keypad: &Vec<u8>) -> (r: Option<u8>)
    requires
        keypad@.len() == 16,
    ensures
        r == first_key_from(keypad@, 0),
{
    let mut k: usize = 0;
    while k < 16
        invariant
            k <= 16,
            keypad@.len() == 16,
            first_key_from(keypad@, 0) == first_key_from(keypad@, k as int),
        decreases 16 - k,
    {
        if keypad[k] != 0 {
            return Some(k as u8);
        }
        k = k + 1;
    }
    None
}

impl Chip8 {
    /// Execute one already decoded operation, with `rnd` as the byte the
    /// random source produced for this cycle.
    pub fn step_instr(&mut self, instr: Instr, rnd: u8)
        requires
            old(self)@.wf(),
            bounded(instr),
        ensures
            final(self)@ == spec_exec(old(self)@, instr, rnd),
            final(self)@.wf(),
    {
        let ghost pre = old(self)@;
        match instr {
            Instr::Cls => {
                let mut p: usize = 0;
                while p < DISPLAY_SIZE
                    invariant
                        p <= DISPLAY_SIZE,
                        self@.display.len() == DISPLAY_SIZE,
                        forall|q: int| 0 <= q < p ==> self@.display[q] == 0u8,
                        forall|q: int| p <= q < DISPLAY_SIZE ==> self@.display[q] == pre.display[q],
                        self@.memory == pre.memory,
                        self@.v == pre.v,
                        self@.i == pre.i,
                        self@.pc == pre.pc,
                        self@.stack == pre.stack,
                        self@.sp == pre.sp,
                        self@.delay_timer == pre.delay_timer,
                        self@.sound_timer == pre.sound_timer,
                        self@.keypad == pre.keypad,
                    decreases DISPLAY_SIZE - p,
                {
                    self.display.set(p, 0);
                    p = p + 1;
                }
                self.pc = self.pc.wrapping_add(2);
                proof {
                    assert(self@.display =~= Seq::new(pre.display.len(), |q: int| 0u8));
                    assert(self@ =~= spec_exec(pre, instr, rnd));
                }
            },
            Instr::Ret => {
                if self.sp == 0 {
                    self.pc = self.pc.wrapping_add(2);
                } else {
                    self.sp = self.sp - 1;
                    self.pc = self.stack[self.sp as usize].wrapping_add(2);
                }
                proof {
                    assert(self@ =~= spec_exec(pre, instr, rnd));
                }
            },
            Instr::Jp(nnn) => {
                self.pc = nnn;
                proof {
                    assert(self@ =~= spec_exec(pre, instr, rnd));
                }
            },
            Instr::Call(nnn) => {
                if self.sp >= 16 {
                    self.pc = self.pc.wrapping_add(2);
                } else {
                    self.stack.set(self.sp as usize, self.pc);
                    self.sp = self.sp + 1;
                    self.pc = nnn;
                }
                proof {
                    assert(self@ =~= spec_exec(pre, instr, rnd));
                }
            },
            Instr::SeImm(x, nn) => {
                let skip = self.v[x as usize] == nn;
                self.pc = self.pc.wrapping_add(if skip { 4 } else { 2 });
                proof {
                    assert(self@ =~= spec_exec(pre, instr, rnd));
                }
            },
            Instr::SneImm(x, nn) => {
                let skip = self.v[x as usize] != nn;
                self.pc = self.pc.wrapping_add(if skip { 4 } else { 2 });
                proof {
                    assert(self@ =~= spec_exec(pre, instr, rnd));
                }
            },
            Instr::SeReg(x, y) => {
                let skip = self.v[x as usize] == self.v[y as usize];
                self.pc = self.pc.wrapping_add(if skip { 4 } else { 2 });
                proof {
                    assert(self@ =~= spec_exec(pre, instr, rnd));
                }
            },
            Instr::LdImm(x, nn) => {
                self.v.set(x as usize, nn);
                self.pc = self.pc.wrapping_add(2);
                proof {
                    assert(self@ =~= spec_exec(pre, instr, rnd));
                }
            },
            Instr::AddImm(x, nn) => {
                let a = self.v[x as usize];
                let sum: u16 = a as u16 + nn as u16;
                let res: u8 = if sum > 255 {
                    (sum - 256) as u8
                } else {
                    sum as u8
                };
                self.v.set(x as usize, res);
                self.pc = self.pc.wrapping_add(2);
                proof {
                    assert(self@ =~= spec_exec(pre, instr, rnd));
                }
            },
            Instr::LdReg(x, y) => {
                let b = self.v[y as usize];
                self.v.set(x as usize, b);
                self.pc = self.pc.wrapping_add(2);
                proof {
                    assert(self@ =~= spec_exec(pre, instr, rnd));
                }
            },
            Instr::Or(x, y) => {
                let r = self.v[x as usize] | self.v[y as usize];
                self.v.set(x as usize, r);
                self.pc = self.pc.wrapping_add(2);
                proof {
                    assert(self@ =~= spec_exec(pre, instr, rnd));
                }
            },
            Instr::And(x, y) => {
                let r = self.v[x as usize] & self.v[y as usize];
                self.v.set(x as usize, r);
                self.pc = self.pc.wrapping_add(2);
                proof {
                    assert(self@ =~= spec_exec(pre, instr, rnd));
                }
            },
            Instr::Xor(x, y) => {
                let r = self.v[x as usize] ^ self.v[y as usize];
                self.v.set(x as usize, r);
                self.pc = self.pc.wrapping_add(2);
                proof {
                    assert(self@ =~= spec_exec(pre, instr, rnd));
                }
            },
            Instr::AddReg(x, y) => {
                let a = self.v[x as usize];
                let b = self.v[y as usize];
                let sum: u16 = a as u16 + b as u16;
                let res: u8 = if sum > 255 {
                    (sum - 256) as u8
                } else {
                    sum as u8
                };
                self.v.set(x as usize, res);
                self.v.set(15, if sum > 255 { 1 } else { 0 });
                self.pc = self.pc.wrapping_add(2);
                proof {
                    assert(self@ =~= spec_exec(pre, instr, rnd));
                }
            },
            Instr::SubReg(x, y) => {
                let a = self.v[x as usize];
                let b = self.v[y as usize];
                let res: u8 = if a >= b {
                    a - b
                } else {
                    (a as u16 + 256 - b as u16) as u8
                };
                self.v.set(x as usize, res);
                self.v.set(15, if a >= b { 1 } else { 0 });
                self.pc = self.pc.wrapping_add(2);
                proof {
                    assert(self@ =~= spec_exec(pre, instr, rnd));
                }
            },
            Instr::Shr(x) => {
                let a = self.v[x as usize];
                self.v.set(x as usize, a / 2);
                self.v.set(15, a % 2);
                self.pc = self.pc.wrapping_add(2);
                proof {
                    assert(self@ =~= spec_exec(pre, instr, rnd));
                }
            },
            Instr::SubN(x, y) => {
                let a = self.v[x as usize];
                let b = self.v[y as usize];
                let res: u8 = if b >= a {
                    b - a
                } else {
                    (b as u16 + 256 - a as u16) as u8
                };
                self.v.set(x as usize, res);
                self.v.set(15, if b >= a { 1 } else { 0 });
                self.pc = self.pc.wrapping_add(2);
                proof {
                    assert(self@ =~= spec_exec(pre, instr, rnd));
                }
            },
            Instr::Shl(x) => {
                let a = self.v[x as usize];
                let doubled: u16 = a as u16 * 2;
                let res: u8 = if doubled > 255 {
                    (doubled - 256) as u8
                } else {
                    doubled as u8
                };
                self.v.set(x as usize, res);
                self.v.set(15, a / 128);
                self.pc = self.pc.wrapping_add(2);
                proof {
                    assert(self@ =~= spec_exec(pre, instr, rnd));
                }
            },
            Instr::SneReg(x, y) => {
                let skip = self.v[x as usize] != self.v[y as usize];
                self.pc = self.pc.wrapping_add(if skip { 4 } else { 2 });
                proof {
                    assert(self@ =~= spec_exec(pre, instr, rnd));
                }
            },
            Instr::LdI(nnn) => {
                self.i = nnn;
                self.pc = self.pc.wrapping_add(2);
                proof {
                    assert(self@ =~= spec_exec(pre, instr, rnd));
                }
            },
            Instr::JpV0(nnn) => {
                self.pc = nnn.wrapping_add(self.v[0] as u16);
                proof {
                    assert(self@ =~= spec_exec(pre, instr, rnd));
                }
            },
            Instr::Rnd(x, nn) => {
                self.v.set(x as usize, rnd & nn);
                self.pc = self.pc.wrapping_add(2);
                proof {
                    assert(self@ =~= spec_exec(pre, instr, rnd));
                }
            },
            Instr::Drw(x, y, n) => {
                draw_sprite(self, x, y, n);
                self.pc = self.pc.wrapping_add(2);
                proof {
                    assert(self@ =~= spec_exec(pre, instr, rnd));
                }
            },
            Instr::Skp(x) => {
                let key = (self.v[x as usize] as usize) % 16;
                let skip = self.keypad[key] == 1;
                self.pc = self.pc.wrapping_add(if skip { 4 } else { 2 });
                proof {
                    assert(self@ =~= spec_exec(pre, instr, rnd));
                }
            },
            Instr::Sknp(x) => {
                let key = (self.v[x as usize] as usize) % 16;
                let skip = self.keypad[key] == 0;
                self.pc = self.pc.wrapping_add(if skip { 4 } else { 2 });
                proof {
                    assert(self@ =~= spec_exec(pre, instr, rnd));
                }
            },
            Instr::LdVxDt(x) => {
                let t = self.delay_timer;
                self.v.set(x as usize, t);
                self.pc = self.pc.wrapping_add(2);
                proof {
                    assert(self@ =~= spec_exec(pre, instr, rnd));
                }
            },
            Instr::LdVxKey(x) => {
                let found = first_pressed_key(&self.keypad);
                match found {
                    Some(key) => {
                        self.v.set(x as usize, key);
                        self.pc = self.pc.wrapping_add(2);
                    },
                    None => {},
                }
                proof {
                    assert(self@ =~= spec_exec(pre, instr, rnd));
                }
            },
            Instr::LdDtVx(x) => {
                self.delay_timer = self.v[x as usize];
                self.pc = self.pc.wrapping_add(2);
                proof {
                    assert(self@ =~= spec_exec(pre, instr, rnd));
                }
            },
            Instr::LdStVx(x) => {
                self.sound_timer = self.v[x as usize];
                self.pc = self.pc.wrapping_add(2);
                proof {
                    assert(self@ =~= spec_exec(pre, instr, rnd));
                }
            },
            Instr::AddIVx(x) => {
                self.i = self.i.wrapping_add(self.v[x as usize] as u16);
                self.pc = self.pc.wrapping_add(2);
                proof {
                    assert(self@ =~= spec_exec(pre, instr, rnd));
                }
            },
            Instr::LdFontVx(x) => {
                self.i = self.v[x as usize] as u16 * 5;
                self.pc = self.pc.wrapping_add(2);
                proof {
                    assert(self@ =~= spec_exec(pre, instr, rnd));
                }
            },
            Instr::StoreBcd(x) => {
                let val = self.v[x as usize];
                let i0 = (self.i as usize) % MEMORY_SIZE;
                let i1 = (self.i as usize + 1) % MEMORY_SIZE;
                let i2 = (self.i as usize + 2) % MEMORY_SIZE;
                self.memory.set(i0, val / 100);
                self.memory.set(i1, val / 10 % 10);
                self.memory.set(i2, val % 10);
                self.pc = self.pc.wrapping_add(2);
                proof {
                    assert(self@ =~= spec_exec(pre, instr, rnd));
                }
            },
            Instr::StoreRegs(x) => {
                let mut k: usize = 0;
                while k < x as usize + 1
                    invariant
                        pre.wf(),
                        x < 16,
                        k <= x as usize + 1,
                        self@.memory.len() == MEMORY_SIZE,
                        self@.memory == store_regs(pre.memory, pre.v, pre.i as int, k as int - 1),
                        self@.v == pre.v,
                        self@.i == pre.i,
                        self@.pc == pre.pc,
                        self@.stack == pre.stack,
                        self@.sp == pre.sp,
                        self@.delay_timer == pre.delay_timer,
                        self@.sound_timer == pre.sound_timer,
                        self@.display == pre.display,
                        self@.keypad == pre.keypad,
                    decreases x as usize + 1 - k,
                {
                    let addr = (self.i as usize + k) % MEMORY_SIZE;
                    let b = self.v[k];
                    self.memory.set(addr, b);
                    k = k + 1;
                }
                self.pc = self.pc.wrapping_add(2);
                proof {
                    assert(self@ =~= spec_exec(pre, instr, rnd));
                }
            },
            Instr::LoadRegs(x) => {
                let mut k: usize = 0;
                while k < x as usize + 1
                    invariant
                        pre.wf(),
                        x < 16,
                        k <= x as usize + 1,
                        self@.v.len() == 16,
                        self@.v == load_regs(pre.v, pre.memory, pre.i as int, k as int - 1),
                        self@.memory == pre.memory,
                        self@.i == pre.i,
                        self@.pc == pre.pc,
                        self@.stack == pre.stack,
                        self@.sp == pre.sp,
                        self@.delay_timer == pre.delay_timer,
                        self@.sound_timer == pre.sound_timer,
                        self@.display == pre.display,
                        self@.keypad == pre.keypad,
                    decreases x as usize + 1 - k,
                {
                    let addr = (self.i as usize + k) % MEMORY_SIZE;
                    let b = self.memory[addr];
                    self.v.set(k, b);
                    k = k + 1;
                }
                self.pc = self.pc.wrapping_add(2);
                proof {
                    assert(self@ =~= spec_exec(pre, instr, rnd));
                }
            },
            Instr::Unknown(_op) => {
                self.pc = self.pc.wrapping_add(2);
                proof {
                    assert(self@ =~= spec_exec(pre, instr, rnd));
                }
            },
        }
    }

    /// The big-endian opcode stored at `addr`.
    pub fn read_opcode(&self, addr: usize) -> (op: u16)
        requires
            self@.wf(),
            addr + 1 < MEMORY_SIZE,
        ensures
            op == (self@.memory[addr as int] * 256 + self@.memory[addr as int + 1]) as u16,
    {
        let hi = self.memory[addr];
        let lo = self.memory[addr + 1];
        (hi as u16) * 256 + (lo as u16)
    }

    /// One fetch-decode-execute cycle. The random source is drawn inside,
    /// so the contract holds for some byte; every part of the result other
    /// than the register written by Cxnn does not depend on it.
    pub fn chip8_emulate_cycle(&mut self)
        requires
            old(self)@.wf(),
        ensures
            final(self)@.wf(),
            exists|r: u8| final(self)@ == spec_cycle(old(self)@, r),
    {
        let ghost pre = old(self)@;
        if (self.pc as usize) + 1 >= MEMORY_SIZE {
            proof {
                assert(self@ == spec_cycle(pre, 0u8));
            }
            return ;
        }
        let op = self.read_opcode(self.pc as usize);
        let instr = decode(op);
        proof {
            lemma_decode_bounded(op);
            assert(op == spec_fetch(pre));
        }
        let rnd = random_byte();
        self.step_instr(instr, rnd);
        proof {
            assert(self@ == spec_cycle(pre, rnd));
        }
    }
}

} // verus!

//! The instruction decoder: a pure function from a packed 16-bit opcode
//! to a tagged operation, shared by the executor and the disassembler.

use vstd::prelude::*;

verus! {

/// One decoded operation per row of the instruction table. Operand
/// fields: `x` and `y` are register indices (bits 11:8 and 7:4), `n` is
/// the low nibble, `nn` the low byte, `nnn` the low twelve bits.
#[derive(Clone, Copy, Debug, PartialEq, Eq, Structural)]
pub enum Instr {
    /// 00E0: clear the display.
    Cls,
    /// 00EE: return from a subroutine.
    Ret,
    /// 1nnn: jump.
    Jp(u16),
    /// 2nnn: call a subroutine.
    Call(u16),
    /// 3xnn: skip if Vx == nn.
    SeImm(u8, u8),
    /// 4xnn: skip if Vx != nn.
    SneImm(u8, u8),
    /// 5xy0: skip if Vx == Vy.
    SeReg(u8, u8),
    /// 6xnn: Vx = nn.
    LdImm(u8, u8),
    /// 7xnn: Vx += nn, wrapping, no flag.
    AddImm(u8, u8),
    /// 8xy0: Vx = Vy.
    LdReg(u8, u8),
    /// 8xy1: Vx |= Vy.
    Or(u8, u8),
    /// 8xy2: Vx &= Vy.
    And(u8, u8),
    /// 8xy3: Vx ^= Vy.
    Xor(u8, u8),
    /// 8xy4: Vx += Vy, VF = carry.
    AddReg(u8, u8),
    /// 8xy5: Vx -= Vy, VF = 1 unless a borrow occurred.
    SubReg(u8, u8),
    /// 8xy6: VF = low bit of Vx, then Vx >>= 1.
    Shr(u8),
    /// 8xy7: Vx = Vy - Vx, VF = 1 unless a borrow occurred.
    SubN(u8, u8),
    /// 8xyE: VF = high bit of Vx, then Vx <<= 1.
    Shl(u8),
    /// 9xy0: skip if Vx != Vy.
    SneReg(u8, u8),
    /// Annn: I = nnn.
    LdI(u16),
    /// Bnnn: jump to nnn + V0.
    JpV0(u16),
    /// Cxnn: Vx = random byte & nn.
    Rnd(u8, u8),
    /// Dxyn: draw an n-row sprite at (Vx, Vy), VF = collision.
    Drw(u8, u8, u8),
    /// Ex9E: skip if the key Vx is pressed.
    Skp(u8),
    /// ExA1: skip if the key Vx is released.
    Sknp(u8),
    /// Fx07: Vx = delay timer.
    LdVxDt(u8),
    /// Fx0A: wait for a key press, then Vx = that key.
    LdVxKey(u8),
    /// Fx15: delay timer = Vx.
    LdDtVx(u8),
    /// Fx18: sound timer = Vx.
    LdStVx(u8),
    /// Fx1E: I += Vx.
    AddIVx(u8),
    /// Fx29: I = font glyph address of digit Vx.
    LdFontVx(u8),
    /// Fx33: write the decimal digits of Vx at I, I+1, I+2.
    StoreBcd(u8),
    /// Fx55: store V0..=Vx at I onward.
    StoreRegs(u8),
    /// Fx65: load V0..=Vx from I onward.
    LoadRegs(u8),
    /// Any byte pattern outside the table, carrying the raw opcode; a
    /// two-byte no-op.
    Unknown(u16),
}

/// Bits 15:12 of an opcode.
pub open spec fn op_family(op: u16) -> u16 {
    op / 0x1000
}

/// Bits 11:8 of an opcode: the first register index.
pub open spec fn op_x(op: u16) -> u8 {
    (((op / 0x100) % 16) as u8)
}

/// Bits 7:4 of an opcode: the second register index.
pub open spec fn op_y(op: u16) -> u8 {
    (((op / 16) % 16) as u8)
}

/// Bits 3:0 of an opcode.
pub open spec fn op_n(op: u16) -> u8 {
    ((op % 16) as u8)
}

/// Bits 7:0 of an opcode.
pub open spec fn op_nn(op: u16) -> u8 {
    ((op % 256) as u8)
}

/// Bits 11:0 of an opcode.
pub open spec fn op_nnn(op: u16) -> u16 {
    op % 0x1000
}

/// The decode table. Families 5 and 9 do not inspect the low nibble;
/// family 0 outside 00E0/00EE, and the sub-opcodes of families 8, E and
/// F outside the table, decode to `Unknown`.
pub open spec fn spec_decode(op: u16) -> Instr {
    let x = op_x(op);
    let y = op_y(op);
    let n = op_n(op);
    let nn = op_nn(op);
    let nnn = op_nnn(op);
    match op_family(op) {
        0x0 => if nn == 0xE0 {
            Instr::Cls
        } else if nn == 0xEE {
            Instr::Ret
        } else {
            Instr::Unknown(op)
        },
        0x1 => Instr::Jp(nnn),
        0x2 => Instr::Call(nnn),
        0x3 => Instr::SeImm(x, nn),
        0x4 => Instr::SneImm(x, nn),
        0x5 => Instr::SeReg(x, y),
        0x6 => Instr::LdImm(x, nn),
        0x7 => Instr::AddImm(x, nn),
        0x8 => match n {
            0x0 => Instr::LdReg(x, y),
            0x1 => Instr::Or(x, y),
            0x2 => Instr::And(x, y),
            0x3 => Instr::Xor(x, y),
            0x4 => Instr::AddReg(x, y),
            0x5 => Instr::SubReg(x, y),
            0x6 => Instr::Shr(x),
            0x7 => Instr::SubN(x, y),
            0xE => Instr::Shl(x),
            _ => Instr::Unknown(op),
        },
        0x9 => Instr::SneReg(x, y),
        0xA => Instr::LdI(nnn),
        0xB => Instr::JpV0(nnn),
        0xC => Instr::Rnd(x, nn),
        0xD => Instr::Drw(x, y, n),
        0xE => if nn == 0x9E {
            Instr::Skp(x)
        } else if nn == 0xA1 {
            Instr::Sknp(x)
        } else {
            Instr::Unknown(op)
        },
        0xF => match nn {
            0x07 => Instr::LdVxDt(x),
            0x0A => Instr::LdVxKey(x),
            0x15 => Instr::LdDtVx(x),
            0x18 => Instr::LdStVx(x),
            0x1E => Instr::AddIVx(x),
            0x29 => Instr::LdFontVx(x),
            0x33 => Instr::StoreBcd(x),
            0x55 => Instr::StoreRegs(x),
            0x65 => Instr::LoadRegs(x),
            _ => Instr::Unknown(op),
        },
        _ => Instr::Unknown(op),
    }
}

/// Every register index a decoded operation carries is below 16, every
/// nibble below 16 and every address field below 0x1000.
pub open spec fn bounded(instr: Instr) -> bool {
    match instr {
        Instr::Cls => true,
        Instr::Ret => true,
        Instr::Jp(nnn) => nnn < 0x1000,
        Instr::Call(nnn) => nnn < 0x1000,
        Instr::SeImm(x, _nn) => x < 16,
        Instr::SneImm(x, _nn) => x < 16,
        Instr::SeReg(x, y) => x < 16 && y < 16,
        Instr::LdImm(x, _nn) => x < 16,
        Instr::AddImm(x, _nn) => x < 16,
        Instr::LdReg(x, y) => x < 16 && y < 16,
        Instr::Or(x, y) => x < 16 && y < 16,
        Instr::And(x, y) => x < 16 && y < 16,
        Instr::Xor(x, y) => x < 16 && y < 16,
        Instr::AddReg(x, y) => x < 16 && y < 16,
        Instr::SubReg(x, y) => x < 16 && y < 16,
        Instr::Shr(x) => x < 16,
        Instr::SubN(x, y) => x < 16 && y < 16,
        Instr::Shl(x) => x < 16,
        Instr::SneReg(x, y) => x < 16 && y < 16,
        Instr::LdI(nnn) => nnn < 0x1000,
        Instr::JpV0(nnn) => nnn < 0x1000,
        Instr::Rnd(x, _nn) => x < 16,
        Instr::Drw(x, y, n) => x < 16 && y < 16 && n < 16,
        Instr::Skp(x) => x < 16,
        Instr::Sknp(x) => x < 16,
        Instr::LdVxDt(x) => x < 16,
        Instr::LdVxKey(x) => x < 16,
        Instr::LdDtVx(x) => x < 16,
        Instr::LdStVx(x) => x < 16,
        Instr::AddIVx(x) => x < 16,
        Instr::LdFontVx(x) => x < 16,
        Instr::StoreBcd(x) => x < 16,
        Instr::StoreRegs(x) => x < 16,
        Instr::LoadRegs(x) => x < 16,
        Instr::Unknown(_op) => true,
    }
}

/// A decoded operation always carries in-range fields.
pub proof fn lemma_decode_bounded(op: u16)
    ensures
        bounded(spec_decode(op)),
{
}

/// Decode one opcode into its operation and operand fields.
pub fn decode(op: u16) -> (r: Instr)
    ensures
        r == spec_decode(op),
{
    let x: u8 = ((op / 0x100) % 16) as u8;
    let y: u8 = ((op / 16) % 16) as u8;
    let n: u8 = (op % 16) as u8;
    let nn: u8 = (op % 256) as u8;
    let nnn: u16 = op % 0x1000;
    match op / 0x1000 {
        0x0 => if nn == 0xE0 {
            Instr::Cls
        } else if nn == 0xEE {
            Instr::Ret
        } else {
            Instr::Unknown(op)
        },
        0x1 => Instr::Jp(nnn),
        0x2 => Instr::Call(nnn),
        0x3 => Instr::SeImm(x, nn),
        0x4 => Instr::SneImm(x, nn),
        0x5 => Instr::SeReg(x, y),
        0x6 => Instr::LdImm(x, nn),
        0x7 => Instr::AddImm(x, nn),
        0x8 => match n {
            0x0 => Instr::LdReg(x, y),
            0x1 => Instr::Or(x, y),
            0x2 => Instr::And(x, y),
            0x3 => Instr::Xor(x, y),
            0x4 => Instr::AddReg(x, y),
            0x5 => Instr::SubReg(x, y),
            0x6 => Instr::Shr(x),
            0x7 => Instr::SubN(x, y),
            0xE => Instr::Shl(x),
            _ => Instr::Unknown(op),
        },
        0x9 => Instr::SneReg(x, y),
        0xA => Instr::LdI(nnn),
        0xB => Instr::JpV0(nnn),
        0xC => Instr::Rnd(x, nn),
        0xD => Instr::Drw(x, y, n),
        0xE => if nn == 0x9E {
            Instr::Skp(x)
        } else if nn == 0xA1 {
            Instr::Sknp(x)
        } else {
            Instr::Unknown(op)
        },
        0xF => match nn {
            0x07 => Instr::LdVxDt(x),
            0x0A => Instr::LdVxKey(x),
            0x15 => Instr::LdDtVx(x),
            0x18 => Instr::LdStVx(x),
            0x1E => Instr::AddIVx(x),
            0x29 => Instr::LdFontVx(x),
            0x33 => Instr::StoreBcd(x),
            0x55 => Instr::StoreRegs(x),
            0x65 => Instr::LoadRegs(x),
            _ => Instr::Unknown(op),
        },
        _ => Instr::Unknown(op),
    }
}

} // verus!

//! The disassembler: a pure function from an opcode to a fixed-format
//! mnemonic, sharing the executor's decoder so the two stay in
//! lockstep. Register operands render as `V` plus one hex digit,
//! immediates as zero-padded hex.

use vstd::prelude::*;
use vstd::string::*;
use crate::decode::{decode, lemma_decode_bounded, op_family, op_nnn, spec_decode, Instr};

verus! {

/// One upper-case hex digit.
pub open spec fn spec_hex_digit(d: int) -> Seq<char> {
    if d == 0 {
        "0"@
    } else if d == 1 {
        "1"@
    } else if d == 2 {
        "2"@
    } else if d == 3 {
        "3"@
    } else if d == 4 {
        "4"@
    } else if d == 5 {
        "5"@
    } else if d == 6 {
        "6"@
    } else if d == 7 {
        "7"@
    } else if d == 8 {
        "8"@
    } else if d == 9 {
        "9"@
    } else if d == 10 {
        "A"@
    } else if d == 11 {
        "B"@
    } else if d == 12 {
        "C"@
    } else if d == 13 {
        "D"@
    } else if d == 14 {
        "E"@
    } else {
        "F"@
    }
}

/// A byte as `0x` and two hex digits.
pub open spec fn spec_hex2(v: int) -> Seq<char> {
    "0x"@ + spec_hex_digit(v / 16) + spec_hex_digit(v % 16)
}

/// A twelve-bit address as `0x` and three hex digits.
pub open spec fn spec_hex3(v: int) -> Seq<char> {
    "0x"@ + spec_hex_digit(v / 256) + spec_hex_digit(v / 16 % 16) + spec_hex_digit(v % 16)
}

/// The mnemonic of an opcode: one fixed spelling per row of the
/// instruction table, and an explicit unknown marker, per family, for
/// every byte pattern outside it.
pub open spec fn spec_disasm(op: u16) -> Seq<char> {
    match spec_decode(op) {
        Instr::Cls => "CLS"@,
        Instr::Ret => "RET"@,
        Instr::Jp(nnn) => "JP   "@ + spec_hex3(nnn as int),
        Instr::Call(nnn) => "CALL "@ + spec_hex3(nnn as int),
        Instr::SeImm(x, nn) => "SE   V"@ + spec_hex_digit(x as int) + ", "@ + spec_hex2(nn as int),
        Instr::SneImm(x, nn) => "SNE  V"@ + spec_hex_digit(x as int) + ", "@ + spec_hex2(nn as int),
        Instr::SeReg(x, y) => "SE   V"@ + spec_hex_digit(x as int) + ", V"@ + spec_hex_digit(
            y as int,
        ),
        Instr::LdImm(x, nn) => "LD   V"@ + spec_hex_digit(x as int) + ", "@ + spec_hex2(nn as int),
        Instr::AddImm(x, nn) => "ADD  V"@ + spec_hex_digit(x as int) + ", "@ + spec_hex2(nn as int),
        Instr::LdReg(x, y) => "LD   V"@ + spec_hex_digit(x as int) + ", V"@ + spec_hex_digit(
            y as int,
        ),
        Instr::Or(x, y) => "OR   V"@ + spec_hex_digit(x as int) + ", V"@ + spec_hex_digit(y as int),
        Instr::And(x, y) => "AND  V"@ + spec_hex_digit(x as int) + ", V"@ + spec_hex_digit(
            y as int,
        ),
        Instr::Xor(x, y) => "XOR  V"@ + spec_hex_digit(x as int) + ", V"@ + spec_hex_digit(
            y as int,
        ),
        Instr::AddReg(x, y) => "ADD  V"@ + spec_hex_digit(x as int) + ", V"@ + spec_hex_digit(
            y as int,
        ),
        Instr::SubReg(x, y) => "SUB  V"@ + spec_hex_digit(x as int) + ", V"@ + spec_hex_digit(
            y as int,
        ),
        Instr::Shr(x) => "SHR  V"@ + spec_hex_digit(x as int),
        Instr::SubN(x, y) => "SUBN V"@ + spec_hex_digit(x as int) + ", V"@ + spec_hex_digit(
            y as int,
        ),
        Instr::Shl(x) => "SHL  V"@ + spec_hex_digit(x as int),
        Instr::SneReg(x, y) => "SNE  V"@ + spec_hex_digit(x as int) + ", V"@ + spec_hex_digit(
            y as int,
        ),
        Instr::LdI(nnn) => "LD   I, "@ + spec_hex3(nnn as int),
        Instr::JpV0(nnn) => "JP   V0, "@ + spec_hex3(nnn as int),
        Instr::Rnd(x, nn) => "RND  V"@ + spec_hex_digit(x as int) + ", "@ + spec_hex2(nn as int),
        Instr::Drw(x, y, n) => "DRW  V"@ + spec_hex_digit(x as int) + ", V"@ + spec_hex_digit(
            y as int,
        ) + ", "@ + spec_hex_digit(n as int),
        Instr::Skp(x) => "SKP  V"@ + spec_hex_digit(x as int),
        Instr::Sknp(x) => "SKNP V"@ + spec_hex_digit(x as int),
        Instr::LdVxDt(x) => "LD   V"@ + spec_hex_digit(x as int) + ", DT"@,
        Instr::LdVxKey(x) => "LD   V"@ + spec_hex_digit(x as int) + ", K"@,
        Instr::LdDtVx(x) => "LD   DT, V"@ + spec_hex_digit(x as int),
        Instr::LdStVx(x) => "LD   ST, V"@ + spec_hex_digit(x as int),
        Instr::AddIVx(x) => "ADD  I, V"@ + spec_hex_digit(x as int),
        Instr::LdFontVx(x) => "LD   F, V"@ + spec_hex_digit(x as int),
        Instr::StoreBcd(x) => "LD   B, V"@ + spec_hex_digit(x as int),
        Instr::StoreRegs(x) => "LD   [I], V"@ + spec_hex_digit(x as int),
        Instr::LoadRegs(x) => "LD   V"@ + spec_hex_digit(x as int) + ", [I]"@,
        Instr::Unknown(raw) => if op_family(raw) == 0 {
            "SYS  "@ + spec_hex3(op_nnn(raw) as int)
        } else if op_family(raw) == 8 {
            "UNKNOWN 8.."@
        } else if op_family(raw) == 0xE {
            "UNKNOWN E.."@
        } else if op_family(raw) == 0xF {
            "UNKNOWN F.."@
        } else {
            "UNKNOWN"@
        },
    }
}

/// One upper-case hex digit.
fn hex_digit_str(d: u8) -> (s: &'static str)
    requires
        d < 16,
    ensures
        s@ == spec_hex_digit(d as int),
{
    match d {
        0 => "0",
        1 => "1",
        2 => "2",
        3 => "3",
        4 => "4",
        5 => "5",
        6 => "6",
        7 => "7",
        8 => "8",
        9 => "9",
        10 => "A",
        11 => "B",
        12 => "C",
        13 => "D",
        14 => "E",
        _ => "F",
    }
}

/// A byte as `0x` and two hex digits.
fn hex2(v: u8) -> (s: String)
    ensures
        s@ == spec_hex2(v as int),
{
    "0x".to_owned().concat(hex_digit_str(v / 16)).concat(hex_digit_str(v % 16))
}

/// A twelve-bit address as `0x` and three hex digits.
fn hex3(v: u16) -> (s: String)
    requires
        v < 0x1000,
    ensures
        s@ == spec_hex3(v as int),
{
    "0x".to_owned().concat(hex_digit_str((v / 256) as u8)).concat(
        hex_digit_str((v / 16 % 16) as u8),
    ).concat(hex_digit_str((v % 16) as u8))
}

/// Render one opcode as its mnemonic. Pure: same opcode, same text, no
/// machine state involved.
pub fn disassemble(op: u16) -> (s: String)
    ensures
        s@ == spec_disasm(op),
{
    proof {
        lemma_decode_bounded(op);
    }
    match decode(op) {
        Instr::Cls => "CLS".to_owned(),
        Instr::Ret => "RET".to_owned(),
        Instr::Jp(nnn) => "JP   ".to_owned().concat(hex3(nnn).as_str()),
        Instr::Call(nnn) => "CALL ".to_owned().concat(hex3(nnn).as_str()),
        Instr::SeImm(x, nn) => "SE   V".to_owned().concat(hex_digit_str(x)).concat(", ").concat(
            hex2(nn).as_str(),
        ),
        Instr::SneImm(x, nn) => "SNE  V".to_owned().concat(hex_digit_str(x)).concat(", ").concat(
            hex2(nn).as_str(),
        ),
        Instr::SeReg(x, y) => "SE   V".to_owned().concat(hex_digit_str(x)).concat(", V").concat(
            hex_digit_str(y),
        ),
        Instr::LdImm(x, nn) => "LD   V".to_owned().concat(hex_digit_str(x)).concat(", ").concat(
            hex2(nn).as_str(),
        ),
        Instr::AddImm(x, nn) => "ADD  V".to_owned().concat(hex_digit_str(x)).concat(", ").concat(
            hex2(nn).as_str(),
        ),
        Instr::LdReg(x, y) => "LD   V".to_owned().concat(hex_digit_str(x)).concat(", V").concat(
            hex_digit_str(y),
        ),
        Instr::Or(x, y) => "OR   V".to_owned().concat(hex_digit_str(x)).concat(", V").concat(
            hex_digit_str(y),
        ),
        Instr::And(x, y) => "AND  V".to_owned().concat(hex_digit_str(x)).concat(", V").concat(
            hex_digit_str(y),
        ),
        Instr::Xor(x, y) => "XOR  V".to_owned().concat(hex_digit_str(x)).concat(", V").concat(
            hex_digit_str(y),
        ),
        Instr::AddReg(x, y) => "ADD  V".to_owned().concat(hex_digit_str(x)).concat(", V").concat(
            hex_digit_str(y),
        ),
        Instr::SubReg(x, y) => "SUB  V".to_owned().concat(hex_digit_str(x)).concat(", V").concat(
            hex_digit_str(y),
        ),
        Instr::Shr(x) => "SHR  V".to_owned().concat(hex_digit_str(x)),
        Instr::SubN(x, y) => "SUBN V".to_owned().concat(hex_digit_str(x)).concat(", V").concat(
            hex_digit_str(y),
        ),
        Instr::Shl(x) => "SHL  V".to_owned().concat(hex_digit_str(x)),
        Instr::SneReg(x, y) => "SNE  V".to_owned().concat(hex_digit_str(x)).concat(", V").concat(
            hex_digit_str(y),
        ),
        Instr::LdI(nnn) => "LD   I, ".to_owned().concat(hex3(nnn).as_str()),
        Instr::JpV0(nnn) => "JP   V0, ".to_owned().concat(hex3(nnn).as_str()),
        Instr::Rnd(x, nn) => "RND  V".to_owned().concat(hex_digit_str(x)).concat(", ").concat(
            hex2(nn).as_str(),
        ),
        Instr::Drw(x, y, n) => "DRW  V".to_owned().concat(hex_digit_str(x)).concat(", V").concat(
            hex_digit_str(y),
        ).concat(", ").concat(hex_digit_str(n)),
        Instr::Skp(x) => "SKP  V".to_owned().concat(hex_digit_str(x)),
        Instr::Sknp(x) => "SKNP V".to_owned().concat(hex_digit_str(x)),
        Instr::LdVxDt(x) => "LD   V".to_owned().concat(hex_digit_str(x)).concat(", DT"),
        Instr::LdVxKey(x) => "LD   V".to_owned().concat(hex_digit_str(x)).concat(", K"),
        Instr::LdDtVx(x) => "LD   DT, V".to_owned().concat(hex_digit_str(x)),
        Instr::LdStVx(x) => "LD   ST, V".to_owned().concat(hex_digit_str(x)),
        Instr::AddIVx(x) => "ADD  I, V".to_owned().concat(hex_digit_str(x)),
        Instr::LdFontVx(x) => "LD   F, V".to_owned().concat(hex_digit_str(x)),
        Instr::StoreBcd(x) => "LD   B, V".to_owned().concat(hex_digit_str(x)),
        Instr::StoreRegs(x) => "LD   [I], V".to_owned().concat(hex_digit_str(x)),
        Instr::LoadRegs(x) => "LD   V".to_owned().concat(hex_digit_str(x)).concat(", [I]"),
        Instr::Unknown(raw) => {
            let family = raw / 0x1000;
            if family == 0 {
                "SYS  ".to_owned().concat(hex3(raw % 0x1000).as_str())
            } else if family == 8 {
                "UNKNOWN 8..".to_owned()
            } else if family == 0xE {
                "UNKNOWN E..".to_owned()
            } else if family == 0xF {
                "UNKNOWN F..".to_owned()
            } else {
                "UNKNOWN".to_owned()
            }
        },
    }
}

} // verus!

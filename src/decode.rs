//! Decoding of one 32-bit instruction word.
use vstd::prelude::*;

verus! {

/// The structural layout of an instruction word.
#[derive(Clone, Copy, Debug, PartialEq, Eq, Structural)]
pub enum Format {
    RegisterRegister,
    Immediate,
    DataTransfer,
    UnconditionalBranch,
    ConditionalBranch,
    WideImmediateMove,
    ZeroOperand,
    Unrecognized,
}

/// The operation named by an instruction word.
#[derive(Clone, Copy, Debug, PartialEq, Eq, Structural)]
pub enum Mnemonic {
    B,
    BCond,
    And,
    Add,
    Addi,
    Andi,
    Bl,
    Mul,
    Orr,
    Orri,
    Cbz,
    Cbnz,
    Eor,
    Sub,
    Subi,
    Eori,
    Lsr,
    Lsl,
    Br,
    Subs,
    Subis,
    Movk,
    Stur,
    Ldur,
    Prnl,
    Prnt,
    Dump,
    Halt,
    Unknown,
}

impl Mnemonic {
    /// The assembly spelling of the mnemonic (`"B."` for the conditional
    /// branch, whose condition suffix is appended when rendering).
    pub open spec fn spec_text(self) -> Seq<char> {
        match self {
            Mnemonic::B => "B"@,
            Mnemonic::BCond => "B."@,
            Mnemonic::And => "AND"@,
            Mnemonic::Add => "ADD"@,
            Mnemonic::Addi => "ADDI"@,
            Mnemonic::Andi => "ANDI"@,
            Mnemonic::Bl => "BL"@,
            Mnemonic::Mul => "MUL"@,
            Mnemonic::Orr => "ORR"@,
            Mnemonic::Orri => "ORRI"@,
            Mnemonic::Cbz => "CBZ"@,
            Mnemonic::Cbnz => "CBNZ"@,
            Mnemonic::Eor => "EOR"@,
            Mnemonic::Sub => "SUB"@,
            Mnemonic::Subi => "SUBI"@,
            Mnemonic::Eori => "EORI"@,
            Mnemonic::Lsr => "LSR"@,
            Mnemonic::Lsl => "LSL"@,
            Mnemonic::Br => "BR"@,
            Mnemonic::Subs => "SUBS"@,
            Mnemonic::Subis => "SUBIS"@,
            Mnemonic::Movk => "MOVK"@,
            Mnemonic::Stur => "STUR"@,
            Mnemonic::Ldur => "LDUR"@,
            Mnemonic::Prnl => "PRNL"@,
            Mnemonic::Prnt => "PRNT"@,
            Mnemonic::Dump => "DUMP"@,
            Mnemonic::Halt => "HALT"@,
            Mnemonic::Unknown => "Unknown"@,
        }
    }

    /// The assembly spelling of the mnemonic.
    pub fn text(&self) -> (r: &'static str)
        ensures
            r@ == self.spec_text(),
    {
        match self {
            Mnemonic::B => "B",
            Mnemonic::BCond => "B.",
            Mnemonic::And => "AND",
            Mnemonic::Add => "ADD",
            Mnemonic::Addi => "ADDI",
            Mnemonic::Andi => "ANDI",
            Mnemonic::Bl => "BL",
            Mnemonic::Mul => "MUL",
            Mnemonic::Orr => "ORR",
            Mnemonic::Orri => "ORRI",
            Mnemonic::Cbz => "CBZ",
            Mnemonic::Cbnz => "CBNZ",
            Mnemonic::Eor => "EOR",
            Mnemonic::Sub => "SUB",
            Mnemonic::Subi => "SUBI",
            Mnemonic::Eori => "EORI",
            Mnemonic::Lsr => "LSR",
            Mnemonic::Lsl => "LSL",
            Mnemonic::Br => "BR",
            Mnemonic::Subs => "SUBS",
            Mnemonic::Subis => "SUBIS",
            Mnemonic::Movk => "MOVK",
            Mnemonic::Stur => "STUR",
            Mnemonic::Ldur => "LDUR",
            Mnemonic::Prnl => "PRNL",
            Mnemonic::Prnt => "PRNT",
            Mnemonic::Dump => "DUMP",
            Mnemonic::Halt => "HALT",
            Mnemonic::Unknown => "Unknown",
        }
    }
}

/// The 11-bit primary opcode field, bits [31:21] of the word.
pub open spec fn primary_field(w: u32) -> u32 {
    (w >> 21u32) & 0x7ffu32
}

/// The opcode table: the format and mnemonic selected by a primary opcode
/// field. Ranges are disjoint; anything outside them is unrecognized.
pub open spec fn opcode_table(p: u32) -> (Format, Mnemonic) {
    if 0x0a0 <= p <= 0x0bf {
        (Format::UnconditionalBranch, Mnemonic::B)
    } else if 0x2a0 <= p <= 0x2a7 {
        (Format::ConditionalBranch, Mnemonic::BCond)
    } else if p == 0x450 {
        (Format::RegisterRegister, Mnemonic::And)
    } else if p == 0x458 {
        (Format::RegisterRegister, Mnemonic::Add)
    } else if 0x488 <= p <= 0x489 {
        (Format::Immediate, Mnemonic::Addi)
    } else if 0x490 <= p <= 0x491 {
        (Format::Immediate, Mnemonic::Andi)
    } else if 0x4a0 <= p <= 0x4bf {
        (Format::UnconditionalBranch, Mnemonic::Bl)
    } else if p == 0x4d8 {
        (Format::RegisterRegister, Mnemonic::Mul)
    } else if p == 0x550 {
        (Format::RegisterRegister, Mnemonic::Orr)
    } else if 0x590 <= p <= 0x591 {
        (Format::Immediate, Mnemonic::Orri)
    } else if 0x5a0 <= p <= 0x5a7 {
        (Format::ConditionalBranch, Mnemonic::Cbz)
    } else if 0x5a8 <= p <= 0x5af {
        (Format::ConditionalBranch, Mnemonic::Cbnz)
    } else if p == 0x650 {
        (Format::RegisterRegister, Mnemonic::Eor)
    } else if p == 0x658 {
        (Format::RegisterRegister, Mnemonic::Sub)
    } else if 0x688 <= p <= 0x689 {
        (Format::Immediate, Mnemonic::Subi)
    } else if 0x690 <= p <= 0x691 {
        (Format::Immediate, Mnemonic::Eori)
    } else if p == 0x69a {
        (Format::RegisterRegister, Mnemonic::Lsr)
    } else if p == 0x69b {
        (Format::RegisterRegister, Mnemonic::Lsl)
    } else if p == 0x6b0 {
        (Format::RegisterRegister, Mnemonic::Br)
    } else if p == 0x758 {
        (Format::RegisterRegister, Mnemonic::Subs)
    } else if 0x788 <= p <= 0x789 {
        (Format::Immediate, Mnemonic::Subis)
    } else if 0x794 <= p <= 0x797 {
        (Format::WideImmediateMove, Mnemonic::Movk)
    } else if p == 0x7c0 {
        (Format::DataTransfer, Mnemonic::Stur)
    } else if p == 0x7c2 {
        (Format::DataTransfer, Mnemonic::Ldur)
    } else if p == 0x7fc {
        (Format::ZeroOperand, Mnemonic::Prnl)
    } else if p == 0x7fd {
        (Format::ZeroOperand, Mnemonic::Prnt)
    } else if p == 0x7fe {
        (Format::ZeroOperand, Mnemonic::Dump)
    } else if p == 0x7ff {
        (Format::ZeroOperand, Mnemonic::Halt)
    } else {
        (Format::Unrecognized, Mnemonic::Unknown)
    }
}

/// Bit `pos` of `w` is set.
pub open spec fn bit_set(w: u32, pos: u32) -> bool {
    w & (1u32 << pos) != 0
}

/// The unsigned 5-bit register field of `w` whose lowest bit is `lo`.
pub open spec fn reg_field(w: u32, lo: u32) -> u8 {
    ((w >> lo) & 31u32) as u8
}

/// The immediate whose bits below the sign bit `sign` start at bit `last`:
/// those `sign - last` bits, read unsigned, less `2^(sign - last)` when the
/// sign bit is set (two's complement over `sign - last + 1` bits).
pub open spec fn signed_field(w: u32, sign: u32, last: u32) -> int {
    let width = (sign - last) as u32;
    let raw = (w >> last) & (((1u32 << width) - 1) as u32);
    if bit_set(w, sign) {
        raw as int - (1u32 << width) as int
    } else {
        raw as int
    }
}

/// A decoded instruction. Only the fields that the format gives meaning
/// to are present (see [`Instr::wf`]); an absent field is `None`, never 0.
#[derive(Clone, Copy, Debug, PartialEq, Eq)]
pub struct Instr {
    pub opcode: Mnemonic,
    pub instr_type: Format,
    pub rm: Option<u8>,
    pub rn: Option<u8>,
    pub rd: Option<u8>,
    pub rt: Option<u8>,
    pub imm: Option<i32>,
}

/// The record that decoding the word `w` produces.
pub open spec fn decoded(w: u32) -> Instr {
    let (t, m) = opcode_table(primary_field(w));
    Instr {
        opcode: m,
        instr_type: t,
        rm: if t == Format::RegisterRegister {
            Some(reg_field(w, 16))
        } else {
            None
        },
        rn: if t == Format::RegisterRegister || t == Format::Immediate || t
            == Format::DataTransfer {
            Some(reg_field(w, 5))
        } else {
            None
        },
        rd: if t == Format::RegisterRegister || t == Format::Immediate || t
            == Format::WideImmediateMove || m == Mnemonic::Prnt {
            Some(reg_field(w, 0))
        } else {
            None
        },
        rt: if t == Format::DataTransfer || t == Format::ConditionalBranch {
            Some(reg_field(w, 0))
        } else {
            None
        },
        imm: match t {
            Format::RegisterRegister => Some(signed_field(w, 15, 10) as i32),
            Format::Immediate => Some(signed_field(w, 21, 10) as i32),
            Format::DataTransfer => Some(signed_field(w, 20, 12) as i32),
            Format::UnconditionalBranch => Some(signed_field(w, 25, 0) as i32),
            Format::ConditionalBranch => Some(signed_field(w, 23, 5) as i32),
            Format::WideImmediateMove => Some(signed_field(w, 20, 5) as i32),
            _ => None,
        },
    }
}

/// Computes `signed_field(data, sign_bit, last_bit)`.
fn sign_extend(data: u32, sign_bit: u32, last_bit: u32) -> (r: i32)
    requires
        last_bit < sign_bit < 32,
        sign_bit - last_bit <= 30,
    ensures
        r as int == signed_field(data, sign_bit, last_bit),
{
    let width: u32 = sign_bit - last_bit;
    assert(1u32 <= (1u32 << width) <= 0x4000_0000u32) by (bit_vector)
        requires
            width <= 30,
    ;
    let top: u32 = 1u32 << width;
    let raw: u32 = (data >> last_bit) & (top - 1);
    assert(((data >> last_bit) & ((top - 1) as u32)) < top) by (bit_vector)
        requires
            top >= 1,
    ;
    if data & (1u32 << sign_bit) != 0 {
        raw as i32 - top as i32
    } else {
        raw as i32
    }
}

impl Instr {
    /// The fields present are exactly those that the format gives meaning
    /// to, registers are 5-bit values, and the format agrees with the
    /// mnemonic's entry in the opcode table.
    pub open spec fn wf(self) -> bool {
        let t = self.instr_type;
        &&& exists|p: u32| opcode_table(p) == (t, self.opcode)
        &&& self.rm.is_some() == (t == Format::RegisterRegister)
        &&& self.rn.is_some() == (t == Format::RegisterRegister || t == Format::Immediate || t
            == Format::DataTransfer)
        &&& self.rd.is_some() == (t == Format::RegisterRegister || t == Format::Immediate || t
            == Format::WideImmediateMove || self.opcode == Mnemonic::Prnt)
        &&& self.rt.is_some() == (t == Format::DataTransfer || t == Format::ConditionalBranch)
        &&& self.imm.is_some() == (t != Format::ZeroOperand && t != Format::Unrecognized)
        &&& self.rm.is_some() ==> self.rm.unwrap() < 32
        &&& self.rn.is_some() ==> self.rn.unwrap() < 32
        &&& self.rd.is_some() ==> self.rd.unwrap() < 32
        &&& self.rt.is_some() ==> self.rt.unwrap() < 32
    }

    /// Decodes one instruction word. Every word decodes: an opcode outside
    /// the table gives `Unknown` with no operand fields.
    pub fn new(data: u32) -> (r: Instr)
        ensures
            r == decoded(data),
            r.wf(),
    {
        let (instr_type, opcode) = Instr::get_opcode(data);
        let imm = match instr_type {
            Format::RegisterRegister => Some(sign_extend(data, 15, 10)),
            Format::Immediate => Some(sign_extend(data, 21, 10)),
            Format::DataTransfer => Some(sign_extend(data, 20, 12)),
            Format::UnconditionalBranch => Some(sign_extend(data, 25, 0)),
            Format::ConditionalBranch => Some(sign_extend(data, 23, 5)),
            Format::WideImmediateMove => Some(sign_extend(data, 20, 5)),
            _ => None,
        };
        let rd_field: u8 = (data & 31) as u8;
        let rn_field: u8 = ((data >> 5) & 31) as u8;
        let rm_field: u8 = ((data >> 16) & 31) as u8;
        assert(data & 31 < 32 && (data >> 5) & 31 < 32 && (data >> 16) & 31 < 32) by (bit_vector);
        assert(data >> 0u32 == data) by (bit_vector);
        let r = Instr {
            opcode,
            instr_type,
            rm: match instr_type {
                Format::RegisterRegister => Some(rm_field),
                _ => None,
            },
            rn: match instr_type {
                Format::RegisterRegister | Format::Immediate | Format::DataTransfer => Some(
                    rn_field,
                ),
                _ => None,
            },
            rd: match instr_type {
                Format::RegisterRegister | Format::Immediate | Format::WideImmediateMove => Some(
                    rd_field,
                ),
                _ => match opcode {
                    Mnemonic::Prnt => Some(rd_field),
                    _ => None,
                },
            },
            rt: match instr_type {
                Format::DataTransfer | Format::ConditionalBranch => Some(rd_field),
                _ => None,
            },
            imm,
        };
        r
    }

    /// Looks the primary opcode field of `data` up in the opcode table.
    pub fn get_opcode(data: u32) -> (r: (Format, Mnemonic))
        ensures
            r == opcode_table(primary_field(data)),
    {
        let opcode: u32 = (data >> 21) & 2047;
        if 0x0a0 <= opcode && opcode <= 0x0bf {
            (Format::UnconditionalBranch, Mnemonic::B)
        } else if 0x2a0 <= opcode && opcode <= 0x2a7 {
            (Format::ConditionalBranch, Mnemonic::BCond)
        } else if opcode == 0x450 {
            (Format::RegisterRegister, Mnemonic::And)
        } else if opcode == 0x458 {
            (Format::RegisterRegister, Mnemonic::Add)
        } else if 0x488 <= opcode && opcode <= 0x489 {
            (Format::Immediate, Mnemonic::Addi)
        } else if 0x490 <= opcode && opcode <= 0x491 {
            (Format::Immediate, Mnemonic::Andi)
        } else if 0x4a0 <= opcode && opcode <= 0x4bf {
            (Format::UnconditionalBranch, Mnemonic::Bl)
        } else if opcode == 0x4d8 {
            (Format::RegisterRegister, Mnemonic::Mul)
        } else if opcode == 0x550 {
            (Format::RegisterRegister, Mnemonic::Orr)
        } else if 0x590 <= opcode && opcode <= 0x591 {
            (Format::Immediate, Mnemonic::Orri)
        } else if 0x5a0 <= opcode && opcode <= 0x5a7 {
            (Format::ConditionalBranch, Mnemonic::Cbz)
        } else if 0x5a8 <= opcode && opcode <= 0x5af {
            (Format::ConditionalBranch, Mnemonic::Cbnz)
        } else if opcode == 0x650 {
            (Format::RegisterRegister, Mnemonic::Eor)
        } else if opcode == 0x658 {
            (Format::RegisterRegister, Mnemonic::Sub)
        } else if 0x688 <= opcode && opcode <= 0x689 {
            (Format::Immediate, Mnemonic::Subi)
        } else if 0x690 <= opcode && opcode <= 0x691 {
            (Format::Immediate, Mnemonic::Eori)
        } else if opcode == 0x69a {
            (Format::RegisterRegister, Mnemonic::Lsr)
        } else if opcode == 0x69b {
            (Format::RegisterRegister, Mnemonic::Lsl)
        } else if opcode == 0x6b0 {
            (Format::RegisterRegister, Mnemonic::Br)
        } else if opcode == 0x758 {
            (Format::RegisterRegister, Mnemonic::Subs)
        } else if 0x788 <= opcode && opcode <= 0x789 {
            (Format::Immediate, Mnemonic::Subis)
        } else if 0x794 <= opcode && opcode <= 0x797 {
            (Format::WideImmediateMove, Mnemonic::Movk)
        } else if opcode == 0x7c0 {
            (Format::DataTransfer, Mnemonic::Stur)
        } else if opcode == 0x7c2 {
            (Format::DataTransfer, Mnemonic::Ldur)
        } else if opcode == 0x7fc {
            (Format::ZeroOperand, Mnemonic::Prnl)
        } else if opcode == 0x7fd {
            (Format::ZeroOperand, Mnemonic::Prnt)
        } else if opcode == 0x7fe {
            (Format::ZeroOperand, Mnemonic::Dump)
        } else if opcode == 0x7ff {
            (Format::ZeroOperand, Mnemonic::Halt)
        } else {
            (Format::Unrecognized, Mnemonic::Unknown)
        }
    }
}

} // verus!

//! Laws that the decoder and the renderer obey together.
use crate::decode::{decoded, opcode_table, primary_field, reg_field, Format, Instr, Mnemonic};
use crate::render::{
    cond_suffix, has_label, is_branch, label_name, line_text, reg_text, slot_label, target,
};
use crate::text::{lemma_nat_text_injective, nat_text};
use vstd::prelude::*;

verus! {

/// `suffix` stands at the end of `s`.
pub open spec fn ends_with(s: Seq<char>, suffix: Seq<char>) -> bool {
    suffix.len() <= s.len() && s.subrange(s.len() - suffix.len(), s.len() as int) == suffix
}

/// The format and mnemonic of a word depend on its primary opcode field
/// alone: two words that agree on bits [31:21] classify alike, whatever
/// their register and immediate bits.
pub proof fn lemma_classification_by_primary_field(w1: u32, w2: u32)
    requires
        primary_field(w1) == primary_field(w2),
    ensures
        decoded(w1).instr_type == decoded(w2).instr_type,
        decoded(w1).opcode == decoded(w2).opcode,
{
}

/// Decoding a register-register word built from registers `rm`, `rn`, `rd`
/// (and any 6-bit shift amount) recovers exactly those registers.
pub proof fn lemma_register_fields_round_trip(p: u32, rm: u32, shamt: u32, rn: u32, rd: u32)
    requires
        p < 0x800,
        opcode_table(p).0 == Format::RegisterRegister,
        rm < 32,
        shamt < 64,
        rn < 32,
        rd < 32,
    ensures
        ({
            let ins = decoded((p << 21) | (rm << 16) | (shamt << 10) | (rn << 5) | rd);
            &&& ins.instr_type == Format::RegisterRegister
            &&& ins.opcode == opcode_table(p).1
            &&& ins.rm == Some(rm as u8)
            &&& ins.rn == Some(rn as u8)
            &&& ins.rd == Some(rd as u8)
            &&& ins.rt is None
        }),
{
    let w = (p << 21) | (rm << 16) | (shamt << 10) | (rn << 5) | rd;
    assert(((w >> 21u32) & 0x7ffu32) == p && ((w >> 16u32) & 31u32) == rm && ((w >> 5u32) & 31u32)
        == rn && ((w >> 0u32) & 31u32) == rd) by (bit_vector)
        requires
            w == (p << 21) | (rm << 16) | (shamt << 10) | (rn << 5) | rd,
            p < 0x800,
            rm < 32,
            shamt < 64,
            rn < 32,
            rd < 32,
    ;
    assert(reg_field(w, 16) == rm as u8);
    assert(reg_field(w, 5) == rn as u8);
    assert(reg_field(w, 0) == rd as u8);
}

/// An unconditional branch `B` whose 26-bit offset field holds the two's
/// complement of `offset` decodes to exactly `offset`.
pub proof fn lemma_branch_offset_round_trip(offset: i32)
    requires
        -0x200_0000 <= offset < 0x200_0000,
    ensures
        ({
            let ins = decoded(0x1400_0000u32 | ((offset as u32) & 0x3ff_ffffu32));
            &&& ins.instr_type == Format::UnconditionalBranch
            &&& ins.opcode == Mnemonic::B
            &&& ins.imm == Some(offset)
        }),
{
    let w = 0x1400_0000u32 | ((offset as u32) & 0x3ff_ffffu32);
    assert(0xa0 <= ((w >> 21u32) & 0x7ffu32) <= 0xbf) by (bit_vector)
        requires
            w == 0x1400_0000u32 | ((offset as u32) & 0x3ff_ffffu32),
    ;
    assert(1u32 << 25u32 == 0x200_0000u32) by (bit_vector);
    assert(((1u32 << 25u32) - 1) as u32 == 0x1ff_ffffu32) by (bit_vector);
    assert(w >> 0u32 == w) by (bit_vector);
    if offset >= 0 {
        assert(w & 0x200_0000u32 == 0 && (w & 0x1ff_ffffu32) == offset as u32) by (bit_vector)
            requires
                w == 0x1400_0000u32 | ((offset as u32) & 0x3ff_ffffu32),
                0 <= offset < 0x200_0000,
        ;
    } else {
        assert(w & 0x200_0000u32 != 0 && (w & 0x1ff_ffffu32) == (offset + 0x200_0000i32) as u32)
            by (bit_vector)
            requires
                w == 0x1400_0000u32 | ((offset as u32) & 0x3ff_ffffu32),
                -0x200_0000 <= offset < 0,
        ;
    }
}

/// Two branches that target the same slot name the same label, and among
/// all slots of the rendered program only that slot defines it.
pub proof fn lemma_shared_label(prog: Seq<Instr>, i: int, j: int)
    requires
        0 <= i < prog.len(),
        0 <= j < prog.len(),
        is_branch(prog[i]),
        is_branch(prog[j]),
        target(prog[i], i) == target(prog[j], j),
        0 <= target(prog[i], i) <= prog.len(),
    ensures
        ({
            let t = target(prog[i], i);
            &&& ends_with(line_text(prog[i], t as nat), label_name(t as nat))
            &&& ends_with(line_text(prog[j], t as nat), label_name(t as nat))
            &&& slot_label(prog, t) == Some(label_name(t as nat))
            &&& forall|s: int|
                0 <= s <= prog.len() && s != t ==> #[trigger] slot_label(prog, s) != Some(
                    label_name(t as nat),
                )
        }),
{
    let t = target(prog[i], i);
    lemma_branch_line_ends_with_label(prog[i], t as nat);
    lemma_branch_line_ends_with_label(prog[j], t as nat);
    assert(has_label(prog, t));
    assert forall|s: int|
        0 <= s <= prog.len() && s != t implies #[trigger] slot_label(prog, s) != Some(
        label_name(t as nat),
    ) by {
        if slot_label(prog, s) == Some(label_name(t as nat)) {
            lemma_label_name_injective(s as nat, t as nat);
        }
    }
}

proof fn lemma_branch_line_ends_with_label(ins: Instr, to: nat)
    requires
        is_branch(ins),
    ensures
        ends_with(line_text(ins, to), label_name(to)),
{
    let l = line_text(ins, to);
    let n = label_name(to);
    let head = l.subrange(0, l.len() - n.len());
    assert(l =~= head + n) by {
        if ins.instr_type == Format::UnconditionalBranch {
            assert(l == (ins.opcode.spec_text() + " "@) + n);
        } else if ins.opcode == Mnemonic::BCond {
            assert(l == (ins.opcode.spec_text() + cond_suffix(ins.rt.unwrap()) + " "@) + n);
        } else {
            assert(l == (ins.opcode.spec_text() + " "@ + reg_text(ins.rt.unwrap()) + ", "@) + n);
        }
    }
    assert(l.subrange(l.len() - n.len(), l.len() as int) =~= n);
}

/// Distinct slots have distinct labels.
pub proof fn lemma_label_name_injective(a: nat, b: nat)
    requires
        label_name(a) == label_name(b),
    ensures
        a == b,
{
    let p = "instr"@;
    assert(label_name(a).subrange(p.len() as int, label_name(a).len() as int) =~= nat_text(a));
    assert(label_name(b).subrange(p.len() as int, label_name(b).len() as int) =~= nat_text(b));
    lemma_nat_text_injective(a, b);
}

} // verus!

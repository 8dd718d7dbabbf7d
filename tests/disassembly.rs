use legv8_disasm::render::{decode_program, disassemble, render, RenderError};
use legv8_disasm::{Format, Instr, Mnemonic};

fn bytes_of(words: &[u32]) -> Vec<u8> {
    let mut out = Vec::new();
    for w in words {
        out.extend_from_slice(&w.to_be_bytes());
    }
    out
}

fn run(words: &[u32]) -> Result<String, RenderError> {
    disassemble(&bytes_of(words))
}

const HALT: u32 = 0xFFE0_0000;
const ADD_X3_X1_X2: u32 = (0x458 << 21) | (2 << 16) | (1 << 5) | 3;

#[test]
fn zero_word_is_unknown() {
    let ins = Instr::new(0);
    assert_eq!(ins.opcode, Mnemonic::Unknown);
    assert_eq!(ins.instr_type, Format::Unrecognized);
    assert_eq!(ins.rm, None);
    assert_eq!(ins.rn, None);
    assert_eq!(ins.rd, None);
    assert_eq!(ins.rt, None);
    assert_eq!(ins.imm, None);
}

#[test]
fn every_word_decodes() {
    let mut w: u32 = 0;
    loop {
        let ins = Instr::new(w);
        let (t, m) = Instr::get_opcode(w);
        assert_eq!(ins.instr_type, t);
        assert_eq!(ins.opcode, m);
        match w.checked_add(0x0001_0003) {
            Some(next) => w = next,
            None => break,
        }
    }
    let _ = Instr::new(u32::MAX);
}

#[test]
fn register_fields_round_trip() {
    for rd in [0u32, 1, 17, 31] {
        for rn in [0u32, 5, 30, 31] {
            for rm in [0u32, 9, 31] {
                let w = (0x458 << 21) | (rm << 16) | (rn << 5) | rd;
                let ins = Instr::new(w);
                assert_eq!(ins.opcode, Mnemonic::Add);
                assert_eq!(ins.instr_type, Format::RegisterRegister);
                assert_eq!(ins.rd, Some(rd as u8));
                assert_eq!(ins.rn, Some(rn as u8));
                assert_eq!(ins.rm, Some(rm as u8));
                assert_eq!(ins.rt, None);
            }
        }
    }
}

#[test]
fn branch_immediate_minus_one() {
    let ins = Instr::new(0x17FF_FFFF);
    assert_eq!(ins.opcode, Mnemonic::B);
    assert_eq!(ins.instr_type, Format::UnconditionalBranch);
    assert_eq!(ins.imm, Some(-1));
}

#[test]
fn branch_immediate_plus_one() {
    let ins = Instr::new(0x1400_0001);
    assert_eq!(ins.opcode, Mnemonic::B);
    assert_eq!(ins.imm, Some(1));
}

#[test]
fn branch_immediate_extremes() {
    assert_eq!(Instr::new(0x15FF_FFFF).imm, Some(0x1FF_FFFF));
    assert_eq!(Instr::new(0x1600_0000).imm, Some(-0x200_0000));
}

#[test]
fn classification_ignores_operand_bits() {
    let a = Instr::get_opcode(0x8B00_0000);
    let b = Instr::get_opcode(0x8B1F_FFFF);
    assert_eq!(a, b);
    assert_eq!(a, (Format::RegisterRegister, Mnemonic::Add));
    let c = Instr::new(0x5400_0000);
    let d = Instr::new(0x54FF_FFEF);
    assert_eq!(c.opcode, d.opcode);
    assert_eq!(c.instr_type, d.instr_type);
}

#[test]
fn opcode_table_entries() {
    let cases: [(u32, Format, Mnemonic); 29] = [
        (0x0a0, Format::UnconditionalBranch, Mnemonic::B),
        (0x0bf, Format::UnconditionalBranch, Mnemonic::B),
        (0x2a7, Format::ConditionalBranch, Mnemonic::BCond),
        (0x450, Format::RegisterRegister, Mnemonic::And),
        (0x458, Format::RegisterRegister, Mnemonic::Add),
        (0x489, Format::Immediate, Mnemonic::Addi),
        (0x490, Format::Immediate, Mnemonic::Andi),
        (0x4bf, Format::UnconditionalBranch, Mnemonic::Bl),
        (0x4d8, Format::RegisterRegister, Mnemonic::Mul),
        (0x550, Format::RegisterRegister, Mnemonic::Orr),
        (0x591, Format::Immediate, Mnemonic::Orri),
        (0x5a0, Format::ConditionalBranch, Mnemonic::Cbz),
        (0x5af, Format::ConditionalBranch, Mnemonic::Cbnz),
        (0x650, Format::RegisterRegister, Mnemonic::Eor),
        (0x658, Format::RegisterRegister, Mnemonic::Sub),
        (0x688, Format::Immediate, Mnemonic::Subi),
        (0x691, Format::Immediate, Mnemonic::Eori),
        (0x69a, Format::RegisterRegister, Mnemonic::Lsr),
        (0x69b, Format::RegisterRegister, Mnemonic::Lsl),
        (0x6b0, Format::RegisterRegister, Mnemonic::Br),
        (0x758, Format::RegisterRegister, Mnemonic::Subs),
        (0x789, Format::Immediate, Mnemonic::Subis),
        (0x797, Format::WideImmediateMove, Mnemonic::Movk),
        (0x7c0, Format::DataTransfer, Mnemonic::Stur),
        (0x7c2, Format::DataTransfer, Mnemonic::Ldur),
        (0x7fc, Format::ZeroOperand, Mnemonic::Prnl),
        (0x7fd, Format::ZeroOperand, Mnemonic::Prnt),
        (0x7fe, Format::ZeroOperand, Mnemonic::Dump),
        (0x7ff, Format::ZeroOperand, Mnemonic::Halt),
    ];
    for (p, t, m) in cases {
        assert_eq!(Instr::get_opcode(p << 21), (t, m));
    }
    for p in [0x09fu32, 0x0c0, 0x2a8, 0x451, 0x48a, 0x7c1, 0x7fb] {
        assert_eq!(Instr::get_opcode(p << 21), (Format::Unrecognized, Mnemonic::Unknown));
    }
}

#[test]
fn present_fields_follow_format() {
    let i = Instr::new(0x913F_FC41);
    assert_eq!((i.rn, i.rd, i.rm, i.rt), (Some(2), Some(1), None, None));
    let d = Instr::new(0xF800_8041);
    assert_eq!((d.rn, d.rt, d.rd, d.rm), (Some(2), Some(1), None, None));
    let cb = Instr::new(0xB400_0021);
    assert_eq!((cb.rt, cb.rd, cb.rn), (Some(1), None, None));
    let halt = Instr::new(0xFFE0_0007);
    assert_eq!((halt.rd, halt.imm), (None, None));
    let prnt = Instr::new(0xFFA0_0007);
    assert_eq!((prnt.rd, prnt.imm), (Some(7), None));
}

#[test]
fn zero_bytes_render_unknown() {
    assert_eq!(disassemble(&vec![0, 0, 0, 0]), Ok(String::from("Unknown\n")));
}

#[test]
fn empty_image_renders_nothing() {
    assert_eq!(disassemble(&Vec::new()), Ok(String::new()));
}

#[test]
fn trailing_partial_word_is_ignored() {
    let mut b = bytes_of(&[HALT]);
    b.extend_from_slice(&[0xFF, 0xE0, 0x00]);
    assert_eq!(disassemble(&b), Ok(String::from("HALT\n")));
}

#[test]
fn forward_branch_gets_label() {
    let out = run(&[0x1400_0002, ADD_X3_X1_X2, HALT]).unwrap();
    assert_eq!(out, "B instr2\nADD X3, X1, X2\ninstr2:\nHALT\n");
}

#[test]
fn shared_target_defines_one_label() {
    let out = run(&[0x1400_0002, 0x1400_0001, HALT]).unwrap();
    assert_eq!(out, "B instr2\nB instr2\ninstr2:\nHALT\n");
    assert_eq!(out.matches("instr2:").count(), 1);
}

#[test]
fn branch_to_trailing_slot() {
    assert_eq!(run(&[0x1400_0001]), Ok(String::from("B instr1\ninstr1:\n")));
}

#[test]
fn backward_branch() {
    let out = run(&[HALT, 0x17FF_FFFF]).unwrap();
    assert_eq!(out, "instr0:\nHALT\nB instr0\n");
}

#[test]
fn branch_to_itself() {
    assert_eq!(run(&[0x1400_0000]), Ok(String::from("instr0:\nB instr0\n")));
}

#[test]
fn label_index_with_two_digits() {
    let mut words = vec![0x1400_000B];
    for _ in 0..11 {
        words.push(HALT);
    }
    let out = run(&words).unwrap();
    assert!(out.starts_with("B instr11\n"));
    assert!(out.ends_with("HALT\ninstr11:\nHALT\n"));
}

#[test]
fn branch_past_trailing_slot_fails() {
    assert_eq!(run(&[0x1400_0005]), Err(RenderError::BranchOutOfRange { index: 0 }));
}

#[test]
fn branch_before_start_fails() {
    assert_eq!(run(&[HALT, 0x17FF_FFFE]), Err(RenderError::BranchOutOfRange { index: 1 }));
}

#[test]
fn condition_code_fourteen_aborts() {
    let w = 0x5400_0000 | (1 << 5) | 14;
    assert_eq!(run(&[w, HALT]), Err(RenderError::InvalidCondition { index: 0, code: 14 }));
}

#[test]
fn condition_code_fifteen_aborts() {
    let w = 0x5400_0000 | (1 << 5) | 15;
    assert_eq!(run(&[HALT, w]), Err(RenderError::InvalidCondition { index: 1, code: 15 }));
}

#[test]
fn first_fault_is_reported() {
    let bad_cond = 0x5400_0000 | 14;
    assert_eq!(
        run(&[0x1400_0009, bad_cond]),
        Err(RenderError::BranchOutOfRange { index: 0 })
    );
}

#[test]
fn conditional_branches() {
    let out = run(&[0x5400_0021, 0x5400_002D, 0xB400_0023, 0xB5FF_FFC4]).unwrap();
    assert_eq!(
        out,
        "B.NE instr1\ninstr1:\nB.LE instr2\ninstr2:\nCBZ X3, instr3\ninstr3:\nCBNZ X4, instr1\n"
    );
}

#[test]
fn all_condition_suffixes() {
    let names = [
        "EQ", "NE", "HS", "LO", "MI", "PL", "VS", "VC", "HI", "LS", "GE", "LT", "GT", "LE",
    ];
    for (c, name) in names.iter().enumerate() {
        let w = 0x5400_0000 | (1 << 5) | c as u32;
        assert_eq!(run(&[w]), Ok(format!("B.{} instr1\ninstr1:\n", name)));
    }
}

#[test]
fn register_and_immediate_lines() {
    let out = run(&[
        ADD_X3_X1_X2,
        0xD360_1041,
        0xD340_1041,
        0xD600_03C0,
        0x913F_FC41,
        0xF800_8041,
        0xF85F_8041,
        0xF280_0025,
    ])
    .unwrap();
    assert_eq!(
        out,
        "ADD X3, X1, X2\nLSL X1, X2, #4\nLSR X1, X2, #4\nBR X30\nADDI X1, X2, #-1\n\
         STUR X1, [X2, #8]\nLDUR X1, [X2, #-8]\nMOVK X5, #1\n"
    );
}

#[test]
fn zero_operand_lines() {
    let out = run(&[0xFFA0_0007, 0xFF80_0000, 0xFFC0_0000, HALT, 0x0000_0001]).unwrap();
    assert_eq!(out, "PRNT X7\nPRNL\nDUMP\nHALT\nUnknown\n");
}

#[test]
fn branch_with_link() {
    assert_eq!(run(&[0x9400_0001]), Ok(String::from("BL instr1\ninstr1:\n")));
}

#[test]
fn render_decoded_program() {
    let prog = decode_program(&bytes_of(&[0x1400_0002, ADD_X3_X1_X2, HALT]));
    assert_eq!(prog.len(), 3);
    assert_eq!(prog[1], Instr::new(ADD_X3_X1_X2));
    assert_eq!(render(&prog), Ok(String::from("B instr2\nADD X3, X1, X2\ninstr2:\nHALT\n")));
}

#[test]
fn single_line_rendering() {
    assert_eq!(Instr::new(0xB400_0023).line(7), "CBZ X3, instr7");
    assert_eq!(Instr::new(0x8B1F_03E0).line(0), "ADD X0, X31, X31");
    assert_eq!(Mnemonic::Subis.text(), "SUBIS");
}

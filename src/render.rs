//! Label resolution and rendering of a decoded program as assembly text.
use crate::decode::{decoded, Format, Instr, Mnemonic};
use crate::text::{int_text, nat_text, push_int, push_nat};
use vstd::prelude::*;
use vstd::string::StringExecFns;

verus! {

/// Why a program cannot be rendered.
#[derive(Clone, Copy, Debug, PartialEq, Eq, Structural)]
pub enum RenderError {
    /// The branch at `index` targets a slot before the first instruction or
    /// past the trailing slot.
    BranchOutOfRange { index: usize },
    /// The conditional branch at `index` carries `code`, which names none of
    /// the fourteen conditions.
    InvalidCondition { index: usize, code: u8 },
}

/// The instruction branches to a label.
pub open spec fn is_branch(ins: Instr) -> bool {
    ins.instr_type == Format::UnconditionalBranch || ins.instr_type == Format::ConditionalBranch
}

/// The slot that the branch at index `i` targets: the offset counts
/// instructions, not bytes.
pub open spec fn target(ins: Instr, i: int) -> int {
    i + ins.imm.unwrap()
}

/// Some branch among the first `upto` instructions targets `slot`.
pub open spec fn labeled_before(prog: Seq<Instr>, slot: int, upto: int) -> bool {
    exists|j: int| 0 <= j < upto && is_branch(#[trigger] prog[j]) && target(prog[j], j) == slot
}

/// Slot `slot` carries a label: some branch of the program targets it.
pub open spec fn has_label(prog: Seq<Instr>, slot: int) -> bool {
    labeled_before(prog, slot, prog.len() as int)
}

/// The label of slot `slot`, derived from the slot's index alone.
pub open spec fn label_name(slot: nat) -> Seq<char> {
    "instr"@ + nat_text(slot)
}

/// The suffix of a conditional branch with condition code `c`, for `c < 14`.
pub open spec fn cond_suffix(c: u8) -> Seq<char> {
    if c == 0 {
        "EQ"@
    } else if c == 1 {
        "NE"@
    } else if c == 2 {
        "HS"@
    } else if c == 3 {
        "LO"@
    } else if c == 4 {
        "MI"@
    } else if c == 5 {
        "PL"@
    } else if c == 6 {
        "VS"@
    } else if c == 7 {
        "VC"@
    } else if c == 8 {
        "HI"@
    } else if c == 9 {
        "LS"@
    } else if c == 10 {
        "GE"@
    } else if c == 11 {
        "LT"@
    } else if c == 12 {
        "GT"@
    } else {
        "LE"@
    }
}

/// Register operand text, `X<n>`.
pub open spec fn reg_text(r: u8) -> Seq<char> {
    "X"@ + nat_text(r as nat)
}

/// The text of one instruction, without its newline; a branch names the
/// label of slot `to`.
pub open spec fn line_text(ins: Instr, to: nat) -> Seq<char> {
    let m = ins.opcode.spec_text();
    let rm = reg_text(ins.rm.unwrap());
    let rn = reg_text(ins.rn.unwrap());
    let rd = reg_text(ins.rd.unwrap());
    let rt = reg_text(ins.rt.unwrap());
    let imm = int_text(ins.imm.unwrap() as int);
    match ins.instr_type {
        Format::UnconditionalBranch => m + " "@ + label_name(to),
        Format::ConditionalBranch => if ins.opcode == Mnemonic::BCond {
            m + cond_suffix(ins.rt.unwrap()) + " "@ + label_name(to)
        } else {
            m + " "@ + rt + ", "@ + label_name(to)
        },
        Format::RegisterRegister => if ins.opcode == Mnemonic::Br {
            m + " "@ + rn
        } else if ins.opcode == Mnemonic::Lsl || ins.opcode == Mnemonic::Lsr {
            m + " "@ + rd + ", "@ + rn + ", #"@ + imm
        } else {
            m + " "@ + rd + ", "@ + rn + ", "@ + rm
        },
        Format::Immediate => m + " "@ + rd + ", "@ + rn + ", #"@ + imm,
        Format::DataTransfer => m + " "@ + rt + ", ["@ + rn + ", #"@ + imm + "]"@,
        Format::WideImmediateMove => m + " "@ + rd + ", #"@ + imm,
        Format::ZeroOperand => if ins.opcode == Mnemonic::Prnt {
            m + " "@ + rd
        } else {
            m
        },
        Format::Unrecognized => m,
    }
}

/// What stops the instruction at index `i` of a program of `n` instructions
/// from being rendered, if anything: a branch target outside `0..=n`, or a
/// conditional branch whose condition code is not below 14.
pub open spec fn fault_at(ins: Instr, i: int, n: int) -> Option<RenderError> {
    if is_branch(ins) && !(0 <= target(ins, i) <= n) {
        Some(RenderError::BranchOutOfRange { index: i as usize })
    } else if ins.opcode == Mnemonic::BCond && ins.rt.unwrap() >= 14 {
        Some(RenderError::InvalidCondition { index: i as usize, code: ins.rt.unwrap() })
    } else {
        None
    }
}

/// The fault of the first faulty instruction at index `k` or later.
pub open spec fn first_fault(prog: Seq<Instr>, k: int) -> Option<RenderError>
    decreases prog.len() - k,
{
    if k < 0 || k >= prog.len() {
        None
    } else if fault_at(prog[k], k, prog.len() as int) is Some {
        fault_at(prog[k], k, prog.len() as int)
    } else {
        first_fault(prog, k + 1)
    }
}

/// The label definition line of slot `slot`, if a branch targets it.
pub open spec fn slot_label(prog: Seq<Instr>, slot: int) -> Option<Seq<char>> {
    if has_label(prog, slot) {
        Some(label_name(slot as nat))
    } else {
        None
    }
}

/// The text of slot `k`: its label line, if any, then the instruction line;
/// the trailing slot has no instruction line.
pub open spec fn slot_text(prog: Seq<Instr>, k: int) -> Seq<char> {
    let label = match slot_label(prog, k) {
        Some(l) => l + ":\n"@,
        None => Seq::empty(),
    };
    if k < prog.len() {
        label + line_text(prog[k], target(prog[k], k) as nat) + "\n"@
    } else {
        label
    }
}

/// The text of the first `k` slots.
pub open spec fn text_upto(prog: Seq<Instr>, k: int) -> Seq<char>
    decreases k,
{
    if k <= 0 {
        Seq::empty()
    } else {
        text_upto(prog, k - 1) + slot_text(prog, k - 1)
    }
}

/// The rendered program: every instruction slot and the trailing slot.
pub open spec fn program_text(prog: Seq<Instr>) -> Seq<char> {
    text_upto(prog, prog.len() + 1int)
}

fn cond_str(c: u8) -> (r: &'static str)
    requires
        c < 14,
    ensures
        r@ == cond_suffix(c),
{
    if c == 0 {
        "EQ"
    } else if c == 1 {
        "NE"
    } else if c == 2 {
        "HS"
    } else if c == 3 {
        "LO"
    } else if c == 4 {
        "MI"
    } else if c == 5 {
        "PL"
    } else if c == 6 {
        "VS"
    } else if c == 7 {
        "VC"
    } else if c == 8 {
        "HI"
    } else if c == 9 {
        "LS"
    } else if c == 10 {
        "GE"
    } else if c == 11 {
        "LT"
    } else if c == 12 {
        "GT"
    } else {
        "LE"
    }
}

fn push_reg(s: &mut String, r: u8)
    ensures
        final(s)@ == old(s)@ + reg_text(r),
{
    let ghost s0 = s@;
    s.append("X");
    push_nat(s, r as u64);
    assert(s@ =~= s0 + reg_text(r));
}

fn push_label(s: &mut String, slot: usize)
    ensures
        final(s)@ == old(s)@ + label_name(slot as nat),
{
    let ghost s0 = s@;
    s.append("instr");
    push_nat(s, slot as u64);
    assert(s@ =~= s0 + label_name(slot as nat));
}

impl Instr {
    /// Renders this instruction as one line of assembly, without its
    /// newline. A branch names the label of slot `to`; a conditional branch
    /// must carry one of the fourteen condition codes.
    pub fn line(&self, to: usize) -> (r: String)
        requires
            self.wf(),
            !(self.opcode == Mnemonic::BCond && self.rt.unwrap() >= 14),
        ensures
            r@ == line_text(*self, to as nat),
    {
        let mut s = String::from_str(self.opcode.text());
        match self.instr_type {
            Format::UnconditionalBranch => {
                s.append(" ");
                push_label(&mut s, to);
                assert(s@ =~= line_text(*self, to as nat));
            },
            Format::ConditionalBranch => {
                let rt = self.rt.unwrap();
                match self.opcode {
                    Mnemonic::BCond => {
                        s.append(cond_str(rt));
                        s.append(" ");
                        push_label(&mut s, to);
                    },
                    _ => {
                        s.append(" ");
                        push_reg(&mut s, rt);
                        s.append(", ");
                        push_label(&mut s, to);
                    },
                }
                assert(s@ =~= line_text(*self, to as nat));
            },
            Format::RegisterRegister => {
                let rn = self.rn.unwrap();
                match self.opcode {
                    Mnemonic::Br => {
                        s.append(" ");
                        push_reg(&mut s, rn);
                    },
                    Mnemonic::Lsl | Mnemonic::Lsr => {
                        s.append(" ");
                        push_reg(&mut s, self.rd.unwrap());
                        s.append(", ");
                        push_reg(&mut s, rn);
                        s.append(", #");
                        push_int(&mut s, self.imm.unwrap());
                    },
                    _ => {
                        s.append(" ");
                        push_reg(&mut s, self.rd.unwrap());
                        s.append(", ");
                        push_reg(&mut s, rn);
                        s.append(", ");
                        push_reg(&mut s, self.rm.unwrap());
                    },
                }
                assert(s@ =~= line_text(*self, to as nat));
            },
            Format::Immediate => {
                s.append(" ");
                push_reg(&mut s, self.rd.unwrap());
                s.append(", ");
                push_reg(&mut s, self.rn.unwrap());
                s.append(", #");
                push_int(&mut s, self.imm.unwrap());
                assert(s@ =~= line_text(*self, to as nat));
            },
            Format::DataTransfer => {
                s.append(" ");
                push_reg(&mut s, self.rt.unwrap());
                s.append(", [");
                push_reg(&mut s, self.rn.unwrap());
                s.append(", #");
                push_int(&mut s, self.imm.unwrap());
                s.append("]");
                assert(s@ =~= line_text(*self, to as nat));
            },
            Format::WideImmediateMove => {
                s.append(" ");
                push_reg(&mut s, self.rd.unwrap());
                s.append(", #");
                push_int(&mut s, self.imm.unwrap());
                assert(s@ =~= line_text(*self, to as nat));
            },
            Format::ZeroOperand => {
                match self.opcode {
                    Mnemonic::Prnt => {
                        s.append(" ");
                        push_reg(&mut s, self.rd.unwrap());
                    },
                    _ => {},
                }
                assert(s@ =~= line_text(*self, to as nat));
            },
            Format::Unrecognized => {},
        }
        s
    }
}

/// The slot that the branch at index `i` of a program of `n` instructions
/// targets, when it lies within `0..=n`.
fn resolve_target(ins: &Instr, i: usize, n: usize) -> (r: Option<usize>)
    requires
        ins.imm is Some,
        i < n,
    ensures
        r is Some <==> 0 <= target(*ins, i as int) <= n,
        r is Some ==> r.unwrap() == target(*ins, i as int),
{
    let imm = ins.imm.unwrap();
    if imm >= 0 {
        let d = imm as usize;
        if d <= n - i {
            Some(i + d)
        } else {
            None
        }
    } else {
        let d = (-(imm as i64)) as usize;
        if d <= i {
            Some(i - d)
        } else {
            None
        }
    }
}

proof fn lemma_first_fault_skip(prog: Seq<Instr>, k: int)
    requires
        0 <= k < prog.len(),
        fault_at(prog[k], k, prog.len() as int) is None,
    ensures
        first_fault(prog, k) == first_fault(prog, k + 1),
{
}

proof fn lemma_no_fault(prog: Seq<Instr>, j: int, k: int)
    requires
        0 <= j <= k < prog.len(),
        first_fault(prog, j) is None,
    ensures
        fault_at(prog[k], k, prog.len() as int) is None,
    decreases k - j,
{
    if j < k {
        lemma_no_fault(prog, j + 1, k);
    }
}

/// Renders a decoded program: resolves every branch target to the label of
/// its slot, then emits each slot's label line (if a branch targets it) and
/// instruction line, with the trailing slot after the last instruction.
/// Fails with the fault of the first instruction that cannot be rendered.
pub fn render(prog: &Vec<Instr>) -> (r: Result<String, RenderError>)
    requires
        prog.len() < usize::MAX,
        forall|i: int| 0 <= i < prog.len() ==> #[trigger] prog[i].wf(),
    ensures
        match r {
            Ok(s) => first_fault(prog@, 0) is None && s@ == program_text(prog@),
            Err(e) => first_fault(prog@, 0) == Some(e),
        },
{
    let n = prog.len();
    let mut labels: Vec<bool> = Vec::new();
    while labels.len() <= n
        invariant
            labels.len() <= n + 1,
            forall|k: int| 0 <= k < labels.len() ==> !#[trigger] labels@[k],
        decreases n + 1 - labels.len(),
    {
        labels.push(false);
    }
    // First pass: check every instruction and mark the slots that branches target.
    let mut i: usize = 0;
    while i < n
        invariant
            n == prog.len(),
            i <= n,
            labels.len() == n + 1,
            forall|j: int| 0 <= j < n ==> #[trigger] prog[j].wf(),
            first_fault(prog@, 0) == first_fault(prog@, i as int),
            forall|k: int| 0 <= k <= n ==> #[trigger] labels@[k] == labeled_before(prog@, k, i as int),
        decreases n - i,
    {
        let ins = &prog[i];
        assert(ins.wf());
        if ins.instr_type == Format::UnconditionalBranch || ins.instr_type == Format::ConditionalBranch {
            match resolve_target(ins, i, n) {
                Some(t) => {
                    labels.set(t, true);
                    assert forall|k: int| 0 <= k <= n implies #[trigger] labels@[k] == labeled_before(prog@, k, i + 1) by {
                        if k == t {
                            assert(is_branch(prog@[i as int]) && target(prog@[i as int], i as int) == k);
                        } else if labeled_before(prog@, k, i + 1) {
                            let j = choose|j: int| 0 <= j < i + 1 && is_branch(#[trigger] prog@[j]) && target(prog@[j], j) == k;
                            assert(j != i);
                        }
                    }
                },
                None => {
                    return Err(RenderError::BranchOutOfRange { index: i });
                },
            }
        } else {
            assert forall|k: int| 0 <= k <= n implies #[trigger] labels@[k] == labeled_before(prog@, k, i + 1) by {
                if labeled_before(prog@, k, i + 1) {
                    let j = choose|j: int| 0 <= j < i + 1 && is_branch(#[trigger] prog@[j]) && target(prog@[j], j) == k;
                    assert(j != i);
                }
            }
        }
        match ins.opcode {
            Mnemonic::BCond => {
                let code = ins.rt.unwrap();
                if code >= 14 {
                    return Err(RenderError::InvalidCondition { index: i, code });
                }
            },
            _ => {},
        }
        proof { lemma_first_fault_skip(prog@, i as int); }
        i = i + 1;
    }
    // Second pass: emit the slots in order.
    let mut out = String::new();
    let mut k: usize = 0;
    while k <= n
        invariant
            n == prog.len(),
            n < usize::MAX,
            k <= n + 1,
            labels.len() == n + 1,
            forall|j: int| 0 <= j < n ==> #[trigger] prog[j].wf(),
            first_fault(prog@, 0) is None,
            forall|s: int| 0 <= s <= n ==> #[trigger] labels@[s] == has_label(prog@, s),
            out@ == text_upto(prog@, k as int),
        decreases n + 1 - k,
    {
        let ghost before = out@;
        if labels[k] {
            push_label(&mut out, k);
            out.append(":\n");
        }
        if k < n {
            let ins = &prog[k];
            assert(ins.wf());
            proof { lemma_no_fault(prog@, 0, k as int); }
            let to = if ins.instr_type == Format::UnconditionalBranch || ins.instr_type == Format::ConditionalBranch {
                match resolve_target(ins, k, n) {
                    Some(t) => t,
                    None => 0,
                }
            } else {
                0
            };
            let line = ins.line(to);
            assert(line@ == line_text(prog@[k as int], target(prog@[k as int], k as int) as nat));
            out.append(line.as_str());
            out.append("\n");
        }
        assert(out@ =~= before + slot_text(prog@, k as int));
        k = k + 1;
    }
    Ok(out)
}

/// The big-endian word made of bytes `4i .. 4i + 4` of `b`.
pub open spec fn be_word(b: Seq<u8>, i: int) -> u32 {
    (b[4 * i] as int * 0x100_0000 + b[4 * i + 1] as int * 0x1_0000 + b[4 * i + 2] as int * 0x100
        + b[4 * i + 3] as int) as u32
}

/// The program that a byte image holds: one decoded instruction per whole
/// 4-byte group, in order; a trailing partial group is ignored.
pub open spec fn decoded_program(b: Seq<u8>) -> Seq<Instr> {
    Seq::new(b.len() / 4, |i: int| decoded(be_word(b, i)))
}

/// Decodes every whole big-endian 4-byte word of `bytes`, in order.
pub fn decode_program(bytes: &Vec<u8>) -> (r: Vec<Instr>)
    ensures
        r@ == decoded_program(bytes@),
        forall|i: int| 0 <= i < r.len() ==> #[trigger] r[i].wf(),
{
    let n = bytes.len() / 4;
    let mut out: Vec<Instr> = Vec::new();
    let mut i: usize = 0;
    while i < n
        invariant
            n == bytes.len() / 4,
            i <= n,
            out.len() == i,
            forall|j: int| 0 <= j < i ==> #[trigger] out@[j] == decoded(be_word(bytes@, j)),
            forall|j: int| 0 <= j < i ==> #[trigger] out@[j].wf(),
        decreases n - i,
    {
        let b0 = bytes[4 * i] as u32;
        let b1 = bytes[4 * i + 1] as u32;
        let b2 = bytes[4 * i + 2] as u32;
        let b3 = bytes[4 * i + 3] as u32;
        let word: u32 = b0 * 0x100_0000 + b1 * 0x1_0000 + b2 * 0x100 + b3;
        out.push(Instr::new(word));
        i = i + 1;
    }
    assert(out@ =~= decoded_program(bytes@));
    out
}

/// Disassembles a byte image: decodes each whole big-endian word, then
/// renders the program with its labels. Fails exactly when some instruction
/// cannot be rendered, with the fault of the first such instruction.
pub fn disassemble(bytes: &Vec<u8>) -> (r: Result<String, RenderError>)
    ensures
        match r {
            Ok(s) => first_fault(decoded_program(bytes@), 0) is None && s@ == program_text(
                decoded_program(bytes@),
            ),
            Err(e) => first_fault(decoded_program(bytes@), 0) == Some(e),
        },
{
    let prog = decode_program(bytes);
    assert(prog.len() == bytes.len() / 4);
    render(&prog)
}

} // verus!

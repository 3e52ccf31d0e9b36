//! Assembly emission: the legalized function rendered as AT&T-syntax text.
//!
//! The text carries a global symbol declaration and label for the function,
//! the standard prologue, every instruction with 32-bit operand suffixes
//! (byte-width register names for conditional sets), a full epilogue in
//! place of each bare return, and the closing note that the object needs no
//! executable stack.  Writing the text to a file is the driver's business;
//! the library only builds it, and [`assembly_text`] is proved to return
//! exactly [`spec_assembly_text`].

use vstd::prelude::*;

use crate::codegen::ABinaryOp;
use crate::codegen::AInstr;
use crate::codegen::AInstrV;
use crate::codegen::AOprnd;
use crate::codegen::AOprndV;
use crate::codegen::AReg;
use crate::codegen::AssemFuncDef;
use crate::codegen::AssemFuncDefV;
use crate::codegen::AUnaryOp;
use crate::codegen::CondCode;
use crate::codegen::view_ainstrs;
use crate::names::signed_decimal_digits;
use crate::names::signed_decimal_string;

verus! {

/// The local label for a jump target.
pub open spec fn spec_label(l: Seq<char>) -> Seq<char> {
    ".L"@ + l
}

/// The mnemonic suffix of a condition code.
pub open spec fn spec_cond_code(code: CondCode) -> Seq<char> {
    match code {
        CondCode::E => "e"@,
        CondCode::NE => "ne"@,
        CondCode::L => "l"@,
        CondCode::LE => "le"@,
        CondCode::G => "g"@,
        CondCode::GE => "ge"@,
    }
}

/// The 32-bit rendering of an operand.  A pseudo-register has no rendering;
/// the passes before emission have removed them all.
pub open spec fn spec_operand_text(o: AOprndV) -> Seq<char> {
    match o {
        AOprndV::Reg(AReg::AX) => "%eax"@,
        AOprndV::Reg(AReg::DX) => "%edx"@,
        AOprndV::Reg(AReg::R10) => "%r10d"@,
        AOprndV::Reg(AReg::R11) => "%r11d"@,
        AOprndV::Stack(off) => signed_decimal_digits(off) + "(%rbp)"@,
        AOprndV::Imm(v) => "$"@ + signed_decimal_digits(v as int),
        AOprndV::Pseudo(_) => "Should Not Exist"@,
    }
}

/// The byte-width rendering of an operand, for conditional sets.
pub open spec fn spec_byte_operand_text(o: AOprndV) -> Seq<char> {
    match o {
        AOprndV::Reg(AReg::AX) => "%al"@,
        AOprndV::Reg(AReg::DX) => "%dl"@,
        AOprndV::Reg(AReg::R10) => "%r10b"@,
        AOprndV::Reg(AReg::R11) => "%r11b"@,
        _ => spec_operand_text(o),
    }
}

/// The mnemonic of a unary operation.
pub open spec fn spec_unary_operator_text(op: AUnaryOp) -> Seq<char> {
    match op {
        AUnaryOp::Neg => "negl"@,
        AUnaryOp::Not => "notl"@,
    }
}

/// The mnemonic of a binary operation.
pub open spec fn spec_binary_operator_text(op: ABinaryOp) -> Seq<char> {
    match op {
        ABinaryOp::Add => "addl"@,
        ABinaryOp::Sub => "subl"@,
        ABinaryOp::Mult => "imull"@,
    }
}

/// The text of one instruction, newline included; `Ret` carries the whole
/// epilogue.
pub open spec fn spec_instr_text(i: AInstrV) -> Seq<char> {
    match i {
        AInstrV::Mov(src, dst) => "\tmovl "@ + spec_operand_text(src) + ", "@ + spec_operand_text(
            dst,
        ) + "\n"@,
        AInstrV::Unary(op, a) => "\t"@ + spec_unary_operator_text(op) + " "@ + spec_operand_text(a)
            + "\n"@,
        AInstrV::Binary(op, src, dst) => "\t"@ + spec_binary_operator_text(op) + " "@
            + spec_operand_text(src) + ", "@ + spec_operand_text(dst) + "\n"@,
        AInstrV::Idiv(a) => "\tidivl "@ + spec_operand_text(a) + "\n"@,
        AInstrV::Cdq => "\tcdq\n"@,
        AInstrV::AllocateStack(v) => "\tsubq $"@ + signed_decimal_digits(v) + ", %rsp\n"@,
        AInstrV::Ret => "\tmovq %rbp, %rsp\n\tpopq %rbp\n\tret\n"@,
        AInstrV::Cmp(a, b) => "\tcmpl "@ + spec_operand_text(a) + ", "@ + spec_operand_text(b)
            + "\n"@,
        AInstrV::Jmp(l) => "\tjmp "@ + spec_label(l) + "\n"@,
        AInstrV::JmpCC(code, l) => "\tj"@ + spec_cond_code(code) + " "@ + spec_label(l) + "\n"@,
        AInstrV::SetCC(code, a) => "\tset"@ + spec_cond_code(code) + " "@ + spec_byte_operand_text(
            a,
        ) + "\n"@,
        AInstrV::Label(l) => spec_label(l) + ":\n"@,
    }
}

/// The text of a whole instruction sequence.
pub open spec fn spec_instrs_text(s: Seq<AInstrV>) -> Seq<char>
    decreases s.len(),
{
    if s.len() == 0 {
        Seq::empty()
    } else {
        spec_instr_text(s[0]) + spec_instrs_text(s.drop_first())
    }
}

/// The frame-establishing prologue.
pub open spec fn spec_prologue_text() -> Seq<char> {
    "\tpushq %rbp\n\tmovq %rsp, %rbp\n"@
}

/// The text of the function: symbol declaration, label, prologue, and every
/// instruction.
pub open spec fn spec_program_text(f: AssemFuncDefV) -> Seq<char> {
    match f {
        AssemFuncDefV::Function(name, instrs) => ".globl "@ + name + "\n"@ + name + ":\n"@
            + spec_prologue_text() + spec_instrs_text(instrs),
    }
}

/// The whole emitted file: the function text and the non-executable-stack
/// note.
pub open spec fn spec_assembly_text(f: AssemFuncDefV) -> Seq<char> {
    spec_program_text(f) + ".section .note.GNU-stack,\"\",@progbits"@
}

/// Renders a jump target as a local label.
pub fn get_label(op: &String) -> (r: String)
    ensures
        r@ == spec_label(op@),
{
    let mut label = String::from_str(".L");
    label.append(op.as_str());
    label
}

/// Renders a condition code as its mnemonic suffix.
pub fn get_cond_code(code: &CondCode) -> (r: String)
    ensures
        r@ == spec_cond_code(*code),
{
    match code {
        CondCode::E => String::from_str("e"),
        CondCode::NE => String::from_str("ne"),
        CondCode::L => String::from_str("l"),
        CondCode::LE => String::from_str("le"),
        CondCode::G => String::from_str("g"),
        CondCode::GE => String::from_str("ge"),
    }
}

/// Renders an operand with byte-width register names.
pub fn get_byte_operand(op: &AOprnd) -> (r: String)
    ensures
        r@ == spec_byte_operand_text(op@),
{
    match op {
        AOprnd::Reg(AReg::AX) => String::from_str("%al"),
        AOprnd::Reg(AReg::DX) => String::from_str("%dl"),
        AOprnd::Reg(AReg::R10) => String::from_str("%r10b"),
        AOprnd::Reg(AReg::R11) => String::from_str("%r11b"),
        _ => get_operand(op),
    }
}

/// Renders an operand with 32-bit register names.
pub fn get_operand(op: &AOprnd) -> (r: String)
    ensures
        r@ == spec_operand_text(op@),
{
    match op {
        AOprnd::Reg(AReg::AX) => String::from_str("%eax"),
        AOprnd::Reg(AReg::DX) => String::from_str("%edx"),
        AOprnd::Reg(AReg::R10) => String::from_str("%r10d"),
        AOprnd::Reg(AReg::R11) => String::from_str("%r11d"),
        AOprnd::Stack(val) => {
            let mut s = signed_decimal_string(*val);
            s.append("(%rbp)");
            s
        },
        AOprnd::Imm(val) => {
            let mut s = String::from_str("$");
            let digits = signed_decimal_string(*val);
            s.append(digits.as_str());
            s
        },
        AOprnd::Pseudo(_) => String::from_str("Should Not Exist"),
    }
}

/// Renders a unary mnemonic.
pub fn get_unary_operator(op: &AUnaryOp) -> (r: String)
    ensures
        r@ == spec_unary_operator_text(*op),
{
    match op {
        AUnaryOp::Neg => String::from_str("negl"),
        AUnaryOp::Not => String::from_str("notl"),
    }
}

/// Renders a binary mnemonic.
pub fn get_binary_operator(op: &ABinaryOp) -> (r: String)
    ensures
        r@ == spec_binary_operator_text(*op),
{
    match op {
        ABinaryOp::Add => String::from_str("addl"),
        ABinaryOp::Sub => String::from_str("subl"),
        ABinaryOp::Mult => String::from_str("imull"),
    }
}

/// Renders one instruction, newline included.
fn instruction_text(instruction: &AInstr) -> (r: String)
    ensures
        r@ == spec_instr_text(instruction@),
{
    match instruction {
        AInstr::Mov(left, right) => {
            let src = get_operand(left);
            let dst = get_operand(right);
            let mut s = String::from_str("\tmovl ");
            s.append(src.as_str());
            s.append(", ");
            s.append(dst.as_str());
            s.append("\n");
            assert(s@ =~= spec_instr_text(instruction@));
            s
        },
        AInstr::Unary(op, oprnd) => {
            let operator = get_unary_operator(op);
            let operand = get_operand(oprnd);
            let mut s = String::from_str("\t");
            s.append(operator.as_str());
            s.append(" ");
            s.append(operand.as_str());
            s.append("\n");
            assert(s@ =~= spec_instr_text(instruction@));
            s
        },
        AInstr::Binary(op, left, right) => {
            let operator = get_binary_operator(op);
            let src = get_operand(left);
            let dst = get_operand(right);
            let mut s = String::from_str("\t");
            s.append(operator.as_str());
            s.append(" ");
            s.append(src.as_str());
            s.append(", ");
            s.append(dst.as_str());
            s.append("\n");
            assert(s@ =~= spec_instr_text(instruction@));
            s
        },
        AInstr::Idiv(op) => {
            let operand = get_operand(op);
            let mut s = String::from_str("\tidivl ");
            s.append(operand.as_str());
            s.append("\n");
            assert(s@ =~= spec_instr_text(instruction@));
            s
        },
        AInstr::Cdq => String::from_str("\tcdq\n"),
        AInstr::AllocateStack(val) => {
            let digits = signed_decimal_string(*val);
            let mut s = String::from_str("\tsubq $");
            s.append(digits.as_str());
            s.append(", %rsp\n");
            assert(s@ =~= spec_instr_text(instruction@));
            s
        },
        AInstr::Ret => String::from_str("\tmovq %rbp, %rsp\n\tpopq %rbp\n\tret\n"),
        AInstr::Cmp(op1, op2) => {
            let left = get_operand(op1);
            let right = get_operand(op2);
            let mut s = String::from_str("\tcmpl ");
            s.append(left.as_str());
            s.append(", ");
            s.append(right.as_str());
            s.append("\n");
            assert(s@ =~= spec_instr_text(instruction@));
            s
        },
        AInstr::Jmp(label) => {
            let label_out = get_label(label);
            let mut s = String::from_str("\tjmp ");
            s.append(label_out.as_str());
            s.append("\n");
            assert(s@ =~= spec_instr_text(instruction@));
            s
        },
        AInstr::JmpCC(code, label) => {
            let cond_code = get_cond_code(code);
            let label_out = get_label(label);
            let mut s = String::from_str("\tj");
            s.append(cond_code.as_str());
            s.append(" ");
            s.append(label_out.as_str());
            s.append("\n");
            assert(s@ =~= spec_instr_text(instruction@));
            s
        },
        AInstr::SetCC(code, op) => {
            let cond_code = get_cond_code(code);
            let op_out = get_byte_operand(op);
            let mut s = String::from_str("\tset");
            s.append(cond_code.as_str());
            s.append(" ");
            s.append(op_out.as_str());
            s.append("\n");
            assert(s@ =~= spec_instr_text(instruction@));
            s
        },
        AInstr::Label(label) => {
            let label_out = get_label(label);
            let mut s = label_out;
            s.append(":\n");
            assert(s@ =~= spec_instr_text(instruction@));
            s
        },
    }
}

/// Renders a whole instruction sequence.
#[verifier::loop_isolation(false)]
fn instructions_text(instructions: &Vec<AInstr>) -> (r: String)
    ensures
        r@ == spec_instrs_text(view_ainstrs(instructions@)),
{
    let ghost all = view_ainstrs(instructions@);
    let mut text = String::new();
    proof {
        assert(all.skip(0) =~= all);
    }
    let mut i: usize = 0;
    while i < instructions.len()
        invariant
            i <= instructions@.len(),
            text@ + spec_instrs_text(all.skip(i as int)) == spec_instrs_text(all),
        decreases instructions@.len() - i,
    {
        proof {
            assert(all.skip(i as int)[0] == instructions@[i as int]@);
            assert(all.skip(i as int).drop_first() =~= all.skip(i as int + 1));
        }
        let ghost pre = text@;
        let line = instruction_text(&instructions[i]);
        text.append(line.as_str());
        i = i + 1;
        proof {
            assert(pre + spec_instr_text(all[i - 1]) + spec_instrs_text(all.skip(i as int)) =~= pre
                + (spec_instr_text(all[i - 1]) + spec_instrs_text(all.skip(i as int))));
        }
    }
    proof {
        assert(all.skip(instructions@.len() as int) =~= Seq::<AInstrV>::empty());
        assert(text@ + Seq::<char>::empty() =~= text@);
    }
    text
}

/// Renders the symbol declaration, label, prologue, and body of a function.
pub fn program_text(ast: &AssemFuncDef) -> (r: String)
    ensures
        r@ == spec_program_text(ast@),
{
    match ast {
        AssemFuncDef::Function(name, instructions) => {
            let body = instructions_text(instructions);
            let mut s = String::from_str(".globl ");
            s.append(name.as_str());
            s.append("\n");
            s.append(name.as_str());
            s.append(":\n");
            s.append("\tpushq %rbp\n\tmovq %rsp, %rbp\n");
            s.append(body.as_str());
            assert(s@ =~= spec_program_text(ast@));
            s
        },
    }
}

/// Renders the whole assembly file: the function and the
/// non-executable-stack note.
pub fn assembly_text(ast: &AssemFuncDef) -> (r: String)
    ensures
        r@ == spec_assembly_text(ast@),
{
    let mut s = program_text(ast);
    s.append(".section .note.GNU-stack,\"\",@progbits");
    s
}

} // verus!

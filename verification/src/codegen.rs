//! Machine code generation: the three-address form becomes x86-64
//! instructions over symbolic ("pseudo") operands, which two later passes
//! turn into a legal, stack-addressed function.
//!
//! Instruction selection is a fixed translation: return values and the
//! dividend pass through the accumulator, the remainder is read from the
//! remainder register, comparisons place the second three-address operand
//! first (so the emitted comparison reads naturally), and logical not is a
//! compare-against-zero followed by a conditional set.  Every variable and
//! temporary becomes a `Pseudo` operand.  [`gen_code`] then assigns stack
//! slots ([`crate::rep_pseudo_reg`]) and legalizes addressing modes
//! ([`crate::rep_invalid_instrs`]), and is proved to produce exactly
//! [`spec_gen_code`].

use vstd::prelude::*;

use crate::rep_invalid_instrs::rep_instrs;
use crate::rep_invalid_instrs::spec_legalize;
use crate::rep_pseudo_reg::rep_pseudo_regs;
use crate::rep_pseudo_reg::spec_rep_instrs;
use crate::tacky::TBinaryOp;
use crate::tacky::TFuncDef;
use crate::tacky::TFuncDefV;
use crate::tacky::TInstr;
use crate::tacky::TInstrV;
use crate::tacky::TUnaryOp;
use crate::tacky::TVal;
use crate::tacky::TValV;

verus! {

/// The registers the generator uses: the accumulator, the remainder
/// register, and the two scratch registers of the legalization pass.
#[derive(Debug, PartialEq, Eq, Structural, Clone, Copy)]
pub enum AReg {
    AX,
    R10,
    DX,
    R11,
}

/// A condition code.
#[derive(Debug, PartialEq, Eq, Structural, Clone, Copy)]
pub enum CondCode {
    E,
    NE,
    G,
    GE,
    L,
    LE,
}

/// A machine unary operation.
#[derive(Debug, PartialEq, Eq, Structural, Clone, Copy)]
pub enum AUnaryOp {
    Neg,
    Not,
}

/// A machine binary operation.
#[derive(Debug, PartialEq, Eq, Structural, Clone, Copy)]
pub enum ABinaryOp {
    Add,
    Sub,
    Mult,
}

/// An operand: an immediate, a register, a symbolic pseudo-register, or a
/// stack slot at a (negative) offset from the frame base.
#[derive(Debug)]
pub enum AOprnd {
    Imm(i32),
    Reg(AReg),
    Pseudo(String),
    Stack(i32),
}

/// One machine instruction.
#[derive(Debug)]
pub enum AInstr {
    Mov(AOprnd, AOprnd),
    Unary(AUnaryOp, AOprnd),
    Binary(ABinaryOp, AOprnd, AOprnd),
    Cmp(AOprnd, AOprnd),
    Idiv(AOprnd),
    Cdq,
    Jmp(String),
    JmpCC(CondCode, String),
    SetCC(CondCode, AOprnd),
    Label(String),
    AllocateStack(i32),
    Ret,
}

/// A generated function: its name and its instructions.
#[derive(Debug)]
pub enum AssemFuncDef {
    Function(String, Vec<AInstr>),
}

/// The mathematical view of an operand; the stack offset is unbounded.
pub enum AOprndV {
    Imm(i32),
    Reg(AReg),
    Pseudo(Seq<char>),
    Stack(int),
}

/// The mathematical view of an instruction.
pub enum AInstrV {
    Mov(AOprndV, AOprndV),
    Unary(AUnaryOp, AOprndV),
    Binary(ABinaryOp, AOprndV, AOprndV),
    Cmp(AOprndV, AOprndV),
    Idiv(AOprndV),
    Cdq,
    Jmp(Seq<char>),
    JmpCC(CondCode, Seq<char>),
    SetCC(CondCode, AOprndV),
    Label(Seq<char>),
    AllocateStack(int),
    Ret,
}

/// The mathematical view of a generated function.
pub enum AssemFuncDefV {
    Function(Seq<char>, Seq<AInstrV>),
}

impl View for AOprnd {
    type V = AOprndV;

    open spec fn view(&self) -> AOprndV {
        match self {
            AOprnd::Imm(v) => AOprndV::Imm(*v),
            AOprnd::Reg(r) => AOprndV::Reg(*r),
            AOprnd::Pseudo(name) => AOprndV::Pseudo(name@),
            AOprnd::Stack(off) => AOprndV::Stack(*off as int),
        }
    }
}

impl Clone for AOprnd {
    /// A clone is the same operand, pseudo-register name included.
    fn clone(&self) -> (r: Self)
        ensures
            r == *self,
    {
        match self {
            AOprnd::Imm(v) => AOprnd::Imm(*v),
            AOprnd::Reg(reg) => AOprnd::Reg(*reg),
            AOprnd::Pseudo(name) => AOprnd::Pseudo(name.clone()),
            AOprnd::Stack(off) => AOprnd::Stack(*off),
        }
    }
}

impl View for AInstr {
    type V = AInstrV;

    open spec fn view(&self) -> AInstrV {
        match self {
            AInstr::Mov(a, b) => AInstrV::Mov(a@, b@),
            AInstr::Unary(op, a) => AInstrV::Unary(*op, a@),
            AInstr::Binary(op, a, b) => AInstrV::Binary(*op, a@, b@),
            AInstr::Cmp(a, b) => AInstrV::Cmp(a@, b@),
            AInstr::Idiv(a) => AInstrV::Idiv(a@),
            AInstr::Cdq => AInstrV::Cdq,
            AInstr::Jmp(l) => AInstrV::Jmp(l@),
            AInstr::JmpCC(c, l) => AInstrV::JmpCC(*c, l@),
            AInstr::SetCC(c, a) => AInstrV::SetCC(*c, a@),
            AInstr::Label(l) => AInstrV::Label(l@),
            AInstr::AllocateStack(v) => AInstrV::AllocateStack(*v as int),
            AInstr::Ret => AInstrV::Ret,
        }
    }
}

impl Clone for AInstr {
    /// A clone is the same instruction, names included.
    fn clone(&self) -> (r: Self)
        ensures
            r == *self,
    {
        match self {
            AInstr::Mov(a, b) => AInstr::Mov(a.clone(), b.clone()),
            AInstr::Unary(op, a) => AInstr::Unary(*op, a.clone()),
            AInstr::Binary(op, a, b) => AInstr::Binary(*op, a.clone(), b.clone()),
            AInstr::Cmp(a, b) => AInstr::Cmp(a.clone(), b.clone()),
            AInstr::Idiv(a) => AInstr::Idiv(a.clone()),
            AInstr::Cdq => AInstr::Cdq,
            AInstr::Jmp(l) => AInstr::Jmp(l.clone()),
            AInstr::JmpCC(c, l) => AInstr::JmpCC(*c, l.clone()),
            AInstr::SetCC(c, a) => AInstr::SetCC(*c, a.clone()),
            AInstr::Label(l) => AInstr::Label(l.clone()),
            AInstr::AllocateStack(v) => AInstr::AllocateStack(*v),
            AInstr::Ret => AInstr::Ret,
        }
    }
}

/// The views of an instruction vector.
pub open spec fn view_ainstrs(s: Seq<AInstr>) -> Seq<AInstrV> {
    s.map(|i: int, t: AInstr| t@)
}

/// Viewing commutes with appending one instruction.
pub broadcast proof fn view_ainstrs_push(s: Seq<AInstr>, x: AInstr)
    ensures
        #[trigger] view_ainstrs(s.push(x)) == view_ainstrs(s).push(x@),
{
    assert(view_ainstrs(s.push(x)) =~= view_ainstrs(s).push(x@));
}

/// Viewing preserves the length.
pub broadcast proof fn view_ainstrs_len(s: Seq<AInstr>)
    ensures
        #[trigger] view_ainstrs(s).len() == s.len(),
{
}

impl View for AssemFuncDef {
    type V = AssemFuncDefV;

    open spec fn view(&self) -> AssemFuncDefV {
        match self {
            AssemFuncDef::Function(name, instrs) => AssemFuncDefV::Function(
                name@,
                view_ainstrs(instrs@),
            ),
        }
    }
}

/// The operand for a three-address value.
pub open spec fn spec_operand(v: TValV) -> AOprndV {
    match v {
        TValV::Constant(val) => AOprndV::Imm(val),
        TValV::Var(ident) => AOprndV::Pseudo(ident),
    }
}

/// The machine operation for a three-address unary operation.  `Not` is
/// special-cased to a comparison before this table is consulted; its image
/// here is arbitrary, chosen only to keep the function total.
pub open spec fn spec_aunop(op: TUnaryOp) -> AUnaryOp {
    match op {
        TUnaryOp::Complement => AUnaryOp::Not,
        TUnaryOp::Negate => AUnaryOp::Neg,
        TUnaryOp::Not => AUnaryOp::Neg,
    }
}

/// The machine operation for an arithmetic three-address operation.
/// Division, remainder and the comparisons are selected before this table
/// is consulted; their images here are arbitrary, chosen only to keep the
/// function total.
pub open spec fn spec_abinop(op: TBinaryOp) -> ABinaryOp {
    match op {
        TBinaryOp::Add => ABinaryOp::Add,
        TBinaryOp::Subtract => ABinaryOp::Sub,
        TBinaryOp::Multiply => ABinaryOp::Mult,
        _ => ABinaryOp::Add,
    }
}

/// The selection of a relational or equality operation: compare the second
/// operand against the first, default the destination to zero, then set it
/// conditionally.
pub open spec fn spec_conditional(code: CondCode, s1: TValV, s2: TValV, dst: TValV) -> Seq<
    AInstrV,
> {
    seq![
        AInstrV::Cmp(spec_operand(s2), spec_operand(s1)),
        AInstrV::Mov(AOprndV::Imm(0), spec_operand(dst)),
        AInstrV::SetCC(code, spec_operand(dst)),
    ]
}

/// The machine instructions selected for one three-address instruction.
pub open spec fn spec_instr_sel(t: TInstrV) -> Seq<AInstrV> {
    match t {
        TInstrV::Return(val) => seq![
            AInstrV::Mov(spec_operand(val), AOprndV::Reg(AReg::AX)),
            AInstrV::Ret,
        ],
        TInstrV::Unary(TUnaryOp::Not, src, dst) => seq![
            AInstrV::Cmp(AOprndV::Imm(0), spec_operand(src)),
            AInstrV::Mov(AOprndV::Imm(0), spec_operand(dst)),
            AInstrV::SetCC(CondCode::E, spec_operand(dst)),
        ],
        TInstrV::Unary(op, src, dst) => seq![
            AInstrV::Mov(spec_operand(src), spec_operand(dst)),
            AInstrV::Unary(spec_aunop(op), spec_operand(dst)),
        ],
        TInstrV::Binary(TBinaryOp::Divide, s1, s2, dst) => seq![
            AInstrV::Mov(spec_operand(s1), AOprndV::Reg(AReg::AX)),
            AInstrV::Cdq,
            AInstrV::Idiv(spec_operand(s2)),
            AInstrV::Mov(AOprndV::Reg(AReg::AX), spec_operand(dst)),
        ],
        TInstrV::Binary(TBinaryOp::Remainder, s1, s2, dst) => seq![
            AInstrV::Mov(spec_operand(s1), AOprndV::Reg(AReg::AX)),
            AInstrV::Cdq,
            AInstrV::Idiv(spec_operand(s2)),
            AInstrV::Mov(AOprndV::Reg(AReg::DX), spec_operand(dst)),
        ],
        TInstrV::Binary(TBinaryOp::GreatThan, s1, s2, dst) => spec_conditional(
            CondCode::G,
            s1,
            s2,
            dst,
        ),
        TInstrV::Binary(TBinaryOp::GreatEqual, s1, s2, dst) => spec_conditional(
            CondCode::GE,
            s1,
            s2,
            dst,
        ),
        TInstrV::Binary(TBinaryOp::LessThan, s1, s2, dst) => spec_conditional(
            CondCode::L,
            s1,
            s2,
            dst,
        ),
        TInstrV::Binary(TBinaryOp::LessEqual, s1, s2, dst) => spec_conditional(
            CondCode::LE,
            s1,
            s2,
            dst,
        ),
        TInstrV::Binary(TBinaryOp::Equal, s1, s2, dst) => spec_conditional(
            CondCode::E,
            s1,
            s2,
            dst,
        ),
        TInstrV::Binary(TBinaryOp::NotEqual, s1, s2, dst) => spec_conditional(
            CondCode::NE,
            s1,
            s2,
            dst,
        ),
        TInstrV::Binary(op, s1, s2, dst) => seq![
            AInstrV::Mov(spec_operand(s1), spec_operand(dst)),
            AInstrV::Binary(spec_abinop(op), spec_operand(s2), spec_operand(dst)),
        ],
        TInstrV::JumpIfZero(val, target) => seq![
            AInstrV::Cmp(AOprndV::Imm(0), spec_operand(val)),
            AInstrV::JmpCC(CondCode::E, target),
        ],
        TInstrV::JumpIfNotZero(val, target) => seq![
            AInstrV::Cmp(AOprndV::Imm(0), spec_operand(val)),
            AInstrV::JmpCC(CondCode::NE, target),
        ],
        TInstrV::Jump(target) => seq![AInstrV::Jmp(target)],
        TInstrV::Copy(src, dst) => seq![AInstrV::Mov(spec_operand(src), spec_operand(dst))],
        TInstrV::Label(val) => seq![AInstrV::Label(val)],
    }
}

/// The selection of a whole instruction sequence.
pub open spec fn spec_sel_instrs(body: Seq<TInstrV>) -> Seq<AInstrV>
    decreases body.len(),
{
    if body.len() == 0 {
        Seq::empty()
    } else {
        spec_instr_sel(body[0]) + spec_sel_instrs(body.drop_first())
    }
}

/// Selection emits at most four instructions per input instruction.
pub proof fn lemma_sel_instrs_len(body: Seq<TInstrV>)
    ensures
        spec_sel_instrs(body).len() <= 4 * body.len(),
    decreases body.len(),
{
    if body.len() > 0 {
        lemma_sel_instrs_len(body.drop_first());
    }
}

/// The whole generator: select instructions, assign each pseudo-register a
/// stack slot (the returned depth's magnitude is the frame size), and
/// legalize the addressing modes under a leading stack allocation.
pub open spec fn spec_gen_code(t: TFuncDefV) -> AssemFuncDefV {
    match t {
        TFuncDefV::Function(name, body) => {
            let sel = spec_sel_instrs(body);
            let (replaced, m, depth) = spec_rep_instrs(sel, Seq::empty(), 0);
            AssemFuncDefV::Function(name, spec_legalize(replaced, -depth))
        },
    }
}

/// Legalization closure at the generator's boundary: every instruction of
/// a generated function is legal, whatever the input program.
pub proof fn lemma_gen_code_legal(t: TFuncDefV)
    ensures
        ({
            match spec_gen_code(t) {
                AssemFuncDefV::Function(_, instrs) => forall|j: int|
                    0 <= j < instrs.len() ==> crate::rep_invalid_instrs::legal(
                        #[trigger] instrs[j],
                    ),
            }
        }),
{
    match t {
        TFuncDefV::Function(_, body) => {
            let sel = spec_sel_instrs(body);
            let (replaced, m, depth) = spec_rep_instrs(sel, Seq::empty(), 0);
            crate::rep_invalid_instrs::lemma_legalize_closure(replaced, -depth);
        },
    }
}

/// Stack sizing at the generator's boundary: the generated function opens
/// with a stack allocation of four bytes per distinct pseudo name of its
/// selected instructions, and the slots handed out are distinct negative
/// multiples of four.
pub proof fn lemma_gen_code_stack_size(t: TFuncDefV)
    ensures
        ({
            match t {
                TFuncDefV::Function(_, body) => {
                    let sel = spec_sel_instrs(body);
                    let (replaced, m, depth) = spec_rep_instrs(sel, Seq::empty(), 0);
                    match spec_gen_code(t) {
                        AssemFuncDefV::Function(_, out) => {
                            &&& out.len() >= 1
                            &&& out[0] == AInstrV::AllocateStack(4 * m.len() as int)
                            &&& crate::rep_pseudo_reg::key_set(m)
                                == crate::rep_pseudo_reg::pseudos_of(sel)
                            &&& crate::rep_pseudo_reg::keys_distinct(m)
                            &&& crate::rep_pseudo_reg::offsets_wf(m)
                        },
                    }
                },
            }
        }),
{
    match t {
        TFuncDefV::Function(_, body) => {
            let sel = spec_sel_instrs(body);
            crate::rep_pseudo_reg::lemma_stack_slot_assignment(sel);
        },
    }
}

/// The executable operand table.
fn operand(val: &TVal) -> (r: AOprnd)
    ensures
        r@ == spec_operand(val@),
{
    match val {
        TVal::Constant(v) => AOprnd::Imm(*v),
        TVal::Var(ident) => AOprnd::Pseudo(ident.clone()),
    }
}

/// The executable unary-operation table; `Not` never reaches it.
fn unary_op(op: &TUnaryOp) -> (r: AUnaryOp)
    requires
        !(*op is Not),
    ensures
        r == spec_aunop(*op),
{
    match op {
        TUnaryOp::Complement => AUnaryOp::Not,
        _ => AUnaryOp::Neg,
    }
}

/// The executable binary-operation table; only the three arithmetic
/// operations reach it.
fn binary_op(op: &TBinaryOp) -> (r: ABinaryOp)
    requires
        *op is Add || *op is Subtract || *op is Multiply,
    ensures
        r == spec_abinop(*op),
{
    match op {
        TBinaryOp::Add => ABinaryOp::Add,
        TBinaryOp::Subtract => ABinaryOp::Sub,
        _ => ABinaryOp::Mult,
    }
}

/// Selects the three instructions of a comparison.
fn conditional(code: CondCode, src1: &TVal, src2: &TVal, dst: &TVal, ainstrs: &mut Vec<AInstr>)
    ensures
        view_ainstrs(final(ainstrs)@) == view_ainstrs(old(ainstrs)@) + spec_conditional(
            code,
            src1@,
            src2@,
            dst@,
        ),
{
    ainstrs.push(AInstr::Cmp(operand(src2), operand(src1)));
    ainstrs.push(AInstr::Mov(AOprnd::Imm(0), operand(dst)));
    ainstrs.push(AInstr::SetCC(code, operand(dst)));
    proof {
        broadcast use view_ainstrs_push, view_ainstrs_len;

        assert(view_ainstrs(ainstrs@) =~= view_ainstrs(old(ainstrs)@) + spec_conditional(
            code,
            src1@,
            src2@,
            dst@,
        ));
    }
}

/// Selects the machine instructions for one three-address instruction.
fn instruction(instr: &TInstr, ainstrs: &mut Vec<AInstr>)
    ensures
        view_ainstrs(final(ainstrs)@) == view_ainstrs(old(ainstrs)@) + spec_instr_sel(instr@),
{
    match instr {
        TInstr::Return(val) => {
            ainstrs.push(AInstr::Mov(operand(val), AOprnd::Reg(AReg::AX)));
            ainstrs.push(AInstr::Ret);
        },
        TInstr::Unary(TUnaryOp::Not, src, dst) => {
            ainstrs.push(AInstr::Cmp(AOprnd::Imm(0), operand(src)));
            ainstrs.push(AInstr::Mov(AOprnd::Imm(0), operand(dst)));
            ainstrs.push(AInstr::SetCC(CondCode::E, operand(dst)));
        },
        TInstr::Unary(op, src, dst) => {
            ainstrs.push(AInstr::Mov(operand(src), operand(dst)));
            ainstrs.push(AInstr::Unary(unary_op(op), operand(dst)));
        },
        TInstr::Binary(TBinaryOp::Divide, src1, src2, dst) => {
            ainstrs.push(AInstr::Mov(operand(src1), AOprnd::Reg(AReg::AX)));
            ainstrs.push(AInstr::Cdq);
            ainstrs.push(AInstr::Idiv(operand(src2)));
            ainstrs.push(AInstr::Mov(AOprnd::Reg(AReg::AX), operand(dst)));
        },
        TInstr::Binary(TBinaryOp::Remainder, src1, src2, dst) => {
            ainstrs.push(AInstr::Mov(operand(src1), AOprnd::Reg(AReg::AX)));
            ainstrs.push(AInstr::Cdq);
            ainstrs.push(AInstr::Idiv(operand(src2)));
            ainstrs.push(AInstr::Mov(AOprnd::Reg(AReg::DX), operand(dst)));
        },
        TInstr::Binary(TBinaryOp::GreatThan, src1, src2, dst) => conditional(
            CondCode::G,
            src1,
            src2,
            dst,
            ainstrs,
        ),
        TInstr::Binary(TBinaryOp::GreatEqual, src1, src2, dst) => conditional(
            CondCode::GE,
            src1,
            src2,
            dst,
            ainstrs,
        ),
        TInstr::Binary(TBinaryOp::LessThan, src1, src2, dst) => conditional(
            CondCode::L,
            src1,
            src2,
            dst,
            ainstrs,
        ),
        TInstr::Binary(TBinaryOp::LessEqual, src1, src2, dst) => conditional(
            CondCode::LE,
            src1,
            src2,
            dst,
            ainstrs,
        ),
        TInstr::Binary(TBinaryOp::Equal, src1, src2, dst) => conditional(
            CondCode::E,
            src1,
            src2,
            dst,
            ainstrs,
        ),
        TInstr::Binary(TBinaryOp::NotEqual, src1, src2, dst) => conditional(
            CondCode::NE,
            src1,
            src2,
            dst,
            ainstrs,
        ),
        TInstr::Binary(op, src1, src2, dst) => {
            ainstrs.push(AInstr::Mov(operand(src1), operand(dst)));
            ainstrs.push(AInstr::Binary(binary_op(op), operand(src2), operand(dst)));
        },
        TInstr::JumpIfZero(val, target) => {
            ainstrs.push(AInstr::Cmp(AOprnd::Imm(0), operand(val)));
            ainstrs.push(AInstr::JmpCC(CondCode::E, target.clone()));
        },
        TInstr::JumpIfNotZero(val, target) => {
            ainstrs.push(AInstr::Cmp(AOprnd::Imm(0), operand(val)));
            ainstrs.push(AInstr::JmpCC(CondCode::NE, target.clone()));
        },
        TInstr::Jump(target) => {
            ainstrs.push(AInstr::Jmp(target.clone()));
        },
        TInstr::Copy(src, dst) => {
            ainstrs.push(AInstr::Mov(operand(src), operand(dst)));
        },
        TInstr::Label(val) => {
            ainstrs.push(AInstr::Label(val.clone()));
        },
    }
    proof {
        broadcast use view_ainstrs_push, view_ainstrs_len;

        assert(view_ainstrs(ainstrs@) =~= view_ainstrs(old(ainstrs)@) + spec_instr_sel(instr@));
    }
}

/// Selects the machine instructions for a whole body.
#[verifier::loop_isolation(false)]
fn instructions(body: &Vec<TInstr>) -> (r: Vec<AInstr>)
    ensures
        view_ainstrs(r@) == spec_sel_instrs(crate::tacky::view_tinstrs(body@)),
{
    let ghost all = crate::tacky::view_tinstrs(body@);
    let mut instructions: Vec<AInstr> = Vec::new();
    proof {
        assert(view_ainstrs(instructions@) =~= Seq::<AInstrV>::empty());
        assert(all.skip(0) =~= all);
    }
    let mut i: usize = 0;
    while i < body.len()
        invariant
            i <= body@.len(),
            view_ainstrs(instructions@) + spec_sel_instrs(all.skip(i as int)) == spec_sel_instrs(
                all,
            ),
        decreases body@.len() - i,
    {
        proof {
            assert(all.skip(i as int)[0] == body@[i as int]@);
            assert(all.skip(i as int).drop_first() =~= all.skip(i as int + 1));
        }
        let ghost pre = view_ainstrs(instructions@);
        instruction(&body[i], &mut instructions);
        i = i + 1;
        proof {
            assert(pre + spec_instr_sel(body@[i - 1]@) + spec_sel_instrs(all.skip(i as int)) =~= pre
                + (spec_instr_sel(body@[i - 1]@) + spec_sel_instrs(all.skip(i as int))));
        }
    }
    proof {
        assert(all.skip(body@.len() as int) =~= Seq::<TInstrV>::empty());
        assert(view_ainstrs(instructions@) + Seq::<AInstrV>::empty() =~= view_ainstrs(
            instructions@,
        ));
    }
    instructions
}

/// Selects the machine form of a whole function, still over pseudo
/// operands.
fn function_decl(ast: &TFuncDef) -> (r: AssemFuncDef)
    ensures
        ({
            match ast@ {
                TFuncDefV::Function(name, body) => r@ == AssemFuncDefV::Function(
                    name,
                    spec_sel_instrs(body),
                ),
            }
        }),
{
    match ast {
        TFuncDef::Function(identifier, body) => AssemFuncDef::Function(
            identifier.clone(),
            instructions(body),
        ),
    }
}

/// Generates the final machine form of a lowered function: instruction
/// selection, stack-slot assignment, and legalization, exactly as
/// [`spec_gen_code`] describes.
pub fn gen_code(ast: TFuncDef) -> (r: AssemFuncDef)
    requires
        ({
            match ast@ {
                TFuncDefV::Function(_, body) => body.len() < 0x0010_0000,
            }
        }),
    ensures
        r@ == spec_gen_code(ast@),
{
    let mut assembly_tree = function_decl(&ast);
    proof {
        match ast@ {
            TFuncDefV::Function(_, body) => {
                lemma_sel_instrs_len(body);
                crate::rep_pseudo_reg::lemma_rep_instrs_len(
                    spec_sel_instrs(body),
                    Seq::empty(),
                    0,
                );
            },
        }
    }
    let stack_size = rep_pseudo_regs(&mut assembly_tree);
    rep_instrs(&mut assembly_tree, stack_size);
    assembly_tree
}

} // verus!

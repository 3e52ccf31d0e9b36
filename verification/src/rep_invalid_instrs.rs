//! Instruction legalization: a corrective pass over the stack-addressed
//! instructions that rewrites every shape x86 cannot encode, routing one
//! operand through a scratch register.
//!
//! A memory-to-memory move, addition, subtraction or comparison routes its
//! source through scratch register R10; a multiply with a memory
//! destination loads the destination into scratch register R11, operates
//! there, and stores back; an immediate `Idiv` operand is first moved into
//! R10; and a comparison whose second operand is an immediate routes that
//! immediate through R11.  The function's stack allocation is inserted as
//! the first instruction.
//!
//! [`lemma_legalize_closure`] proves the pass closed: no illegal shape
//! survives it, whatever the input.

use vstd::prelude::*;

use crate::codegen::ABinaryOp;
use crate::codegen::AInstr;
use crate::codegen::AInstrV;
use crate::codegen::AOprnd;
use crate::codegen::AOprndV;
use crate::codegen::AReg;
use crate::codegen::AssemFuncDef;
use crate::codegen::AssemFuncDefV;
use crate::codegen::view_ainstrs;
use crate::codegen::view_ainstrs_len;
use crate::codegen::view_ainstrs_push;

verus! {

/// The rewriting of one instruction into one or more legal ones.
pub open spec fn spec_fix(i: AInstrV) -> Seq<AInstrV> {
    match i {
        AInstrV::Mov(AOprndV::Stack(src), AOprndV::Stack(dst)) => seq![
            AInstrV::Mov(AOprndV::Stack(src), AOprndV::Reg(AReg::R10)),
            AInstrV::Mov(AOprndV::Reg(AReg::R10), AOprndV::Stack(dst)),
        ],
        AInstrV::Idiv(AOprndV::Imm(val)) => seq![
            AInstrV::Mov(AOprndV::Imm(val), AOprndV::Reg(AReg::R10)),
            AInstrV::Idiv(AOprndV::Reg(AReg::R10)),
        ],
        AInstrV::Binary(ABinaryOp::Add, AOprndV::Stack(src), AOprndV::Stack(dst)) => seq![
            AInstrV::Mov(AOprndV::Stack(src), AOprndV::Reg(AReg::R10)),
            AInstrV::Binary(ABinaryOp::Add, AOprndV::Reg(AReg::R10), AOprndV::Stack(dst)),
        ],
        AInstrV::Binary(ABinaryOp::Sub, AOprndV::Stack(src), AOprndV::Stack(dst)) => seq![
            AInstrV::Mov(AOprndV::Stack(src), AOprndV::Reg(AReg::R10)),
            AInstrV::Binary(ABinaryOp::Sub, AOprndV::Reg(AReg::R10), AOprndV::Stack(dst)),
        ],
        AInstrV::Binary(ABinaryOp::Mult, src, AOprndV::Stack(dst)) => seq![
            AInstrV::Mov(AOprndV::Stack(dst), AOprndV::Reg(AReg::R11)),
            AInstrV::Binary(ABinaryOp::Mult, src, AOprndV::Reg(AReg::R11)),
            AInstrV::Mov(AOprndV::Reg(AReg::R11), AOprndV::Stack(dst)),
        ],
        AInstrV::Cmp(AOprndV::Stack(a), AOprndV::Stack(b)) => seq![
            AInstrV::Mov(AOprndV::Stack(a), AOprndV::Reg(AReg::R10)),
            AInstrV::Cmp(AOprndV::Reg(AReg::R10), AOprndV::Stack(b)),
        ],
        AInstrV::Cmp(src, AOprndV::Imm(val)) => seq![
            AInstrV::Mov(AOprndV::Imm(val), AOprndV::Reg(AReg::R11)),
            AInstrV::Cmp(src, AOprndV::Reg(AReg::R11)),
        ],
        _ => seq![i],
    }
}

/// The rewriting of a whole sequence.
pub open spec fn spec_fix_instrs(s: Seq<AInstrV>) -> Seq<AInstrV>
    decreases s.len(),
{
    if s.len() == 0 {
        Seq::empty()
    } else {
        spec_fix(s[0]) + spec_fix_instrs(s.drop_first())
    }
}

/// The legalized function body: the stack allocation, then the rewritten
/// instructions.
pub open spec fn spec_legalize(s: Seq<AInstrV>, stack_size: int) -> Seq<AInstrV> {
    seq![AInstrV::AllocateStack(stack_size)] + spec_fix_instrs(s)
}

/// What x86 can encode directly, as far as this generator goes: no
/// instruction with two stack operands, no multiply into memory, no
/// immediate `Idiv` operand, and no immediate as a comparison's second
/// operand.
pub open spec fn legal(i: AInstrV) -> bool {
    match i {
        AInstrV::Mov(a, b) => !(a is Stack && b is Stack),
        AInstrV::Binary(op, a, b) => !(a is Stack && b is Stack) && !(op is Mult && b is Stack),
        AInstrV::Cmp(a, b) => !(a is Stack && b is Stack) && !(b is Imm),
        AInstrV::Idiv(a) => !(a is Imm),
        _ => true,
    }
}

/// The rewriting of one instruction yields only legal instructions,
/// whatever its shape.
pub proof fn lemma_fix_legal(i: AInstrV)
    ensures
        forall|j: int| 0 <= j < spec_fix(i).len() ==> legal(#[trigger] spec_fix(i)[j]),
{
}

/// Legalization closure: after the pass, scanning every instruction finds
/// no memory-to-memory move, addition, subtraction or comparison, no
/// multiply into memory, no immediate `Idiv` operand, and no immediate as a
/// comparison's second operand.
pub proof fn lemma_legalize_closure(s: Seq<AInstrV>, stack_size: int)
    ensures
        forall|j: int|
            0 <= j < spec_legalize(s, stack_size).len() ==> legal(
                #[trigger] spec_legalize(s, stack_size)[j],
            ),
    decreases s.len(),
{
    if s.len() == 0 {
    } else {
        lemma_fix_legal(s[0]);
        lemma_legalize_closure(s.drop_first(), stack_size);
        assert forall|j: int| 0 <= j < spec_legalize(s, stack_size).len() implies legal(
            #[trigger] spec_legalize(s, stack_size)[j],
        ) by {
            let fixed = spec_fix(s[0]);
            if j == 0 {
            } else if j <= fixed.len() {
                assert(spec_legalize(s, stack_size)[j] == fixed[j - 1]);
            } else {
                assert(spec_legalize(s, stack_size)[j] == spec_legalize(
                    s.drop_first(),
                    stack_size,
                )[j - fixed.len()]);
            }
        }
    }
}

/// Rewrites one `Binary` instruction.
fn check_binary(instr: &AInstr, new_instrs: &mut Vec<AInstr>)
    requires
        old(new_instrs)@.len() < usize::MAX - 3,
        *instr is Binary,
    ensures
        view_ainstrs(final(new_instrs)@) == view_ainstrs(old(new_instrs)@) + spec_fix(instr@),
{
    match instr {
        AInstr::Binary(ABinaryOp::Add, AOprnd::Stack(src), AOprnd::Stack(dst)) => {
            new_instrs.push(AInstr::Mov(AOprnd::Stack(*src), AOprnd::Reg(AReg::R10)));
            new_instrs.push(
                AInstr::Binary(ABinaryOp::Add, AOprnd::Reg(AReg::R10), AOprnd::Stack(*dst)),
            );
        },
        AInstr::Binary(ABinaryOp::Sub, AOprnd::Stack(src), AOprnd::Stack(dst)) => {
            new_instrs.push(AInstr::Mov(AOprnd::Stack(*src), AOprnd::Reg(AReg::R10)));
            new_instrs.push(
                AInstr::Binary(ABinaryOp::Sub, AOprnd::Reg(AReg::R10), AOprnd::Stack(*dst)),
            );
        },
        AInstr::Binary(ABinaryOp::Mult, src_instr, AOprnd::Stack(dst)) => {
            new_instrs.push(AInstr::Mov(AOprnd::Stack(*dst), AOprnd::Reg(AReg::R11)));
            new_instrs.push(
                AInstr::Binary(ABinaryOp::Mult, src_instr.clone(), AOprnd::Reg(AReg::R11)),
            );
            new_instrs.push(AInstr::Mov(AOprnd::Reg(AReg::R11), AOprnd::Stack(*dst)));
        },
        _ => {
            new_instrs.push(instr.clone());
        },
    }
    proof {
        broadcast use view_ainstrs_push, view_ainstrs_len;

        assert(view_ainstrs(new_instrs@) =~= view_ainstrs(old(new_instrs)@) + spec_fix(instr@));
    }
}

/// Rewrites one `Cmp` instruction.
fn check_cmp(instr: &AInstr, new_instrs: &mut Vec<AInstr>)
    requires
        old(new_instrs)@.len() < usize::MAX - 3,
        *instr is Cmp,
    ensures
        view_ainstrs(final(new_instrs)@) == view_ainstrs(old(new_instrs)@) + spec_fix(instr@),
{
    match instr {
        AInstr::Cmp(AOprnd::Stack(src1), AOprnd::Stack(src2)) => {
            new_instrs.push(AInstr::Mov(AOprnd::Stack(*src1), AOprnd::Reg(AReg::R10)));
            new_instrs.push(AInstr::Cmp(AOprnd::Reg(AReg::R10), AOprnd::Stack(*src2)));
        },
        AInstr::Cmp(src, AOprnd::Imm(val)) => {
            new_instrs.push(AInstr::Mov(AOprnd::Imm(*val), AOprnd::Reg(AReg::R11)));
            new_instrs.push(AInstr::Cmp(src.clone(), AOprnd::Reg(AReg::R11)));
        },
        _ => {
            new_instrs.push(instr.clone());
        },
    }
    proof {
        broadcast use view_ainstrs_push, view_ainstrs_len;

        assert(view_ainstrs(new_instrs@) =~= view_ainstrs(old(new_instrs)@) + spec_fix(instr@));
    }
}

/// Rewrites a whole instruction sequence.
#[verifier::loop_isolation(false)]
fn check_instructions(instrs: &Vec<AInstr>) -> (r: Vec<AInstr>)
    requires
        instrs@.len() < 0x1000_0000,
    ensures
        view_ainstrs(r@) == spec_fix_instrs(view_ainstrs(instrs@)),
{
    let ghost all = view_ainstrs(instrs@);
    let mut new_instrs: Vec<AInstr> = Vec::new();
    proof {
        assert(view_ainstrs(new_instrs@) =~= Seq::<AInstrV>::empty());
        assert(all.skip(0) =~= all);
    }
    let mut i: usize = 0;
    while i < instrs.len()
        invariant
            i <= instrs@.len(),
            new_instrs@.len() <= 3 * i,
            view_ainstrs(new_instrs@) + spec_fix_instrs(all.skip(i as int)) == spec_fix_instrs(
                all,
            ),
        decreases instrs@.len() - i,
    {
        proof {
            broadcast use view_ainstrs_push, view_ainstrs_len;

            assert(all.skip(i as int)[0] == instrs@[i as int]@);
            assert(all.skip(i as int).drop_first() =~= all.skip(i as int + 1));
        }
        let ghost pre = view_ainstrs(new_instrs@);
        let instr = &instrs[i];
        match instr {
            AInstr::Mov(AOprnd::Stack(src), AOprnd::Stack(dst)) => {
                new_instrs.push(AInstr::Mov(AOprnd::Stack(*src), AOprnd::Reg(AReg::R10)));
                new_instrs.push(AInstr::Mov(AOprnd::Reg(AReg::R10), AOprnd::Stack(*dst)));
                proof {
                    broadcast use view_ainstrs_push;

                    assert(view_ainstrs(new_instrs@) =~= pre + spec_fix(instrs@[i as int]@));
                }
            },
            AInstr::Idiv(AOprnd::Imm(val)) => {
                new_instrs.push(AInstr::Mov(AOprnd::Imm(*val), AOprnd::Reg(AReg::R10)));
                new_instrs.push(AInstr::Idiv(AOprnd::Reg(AReg::R10)));
                proof {
                    broadcast use view_ainstrs_push;

                    assert(view_ainstrs(new_instrs@) =~= pre + spec_fix(instrs@[i as int]@));
                }
            },
            AInstr::Binary(_, _, _) => check_binary(instr, &mut new_instrs),
            AInstr::Cmp(_, _) => check_cmp(instr, &mut new_instrs),
            _ => {
                new_instrs.push(instr.clone());
                proof {
                    broadcast use view_ainstrs_push;

                    assert(view_ainstrs(new_instrs@) =~= pre + spec_fix(instrs@[i as int]@));
                }
            },
        }
        i = i + 1;
        proof {
            assert(pre + spec_fix(all[i - 1]) + spec_fix_instrs(all.skip(i as int)) =~= pre + (
            spec_fix(all[i - 1]) + spec_fix_instrs(all.skip(i as int))));
        }
    }
    proof {
        assert(all.skip(instrs@.len() as int) =~= Seq::<AInstrV>::empty());
        assert(view_ainstrs(new_instrs@) + Seq::<AInstrV>::empty() =~= view_ainstrs(new_instrs@));
    }
    new_instrs
}

/// Legalizes a whole function, inserting its stack allocation first.
fn check_func(ast: &mut AssemFuncDef, stack_size: i32)
    requires
        ({
            match old(ast)@ {
                AssemFuncDefV::Function(_, instrs) => instrs.len() < 0x1000_0000,
            }
        }),
    ensures
        ({
            match old(ast)@ {
                AssemFuncDefV::Function(name, instrs) => final(ast)@ == AssemFuncDefV::Function(
                    name,
                    spec_legalize(instrs, stack_size as int),
                ),
            }
        }),
{
    match ast {
        AssemFuncDef::Function(_, instrs) => {
            let mut new_instrs = check_instructions(instrs);
            let ghost pre = new_instrs@;
            new_instrs.insert(0, AInstr::AllocateStack(stack_size));
            proof {
                assert(view_ainstrs(new_instrs@) =~= seq![
                    AInstrV::AllocateStack(stack_size as int),
                ] + view_ainstrs(pre));
            }
            *instrs = new_instrs;
        },
    }
}

/// Rewrites every instruction that violates the target's addressing-mode
/// constraints and inserts the function's stack allocation, exactly as
/// [`spec_legalize`] describes.
pub fn rep_instrs(ast: &mut AssemFuncDef, stack_size: i32)
    requires
        ({
            match old(ast)@ {
                AssemFuncDefV::Function(_, instrs) => instrs.len() < 0x1000_0000,
            }
        }),
    ensures
        ({
            match old(ast)@ {
                AssemFuncDefV::Function(name, instrs) => final(ast)@ == AssemFuncDefV::Function(
                    name,
                    spec_legalize(instrs, stack_size as int),
                ),
            }
        }),
{
    check_func(ast, stack_size);
}

} // verus!

//! Lowering to three-address form: a resolved syntax tree becomes a flat
//! instruction list over constants and named values, with explicit labels
//! and jumps for the short-circuit boolean operators.
//!
//! Expression lowering is post-order: each sub-expression yields a value,
//! and compound operators store their result in a fresh temporary.  A
//! temporary's name joins a stem that ends in a dot (`temp.` for values,
//! `and_or_result.` for short-circuit results) with the instruction count
//! at the moment its first write is appended; since the list only grows,
//! counts never repeat per stem, and since a resolver-generated variable is
//! a dot-free identifier before its dot, no temporary can name a variable.
//! Both facts are proved in [`lemma_ir_temporaries_fresh`].
//! Logical AND evaluates its left operand and jumps to a short-circuit label
//! when it is zero; otherwise the right operand decides.  Logical OR is the
//! mirror image.  Division and remainder share the sign-extend /
//! divide-in-accumulator convention, and an implicit `Return(Constant(0))`
//! is appended after the body so every function returns.
//!
//! The whole lowering is specified by [`spec_gen_tacky`] and [`gen_tacky`]
//! is proved to return exactly its result.

use vstd::prelude::*;

use crate::ast::BinaryOp;
use crate::ast::BlockItem;
use crate::ast::BlockItemV;
use crate::ast::Decl;
use crate::ast::DeclV;
use crate::ast::Expr;
use crate::ast::ExprV;
use crate::ast::FuncDef;
use crate::ast::FuncDefV;
use crate::ast::Stmt;
use crate::ast::StmtV;
use crate::ast::UnaryOp;
use crate::ast::expr_height;
use crate::names::dot_free;
use crate::names::dotted_name;
use crate::names::resolved_name;
use crate::names::make_dotted_name;

verus! {

/// A unary operation of the three-address form.
#[derive(Debug, PartialEq, Eq, Structural, Clone, Copy)]
pub enum TUnaryOp {
    Complement,
    Negate,
    Not,
}

/// A binary operation of the three-address form; the short-circuit
/// operators have no counterpart here, they lower to jumps.
#[derive(Debug, PartialEq, Eq, Structural, Clone, Copy)]
pub enum TBinaryOp {
    Add,
    Subtract,
    Multiply,
    Divide,
    Remainder,
    Equal,
    NotEqual,
    LessThan,
    LessEqual,
    GreatThan,
    GreatEqual,
}

/// A value: a constant or a named variable or temporary.
#[derive(Debug)]
pub enum TVal {
    Constant(i32),
    Var(String),
}

/// One instruction of the three-address form.
#[derive(Debug)]
pub enum TInstr {
    Return(TVal),
    Unary(TUnaryOp, TVal, TVal),
    Binary(TBinaryOp, TVal, TVal, TVal),
    Copy(TVal, TVal),
    Jump(String),
    JumpIfZero(TVal, String),
    JumpIfNotZero(TVal, String),
    Label(String),
}

/// A lowered function: its name and its instructions.
#[derive(Debug)]
pub enum TFuncDef {
    Function(String, Vec<TInstr>),
}

/// The mathematical view of a value.
pub enum TValV {
    Constant(i32),
    Var(Seq<char>),
}

/// The mathematical view of an instruction.
pub enum TInstrV {
    Return(TValV),
    Unary(TUnaryOp, TValV, TValV),
    Binary(TBinaryOp, TValV, TValV, TValV),
    Copy(TValV, TValV),
    Jump(Seq<char>),
    JumpIfZero(TValV, Seq<char>),
    JumpIfNotZero(TValV, Seq<char>),
    Label(Seq<char>),
}

/// The mathematical view of a lowered function.
pub enum TFuncDefV {
    Function(Seq<char>, Seq<TInstrV>),
}

impl View for TVal {
    type V = TValV;

    open spec fn view(&self) -> TValV {
        match self {
            TVal::Constant(v) => TValV::Constant(*v),
            TVal::Var(name) => TValV::Var(name@),
        }
    }
}

impl Clone for TVal {
    /// A clone is the same value, name text included.
    fn clone(&self) -> (r: Self)
        ensures
            r == *self,
    {
        match self {
            TVal::Constant(v) => TVal::Constant(*v),
            TVal::Var(name) => TVal::Var(name.clone()),
        }
    }
}

impl View for TInstr {
    type V = TInstrV;

    open spec fn view(&self) -> TInstrV {
        match self {
            TInstr::Return(v) => TInstrV::Return(v@),
            TInstr::Unary(op, src, dst) => TInstrV::Unary(*op, src@, dst@),
            TInstr::Binary(op, s1, s2, dst) => TInstrV::Binary(*op, s1@, s2@, dst@),
            TInstr::Copy(src, dst) => TInstrV::Copy(src@, dst@),
            TInstr::Jump(l) => TInstrV::Jump(l@),
            TInstr::JumpIfZero(v, l) => TInstrV::JumpIfZero(v@, l@),
            TInstr::JumpIfNotZero(v, l) => TInstrV::JumpIfNotZero(v@, l@),
            TInstr::Label(l) => TInstrV::Label(l@),
        }
    }
}

/// The views of an instruction vector.
pub open spec fn view_tinstrs(s: Seq<TInstr>) -> Seq<TInstrV> {
    s.map(|i: int, t: TInstr| t@)
}

/// Viewing commutes with appending one instruction.
pub broadcast proof fn view_tinstrs_push(s: Seq<TInstr>, x: TInstr)
    ensures
        #[trigger] view_tinstrs(s.push(x)) == view_tinstrs(s).push(x@),
{
    assert(view_tinstrs(s.push(x)) =~= view_tinstrs(s).push(x@));
}

/// Viewing preserves the length.
pub broadcast proof fn view_tinstrs_len(s: Seq<TInstr>)
    ensures
        #[trigger] view_tinstrs(s).len() == s.len(),
{
}

impl View for TFuncDef {
    type V = TFuncDefV;

    open spec fn view(&self) -> TFuncDefV {
        match self {
            TFuncDef::Function(name, instrs) => TFuncDefV::Function(name@, view_tinstrs(instrs@)),
        }
    }
}

/// The label a jump instruction references, if it is one.
pub open spec fn jump_target(i: TInstrV) -> Option<Seq<char>> {
    match i {
        TInstrV::Jump(l) => Some(l),
        TInstrV::JumpIfZero(_, l) => Some(l),
        TInstrV::JumpIfNotZero(_, l) => Some(l),
        _ => None,
    }
}

/// `name` is a short-circuit label made with counter `k`.
pub open spec fn sc_label_with(name: Seq<char>, k: int) -> bool {
    name == dotted_name("short_cond"@, k as nat) || name == dotted_name("jmp_cond"@, k as nat)
}

/// A short-circuit label whose counter was drawn while the instruction
/// count lay in `[lo, hi)`.
pub open spec fn is_sc_label(name: Seq<char>, lo: int, hi: int) -> bool {
    exists|k: int| 0 <= k && lo <= k < hi && #[trigger] sc_label_with(name, k)
}

/// The two label stems contain no dot and differ from each other.
proof fn lemma_label_stems()
    ensures
        crate::names::dot_free("short_cond"@),
        crate::names::dot_free("jmp_cond"@),
        "short_cond"@ != "jmp_cond"@,
{
    broadcast use vstd::string::axiom_str_literal_len, vstd::string::axiom_str_literal_get_char;

    reveal_strlit("short_cond");
    reveal_strlit("jmp_cond");
    assert("short_cond"@.len() == 10);
    assert("jmp_cond"@.len() == 8);
}

/// Distinct counters, or distinct stems, make distinct label names.
proof fn lemma_sc_labels_differ(n1: Seq<char>, lo1: int, hi1: int, n2: Seq<char>, lo2: int, hi2: int)
    requires
        is_sc_label(n1, lo1, hi1),
        is_sc_label(n2, lo2, hi2),
        hi1 <= lo2,
    ensures
        n1 != n2,
{
    lemma_label_stems();
    let k1 = choose|k: int| 0 <= k && lo1 <= k < hi1 && #[trigger] sc_label_with(n1, k);
    let k2 = choose|k: int| 0 <= k && lo2 <= k < hi2 && #[trigger] sc_label_with(n2, k);
    if n1 == n2 {
        if n1 == dotted_name("short_cond"@, k1 as nat) {
            if n2 == dotted_name("short_cond"@, k2 as nat) {
                crate::names::lemma_dotted_name_injective(
                    "short_cond"@,
                    k1 as nat,
                    "short_cond"@,
                    k2 as nat,
                );
            } else {
                crate::names::lemma_dotted_name_injective(
                    "short_cond"@,
                    k1 as nat,
                    "jmp_cond"@,
                    k2 as nat,
                );
            }
        } else {
            if n2 == dotted_name("short_cond"@, k2 as nat) {
                crate::names::lemma_dotted_name_injective(
                    "jmp_cond"@,
                    k1 as nat,
                    "short_cond"@,
                    k2 as nat,
                );
            } else {
                crate::names::lemma_dotted_name_injective(
                    "jmp_cond"@,
                    k1 as nat,
                    "jmp_cond"@,
                    k2 as nat,
                );
            }
        }
    }
}

/// The label discipline of the instructions appended after the prefix
/// `ins`: the prefix is untouched; every new label is a fresh
/// short-circuit label with a counter drawn from the segment; new labels
/// are pairwise distinct; and every new jump targets a label defined in
/// the segment.
pub open spec fn seg_label_props(ins: Seq<TInstrV>, out: Seq<TInstrV>) -> bool {
    &&& ins.len() <= out.len()
    &&& forall|i: int| 0 <= i < ins.len() ==> #[trigger] out[i] == ins[i]
    &&& forall|i: int|
        ins.len() <= i < out.len() && (#[trigger] out[i]) is Label ==> is_sc_label(
            out[i]->Label_0,
            ins.len() as int,
            out.len() as int,
        )
    &&& forall|i: int, j: int|
        ins.len() <= i < j < out.len() && (#[trigger] out[i]) is Label && (#[trigger] out[j])
            is Label ==> out[i]->Label_0 != out[j]->Label_0
    &&& forall|i: int|
        ins.len() <= i < out.len() && (#[trigger] jump_target(out[i])) is Some ==> exists|j: int|
            ins.len() <= j < out.len() && out[j] == TInstrV::Label(jump_target(out[i])->0)
}

/// A wider counter window keeps a label fresh.
proof fn lemma_sc_label_widen(name: Seq<char>, lo1: int, hi1: int, lo2: int, hi2: int)
    requires
        is_sc_label(name, lo1, hi1),
        lo2 <= lo1,
        hi1 <= hi2,
    ensures
        is_sc_label(name, lo2, hi2),
{
    let k = choose|k: int| 0 <= k && lo1 <= k < hi1 && #[trigger] sc_label_with(name, k);
    assert(0 <= k && lo2 <= k < hi2 && sc_label_with(name, k));
}

/// An empty segment obeys the discipline.
proof fn lemma_seg_nil(ins: Seq<TInstrV>)
    ensures
        seg_label_props(ins, ins),
{
}

/// Two segments in a row obey the discipline together.
proof fn lemma_seg_trans(ins: Seq<TInstrV>, mid: Seq<TInstrV>, out: Seq<TInstrV>)
    requires
        seg_label_props(ins, mid),
        seg_label_props(mid, out),
    ensures
        seg_label_props(ins, out),
{
    let a = ins.len() as int;
    let b = mid.len() as int;
    let c = out.len() as int;
    assert forall|i: int| a <= i < c && (#[trigger] out[i]) is Label implies is_sc_label(
        out[i]->Label_0,
        a,
        c,
    ) by {
        if i < b {
            assert(out[i] == mid[i]);
            lemma_sc_label_widen(out[i]->Label_0, a, b, a, c);
        } else {
            lemma_sc_label_widen(out[i]->Label_0, b, c, a, c);
        }
    }
    assert forall|i: int, j: int|
        a <= i < j < c && (#[trigger] out[i]) is Label && (#[trigger] out[j])
            is Label implies out[i]->Label_0 != out[j]->Label_0 by {
        if j < b {
            assert(out[i] == mid[i] && out[j] == mid[j]);
        } else if i >= b {
        } else {
            assert(out[i] == mid[i]);
            lemma_sc_labels_differ(out[i]->Label_0, a, b, out[j]->Label_0, b, c);
        }
    }
    assert forall|i: int|
        a <= i < c && (#[trigger] jump_target(out[i])) is Some implies exists|j: int|
            a <= j < c && out[j] == TInstrV::Label(jump_target(out[i])->0) by {
        if i < b {
            assert(out[i] == mid[i]);
            let j = choose|j: int| a <= j < b && mid[j] == TInstrV::Label(jump_target(mid[i])->0);
            assert(out[j] == TInstrV::Label(jump_target(out[i])->0));
        } else {
            let j = choose|j: int| b <= j < c && out[j] == TInstrV::Label(jump_target(out[i])->0);
            assert(a <= j < c && out[j] == TInstrV::Label(jump_target(out[i])->0));
        }
    }
}

/// Appending an instruction that is neither a label nor a jump keeps the
/// discipline.
proof fn lemma_seg_push_plain(ins: Seq<TInstrV>, mid: Seq<TInstrV>, x: TInstrV)
    requires
        seg_label_props(ins, mid),
        !(x is Label),
        jump_target(x) is None,
    ensures
        seg_label_props(ins, mid.push(x)),
{
    let a = ins.len() as int;
    let b = mid.len() as int;
    let out = mid.push(x);
    assert forall|i: int| a <= i < b + 1 && (#[trigger] out[i]) is Label implies is_sc_label(
        out[i]->Label_0,
        a,
        b + 1,
    ) by {
        assert(i < b && out[i] == mid[i]);
        lemma_sc_label_widen(out[i]->Label_0, a, b, a, b + 1);
    }
    assert forall|i: int, j: int|
        a <= i < j < b + 1 && (#[trigger] out[i]) is Label && (#[trigger] out[j])
            is Label implies out[i]->Label_0 != out[j]->Label_0 by {
        assert(j < b && out[i] == mid[i] && out[j] == mid[j]);
    }
    assert forall|i: int|
        a <= i < b + 1 && (#[trigger] jump_target(out[i])) is Some implies exists|j: int|
            a <= j < b + 1 && out[j] == TInstrV::Label(jump_target(out[i])->0) by {
        assert(i < b && out[i] == mid[i]);
        let j = choose|j: int| a <= j < b && mid[j] == TInstrV::Label(jump_target(mid[i])->0);
        assert(out[j] == TInstrV::Label(jump_target(out[i])->0));
    }
}

/// The three-address operation for a unary operator.
pub open spec fn spec_tunop(op: UnaryOp) -> TUnaryOp {
    match op {
        UnaryOp::Complement => TUnaryOp::Complement,
        UnaryOp::Negate => TUnaryOp::Negate,
        UnaryOp::Not => TUnaryOp::Not,
    }
}

/// The three-address operation for a non-short-circuit binary operator.
/// The parser lowers `=` to its own `Assignment` node, so the `Assign` case
/// can never reach an instruction; it is mapped arbitrarily to keep the
/// function total.
pub open spec fn spec_tbinop(op: BinaryOp) -> TBinaryOp {
    match op {
        BinaryOp::Add => TBinaryOp::Add,
        BinaryOp::Subtract => TBinaryOp::Subtract,
        BinaryOp::Multiply => TBinaryOp::Multiply,
        BinaryOp::Divide => TBinaryOp::Divide,
        BinaryOp::Remainder => TBinaryOp::Remainder,
        BinaryOp::Equal => TBinaryOp::Equal,
        BinaryOp::NotEqual => TBinaryOp::NotEqual,
        BinaryOp::LessThan => TBinaryOp::LessThan,
        BinaryOp::LessEqual => TBinaryOp::LessEqual,
        BinaryOp::GreatThan => TBinaryOp::GreatThan,
        BinaryOp::GreatEqual => TBinaryOp::GreatEqual,
        BinaryOp::And => TBinaryOp::Add,
        BinaryOp::Or => TBinaryOp::Add,
        BinaryOp::Assign => TBinaryOp::Add,
    }
}

/// Lowering an expression under the instructions emitted so far: the value
/// the expression denotes and the extended instruction sequence.  Temporary
/// and label names are derived from the instruction count at the moment of
/// their creation.
pub open spec fn spec_expr_val(e: ExprV, instrs: Seq<TInstrV>) -> (TValV, Seq<TInstrV>)
    decreases e,
{
    match e {
        ExprV::Constant(v) => (TValV::Constant(v), instrs),
        ExprV::Var(name) => (TValV::Var(name), instrs),
        ExprV::Unary(op, inner) => {
            let (src, ins1) = spec_expr_val(*inner, instrs);
            let dst = TValV::Var(dotted_name("temp."@, ins1.len()));
            (dst, ins1.push(TInstrV::Unary(spec_tunop(op), src, dst)))
        },
        ExprV::Binary(op, l, r) => {
            if op is And || op is Or {
                let (v1, ins1) = spec_expr_val(*l, instrs);
                let short_cond = dotted_name("short_cond"@, ins1.len());
                if op is And {
                    let ins2 = ins1.push(TInstrV::JumpIfZero(v1, short_cond));
                    let (v2, ins3) = spec_expr_val(*r, ins2);
                    let ins3b = ins3.push(TInstrV::JumpIfZero(v2, short_cond));
                    let result = TValV::Var(dotted_name("and_or_result."@, ins3b.len()));
                    let ins4 = ins3b.push(TInstrV::Copy(TValV::Constant(1), result));
                    let jmp_cond = dotted_name("jmp_cond"@, ins4.len());
                    let ins5 = ins4.push(TInstrV::Jump(jmp_cond)).push(
                        TInstrV::Label(short_cond),
                    ).push(TInstrV::Copy(TValV::Constant(0), result)).push(
                        TInstrV::Label(jmp_cond),
                    );
                    (result, ins5)
                } else {
                    let ins2 = ins1.push(TInstrV::JumpIfNotZero(v1, short_cond));
                    let (v2, ins3) = spec_expr_val(*r, ins2);
                    let ins3b = ins3.push(TInstrV::JumpIfNotZero(v2, short_cond));
                    let result = TValV::Var(dotted_name("and_or_result."@, ins3b.len()));
                    let ins4 = ins3b.push(TInstrV::Copy(TValV::Constant(0), result));
                    let jmp_cond = dotted_name("jmp_cond"@, ins4.len());
                    let ins5 = ins4.push(TInstrV::Jump(jmp_cond)).push(
                        TInstrV::Label(short_cond),
                    ).push(TInstrV::Copy(TValV::Constant(1), result)).push(
                        TInstrV::Label(jmp_cond),
                    );
                    (result, ins5)
                }
            } else {
                let (v1, ins1) = spec_expr_val(*l, instrs);
                let (v2, ins2) = spec_expr_val(*r, ins1);
                let dst = TValV::Var(dotted_name("temp."@, ins2.len()));
                (dst, ins2.push(TInstrV::Binary(spec_tbinop(op), v1, v2, dst)))
            }
        },
        ExprV::Assignment(l, r) => {
            let name = match *l {
                ExprV::Var(n) => n,
                _ => Seq::empty(),
            };
            let (res, ins1) = spec_expr_val(*r, instrs);
            (TValV::Var(name), ins1.push(TInstrV::Copy(res, TValV::Var(name))))
        },
    }
}

/// The height of an expression view: the termination measure for the
/// mutually recursive label-discipline lemmas.
pub open spec fn exprv_height(e: ExprV) -> nat
    decreases e,
{
    match e {
        ExprV::Constant(_) => 0,
        ExprV::Var(_) => 0,
        ExprV::Unary(_, inner) => exprv_height(*inner) + 1,
        ExprV::Binary(_, l, r) => 1 + if exprv_height(*l) >= exprv_height(*r) {
            exprv_height(*l)
        } else {
            exprv_height(*r)
        },
        ExprV::Assignment(l, r) => 1 + if exprv_height(*l) >= exprv_height(*r) {
            exprv_height(*l)
        } else {
            exprv_height(*r)
        },
    }
}

/// Lowering an expression appends instructions that obey the label
/// discipline: fresh, pairwise-distinct short-circuit labels, every one of
/// them the target of jumps from the same expansion.
proof fn lemma_expr_val_labels(e: ExprV, ins: Seq<TInstrV>)
    ensures
        seg_label_props(ins, spec_expr_val(e, ins).1),
    decreases exprv_height(e), 1int,
{
    match e {
        ExprV::Constant(_) => {
            lemma_seg_nil(ins);
        },
        ExprV::Var(_) => {
            lemma_seg_nil(ins);
        },
        ExprV::Unary(op, inner) => {
            lemma_expr_val_labels(*inner, ins);
            let sub = spec_expr_val(*inner, ins);
            lemma_seg_push_plain(
                ins,
                sub.1,
                TInstrV::Unary(spec_tunop(op), sub.0, TValV::Var(dotted_name("temp."@, sub.1.len()))),
            );
        },
        ExprV::Binary(op, l, r) => {
            if op is And || op is Or {
                lemma_and_or_labels(op, *l, *r, ins);
            } else {
                lemma_expr_val_labels(*l, ins);
                let sub1 = spec_expr_val(*l, ins);
                lemma_expr_val_labels(*r, sub1.1);
                let sub2 = spec_expr_val(*r, sub1.1);
                lemma_seg_trans(ins, sub1.1, sub2.1);
                lemma_seg_push_plain(
                    ins,
                    sub2.1,
                    TInstrV::Binary(
                        spec_tbinop(op),
                        sub1.0,
                        sub2.0,
                        TValV::Var(dotted_name("temp."@, sub2.1.len())),
                    ),
                );
            }
        },
        ExprV::Assignment(l, r) => {
            let name = match *l {
                ExprV::Var(n) => n,
                _ => Seq::empty(),
            };
            lemma_expr_val_labels(*r, ins);
            let sub = spec_expr_val(*r, ins);
            lemma_seg_push_plain(ins, sub.1, TInstrV::Copy(sub.0, TValV::Var(name)));
        },
    }
}

/// The short-circuit expansion obeys the label discipline: its two labels
/// carry the counters of moments strictly apart from each other and from
/// every label of the two operand segments, and each of its jumps targets
/// one of the two labels it defines.
proof fn lemma_and_or_labels(op: BinaryOp, l: ExprV, r: ExprV, ins: Seq<TInstrV>)
    requires
        op is And || op is Or,
    ensures
        seg_label_props(
            ins,
            spec_expr_val(ExprV::Binary(op, Box::new(l), Box::new(r)), ins).1,
        ),
    decreases (if exprv_height(l) >= exprv_height(r) {
        exprv_height(l)
    } else {
        exprv_height(r)
    }) + 1, 0int,
{
    let a = ins.len() as int;
    lemma_expr_val_labels(l, ins);
    let sub1 = spec_expr_val(l, ins);
    let b = sub1.1.len() as int;
    let short = dotted_name("short_cond"@, sub1.1.len());
    let jz1 = if op is And {
        TInstrV::JumpIfZero(sub1.0, short)
    } else {
        TInstrV::JumpIfNotZero(sub1.0, short)
    };
    let mid2 = sub1.1.push(jz1);
    lemma_expr_val_labels(r, mid2);
    let sub2 = spec_expr_val(r, mid2);
    let c = sub2.1.len() as int;
    let jz2 = if op is And {
        TInstrV::JumpIfZero(sub2.0, short)
    } else {
        TInstrV::JumpIfNotZero(sub2.0, short)
    };
    let result = TValV::Var(dotted_name("and_or_result."@, sub2.1.push(jz2).len()));
    let first_copy = if op is And {
        TInstrV::Copy(TValV::Constant(1), result)
    } else {
        TInstrV::Copy(TValV::Constant(0), result)
    };
    let second_copy = if op is And {
        TInstrV::Copy(TValV::Constant(0), result)
    } else {
        TInstrV::Copy(TValV::Constant(1), result)
    };
    let ins4 = sub2.1.push(jz2).push(first_copy);
    let jmp = dotted_name("jmp_cond"@, ins4.len());
    let out = ins4.push(TInstrV::Jump(jmp)).push(TInstrV::Label(short)).push(second_copy).push(
        TInstrV::Label(jmp),
    );
    assert(spec_expr_val(ExprV::Binary(op, Box::new(l), Box::new(r)), ins).1 == out);
    assert(out.len() == c + 6);
    assert(a <= b && b + 1 <= c);
    assert(sc_label_with(short, b));
    assert(sc_label_with(jmp, c + 2));
    assert(is_sc_label(short, b, b + 1));
    assert(is_sc_label(jmp, c + 2, c + 3));

    // Where each piece of the expansion sits in `out`.
    assert(forall|i: int| 0 <= i < c ==> #[trigger] out[i] == sub2.1[i]);
    assert(forall|i: int| 0 <= i < b ==> #[trigger] out[i] == sub1.1[i]);
    assert(out[b] == jz1);
    assert(out[c] == jz2);
    assert(out[c + 1] == first_copy);
    assert(out[c + 2] == TInstrV::Jump(jmp));
    assert(out[c + 3] == TInstrV::Label(short));
    assert(out[c + 4] == second_copy);
    assert(out[c + 5] == TInstrV::Label(jmp));

    // The prefix is untouched.
    assert(forall|i: int| 0 <= i < a ==> #[trigger] out[i] == ins[i]);

    // Every new label is fresh for the whole segment.
    assert forall|i: int| a <= i < c + 6 && (#[trigger] out[i]) is Label implies is_sc_label(
        out[i]->Label_0,
        a,
        c + 6,
    ) by {
        if i < b {
            lemma_sc_label_widen(out[i]->Label_0, a, b, a, c + 6);
        } else if b + 1 <= i < c {
            lemma_sc_label_widen(out[i]->Label_0, b + 1, c, a, c + 6);
        } else if i == c + 3 {
            lemma_sc_label_widen(short, b, b + 1, a, c + 6);
        } else if i == c + 5 {
            lemma_sc_label_widen(jmp, c + 2, c + 3, a, c + 6);
        }
    }

    // New labels are pairwise distinct.
    assert forall|i: int, j: int|
        a <= i < j < c + 6 && (#[trigger] out[i]) is Label && (#[trigger] out[j])
            is Label implies out[i]->Label_0 != out[j]->Label_0 by {
        let ni = out[i]->Label_0;
        let nj = out[j]->Label_0;
        if i < b {
            if j < b {
            } else if j < c {
                lemma_sc_labels_differ(ni, a, b, nj, b + 1, c);
            } else if j == c + 3 {
                lemma_sc_labels_differ(ni, a, b, short, b, b + 1);
            } else {
                lemma_sc_labels_differ(ni, a, b, jmp, c + 2, c + 3);
            }
        } else if i < c {
            if j < c {
            } else if j == c + 3 {
                lemma_sc_labels_differ(short, b, b + 1, ni, b + 1, c);
            } else {
                lemma_sc_labels_differ(ni, b + 1, c, jmp, c + 2, c + 3);
            }
        } else {
            lemma_sc_labels_differ(short, b, b + 1, jmp, c + 2, c + 3);
        }
    }

    // Every new jump targets a label the expansion defines.
    assert forall|i: int|
        a <= i < c + 6 && (#[trigger] jump_target(out[i])) is Some implies exists|j: int|
            a <= j < c + 6 && out[j] == TInstrV::Label(jump_target(out[i])->0) by {
        if i < b {
            let j = choose|j: int|
                a <= j < b && sub1.1[j] == TInstrV::Label(jump_target(sub1.1[i])->0);
            assert(out[j] == TInstrV::Label(jump_target(out[i])->0));
        } else if i == b || i == c {
            assert(out[c + 3] == TInstrV::Label(short));
        } else if i < c {
            let j = choose|j: int|
                b + 1 <= j < c && sub2.1[j] == TInstrV::Label(jump_target(sub2.1[i])->0);
            assert(out[j] == TInstrV::Label(jump_target(out[i])->0));
        } else if i == c + 2 {
            assert(out[c + 5] == TInstrV::Label(jmp));
        }
    }
    assert(seg_label_props(ins, out));
}

/// Lowering a declaration: only an initialized one emits an instruction,
/// the copy of its initializer's value into the variable.
pub open spec fn spec_decl_val(d: DeclV, instrs: Seq<TInstrV>) -> Seq<TInstrV> {
    match d {
        DeclV::Declaration(var, Some(e)) => {
            let (res, ins1) = spec_expr_val(e, instrs);
            ins1.push(TInstrV::Copy(res, TValV::Var(var)))
        },
        DeclV::Declaration(_, None) => instrs,
    }
}

/// Lowering a statement.
pub open spec fn spec_stmt_val(s: StmtV, instrs: Seq<TInstrV>) -> Seq<TInstrV> {
    match s {
        StmtV::Return(e) => {
            let (ret, ins1) = spec_expr_val(e, instrs);
            ins1.push(TInstrV::Return(ret))
        },
        StmtV::Expression(e) => spec_expr_val(e, instrs).1,
        StmtV::Null => instrs,
    }
}

/// Lowering one block item.
pub open spec fn spec_item_val(b: BlockItemV, instrs: Seq<TInstrV>) -> Seq<TInstrV> {
    match b {
        BlockItemV::S(s) => spec_stmt_val(s, instrs),
        BlockItemV::D(d) => spec_decl_val(d, instrs),
    }
}

/// Lowering a body: the items in order, threading the instruction list.
pub open spec fn spec_body_instrs(body: Seq<BlockItemV>, instrs: Seq<TInstrV>) -> Seq<TInstrV>
    decreases body.len(),
{
    if body.len() == 0 {
        instrs
    } else {
        spec_body_instrs(body.drop_first(), spec_item_val(body[0], instrs))
    }
}

/// Lowering a body and appending the implicit `Return(Constant(0))`.
pub open spec fn spec_instrs(body: Seq<BlockItemV>) -> Seq<TInstrV> {
    spec_body_instrs(body, Seq::empty()).push(TInstrV::Return(TValV::Constant(0)))
}

/// Lowering a whole function.
pub open spec fn spec_gen_tacky(f: FuncDefV) -> TFuncDefV {
    match f {
        FuncDefV::Function(name, body) => TFuncDefV::Function(name, spec_instrs(body)),
    }
}

/// One unfolding step of [`spec_expr_val`] at a unary node.
proof fn lemma_expr_val_unary(e: ExprV, instrs: Seq<TInstrV>)
    requires
        e is Unary,
    ensures
        spec_expr_val(e, instrs).0 == TValV::Var(
            dotted_name("temp."@, spec_expr_val(*e->Unary_1, instrs).1.len()),
        ),
        spec_expr_val(e, instrs).1 == spec_expr_val(*e->Unary_1, instrs).1.push(
            TInstrV::Unary(
                spec_tunop(e->Unary_0),
                spec_expr_val(*e->Unary_1, instrs).0,
                TValV::Var(dotted_name("temp."@, spec_expr_val(*e->Unary_1, instrs).1.len())),
            ),
        ),
{
}

/// Lowering a declaration obeys the label discipline.
proof fn lemma_decl_val_labels(d: DeclV, ins: Seq<TInstrV>)
    ensures
        seg_label_props(ins, spec_decl_val(d, ins)),
{
    match d {
        DeclV::Declaration(var, Some(e)) => {
            lemma_expr_val_labels(e, ins);
            let sub = spec_expr_val(e, ins);
            lemma_seg_push_plain(ins, sub.1, TInstrV::Copy(sub.0, TValV::Var(var)));
        },
        DeclV::Declaration(_, None) => {
            lemma_seg_nil(ins);
        },
    }
}

/// Lowering a statement obeys the label discipline.
proof fn lemma_stmt_val_labels(st: StmtV, ins: Seq<TInstrV>)
    ensures
        seg_label_props(ins, spec_stmt_val(st, ins)),
{
    match st {
        StmtV::Return(e) => {
            lemma_expr_val_labels(e, ins);
            let sub = spec_expr_val(e, ins);
            lemma_seg_push_plain(ins, sub.1, TInstrV::Return(sub.0));
        },
        StmtV::Expression(e) => {
            lemma_expr_val_labels(e, ins);
        },
        StmtV::Null => {
            lemma_seg_nil(ins);
        },
    }
}

/// Lowering one block item obeys the label discipline.
proof fn lemma_item_val_labels(b: BlockItemV, ins: Seq<TInstrV>)
    ensures
        seg_label_props(ins, spec_item_val(b, ins)),
{
    match b {
        BlockItemV::S(st) => lemma_stmt_val_labels(st, ins),
        BlockItemV::D(d) => lemma_decl_val_labels(d, ins),
    }
}

/// Lowering a whole body obeys the label discipline.
proof fn lemma_body_instrs_labels(body: Seq<BlockItemV>, ins: Seq<TInstrV>)
    ensures
        seg_label_props(ins, spec_body_instrs(body, ins)),
    decreases body.len(),
{
    if body.len() == 0 {
        lemma_seg_nil(ins);
    } else {
        lemma_item_val_labels(body[0], ins);
        let mid = spec_item_val(body[0], ins);
        lemma_body_instrs_labels(body.drop_first(), mid);
        lemma_seg_trans(ins, mid, spec_body_instrs(body.drop_first(), mid));
    }
}

/// Every label of a lowered function is defined exactly once, and every
/// label a jump references is defined: label names are pairwise distinct,
/// and each jump's target occurs as a label.
pub proof fn lemma_ir_labels_unique(f: FuncDefV)
    ensures
        ({
            match spec_gen_tacky(f) {
                TFuncDefV::Function(_, instrs) => {
                    &&& forall|i: int, j: int|
                        0 <= i < j < instrs.len() && (#[trigger] instrs[i]) is Label && (
                        #[trigger] instrs[j]) is Label ==> instrs[i]->Label_0 != instrs[j]->Label_0
                    &&& forall|i: int|
                        0 <= i < instrs.len() && (#[trigger] jump_target(instrs[i]))
                            is Some ==> exists|j: int|
                            0 <= j < instrs.len() && instrs[j] == TInstrV::Label(
                                jump_target(instrs[i])->0,
                            )
                },
            }
        }),
{
    match f {
        FuncDefV::Function(_, body) => {
            lemma_body_instrs_labels(body, Seq::empty());
            let folded = spec_body_instrs(body, Seq::empty());
            lemma_seg_push_plain(
                Seq::empty(),
                folded,
                TInstrV::Return(TValV::Constant(0)),
            );
        },
    }
}

/// `name` is a lowering temporary made with counter `k`: a value temporary
/// or a short-circuit result.
pub open spec fn gen_temp_with(name: Seq<char>, k: int) -> bool {
    name == dotted_name("temp."@, k as nat) || name == dotted_name("and_or_result."@, k as nat)
}

/// `name` is a lowering temporary.
pub open spec fn gen_temp_name(name: Seq<char>) -> bool {
    exists|k: int| 0 <= k && #[trigger] gen_temp_with(name, k)
}

/// The temporary stems are the two resolver-impossible forms: a dot-free
/// stem followed by a dot.
proof fn lemma_temp_stems()
    ensures
        "temp."@ == "temp"@ + seq!['.'],
        "and_or_result."@ == "and_or_result"@ + seq!['.'],
        dot_free("temp"@),
        dot_free("and_or_result"@),
{
    reveal_strlit("temp.");
    reveal_strlit("temp");
    reveal_strlit("and_or_result.");
    reveal_strlit("and_or_result");
    assert("temp."@ =~= "temp"@ + seq!['.']);
    assert("and_or_result."@ =~= "and_or_result"@ + seq!['.']);
}

/// No lowering temporary is ever a resolver-generated variable name: a
/// temporary's stem ends in a dot, a resolved name's stem never contains
/// one.
pub proof fn lemma_generated_temp_not_resolved(n1: Seq<char>, n2: Seq<char>)
    requires
        gen_temp_name(n1),
        resolved_name(n2),
    ensures
        n1 != n2,
{
    lemma_temp_stems();
    let k = choose|k: int| 0 <= k && #[trigger] gen_temp_with(n1, k);
    let (s, j): (Seq<char>, nat) = choose|s: Seq<char>, j: nat|
        dot_free(s) && n2 == #[trigger] dotted_name(s, j);
    crate::names::lemma_dotted_stem_with_dot_differs(s, j, "temp"@, k as nat);
    crate::names::lemma_dotted_stem_with_dot_differs(s, j, "and_or_result"@, k as nat);
}

/// The variable names a value mentions.
pub open spec fn val_names(v: TValV) -> Set<Seq<char>> {
    match v {
        TValV::Constant(_) => Set::empty(),
        TValV::Var(n) => set![n],
    }
}

/// The variable names an instruction mentions.
pub open spec fn instr_val_names(i: TInstrV) -> Set<Seq<char>> {
    match i {
        TInstrV::Return(v) => val_names(v),
        TInstrV::Unary(_, s, d) => val_names(s) + val_names(d),
        TInstrV::Binary(_, a, b, d) => val_names(a) + val_names(b) + val_names(d),
        TInstrV::Copy(s, d) => val_names(s) + val_names(d),
        TInstrV::JumpIfZero(v, _) => val_names(v),
        TInstrV::JumpIfNotZero(v, _) => val_names(v),
        TInstrV::Jump(_) => Set::empty(),
        TInstrV::Label(_) => Set::empty(),
    }
}

/// The variable names an expression mentions.
pub open spec fn expr_names(e: ExprV) -> Set<Seq<char>>
    decreases e,
{
    match e {
        ExprV::Constant(_) => Set::empty(),
        ExprV::Var(n) => set![n],
        ExprV::Unary(_, inner) => expr_names(*inner),
        ExprV::Binary(_, l, r) => expr_names(*l) + expr_names(*r),
        ExprV::Assignment(l, r) => expr_names(*l) + expr_names(*r),
    }
}

/// A resolved expression: every variable carries a resolver-generated name
/// and every assignment target is a bare variable.
pub open spec fn resolved_expr_wf(e: ExprV) -> bool
    decreases e,
{
    match e {
        ExprV::Constant(_) => true,
        ExprV::Var(n) => resolved_name(n),
        ExprV::Unary(_, inner) => resolved_expr_wf(*inner),
        ExprV::Binary(_, l, r) => resolved_expr_wf(*l) && resolved_expr_wf(*r),
        ExprV::Assignment(l, r) => *l is Var && resolved_expr_wf(*l) && resolved_expr_wf(*r),
    }
}

/// The temporary discipline of the instructions appended after the prefix
/// `ins`: the prefix is untouched; every mentioned variable comes from
/// `names` (the variables of the construct being lowered) or is a lowering
/// temporary; and each arithmetic instruction's destination is the `temp.`
/// temporary of its own index.
pub open spec fn seg_temp_props(names: Set<Seq<char>>, ins: Seq<TInstrV>, out: Seq<TInstrV>) -> bool {
    &&& ins.len() <= out.len()
    &&& forall|i: int| 0 <= i < ins.len() ==> #[trigger] out[i] == ins[i]
    &&& forall|i: int, n: Seq<char>|
        ins.len() <= i < out.len() && #[trigger] instr_val_names(out[i]).contains(n)
            ==> names.contains(n) || gen_temp_name(n)
    &&& forall|i: int|
        ins.len() <= i < out.len() && (#[trigger] out[i]) is Unary ==> out[i]->Unary_2
            == TValV::Var(dotted_name("temp."@, i as nat))
    &&& forall|i: int|
        ins.len() <= i < out.len() && (#[trigger] out[i]) is Binary ==> out[i]->Binary_3
            == TValV::Var(dotted_name("temp."@, i as nat))
}

/// A wider variable set keeps the discipline.
proof fn lemma_seg_temp_widen(
    ns1: Set<Seq<char>>,
    ns2: Set<Seq<char>>,
    ins: Seq<TInstrV>,
    out: Seq<TInstrV>,
)
    requires
        seg_temp_props(ns1, ins, out),
        ns1.subset_of(ns2),
    ensures
        seg_temp_props(ns2, ins, out),
{
}

/// Two disciplined segments in a row are one disciplined segment.
proof fn lemma_seg_temp_trans(
    names: Set<Seq<char>>,
    ins: Seq<TInstrV>,
    mid: Seq<TInstrV>,
    out: Seq<TInstrV>,
)
    requires
        seg_temp_props(names, ins, mid),
        seg_temp_props(names, mid, out),
    ensures
        seg_temp_props(names, ins, out),
{
    assert forall|i: int, n: Seq<char>|
        ins.len() <= i < out.len() && #[trigger] instr_val_names(out[i]).contains(
            n,
        ) implies names.contains(n) || gen_temp_name(n) by {
        if i < mid.len() {
            assert(out[i] == mid[i]);
            assert(instr_val_names(mid[i]).contains(n));
        }
    }
    assert forall|i: int|
        ins.len() <= i < out.len() && (#[trigger] out[i]) is Unary implies out[i]->Unary_2
        == TValV::Var(dotted_name("temp."@, i as nat)) by {
        if i < mid.len() {
            assert(out[i] == mid[i]);
        }
    }
    assert forall|i: int|
        ins.len() <= i < out.len() && (#[trigger] out[i]) is Binary implies out[i]->Binary_3
        == TValV::Var(dotted_name("temp."@, i as nat)) by {
        if i < mid.len() {
            assert(out[i] == mid[i]);
        }
    }
}

/// Appending an instruction that is no arithmetic instruction and mentions
/// only permitted variables keeps the discipline.
proof fn lemma_seg_temp_push(
    names: Set<Seq<char>>,
    ins: Seq<TInstrV>,
    mid: Seq<TInstrV>,
    x: TInstrV,
)
    requires
        seg_temp_props(names, ins, mid),
        !(x is Unary),
        !(x is Binary),
        forall|n: Seq<char>|
            #[trigger] instr_val_names(x).contains(n) ==> names.contains(n) || gen_temp_name(n),
    ensures
        seg_temp_props(names, ins, mid.push(x)),
{
    let out = mid.push(x);
    assert forall|i: int, n: Seq<char>|
        ins.len() <= i < out.len() && #[trigger] instr_val_names(out[i]).contains(
            n,
        ) implies names.contains(n) || gen_temp_name(n) by {
        if i < mid.len() {
            assert(out[i] == mid[i]);
            assert(instr_val_names(mid[i]).contains(n));
        } else {
            assert(out[i] == x);
        }
    }
}

/// Lowering a resolved expression appends instructions that obey the
/// temporary discipline, and yields a value that is a variable of the
/// expression or a lowering temporary.
proof fn lemma_expr_val_temps(e: ExprV, ins: Seq<TInstrV>)
    requires
        resolved_expr_wf(e),
    ensures
        seg_temp_props(expr_names(e), ins, spec_expr_val(e, ins).1),
        forall|n: Seq<char>|
            val_names(#[trigger] spec_expr_val(e, ins).0).contains(n) ==> expr_names(e).contains(
                n,
            ) || gen_temp_name(n),
    decreases exprv_height(e), 1int,
{
    match e {
        ExprV::Constant(_) => {
        },
        ExprV::Var(_) => {
        },
        ExprV::Unary(op, inner) => {
            lemma_expr_val_temps(*inner, ins);
            let sub = spec_expr_val(*inner, ins);
            let dst_name = dotted_name("temp."@, sub.1.len());
            assert(gen_temp_with(dst_name, sub.1.len() as int));
            assert(gen_temp_name(dst_name));
            let out = spec_expr_val(e, ins).1;
            assert forall|i: int, n: Seq<char>|
                ins.len() <= i < out.len() && #[trigger] instr_val_names(out[i]).contains(
                    n,
                ) implies expr_names(e).contains(n) || gen_temp_name(n) by {
                if i < sub.1.len() {
                    assert(out[i] == sub.1[i]);
                    assert(instr_val_names(sub.1[i]).contains(n));
                } else {
                    assert(out[i] == TInstrV::Unary(
                        spec_tunop(op),
                        sub.0,
                        TValV::Var(dst_name),
                    ));
                    assert(val_names(sub.0).contains(n) || n == dst_name);
                }
            }
        },
        ExprV::Binary(op, l, r) => {
            if op is And || op is Or {
                lemma_and_or_temps(op, *l, *r, ins);
            } else {
                lemma_expr_val_temps(*l, ins);
                let sub1 = spec_expr_val(*l, ins);
                lemma_expr_val_temps(*r, sub1.1);
                let sub2 = spec_expr_val(*r, sub1.1);
                let dst_name = dotted_name("temp."@, sub2.1.len());
                assert(gen_temp_with(dst_name, sub2.1.len() as int));
                assert(gen_temp_name(dst_name));
                let out = spec_expr_val(e, ins).1;
                assert forall|i: int, n: Seq<char>|
                    ins.len() <= i < out.len() && #[trigger] instr_val_names(out[i]).contains(
                        n,
                    ) implies expr_names(e).contains(n) || gen_temp_name(n) by {
                    if i < sub1.1.len() {
                        assert(out[i] == sub1.1[i]);
                        assert(instr_val_names(sub1.1[i]).contains(n));
                    } else if i < sub2.1.len() {
                        assert(out[i] == sub2.1[i]);
                        assert(instr_val_names(sub2.1[i]).contains(n));
                    } else {
                        assert(out[i] == TInstrV::Binary(
                            spec_tbinop(op),
                            sub1.0,
                            sub2.0,
                            TValV::Var(dst_name),
                        ));
                        assert(val_names(sub1.0).contains(n) || val_names(sub2.0).contains(n)
                            || n == dst_name);
                    }
                }
                assert forall|i: int|
                    ins.len() <= i < out.len() && (#[trigger] out[i]) is Unary implies out[
                    i]->Unary_2 == TValV::Var(dotted_name("temp."@, i as nat)) by {
                    if i < sub1.1.len() {
                        assert(out[i] == sub1.1[i]);
                    } else if i < sub2.1.len() {
                        assert(out[i] == sub2.1[i]);
                    }
                }
                assert forall|i: int|
                    ins.len() <= i < out.len() && (#[trigger] out[i]) is Binary implies out[
                    i]->Binary_3 == TValV::Var(dotted_name("temp."@, i as nat)) by {
                    if i < sub1.1.len() {
                        assert(out[i] == sub1.1[i]);
                    } else if i < sub2.1.len() {
                        assert(out[i] == sub2.1[i]);
                    }
                }
            }
        },
        ExprV::Assignment(l, r) => {
            lemma_expr_val_temps(*r, ins);
            let sub = spec_expr_val(*r, ins);
            let target = match *l {
                ExprV::Var(n) => n,
                _ => Seq::empty(),
            };
            assert(expr_names(e).contains(target)) by {
                assert(*l is Var);
                assert(expr_names(*l).contains(target));
            }
            let out = spec_expr_val(e, ins).1;
            assert forall|i: int, n: Seq<char>|
                ins.len() <= i < out.len() && #[trigger] instr_val_names(out[i]).contains(
                    n,
                ) implies expr_names(e).contains(n) || gen_temp_name(n) by {
                if i < sub.1.len() {
                    assert(out[i] == sub.1[i]);
                    assert(instr_val_names(sub.1[i]).contains(n));
                } else {
                    assert(out[i] == TInstrV::Copy(sub.0, TValV::Var(target)));
                    assert(val_names(sub.0).contains(n) || n == target);
                }
            }
        },
    }
}

/// The short-circuit expansion obeys the temporary discipline: its result
/// temporary carries the counter of its first write, and every other
/// mentioned variable comes from the operands.
proof fn lemma_and_or_temps(op: BinaryOp, l: ExprV, r: ExprV, ins: Seq<TInstrV>)
    requires
        op is And || op is Or,
        resolved_expr_wf(ExprV::Binary(op, Box::new(l), Box::new(r))),
    ensures
        seg_temp_props(
            expr_names(ExprV::Binary(op, Box::new(l), Box::new(r))),
            ins,
            spec_expr_val(ExprV::Binary(op, Box::new(l), Box::new(r)), ins).1,
        ),
        forall|n: Seq<char>|
            val_names(
                #[trigger] spec_expr_val(ExprV::Binary(op, Box::new(l), Box::new(r)), ins).0,
            ).contains(n) ==> expr_names(ExprV::Binary(op, Box::new(l), Box::new(r))).contains(n)
                || gen_temp_name(n),
    decreases (if exprv_height(l) >= exprv_height(r) {
        exprv_height(l)
    } else {
        exprv_height(r)
    }) + 1, 0int,
{
    let e = ExprV::Binary(op, Box::new(l), Box::new(r));
    lemma_expr_val_temps(l, ins);
    let sub1 = spec_expr_val(l, ins);
    let b = sub1.1.len() as int;
    let short = dotted_name("short_cond"@, sub1.1.len());
    let jz1 = if op is And {
        TInstrV::JumpIfZero(sub1.0, short)
    } else {
        TInstrV::JumpIfNotZero(sub1.0, short)
    };
    let mid2 = sub1.1.push(jz1);
    lemma_expr_val_temps(r, mid2);
    let sub2 = spec_expr_val(r, mid2);
    let c = sub2.1.len() as int;
    let jz2 = if op is And {
        TInstrV::JumpIfZero(sub2.0, short)
    } else {
        TInstrV::JumpIfNotZero(sub2.0, short)
    };
    let result = TValV::Var(dotted_name("and_or_result."@, sub2.1.push(jz2).len()));
    assert(gen_temp_with(dotted_name("and_or_result."@, (c + 1) as nat), c + 1));
    let first_copy = if op is And {
        TInstrV::Copy(TValV::Constant(1), result)
    } else {
        TInstrV::Copy(TValV::Constant(0), result)
    };
    let second_copy = if op is And {
        TInstrV::Copy(TValV::Constant(0), result)
    } else {
        TInstrV::Copy(TValV::Constant(1), result)
    };
    let ins4 = sub2.1.push(jz2).push(first_copy);
    let jmp = dotted_name("jmp_cond"@, ins4.len());
    let out = ins4.push(TInstrV::Jump(jmp)).push(TInstrV::Label(short)).push(second_copy).push(
        TInstrV::Label(jmp),
    );
    assert(spec_expr_val(e, ins).1 == out);
    assert(forall|i: int| 0 <= i < c ==> #[trigger] out[i] == sub2.1[i]);
    assert(forall|i: int| 0 <= i < b ==> #[trigger] out[i] == sub1.1[i]);
    assert(out[b] == jz1);
    assert(out[c] == jz2);
    assert(out[c + 1] == first_copy);
    assert(out[c + 2] == TInstrV::Jump(jmp));
    assert(out[c + 3] == TInstrV::Label(short));
    assert(out[c + 4] == second_copy);
    assert(out[c + 5] == TInstrV::Label(jmp));
    assert(gen_temp_with(dotted_name("and_or_result."@, (c + 1) as nat), c + 1));
    assert(gen_temp_name(dotted_name("and_or_result."@, (c + 1) as nat)));
    assert forall|i: int, n: Seq<char>|
        ins.len() <= i < out.len() && #[trigger] instr_val_names(out[i]).contains(
            n,
        ) implies expr_names(e).contains(n) || gen_temp_name(n) by {
        if i < b {
            assert(out[i] == sub1.1[i]);
            assert(instr_val_names(sub1.1[i]).contains(n));
        } else if i == b {
            assert(val_names(sub1.0).contains(n));
        } else if i < c {
            assert(out[i] == sub2.1[i]);
            assert(instr_val_names(sub2.1[i]).contains(n));
        } else if i == c {
            assert(val_names(sub2.0).contains(n));
        } else if i == c + 1 || i == c + 4 {
            assert(n == dotted_name("and_or_result."@, (c + 1) as nat));
        }
    }
    assert forall|i: int|
        ins.len() <= i < out.len() && (#[trigger] out[i]) is Unary implies out[i]->Unary_2
        == TValV::Var(dotted_name("temp."@, i as nat)) by {
        if i < b {
            assert(out[i] == sub1.1[i]);
        } else if b + 1 <= i < c {
            assert(out[i] == sub2.1[i]);
        }
    }
    assert forall|i: int|
        ins.len() <= i < out.len() && (#[trigger] out[i]) is Binary implies out[i]->Binary_3
        == TValV::Var(dotted_name("temp."@, i as nat)) by {
        if i < b {
            assert(out[i] == sub1.1[i]);
        } else if b + 1 <= i < c {
            assert(out[i] == sub2.1[i]);
        }
    }
}

/// Short-circuit evaluation: lowering `l && r` or `l || r` places a
/// conditional jump on the left operand's value directly after the left
/// operand's instructions and before every instruction lowered from the
/// right operand; the jump's target label follows all of them, and at that
/// label the result receives the operator's decided value (0 for AND, 1
/// for OR).  Under the jump semantics of the instruction set, a deciding
/// left operand therefore skips the right operand entirely, its divisions
/// included, and the expression's value is the decided constant.
pub proof fn lemma_short_circuit_skips_right(op: BinaryOp, l: ExprV, r: ExprV, ins: Seq<TInstrV>)
    requires
        op is And || op is Or,
    ensures
        ({
            let e = ExprV::Binary(op, Box::new(l), Box::new(r));
            let sub1 = spec_expr_val(l, ins);
            let b = sub1.1.len() as int;
            let short = dotted_name("short_cond"@, sub1.1.len());
            let guard = if op is And {
                TInstrV::JumpIfZero(sub1.0, short)
            } else {
                TInstrV::JumpIfNotZero(sub1.0, short)
            };
            let sub2 = spec_expr_val(r, sub1.1.push(guard));
            let c = sub2.1.len() as int;
            let res = spec_expr_val(e, ins).0;
            let out = spec_expr_val(e, ins).1;
            &&& out.len() == c + 6
            &&& out[b] == guard
            &&& forall|i: int| b + 1 <= i < c ==> #[trigger] out[i] == sub2.1[i]
            &&& out[c + 3] == TInstrV::Label(short)
            &&& out[c + 4] == TInstrV::Copy(
                TValV::Constant(if op is And { 0 } else { 1 }),
                res,
            )
        }),
{
    let e = ExprV::Binary(op, Box::new(l), Box::new(r));
    let sub1 = spec_expr_val(l, ins);
    let b = sub1.1.len() as int;
    let short = dotted_name("short_cond"@, sub1.1.len());
    let guard = if op is And {
        TInstrV::JumpIfZero(sub1.0, short)
    } else {
        TInstrV::JumpIfNotZero(sub1.0, short)
    };
    let sub2 = spec_expr_val(r, sub1.1.push(guard));
    let c = sub2.1.len() as int;
    lemma_expr_val_labels(l, ins);
    lemma_expr_val_labels(r, sub1.1.push(guard));
    assert(b + 1 <= c);
    let jz2 = if op is And {
        TInstrV::JumpIfZero(sub2.0, short)
    } else {
        TInstrV::JumpIfNotZero(sub2.0, short)
    };
    let result = TValV::Var(dotted_name("and_or_result."@, sub2.1.push(jz2).len()));
    let first_copy = if op is And {
        TInstrV::Copy(TValV::Constant(1), result)
    } else {
        TInstrV::Copy(TValV::Constant(0), result)
    };
    let second_copy = if op is And {
        TInstrV::Copy(TValV::Constant(0), result)
    } else {
        TInstrV::Copy(TValV::Constant(1), result)
    };
    let ins4 = sub2.1.push(jz2).push(first_copy);
    let jmp = dotted_name("jmp_cond"@, ins4.len());
    let out = ins4.push(TInstrV::Jump(jmp)).push(TInstrV::Label(short)).push(second_copy).push(
        TInstrV::Label(jmp),
    );
    assert(spec_expr_val(e, ins).1 == out);
    assert(spec_expr_val(e, ins).0 == result);
    assert(out[b] == guard);
    assert(forall|i: int| b + 1 <= i < c ==> #[trigger] out[i] == sub2.1[i]);
    assert(out[c + 3] == TInstrV::Label(short));
    assert(out[c + 4] == second_copy);
}

/// The variable names a declaration mentions.
pub open spec fn decl_names(d: DeclV) -> Set<Seq<char>> {
    match d {
        DeclV::Declaration(n, Some(e)) => set![n] + expr_names(e),
        DeclV::Declaration(n, None) => set![n],
    }
}

/// The variable names a statement mentions.
pub open spec fn stmt_names(st: StmtV) -> Set<Seq<char>> {
    match st {
        StmtV::Return(e) => expr_names(e),
        StmtV::Expression(e) => expr_names(e),
        StmtV::Null => Set::empty(),
    }
}

/// The variable names a block item mentions.
pub open spec fn item_names(b: BlockItemV) -> Set<Seq<char>> {
    match b {
        BlockItemV::S(st) => stmt_names(st),
        BlockItemV::D(d) => decl_names(d),
    }
}

/// The variable names a body mentions.
pub open spec fn body_names(items: Seq<BlockItemV>) -> Set<Seq<char>>
    decreases items.len(),
{
    if items.len() == 0 {
        Set::empty()
    } else {
        item_names(items[0]) + body_names(items.drop_first())
    }
}

/// The variable names a function mentions.
pub open spec fn func_names(f: FuncDefV) -> Set<Seq<char>> {
    match f {
        FuncDefV::Function(_, items) => body_names(items),
    }
}

/// A resolved declaration: the declared name is resolver-generated, and
/// the initializer, if any, is resolved.
pub open spec fn resolved_decl_wf(d: DeclV) -> bool {
    match d {
        DeclV::Declaration(n, Some(e)) => resolved_name(n) && resolved_expr_wf(e),
        DeclV::Declaration(n, None) => resolved_name(n),
    }
}

/// A resolved statement.
pub open spec fn resolved_stmt_wf(st: StmtV) -> bool {
    match st {
        StmtV::Return(e) => resolved_expr_wf(e),
        StmtV::Expression(e) => resolved_expr_wf(e),
        StmtV::Null => true,
    }
}

/// A resolved block item.
pub open spec fn resolved_item_wf(b: BlockItemV) -> bool {
    match b {
        BlockItemV::S(st) => resolved_stmt_wf(st),
        BlockItemV::D(d) => resolved_decl_wf(d),
    }
}

/// A resolved body.
pub open spec fn resolved_body_wf(items: Seq<BlockItemV>) -> bool {
    forall|i: int| 0 <= i < items.len() ==> resolved_item_wf(#[trigger] items[i])
}

/// A resolved function: what the resolver's success guarantees of the tree
/// the lowering receives.
pub open spec fn resolved_func_wf(f: FuncDefV) -> bool {
    match f {
        FuncDefV::Function(_, items) => resolved_body_wf(items),
    }
}

/// Every name a resolved expression mentions is resolver-generated.
proof fn lemma_expr_names_resolved(e: ExprV)
    requires
        resolved_expr_wf(e),
    ensures
        forall|n: Seq<char>| #[trigger] expr_names(e).contains(n) ==> resolved_name(n),
    decreases e,
{
    match e {
        ExprV::Constant(_) => {
            assert(forall|n: Seq<char>| !(#[trigger] expr_names(e).contains(n)));
        },
        ExprV::Var(v) => {
            assert forall|n: Seq<char>| #[trigger]
                expr_names(e).contains(n) implies resolved_name(n) by {
                assert(n == v);
            }
        },
        ExprV::Unary(_, inner) => {
            lemma_expr_names_resolved(*inner);
            assert forall|n: Seq<char>| #[trigger]
                expr_names(e).contains(n) implies resolved_name(n) by {
                assert(expr_names(*inner).contains(n));
            }
        },
        ExprV::Binary(_, l, r) => {
            lemma_expr_names_resolved(*l);
            lemma_expr_names_resolved(*r);
            assert forall|n: Seq<char>| #[trigger]
                expr_names(e).contains(n) implies resolved_name(n) by {
                assert(expr_names(*l).contains(n) || expr_names(*r).contains(n));
            }
        },
        ExprV::Assignment(l, r) => {
            lemma_expr_names_resolved(*l);
            lemma_expr_names_resolved(*r);
            assert forall|n: Seq<char>| #[trigger]
                expr_names(e).contains(n) implies resolved_name(n) by {
                assert(expr_names(*l).contains(n) || expr_names(*r).contains(n));
            }
        },
    }
}

/// Every name a resolved body mentions is resolver-generated.
proof fn lemma_body_names_resolved(items: Seq<BlockItemV>)
    requires
        resolved_body_wf(items),
    ensures
        forall|n: Seq<char>| #[trigger] body_names(items).contains(n) ==> resolved_name(n),
    decreases items.len(),
{
    if items.len() > 0 {
        assert(resolved_item_wf(items[0]));
        match items[0] {
            BlockItemV::S(st) => {
                match st {
                    StmtV::Return(e) => lemma_expr_names_resolved(e),
                    StmtV::Expression(e) => lemma_expr_names_resolved(e),
                    StmtV::Null => {},
                }
            },
            BlockItemV::D(d) => {
                match d {
                    DeclV::Declaration(_, Some(e)) => lemma_expr_names_resolved(e),
                    DeclV::Declaration(_, None) => {},
                }
            },
        }
        assert(forall|i: int|
            0 <= i < items.drop_first().len() ==> resolved_item_wf(
                #[trigger] items.drop_first()[i],
            ));
        lemma_body_names_resolved(items.drop_first());
        assert forall|n: Seq<char>| #[trigger]
            body_names(items).contains(n) implies resolved_name(n) by {
            assert(item_names(items[0]).contains(n) || body_names(items.drop_first()).contains(n));
            if item_names(items[0]).contains(n) {
                match items[0] {
                    BlockItemV::S(st) => {
                    },
                    BlockItemV::D(d) => {
                        match d {
                            DeclV::Declaration(dn, Some(e)) => {
                                assert(n == dn || expr_names(e).contains(n));
                            },
                            DeclV::Declaration(dn, None) => {
                                assert(n == dn);
                            },
                        }
                    },
                }
            }
        }
    }
}

/// Lowering a resolved declaration obeys the temporary discipline.
proof fn lemma_decl_val_temps(d: DeclV, ins: Seq<TInstrV>)
    requires
        resolved_decl_wf(d),
    ensures
        seg_temp_props(decl_names(d), ins, spec_decl_val(d, ins)),
{
    match d {
        DeclV::Declaration(var, Some(e)) => {
            lemma_expr_val_temps(e, ins);
            let sub = spec_expr_val(e, ins);
            lemma_seg_temp_widen(expr_names(e), decl_names(d), ins, sub.1);
            lemma_seg_temp_push(decl_names(d), ins, sub.1, TInstrV::Copy(sub.0, TValV::Var(var)));
        },
        DeclV::Declaration(_, None) => {
        },
    }
}

/// Lowering a resolved statement obeys the temporary discipline.
proof fn lemma_stmt_val_temps(st: StmtV, ins: Seq<TInstrV>)
    requires
        resolved_stmt_wf(st),
    ensures
        seg_temp_props(stmt_names(st), ins, spec_stmt_val(st, ins)),
{
    match st {
        StmtV::Return(e) => {
            lemma_expr_val_temps(e, ins);
            let sub = spec_expr_val(e, ins);
            lemma_seg_temp_push(stmt_names(st), ins, sub.1, TInstrV::Return(sub.0));
        },
        StmtV::Expression(e) => {
            lemma_expr_val_temps(e, ins);
        },
        StmtV::Null => {
        },
    }
}

/// Lowering a resolved block item obeys the temporary discipline.
proof fn lemma_item_val_temps(b: BlockItemV, ins: Seq<TInstrV>)
    requires
        resolved_item_wf(b),
    ensures
        seg_temp_props(item_names(b), ins, spec_item_val(b, ins)),
{
    match b {
        BlockItemV::S(st) => lemma_stmt_val_temps(st, ins),
        BlockItemV::D(d) => lemma_decl_val_temps(d, ins),
    }
}

/// Lowering a resolved body obeys the temporary discipline.
proof fn lemma_body_instrs_temps(items: Seq<BlockItemV>, ins: Seq<TInstrV>)
    requires
        resolved_body_wf(items),
    ensures
        seg_temp_props(body_names(items), ins, spec_body_instrs(items, ins)),
    decreases items.len(),
{
    if items.len() > 0 {
        assert(resolved_item_wf(items[0]));
        lemma_item_val_temps(items[0], ins);
        let mid = spec_item_val(items[0], ins);
        lemma_seg_temp_widen(item_names(items[0]), body_names(items), ins, mid);
        assert(forall|i: int|
            0 <= i < items.drop_first().len() ==> resolved_item_wf(
                #[trigger] items.drop_first()[i],
            ));
        lemma_body_instrs_temps(items.drop_first(), mid);
        assert(body_names(items.drop_first()).subset_of(body_names(items)));
        lemma_seg_temp_widen(
            body_names(items.drop_first()),
            body_names(items),
            mid,
            spec_body_instrs(items.drop_first(), mid),
        );
        lemma_seg_temp_trans(
            body_names(items),
            ins,
            mid,
            spec_body_instrs(items.drop_first(), mid),
        );
    }
}

/// Temporaries never collide with resolved variable names, and the
/// arithmetic temporaries never collide with each other: in a lowered
/// resolved function every mentioned variable is a variable of the tree or
/// a lowering temporary, no lowering temporary equals any
/// resolver-generated name, and the destination of the arithmetic
/// instruction at index `i` is the `temp.` temporary of counter `i`, so
/// any two of them differ.
pub proof fn lemma_ir_temporaries_fresh(f: FuncDefV)
    requires
        resolved_func_wf(f),
    ensures
        ({
            match spec_gen_tacky(f) {
                TFuncDefV::Function(_, instrs) => {
                    &&& forall|i: int, n: Seq<char>|
                        0 <= i < instrs.len() && #[trigger] instr_val_names(instrs[i]).contains(
                            n,
                        ) ==> func_names(f).contains(n) || gen_temp_name(n)
                    &&& forall|n: Seq<char>|
                        #[trigger] func_names(f).contains(n) ==> !gen_temp_name(n)
                    &&& forall|i: int|
                        0 <= i < instrs.len() && (#[trigger] instrs[i]) is Unary ==> instrs[
                        i]->Unary_2 == TValV::Var(dotted_name("temp."@, i as nat))
                    &&& forall|i: int|
                        0 <= i < instrs.len() && (#[trigger] instrs[i]) is Binary ==> instrs[
                        i]->Binary_3 == TValV::Var(dotted_name("temp."@, i as nat))
                    &&& forall|i: int, j: int|
                        0 <= i < j < instrs.len() ==> #[trigger] dotted_name("temp."@, i as nat)
                            != #[trigger] dotted_name("temp."@, j as nat)
                },
            }
        }),
{
    assert forall|i: int, j: int| 0 <= i < j implies #[trigger] dotted_name("temp."@, i as nat)
        != #[trigger] dotted_name("temp."@, j as nat) by {
        if dotted_name("temp."@, i as nat) == dotted_name("temp."@, j as nat) {
            crate::names::lemma_dotted_name_same_stem_injective("temp."@, i as nat, j as nat);
        }
    }
    match f {
        FuncDefV::Function(_, items) => {
            lemma_body_instrs_temps(items, Seq::empty());
            let folded = spec_body_instrs(items, Seq::empty());
            lemma_seg_temp_push(
                body_names(items),
                Seq::empty(),
                folded,
                TInstrV::Return(TValV::Constant(0)),
            );
            lemma_body_names_resolved(items);
            assert forall|n: Seq<char>| #[trigger]
                func_names(f).contains(n) implies !gen_temp_name(n) by {
                if gen_temp_name(n) {
                    lemma_generated_temp_not_resolved(n, n);
                }
            }
        },
    }
}

/// The three-address operation for a unary operator, executably.
fn get_unary_op(op: &UnaryOp) -> (r: TUnaryOp)
    ensures
        r == spec_tunop(*op),
{
    match op {
        UnaryOp::Complement => TUnaryOp::Complement,
        UnaryOp::Negate => TUnaryOp::Negate,
        UnaryOp::Not => TUnaryOp::Not,
    }
}

/// The three-address operation for a binary operator, executably.  The
/// short-circuit operators and assignment never reach this table from a
/// parsed tree; they are mapped like `spec_tbinop` maps them to keep the
/// function total.
fn get_binary_op(op: &BinaryOp) -> (r: TBinaryOp)
    ensures
        r == spec_tbinop(*op),
{
    match op {
        BinaryOp::Add => TBinaryOp::Add,
        BinaryOp::Subtract => TBinaryOp::Subtract,
        BinaryOp::Multiply => TBinaryOp::Multiply,
        BinaryOp::Divide => TBinaryOp::Divide,
        BinaryOp::Remainder => TBinaryOp::Remainder,
        BinaryOp::Equal => TBinaryOp::Equal,
        BinaryOp::NotEqual => TBinaryOp::NotEqual,
        BinaryOp::LessThan => TBinaryOp::LessThan,
        BinaryOp::LessEqual => TBinaryOp::LessEqual,
        BinaryOp::GreatThan => TBinaryOp::GreatThan,
        BinaryOp::GreatEqual => TBinaryOp::GreatEqual,
        _ => TBinaryOp::Add,
    }
}

/// A fresh name derived from the current instruction count.
fn make_temp(start: &str, ident: usize) -> (r: String)
    ensures
        r@ == dotted_name(start@, ident as nat),
{
    make_dotted_name(start, ident as u64)
}

/// Lowers an expression, appending its instructions and yielding its value.
#[verifier::rlimit(100)]
fn expr_val(expr: &Expr, instructions: &mut Vec<TInstr>) -> (r: TVal)
    ensures
        r@ == spec_expr_val(expr@, view_tinstrs(old(instructions)@)).0,
        view_tinstrs(final(instructions)@) == spec_expr_val(
            expr@,
            view_tinstrs(old(instructions)@),
        ).1,
    decreases expr_height(*expr), 0int,
{
    match expr {
        Expr::Constant(val) => TVal::Constant(*val),
        Expr::Unary(op, inner) => {
            let src = expr_val(inner, instructions);
            let dst_name = make_temp("temp.", instructions.len());
            let dst = TVal::Var(dst_name);
            let tacky_op = get_unary_op(op);
            instructions.push(TInstr::Unary(tacky_op, src, dst.clone()));
            proof {
                broadcast use view_tinstrs_push, view_tinstrs_len;

                let oldv = view_tinstrs(old(instructions)@);
                assert(expr@ is Unary);
                let innerv = *expr@->Unary_1;
                assert(innerv == inner@);
                assert(expr@->Unary_0 == *op);
                lemma_expr_val_unary(expr@, oldv);
                let sub = spec_expr_val(innerv, oldv);
                let pushed = TInstrV::Unary(
                    spec_tunop(*op),
                    sub.0,
                    TValV::Var(dotted_name("temp."@, sub.1.len())),
                );
                assert(spec_expr_val(expr@, oldv).1 == sub.1.push(pushed));
                assert(view_tinstrs(instructions@) =~= sub.1.push(pushed));
            }
            dst
        },
        Expr::Binary(op, left, right) => binary(op, left, right, instructions),
        Expr::Var(v) => TVal::Var(v.clone()),
        Expr::Assignment(var, right) => {
            let mut v = String::new();
            match &**var {
                Expr::Var(name) => {
                    v = name.clone();
                },
                _ => {},
            }
            let res = expr_val(right, instructions);
            instructions.push(TInstr::Copy(res, TVal::Var(v.clone())));
            proof {
                broadcast use view_tinstrs_push, view_tinstrs_len;

                let oldv = view_tinstrs(old(instructions)@);
                assert(expr@ is Assignment);
                let lv = *expr@->Assignment_0;
                let rv = *expr@->Assignment_1;
                assert(lv == var@);
                assert(rv == right@);
                let namev = match lv {
                    ExprV::Var(n) => n,
                    _ => Seq::empty(),
                };
                assert(v@ == namev);
                let sub = spec_expr_val(rv, oldv);
                let pushed = TInstrV::Copy(sub.0, TValV::Var(namev));
                assert(spec_expr_val(expr@, oldv).0 == TValV::Var(namev));
                assert(spec_expr_val(expr@, oldv).1 == sub.1.push(pushed));
                assert(view_tinstrs(instructions@) =~= sub.1.push(pushed));
            }
            TVal::Var(v)
        },
    }
}

/// Lowers a binary application, dispatching the short-circuit operators to
/// their control-flow expansion.
fn binary(op: &BinaryOp, left: &Expr, right: &Expr, instructions: &mut Vec<TInstr>) -> (r: TVal)
    ensures
        r@ == spec_expr_val(
            ExprV::Binary(*op, Box::new(left@), Box::new(right@)),
            view_tinstrs(old(instructions)@),
        ).0,
        view_tinstrs(final(instructions)@) == spec_expr_val(
            ExprV::Binary(*op, Box::new(left@), Box::new(right@)),
            view_tinstrs(old(instructions)@),
        ).1,
    decreases (if expr_height(*left) >= expr_height(*right) {
        expr_height(*left)
    } else {
        expr_height(*right)
    }), 2int,
{
    match op {
        BinaryOp::And | BinaryOp::Or => and_or(op, left, right, instructions),
        _ => binary_normal(op, left, right, instructions),
    }
}

/// The short-circuit expansion: evaluate the left operand, jump to the
/// short-circuit label when it already decides the result, otherwise let
/// the right operand decide; both paths converge on a final label.
fn and_or(op: &BinaryOp, left: &Expr, right: &Expr, instructions: &mut Vec<TInstr>) -> (r: TVal)
    requires
        *op == BinaryOp::And || *op == BinaryOp::Or,
    ensures
        r@ == spec_expr_val(
            ExprV::Binary(*op, Box::new(left@), Box::new(right@)),
            view_tinstrs(old(instructions)@),
        ).0,
        view_tinstrs(final(instructions)@) == spec_expr_val(
            ExprV::Binary(*op, Box::new(left@), Box::new(right@)),
            view_tinstrs(old(instructions)@),
        ).1,
    decreases (if expr_height(*left) >= expr_height(*right) {
        expr_height(*left)
    } else {
        expr_height(*right)
    }), 1int,
{
    let v1 = expr_val(left, instructions);
    let short_cond = make_temp("short_cond", instructions.len());
    let is_and: bool = match op {
        BinaryOp::And => true,
        _ => false,
    };
    if is_and {
        instructions.push(TInstr::JumpIfZero(v1, short_cond.clone()));
    } else {
        instructions.push(TInstr::JumpIfNotZero(v1, short_cond.clone()));
    }
    let v2 = expr_val(right, instructions);
    if is_and {
        instructions.push(TInstr::JumpIfZero(v2, short_cond.clone()));
    } else {
        instructions.push(TInstr::JumpIfNotZero(v2, short_cond.clone()));
    }
    let result_name = make_temp("and_or_result.", instructions.len());
    let result = TVal::Var(result_name);
    if is_and {
        instructions.push(TInstr::Copy(TVal::Constant(1), result.clone()));
    } else {
        instructions.push(TInstr::Copy(TVal::Constant(0), result.clone()));
    }
    let jmp_cond = make_temp("jmp_cond", instructions.len());
    instructions.push(TInstr::Jump(jmp_cond.clone()));
    instructions.push(TInstr::Label(short_cond));
    if is_and {
        instructions.push(TInstr::Copy(TVal::Constant(0), result.clone()));
    } else {
        instructions.push(TInstr::Copy(TVal::Constant(1), result.clone()));
    }
    instructions.push(TInstr::Label(jmp_cond));
    proof {
        broadcast use view_tinstrs_push, view_tinstrs_len;

        let oldv = view_tinstrs(old(instructions)@);
        let e = ExprV::Binary(*op, Box::new(left@), Box::new(right@));
        let sub1 = spec_expr_val(left@, oldv);
        let short = dotted_name("short_cond"@, sub1.1.len());
        if is_and {
            let ins2 = sub1.1.push(TInstrV::JumpIfZero(sub1.0, short));
            assert(view_tinstrs(old(instructions)@) == oldv);
            let sub2 = spec_expr_val(right@, ins2);
            let ins3b = sub2.1.push(TInstrV::JumpIfZero(sub2.0, short));
            let res = TValV::Var(dotted_name("and_or_result."@, ins3b.len()));
            let ins4 = ins3b.push(TInstrV::Copy(TValV::Constant(1), res));
            let jmp = dotted_name("jmp_cond"@, ins4.len());
            let ins5 = ins4.push(TInstrV::Jump(jmp)).push(TInstrV::Label(short)).push(
                TInstrV::Copy(TValV::Constant(0), res),
            ).push(TInstrV::Label(jmp));
            assert(view_tinstrs(instructions@) =~= ins5);
            assert(spec_expr_val(e, oldv).1 == ins5);
            assert(spec_expr_val(e, oldv).0 == res);
        } else {
            let ins2 = sub1.1.push(TInstrV::JumpIfNotZero(sub1.0, short));
            let sub2 = spec_expr_val(right@, ins2);
            let ins3b = sub2.1.push(TInstrV::JumpIfNotZero(sub2.0, short));
            let res = TValV::Var(dotted_name("and_or_result."@, ins3b.len()));
            let ins4 = ins3b.push(TInstrV::Copy(TValV::Constant(0), res));
            let jmp = dotted_name("jmp_cond"@, ins4.len());
            let ins5 = ins4.push(TInstrV::Jump(jmp)).push(TInstrV::Label(short)).push(
                TInstrV::Copy(TValV::Constant(1), res),
            ).push(TInstrV::Label(jmp));
            assert(view_tinstrs(instructions@) =~= ins5);
            assert(spec_expr_val(e, oldv).1 == ins5);
            assert(spec_expr_val(e, oldv).0 == res);
        }
    }
    result
}

/// Lowers an arithmetic or relational application: both operands, then one
/// instruction into a fresh temporary.
fn binary_normal(
    op: &BinaryOp,
    left: &Expr,
    right: &Expr,
    instructions: &mut Vec<TInstr>,
) -> (r: TVal)
    requires
        !(*op == BinaryOp::And || *op == BinaryOp::Or),
    ensures
        r@ == spec_expr_val(
            ExprV::Binary(*op, Box::new(left@), Box::new(right@)),
            view_tinstrs(old(instructions)@),
        ).0,
        view_tinstrs(final(instructions)@) == spec_expr_val(
            ExprV::Binary(*op, Box::new(left@), Box::new(right@)),
            view_tinstrs(old(instructions)@),
        ).1,
    decreases (if expr_height(*left) >= expr_height(*right) {
        expr_height(*left)
    } else {
        expr_height(*right)
    }), 1int,
{
    let v1 = expr_val(left, instructions);
    let v2 = expr_val(right, instructions);
    let dst_name = make_temp("temp.", instructions.len());
    let dst = TVal::Var(dst_name);
    let tacky_op = get_binary_op(op);
    instructions.push(TInstr::Binary(tacky_op, v1, v2, dst.clone()));
    proof {
        broadcast use view_tinstrs_push, view_tinstrs_len;

        let oldv = view_tinstrs(old(instructions)@);
        let e = ExprV::Binary(*op, Box::new(left@), Box::new(right@));
        let sub1 = spec_expr_val(left@, oldv);
        let sub2 = spec_expr_val(right@, sub1.1);
        let pushed = TInstrV::Binary(
            spec_tbinop(*op),
            sub1.0,
            sub2.0,
            TValV::Var(dotted_name("temp."@, sub2.1.len())),
        );
        assert(view_tinstrs(instructions@) =~= sub2.1.push(pushed));
        assert(spec_expr_val(e, oldv).1 == sub2.1.push(pushed));
        assert(spec_expr_val(e, oldv).0 == TValV::Var(dotted_name("temp."@, sub2.1.len())));
    }
    dst
}

/// Lowers a declaration.
fn decl_val(decl: &Decl, instructions: &mut Vec<TInstr>)
    ensures
        view_tinstrs(final(instructions)@) == spec_decl_val(
            decl@,
            view_tinstrs(old(instructions)@),
        ),
{
    match decl {
        Decl::Declaration(var, Some(expr)) => {
            let res = expr_val(expr, instructions);
            instructions.push(TInstr::Copy(res, TVal::Var(var.clone())));
            proof {
                broadcast use view_tinstrs_push, view_tinstrs_len;

                let oldv = view_tinstrs(old(instructions)@);
                let sub = spec_expr_val(expr@, oldv);
                let pushed = TInstrV::Copy(sub.0, TValV::Var(var@));
                assert(view_tinstrs(instructions@) =~= sub.1.push(pushed));
                assert(spec_decl_val(decl@, oldv) == sub.1.push(pushed));
            }
        },
        _ => {},
    }
}

/// Lowers a statement.
fn stmt_val(stmt: &Stmt, instructions: &mut Vec<TInstr>)
    ensures
        view_tinstrs(final(instructions)@) == spec_stmt_val(
            stmt@,
            view_tinstrs(old(instructions)@),
        ),
{
    match stmt {
        Stmt::Return(val) => {
            let ret_val = expr_val(val, instructions);
            instructions.push(TInstr::Return(ret_val));
            proof {
                broadcast use view_tinstrs_push, view_tinstrs_len;

                let oldv = view_tinstrs(old(instructions)@);
                let sub = spec_expr_val(val@, oldv);
                let pushed = TInstrV::Return(sub.0);
                assert(view_tinstrs(instructions@) =~= sub.1.push(pushed));
                assert(spec_stmt_val(stmt@, oldv) == sub.1.push(pushed));
            }
        },
        Stmt::Expression(expr) => {
            let _ = expr_val(expr, instructions);
        },
        _ => {},
    }
}

/// Lowers one block item.
fn block_item(item: &BlockItem, instructions: &mut Vec<TInstr>)
    ensures
        view_tinstrs(final(instructions)@) == spec_item_val(
            item@,
            view_tinstrs(old(instructions)@),
        ),
{
    match item {
        BlockItem::S(stmt) => stmt_val(stmt, instructions),
        BlockItem::D(decl) => decl_val(decl, instructions),
    }
}

/// Lowers a whole body, appending the implicit final return.
#[verifier::loop_isolation(false)]
fn instrs(body: &Vec<BlockItem>) -> (r: Vec<TInstr>)
    ensures
        view_tinstrs(r@) == spec_instrs(crate::ast::view_items(body@)),
{
    let ghost all = crate::ast::view_items(body@);
    let mut instructions: Vec<TInstr> = Vec::new();
    proof {
        assert(view_tinstrs(instructions@) =~= Seq::<TInstrV>::empty());
        assert(all.skip(0) =~= all);
    }
    let mut i: usize = 0;
    while i < body.len()
        invariant
            i <= body@.len(),
            spec_body_instrs(all, Seq::empty()) == spec_body_instrs(
                all.skip(i as int),
                view_tinstrs(instructions@),
            ),
        decreases body@.len() - i,
    {
        proof {
            assert(all.skip(i as int)[0] == body@[i as int]@);
            assert(all.skip(i as int).drop_first() =~= all.skip(i as int + 1));
        }
        block_item(&body[i], &mut instructions);
        i = i + 1;
    }
    proof {
        assert(all.skip(body@.len() as int) =~= Seq::<BlockItemV>::empty());
    }
    instructions.push(TInstr::Return(TVal::Constant(0)));
    proof {
        assert(view_tinstrs(instructions@) =~= spec_instrs(all));
    }
    instructions
}

/// Lowers a function definition.
fn function_decl(ast: &FuncDef) -> (r: TFuncDef)
    ensures
        r@ == spec_gen_tacky(ast@),
{
    match ast {
        FuncDef::Function(ident, body) => TFuncDef::Function(ident.clone(), instrs(body)),
    }
}

/// Lowers a resolved syntax tree to three-address form, exactly as
/// [`spec_gen_tacky`] describes: the body's instructions in order, followed
/// by an implicit `Return(Constant(0))`.
pub fn gen_tacky(ast: FuncDef) -> (r: TFuncDef)
    ensures
        r@ == spec_gen_tacky(ast@),
{
    let tacky_tree = function_decl(&ast);
    tacky_tree
}

} // verus!

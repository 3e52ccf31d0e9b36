//! The diagnostic rendering of a syntax tree, as the driver prints it for
//! the parse and validation stages.
//!
//! Indentation is one space per nesting level; it is threaded through the
//! walk as the literal prefix string, growing by one or two spaces exactly
//! where the nesting deepens.  [`ast_text`] is proved to return exactly
//! [`spec_ast_text`].

use vstd::prelude::*;

use crate::ast::BinaryOp;
use crate::ast::BlockItem;
use crate::ast::BlockItemV;
use crate::ast::Decl;
use crate::ast::DeclV;
use crate::ast::Expr;
use crate::ast::ExprV;
use crate::ast::FuncDef;
use crate::ast::FuncDefV;
use crate::ast::Stmt;
use crate::ast::StmtV;
use crate::ast::UnaryOp;
use crate::ast::expr_height;
use crate::ast::view_items;
use crate::names::signed_decimal_digits;
use crate::names::signed_decimal_string;

verus! {

/// The rendering of a unary operator, newline included.
pub open spec fn spec_unary_mark(op: UnaryOp) -> Seq<char> {
    match op {
        UnaryOp::Negate => "-:\n"@,
        UnaryOp::Complement => "~:\n"@,
        UnaryOp::Not => "!:\n"@,
    }
}

/// The rendering of a binary operator, newline included; assignment has no
/// mark of its own.
pub open spec fn spec_binary_mark(op: BinaryOp) -> Seq<char> {
    match op {
        BinaryOp::Add => "+:\n"@,
        BinaryOp::Subtract => "-:\n"@,
        BinaryOp::Multiply => "*:\n"@,
        BinaryOp::Divide => "/:\n"@,
        BinaryOp::Remainder => "%:\n"@,
        BinaryOp::Equal => "==:\n"@,
        BinaryOp::NotEqual => "!=:\n"@,
        BinaryOp::LessThan => "<:\n"@,
        BinaryOp::LessEqual => "<= :\n"@,
        BinaryOp::GreatThan => ">:\n"@,
        BinaryOp::GreatEqual => ">= :\n"@,
        BinaryOp::And => "&&:\n"@,
        BinaryOp::Or => "||:\n"@,
        BinaryOp::Assign => Seq::empty(),
    }
}

/// The rendering of an expression under the indent prefix `ind`.
pub open spec fn spec_expr_text(e: ExprV, ind: Seq<char>) -> Seq<char>
    decreases e,
{
    match e {
        ExprV::Constant(v) => ind + "Constant("@ + signed_decimal_digits(v as int) + ")\n"@,
        ExprV::Unary(op, inner) => ind + "Unary "@ + spec_unary_mark(op) + spec_expr_text(
            *inner,
            ind + " "@,
        ),
        ExprV::Binary(op, l, r) => ind + "Binary "@ + spec_binary_mark(op) + (ind + " "@)
            + "Left(\n"@ + spec_expr_text(*l, ind + "  "@) + (ind + " "@) + ")Right(\n"@
            + spec_expr_text(*r, ind + "  "@) + (ind + " "@) + ")\n"@,
        ExprV::Var(ident) => ind + "Var: "@ + ident + "\n"@,
        ExprV::Assignment(l, r) => ind + "Assignment:\n"@ + (ind + " "@) + "Into(\n"@
            + spec_expr_text(*l, ind + "  "@) + (ind + " "@) + ")From(\n"@ + spec_expr_text(
            *r,
            ind + "  "@,
        ) + (ind + " "@) + ")\n"@,
    }
}

/// The rendering of a declaration's initializer.
pub open spec fn spec_init_text(init: Option<ExprV>, ind: Seq<char>) -> Seq<char> {
    match init {
        Some(e) => spec_expr_text(e, ind),
        None => ind + "Uninitialized\n"@,
    }
}

/// The rendering of a declaration.
pub open spec fn spec_decl_text(d: DeclV, ind: Seq<char>) -> Seq<char> {
    match d {
        DeclV::Declaration(ident, init) => ind + ident + " <- Declaration(\n"@ + spec_init_text(
            init,
            ind + " "@,
        ),
    }
}

/// The rendering of a statement.
pub open spec fn spec_stmt_text(s: StmtV, ind: Seq<char>) -> Seq<char> {
    match s {
        StmtV::Return(e) => ind + "Return(\n"@ + spec_expr_text(e, ind + " "@) + ind + ")\n"@,
        StmtV::Expression(e) => ind + "Expression Statement(\n"@ + spec_expr_text(e, ind + " "@)
            + ind + ")\n"@,
        StmtV::Null => ind + "Null Statement\n"@,
    }
}

/// The rendering of one block item.
pub open spec fn spec_block_item_text(b: BlockItemV, ind: Seq<char>) -> Seq<char> {
    match b {
        BlockItemV::S(s) => spec_stmt_text(s, ind),
        BlockItemV::D(d) => spec_decl_text(d, ind),
    }
}

/// The rendering of a body, item by item.
pub open spec fn spec_body_text(items: Seq<BlockItemV>, ind: Seq<char>) -> Seq<char>
    decreases items.len(),
{
    if items.len() == 0 {
        Seq::empty()
    } else {
        spec_block_item_text(items[0], ind) + spec_body_text(items.drop_first(), ind)
    }
}

/// The rendering of a function definition.
pub open spec fn spec_function_text(f: FuncDefV, ind: Seq<char>) -> Seq<char> {
    match f {
        FuncDefV::Function(name, body) => ind + name + " <- Function(\n"@ + (ind + " "@)
            + "body=\n"@ + spec_body_text(body, ind + "  "@) + ind + ")\n"@,
    }
}

/// The rendering of a whole program.
pub open spec fn spec_ast_text(f: FuncDefV) -> Seq<char> {
    "Program(\n"@ + spec_function_text(f, " "@) + ")\n"@
}

/// Extends an indent prefix by one space.
fn deeper(ind: &str) -> (r: String)
    ensures
        r@ == ind@ + " "@,
{
    let mut s = String::from_str(ind);
    s.append(" ");
    s
}

/// One space twice is the two-space prefix.
proof fn lemma_two_spaces(ind: Seq<char>)
    ensures
        ind + " "@ + " "@ == ind + "  "@,
{
    reveal_strlit(" ");
    reveal_strlit("  ");
    assert(ind + " "@ + " "@ =~= ind + "  "@);
}

/// Renders an expression.
fn expr_text(expr: &Expr, ind: &str) -> (r: String)
    ensures
        r@ == spec_expr_text(expr@, ind@),
    decreases expr_height(*expr),
{
    match expr {
        Expr::Constant(val) => {
            let digits = signed_decimal_string(*val);
            let mut s = String::from_str(ind);
            s.append("Constant(");
            s.append(digits.as_str());
            s.append(")\n");
            assert(s@ =~= spec_expr_text(expr@, ind@));
            s
        },
        Expr::Unary(op, inner) => {
            let ind1 = deeper(ind);
            let inner_text = expr_text(inner, ind1.as_str());
            let mut s = String::from_str(ind);
            s.append("Unary ");
            s.append(unary_mark(op));
            s.append(inner_text.as_str());
            assert(s@ =~= spec_expr_text(expr@, ind@));
            s
        },
        Expr::Binary(op, left, right) => {
            let ind1 = deeper(ind);
            let ind2 = deeper(ind1.as_str());
            let left_text = expr_text(left, ind2.as_str());
            let right_text = expr_text(right, ind2.as_str());
            let mut s = String::from_str(ind);
            s.append("Binary ");
            s.append(binary_mark(op));
            s.append(ind1.as_str());
            s.append("Left(\n");
            s.append(left_text.as_str());
            s.append(ind1.as_str());
            s.append(")Right(\n");
            s.append(right_text.as_str());
            s.append(ind1.as_str());
            s.append(")\n");
            proof {
                lemma_two_spaces(ind@);
            }
            assert(s@ =~= spec_expr_text(expr@, ind@));
            s
        },
        Expr::Var(ident) => {
            let mut s = String::from_str(ind);
            s.append("Var: ");
            s.append(ident.as_str());
            s.append("\n");
            assert(s@ =~= spec_expr_text(expr@, ind@));
            s
        },
        Expr::Assignment(left, right) => {
            let ind1 = deeper(ind);
            let ind2 = deeper(ind1.as_str());
            let left_text = expr_text(left, ind2.as_str());
            let right_text = expr_text(right, ind2.as_str());
            let mut s = String::from_str(ind);
            s.append("Assignment:\n");
            s.append(ind1.as_str());
            s.append("Into(\n");
            s.append(left_text.as_str());
            s.append(ind1.as_str());
            s.append(")From(\n");
            s.append(right_text.as_str());
            s.append(ind1.as_str());
            s.append(")\n");
            proof {
                lemma_two_spaces(ind@);
            }
            assert(s@ =~= spec_expr_text(expr@, ind@));
            s
        },
    }
}

/// The mark of a unary operator.
fn unary_mark(op: &UnaryOp) -> (r: &'static str)
    ensures
        r@ == spec_unary_mark(*op),
{
    match op {
        UnaryOp::Negate => "-:\n",
        UnaryOp::Complement => "~:\n",
        UnaryOp::Not => "!:\n",
    }
}

/// The mark of a binary operator.
fn binary_mark(op: &BinaryOp) -> (r: &'static str)
    ensures
        r@ == spec_binary_mark(*op),
{
    match op {
        BinaryOp::Add => "+:\n",
        BinaryOp::Subtract => "-:\n",
        BinaryOp::Multiply => "*:\n",
        BinaryOp::Divide => "/:\n",
        BinaryOp::Remainder => "%:\n",
        BinaryOp::Equal => "==:\n",
        BinaryOp::NotEqual => "!=:\n",
        BinaryOp::LessThan => "<:\n",
        BinaryOp::LessEqual => "<= :\n",
        BinaryOp::GreatThan => ">:\n",
        BinaryOp::GreatEqual => ">= :\n",
        BinaryOp::And => "&&:\n",
        BinaryOp::Or => "||:\n",
        BinaryOp::Assign => {
            proof {
                reveal_strlit("");
            }
            assert(""@ =~= Seq::<char>::empty());
            ""
        },
    }
}

/// Renders a declaration.
fn decl_text(decl: &Decl, ind: &str) -> (r: String)
    ensures
        r@ == spec_decl_text(decl@, ind@),
{
    match decl {
        Decl::Declaration(ident, init) => {
            let ind1 = deeper(ind);
            let init_part = match init {
                Some(e) => expr_text(e, ind1.as_str()),
                None => {
                    let mut u = String::from_str(ind1.as_str());
                    u.append("Uninitialized\n");
                    u
                },
            };
            let mut s = String::from_str(ind);
            s.append(ident.as_str());
            s.append(" <- Declaration(\n");
            s.append(init_part.as_str());
            assert(s@ =~= spec_decl_text(decl@, ind@));
            s
        },
    }
}

/// Renders a statement.
fn stmt_text(stmt: &Stmt, ind: &str) -> (r: String)
    ensures
        r@ == spec_stmt_text(stmt@, ind@),
{
    match stmt {
        Stmt::Return(e) => {
            let ind1 = deeper(ind);
            let inner = expr_text(e, ind1.as_str());
            let mut s = String::from_str(ind);
            s.append("Return(\n");
            s.append(inner.as_str());
            s.append(ind);
            s.append(")\n");
            assert(s@ =~= spec_stmt_text(stmt@, ind@));
            s
        },
        Stmt::Expression(e) => {
            let ind1 = deeper(ind);
            let inner = expr_text(e, ind1.as_str());
            let mut s = String::from_str(ind);
            s.append("Expression Statement(\n");
            s.append(inner.as_str());
            s.append(ind);
            s.append(")\n");
            assert(s@ =~= spec_stmt_text(stmt@, ind@));
            s
        },
        Stmt::Null => {
            let mut s = String::from_str(ind);
            s.append("Null Statement\n");
            s
        },
    }
}

/// Renders one block item.
fn block_item_text(item: &BlockItem, ind: &str) -> (r: String)
    ensures
        r@ == spec_block_item_text(item@, ind@),
{
    match item {
        BlockItem::S(stmt) => stmt_text(stmt, ind),
        BlockItem::D(decl) => decl_text(decl, ind),
    }
}

/// Renders a body, item by item.
#[verifier::loop_isolation(false)]
fn body_text(body: &Vec<BlockItem>, ind: &str) -> (r: String)
    ensures
        r@ == spec_body_text(view_items(body@), ind@),
{
    let ghost all = view_items(body@);
    let mut text = String::new();
    proof {
        assert(all.skip(0) =~= all);
    }
    let mut i: usize = 0;
    while i < body.len()
        invariant
            i <= body@.len(),
            text@ + spec_body_text(all.skip(i as int), ind@) == spec_body_text(all, ind@),
        decreases body@.len() - i,
    {
        proof {
            assert(all.skip(i as int)[0] == body@[i as int]@);
            assert(all.skip(i as int).drop_first() =~= all.skip(i as int + 1));
        }
        let ghost pre = text@;
        let line = block_item_text(&body[i], ind);
        text.append(line.as_str());
        i = i + 1;
        proof {
            assert(pre + spec_block_item_text(all[i - 1], ind@) + spec_body_text(
                all.skip(i as int),
                ind@,
            ) =~= pre + (spec_block_item_text(all[i - 1], ind@) + spec_body_text(
                all.skip(i as int),
                ind@,
            )));
        }
    }
    proof {
        assert(all.skip(body@.len() as int) =~= Seq::<BlockItemV>::empty());
        assert(text@ + Seq::<char>::empty() =~= text@);
    }
    text
}

/// Renders a function definition.
fn function_text(ast: &FuncDef, ind: &str) -> (r: String)
    ensures
        r@ == spec_function_text(ast@, ind@),
{
    match ast {
        FuncDef::Function(name, body) => {
            let ind1 = deeper(ind);
            let ind2 = deeper(ind1.as_str());
            let body_part = body_text(body, ind2.as_str());
            let mut s = String::from_str(ind);
            s.append(name.as_str());
            s.append(" <- Function(\n");
            s.append(ind1.as_str());
            s.append("body=\n");
            s.append(body_part.as_str());
            s.append(ind);
            s.append(")\n");
            proof {
                lemma_two_spaces(ind@);
            }
            assert(s@ =~= spec_function_text(ast@, ind@));
            s
        },
    }
}

/// Renders a whole program for the diagnostic stage output.
pub fn ast_text(ast: &FuncDef) -> (r: String)
    ensures
        r@ == spec_ast_text(ast@),
{
    let level1 = String::from_str(" ");
    proof {
        reveal_strlit(" ");
        assert(level1@ =~= " "@);
    }
    let function_part = function_text(ast, level1.as_str());
    let mut s = String::from_str("Program(\n");
    s.append(function_part.as_str());
    s.append(")\n");
    assert(s@ =~= spec_ast_text(ast@));
    s
}

} // verus!

//! Parsing: the token stream to a single function definition.
//!
//! The grammar is `int <identifier> ( void ) { <block-item>* }`.  A block
//! item is a declaration (introduced by the `int` keyword, with an optional
//! `=` initializer) or a statement (`return <expr> ;`, a bare `;`, or an
//! expression statement), every statement closed by a mandatory semicolon.
//! Expressions are parsed by precedence climbing: a factor is a constant, a
//! variable, a prefixed unary operator applied to a factor, or a
//! parenthesized expression; binary operators are consumed while their
//! precedence is at least the current minimum, the right-hand side being
//! parsed one level tighter for left-associative operators and at the same
//! level for assignment (which is therefore right-associative).
//!
//! Each specification function consumes a suffix of the token sequence and
//! returns the parsed tree together with the tokens that remain; the
//! executable parser is proved to return exactly that tree, and to fail
//! exactly when the specification has no parse.

use vstd::prelude::*;

use crate::ast::BinaryOp;
use crate::ast::BlockItem;
use crate::ast::BlockItemV;
use crate::ast::Decl;
use crate::ast::DeclV;
use crate::ast::Expr;
use crate::ast::ExprV;
use crate::ast::FuncDef;
use crate::ast::FuncDefV;
use crate::ast::ParseErrV;
use crate::ast::ParseError;
use crate::ast::spec_consume;
use crate::ast::spec_end_of_stream;
use crate::ast::Stmt;
use crate::ast::StmtV;
use crate::ast::TokenQue;
use crate::ast::UnaryOp;
use crate::ast::view_items;
use crate::lexer::Keyword;
use crate::lexer::Tkn;
use crate::lexer::TknV;
use crate::lexer::view_tokens;

verus! {

/// The binding strength of each binary operator; higher binds tighter.
/// Assignment is weakest and the only right-associative operator.
pub open spec fn spec_prec(op: BinaryOp) -> int {
    match op {
        BinaryOp::Multiply => 50,
        BinaryOp::Divide => 50,
        BinaryOp::Remainder => 50,
        BinaryOp::Add => 45,
        BinaryOp::Subtract => 45,
        BinaryOp::LessThan => 35,
        BinaryOp::LessEqual => 35,
        BinaryOp::GreatThan => 35,
        BinaryOp::GreatEqual => 35,
        BinaryOp::Equal => 30,
        BinaryOp::NotEqual => 30,
        BinaryOp::And => 10,
        BinaryOp::Or => 5,
        BinaryOp::Assign => 1,
    }
}

/// The binary operator a token denotes, if any.
pub open spec fn token_binop(t: TknV) -> Option<BinaryOp> {
    match t {
        TknV::Subtract => Some(BinaryOp::Subtract),
        TknV::Plus => Some(BinaryOp::Add),
        TknV::Star => Some(BinaryOp::Multiply),
        TknV::Slash => Some(BinaryOp::Divide),
        TknV::Mod => Some(BinaryOp::Remainder),
        TknV::EqualEqual => Some(BinaryOp::Equal),
        TknV::Less => Some(BinaryOp::LessThan),
        TknV::LessEqual => Some(BinaryOp::LessEqual),
        TknV::Great => Some(BinaryOp::GreatThan),
        TknV::GreatEqual => Some(BinaryOp::GreatEqual),
        TknV::NotEqual => Some(BinaryOp::NotEqual),
        TknV::And => Some(BinaryOp::And),
        TknV::Or => Some(BinaryOp::Or),
        TknV::Equal => Some(BinaryOp::Assign),
        _ => None,
    }
}

/// The unary operator a token denotes, if any.
pub open spec fn token_unop(t: TknV) -> Option<UnaryOp> {
    match t {
        TknV::Tilde => Some(UnaryOp::Complement),
        TknV::Subtract => Some(UnaryOp::Negate),
        TknV::Not => Some(UnaryOp::Not),
        _ => None,
    }
}

/// A factor: a constant, a variable, a unary operator applied to a factor,
/// or a parenthesized expression.  Yields the tree and the tokens that
/// remain, or the diagnostic for the token at which no factor starts.
pub open spec fn spec_factor(t: Seq<(TknV, nat)>) -> Result<
    (ExprV, Seq<(TknV, nat)>),
    ParseErrV,
>
    decreases t.len(), 1int,
{
    if t.len() == 0 {
        Err(spec_end_of_stream())
    } else {
        match t[0].0 {
            TknV::Constant(v) => Ok((ExprV::Constant(v), t.drop_first())),
            TknV::Tilde | TknV::Subtract | TknV::Not => {
                let op = token_unop(t[0].0)->0;
                match spec_factor(t.drop_first()) {
                    Ok((inner, rest)) => Ok((ExprV::Unary(op, Box::new(inner)), rest)),
                    Err(e) => Err(e),
                }
            },
            TknV::LeftParen => match spec_expr(t.drop_first(), 0) {
                Ok((inner, rest)) => match spec_consume(rest, TknV::RightParen, "Expected ')'"@) {
                    Ok(rest2) => Ok((inner, rest2)),
                    Err(e) => Err(e),
                },
                Err(e) => Err(e),
            },
            TknV::Identifier(name) => Ok((ExprV::Var(name), t.drop_first())),
            _ => Err(ParseErrV::At(t[0].1, "Expression Expected"@)),
        }
    }
}

/// An expression at minimum precedence `min_prec`: a factor followed by the
/// operator loop.
pub open spec fn spec_expr(t: Seq<(TknV, nat)>, min_prec: int) -> Result<
    (ExprV, Seq<(TknV, nat)>),
    ParseErrV,
>
    decreases t.len(), 2int,
{
    match spec_factor(t) {
        Err(e) => Err(e),
        Ok((left, rest)) => if rest.len() < t.len() {
            spec_binops(rest, left, min_prec)
        } else {
            // A factor always consumes at least one token, so this branch is
            // unreachable; it only serves the termination argument.
            Err(spec_end_of_stream())
        },
    }
}

/// The operator loop of precedence climbing: while the next token is a
/// binary operator of precedence at least `min_prec`, consume it, parse the
/// right-hand side (at the same level for assignment, one tighter
/// otherwise), and fold it into `left`.  A missing next token is a parse
/// failure, as the parser peeks unconditionally.
pub open spec fn spec_binops(t: Seq<(TknV, nat)>, left: ExprV, min_prec: int) -> Result<
    (ExprV, Seq<(TknV, nat)>),
    ParseErrV,
>
    decreases t.len(), 0int,
{
    if t.len() == 0 {
        Err(spec_end_of_stream())
    } else {
        match token_binop(t[0].0) {
            None => Ok((left, t)),
            Some(op) => if spec_prec(op) >= min_prec {
                let next_min = if op is Assign {
                    spec_prec(op)
                } else {
                    spec_prec(op) + 1
                };
                match spec_expr(t.drop_first(), next_min) {
                    Err(e) => Err(e),
                    Ok((right, rest)) => {
                        let folded = if op is Assign {
                            ExprV::Assignment(Box::new(left), Box::new(right))
                        } else {
                            ExprV::Binary(op, Box::new(left), Box::new(right))
                        };
                        if rest.len() < t.len() {
                            spec_binops(rest, folded, min_prec)
                        } else {
                            // The right-hand side never grows the input;
                            // only for termination.
                            Err(spec_end_of_stream())
                        }
                    },
                }
            } else {
                Ok((left, t))
            },
        }
    }
}

/// A statement: `;`, `return <expr> ;`, or `<expr> ;`, the trailing
/// semicolon mandatory.
pub open spec fn spec_statement(t: Seq<(TknV, nat)>) -> Result<
    (StmtV, Seq<(TknV, nat)>),
    ParseErrV,
>
    decreases t.len(), 3int,
{
    if t.len() == 0 {
        Err(spec_end_of_stream())
    } else if t[0].0 is Semicolon {
        Ok((StmtV::Null, t.drop_first()))
    } else if t[0].0 == TknV::Key(Keyword::Return) {
        match spec_expr(t.drop_first(), 0) {
            Err(e) => Err(e),
            Ok((e, rest)) => match spec_consume(rest, TknV::Semicolon, "Expected ';'"@) {
                Ok(rest2) => Ok((StmtV::Return(e), rest2)),
                Err(err) => Err(err),
            },
        }
    } else {
        match spec_expr(t, 0) {
            Err(e) => Err(e),
            Ok((e, rest)) => match spec_consume(rest, TknV::Semicolon, "Expected ';'"@) {
                Ok(rest2) => Ok((StmtV::Expression(e), rest2)),
                Err(err) => Err(err),
            },
        }
    }
}

/// A declaration, after its `int` keyword has been consumed: the name, an
/// optional `=` initializer, and the closing semicolon.
pub open spec fn spec_declaration(t: Seq<(TknV, nat)>) -> Result<
    (DeclV, Seq<(TknV, nat)>),
    ParseErrV,
>
    decreases t.len(), 3int,
{
    if t.len() == 0 {
        Err(spec_end_of_stream())
    } else {
        match t[0].0 {
            TknV::Identifier(name) => {
                let t1 = t.drop_first();
                if t1.len() == 0 {
                    Err(spec_end_of_stream())
                } else if t1[0].0 is Equal {
                    match spec_expr(t1.drop_first(), 0) {
                        Err(e) => Err(e),
                        Ok((e, rest)) => match spec_consume(
                            rest,
                            TknV::Semicolon,
                            "Expected ';'"@,
                        ) {
                            Ok(rest2) => Ok((DeclV::Declaration(name, Some(e)), rest2)),
                            Err(err) => Err(err),
                        },
                    }
                } else {
                    match spec_consume(t1, TknV::Semicolon, "Expected ';'"@) {
                        Ok(rest2) => Ok((DeclV::Declaration(name, None), rest2)),
                        Err(err) => Err(err),
                    }
                }
            },
            _ => Err(ParseErrV::At(t[0].1, "Identifier Expected"@)),
        }
    }
}

/// One block item: a declaration when the `int` keyword is next, a
/// statement otherwise.
pub open spec fn spec_block_item(t: Seq<(TknV, nat)>) -> Result<
    (BlockItemV, Seq<(TknV, nat)>),
    ParseErrV,
>
    decreases t.len(), 4int,
{
    if t.len() == 0 {
        Err(spec_end_of_stream())
    } else if t[0].0 == TknV::Key(Keyword::Int) {
        match spec_declaration(t.drop_first()) {
            Err(e) => Err(e),
            Ok((d, rest)) => Ok((BlockItemV::D(d), rest)),
        }
    } else {
        match spec_statement(t) {
            Err(e) => Err(e),
            Ok((s, rest)) => Ok((BlockItemV::S(s), rest)),
        }
    }
}

/// The items of a function body, up to and including the closing brace.
pub open spec fn spec_body_items(t: Seq<(TknV, nat)>) -> Result<
    (Seq<BlockItemV>, Seq<(TknV, nat)>),
    ParseErrV,
>
    decreases t.len(), 5int,
{
    if t.len() == 0 {
        Err(spec_end_of_stream())
    } else if t[0].0 is RightBrace {
        Ok((Seq::empty(), t.drop_first()))
    } else {
        match spec_block_item(t) {
            Err(e) => Err(e),
            Ok((item, rest)) => if rest.len() < t.len() {
                match spec_body_items(rest) {
                    Err(e) => Err(e),
                    Ok((items, rest2)) => Ok((seq![item] + items, rest2)),
                }
            } else {
                // A block item always consumes at least one token; only for
                // termination.
                Err(spec_end_of_stream())
            },
        }
    }
}

/// A function body: an opening brace followed by the items and the closing
/// brace.
pub open spec fn spec_body_decl(t: Seq<(TknV, nat)>) -> Result<
    (Seq<BlockItemV>, Seq<(TknV, nat)>),
    ParseErrV,
>
    decreases t.len(), 6int,
{
    match spec_consume(t, TknV::LeftBrace, "Expected '{'"@) {
        Err(e) => Err(e),
        Ok(t1) => spec_body_items(t1),
    }
}

/// A function definition: `int <identifier> ( void )` followed by the body.
pub open spec fn spec_fn_decl(t: Seq<(TknV, nat)>) -> Result<
    (FuncDefV, Seq<(TknV, nat)>),
    ParseErrV,
>
    decreases t.len(), 7int,
{
    match spec_consume(t, TknV::Key(Keyword::Int), "Expected int"@) {
        Err(e) => Err(e),
        Ok(t1) => if t1.len() == 0 {
            Err(spec_end_of_stream())
        } else if t1[0].0 is Identifier {
            let name = t1[0].0->Identifier_0;
            let t2 = t1.drop_first();
            match spec_consume(t2, TknV::LeftParen, "Expected '('"@) {
                Err(e) => Err(e),
                Ok(t3) => match spec_consume(t3, TknV::Key(Keyword::Void), "Expected 'void'"@) {
                    Err(e) => Err(e),
                    Ok(t4) => match spec_consume(t4, TknV::RightParen, "Expected ')'"@) {
                        Err(e) => Err(e),
                        Ok(t5) => match spec_body_decl(t5) {
                            Err(e) => Err(e),
                            Ok((items, rest)) => Ok((FuncDefV::Function(name, items), rest)),
                        },
                    },
                },
            }
        } else {
            Err(ParseErrV::At(t1[0].1, "Expected function identifier"@))
        },
    }
}

/// The whole stream: function definitions parsed back to back until no
/// token remains; the last one is the program.
pub open spec fn spec_parse_loop(t: Seq<(TknV, nat)>, prog: FuncDefV) -> Result<
    FuncDefV,
    ParseErrV,
>
    decreases t.len(), 8int,
{
    if t.len() == 0 {
        Ok(prog)
    } else {
        match spec_fn_decl(t) {
            Err(e) => Err(e),
            Ok((f, rest)) => if rest.len() < t.len() {
                spec_parse_loop(rest, f)
            } else {
                // A function definition always consumes tokens; only for
                // termination.
                Err(spec_end_of_stream())
            },
        }
    }
}

/// The parse of a whole token stream; an empty stream is the end-of-stream
/// error.
pub open spec fn spec_parse(t: Seq<(TknV, nat)>) -> Result<FuncDefV, ParseErrV> {
    if t.len() == 0 {
        Err(spec_end_of_stream())
    } else {
        match spec_fn_decl(t) {
            Err(e) => Err(e),
            Ok((f, rest)) => if rest.len() < t.len() {
                spec_parse_loop(rest, f)
            } else {
                Err(spec_end_of_stream())
            },
        }
    }
}

/// The executable precedence table.
fn precedence(op: &BinaryOp) -> (r: u32)
    ensures
        r as int == spec_prec(*op),
        1 <= r <= 50,
{
    match op {
        BinaryOp::Multiply => 50,
        BinaryOp::Divide => 50,
        BinaryOp::Remainder => 50,
        BinaryOp::Add => 45,
        BinaryOp::Subtract => 45,
        BinaryOp::LessThan => 35,
        BinaryOp::LessEqual => 35,
        BinaryOp::GreatThan => 35,
        BinaryOp::GreatEqual => 35,
        BinaryOp::Equal => 30,
        BinaryOp::NotEqual => 30,
        BinaryOp::And => 10,
        BinaryOp::Or => 5,
        BinaryOp::Assign => 1,
    }
}

/// The unary operator denoted by a token known to denote one.
fn parse_unary_op(token: &(Tkn, u32)) -> (r: UnaryOp)
    requires
        token_unop(token.0@) is Some,
    ensures
        Some(r) == token_unop(token.0@),
{
    match token.0 {
        Tkn::Tilde => UnaryOp::Complement,
        Tkn::Subtract => UnaryOp::Negate,
        _ => UnaryOp::Not,
    }
}

/// The binary operator denoted by a token, if any.
fn parse_binary_op(token: &(Tkn, u32)) -> (r: Option<BinaryOp>)
    ensures
        r == token_binop(token.0@),
{
    match token.0 {
        Tkn::Subtract => Some(BinaryOp::Subtract),
        Tkn::Plus => Some(BinaryOp::Add),
        Tkn::Star => Some(BinaryOp::Multiply),
        Tkn::Slash => Some(BinaryOp::Divide),
        Tkn::Mod => Some(BinaryOp::Remainder),
        Tkn::EqualEqual => Some(BinaryOp::Equal),
        Tkn::Less => Some(BinaryOp::LessThan),
        Tkn::LessEqual => Some(BinaryOp::LessEqual),
        Tkn::Great => Some(BinaryOp::GreatThan),
        Tkn::GreatEqual => Some(BinaryOp::GreatEqual),
        Tkn::NotEqual => Some(BinaryOp::NotEqual),
        Tkn::And => Some(BinaryOp::And),
        Tkn::Or => Some(BinaryOp::Or),
        Tkn::Equal => Some(BinaryOp::Assign),
        _ => None,
    }
}

/// Parses one factor.
fn factor(tokens: &mut TokenQue) -> (r: Result<Expr, ParseError>)
    ensures
        match r {
            Ok(e) => spec_factor(old(tokens).toks()) == Ok::<(ExprV, Seq<(TknV, nat)>), ParseErrV>((e@, final(tokens).toks()))
                && final(tokens).toks().len() < old(tokens).toks().len(),
            Err(e) => spec_factor(old(tokens).toks()) == Err::<(ExprV, Seq<(TknV, nat)>), ParseErrV>(e@),
        },
    decreases old(tokens).toks().len(), 1int,
{
    let current = match tokens.next_token() {
        Ok(t) => t,
        Err(e) => {
            return Err(e);
        },
    };
    match current.0 {
        Tkn::Constant(value) => Ok(Expr::Constant(value)),
        Tkn::Tilde | Tkn::Subtract | Tkn::Not => {
            let operator = parse_unary_op(&current);
            match factor(tokens) {
                Ok(inner) => Ok(Expr::Unary(operator, Box::new(inner))),
                Err(e) => Err(e),
            }
        },
        Tkn::LeftParen => {
            let inner_expr = match expr(tokens, 0) {
                Ok(e) => e,
                Err(e) => {
                    return Err(e);
                },
            };
            match tokens.consume(Tkn::RightParen, "Expected ')'") {
                Ok(_) => Ok(inner_expr),
                Err(e) => Err(e),
            }
        },
        Tkn::Identifier(val) => Ok(Expr::Var(val)),
        _ => Err(ParseError::At(current.1, String::from_str("Expression Expected"))),
    }
}

/// Parses an expression by precedence climbing from `min_prec`.
fn expr(tokens: &mut TokenQue, min_prec: u32) -> (r: Result<Expr, ParseError>)
    ensures
        match r {
            Ok(e) => spec_expr(old(tokens).toks(), min_prec as int) == Ok::<(ExprV, Seq<(TknV, nat)>), ParseErrV>(
                (e@, final(tokens).toks()),
            ) && final(tokens).toks().len() < old(tokens).toks().len(),
            Err(e) => spec_expr(old(tokens).toks(), min_prec as int) == Err::<(ExprV, Seq<(TknV, nat)>), ParseErrV>(e@),
        },
    decreases old(tokens).toks().len(), 2int,
{
    let ghost t0 = old(tokens).toks();
    let mut left = match factor(tokens) {
        Ok(e) => e,
        Err(e) => {
            return Err(e);
        },
    };
    loop
        invariant
            t0 == old(tokens).toks(),
            tokens.toks().len() < t0.len(),
            spec_binops(tokens.toks(), left@, min_prec as int) == spec_expr(t0, min_prec as int),
        ensures
            tokens.toks().len() < t0.len(),
            spec_expr(t0, min_prec as int) == Ok::<(ExprV, Seq<(TknV, nat)>), ParseErrV>((left@, tokens.toks())),
        decreases tokens.toks().len(),
    {
        let next_op: Option<BinaryOp> = {
            let front = match tokens.peek_next_token() {
                Ok(f) => f,
                Err(e) => {
                    return Err(e);
                },
            };
            parse_binary_op(front)
        };
        let op = match next_op {
            Some(op) => op,
            None => {
                break;
            },
        };
        if precedence(&op) < min_prec {
            break;
        }
        let ghost t_pre = tokens.toks();
        let _ = match tokens.next_token() {
            Ok(p) => p,
            Err(e) => {
                proof {
                    assert(false);
                }
                return Err(e);
            },
        };
        let next_min: u32 = match op {
            BinaryOp::Assign => precedence(&op),
            _ => precedence(&op) + 1,
        };
        let right = match expr(tokens, next_min) {
            Ok(e) => e,
            Err(e) => {
                return Err(e);
            },
        };
        match op {
            BinaryOp::Assign => {
                left = Expr::Assignment(Box::new(left), Box::new(right));
            },
            _ => {
                left = Expr::Binary(op, Box::new(left), Box::new(right));
            },
        }
    }
    Ok(left)
}

/// Parses one statement, including its closing semicolon.
fn statement(tokens: &mut TokenQue) -> (r: Result<Stmt, ParseError>)
    ensures
        match r {
            Ok(s) => spec_statement(old(tokens).toks()) == Ok::<(StmtV, Seq<(TknV, nat)>), ParseErrV>((s@, final(tokens).toks()))
                && final(tokens).toks().len() < old(tokens).toks().len(),
            Err(e) => spec_statement(old(tokens).toks()) == Err::<(StmtV, Seq<(TknV, nat)>), ParseErrV>(e@),
        },
    decreases old(tokens).toks().len(), 3int,
{
    let kind: u8 = {
        let front = match tokens.peek_next_token() {
            Ok(f) => f,
            Err(e) => {
                return Err(e);
            },
        };
        match front.0 {
            Tkn::Semicolon => 0,
            Tkn::Key(Keyword::Return) => 1,
            _ => 2,
        }
    };
    let res: Stmt = if kind == 0 {
        Stmt::Null
    } else if kind == 1 {
        match tokens.next() {
            Ok(_) => (),
            Err(e) => {
                proof {
                    assert(false);
                }
                return Err(e);
            },
        }
        let e = match expr(tokens, 0) {
            Ok(e) => e,
            Err(e) => {
                return Err(e);
            },
        };
        Stmt::Return(e)
    } else {
        let e = match expr(tokens, 0) {
            Ok(e) => e,
            Err(e) => {
                return Err(e);
            },
        };
        Stmt::Expression(e)
    };
    match tokens.consume(Tkn::Semicolon, "Expected ';'") {
        Ok(_) => Ok(res),
        Err(e) => Err(e),
    }
}

/// Parses one declaration; its `int` keyword has already been consumed.
fn declaration(tokens: &mut TokenQue) -> (r: Result<Decl, ParseError>)
    ensures
        match r {
            Ok(d) => spec_declaration(old(tokens).toks()) == Ok::<(DeclV, Seq<(TknV, nat)>), ParseErrV>((d@, final(tokens).toks()))
                && final(tokens).toks().len() < old(tokens).toks().len(),
            Err(e) => spec_declaration(old(tokens).toks()) == Err::<(DeclV, Seq<(TknV, nat)>), ParseErrV>(e@),
        },
    decreases old(tokens).toks().len(), 3int,
{
    let current = match tokens.next_token() {
        Ok(t) => t,
        Err(e) => {
            return Err(e);
        },
    };
    let ident = match current.0 {
        Tkn::Identifier(val) => val,
        _ => {
            return Err(ParseError::At(current.1, String::from_str("Identifier Expected")));
        },
    };
    let has_init: bool = {
        let next = match tokens.peek_next_token() {
            Ok(f) => f,
            Err(e) => {
                return Err(e);
            },
        };
        match next.0 {
            Tkn::Equal => true,
            _ => false,
        }
    };
    let mut init: Option<Expr> = None;
    if has_init {
        match tokens.next() {
            Ok(_) => (),
            Err(e) => {
                proof {
                    assert(false);
                }
                return Err(e);
            },
        }
        let e = match expr(tokens, 0) {
            Ok(e) => e,
            Err(e) => {
                return Err(e);
            },
        };
        init = Some(e);
    }
    match tokens.consume(Tkn::Semicolon, "Expected ';'") {
        Ok(_) => Ok(Decl::Declaration(ident, init)),
        Err(e) => Err(e),
    }
}

/// Parses the next block item: a declaration after an `int` keyword, a
/// statement otherwise.
fn next_block_item(tokens: &mut TokenQue) -> (r: Result<BlockItem, ParseError>)
    ensures
        match r {
            Ok(b) => spec_block_item(old(tokens).toks()) == Ok::<(BlockItemV, Seq<(TknV, nat)>), ParseErrV>((b@, final(tokens).toks()))
                && final(tokens).toks().len() < old(tokens).toks().len(),
            Err(e) => spec_block_item(old(tokens).toks()) == Err::<(BlockItemV, Seq<(TknV, nat)>), ParseErrV>(e@),
        },
    decreases old(tokens).toks().len(), 4int,
{
    let is_decl: bool = {
        let current = match tokens.peek_next_token() {
            Ok(f) => f,
            Err(e) => {
                return Err(e);
            },
        };
        match current.0 {
            Tkn::Key(Keyword::Int) => true,
            _ => false,
        }
    };
    if is_decl {
        match tokens.next() {
            Ok(_) => (),
            Err(e) => {
                proof {
                    assert(false);
                }
                return Err(e);
            },
        }
        match declaration(tokens) {
            Ok(d) => Ok(BlockItem::D(d)),
            Err(e) => Err(e),
        }
    } else {
        match statement(tokens) {
            Ok(s) => Ok(BlockItem::S(s)),
            Err(e) => Err(e),
        }
    }
}

/// A produced item sequence joined with the outcome of parsing the items
/// that remain.
pub open spec fn body_join(
    done: Seq<BlockItemV>,
    rest: Result<(Seq<BlockItemV>, Seq<(TknV, nat)>), ParseErrV>,
) -> Result<(Seq<BlockItemV>, Seq<(TknV, nat)>), ParseErrV> {
    match rest {
        Err(e) => Err(e),
        Ok((items, r)) => Ok((done + items, r)),
    }
}

/// Parses a function body: the braces and every item between them.
fn body_decl(tokens: &mut TokenQue) -> (r: Result<Vec<BlockItem>, ParseError>)
    ensures
        match r {
            Ok(body) => spec_body_decl(old(tokens).toks()) == Ok::<(Seq<BlockItemV>, Seq<(TknV, nat)>), ParseErrV>(
                (view_items(body@), final(tokens).toks()),
            ) && final(tokens).toks().len() < old(tokens).toks().len(),
            Err(e) => spec_body_decl(old(tokens).toks()) == Err::<(Seq<BlockItemV>, Seq<(TknV, nat)>), ParseErrV>(e@),
        },
    decreases old(tokens).toks().len(), 6int,
{
    match tokens.consume(Tkn::LeftBrace, "Expected '{'") {
        Ok(_) => (),
        Err(e) => {
            return Err(e);
        },
    }
    let ghost t1 = tokens.toks();
    let mut body: Vec<BlockItem> = Vec::new();
    loop
        invariant
            t1 == old(tokens).toks().drop_first(),
            old(tokens).toks().len() >= 1,
            old(tokens).toks()[0].0 is LeftBrace,
            tokens.toks().len() <= t1.len(),
            spec_body_items(t1) == body_join(view_items(body@), spec_body_items(tokens.toks())),
        ensures
            t1 == old(tokens).toks().drop_first(),
            spec_body_items(t1) == body_join(view_items(body@), spec_body_items(tokens.toks())),
            tokens.toks().len() <= t1.len(),
            tokens.toks().len() > 0,
            tokens.toks()[0].0 is RightBrace,
        decreases tokens.toks().len(),
    {
        let is_end: bool = {
            let front = match tokens.peek_next_token() {
                Ok(f) => f,
                Err(e) => {
                    return Err(e);
                },
            };
            match front.0 {
                Tkn::RightBrace => true,
                _ => false,
            }
        };
        if is_end {
            break;
        }
        let ghost toks_pre = tokens.toks();
        let ghost body_pre = body@;
        let item = match next_block_item(tokens) {
            Ok(b) => b,
            Err(e) => {
                return Err(e);
            },
        };
        body.push(item);
        proof {
            assert(view_items(body@) =~= view_items(body_pre).push(item@));
            match spec_body_items(tokens.toks()) {
                Err(_) => {},
                Ok((items, rest2)) => {
                    assert(view_items(body_pre) + (seq![item@] + items) =~= view_items(body@)
                        + items);
                },
            }
        }
    }
    match tokens.consume(Tkn::RightBrace, "Expected '}'") {
        Ok(_) => (),
        Err(e) => {
            proof {
                assert(false);
            }
            return Err(e);
        },
    }
    proof {
        assert(view_items(body@) + Seq::<BlockItemV>::empty() =~= view_items(body@));
    }
    Ok(body)
}

/// Parses one function definition.
fn fn_decl(tokens: &mut TokenQue) -> (r: Result<FuncDef, ParseError>)
    ensures
        match r {
            Ok(f) => spec_fn_decl(old(tokens).toks()) == Ok::<(FuncDefV, Seq<(TknV, nat)>), ParseErrV>((f@, final(tokens).toks()))
                && final(tokens).toks().len() < old(tokens).toks().len(),
            Err(e) => spec_fn_decl(old(tokens).toks()) == Err::<(FuncDefV, Seq<(TknV, nat)>), ParseErrV>(e@),
        },
    decreases old(tokens).toks().len(), 7int,
{
    match tokens.consume(Tkn::Key(Keyword::Int), "Expected int") {
        Ok(_) => (),
        Err(e) => {
            return Err(e);
        },
    }
    let expected_ident = match tokens.next_token() {
        Ok(t) => t,
        Err(e) => {
            return Err(e);
        },
    };
    let name = match expected_ident.0 {
        Tkn::Identifier(name) => name,
        _ => {
            return Err(
                ParseError::At(expected_ident.1, String::from_str("Expected function identifier")),
            );
        },
    };
    match tokens.consume(Tkn::LeftParen, "Expected '('") {
        Ok(_) => (),
        Err(e) => {
            return Err(e);
        },
    }
    match tokens.consume(Tkn::Key(Keyword::Void), "Expected 'void'") {
        Ok(_) => (),
        Err(e) => {
            return Err(e);
        },
    }
    match tokens.consume(Tkn::RightParen, "Expected ')'") {
        Ok(_) => (),
        Err(e) => {
            return Err(e);
        },
    }
    let body = match body_decl(tokens) {
        Ok(b) => b,
        Err(e) => {
            return Err(e);
        },
    };
    Ok(FuncDef::Function(name, body))
}

/// Parses a whole token stream into the program it denotes: function
/// definitions back to back, the last one winning, with an empty stream a
/// parse error.
pub fn parse(tokens: Vec<(Tkn, u32)>) -> (r: Result<FuncDef, ParseError>)
    ensures
        match r {
            Ok(f) => spec_parse(view_tokens(tokens@)) == Ok::<FuncDefV, ParseErrV>(f@),
            Err(e) => spec_parse(view_tokens(tokens@)) == Err::<FuncDefV, ParseErrV>(e@),
        },
{
    let ghost t_all = view_tokens(tokens@);
    let mut token_que = TokenQue::new(tokens);
    if token_que.len() == 0 {
        return Err(ParseError::AtEnd(String::from_str("Expected token but recieved none")));
    }
    let mut program = match fn_decl(&mut token_que) {
        Ok(f) => f,
        Err(e) => {
            return Err(e);
        },
    };
    while token_que.len() != 0
        invariant
            t_all == view_tokens(tokens@),
            spec_parse(t_all) == spec_parse_loop(token_que.toks(), program@),
        decreases token_que.toks().len(),
    {
        program = match fn_decl(&mut token_que) {
            Ok(f) => f,
            Err(e) => {
                return Err(e);
            },
        };
    }
    Ok(program)
}

} // verus!

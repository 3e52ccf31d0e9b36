//! The syntax tree produced by the parser, its mathematical view, and the
//! token queue the parser consumes.
//!
//! A program is a single function definition whose body is a sequence of
//! block items: declarations (with an optional initializer) and statements
//! (`return`, a bare expression, or the null statement).  Expressions are a
//! recursive sum of constants, variables, unary and binary applications, and
//! assignments.  Only a variable is a legal assignment target, but that is
//! enforced by the resolver, not by the grammar.

use vstd::prelude::*;

use std::collections::VecDeque;

use crate::lexer::Tkn;
use crate::lexer::TknV;
use crate::lexer::view_tokens;
use crate::names::decimal_digits;
use crate::names::decimal_string;

verus! {

/// A prefix operator.
#[derive(Debug, PartialEq, Eq, Structural, Clone, Copy)]
pub enum UnaryOp {
    Complement,
    Negate,
    Not,
}

/// An infix operator, assignment included.
#[derive(Debug, PartialEq, Eq, Structural, Clone, Copy)]
pub enum BinaryOp {
    Add,
    Subtract,
    Multiply,
    Divide,
    Remainder,
    And,
    Or,
    Equal,
    NotEqual,
    LessThan,
    LessEqual,
    GreatThan,
    GreatEqual,
    Assign,
}

/// An expression.
#[derive(Debug)]
pub enum Expr {
    Constant(i32),
    Unary(UnaryOp, Box<Expr>),
    Binary(BinaryOp, Box<Expr>, Box<Expr>),
    Var(String),
    Assignment(Box<Expr>, Box<Expr>),
}

/// A statement.
#[derive(Debug)]
pub enum Stmt {
    Return(Expr),
    Expression(Expr),
    Null,
}

/// A variable declaration with an optional initializer.
#[derive(Debug)]
pub enum Decl {
    Declaration(String, Option<Expr>),
}

/// One item of a function body.
#[derive(Debug)]
pub enum BlockItem {
    S(Stmt),
    D(Decl),
}

/// A function definition: its name and its body.
#[derive(Debug)]
pub enum FuncDef {
    Function(String, Vec<BlockItem>),
}

/// The mathematical view of an expression: names as character sequences.
pub enum ExprV {
    Constant(i32),
    Unary(UnaryOp, Box<ExprV>),
    Binary(BinaryOp, Box<ExprV>, Box<ExprV>),
    Var(Seq<char>),
    Assignment(Box<ExprV>, Box<ExprV>),
}

/// The mathematical view of a statement.
pub enum StmtV {
    Return(ExprV),
    Expression(ExprV),
    Null,
}

/// The mathematical view of a declaration.
pub enum DeclV {
    Declaration(Seq<char>, Option<ExprV>),
}

/// The mathematical view of a block item.
pub enum BlockItemV {
    S(StmtV),
    D(DeclV),
}

/// The mathematical view of a function definition.
pub enum FuncDefV {
    Function(Seq<char>, Seq<BlockItemV>),
}

/// The view of an expression tree.
pub open spec fn view_expr(e: Expr) -> ExprV
    decreases e,
{
    match e {
        Expr::Constant(v) => ExprV::Constant(v),
        Expr::Unary(op, inner) => ExprV::Unary(op, Box::new(view_expr(*inner))),
        Expr::Binary(op, l, r) => ExprV::Binary(op, Box::new(view_expr(*l)), Box::new(view_expr(*r))),
        Expr::Var(name) => ExprV::Var(name@),
        Expr::Assignment(l, r) => ExprV::Assignment(Box::new(view_expr(*l)), Box::new(view_expr(*r))),
    }
}

impl View for Expr {
    type V = ExprV;

    open spec fn view(&self) -> ExprV {
        view_expr(*self)
    }
}

impl View for Stmt {
    type V = StmtV;

    open spec fn view(&self) -> StmtV {
        match self {
            Stmt::Return(e) => StmtV::Return(e@),
            Stmt::Expression(e) => StmtV::Expression(e@),
            Stmt::Null => StmtV::Null,
        }
    }
}

impl View for Decl {
    type V = DeclV;

    open spec fn view(&self) -> DeclV {
        match self {
            Decl::Declaration(name, Some(e)) => DeclV::Declaration(name@, Some(e@)),
            Decl::Declaration(name, None) => DeclV::Declaration(name@, None),
        }
    }
}

impl View for BlockItem {
    type V = BlockItemV;

    open spec fn view(&self) -> BlockItemV {
        match self {
            BlockItem::S(s) => BlockItemV::S(s@),
            BlockItem::D(d) => BlockItemV::D(d@),
        }
    }
}

/// The height of an expression tree: the termination measure for the
/// mutually recursive passes that walk one.
pub open spec fn expr_height(e: Expr) -> nat
    decreases e,
{
    match e {
        Expr::Constant(_) => 0,
        Expr::Var(_) => 0,
        Expr::Unary(_, inner) => expr_height(*inner) + 1,
        Expr::Binary(_, l, r) => 1 + if expr_height(*l) >= expr_height(*r) {
            expr_height(*l)
        } else {
            expr_height(*r)
        },
        Expr::Assignment(l, r) => 1 + if expr_height(*l) >= expr_height(*r) {
            expr_height(*l)
        } else {
            expr_height(*r)
        },
    }
}

/// The views of a sequence of block items.
pub open spec fn view_items(items: Seq<BlockItem>) -> Seq<BlockItemV> {
    items.map(|i: int, b: BlockItem| b@)
}

impl View for FuncDef {
    type V = FuncDefV;

    open spec fn view(&self) -> FuncDefV {
        match self {
            FuncDef::Function(name, body) => FuncDefV::Function(name@, view_items(body@)),
        }
    }
}

/// A structural mismatch found by the parser: the line of the offending
/// token and a message, or a message alone when the stream was exhausted.
#[derive(Debug)]
pub enum ParseError {
    At(u32, String),
    AtEnd(String),
}

/// The mathematical view of a parse error.
pub enum ParseErrV {
    At(nat, Seq<char>),
    AtEnd(Seq<char>),
}

impl View for ParseError {
    type V = ParseErrV;

    open spec fn view(&self) -> ParseErrV {
        match self {
            ParseError::At(line, msg) => ParseErrV::At(*line as nat, msg@),
            ParseError::AtEnd(msg) => ParseErrV::AtEnd(msg@),
        }
    }
}

/// The error for a token demanded of an exhausted stream.
pub open spec fn spec_end_of_stream() -> ParseErrV {
    ParseErrV::AtEnd("Expected token but recieved none"@)
}

/// Consuming an expected token from the front of the stream: the tokens
/// that remain, or the mismatch diagnostic with the offending token's line
/// (or the end-of-stream error when nothing remains).
pub open spec fn spec_consume(t: Seq<(TknV, nat)>, expected: TknV, msg: Seq<char>) -> Result<
    Seq<(TknV, nat)>,
    ParseErrV,
> {
    if t.len() == 0 {
        Err(spec_end_of_stream())
    } else if t[0].0 == expected {
        Ok(t.drop_first())
    } else {
        Err(ParseErrV::At(t[0].1, msg))
    }
}

/// The rendered text of a parse error, as the driver prints it.
pub open spec fn parse_error_text(e: ParseErrV) -> Seq<char> {
    match e {
        ParseErrV::At(line, msg) => "Parser Error:\nLine "@ + decimal_digits(line) + ": "@ + msg,
        ParseErrV::AtEnd(msg) => "Parser Error:\n"@ + msg,
    }
}

impl ParseError {
    /// The diagnostic text, as the driver prints it.
    pub fn message(&self) -> (r: String)
        ensures
            r@ == parse_error_text(self@),
    {
        match self {
            ParseError::At(line, msg) => {
                let mut s = String::from_str("Parser Error:\nLine ");
                let digits = decimal_string(*line as u64);
                s.append(digits.as_str());
                s.append(": ");
                s.append(msg.as_str());
                assert(s@ =~= "Parser Error:\nLine "@ + decimal_digits(*line as nat) + ": "@
                    + msg@);
                s
            },
            ParseError::AtEnd(msg) => {
                let mut s = String::from_str("Parser Error:\n");
                s.append(msg.as_str());
                s
            },
        }
    }
}

impl PartialEq for Tkn {
    /// Tokens are equal when they are the same variant with the same
    /// payload; identifier text is compared by content.
    #[verifier::rlimit(60)]
    fn eq(&self, other: &Tkn) -> (r: bool) {
        match (self, other) {
            (Tkn::LeftParen, Tkn::LeftParen) => true,
            (Tkn::RightParen, Tkn::RightParen) => true,
            (Tkn::LeftBrace, Tkn::LeftBrace) => true,
            (Tkn::RightBrace, Tkn::RightBrace) => true,
            (Tkn::Semicolon, Tkn::Semicolon) => true,
            (Tkn::Tilde, Tkn::Tilde) => true,
            (Tkn::Subtract, Tkn::Subtract) => true,
            (Tkn::Decrement, Tkn::Decrement) => true,
            (Tkn::Star, Tkn::Star) => true,
            (Tkn::Slash, Tkn::Slash) => true,
            (Tkn::Plus, Tkn::Plus) => true,
            (Tkn::Increment, Tkn::Increment) => true,
            (Tkn::Mod, Tkn::Mod) => true,
            (Tkn::Not, Tkn::Not) => true,
            (Tkn::NotEqual, Tkn::NotEqual) => true,
            (Tkn::BAnd, Tkn::BAnd) => true,
            (Tkn::And, Tkn::And) => true,
            (Tkn::BOr, Tkn::BOr) => true,
            (Tkn::Or, Tkn::Or) => true,
            (Tkn::Equal, Tkn::Equal) => true,
            (Tkn::EqualEqual, Tkn::EqualEqual) => true,
            (Tkn::Less, Tkn::Less) => true,
            (Tkn::LessEqual, Tkn::LessEqual) => true,
            (Tkn::Great, Tkn::Great) => true,
            (Tkn::GreatEqual, Tkn::GreatEqual) => true,
            (Tkn::Key(a), Tkn::Key(b)) => *a == *b,
            (Tkn::Identifier(a), Tkn::Identifier(b)) => *a == *b,
            (Tkn::Constant(a), Tkn::Constant(b)) => *a == *b,
            _ => false,
        }
    }
}

impl vstd::std_specs::cmp::PartialEqSpecImpl for Tkn {
    open spec fn obeys_eq_spec() -> bool {
        true
    }

    open spec fn eq_spec(&self, other: &Tkn) -> bool {
        self@ == other@
    }
}

impl Eq for Tkn {

}

/// The parser's queue of tokens, consumed from the front.
pub struct TokenQue {
    tokens: VecDeque<(Tkn, u32)>,
}

impl TokenQue {
    /// The views of the tokens that remain, front first.
    pub closed spec fn toks(&self) -> Seq<(TknV, nat)> {
        view_tokens(self.tokens@)
    }

    /// Wraps a token vector in a queue.
    pub fn new(tokens: Vec<(Tkn, u32)>) -> (r: Self)
        ensures
            r.toks() == view_tokens(tokens@),
    {
        let ghost target = tokens@;
        let mut deque: VecDeque<(Tkn, u32)> = VecDeque::new();
        let mut i: usize = 0;
        while i < tokens.len()
            invariant
                i <= tokens@.len(),
                tokens@ == target,
                deque@.len() == i,
                forall|k: int| 0 <= k < i ==> (#[trigger] deque@[k]).0@ == target[k].0@
                    && deque@[k].1 == target[k].1,
            decreases tokens@.len() - i,
        {
            let pair = &tokens[i];
            deque.push_back((pair.0.clone(), pair.1));
            i = i + 1;
        }
        let r = TokenQue { tokens: deque };
        proof {
            assert(view_tokens(deque@) =~= view_tokens(tokens@));
        }
        r
    }

    /// Pops the front token when it equals `expected`; a mismatch or an
    /// exhausted queue is a parse error and leaves the queue unchanged.
    pub fn consume(&mut self, expected: Tkn, msg: &str) -> (r: Result<(), ParseError>)
        ensures
            match r {
                Ok(_) => {
                    &&& old(self).toks().len() > 0
                    &&& old(self).toks()[0].0 == expected@
                    &&& final(self).toks() == old(self).toks().drop_first()
                },
                Err(e) => {
                    &&& (old(self).toks().len() == 0 || old(self).toks()[0].0 != expected@)
                    &&& final(self).toks() == old(self).toks()
                    &&& e@ == (if old(self).toks().len() == 0 {
                        spec_end_of_stream()
                    } else {
                        ParseErrV::At(old(self).toks()[0].1, msg@)
                    })
                },
            },
    {
        let front = match self.peek_next_token() {
            Ok(f) => f,
            Err(e) => {
                return Err(e);
            },
        };
        let line = front.1;
        if expected == front.0 {
            let _ = self.next_token();
            Ok(())
        } else {
            Err(ParseError::At(line, String::from_str(msg)))
        }
    }

    /// Discards the front token; an exhausted queue is a parse error.
    pub fn next(&mut self) -> (r: Result<(), ParseError>)
        ensures
            match r {
                Ok(_) => old(self).toks().len() > 0 && final(self).toks() == old(
                    self,
                ).toks().drop_first(),
                Err(e) => old(self).toks().len() == 0 && final(self).toks() == old(self).toks()
                    && e@ == spec_end_of_stream(),
            },
    {
        match self.tokens.pop_front() {
            Some(_) => {
                proof {
                    assert(view_tokens(self.tokens@) =~= view_tokens(old(self).tokens@).drop_first());
                }
                Ok(())
            },
            None => Err(ParseError::AtEnd(String::from_str("Expected token but recieved none"))),
        }
    }

    /// Pops and returns the front token; an exhausted queue is a parse
    /// error.
    pub fn next_token(&mut self) -> (r: Result<(Tkn, u32), ParseError>)
        ensures
            match r {
                Ok(t) => {
                    &&& old(self).toks().len() > 0
                    &&& (t.0@, t.1 as nat) == old(self).toks()[0]
                    &&& final(self).toks() == old(self).toks().drop_first()
                },
                Err(e) => old(self).toks().len() == 0 && final(self).toks() == old(self).toks()
                    && e@ == spec_end_of_stream(),
            },
    {
        match self.tokens.pop_front() {
            Some(res) => {
                proof {
                    assert(view_tokens(self.tokens@) =~= view_tokens(old(self).tokens@).drop_first());
                }
                Ok(res)
            },
            None => Err(ParseError::AtEnd(String::from_str("Expected token but recieved none"))),
        }
    }

    /// The front token, left in place; an exhausted queue is a parse error.
    pub fn peek_next_token(&self) -> (r: Result<&(Tkn, u32), ParseError>)
        ensures
            match r {
                Ok(t) => self.toks().len() > 0 && (t.0@, t.1 as nat) == self.toks()[0],
                Err(e) => self.toks().len() == 0 && e@ == spec_end_of_stream(),
            },
    {
        if self.tokens.len() > 0 {
            Ok(&self.tokens[0])
        } else {
            Err(ParseError::AtEnd(String::from_str("Expected token but recieved none")))
        }
    }

    /// How many tokens remain.
    pub fn len(&self) -> (r: usize)
        ensures
            r == self.toks().len(),
    {
        self.tokens.len()
    }
}

} // verus!

//! The whole pipeline as one function: source bytes in, assembly text out,
//! or the first stage's diagnostic.
//!
//! The driver around the library reads the preprocessed source, calls
//! [`compile`], and writes the text to the `.s` file; everything between
//! those two edges is verified, stage by stage and as the composition
//! proved here.

use vstd::prelude::*;

use crate::ast::FuncDefV;
use crate::ast::ParseErrV;
use crate::ast::ParseError;
use crate::codegen::gen_code;
use crate::codegen::spec_gen_code;
use crate::emit::assembly_text;
use crate::emit::spec_assembly_text;
use crate::lexer::chars_of;
use crate::lexer::lex;
use crate::lexer::spec_lex;
use crate::parser::parse;
use crate::parser::spec_parse;
use crate::ast::parse_error_text;
use crate::resolver::ResolveError;
use crate::resolver::ResolveErrV;
use crate::resolver::resolve_error_text;
use crate::resolver::resolve_vars;
use crate::resolver::spec_resolve;
use crate::tacky::TFuncDef;
use crate::tacky::TFuncDefV;
use crate::tacky::gen_tacky;
use crate::tacky::spec_gen_tacky;

verus! {

/// The largest three-address instruction count the generator accepts; far
/// below it, every stack offset fits comfortably in an `i32`.
pub const MAX_LOWERED_INSTRS: usize = 0x0010_0000;

/// The first diagnostic of a failed compilation, by stage.
#[derive(Debug)]
pub enum CompileError {
    Lex(String),
    Parse(ParseError),
    Resolve(ResolveError),
    TooLarge,
}

impl CompileError {
    /// The diagnostic text, as the driver prints it.
    pub fn message(&self) -> (r: String)
        ensures
            match self {
                CompileError::Lex(m) => r@ == m@,
                CompileError::Parse(e) => r@ == parse_error_text(e@),
                CompileError::Resolve(e) => r@ == resolve_error_text(e@),
                CompileError::TooLarge => r@ == "Program too large"@,
            },
    {
        match self {
            CompileError::Lex(m) => m.clone(),
            CompileError::Parse(e) => e.message(),
            CompileError::Resolve(e) => e.message(),
            CompileError::TooLarge => String::from_str("Program too large"),
        }
    }
}

/// The resolved program a source text denotes; meaningful only when every
/// front-end stage succeeds.
pub open spec fn spec_front_end(cs: Seq<char>) -> Result<FuncDefV, ResolveErrV> {
    match spec_lex(cs, 0, 1) {
        Err(_) => Err(ResolveErrV::InvalidLvalue),  // dead branch, see spec_front_end_ok
        Ok(tokens) => match spec_parse(tokens) {
            Err(_) => Err(ResolveErrV::InvalidLvalue),  // dead branch
            Ok(ast) => spec_resolve(ast),
        },
    }
}

/// Whether every front-end stage succeeds on this text.
pub open spec fn spec_front_end_ok(cs: Seq<char>) -> bool {
    &&& spec_lex(cs, 0, 1) is Ok
    &&& (spec_lex(cs, 0, 1) matches Ok(tokens) ==> spec_parse(tokens) is Ok)
    &&& spec_front_end(cs) is Ok
}

/// The lowered program of a text whose front end succeeds.
pub open spec fn spec_lowered(cs: Seq<char>) -> TFuncDefV {
    match spec_front_end(cs) {
        Ok(resolved) => spec_gen_tacky(resolved),
        Err(_) => TFuncDefV::Function(Seq::empty(), Seq::empty()),  // dead branch
    }
}

/// The number of lowered instructions.
pub open spec fn spec_lowered_len(cs: Seq<char>) -> nat {
    match spec_lowered(cs) {
        TFuncDefV::Function(_, body) => body.len(),
    }
}

/// The assembly text of a text whose whole pipeline succeeds.
pub open spec fn spec_compiled_text(cs: Seq<char>) -> Seq<char> {
    spec_assembly_text(spec_gen_code(spec_lowered(cs)))
}

/// Compiles preprocessed source bytes to assembly text, or returns the
/// first stage's diagnostic: the lexer's formatted message, the parser's
/// error on streams the grammar refuses, the resolver's error on scope
/// violations, and a size error for programs beyond the generator's limit.
pub fn compile(source: Vec<u8>) -> (r: Result<String, CompileError>)
    requires
        source@.len() < 0xFFFF_FFFF,
    ensures
        ({
            let cs = chars_of(source@);
            match r {
                Ok(text) => {
                    &&& spec_front_end_ok(cs)
                    &&& spec_lowered_len(cs) < MAX_LOWERED_INSTRS
                    &&& text@ == spec_compiled_text(cs)
                },
                Err(e) => match e {
                    CompileError::Lex(m) => spec_lex(cs, 0, 1) == Err::<
                        Seq<(crate::lexer::TknV, nat)>,
                        Seq<char>,
                    >(m@),
                    CompileError::Parse(e) => spec_lex(cs, 0, 1) matches Ok(tokens) && spec_parse(
                        tokens,
                    ) == Err::<FuncDefV, ParseErrV>(e@),
                    CompileError::Resolve(err) => spec_lex(cs, 0, 1) matches Ok(tokens)
                        && spec_parse(tokens) matches Ok(ast) && spec_resolve(ast) == Err::<
                        FuncDefV,
                        ResolveErrV,
                    >(err@),
                    CompileError::TooLarge => spec_front_end_ok(cs) && spec_lowered_len(cs)
                        >= MAX_LOWERED_INSTRS,
                },
            }
        }),
{
    let tokens = match lex(source) {
        Ok(t) => t,
        Err(m) => {
            return Err(CompileError::Lex(m));
        },
    };
    let mut program_ast = match parse(tokens) {
        Ok(a) => a,
        Err(e) => {
            return Err(CompileError::Parse(e));
        },
    };
    match resolve_vars(&mut program_ast) {
        Ok(_) => {},
        Err(e) => {
            return Err(CompileError::Resolve(e));
        },
    }
    let tacky_ir = gen_tacky(program_ast);
    let small_enough: bool = match &tacky_ir {
        TFuncDef::Function(_, instrs) => instrs.len() < MAX_LOWERED_INSTRS,
    };
    if !small_enough {
        return Err(CompileError::TooLarge);
    }
    let assembly_tree = gen_code(tacky_ir);
    Ok(assembly_text(&assembly_tree))
}

} // verus!

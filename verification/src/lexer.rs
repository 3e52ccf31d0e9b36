//! Lexical analysis: raw source bytes to a stream of tokens with line
//! numbers.
//!
//! The final byte of the buffer acts as a sentinel and is never itself
//! consumed; a NUL byte ends the input early.  Whitespace is skipped (line
//! feeds and carriage returns advance the line counter), one-character
//! punctuation maps directly, and the two-character operators are recognized
//! with exactly one character of lookahead.  Numeric literals are maximal
//! digit runs (rejected when an alphabetic character follows immediately, or
//! when the value exceeds a 32-bit signed integer); identifiers are maximal
//! alphanumeric-or-underscore runs, with `int`, `void` and `return` mapped to
//! keyword tokens.
//!
//! The whole process is specified by [`spec_lex`], a function of the
//! character sequence alone; [`lex`] is proved to return exactly its result,
//! error text included.

use vstd::prelude::*;

use crate::names::decimal_digits;
use crate::names::decimal_string;

verus! {

/// The reserved words of the language.
#[derive(Debug, PartialEq, Eq, Structural, Clone, Copy)]
pub enum Keyword {
    Int,
    Void,
    Return,
}

/// A single token.
#[derive(Debug)]
pub enum Tkn {
    LeftParen,
    RightParen,
    LeftBrace,
    RightBrace,
    Semicolon,
    Tilde,
    Subtract,
    Decrement,
    Star,
    Slash,
    Plus,
    Increment,
    Mod,
    Not,
    NotEqual,
    BAnd,
    And,
    BOr,
    Or,
    Equal,
    EqualEqual,
    Less,
    LessEqual,
    Great,
    GreatEqual,
    Key(Keyword),
    Identifier(String),
    Constant(i32),
}

/// The mathematical shape of a token: identifier text as a character
/// sequence.
pub enum TknV {
    LeftParen,
    RightParen,
    LeftBrace,
    RightBrace,
    Semicolon,
    Tilde,
    Subtract,
    Decrement,
    Star,
    Slash,
    Plus,
    Increment,
    Mod,
    Not,
    NotEqual,
    BAnd,
    And,
    BOr,
    Or,
    Equal,
    EqualEqual,
    Less,
    LessEqual,
    Great,
    GreatEqual,
    Key(Keyword),
    Identifier(Seq<char>),
    Constant(i32),
}

impl View for Tkn {
    type V = TknV;

    open spec fn view(&self) -> TknV {
        match self {
            Tkn::LeftParen => TknV::LeftParen,
            Tkn::RightParen => TknV::RightParen,
            Tkn::LeftBrace => TknV::LeftBrace,
            Tkn::RightBrace => TknV::RightBrace,
            Tkn::Semicolon => TknV::Semicolon,
            Tkn::Tilde => TknV::Tilde,
            Tkn::Subtract => TknV::Subtract,
            Tkn::Decrement => TknV::Decrement,
            Tkn::Star => TknV::Star,
            Tkn::Slash => TknV::Slash,
            Tkn::Plus => TknV::Plus,
            Tkn::Increment => TknV::Increment,
            Tkn::Mod => TknV::Mod,
            Tkn::Not => TknV::Not,
            Tkn::NotEqual => TknV::NotEqual,
            Tkn::BAnd => TknV::BAnd,
            Tkn::And => TknV::And,
            Tkn::BOr => TknV::BOr,
            Tkn::Or => TknV::Or,
            Tkn::Equal => TknV::Equal,
            Tkn::EqualEqual => TknV::EqualEqual,
            Tkn::Less => TknV::Less,
            Tkn::LessEqual => TknV::LessEqual,
            Tkn::Great => TknV::Great,
            Tkn::GreatEqual => TknV::GreatEqual,
            Tkn::Key(k) => TknV::Key(*k),
            Tkn::Identifier(s) => TknV::Identifier(s@),
            Tkn::Constant(v) => TknV::Constant(*v),
        }
    }
}

impl Clone for Tkn {
    /// A clone is the same token, identifier text included.
    fn clone(&self) -> (r: Self)
        ensures
            r == *self,
    {
        match self {
            Tkn::LeftParen => Tkn::LeftParen,
            Tkn::RightParen => Tkn::RightParen,
            Tkn::LeftBrace => Tkn::LeftBrace,
            Tkn::RightBrace => Tkn::RightBrace,
            Tkn::Semicolon => Tkn::Semicolon,
            Tkn::Tilde => Tkn::Tilde,
            Tkn::Subtract => Tkn::Subtract,
            Tkn::Decrement => Tkn::Decrement,
            Tkn::Star => Tkn::Star,
            Tkn::Slash => Tkn::Slash,
            Tkn::Plus => Tkn::Plus,
            Tkn::Increment => Tkn::Increment,
            Tkn::Mod => Tkn::Mod,
            Tkn::Not => Tkn::Not,
            Tkn::NotEqual => Tkn::NotEqual,
            Tkn::BAnd => Tkn::BAnd,
            Tkn::And => Tkn::And,
            Tkn::BOr => Tkn::BOr,
            Tkn::Or => Tkn::Or,
            Tkn::Equal => Tkn::Equal,
            Tkn::EqualEqual => Tkn::EqualEqual,
            Tkn::Less => Tkn::Less,
            Tkn::LessEqual => Tkn::LessEqual,
            Tkn::Great => Tkn::Great,
            Tkn::GreatEqual => Tkn::GreatEqual,
            Tkn::Key(k) => Tkn::Key(*k),
            Tkn::Identifier(s) => Tkn::Identifier(s.clone()),
            Tkn::Constant(v) => Tkn::Constant(*v),
        }
    }
}

/// The characters of a byte buffer, one character per byte.
pub open spec fn chars_of(bytes: Seq<u8>) -> Seq<char> {
    bytes.map(|i: int, b: u8| b as char)
}

/// Position `i` is the end of input: at the sentinel (final) character or at
/// a NUL.
pub open spec fn at_end(cs: Seq<char>, i: int) -> bool {
    i + 1 >= cs.len() || cs[i] == '\0'
}

pub open spec fn is_digit(c: char) -> bool {
    '0' <= c <= '9'
}

pub open spec fn is_alpha(c: char) -> bool {
    ('a' <= c <= 'z') || ('A' <= c <= 'Z') || c == '_'
}

pub open spec fn is_alpha_num(c: char) -> bool {
    is_digit(c) || is_alpha(c)
}

/// The full text of a lexer diagnostic for line `line`.
pub open spec fn spec_lexer_error(line: nat, msg: Seq<char>) -> Seq<char> {
    "Lexer Error:\nLine "@ + decimal_digits(line) + ": "@ + msg
}

/// Formats a lexer diagnostic: the error kind prefix, the source line, and
/// the message.
pub fn fmt_lexer_error(line: u32, msg: &str) -> (r: String)
    ensures
        r@ == spec_lexer_error(line as nat, msg@),
{
    let mut s = String::from_str("Lexer Error:\nLine ");
    let digits = decimal_string(line as u64);
    s.append(digits.as_str());
    s.append(": ");
    s.append(msg);
    assert(s@ =~= spec_lexer_error(line as nat, msg@));
    s
}

/// Skipping whitespace from position `i`: the first non-whitespace position
/// (or end of input) and the line counter after counting line breaks.
pub open spec fn spec_skip_ws(cs: Seq<char>, i: int, line: nat) -> (int, nat)
    decreases cs.len() - i,
{
    if at_end(cs, i) {
        (i, line)
    } else if cs[i] == '\n' || cs[i] == '\r' {
        spec_skip_ws(cs, i + 1, line + 1)
    } else if cs[i] == ' ' || cs[i] == '\t' {
        spec_skip_ws(cs, i + 1, line)
    } else {
        (i, line)
    }
}

/// The end of the digit run starting at `j`, or `Err(())` when the run meets
/// the end of input (where the one-character lookahead has nothing to read).
pub open spec fn spec_digit_run(cs: Seq<char>, j: int) -> Result<int, ()>
    decreases cs.len() - j,
{
    if at_end(cs, j) {
        Err(())
    } else if is_digit(cs[j]) {
        spec_digit_run(cs, j + 1)
    } else {
        Ok(j)
    }
}

/// The end of the identifier-character run starting at `j`, or `Err(())` when
/// the run meets the end of input.
pub open spec fn spec_ident_run(cs: Seq<char>, j: int) -> Result<int, ()>
    decreases cs.len() - j,
{
    if at_end(cs, j) {
        Err(())
    } else if is_alpha_num(cs[j]) {
        spec_ident_run(cs, j + 1)
    } else {
        Ok(j)
    }
}

/// The numeric value of a digit character.
pub open spec fn digit_val(c: char) -> nat {
    (c as int - '0' as int) as nat
}

/// The value of a string of decimal digits, most significant first.
pub open spec fn dec_val(s: Seq<char>) -> nat
    decreases s.len(),
{
    if s.len() == 0 {
        0
    } else {
        dec_val(s.drop_last()) * 10 + digit_val(s.last())
    }
}

/// The token for an identifier word: a keyword where the text is reserved.
pub open spec fn word_token(w: Seq<char>) -> TknV {
    if w == "int"@ {
        TknV::Key(Keyword::Int)
    } else if w == "void"@ {
        TknV::Key(Keyword::Void)
    } else if w == "return"@ {
        TknV::Key(Keyword::Return)
    } else {
        TknV::Identifier(w)
    }
}

/// One token scanned at position `j` (whitespace already skipped): the token
/// and the position after it, or the full text of the diagnostic.
pub open spec fn spec_token(cs: Seq<char>, j: int, line: nat) -> Result<(TknV, int), Seq<char>> {
    if at_end(cs, j) {
        Err(spec_lexer_error(line, "No token to take"@))
    } else {
        let c = cs[j];
        if c == '(' {
            Ok((TknV::LeftParen, j + 1))
        } else if c == ')' {
            Ok((TknV::RightParen, j + 1))
        } else if c == '{' {
            Ok((TknV::LeftBrace, j + 1))
        } else if c == '}' {
            Ok((TknV::RightBrace, j + 1))
        } else if c == ';' {
            Ok((TknV::Semicolon, j + 1))
        } else if c == '~' {
            Ok((TknV::Tilde, j + 1))
        } else if c == '/' {
            Ok((TknV::Slash, j + 1))
        } else if c == '*' {
            Ok((TknV::Star, j + 1))
        } else if c == '%' {
            Ok((TknV::Mod, j + 1))
        } else if c == '-' {
            spec_double(cs, j, line, '-', TknV::Decrement, TknV::Subtract)
        } else if c == '+' {
            spec_double(cs, j, line, '+', TknV::Increment, TknV::Plus)
        } else if c == '!' {
            spec_double(cs, j, line, '=', TknV::NotEqual, TknV::Not)
        } else if c == '=' {
            spec_double(cs, j, line, '=', TknV::EqualEqual, TknV::Equal)
        } else if c == '<' {
            spec_double(cs, j, line, '=', TknV::LessEqual, TknV::Less)
        } else if c == '>' {
            spec_double(cs, j, line, '=', TknV::GreatEqual, TknV::Great)
        } else if c == '&' {
            spec_double(cs, j, line, '&', TknV::And, TknV::BAnd)
        } else if c == '|' {
            spec_double(cs, j, line, '|', TknV::Or, TknV::BOr)
        } else if is_digit(c) {
            spec_number_token(cs, j, line)
        } else if is_alpha(c) {
            spec_word_token(cs, j, line)
        } else {
            Err(spec_lexer_error(line, "Unexpected Token: "@ + seq![c]))
        }
    }
}

/// A numeric literal starting at `j`: the maximal digit run, rejected when an
/// alphabetic character follows it or the value does not fit in an `i32`.
pub open spec fn spec_number_token(cs: Seq<char>, j: int, line: nat) -> Result<
    (TknV, int),
    Seq<char>,
> {
    match spec_digit_run(cs, j + 1) {
        Err(()) => Err(spec_lexer_error(line, "No token to peek"@)),
        Ok(e) => if is_alpha(cs[e]) {
            Err(spec_lexer_error(line, "Invalid Identifier"@))
        } else if dec_val(cs.subrange(j, e)) > i32::MAX as nat {
            Err(spec_lexer_error(line, "Invalid Constant"@))
        } else {
            Ok((TknV::Constant(dec_val(cs.subrange(j, e)) as i32), e))
        },
    }
}

/// An identifier or keyword starting at `j`: the maximal run of
/// alphanumeric-or-underscore characters.
pub open spec fn spec_word_token(cs: Seq<char>, j: int, line: nat) -> Result<
    (TknV, int),
    Seq<char>,
> {
    match spec_ident_run(cs, j + 1) {
        Err(()) => Err(spec_lexer_error(line, "No token to peek"@)),
        Ok(e) => Ok((word_token(cs.subrange(j, e)), e)),
    }
}

/// The two-character-operator rule: one character of lookahead decides
/// between the double token and the single one.
pub open spec fn spec_double(
    cs: Seq<char>,
    j: int,
    line: nat,
    expected: char,
    double: TknV,
    single: TknV,
) -> Result<(TknV, int), Seq<char>> {
    if at_end(cs, j + 1) {
        Err(spec_lexer_error(line, "No token to peek"@))
    } else if cs[j + 1] == expected {
        Ok((double, j + 2))
    } else {
        Ok((single, j + 1))
    }
}

/// The token stream from position `i` on, each token paired with the line it
/// ends on, or the first diagnostic.
pub open spec fn spec_lex(cs: Seq<char>, i: int, line: nat) -> Result<
    Seq<(TknV, nat)>,
    Seq<char>,
>
    decreases cs.len() - i,
{
    if at_end(cs, i) {
        Ok(Seq::empty())
    } else {
        let (j, line2) = spec_skip_ws(cs, i, line);
        match spec_token(cs, j, line2) {
            Err(msg) => Err(msg),
            Ok((t, j2)) => if i < j2 <= cs.len() {
                match spec_lex(cs, j2, line2) {
                    Err(msg) => Err(msg),
                    Ok(rest) => Ok(seq![(t, line2)] + rest),
                }
            } else {
                // Scanning a token always consumes at least one character and
                // never passes the end of the buffer, so this branch is
                // unreachable; it only serves the termination argument.
                Err(Seq::empty())
            },
        }
    }
}

/// The line-tagged view of a token vector.
pub open spec fn view_tokens(v: Seq<(Tkn, u32)>) -> Seq<(TknV, nat)> {
    v.map(|i: int, p: (Tkn, u32)| (p.0@, p.1 as nat))
}

/// A produced token stream joined with the outcome of lexing the rest.
pub open spec fn lex_join(
    done: Seq<(TknV, nat)>,
    rest: Result<Seq<(TknV, nat)>, Seq<char>>,
) -> Result<Seq<(TknV, nat)>, Seq<char>> {
    match rest {
        Ok(ts) => Ok(done + ts),
        Err(msg) => Err(msg),
    }
}

/// The lexer's cursor over the byte buffer, accumulating tokens.
pub struct Lxr {
    pub tokens: Vec<(Tkn, u32)>,
    pub line: u32,
    characters: Vec<u8>,
    current: usize,
}

impl Lxr {
    /// The characters of the buffer being scanned.
    pub closed spec fn chars(&self) -> Seq<char> {
        chars_of(self.characters@)
    }

    /// The current scan position.
    pub closed spec fn cur(&self) -> int {
        self.current as int
    }

    /// The current line number.
    pub closed spec fn line_no(&self) -> nat {
        self.line as nat
    }

    /// The view of the tokens produced so far.
    pub closed spec fn toks(&self) -> Seq<(TknV, nat)> {
        view_tokens(self.tokens@)
    }

    /// The cursor is inside the buffer and the line counter cannot overflow
    /// on the input that remains.
    pub closed spec fn wf(&self) -> bool {
        &&& self.current <= self.characters@.len()
        &&& self.characters@.len() < 0xFFFF_FFFF
        &&& self.line as nat + (self.characters@.len() - self.current as nat) < 0x1_0000_0000
    }

    /// A fresh cursor at the start of the buffer, on line 1.
    pub fn new(characters: Vec<u8>) -> (r: Self)
        requires
            characters@.len() < 0xFFFF_FFFF,
        ensures
            r.wf(),
            r.chars() == chars_of(characters@),
            r.cur() == 0,
            r.line_no() == 1,
            r.toks() =~= Seq::<(TknV, nat)>::empty(),
    {
        Self { characters: characters, current: 0, tokens: Vec::new(), line: 1 }
    }

    /// The character under the cursor, or a diagnostic at the end of input.
    pub fn peek(&self) -> (r: Result<char, String>)
        requires
            self.wf(),
        ensures
            match r {
                Ok(c) => !at_end(self.chars(), self.cur()) && c == self.chars()[self.cur()],
                Err(m) => at_end(self.chars(), self.cur()) && m@ == spec_lexer_error(
                    self.line_no(),
                    "No token to peek"@,
                ),
            },
    {
        if !(self.is_at_end()) {
            Ok(self.characters[self.current] as char)
        } else {
            Err(fmt_lexer_error(self.line, "No token to peek"))
        }
    }

    /// The character under the cursor, advancing past it, or a diagnostic at
    /// the end of input.
    pub fn take(&mut self) -> (r: Result<char, String>)
        requires
            old(self).wf(),
        ensures
            final(self).wf(),
            final(self).chars() == old(self).chars(),
            final(self).toks() == old(self).toks(),
            final(self).line_no() == old(self).line_no(),
            match r {
                Ok(c) => {
                    &&& !at_end(old(self).chars(), old(self).cur())
                    &&& c == old(self).chars()[old(self).cur()]
                    &&& final(self).cur() == old(self).cur() + 1
                },
                Err(m) => {
                    &&& at_end(old(self).chars(), old(self).cur())
                    &&& final(self).cur() == old(self).cur()
                    &&& m@ == spec_lexer_error(old(self).line_no(), "No token to take"@)
                },
            },
    {
        if !(self.is_at_end()) {
            assert(self.chars().len() == self.characters@.len());
            self.current += 1;
            Ok(self.characters[self.current - 1] as char)
        } else {
            Err(fmt_lexer_error(self.line, "No token to take"))
        }
    }

    /// Whether the cursor has reached the sentinel position or a NUL byte.
    pub fn is_at_end(&self) -> (r: bool)
        requires
            self.wf(),
        ensures
            r == at_end(self.chars(), self.cur()),
    {
        assert(self.chars().len() == self.characters@.len());
        self.current + 1 >= self.characters.len() || self.characters[self.current] as char == '\0'
    }
}

/// Relies on `String::push`: appends the given character to the end of the
/// string.
#[verifier::external_body]
fn push_char(s: &mut String, c: char)
    ensures
        final(s)@ == old(s)@ + seq![c],
{
    s.push(c);
}

fn exec_is_digit(c: char) -> (r: bool)
    ensures
        r == is_digit(c),
{
    c >= '0' && c <= '9'
}

fn exec_is_alpha(c: char) -> (r: bool)
    ensures
        r == is_alpha(c),
{
    (c >= 'a' && c <= 'z') || (c >= 'A' && c <= 'Z') || c == '_'
}

fn exec_is_alpha_num(c: char) -> (r: bool)
    ensures
        r == is_alpha_num(c),
{
    exec_is_digit(c) || exec_is_alpha(c)
}

/// Advances over whitespace, counting line breaks.
fn skip_white_space(lexer: &mut Lxr)
    requires
        old(lexer).wf(),
    ensures
        final(lexer).wf(),
        final(lexer).chars() == old(lexer).chars(),
        final(lexer).toks() == old(lexer).toks(),
        (final(lexer).cur(), final(lexer).line_no()) == spec_skip_ws(
            old(lexer).chars(),
            old(lexer).cur(),
            old(lexer).line_no(),
        ),
        final(lexer).cur() >= old(lexer).cur(),
{
    loop
        invariant
            lexer.wf(),
            lexer.chars() == old(lexer).chars(),
            lexer.toks() == old(lexer).toks(),
            lexer.cur() >= old(lexer).cur(),
            spec_skip_ws(lexer.chars(), lexer.cur(), lexer.line_no()) == spec_skip_ws(
                old(lexer).chars(),
                old(lexer).cur(),
                old(lexer).line_no(),
            ),
        ensures
            (lexer.cur(), lexer.line_no()) == spec_skip_ws(lexer.chars(), lexer.cur(), lexer.line_no()),
        decreases lexer.chars().len() - lexer.cur(),
    {
        if lexer.is_at_end() {
            break;
        }
        let c = match lexer.peek() {
            Ok(c) => c,
            Err(_) => {
                proof {
                    assert(false);
                }
                break;
            },
        };
        if c == '\n' || c == '\r' {
            let _ = lexer.take();
            lexer.line = lexer.line + 1;
        } else if c == ' ' || c == '\t' {
            let _ = lexer.take();
        } else {
            break;
        }
    }
}

/// The two-character-operator rule: if the next character is `e`, consume it
/// and yield `a`; otherwise yield `b`.
fn match_dbl(a: Tkn, b: Tkn, e: char, lexer: &mut Lxr) -> (r: Result<Tkn, String>)
    requires
        old(lexer).wf(),
    ensures
        final(lexer).wf(),
        final(lexer).chars() == old(lexer).chars(),
        final(lexer).toks() == old(lexer).toks(),
        final(lexer).line_no() == old(lexer).line_no(),
        final(lexer).cur() >= old(lexer).cur(),
        match r {
            Ok(t) => spec_double(
                old(lexer).chars(),
                old(lexer).cur() - 1,
                old(lexer).line_no(),
                e,
                a@,
                b@,
            ) == Ok::<(TknV, int), Seq<char>>((t@, final(lexer).cur())),
            Err(m) => spec_double(
                old(lexer).chars(),
                old(lexer).cur() - 1,
                old(lexer).line_no(),
                e,
                a@,
                b@,
            ) == Err::<(TknV, int), Seq<char>>(m@),
        },
{
    match lexer.peek() {
        Ok(c) => {
            if c == e {
                let _ = lexer.take();
                Ok(a)
            } else {
                Ok(b)
            }
        },
        Err(m) => Err(m),
    }
}

/// The numeric value of a digit character, executably.
fn char_digit_val(c: char) -> (r: u64)
    requires
        is_digit(c),
    ensures
        r == digit_val(c),
        r <= 9,
{
    ((c as u32) - 48) as u64
}

/// Appending one digit multiplies the value by ten and adds the digit.
proof fn lemma_dec_val_push(s: Seq<char>, c: char)
    ensures
        dec_val(s.push(c)) == dec_val(s) * 10 + digit_val(c),
{
    assert(s.push(c).drop_last() =~= s);
    assert(s.push(c).last() == c);
}

/// Scans the rest of a numeric literal whose first digit (at the position
/// just before the cursor) has already been consumed.
fn scan_number(lexer: &mut Lxr, first: char) -> (r: Result<Tkn, String>)
    requires
        old(lexer).wf(),
        old(lexer).cur() >= 1,
        is_digit(first),
        first == old(lexer).chars()[old(lexer).cur() - 1],
    ensures
        final(lexer).wf(),
        final(lexer).chars() == old(lexer).chars(),
        final(lexer).toks() == old(lexer).toks(),
        final(lexer).line_no() == old(lexer).line_no(),
        final(lexer).cur() >= old(lexer).cur(),
        match r {
            Ok(t) => spec_number_token(
                old(lexer).chars(),
                old(lexer).cur() - 1,
                old(lexer).line_no(),
            ) == Ok::<(TknV, int), Seq<char>>((t@, final(lexer).cur())),
            Err(m) => spec_number_token(
                old(lexer).chars(),
                old(lexer).cur() - 1,
                old(lexer).line_no(),
            ) == Err::<(TknV, int), Seq<char>>(m@),
        },
{
    let ghost cs = old(lexer).chars();
    let ghost j = old(lexer).cur() - 1;
    let mut val: u64 = char_digit_val(first);
    let mut over: bool = false;
    proof {
        assert(cs.subrange(j, j + 1) =~= Seq::empty().push(first));
        lemma_dec_val_push(Seq::empty(), first);
    }
    loop
        invariant
            lexer.wf(),
            cs == old(lexer).chars(),
            j == old(lexer).cur() - 1,
            0 <= j,
            lexer.chars() == cs,
            lexer.toks() == old(lexer).toks(),
            lexer.line_no() == old(lexer).line_no(),
            j + 1 <= lexer.cur() <= cs.len(),
            spec_digit_run(cs, j + 1) == spec_digit_run(cs, lexer.cur()),
            over <==> dec_val(cs.subrange(j, lexer.cur())) > i32::MAX as nat,
            !over ==> val == dec_val(cs.subrange(j, lexer.cur())),
        ensures
            lexer.wf(),
            lexer.chars() == cs,
            lexer.toks() == old(lexer).toks(),
            lexer.line_no() == old(lexer).line_no(),
            j + 1 <= lexer.cur() <= cs.len(),
            spec_digit_run(cs, j + 1) == Ok::<int, ()>(lexer.cur()),
            !at_end(cs, lexer.cur()),
            over <==> dec_val(cs.subrange(j, lexer.cur())) > i32::MAX as nat,
            !over ==> val == dec_val(cs.subrange(j, lexer.cur())),
        decreases cs.len() - lexer.cur(),
    {
        let p = match lexer.peek() {
            Ok(p) => p,
            Err(m) => {
                return Err(m);
            },
        };
        if exec_is_digit(p) {
            let _ = lexer.take();
            proof {
                assert(cs.subrange(j, lexer.cur()) =~= cs.subrange(j, lexer.cur() - 1).push(p));
                lemma_dec_val_push(cs.subrange(j, lexer.cur() - 1), p);
            }
            if !over {
                let d: u64 = char_digit_val(p);
                let newval: u64 = val * 10 + d;
                if newval > 2147483647 {
                    over = true;
                } else {
                    val = newval;
                }
            }
        } else {
            break;
        }
    }
    let p = match lexer.peek() {
        Ok(p) => p,
        Err(m) => {
            proof {
                assert(false);
            }
            return Err(m);
        },
    };
    if exec_is_alpha(p) {
        return Err(fmt_lexer_error(lexer.line, "Invalid Identifier"));
    }
    if over {
        return Err(fmt_lexer_error(lexer.line, "Invalid Constant"));
    }
    Ok(Tkn::Constant(val as i32))
}

/// Scans the rest of an identifier or keyword whose first character (at the
/// position just before the cursor) has already been consumed.
fn scan_word(lexer: &mut Lxr, first: char) -> (r: Result<Tkn, String>)
    requires
        old(lexer).wf(),
        old(lexer).cur() >= 1,
        is_alpha(first),
        first == old(lexer).chars()[old(lexer).cur() - 1],
    ensures
        final(lexer).wf(),
        final(lexer).chars() == old(lexer).chars(),
        final(lexer).toks() == old(lexer).toks(),
        final(lexer).line_no() == old(lexer).line_no(),
        final(lexer).cur() >= old(lexer).cur(),
        match r {
            Ok(t) => spec_word_token(
                old(lexer).chars(),
                old(lexer).cur() - 1,
                old(lexer).line_no(),
            ) == Ok::<(TknV, int), Seq<char>>((t@, final(lexer).cur())),
            Err(m) => spec_word_token(
                old(lexer).chars(),
                old(lexer).cur() - 1,
                old(lexer).line_no(),
            ) == Err::<(TknV, int), Seq<char>>(m@),
        },
{
    let ghost cs = old(lexer).chars();
    let ghost j = old(lexer).cur() - 1;
    let mut ident = String::new();
    push_char(&mut ident, first);
    proof {
        assert(ident@ =~= cs.subrange(j, j + 1));
    }
    loop
        invariant
            lexer.wf(),
            cs == old(lexer).chars(),
            j == old(lexer).cur() - 1,
            0 <= j,
            lexer.chars() == cs,
            lexer.toks() == old(lexer).toks(),
            lexer.line_no() == old(lexer).line_no(),
            j + 1 <= lexer.cur() <= cs.len(),
            spec_ident_run(cs, j + 1) == spec_ident_run(cs, lexer.cur()),
            ident@ == cs.subrange(j, lexer.cur()),
        ensures
            lexer.wf(),
            lexer.chars() == cs,
            lexer.toks() == old(lexer).toks(),
            lexer.line_no() == old(lexer).line_no(),
            j + 1 <= lexer.cur() <= cs.len(),
            spec_ident_run(cs, j + 1) == Ok::<int, ()>(lexer.cur()),
            ident@ == cs.subrange(j, lexer.cur()),
        decreases cs.len() - lexer.cur(),
    {
        let p = match lexer.peek() {
            Ok(p) => p,
            Err(m) => {
                return Err(m);
            },
        };
        if exec_is_alpha_num(p) {
            let _ = lexer.take();
            push_char(&mut ident, p);
            proof {
                assert(cs.subrange(j, lexer.cur()) =~= cs.subrange(j, lexer.cur() - 1).push(p));
            }
        } else {
            break;
        }
    }
    let kw_int = String::from_str("int");
    let kw_void = String::from_str("void");
    let kw_return = String::from_str("return");
    if ident == kw_int {
        Ok(Tkn::Key(Keyword::Int))
    } else if ident == kw_void {
        Ok(Tkn::Key(Keyword::Void))
    } else if ident == kw_return {
        Ok(Tkn::Key(Keyword::Return))
    } else {
        Ok(Tkn::Identifier(ident))
    }
}

/// Scans one token at the cursor; whitespace has already been skipped.
fn create_token(lexer: &mut Lxr) -> (r: Result<Tkn, String>)
    requires
        old(lexer).wf(),
    ensures
        final(lexer).wf(),
        final(lexer).chars() == old(lexer).chars(),
        final(lexer).toks() == old(lexer).toks(),
        final(lexer).line_no() == old(lexer).line_no(),
        final(lexer).cur() >= old(lexer).cur(),
        match r {
            Ok(t) => spec_token(old(lexer).chars(), old(lexer).cur(), old(lexer).line_no())
                == Ok::<(TknV, int), Seq<char>>((t@, final(lexer).cur())) && final(lexer).cur()
                > old(lexer).cur(),
            Err(m) => spec_token(old(lexer).chars(), old(lexer).cur(), old(lexer).line_no())
                == Err::<(TknV, int), Seq<char>>(m@),
        },
{
    let current = match lexer.take() {
        Ok(c) => c,
        Err(m) => {
            return Err(m);
        },
    };
    match current {
        '(' => Ok(Tkn::LeftParen),
        ')' => Ok(Tkn::RightParen),
        '{' => Ok(Tkn::LeftBrace),
        '}' => Ok(Tkn::RightBrace),
        ';' => Ok(Tkn::Semicolon),
        '~' => Ok(Tkn::Tilde),
        '/' => Ok(Tkn::Slash),
        '*' => Ok(Tkn::Star),
        '%' => Ok(Tkn::Mod),
        '-' => match_dbl(Tkn::Decrement, Tkn::Subtract, '-', lexer),
        '+' => match_dbl(Tkn::Increment, Tkn::Plus, '+', lexer),
        '!' => match_dbl(Tkn::NotEqual, Tkn::Not, '=', lexer),
        '=' => match_dbl(Tkn::EqualEqual, Tkn::Equal, '=', lexer),
        '<' => match_dbl(Tkn::LessEqual, Tkn::Less, '=', lexer),
        '>' => match_dbl(Tkn::GreatEqual, Tkn::Great, '=', lexer),
        '&' => match_dbl(Tkn::And, Tkn::BAnd, '&', lexer),
        '|' => match_dbl(Tkn::Or, Tkn::BOr, '|', lexer),
        _ => {
            if exec_is_digit(current) {
                scan_number(lexer, current)
            } else if exec_is_alpha(current) {
                scan_word(lexer, current)
            } else {
                let mut msg = String::from_str("Unexpected Token: ");
                push_char(&mut msg, current);
                Err(fmt_lexer_error(lexer.line, msg.as_str()))
            }
        },
    }
}

/// Tokenizes a whole buffer: the token stream with the line each token ends
/// on, or the first diagnostic, exactly as [`spec_lex`] describes.
#[verifier::loop_isolation(false)]
pub fn lex(characters: Vec<u8>) -> (r: Result<Vec<(Tkn, u32)>, String>)
    requires
        characters@.len() < 0xFFFF_FFFF,
    ensures
        match r {
            Ok(tokens) => spec_lex(chars_of(characters@), 0, 1) == Ok::<
                Seq<(TknV, nat)>,
                Seq<char>,
            >(view_tokens(tokens@)),
            Err(m) => spec_lex(chars_of(characters@), 0, 1) == Err::<
                Seq<(TknV, nat)>,
                Seq<char>,
            >(m@),
        },
{
    let ghost cs = chars_of(characters@);
    let mut lexer = Lxr::new(characters);
    while !lexer.is_at_end()
        invariant
            lexer.wf(),
            lexer.chars() == cs,
            spec_lex(cs, 0, 1) == lex_join(lexer.toks(), spec_lex(cs, lexer.cur(), lexer.line_no())),
        decreases cs.len() - lexer.cur(),
    {
        let ghost i0 = lexer.cur();
        let ghost l0 = lexer.line_no();
        skip_white_space(&mut lexer);
        let ghost jj = lexer.cur();
        let ghost l2 = lexer.line_no();
        let token = match create_token(&mut lexer) {
            Ok(t) => t,
            Err(m) => {
                proof {
                    assert(spec_lex(cs, i0, l0) == Err::<Seq<(TknV, nat)>, Seq<char>>(m@));
                }
                return Err(m);
            },
        };
        let ghost toks0 = lexer.toks();
        lexer.tokens.push((token, lexer.line));
        proof {
            assert(lexer.toks() =~= toks0.push((token@, l2)));
            let rest0 = spec_lex(cs, i0, l0);
            assert(rest0 == match spec_lex(cs, lexer.cur(), l2) {
                Err(msg) => Err(msg),
                Ok(rest) => Ok(seq![(token@, l2)] + rest),
            });
            match spec_lex(cs, lexer.cur(), l2) {
                Err(msg) => {
                    assert(lex_join(toks0, rest0) == Err::<Seq<(TknV, nat)>, Seq<char>>(msg));
                },
                Ok(rest) => {
                    assert(toks0 + (seq![(token@, l2)] + rest) =~= (toks0.push((token@, l2)))
                        + rest);
                },
            }
        }
    }
    proof {
        assert(lexer.toks() + Seq::<(TknV, nat)>::empty() =~= lexer.toks());
    }
    Ok(lexer.tokens)
}

} // verus!

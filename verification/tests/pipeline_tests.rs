use glasses::ast::TokenQue;
use glasses::ast_text::ast_text;
use glasses::compile::compile;
use glasses::compile::CompileError;
use glasses::lexer::lex;
use glasses::lexer::Keyword;
use glasses::lexer::Tkn;
use glasses::names::decimal_string;
use glasses::names::make_dotted_name;
use glasses::names::signed_decimal_string;
use glasses::parser::parse;

#[test]
fn decimal_strings_render_exactly() {
    assert_eq!(decimal_string(0), "0");
    assert_eq!(decimal_string(7), "7");
    assert_eq!(decimal_string(10), "10");
    assert_eq!(decimal_string(90210), "90210");
    assert_eq!(decimal_string(u64::MAX), "18446744073709551615");
}

#[test]
fn signed_decimal_strings_render_exactly() {
    assert_eq!(signed_decimal_string(0), "0");
    assert_eq!(signed_decimal_string(-1), "-1");
    assert_eq!(signed_decimal_string(2147483647), "2147483647");
    assert_eq!(signed_decimal_string(i32::MIN), "-2147483648");
}

#[test]
fn dotted_names_join_stem_and_counter() {
    assert_eq!(make_dotted_name("x", 0), "x.0");
    assert_eq!(make_dotted_name("value", 41), "value.41");
    assert_eq!(make_dotted_name("temp.", 3), "temp..3");
}

#[test]
fn the_token_queue_consumes_from_the_front() {
    let tokens = lex("int main;\n".as_bytes().to_vec()).unwrap();
    let mut queue = TokenQue::new(tokens);
    assert_eq!(queue.len(), 3);
    assert!(queue.peek_next_token().unwrap().0 == Tkn::Key(Keyword::Int));
    queue.consume(Tkn::Key(Keyword::Int), "Expected int").unwrap();
    let (front, line) = queue.next_token().unwrap();
    assert!(front == Tkn::Identifier(String::from("main")));
    assert_eq!(line, 1);
    assert_eq!(queue.len(), 1);
    queue.next().unwrap();
    assert_eq!(queue.len(), 0);
    assert!(queue.peek_next_token().is_err());
    assert!(queue.next().is_err());
}

#[test]
fn a_mismatched_consume_leaves_the_queue_unchanged() {
    let tokens = lex("int(\n".as_bytes().to_vec()).unwrap();
    let mut queue = TokenQue::new(tokens);
    let err = queue.consume(Tkn::Semicolon, "Expected ';'").unwrap_err();
    assert_eq!(err.message(), "Parser Error:\nLine 1: Expected ';'");
    assert_eq!(queue.len(), 2);
}

#[test]
fn the_syntax_tree_renders_for_the_validation_stage() {
    let ast = parse(lex("int main(void){int x = 2; return x;}\n".as_bytes().to_vec()).unwrap())
        .unwrap();
    let text = ast_text(&ast);
    let expected = "Program(\n main <- Function(\n  body=\n   x <- Declaration(\n    Constant(2)\n   Return(\n    Var: x\n   )\n )\n)\n";
    assert_eq!(text, expected);
}

#[test]
fn each_stage_reports_its_own_failure() {
    let lex_err = compile("int $;\n".as_bytes().to_vec()).unwrap_err();
    assert!(matches!(&lex_err, CompileError::Lex(_)));
    assert_eq!(lex_err.message(), "Lexer Error:\nLine 1: Unexpected Token: $");

    let parse_err = compile("int main(void){return;}\n".as_bytes().to_vec()).unwrap_err();
    assert!(matches!(&parse_err, CompileError::Parse(_)));

    let resolve_err = compile("int main(void){return y;}\n".as_bytes().to_vec()).unwrap_err();
    assert!(matches!(&resolve_err, CompileError::Resolve(_)));
    assert_eq!(resolve_err.message(), "Resolver Error:\ny is an undeclared variable");
}

#[test]
fn the_empty_buffer_compiles_to_a_parse_error() {
    let err = compile(Vec::new()).unwrap_err();
    assert!(matches!(&err, CompileError::Parse(_)));
    assert_eq!(err.message(), "Parser Error:\nExpected token but recieved none");
}

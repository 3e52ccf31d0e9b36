use glasses::ast::BinaryOp;
use glasses::ast::BlockItem;
use glasses::ast::Expr;
use glasses::ast::FuncDef;
use glasses::ast::ParseError;
use glasses::ast::Stmt;
use glasses::lexer::lex;
use glasses::parser::parse;

fn parse_str(source: &str) -> Result<FuncDef, ParseError> {
    parse(lex(source.as_bytes().to_vec()).unwrap())
}

fn sole_return_expr(ast: &FuncDef) -> &Expr {
    let FuncDef::Function(_, body) = ast;
    match &body[0] {
        BlockItem::S(Stmt::Return(e)) => e,
        other => panic!("expected a return, got {:?}", other),
    }
}

#[test]
fn multiplication_binds_tighter_than_addition() {
    let ast = parse_str("int main(void){return 1+2*3;}\n").unwrap();
    match sole_return_expr(&ast) {
        Expr::Binary(BinaryOp::Add, l, r) => {
            assert!(matches!(**l, Expr::Constant(1)));
            match &**r {
                Expr::Binary(BinaryOp::Multiply, rl, rr) => {
                    assert!(matches!(**rl, Expr::Constant(2)));
                    assert!(matches!(**rr, Expr::Constant(3)));
                },
                other => panic!("expected a multiplication, got {:?}", other),
            }
        },
        other => panic!("expected an addition, got {:?}", other),
    }
}

#[test]
fn parentheses_override_precedence() {
    let ast = parse_str("int main(void){return (1+2)*3;}\n").unwrap();
    match sole_return_expr(&ast) {
        Expr::Binary(BinaryOp::Multiply, l, r) => {
            assert!(matches!(**l, Expr::Binary(BinaryOp::Add, _, _)));
            assert!(matches!(**r, Expr::Constant(3)));
        },
        other => panic!("expected a multiplication, got {:?}", other),
    }
}

#[test]
fn assignment_is_right_associative() {
    let ast = parse_str("int main(void){int a; int b; a = b = 3;}\n").unwrap();
    let FuncDef::Function(name, body) = &ast;
    assert_eq!(name, "main");
    match &body[2] {
        BlockItem::S(Stmt::Expression(Expr::Assignment(target, value))) => {
            assert!(matches!(&**target, Expr::Var(n) if n == "a"));
            match &**value {
                Expr::Assignment(inner_target, inner_value) => {
                    assert!(matches!(&**inner_target, Expr::Var(n) if n == "b"));
                    assert!(matches!(**inner_value, Expr::Constant(3)));
                },
                other => panic!("expected a nested assignment, got {:?}", other),
            }
        },
        other => panic!("expected an assignment statement, got {:?}", other),
    }
}

#[test]
fn comparison_chain_is_left_associative() {
    let ast = parse_str("int main(void){return 1 < 2 == 1;}\n").unwrap();
    match sole_return_expr(&ast) {
        Expr::Binary(BinaryOp::Equal, l, r) => {
            assert!(matches!(**l, Expr::Binary(BinaryOp::LessThan, _, _)));
            assert!(matches!(**r, Expr::Constant(1)));
        },
        other => panic!("expected an equality, got {:?}", other),
    }
}

#[test]
fn unary_operators_nest_as_factors() {
    let ast = parse_str("int main(void){return -~!0;}\n").unwrap();
    match sole_return_expr(&ast) {
        Expr::Unary(op, inner) => {
            assert!(matches!(op, glasses::ast::UnaryOp::Negate));
            assert!(matches!(**inner, Expr::Unary(glasses::ast::UnaryOp::Complement, _)));
        },
        other => panic!("expected a unary application, got {:?}", other),
    }
}

#[test]
fn declarations_and_null_statements_parse() {
    let ast = parse_str("int main(void){int x = 1; int y; ; return x;}\n").unwrap();
    let FuncDef::Function(_, body) = &ast;
    assert_eq!(body.len(), 4);
    assert!(matches!(&body[0], BlockItem::D(glasses::ast::Decl::Declaration(n, Some(_))) if n == "x"));
    assert!(matches!(&body[1], BlockItem::D(glasses::ast::Decl::Declaration(n, None)) if n == "y"));
    assert!(matches!(&body[2], BlockItem::S(Stmt::Null)));
    assert!(matches!(&body[3], BlockItem::S(Stmt::Return(_))));
}

#[test]
fn a_missing_semicolon_is_a_parse_error() {
    let err = parse_str("int main(void){return 2}\n").unwrap_err();
    assert_eq!(err.message(), "Parser Error:\nLine 1: Expected ';'");
}

#[test]
fn a_missing_void_is_a_parse_error() {
    let err = parse_str("int main(){return 2;}\n").unwrap_err();
    assert_eq!(err.message(), "Parser Error:\nLine 1: Expected 'void'");
}

#[test]
fn an_empty_stream_is_a_parse_error() {
    let err = parse(Vec::new()).unwrap_err();
    assert_eq!(err.message(), "Parser Error:\nExpected token but recieved none");
}

#[test]
fn a_stray_operator_is_a_parse_error() {
    let err = parse_str("int main(void){return *;}\n").unwrap_err();
    assert_eq!(err.message(), "Parser Error:\nLine 1: Expression Expected");
}

use glasses::ast::BlockItem;
use glasses::ast::Decl;
use glasses::ast::Expr;
use glasses::ast::FuncDef;
use glasses::ast::Stmt;
use glasses::lexer::lex;
use glasses::parser::parse;
use glasses::resolver::resolve_vars;
use glasses::resolver::ResolveError;

fn resolved(source: &str) -> Result<FuncDef, ResolveError> {
    let mut ast = parse(lex(source.as_bytes().to_vec()).unwrap()).unwrap();
    resolve_vars(&mut ast).map(|_| ast)
}

#[test]
fn variables_are_renamed_in_declaration_order() {
    let ast = resolved("int main(void){int x = 1; int y = x; return y;}\n").unwrap();
    let FuncDef::Function(_, body) = &ast;
    assert!(matches!(&body[0], BlockItem::D(Decl::Declaration(n, Some(Expr::Constant(1)))) if n == "x.0"));
    assert!(
        matches!(&body[1], BlockItem::D(Decl::Declaration(n, Some(Expr::Var(v)))) if n == "y.1" && v == "x.0")
    );
    assert!(matches!(&body[2], BlockItem::S(Stmt::Return(Expr::Var(v))) if v == "y.1"));
}

#[test]
fn duplicate_declarations_fail_resolution() {
    let err = resolved("int main(void){int a; int a; return 0;}\n").unwrap_err();
    assert!(matches!(&err, ResolveError::DuplicateDeclaration(n) if n == "a"));
    assert_eq!(err.message(), "Resolver Error:\na is a duplicate variable declaration");
}

#[test]
fn undeclared_use_fails_resolution() {
    let err = resolved("int main(void){return x;}\n").unwrap_err();
    assert!(matches!(&err, ResolveError::UndeclaredVariable(n) if n == "x"));
    assert_eq!(err.message(), "Resolver Error:\nx is an undeclared variable");
}

#[test]
fn use_before_declaration_fails_resolution() {
    let err = resolved("int main(void){int y = x; int x = 1; return y;}\n").unwrap_err();
    assert!(matches!(&err, ResolveError::UndeclaredVariable(n) if n == "x"));
}

#[test]
fn a_non_variable_assignment_target_fails_resolution() {
    let err = resolved("int main(void){int a; 2 = a; return a;}\n").unwrap_err();
    assert!(matches!(err, ResolveError::InvalidLvalue));
    assert_eq!(err.message(), "Resolver Error:\nInvalid lvalue");
}

#[test]
fn an_initializer_sees_its_own_declaration() {
    // The mapping entry is inserted before the initializer is resolved, so
    // `int x = x;` resolves the right-hand `x` to the new name rather than
    // failing as undeclared.
    let ast = resolved("int main(void){int x = x; return x;}\n").unwrap();
    let FuncDef::Function(_, body) = &ast;
    assert!(
        matches!(&body[0], BlockItem::D(Decl::Declaration(n, Some(Expr::Var(v)))) if n == "x.0" && v == "x.0")
    );
}

#[test]
fn distinct_source_names_get_distinct_generated_names() {
    let ast = resolved("int main(void){int a; int b; int c; return 0;}\n").unwrap();
    let FuncDef::Function(_, body) = &ast;
    let mut names: Vec<String> = Vec::new();
    for item in body.iter() {
        if let BlockItem::D(Decl::Declaration(n, _)) = item {
            names.push(n.clone());
        }
    }
    assert_eq!(names, vec!["a.0", "b.1", "c.2"]);
    for i in 0..names.len() {
        for j in 0..names.len() {
            if i != j {
                assert_ne!(names[i], names[j]);
            }
        }
    }
}

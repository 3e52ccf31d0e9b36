use glasses::lexer::lex;
use glasses::parser::parse;
use glasses::resolver::resolve_vars;
use glasses::tacky::gen_tacky;
use glasses::tacky::TBinaryOp;
use glasses::tacky::TFuncDef;
use glasses::tacky::TInstr;
use glasses::tacky::TVal;

fn lower(source: &str) -> Vec<TInstr> {
    let mut ast = parse(lex(source.as_bytes().to_vec()).unwrap()).unwrap();
    resolve_vars(&mut ast).unwrap();
    let TFuncDef::Function(_, instrs) = gen_tacky(ast);
    instrs
}

fn is_var(v: &TVal, name: &str) -> bool {
    matches!(v, TVal::Var(n) if n == name)
}

#[test]
fn chained_assignment_copies_three_into_both_variables() {
    let instrs = lower("int main(void){int a; int b; a = b = 3; return a;}\n");
    // The inner assignment copies 3 into b, and its value (b) is then
    // copied into a, so both variables hold 3.
    assert!(
        matches!(&instrs[0], TInstr::Copy(TVal::Constant(3), dst) if is_var(dst, "b.1")),
        "got {:?}",
        instrs[0]
    );
    assert!(
        matches!(&instrs[1], TInstr::Copy(src, dst) if is_var(src, "b.1") && is_var(dst, "a.0")),
        "got {:?}",
        instrs[1]
    );
    assert!(matches!(&instrs[2], TInstr::Return(v) if is_var(v, "a.0")));
}

#[test]
fn logical_or_jumps_over_the_division() {
    let instrs = lower("int main(void){return 1 || (1/0);}\n");
    // The left operand short-circuits past the right-hand division: the
    // conditional jump on the constant 1 comes first and targets the label
    // that follows the division, where the result is set to 1.
    assert!(
        matches!(&instrs[0], TInstr::JumpIfNotZero(TVal::Constant(1), l) if l == "short_cond.0")
    );
    assert!(
        matches!(&instrs[1], TInstr::Binary(TBinaryOp::Divide, TVal::Constant(1), TVal::Constant(0), dst) if is_var(dst, "temp..1"))
    );
    assert!(matches!(&instrs[2], TInstr::JumpIfNotZero(v, l) if is_var(v, "temp..1") && l == "short_cond.0"));
    assert!(
        matches!(&instrs[3], TInstr::Copy(TVal::Constant(0), dst) if is_var(dst, "and_or_result..3"))
    );
    assert!(matches!(&instrs[4], TInstr::Jump(l) if l == "jmp_cond.4"));
    assert!(matches!(&instrs[5], TInstr::Label(l) if l == "short_cond.0"));
    assert!(
        matches!(&instrs[6], TInstr::Copy(TVal::Constant(1), dst) if is_var(dst, "and_or_result..3"))
    );
    assert!(matches!(&instrs[7], TInstr::Label(l) if l == "jmp_cond.4"));
    assert!(matches!(&instrs[8], TInstr::Return(v) if is_var(v, "and_or_result..3")));
}

#[test]
fn logical_and_jumps_over_the_division() {
    let instrs = lower("int main(void){return 0 && (1/0);}\n");
    assert!(matches!(&instrs[0], TInstr::JumpIfZero(TVal::Constant(0), l) if l == "short_cond.0"));
    assert!(matches!(&instrs[1], TInstr::Binary(TBinaryOp::Divide, _, _, _)));
    assert!(matches!(&instrs[2], TInstr::JumpIfZero(_, _)));
    // The fall-through path records 1 (both operands non-zero); the
    // short-circuit label records 0.
    assert!(matches!(&instrs[3], TInstr::Copy(TVal::Constant(1), _)));
    assert!(matches!(&instrs[5], TInstr::Label(l) if l == "short_cond.0"));
    assert!(matches!(&instrs[6], TInstr::Copy(TVal::Constant(0), _)));
}

#[test]
fn labels_are_unique_and_every_jump_target_is_defined() {
    let instrs = lower("int main(void){return (1 && 0) || (0 || (1 && 1));}\n");
    let mut labels: Vec<String> = Vec::new();
    let mut targets: Vec<String> = Vec::new();
    for instr in instrs.iter() {
        match instr {
            TInstr::Label(l) => labels.push(l.clone()),
            TInstr::Jump(l) | TInstr::JumpIfZero(_, l) | TInstr::JumpIfNotZero(_, l) => {
                targets.push(l.clone())
            },
            _ => {},
        }
    }
    for i in 0..labels.len() {
        for j in 0..labels.len() {
            if i != j {
                assert_ne!(labels[i], labels[j]);
            }
        }
    }
    for target in targets.iter() {
        assert!(labels.contains(target), "jump to an undefined label {}", target);
    }
}

#[test]
fn a_variable_named_temp_never_collides_with_a_temporary() {
    // The variable `temp` resolves to `temp.2`; lowering temporaries carry
    // the dotted stem `temp.` (names like `temp..1`), so the addition's
    // destination is a fresh slot and the returned variable keeps its 1.
    let instrs = lower(
        "int main(void){int a; int b; int temp = 1; int d = temp + ~2; return temp;}\n",
    );
    assert!(matches!(&instrs[0], TInstr::Copy(TVal::Constant(1), dst) if is_var(dst, "temp.2")));
    assert!(
        matches!(&instrs[2], TInstr::Binary(TBinaryOp::Add, a, b, dst)
            if is_var(a, "temp.2") && is_var(b, "temp..1") && is_var(dst, "temp..2")),
        "got {:?}",
        instrs[2]
    );
    assert!(matches!(&instrs[4], TInstr::Return(v) if is_var(v, "temp.2")));
}

#[test]
fn nested_short_circuits_use_distinct_result_temporaries() {
    let instrs = lower("int main(void){return (1 || 0) || 1;}\n");
    let mut result_names: Vec<String> = Vec::new();
    for instr in instrs.iter() {
        if let TInstr::Copy(_, TVal::Var(n)) = instr {
            if n.starts_with("and_or_result.") && !result_names.contains(n) {
                result_names.push(n.clone());
            }
        }
    }
    assert_eq!(result_names.len(), 2, "inner and outer results must differ: {:?}", result_names);
}

#[test]
fn every_function_ends_with_an_implicit_return_zero() {
    let instrs = lower("int main(void){int x = 1;}\n");
    assert!(matches!(instrs.last().unwrap(), TInstr::Return(TVal::Constant(0))));
}

#[test]
fn uninitialized_declarations_emit_no_instruction() {
    let instrs = lower("int main(void){int x;}\n");
    assert_eq!(instrs.len(), 1);
    assert!(matches!(&instrs[0], TInstr::Return(TVal::Constant(0))));
}

#[test]
fn precedence_shapes_the_lowered_arithmetic() {
    let instrs = lower("int main(void){return 1+2*3;}\n");
    assert!(
        matches!(&instrs[0], TInstr::Binary(TBinaryOp::Multiply, TVal::Constant(2), TVal::Constant(3), dst) if is_var(dst, "temp..0"))
    );
    assert!(
        matches!(&instrs[1], TInstr::Binary(TBinaryOp::Add, TVal::Constant(1), src, dst) if is_var(src, "temp..0") && is_var(dst, "temp..1"))
    );
    assert!(matches!(&instrs[2], TInstr::Return(v) if is_var(v, "temp..1")));
}

#[test]
fn unary_operators_lower_postorder() {
    let instrs = lower("int main(void){return -~2;}\n");
    assert!(
        matches!(&instrs[0], TInstr::Unary(glasses::tacky::TUnaryOp::Complement, TVal::Constant(2), dst) if is_var(dst, "temp..0"))
    );
    assert!(
        matches!(&instrs[1], TInstr::Unary(glasses::tacky::TUnaryOp::Negate, src, dst) if is_var(src, "temp..0") && is_var(dst, "temp..1"))
    );
}

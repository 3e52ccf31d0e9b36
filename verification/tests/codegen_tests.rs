use glasses::codegen::gen_code;
use glasses::codegen::ABinaryOp;
use glasses::codegen::AInstr;
use glasses::codegen::AOprnd;
use glasses::codegen::AssemFuncDef;
use glasses::lexer::lex;
use glasses::parser::parse;
use glasses::resolver::resolve_vars;
use glasses::tacky::gen_tacky;

fn generate(source: &str) -> Vec<AInstr> {
    let mut ast = parse(lex(source.as_bytes().to_vec()).unwrap()).unwrap();
    resolve_vars(&mut ast).unwrap();
    let AssemFuncDef::Function(_, instrs) = gen_code(gen_tacky(ast));
    instrs
}

fn is_stack(o: &AOprnd) -> bool {
    matches!(o, AOprnd::Stack(_))
}

/// The legalization invariant, checked instruction by instruction: no
/// two-memory-operand instruction, no multiply into memory, no immediate
/// division operand, no immediate as a comparison's second operand.
fn assert_all_legal(instrs: &[AInstr]) {
    for instr in instrs.iter() {
        match instr {
            AInstr::Mov(a, b) => assert!(!(is_stack(a) && is_stack(b)), "bad {:?}", instr),
            AInstr::Binary(op, a, b) => {
                assert!(!(is_stack(a) && is_stack(b)), "bad {:?}", instr);
                assert!(
                    !(matches!(op, ABinaryOp::Mult) && is_stack(b)),
                    "bad {:?}",
                    instr
                );
            },
            AInstr::Cmp(a, b) => {
                assert!(!(is_stack(a) && is_stack(b)), "bad {:?}", instr);
                assert!(!matches!(b, AOprnd::Imm(_)), "bad {:?}", instr);
            },
            AInstr::Idiv(a) => assert!(!matches!(a, AOprnd::Imm(_)), "bad {:?}", instr),
            _ => {},
        }
    }
}

#[test]
fn stack_allocation_is_four_bytes_per_distinct_name() {
    // Two source variables and two temporaries: the frame is 4 * 4 bytes.
    let instrs = generate("int main(void){int a = 1; int b = 2; return a + b * 2;}\n");
    assert!(matches!(&instrs[0], AInstr::AllocateStack(16)), "got {:?}", instrs[0]);
    let mut offsets: Vec<i32> = Vec::new();
    for instr in instrs.iter() {
        let mut note = |o: &AOprnd| {
            if let AOprnd::Stack(v) = o {
                if !offsets.contains(v) {
                    offsets.push(*v);
                }
            }
        };
        match instr {
            AInstr::Mov(a, b) | AInstr::Binary(_, a, b) | AInstr::Cmp(a, b) => {
                note(a);
                note(b);
            },
            AInstr::Unary(_, a) | AInstr::Idiv(a) | AInstr::SetCC(_, a) => note(a),
            _ => {},
        }
    }
    offsets.sort();
    assert_eq!(offsets, vec![-16, -12, -8, -4]);
    for off in offsets.iter() {
        assert_eq!(off % 4, 0);
    }
}

#[test]
fn no_pseudo_register_survives_generation() {
    let instrs = generate("int main(void){int x = 5; return !x || x >= 2;}\n");
    for instr in instrs.iter() {
        let check = |o: &AOprnd| assert!(!matches!(o, AOprnd::Pseudo(_)), "bad {:?}", instr);
        match instr {
            AInstr::Mov(a, b) | AInstr::Binary(_, a, b) | AInstr::Cmp(a, b) => {
                check(a);
                check(b);
            },
            AInstr::Unary(_, a) | AInstr::Idiv(a) | AInstr::SetCC(_, a) => check(a),
            _ => {},
        }
    }
}

#[test]
fn legalization_leaves_no_illegal_shape() {
    let instrs = generate(
        "int main(void){int a = 1; int b = a; int c = a * b; int d = c / a; int e = c % 2; return a + b - c * d + (e == 2) + (a < b);}\n",
    );
    assert_all_legal(&instrs);
}

#[test]
fn memory_to_memory_moves_route_through_the_first_scratch_register() {
    // `int b = a;` is a memory-to-memory copy before legalization.
    let instrs = generate("int main(void){int a = 1; int b = a; return b;}\n");
    let pos = instrs
        .iter()
        .position(|i| {
            matches!(i, AInstr::Mov(AOprnd::Stack(-4), AOprnd::Reg(glasses::codegen::AReg::R10)))
        })
        .expect("no load into the scratch register");
    assert!(matches!(
        &instrs[pos + 1],
        AInstr::Mov(AOprnd::Reg(glasses::codegen::AReg::R10), AOprnd::Stack(-8))
    ));
    assert_all_legal(&instrs);
}

#[test]
fn division_by_a_constant_routes_the_immediate_through_scratch() {
    let instrs = generate("int main(void){return 7 / 2;}\n");
    assert!(instrs.iter().any(|i| matches!(
        i,
        AInstr::Mov(AOprnd::Imm(2), AOprnd::Reg(glasses::codegen::AReg::R10))
    )));
    assert!(instrs.iter().any(|i| matches!(i, AInstr::Cdq)));
    assert_all_legal(&instrs);
}

#[test]
fn multiplication_into_memory_routes_through_the_second_scratch_register() {
    let instrs = generate("int main(void){int a = 3; return a * 5;}\n");
    assert!(instrs.iter().any(|i| matches!(
        i,
        AInstr::Binary(ABinaryOp::Mult, _, AOprnd::Reg(glasses::codegen::AReg::R11))
    )));
    assert_all_legal(&instrs);
}

#[test]
fn comparisons_default_then_set_conditionally() {
    let instrs = generate("int main(void){int x = 4; return x >= 3;}\n");
    assert!(instrs.iter().any(|i| matches!(i, AInstr::Cmp(_, _))));
    assert!(instrs.iter().any(|i| matches!(
        i,
        AInstr::SetCC(glasses::codegen::CondCode::GE, AOprnd::Stack(_))
    )));
    assert_all_legal(&instrs);
}

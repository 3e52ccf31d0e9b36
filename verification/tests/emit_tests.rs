use glasses::codegen::ABinaryOp;
use glasses::codegen::AOprnd;
use glasses::codegen::AReg;
use glasses::codegen::AUnaryOp;
use glasses::codegen::CondCode;
use glasses::compile::compile;
use glasses::emit::get_binary_operator;
use glasses::emit::get_byte_operand;
use glasses::emit::get_cond_code;
use glasses::emit::get_label;
use glasses::emit::get_operand;
use glasses::emit::get_unary_operator;

fn compiled(source: &str) -> String {
    compile(source.as_bytes().to_vec()).unwrap()
}

#[test]
fn operands_render_with_32_bit_names() {
    assert_eq!(get_operand(&AOprnd::Reg(AReg::AX)), "%eax");
    assert_eq!(get_operand(&AOprnd::Reg(AReg::DX)), "%edx");
    assert_eq!(get_operand(&AOprnd::Reg(AReg::R10)), "%r10d");
    assert_eq!(get_operand(&AOprnd::Reg(AReg::R11)), "%r11d");
    assert_eq!(get_operand(&AOprnd::Stack(-12)), "-12(%rbp)");
    assert_eq!(get_operand(&AOprnd::Imm(42)), "$42");
    assert_eq!(get_operand(&AOprnd::Imm(-2147483648)), "$-2147483648");
}

#[test]
fn byte_operands_render_with_byte_names() {
    assert_eq!(get_byte_operand(&AOprnd::Reg(AReg::AX)), "%al");
    assert_eq!(get_byte_operand(&AOprnd::Reg(AReg::DX)), "%dl");
    assert_eq!(get_byte_operand(&AOprnd::Reg(AReg::R10)), "%r10b");
    assert_eq!(get_byte_operand(&AOprnd::Reg(AReg::R11)), "%r11b");
    assert_eq!(get_byte_operand(&AOprnd::Stack(-4)), "-4(%rbp)");
}

#[test]
fn condition_codes_render_as_suffixes() {
    assert_eq!(get_cond_code(&CondCode::E), "e");
    assert_eq!(get_cond_code(&CondCode::NE), "ne");
    assert_eq!(get_cond_code(&CondCode::L), "l");
    assert_eq!(get_cond_code(&CondCode::LE), "le");
    assert_eq!(get_cond_code(&CondCode::G), "g");
    assert_eq!(get_cond_code(&CondCode::GE), "ge");
}

#[test]
fn labels_and_mnemonics_render() {
    assert_eq!(get_label(&String::from("short_cond.0")), ".Lshort_cond.0");
    assert_eq!(get_unary_operator(&AUnaryOp::Neg), "negl");
    assert_eq!(get_unary_operator(&AUnaryOp::Not), "notl");
    assert_eq!(get_binary_operator(&ABinaryOp::Add), "addl");
    assert_eq!(get_binary_operator(&ABinaryOp::Sub), "subl");
    assert_eq!(get_binary_operator(&ABinaryOp::Mult), "imull");
}

#[test]
fn the_reference_program_compiles_to_the_expected_assembly() {
    // With x = 5, the comparison sets 1, the multiplication doubles it, and
    // the subtraction leaves 5 - 2 = 3 as the exit status once assembled.
    let text = compiled("int main(void){ int x = 5; return x - 2 * (x >= 3); }\n");
    let expected = ".globl main\nmain:\n\tpushq %rbp\n\tmovq %rsp, %rbp\n\tsubq $16, %rsp\n\tmovl $5, -4(%rbp)\n\tcmpl $3, -4(%rbp)\n\tmovl $0, -8(%rbp)\n\tsetge -8(%rbp)\n\tmovl $2, -12(%rbp)\n\tmovl -12(%rbp), %r11d\n\timull -8(%rbp), %r11d\n\tmovl %r11d, -12(%rbp)\n\tmovl -4(%rbp), %r10d\n\tmovl %r10d, -16(%rbp)\n\tmovl -12(%rbp), %r10d\n\tsubl %r10d, -16(%rbp)\n\tmovl -16(%rbp), %eax\n\tmovq %rbp, %rsp\n\tpopq %rbp\n\tret\n\tmovl $0, %eax\n\tmovq %rbp, %rsp\n\tpopq %rbp\n\tret\n.section .note.GNU-stack,\"\",@progbits";
    assert_eq!(text, expected);
}

#[test]
fn a_bare_return_compiles_to_a_constant_move() {
    let text = compiled("int main(void){return 2;}\n");
    let expected = ".globl main\nmain:\n\tpushq %rbp\n\tmovq %rsp, %rbp\n\tsubq $0, %rsp\n\tmovl $2, %eax\n\tmovq %rbp, %rsp\n\tpopq %rbp\n\tret\n\tmovl $0, %eax\n\tmovq %rbp, %rsp\n\tpopq %rbp\n\tret\n.section .note.GNU-stack,\"\",@progbits";
    assert_eq!(text, expected);
}

#[test]
fn short_circuit_or_compiles_with_the_jump_before_the_division() {
    let text = compiled("int main(void){return 1 || (1/0);}\n");
    let jump = text.find("jne .Lshort_cond.0").expect("no short-circuit jump");
    let division = text.find("idivl").expect("no division");
    let label = text.find(".Lshort_cond.0:").expect("no short-circuit label");
    assert!(jump < division, "the guard jump must precede the division");
    assert!(division < label, "the division is skipped by jumping past it");
    assert!(text.contains("\tjmp .Ljmp_cond.4\n"));
}

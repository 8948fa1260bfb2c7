use juc::assembly::instruction::{Condition, Instruction, Label, Opcode, Operand, Register, Section, Width};
use juc::assembly::listing::assemble;
use juc::compilation::compilers::linux::LinuxCompiler;
use juc::compilation::error::CompileError;
use juc::objects::function::Function;
use juc::objects::type_::Type;
use juc::objects::variable::Variable;
use juc::parsing::elements::{Element, Operation};
use juc::parsing::elements::Token;

fn other(text: &str) -> Token {
    Token::Other(text.to_string())
}

fn open() -> Element {
    Element::Other(Token::BracketOpen)
}

fn close() -> Element {
    Element::Other(Token::BracketClose)
}

fn function(id: &str, params: Vec<Variable>) -> Element {
    Element::Function(Function::new(id.to_string(), params, String::new()))
}

fn variable(id: &str, type_: Type, value: Token) -> Variable {
    Variable::new(id.to_string(), type_, value, 0)
}

fn declare(id: &str, type_: Type, value: Token) -> Element {
    Element::Variable(variable(id, type_, value))
}

fn operation(operator: Token, left: Token, right: Token) -> Element {
    Element::Operation(Operation::new(operator, left, right))
}

fn reg(register: Register) -> Operand {
    Operand::Register(register)
}

fn op(opcode: Opcode, operands: Vec<Operand>) -> Instruction {
    Instruction::Op { opcode, operands, comment: None }
}

fn mov(to: Operand, from: Operand) -> Instruction {
    op(Opcode::Mov, vec![to, from])
}

fn store(offset: usize, width: Option<Width>, source: Operand, name: &str) -> Instruction {
    let mut operands = vec![Operand::Stack(offset)];
    if let Some(w) = width {
        operands.push(Operand::Width(w));
    }
    operands.push(source);
    Instruction::Op { opcode: Opcode::Mov, operands, comment: Some(name.to_string()) }
}

fn jump(label: Label) -> Instruction {
    op(Opcode::Jmp, vec![Operand::Label(label)])
}

fn value(text: &str) -> Operand {
    Operand::Value(text.to_string())
}

fn prologue(name: &str) -> Vec<Instruction> {
    vec![
        op(Opcode::Global, vec![Operand::Label(Label::Function(name.to_string()))]),
        Instruction::Label(Label::Function(name.to_string())),
        op(Opcode::Push, vec![reg(Register::Rbp)]),
        mov(reg(Register::Rbp), reg(Register::Rsp)),
    ]
}

fn start_stub() -> Vec<Instruction> {
    vec![
        op(Opcode::Global, vec![Operand::Label(Label::Start)]),
        Instruction::Label(Label::Start),
        op(Opcode::Call, vec![Operand::Label(Label::Function("main".to_string()))]),
        mov(reg(Register::Rdi), reg(Register::Rax)),
        mov(reg(Register::Rax), Operand::Number(60)),
        op(Opcode::Syscall, vec![]),
    ]
}

fn ret(source: Instruction) -> Vec<Instruction> {
    vec![source, op(Opcode::Pop, vec![reg(Register::Rbp)]), op(Opcode::Ret, vec![])]
}

fn lowered(elements: Vec<Element>) -> Result<Vec<Instruction>, CompileError> {
    let mut compiler = LinuxCompiler::new("unit".to_string());
    compiler.call_for_elements(&elements)?;
    Ok(compiler.code)
}

/// A compiler that knows the variables `a` at offset 4 and `b` at offset 8,
/// and has written nothing.
fn with_a_and_b() -> LinuxCompiler {
    let mut compiler = LinuxCompiler::new("unit".to_string());
    compiler
        .call_for_elements(&vec![
            declare("a", Type::Integer, Token::Nothing),
            declare("b", Type::Integer, Token::Nothing),
        ])
        .unwrap();
    compiler.code.clear();
    compiler
}

#[test]
fn declaration_and_return_in_main() {
    let elements = vec![
        function("main", vec![]),
        open(),
        declare("a", Type::Integer, other("1")),
        Element::Return(other("a")),
        close(),
    ];
    let mut compiler = LinuxCompiler::new("unit".to_string());
    assert_eq!(compiler.compile(&elements), Ok(()));

    let mut expected = vec![Instruction::Section(Section::Text)];
    expected.extend(start_stub());
    expected.extend(prologue("main"));
    expected.push(store(4, Some(Width::Dword), value("1"), "a"));
    expected.extend(ret(mov(reg(Register::Rax), Operand::Stack(4))));
    assert_eq!(compiler.code, expected);

    let a = compiler.stacks_data.variable_stack.get(&"a".to_string()).unwrap();
    assert_eq!(a.stack_pos, 4);
    assert_eq!(compiler.stacks_data.i_variable_stack, 0);

    assert_eq!(
        assemble(&compiler.code),
        "section .text \n\
         \tglobal _start \n\
         _start: \n\
         \tcall main \n\
         \tmov rdi, rax \n\
         \tmov rax, 60 \n\
         \tsyscall \n\
         \tglobal main \n\
         main: \n\
         \tpush rbp \n\
         \tmov rbp, rsp \n\
         \tmov [rbp-4], dword 1  ; a\n\
         \tmov rax, [rbp-4] \n\
         \tpop rbp \n\
         \tret \n"
    );
}

#[test]
fn conditional_with_both_branches() {
    let mut compiler = with_a_and_b();
    let elements = vec![
        Element::Other(Token::ConditionIf),
        operation(Token::Equal, other("a"), other("b")),
        open(),
        Element::Return(other("1")),
        close(),
        Element::Other(Token::ConditionElse),
        open(),
        Element::Return(other("0")),
        close(),
    ];
    assert_eq!(compiler.call_for_elements(&elements), Ok(()));

    let mut expected = vec![
        mov(reg(Register::Rbx), Operand::Stack(4)),
        op(Opcode::Compare, vec![reg(Register::Rbx), Operand::Stack(8)]),
        Instruction::JumpIf { condition: Condition::NotEqual, target: Label::Condition(1) },
    ];
    expected.extend(ret(mov(reg(Register::Rax), value("1"))));
    expected.push(jump(Label::Condition(2)));
    expected.push(Instruction::Label(Label::Condition(1)));
    expected.extend(ret(mov(reg(Register::Rax), value("0"))));
    expected.push(Instruction::Label(Label::Condition(2)));
    assert_eq!(compiler.code, expected);

    assert_eq!(
        assemble(&compiler.code),
        "\tmov rbx, [rbp-4] \n\
         \tcmp rbx, [rbp-8] \n\
         \tjne .cond_1 \n\
         \tmov rax, 1 \n\
         \tpop rbp \n\
         \tret \n\
         \tjmp .cond_2 \n\
         .cond_1: \n\
         \tmov rax, 0 \n\
         \tpop rbp \n\
         \tret \n\
         .cond_2: \n"
    );
}

#[test]
fn fifth_parameter_is_refused() {
    let params = vec![
        variable("a", Type::Integer, Token::Nothing),
        variable("b", Type::Integer, Token::Nothing),
        variable("c", Type::Integer, Token::Nothing),
        variable("d", Type::Integer, Token::Nothing),
        variable("e", Type::Integer, Token::Nothing),
    ];
    assert_eq!(lowered(vec![function("f", params)]), Err(CompileError::Unsupported));
}

#[test]
fn four_parameters_take_the_four_registers() {
    let params = vec![
        variable("a", Type::Byte, Token::Nothing),
        variable("b", Type::Integer, Token::Nothing),
        variable("c", Type::BigInteger, Token::Nothing),
        variable("d", Type::Integer, Token::Nothing),
    ];
    let mut expected = prologue("f");
    expected.push(mov(Operand::Stack(1), reg(Register::Rcx)));
    expected.push(mov(Operand::Stack(5), reg(Register::Rdx)));
    expected.push(mov(Operand::Stack(13), reg(Register::R8)));
    expected.push(mov(Operand::Stack(17), reg(Register::R9)));
    assert_eq!(lowered(vec![function("f", params)]), Ok(expected));
}

#[test]
fn offsets_add_up_in_declaration_order() {
    let mut compiler = LinuxCompiler::new("unit".to_string());
    let elements = vec![
        declare("a", Type::Byte, other("1")),
        declare("b", Type::Integer, other("2")),
        declare("c", Type::BigInteger, other("3")),
        declare("d", Type::new_array(Type::Integer, 3), Token::Nothing),
    ];
    assert_eq!(compiler.call_for_elements(&elements), Ok(()));
    let position = |id: &str| compiler.stacks_data.variable_stack.get(&id.to_string()).unwrap().stack_pos;
    assert_eq!(position("a"), 1);
    assert_eq!(position("b"), 5);
    assert_eq!(position("c"), 13);
    assert_eq!(position("d"), 25);
    assert_eq!(compiler.stacks_data.i_variable_stack, 25);
    assert_eq!(
        compiler.code,
        vec![
            store(1, Some(Width::Byte), value("1"), "a"),
            store(5, Some(Width::Dword), value("2"), "b"),
            store(13, Some(Width::Qword), value("3"), "c"),
        ]
    );
}

#[test]
fn declaration_without_value_stores_zero() {
    assert_eq!(
        lowered(vec![declare("a", Type::Integer, Token::Nothing)]),
        Ok(vec![store(4, Some(Width::Dword), value("0"), "a")])
    );
}

#[test]
fn redeclaration_replaces_the_variable() {
    let mut compiler = LinuxCompiler::new("unit".to_string());
    let elements = vec![
        declare("a", Type::Integer, other("1")),
        declare("a", Type::BigInteger, other("2")),
        Element::Other(other("a")),
    ];
    assert_eq!(compiler.call_for_elements(&elements), Ok(()));
    assert_eq!(compiler.code[2], mov(reg(Register::Rbx), Operand::Stack(12)));
}

#[test]
fn array_literal_is_assigned_item_by_item() {
    let mut compiler = with_a_and_b();
    let elements = vec![
        declare("t", Type::new_array(Type::Integer, 3), Token::SquareBracketOpen),
        Element::Array(vec![other("7"), other("a"), other("9")]),
    ];
    assert_eq!(compiler.call_for_elements(&elements), Ok(()));
    assert_eq!(
        compiler.code,
        vec![
            store(20, Some(Width::Dword), value("7"), "t[0]"),
            mov(reg(Register::Rbx), Operand::Stack(4)),
            store(16, None, reg(Register::Rbx), "t[1]"),
            store(12, Some(Width::Dword), value("9"), "t[2]"),
        ]
    );
    assert_eq!(
        assemble(&compiler.code),
        "\tmov [rbp-20], dword 7  ; t[0]\n\
         \tmov rbx, [rbp-4] \n\
         \tmov [rbp-16], rbx  ; t[1]\n\
         \tmov [rbp-12], dword 9  ; t[2]\n"
    );
}

#[test]
fn array_item_beyond_the_frame_is_refused() {
    let elements = vec![
        declare("t", Type::new_array(Type::Integer, 1), Token::SquareBracketOpen),
        Element::Array(vec![other("7"), other("8")]),
    ];
    assert_eq!(lowered(elements), Err(CompileError::MalformedTree));
}

#[test]
fn array_items_go_down_from_the_base_whatever_the_length() {
    let mut compiler = with_a_and_b();
    let elements = vec![
        declare("t", Type::new_array(Type::Integer, 1), Token::SquareBracketOpen),
        Element::Array(vec![other("7"), other("8")]),
    ];
    assert_eq!(compiler.call_for_elements(&elements), Ok(()));
    assert_eq!(
        compiler.code,
        vec![
            store(12, Some(Width::Dword), value("7"), "t[0]"),
            store(8, Some(Width::Dword), value("8"), "t[1]"),
        ]
    );
}

#[test]
fn array_without_its_literal_is_refused() {
    let elements = vec![declare("t", Type::new_array(Type::Integer, 1), Token::SquareBracketOpen)];
    assert_eq!(lowered(elements), Err(CompileError::MalformedTree));
}

#[test]
fn comparison_alone_writes_its_outcome() {
    let mut compiler = with_a_and_b();
    assert_eq!(
        compiler.call_for_elements(&vec![operation(Token::LessThan, other("a"), other("3"))]),
        Ok(())
    );
    assert_eq!(
        compiler.code,
        vec![
            mov(reg(Register::Rbx), Operand::Stack(4)),
            op(Opcode::Compare, vec![reg(Register::Rbx), value("3")]),
            Instruction::SetIf { condition: Condition::Less, register: Register::Al },
            op(Opcode::Movzx, vec![reg(Register::Rbx), reg(Register::Al)]),
        ]
    );
    assert_eq!(
        assemble(&compiler.code),
        "\tmov rbx, [rbp-4] \n\tcmp rbx, 3 \n\tsetl al \n\tmovzx rbx, al \n"
    );
    assert_eq!(compiler.code_data.previous_operator, Some(Condition::Less));
}

#[test]
fn comparison_as_test_sets_the_flags_only() {
    let mut compiler = with_a_and_b();
    let elements = vec![
        Element::Other(Token::ConditionIf),
        open(),
        operation(Token::LessThan, other("a"), other("3")),
        close(),
    ];
    assert_eq!(compiler.call_for_elements(&elements), Ok(()));
    assert_eq!(
        compiler.code,
        vec![
            mov(reg(Register::Rbx), Operand::Stack(4)),
            op(Opcode::Compare, vec![reg(Register::Rbx), value("3")]),
            Instruction::JumpIf { condition: Condition::GreaterOrEqual, target: Label::Condition(1) },
            Instruction::Label(Label::Condition(1)),
        ]
    );
}

#[test]
fn each_comparison_jumps_on_its_inverse() {
    let cases = vec![
        (Token::Equal, Condition::NotEqual, "jne"),
        (Token::NotEqual, Condition::Equal, "je"),
        (Token::LessThan, Condition::GreaterOrEqual, "jge"),
        (Token::MoreThan, Condition::LessOrEqual, "jle"),
        (Token::LessThanOrEqual, Condition::Greater, "jg"),
        (Token::MoreThanOrEqual, Condition::Less, "jl"),
    ];
    for (operator, condition, mnemonic) in cases {
        let mut compiler = with_a_and_b();
        let elements = vec![
            Element::Other(Token::ConditionIf),
            operation(operator, other("a"), other("b")),
        ];
        assert_eq!(compiler.call_for_elements(&elements), Ok(()));
        assert_eq!(
            compiler.code[2],
            Instruction::JumpIf { condition, target: Label::Condition(1) }
        );
        assert_eq!(
            assemble(&vec![compiler.code[2].clone()]),
            format!("\t{} .cond_1 \n", mnemonic)
        );
    }
}

#[test]
fn each_comparison_sets_on_itself() {
    let cases = vec![
        (Token::Equal, "sete"),
        (Token::NotEqual, "setne"),
        (Token::LessThan, "setl"),
        (Token::MoreThan, "setg"),
        (Token::LessThanOrEqual, "setle"),
        (Token::MoreThanOrEqual, "setge"),
    ];
    for (operator, mnemonic) in cases {
        let mut compiler = with_a_and_b();
        assert_eq!(
            compiler.call_for_elements(&vec![operation(operator, other("a"), other("b"))]),
            Ok(())
        );
        assert_eq!(assemble(&vec![compiler.code[2].clone()]), format!("\t{} al \n", mnemonic));
    }
}

#[test]
fn test_without_comparison_is_refused() {
    let mut compiler = with_a_and_b();
    let elements = vec![
        Element::Other(Token::ConditionIf),
        operation(Token::Plus, other("a"), other("b")),
    ];
    assert_eq!(compiler.call_for_elements(&elements), Err(CompileError::InvalidOperator));
}

#[test]
fn conditional_without_else_is_closed_by_the_next_statement() {
    let mut compiler = with_a_and_b();
    let elements = vec![
        Element::Other(Token::ConditionIf),
        operation(Token::Equal, other("a"), other("b")),
        open(),
        operation(Token::Assign, other("a"), other("1")),
        close(),
        Element::Other(Token::NewLine),
        Element::Return(Token::Nothing),
    ];
    assert_eq!(compiler.call_for_elements(&elements), Ok(()));
    let mut expected = vec![
        mov(reg(Register::Rbx), Operand::Stack(4)),
        op(Opcode::Compare, vec![reg(Register::Rbx), Operand::Stack(8)]),
        Instruction::JumpIf { condition: Condition::NotEqual, target: Label::Condition(1) },
        store(4, Some(Width::Dword), value("1"), "a"),
        Instruction::Label(Label::Condition(1)),
    ];
    expected.extend(ret(op(Opcode::Xor, vec![reg(Register::Rax), reg(Register::Rax)])));
    assert_eq!(compiler.code, expected);
}

#[test]
fn else_without_if_is_refused() {
    assert_eq!(
        lowered(vec![Element::Other(Token::ConditionElse)]),
        Err(CompileError::MalformedTree)
    );
}

#[test]
fn loop_with_break_and_continue() {
    let mut compiler = with_a_and_b();
    let elements = vec![
        Element::Other(Token::Loop),
        operation(Token::LessThan, other("a"), other("b")),
        open(),
        Element::Other(Token::LoopContinue),
        Element::Other(Token::LoopBreak),
        close(),
    ];
    assert_eq!(compiler.call_for_elements(&elements), Ok(()));
    assert_eq!(
        compiler.code,
        vec![
            Instruction::Label(Label::LoopTest(1)),
            mov(reg(Register::Rbx), Operand::Stack(4)),
            op(Opcode::Compare, vec![reg(Register::Rbx), Operand::Stack(8)]),
            Instruction::JumpIf { condition: Condition::GreaterOrEqual, target: Label::LoopCore(1) },
            jump(Label::LoopEnd(1)),
            Instruction::Label(Label::LoopCore(1)),
            jump(Label::LoopTest(1)),
            jump(Label::LoopEnd(1)),
            jump(Label::LoopTest(1)),
            Instruction::Label(Label::LoopEnd(1)),
        ]
    );
    assert_eq!(
        assemble(&compiler.code),
        ".loop_test_1: \n\
         \tmov rbx, [rbp-4] \n\
         \tcmp rbx, [rbp-8] \n\
         \tjge .loop_core_1 \n\
         \tjmp .loop_end_1 \n\
         .loop_core_1: \n\
         \tjmp .loop_test_1 \n\
         \tjmp .loop_end_1 \n\
         \tjmp .loop_test_1 \n\
         .loop_end_1: \n"
    );
}

#[test]
fn nested_loops_break_to_the_nearest() {
    let mut compiler = with_a_and_b();
    let elements = vec![
        Element::Other(Token::Loop),
        operation(Token::LessThan, other("a"), other("b")),
        open(),
        Element::Other(Token::Loop),
        operation(Token::LessThan, other("b"), other("a")),
        open(),
        Element::Other(Token::LoopBreak),
        close(),
        Element::Other(Token::NewLine),
        Element::Other(Token::LoopBreak),
        close(),
    ];
    assert_eq!(compiler.call_for_elements(&elements), Ok(()));
    let jumps: Vec<&Instruction> = compiler
        .code
        .iter()
        .filter(|i| matches!(i, Instruction::Op { opcode: Opcode::Jmp, .. }))
        .collect();
    assert_eq!(
        jumps,
        vec![
            &jump(Label::LoopEnd(1)),
            &jump(Label::LoopEnd(2)),
            &jump(Label::LoopEnd(2)),
            &jump(Label::LoopEnd(2)),
            &jump(Label::LoopTest(2)),
            &jump(Label::LoopTest(1)),
        ]
    );
}

#[test]
fn break_outside_a_loop_is_refused() {
    assert_eq!(lowered(vec![Element::Other(Token::LoopBreak)]), Err(CompileError::MalformedTree));
    assert_eq!(
        lowered(vec![Element::Other(Token::LoopContinue)]),
        Err(CompileError::MalformedTree)
    );
}

#[test]
fn nested_conditionals_take_fresh_labels() {
    let mut compiler = with_a_and_b();
    let elements = vec![
        Element::Other(Token::ConditionIf),
        operation(Token::Equal, other("a"), other("b")),
        open(),
        Element::Other(Token::ConditionIf),
        operation(Token::LessThan, other("a"), other("b")),
        open(),
        close(),
        close(),
        Element::Other(Token::ConditionElse),
        open(),
        close(),
    ];
    assert_eq!(compiler.call_for_elements(&elements), Ok(()));
    let labels: Vec<&Instruction> =
        compiler.code.iter().filter(|i| matches!(i, Instruction::Label(_))).collect();
    assert_eq!(
        labels,
        vec![
            &Instruction::Label(Label::Condition(2)),
            &Instruction::Label(Label::Condition(1)),
            &Instruction::Label(Label::Condition(3)),
        ]
    );
    assert_eq!(compiler.code_data.n_condition, 3);
}

#[test]
fn sum_of_two_variables_is_staged() {
    let mut compiler = with_a_and_b();
    assert_eq!(
        compiler.call_for_elements(&vec![operation(Token::Plus, other("a"), other("b"))]),
        Ok(())
    );
    assert_eq!(
        compiler.code,
        vec![
            mov(reg(Register::Rdx), Operand::Stack(4)),
            mov(reg(Register::Rbx), reg(Register::Rdx)),
            op(Opcode::Add, vec![reg(Register::Rbx), Operand::Stack(8)]),
        ]
    );
}

#[test]
fn difference_of_two_variables_is_left_less_right() {
    let mut compiler = with_a_and_b();
    assert_eq!(
        compiler.call_for_elements(&vec![operation(Token::Minus, other("a"), other("b"))]),
        Ok(())
    );
    assert_eq!(
        assemble(&compiler.code),
        "\tmov rdx, [rbp-4] \n\tmov rbx, rdx \n\tsub rbx, [rbp-8] \n"
    );
}

#[test]
fn difference_with_a_literal() {
    let mut compiler = with_a_and_b();
    assert_eq!(
        compiler.call_for_elements(&vec![operation(Token::Minus, other("a"), other("2"))]),
        Ok(())
    );
    assert_eq!(
        compiler.code,
        vec![
            mov(reg(Register::Rbx), Operand::Stack(4)),
            op(Opcode::Sub, vec![reg(Register::Rbx), value("2")]),
        ]
    );
    assert_eq!(assemble(&compiler.code), "\tmov rbx, [rbp-4] \n\tsub rbx, 2 \n");
}

#[test]
fn product_and_quotient() {
    let mut compiler = with_a_and_b();
    assert_eq!(
        compiler.call_for_elements(&vec![
            operation(Token::Multiply, other("a"), other("3")),
            operation(Token::Divide, other("a"), other("b")),
        ]),
        Ok(())
    );
    assert_eq!(
        assemble(&compiler.code),
        "\tmov rax, [rbp-4] \n\
         \timul rax, 3 \n\
         \tmov rbx, rax \n\
         \tmov rax, [rbp-4] \n\
         \tmov rdx, [rbp-8] \n\
         \tidiv rax \n\
         \tmov rbx, rax \n"
    );
}

#[test]
fn subexpression_as_left_operand() {
    let mut compiler = with_a_and_b();
    let elements = vec![
        operation(Token::Plus, Token::BracketOpen, other("1")),
        open(),
        operation(Token::Multiply, other("a"), other("b")),
        close(),
        Element::Return(Token::Nothing),
    ];
    assert_eq!(compiler.call_for_elements(&elements), Ok(()));
    assert_eq!(
        assemble(&compiler.code),
        "\tmov rax, [rbp-4] \n\
         \timul rax, [rbp-8] \n\
         \tmov rbx, rax \n\
         \tmov rbx, rbx \n\
         \tadd rbx, 1 \n\
         \txor rax, rax \n\
         \tpop rbp \n\
         \tret \n"
    );
}

#[test]
fn subexpression_that_would_be_overwritten_is_refused() {
    let right = vec![operation(Token::Plus, other("1"), Token::BracketOpen), open(), close()];
    assert_eq!(lowered(right), Err(CompileError::Unsupported));
    let both = vec![
        operation(Token::Divide, Token::BracketOpen, Token::BracketOpen),
        open(),
        close(),
        open(),
        close(),
    ];
    assert_eq!(lowered(both), Err(CompileError::Unsupported));
}

#[test]
fn operation_without_operator_is_refused() {
    assert_eq!(
        lowered(vec![operation(Token::Comma, other("1"), other("2"))]),
        Err(CompileError::InvalidOperator)
    );
}

#[test]
fn unknown_identifier_is_refused() {
    assert_eq!(
        lowered(vec![Element::Return(other("nobody"))]),
        Err(CompileError::UnknownIdentifier)
    );
    assert_eq!(
        lowered(vec![operation(Token::Assign, other("nobody"), other("1"))]),
        Err(CompileError::UnknownIdentifier)
    );
}

#[test]
fn statement_without_its_expression_is_refused() {
    assert_eq!(lowered(vec![Element::Other(Token::ConditionIf)]), Err(CompileError::MalformedTree));
    assert_eq!(lowered(vec![Element::Other(Token::Loop)]), Err(CompileError::MalformedTree));
    assert_eq!(lowered(vec![Element::Return(Token::BracketOpen)]), Err(CompileError::MalformedTree));
    assert_eq!(
        lowered(vec![operation(Token::Plus, Token::BracketOpen, other("1"))]),
        Err(CompileError::MalformedTree)
    );
    assert_eq!(
        lowered(vec![operation(Token::Plus, Token::Comma, other("1"))]),
        Err(CompileError::MalformedTree)
    );
    assert_eq!(lowered(vec![Element::Other(Token::Comma)]), Err(CompileError::MalformedTree));
}

#[test]
fn else_alone_ends_the_conditional() {
    let mut compiler = with_a_and_b();
    let elements = vec![
        Element::Other(Token::ConditionIf),
        operation(Token::MoreThan, other("a"), other("b")),
        Element::Other(Token::ConditionElse),
    ];
    assert_eq!(compiler.call_for_elements(&elements), Ok(()));
    assert_eq!(
        assemble(&compiler.code),
        "\tmov rbx, [rbp-4] \n\
         \tcmp rbx, [rbp-8] \n\
         \tjle .cond_1 \n\
         \tjmp .cond_2 \n\
         .cond_1: \n\
         .cond_2: \n"
    );
}

#[test]
fn what_is_open_at_the_end_is_closed() {
    let mut compiler = with_a_and_b();
    let elements = vec![
        function("f", vec![]),
        open(),
        Element::Other(Token::Loop),
        operation(Token::Equal, other("a"), other("b")),
        close(),
    ];
    assert_eq!(compiler.call_for_elements(&elements), Ok(()));
    let last: Vec<Instruction> = compiler.code.iter().rev().take(2).rev().cloned().collect();
    assert_eq!(last, vec![jump(Label::LoopTest(1)), Instruction::Label(Label::LoopEnd(1))]);
    assert_eq!(compiler.code_data.scope.to_string(), "unit");
}

#[test]
fn unmatched_brackets_are_refused() {
    assert_eq!(lowered(vec![open()]), Err(CompileError::MalformedTree));
    assert_eq!(lowered(vec![close()]), Err(CompileError::MalformedTree));
    assert_eq!(lowered(vec![open(), open(), close()]), Err(CompileError::MalformedTree));
}

#[test]
fn nested_brackets_are_matched() {
    let mut compiler = with_a_and_b();
    let elements = vec![
        open(),
        open(),
        Element::Other(other("1")),
        close(),
        open(),
        close(),
        close(),
        Element::Other(other("2")),
    ];
    assert_eq!(compiler.call_for_elements(&elements), Ok(()));
    assert_eq!(
        compiler.code,
        vec![mov(reg(Register::Rbx), value("1")), mov(reg(Register::Rbx), value("2"))]
    );
}

#[test]
fn call_moves_the_arguments_to_their_registers() {
    let mut compiler = with_a_and_b();
    let elements = vec![
        Element::Other(other("f")),
        Element::Parameters(vec![
            Element::Other(other("a")),
            Element::Other(Token::Comma),
            Element::Other(other("5")),
            Element::Other(Token::Comma),
            open(),
            operation(Token::Plus, other("a"), other("b")),
            close(),
        ]),
    ];
    assert_eq!(compiler.call_for_elements(&elements), Ok(()));
    assert_eq!(
        assemble(&compiler.code),
        "\tmov rcx, [rbp-4] \n\
         \tmov rdx, 5 \n\
         \tmov rdx, [rbp-4] \n\
         \tmov rbx, rdx \n\
         \tadd rbx, [rbp-8] \n\
         \tmov r8, rbx \n\
         \tcall f \n\
         \tmov rbx, rax \n"
    );
}

#[test]
fn fifth_argument_is_refused() {
    let mut compiler = with_a_and_b();
    let arguments = (0..5).map(|_| Element::Other(other("1"))).collect();
    let elements = vec![Element::Other(other("f")), Element::Parameters(arguments)];
    assert_eq!(compiler.call_for_elements(&elements), Err(CompileError::Unsupported));
}

#[test]
fn call_without_arguments_element_is_refused() {
    assert_eq!(lowered(vec![Element::Other(other("f"))]), Err(CompileError::MalformedTree));
}

#[test]
fn function_is_labelled_by_its_identifier() {
    let elements = vec![
        function("outer", vec![]),
        open(),
        function("lib.inner", vec![]),
        open(),
        close(),
        close(),
        function("next", vec![]),
    ];
    let mut compiler = LinuxCompiler::new("unit".to_string());
    assert_eq!(compiler.call_for_elements(&elements), Ok(()));
    let labels: Vec<&Instruction> =
        compiler.code.iter().filter(|i| matches!(i, Instruction::Label(_))).collect();
    assert_eq!(
        labels,
        vec![
            &Instruction::Label(Label::Function("outer".to_string())),
            &Instruction::Label(Label::Function("lib.inner".to_string())),
            &Instruction::Label(Label::Function("next".to_string())),
        ]
    );
    assert_eq!(compiler.code_data.scope.to_string(), "unit");
}

#[test]
fn a_call_names_the_label_of_the_function() {
    let elements = vec![
        function("f", vec![]),
        Element::Other(other("f")),
        Element::Parameters(vec![]),
    ];
    let code = lowered(elements).unwrap();
    assert_eq!(
        assemble(&code),
        "\tglobal f \nf: \n\tpush rbp \n\tmov rbp, rsp \n\tcall f \n\tmov rbx, rax \n"
    );
}

#[test]
fn assembly_is_written_as_it_is() {
    let code = lowered(vec![Element::Assembly("mov rax, 1".to_string())]).unwrap();
    assert_eq!(code, vec![Instruction::Raw("mov rax, 1".to_string())]);
    assert_eq!(assemble(&code), "\tmov rax, 1 \n");
}

#[test]
fn assignment_from_a_subexpression() {
    let mut compiler = with_a_and_b();
    let elements = vec![
        operation(Token::Assign, other("a"), Token::BracketOpen),
        open(),
        operation(Token::Plus, other("b"), other("1")),
        close(),
    ];
    assert_eq!(compiler.call_for_elements(&elements), Ok(()));
    assert_eq!(
        assemble(&compiler.code),
        "\tmov rbx, [rbp-8] \n\tadd rbx, 1 \n\tmov [rbp-4], rbx  ; a\n"
    );
}

#[test]
fn type_without_size_is_refused() {
    assert_eq!(
        lowered(vec![declare("a", Type::from_string("matrix".to_string()), Token::Nothing)]),
        Err(CompileError::Unsupported)
    );
}

#[test]
fn frame_beyond_the_address_space_is_refused() {
    let elements = vec![
        declare("a", Type::new_array(Type::Byte, usize::MAX), Token::Nothing),
        declare("b", Type::Byte, Token::Nothing),
    ];
    assert_eq!(lowered(elements), Err(CompileError::Unsupported));
}

#[test]
fn every_register_is_written_in_small_letters() {
    let registers = vec![
        (Register::Rax, "rax"),
        (Register::Rbx, "rbx"),
        (Register::Rcx, "rcx"),
        (Register::Rdx, "rdx"),
        (Register::Rdi, "rdi"),
        (Register::Rbp, "rbp"),
        (Register::Rsp, "rsp"),
        (Register::R8, "r8"),
        (Register::R9, "r9"),
        (Register::Al, "al"),
    ];
    for (register, name) in registers {
        assert_eq!(Operand::Register(register).text(), name);
    }
}

#[test]
fn static_data_is_written_with_its_directive() {
    let code = vec![
        Instruction::Section(Section::Data),
        Instruction::Define {
            name: "greeting".to_string(),
            directive: juc::assembly::instruction::Directive::Db,
            values: vec!["`hello`".to_string(), "0".to_string()],
        },
    ];
    assert_eq!(assemble(&code), "section .data \ngreeting: db `hello`, 0 \n");
}

#[test]
fn empty_listing_is_empty_text() {
    assert_eq!(assemble(&vec![]), "");
}

use juc::assembly::instruction::{Instruction, Label, Opcode, Operand, Register, Width};
use juc::assembly::listing::assemble;
use juc::compilation::compilers::linux::{
    find_matching_close, is_close, is_open, operator_from, LinuxCompiler,
};
use juc::compilation::compilers::model::Operator;
use juc::compilation::error::CompileError;
use juc::compilation::symbols::SymbolTable;
use juc::objects::function::read_parameters;
use juc::objects::type_::Type;
use juc::objects::variable::Variable;
use juc::parsing::elements::Element;
use juc::parsing::elements::Token;

fn other(text: &str) -> Token {
    Token::Other(text.to_string())
}

fn lone(token: Token) -> Element {
    Element::Other(token)
}

fn compiler_with_a() -> LinuxCompiler {
    let mut compiler = LinuxCompiler::new("unit".to_string());
    compiler
        .call_for_elements(&vec![Element::Variable(Variable::new(
            "a".to_string(),
            Type::BigInteger,
            other("1"),
            0,
        ))])
        .unwrap();
    compiler.code.clear();
    compiler
}

#[test]
fn print_defines_the_text_and_calls_the_system() {
    let mut compiler = LinuxCompiler::new("unit".to_string());
    assert_eq!(compiler.print("\"hi\"".to_string()), Ok(()));
    assert_eq!(
        compiler.terminate_file(),
        "\tmov rdi, _string_ \n\
         \txor rcx, rcx \n\
         \tnot rcx \n\
         \txor al, al \n\
         \tcld \n\
         \trepnz scasb \n\
         \tnot rcx \n\
         \tdec rcx \n\
         \tmov rdx, rcx \n\
         \tmov rsi, _string_ \n\
         \tmov rax, 1 \n\
         \tmov rdi, rax \n\
         \tsyscall \n\
         section .data \n\
         _string_: db `hi`, 0 \n"
    );
    assert_eq!(compiler.print("x".to_string()), Err(CompileError::MalformedTree));
}

#[test]
fn exit_ends_the_process_with_a_value() {
    let mut compiler = compiler_with_a();
    assert_eq!(compiler.exit(&other("3")), Ok(()));
    assert_eq!(compiler.exit(&other("a")), Ok(()));
    assert_eq!(
        assemble(&compiler.code),
        "\tmov rax, 60 \n\tmov rdi, 3 \n\tsyscall \n\tmov rax, 60 \n\tmov rdi, [rbp-8] \n\tsyscall \n"
    );
    assert_eq!(compiler.exit(&other("b")), Err(CompileError::UnknownIdentifier));
    assert_eq!(compiler.exit(&Token::Plus), Err(CompileError::MalformedTree));
}

#[test]
fn width_stands_before_literals_only() {
    let byte = Variable::new("b".to_string(), Type::Byte, Token::Nothing, 1);
    let table = Variable::new("t".to_string(), Type::new_array(Type::Byte, 2), Token::Nothing, 2);
    assert_eq!(
        LinuxCompiler::give_type_operand_before_value(&byte, &other("1")),
        Ok(Some(Width::Byte))
    );
    assert_eq!(LinuxCompiler::give_type_operand_before_value(&byte, &other("x")), Ok(None));
    assert_eq!(
        LinuxCompiler::give_type_operand_before_value(&byte, &Token::BracketOpen),
        Ok(None)
    );
    assert_eq!(
        LinuxCompiler::give_type_operand_before_value(&table, &other("1")),
        Err(CompileError::Unsupported)
    );
}

#[test]
fn a_named_variable_is_loaded_first() {
    let mut compiler = compiler_with_a();
    assert_eq!(compiler.before_getting_value_when_id(&other("a"), Register::Rdx), Ok(true));
    assert_eq!(compiler.before_getting_value_when_id(&other("7"), Register::Rdx), Ok(false));
    assert_eq!(compiler.before_getting_value_when_id(&Token::BracketOpen, Register::Rdx), Ok(false));
    assert_eq!(
        compiler.before_getting_value_when_id(&other("b"), Register::Rdx),
        Err(CompileError::UnknownIdentifier)
    );
    assert_eq!(assemble(&compiler.code), "\tmov rdx, [rbp-8] \n");
}

#[test]
fn values_are_given_as_operands() {
    let compiler = compiler_with_a();
    assert_eq!(compiler.give_value(&other("a")), Ok(Operand::Stack(8)));
    assert_eq!(compiler.give_value(&other("1.5")), Ok(Operand::Value("1.5".to_string())));
    assert_eq!(compiler.give_value(&other("-2")), Ok(Operand::Value("-2".to_string())));
    assert_eq!(compiler.give_value(&other("'c'")), Err(CompileError::UnknownIdentifier));
    assert_eq!(compiler.give_value(&other("b")), Err(CompileError::UnknownIdentifier));
    assert_eq!(compiler.give_value(&Token::Nothing), Err(CompileError::MalformedTree));
    let a = compiler.stacks_data.variable_stack.get(&"a".to_string()).unwrap();
    assert_eq!(compiler.give_expression_for_variable(a), Operand::Stack(8));
}

#[test]
fn registers_of_the_calling_convention() {
    assert_eq!(LinuxCompiler::give_register_for_parameter(0), Ok(Register::Rcx));
    assert_eq!(LinuxCompiler::give_register_for_parameter(1), Ok(Register::Rdx));
    assert_eq!(LinuxCompiler::give_register_for_parameter(2), Ok(Register::R8));
    assert_eq!(LinuxCompiler::give_register_for_parameter(3), Ok(Register::R9));
    assert_eq!(LinuxCompiler::give_register_for_parameter(4), Err(CompileError::Unsupported));
    assert_eq!(
        LinuxCompiler::give_register_for_parameter(usize::MAX),
        Err(CompileError::Unsupported)
    );
}

#[test]
fn symbol_table_gives_the_last_declaration() {
    let mut table = SymbolTable::new();
    assert!(table.get(&"a".to_string()).is_none());
    assert!(!table.contains(&"a".to_string()));
    table.insert(Variable::new("a".to_string(), Type::Byte, Token::Nothing, 1));
    table.insert(Variable::new("b".to_string(), Type::Byte, Token::Nothing, 2));
    table.insert(Variable::new("a".to_string(), Type::Integer, Token::Nothing, 6));
    assert_eq!(table.get(&"a".to_string()).unwrap().stack_pos, 6);
    assert_eq!(table.get(&"b".to_string()).unwrap().stack_pos, 2);
    assert!(table.contains(&"b".to_string()));
    assert!(!table.contains(&"".to_string()));
}

#[test]
fn parameters_are_read_from_their_list() {
    let list = vec![
        lone(other("a")),
        lone(Token::TypeDef),
        lone(other("int")),
        lone(Token::Comma),
        lone(other("b")),
        lone(Token::TypeDef),
        lone(other("matrix")),
    ];
    assert_eq!(
        read_parameters(&list),
        Ok(vec![
            Variable::new("a".to_string(), Type::Integer, Token::Nothing, 0),
            Variable::new("b".to_string(), Type::NotNative("matrix".to_string()), Token::Nothing, 0),
        ])
    );
    assert_eq!(read_parameters(&vec![]), Ok(vec![]));
    assert_eq!(read_parameters(&vec![lone(other("a"))]), Ok(vec![]));
    assert_eq!(
        read_parameters(&vec![lone(other("a")), lone(Token::Plus)]),
        Err(CompileError::MalformedTree)
    );
    assert_eq!(
        read_parameters(&vec![Element::Return(Token::Nothing)]),
        Err(CompileError::MalformedTree)
    );
}

#[test]
fn matching_bracket_is_the_first_at_depth_zero() {
    let open = || lone(Token::BracketOpen);
    let close = || lone(Token::BracketClose);
    let x = || lone(other("x"));
    let elements = vec![open(), x(), open(), close(), x(), close(), close(), open()];
    assert!(is_open(&elements[0]));
    assert!(is_close(&elements[3]));
    assert!(!is_open(&elements[1]));
    assert_eq!(find_matching_close(&elements, 0, 8), Some(5));
    assert_eq!(find_matching_close(&elements, 2, 8), Some(3));
    assert_eq!(find_matching_close(&elements, 0, 5), None);
    assert_eq!(find_matching_close(&elements, 7, 8), None);
    assert_eq!(find_matching_close(&elements, 4, 8), Some(5));
}

#[test]
fn operators_are_told_from_their_tokens() {
    assert_eq!(operator_from(&Token::Assign), Some(Operator::Assign));
    assert_eq!(operator_from(&Token::Plus), Some(Operator::Add));
    assert_eq!(operator_from(&Token::Minus), Some(Operator::Subtract));
    assert_eq!(operator_from(&Token::Multiply), Some(Operator::Multiply));
    assert_eq!(operator_from(&Token::Divide), Some(Operator::Divide));
    assert_eq!(operator_from(&Token::TypeDef), None);
    assert_eq!(operator_from(&other("+")), None);
}

#[test]
fn labels_and_operands_are_written() {
    assert_eq!(Label::Start.text(), "_start");
    assert_eq!(Label::Function("unit.f".to_string()).text(), "unit.f");
    assert_eq!(Label::Condition(12).text(), ".cond_12");
    assert_eq!(Label::LoopTest(3).text(), ".loop_test_3");
    assert_eq!(Label::LoopCore(3).text(), ".loop_core_3");
    assert_eq!(Label::LoopEnd(usize::MAX).text(), format!(".loop_end_{}", usize::MAX));
    assert_eq!(Operand::Stack(40).text(), "[rbp-40]");
    assert_eq!(Operand::Number(60).text(), "60");
    assert_eq!(Operand::Value("'a'".to_string()).text(), "'a'");
    assert_eq!(Operand::Label(Label::Condition(1)).text(), ".cond_1");
    assert_eq!(Operand::Width(Width::Dword).text(), "dword");
    assert_eq!(
        Instruction::unary(Opcode::Push, Operand::Register(Register::Rbp)),
        Instruction::Op {
            opcode: Opcode::Push,
            operands: vec![Operand::Register(Register::Rbp)],
            comment: None
        }
    );
    assert_eq!(
        Instruction::nullary(Opcode::Ret),
        Instruction::Op { opcode: Opcode::Ret, operands: vec![], comment: None }
    );
}

#[test]
fn closing_writes_the_kept_labels() {
    let mut compiler = LinuxCompiler::new("unit".to_string());
    compiler.end_open();
    assert!(compiler.code.is_empty());
    compiler.code_data.open_condition = Some(4);
    compiler.code_data.open_loop = Some(2);
    compiler.end_open();
    assert_eq!(assemble(&compiler.code), ".cond_4: \n\tjmp .loop_test_2 \n.loop_end_2: \n");
    assert_eq!(compiler.code_data.open_condition, None);
    assert_eq!(compiler.code_data.open_loop, None);
}

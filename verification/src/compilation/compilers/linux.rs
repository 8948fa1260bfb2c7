//! The code generator for Linux: x86-64 assembly in Intel syntax.

use crate::assembly::assembler::assembly_text;
use crate::assembly::instruction::{
    Condition, Instruction, InstructionView, jump, Label, load, Opcode, Operand, OperandView,
    Register, Section, Width,
};
use crate::assembly::listing::{assemble, lines_of};
use crate::compilation::compilers::base::{is_number, KindToken};
use crate::compilation::compilers::model::{
    allocate, arithmetic, assign_array, assign_array_items, assign_items, assign_scalar,
    close_condition, close_loop, close_open, closed_before, closes, comparison, computation,
    declare_parameters, define_static, division, enter, epilogue, exited, file_end, file_listing,
    file_start, function_head, inverted, keeps_open, leave, loaded_when_named,
    lower_arguments, lower_assign, lower_assignment, lower_call, lower_element, lower_elements,
    lower_else, lower_expression, lower_file, lower_function, lower_if, lower_operation,
    lower_other, lower_return, lower_variable, Lowered, matching_close, multiplication, opens,
    operand_of, Operator, operator_of, printed, prologue, scan_close, start_stub, State,
    static_values, store, width_before,
};
use crate::compilation::data::{CompilerCodeData, CompilerStacksData};
use crate::compilation::defaults::parameter_register;
use crate::compilation::error::CompileError;
use crate::compilation::scope::Scope;
use crate::compilation::symbols::SymbolTable;
use crate::objects::function::Function;
use crate::objects::type_::Type;
use crate::objects::variable::Variable;
use crate::parsing::elements::{Element, Operation};
use crate::parsing::elements::Token;
use crate::text::{decimal, is_text};
use vstd::prelude::*;

verus! {

/// Compiles for Linux: writes assembly for `nasm`.
#[derive(Debug)]
pub struct LinuxCompiler {
    pub code_data: CompilerCodeData,
    pub stacks_data: CompilerStacksData,
    /// The instructions of the file that is being compiled.
    pub code: Vec<Instruction>,
    /// The static data of the file that is being compiled.
    pub section_data: Vec<Instruction>,
}

impl View for LinuxCompiler {
    type V = State;

    open spec fn view(&self) -> State {
        State {
            code: self.code.deep_view(),
            data: self.section_data.deep_view(),
            variables: self.stacks_data.variable_stack@,
            offset: self.stacks_data.i_variable_stack,
            scope: self.code_data.scope@,
            conditions: self.code_data.n_condition,
            open_condition: self.code_data.open_condition,
            loops: self.code_data.n_loop,
            open_loop: self.code_data.open_loop,
            enclosing_loop: self.code_data.enclosing_loop,
            previous_operator: self.code_data.previous_operator,
            in_test: self.code_data.in_test,
        }
    }
}

/// Whether the run of a handler on the state `before`, which gave `result`
/// and left the state `after`, did what `model` says: on success the same
/// state and the same place to go on from, which lies behind `at` and not
/// behind `end`; on failure the same error.
pub open spec fn agrees(
    model: Lowered,
    result: Result<usize, CompileError>,
    after: State,
    at: int,
    end: int,
) -> bool {
    match model {
        Ok((s, next)) => result == Ok::<usize, CompileError>(next as usize) && after == s && at
            < next <= end,
        Err(e) => result == Err::<usize, CompileError>(e),
    }
}

/// Whether the run of a handler that hands nothing back did what `model`
/// says.
pub open spec fn agrees_on_state(
    model: Result<State, CompileError>,
    result: Result<(), CompileError>,
    after: State,
) -> bool {
    match model {
        Ok(s) => result == Ok::<(), CompileError>(()) && after == s,
        Err(e) => result == Err::<(), CompileError>(e),
    }
}

/// Whether `element` opens a subexpression.
pub fn is_open(element: &Element) -> (b: bool)
    ensures
        b == opens(*element),
{
    match element {
        Element::Other(Token::BracketOpen) => true,
        _ => false,
    }
}

/// Whether `element` closes a subexpression.
pub fn is_close(element: &Element) -> (b: bool)
    ensures
        b == closes(*element),
{
    match element {
        Element::Other(Token::BracketClose) => true,
        _ => false,
    }
}

/// Finds the closing bracket before `end` that matches the opening bracket
/// at `open`: it scans forward and counts the brackets that open on the
/// way; the first closing bracket that meets none of them is the partner.
pub fn find_matching_close(elements: &Vec<Element>, open: usize, end: usize) -> (close: Option<
    usize,
>)
    requires
        open < end <= elements.len(),
    ensures
        match matching_close(elements@, open as int, end as int) {
            Some(c) => close == Some(c as usize) && open < c < end,
            None => close is None,
        },
{
    let mut i: usize = open + 1;
    let mut depth: usize = 0;
    while i < end
        invariant
            open < i <= end <= elements.len(),
            depth <= i,
            scan_close(elements@, i as int, end as int, depth as nat) == matching_close(
                elements@,
                open as int,
                end as int,
            ),
        decreases end - i,
    {
        if is_open(&elements[i]) {
            depth += 1;
        } else if is_close(&elements[i]) {
            if depth == 0 {
                return Some(i);
            }
            depth -= 1;
        }
        i += 1;
    }
    None
}

impl LinuxCompiler {
    /// A generator that stands at the top of the module `module` and has
    /// written nothing.
    pub fn new(module: String) -> (compiler: LinuxCompiler)
        ensures
            compiler@ == State::initial(module@),
    {
        let mut scope = Scope::new();
        scope.push(module);
        let compiler = LinuxCompiler {
            code_data: CompilerCodeData {
                scope,
                open_condition: None,
                n_condition: 0,
                open_loop: None,
                enclosing_loop: None,
                n_loop: 0,
                previous_operator: None,
                in_test: false,
            },
            stacks_data: CompilerStacksData {
                variable_stack: SymbolTable::new(),
                i_variable_stack: 0,
            },
            code: Vec::new(),
            section_data: Vec::new(),
        };
        assert(compiler@.code =~= Seq::empty());
        assert(compiler@.data =~= Seq::empty());
        assert(compiler@.scope =~= seq![module@]);
        compiler
    }

    /// Writes one instruction.
    pub fn emit(&mut self, instruction: Instruction)
        ensures
            final(self)@ == old(self)@.emit(instruction.deep_view()),
    {
        self.code.push(instruction);
        assert(self@.code =~= old(self)@.code.push(instruction.deep_view()));
    }

    /// Writes the label that ends the open conditional, if there is one.
    pub fn end_condition(&mut self)
        ensures
            final(self)@ == close_condition(old(self)@),
    {
        if let Some(n) = self.code_data.open_condition {
            self.emit(Instruction::Label(Label::Condition(n)));
            self.code_data.open_condition = None;
        }
    }

    /// Writes the end of the open loop, if there is one: the jump back to
    /// the test, and the end label.
    pub fn end_loop(&mut self)
        ensures
            final(self)@ == close_loop(old(self)@),
    {
        if let Some(n) = self.code_data.open_loop {
            self.emit(Instruction::jump(Label::LoopTest(n)));
            self.emit(Instruction::Label(Label::LoopEnd(n)));
            self.code_data.open_loop = None;
        }
    }

    /// The operand that `id_or_value` names: a literal as it is written, a
    /// variable as its slot in the frame.
    pub fn give_value(&self, id_or_value: &Token) -> (operand: Result<Operand, CompileError>)
        ensures
            match operand_of(self@.variables, *id_or_value) {
                Ok(o) => operand is Ok && operand->Ok_0.deep_view() == o,
                Err(e) => operand == Err::<Operand, CompileError>(e),
            },
    {
        match id_or_value {
            Token::Other(text) => {
                if is_number(text.as_str()) {
                    Ok(Operand::Value(text.clone()))
                } else {
                    match self.stacks_data.variable_stack.get(text) {
                        Some(variable) => Ok(self.give_expression_for_variable(variable)),
                        None => Err(CompileError::UnknownIdentifier),
                    }
                }
            },
            _ => Err(CompileError::MalformedTree),
        }
    }

    /// The slot of `variable` in the frame, as an operand.
    pub fn give_expression_for_variable(&self, variable: &Variable) -> (operand: Operand)
        ensures
            operand.deep_view() == OperandView::Stack(variable.stack_pos),
    {
        Operand::Stack(variable.stack_pos)
    }

    /// The register that carries argument number `i_parameter`. There are
    /// four of them.
    pub fn give_register_for_parameter(i_parameter: usize) -> (register: Result<
        Register,
        CompileError,
    >)
        ensures
            register == if i_parameter < 4 {
                Ok::<Register, CompileError>(parameter_register(i_parameter as int))
            } else {
                Err::<Register, CompileError>(CompileError::Unsupported)
            },
    {
        if i_parameter == 0 {
            Ok(Register::Rcx)
        } else if i_parameter == 1 {
            Ok(Register::Rdx)
        } else if i_parameter == 2 {
            Ok(Register::R8)
        } else if i_parameter == 3 {
            Ok(Register::R9)
        } else {
            Err(CompileError::Unsupported)
        }
    }

    /// The condition on which the jump of a test is taken: the inverse of
    /// the comparison that the test has made.
    pub fn give_mnemonic_for_previous_operator(&self) -> (condition: Result<
        Condition,
        CompileError,
    >)
        ensures
            condition == match self@.previous_operator {
                Some(c) => Ok::<Condition, CompileError>(inverted(c)),
                None => Err::<Condition, CompileError>(CompileError::InvalidOperator),
            },
    {
        match self.code_data.previous_operator {
            Some(Condition::Equal) => Ok(Condition::NotEqual),
            Some(Condition::NotEqual) => Ok(Condition::Equal),
            Some(Condition::Less) => Ok(Condition::GreaterOrEqual),
            Some(Condition::Greater) => Ok(Condition::LessOrEqual),
            Some(Condition::LessOrEqual) => Ok(Condition::Greater),
            Some(Condition::GreaterOrEqual) => Ok(Condition::Less),
            None => Err(CompileError::InvalidOperator),
        }
    }

    /// Writes the move that stores `source` to the slot at `offset`, with
    /// `name` as its comment.
    fn emit_store(&mut self, offset: usize, width: Option<Width>, source: Operand, name: String)
        ensures
            final(self)@ == old(self)@.emit(store(offset, width, source.deep_view(), name@)),
    {
        let mut operands: Vec<Operand> = Vec::new();
        operands.push(Operand::Stack(offset));
        if let Some(w) = width {
            operands.push(Operand::Width(w));
        }
        operands.push(source);
        let instruction = Instruction::Op { opcode: Opcode::Mov, operands, comment: Some(name) };
        assert(instruction.deep_view()->Op_operands =~= store(
            offset,
            width,
            source.deep_view(),
            name@,
        )->Op_operands);
        self.emit(instruction);
    }

    /// Assigns the value of the scalar `variable` to its slot: a literal
    /// is stored at once, under the width of the type; a variable goes
    /// through the expression register.
    pub fn assign_value(&mut self, variable: &Variable) -> (result: Result<(), CompileError>)
        ensures
            agrees_on_state(
                assign_scalar(
                    old(self)@,
                    variable.stack_pos,
                    variable.type_,
                    variable.current_value,
                    variable.id@,
                ),
                result,
                final(self)@,
            ),
    {
        match &variable.current_value {
            Token::Other(text) => {
                let width = match LinuxCompiler::give_type_operand_before_value(
                    variable,
                    &variable.current_value,
                ) {
                    Ok(width) => width,
                    Err(e) => {
                        return Err(e);
                    },
                };
                let is_identifier = match self.before_getting_value_when_id(
                    &variable.current_value,
                    Register::Rbx,
                ) {
                    Ok(is_identifier) => is_identifier,
                    Err(e) => {
                        return Err(e);
                    },
                };
                let source = if is_identifier {
                    Operand::Register(Register::Rbx)
                } else {
                    Operand::Value(text.clone())
                };
                self.emit_store(variable.stack_pos, width, source, variable.id.clone());
                Ok(())
            },
            _ => Err(CompileError::MalformedTree),
        }
    }

    /// Assigns the values of `values` from index `from` on to the items of
    /// the array `id`, whose first item lies at `base` and whose items take
    /// `size` bytes each.
    fn assign_items(
        &mut self,
        values: &Vec<Token>,
        from: usize,
        base: usize,
        size: usize,
        element: &Type,
        id: &String,
    ) -> (result: Result<(), CompileError>)
        requires
            from <= values.len(),
        ensures
            agrees_on_state(
                assign_items(
                    old(self)@,
                    values@,
                    from as int,
                    base,
                    size as nat,
                    *element,
                    id@,
                ),
                result,
                final(self)@,
            ),
    {
        let mut i: usize = from;
        while i < values.len()
            invariant
                from <= i <= values.len(),
                assign_items(old(self)@, values@, from as int, base, size as nat, *element, id@)
                    == assign_items(self@, values@, i as int, base, size as nat, *element, id@),
            decreases values.len() - i,
        {
            let distance = match size.checked_mul(i) {
                Some(d) => d,
                None => {
                    assert(size * i >= base) by (nonlinear_arith)
                        requires
                            size * i > usize::MAX,
                            base <= usize::MAX,
                    ;
                    return Err(CompileError::MalformedTree);
                },
            };
            if distance >= base {
                return Err(CompileError::MalformedTree);
            }
            let mut name = id.clone();
            name.append("[");
            name.append(decimal(i).as_str());
            name.append("]");
            let item = Variable::new(name, element.clone(), values[i].clone(), base - distance);
            match self.assign_value(&item) {
                Ok(()) => {},
                Err(e) => {
                    return Err(e);
                },
            }
            i += 1;
        }
        Ok(())
    }

    /// Assigns the array literal `values` to the array `array_variable`:
    /// item `i` is stored `i` element sizes above the base of the array.
    pub fn assign_array_variable(&mut self, array_variable: &Variable, values: &Vec<Token>) -> (result:
        Result<(), CompileError>)
        ensures
            agrees_on_state(
                assign_array(old(self)@, *array_variable, values@),
                result,
                final(self)@,
            ),
    {
        match &array_variable.type_ {
            Type::Array(element, _) => self.assign_sized_items(array_variable, element, values),
            Type::StaticArray(element) => self.assign_sized_items(array_variable, element, values),
            _ => Err(CompileError::MalformedTree),
        }
    }

    /// Assigns `values` to the items of `array_variable`, which are of type
    /// `element`.
    fn assign_sized_items(&mut self, array_variable: &Variable, element: &Type, values: &Vec<Token>) -> (result:
        Result<(), CompileError>)
        ensures
            agrees_on_state(
                assign_array_items(old(self)@, *array_variable, *element, values@),
                result,
                final(self)@,
            ),
    {
        match element.checked_size() {
            Some(size) => self.assign_items(
                values,
                0,
                array_variable.stack_pos,
                size,
                element,
                &array_variable.id,
            ),
            None => Err(CompileError::Unsupported),
        }
    }
}

impl LinuxCompiler {
    /// Writes the text that the source gave as assembly.
    pub fn at_assembly(&mut self, code: &String)
        ensures
            final(self)@ == old(self)@.emit(InstructionView::Raw(code@)),
    {
        self.emit(Instruction::Raw(code.clone()));
    }

    /// Writes a sum or a difference of `a` and `b` into the expression
    /// register: the left operand is moved there, and the right one is
    /// added to it or taken from it. Where both are variables, the left one
    /// is loaded into the second register first.
    pub fn do_arithmetic_operation(&mut self, opcode: Opcode, staged: bool, a: Operand, b: Operand)
        ensures
            final(self)@ == arithmetic(old(self)@, opcode, staged, a.deep_view(), b.deep_view()),
    {
        if staged {
            self.emit(Instruction::load(Register::Rdx, a));
            self.emit(Instruction::load(Register::Rbx, Operand::Register(Register::Rdx)));
            self.emit(Instruction::binary(opcode, Operand::Register(Register::Rbx), b));
        } else {
            self.emit(Instruction::load(Register::Rbx, a));
            self.emit(Instruction::binary(opcode, Operand::Register(Register::Rbx), b));
        }
    }

    /// Writes the sum of `a` and `b`.
    pub fn at_addition(&mut self, staged: bool, a: Operand, b: Operand)
        ensures
            final(self)@ == arithmetic(
                old(self)@,
                Opcode::Add,
                staged,
                a.deep_view(),
                b.deep_view(),
            ),
    {
        self.do_arithmetic_operation(Opcode::Add, staged, a, b);
    }

    /// Writes the difference of `a` and `b`.
    pub fn at_subtraction(&mut self, staged: bool, a: Operand, b: Operand)
        ensures
            final(self)@ == arithmetic(
                old(self)@,
                Opcode::Sub,
                staged,
                a.deep_view(),
                b.deep_view(),
            ),
    {
        self.do_arithmetic_operation(Opcode::Sub, staged, a, b);
    }

    /// Writes the product of `a` and `b`: it is computed in the
    /// accumulator and copied to the expression register.
    pub fn at_multiply(&mut self, a: Operand, b: Operand)
        ensures
            final(self)@ == multiplication(old(self)@, a.deep_view(), b.deep_view()),
    {
        self.emit(Instruction::load(Register::Rax, a));
        self.emit(Instruction::binary(Opcode::Imul, Operand::Register(Register::Rax), b));
        self.emit(Instruction::load(Register::Rbx, Operand::Register(Register::Rax)));
    }

    /// Writes the quotient of `a` and `b`: `a` goes to the accumulator,
    /// `b` to the remainder register, and the quotient is copied to the
    /// expression register.
    pub fn at_divide(&mut self, a: Operand, b: Operand)
        ensures
            final(self)@ == division(old(self)@, a.deep_view(), b.deep_view()),
    {
        self.emit(Instruction::load(Register::Rax, a));
        self.emit(Instruction::load(Register::Rdx, b));
        self.emit(Instruction::unary(Opcode::Idiv, Operand::Register(Register::Rax)));
        self.emit(Instruction::load(Register::Rbx, Operand::Register(Register::Rax)));
    }

    /// Writes the comparison of `a` and `b`, and records its operator. In
    /// the test of a conditional or a loop only the flags are set; else
    /// the outcome is written to the expression register as 0 or 1.
    pub fn at_comparison(&mut self, condition: Condition, a: Operand, b: Operand)
        ensures
            final(self)@ == comparison(old(self)@, condition, a.deep_view(), b.deep_view()),
    {
        self.emit(Instruction::load(Register::Rbx, a));
        self.emit(Instruction::binary(Opcode::Compare, Operand::Register(Register::Rbx), b));
        self.code_data.previous_operator = Some(condition);
        if !self.code_data.in_test {
            self.emit(Instruction::SetIf { condition, register: Register::Al });
            self.emit(
                Instruction::binary(
                    Opcode::Movzx,
                    Operand::Register(Register::Rbx),
                    Operand::Register(Register::Al),
                ),
            );
        }
    }

    /// Writes what `operator` computes of `a` and `b`.
    fn compute(&mut self, operator: Operator, staged: bool, a: Operand, b: Operand)
        ensures
            final(self)@ == computation(
                old(self)@,
                operator,
                staged,
                a.deep_view(),
                b.deep_view(),
            ),
    {
        match operator {
            Operator::Add => self.at_addition(staged, a, b),
            Operator::Subtract => self.at_subtraction(staged, a, b),
            Operator::Multiply => self.at_multiply(a, b),
            Operator::Divide => self.at_divide(a, b),
            Operator::Compare(condition) => self.at_comparison(condition, a, b),
            Operator::Assign => {},
        }
    }

    /// Copies `value` to the expression register.
    pub fn update_return_register(&mut self, value: Operand)
        ensures
            final(self)@ == old(self)@.emit(load(Register::Rbx, value.deep_view())),
    {
        self.emit(Instruction::load(Register::Rbx, value));
    }

    /// Writes the stub at which the process starts: it calls the entry
    /// point and ends the process with what that returns.
    pub fn create_start_function(&mut self)
        ensures
            final(self)@ == start_stub(old(self)@),
    {
        self.emit(Instruction::unary(Opcode::Global, Operand::Label(Label::Start)));
        self.emit(Instruction::Label(Label::Start));
        self.emit(
            Instruction::unary(
                Opcode::Call,
                Operand::Label(Label::Function(String::from_str("main"))),
            ),
        );
        self.emit(Instruction::load(Register::Rdi, Operand::Register(Register::Rax)));
        self.emit(Instruction::load(Register::Rax, Operand::Number(60)));
        self.emit(Instruction::nullary(Opcode::Syscall));
    }

    /// Writes the head of the function labelled `name`: the label, and the
    /// prologue that saves the frame pointer and sets up the new frame.
    fn emit_prologue(&mut self, name: String)
        ensures
            final(self)@ == prologue(old(self)@, name@),
    {
        self.emit(
            Instruction::unary(Opcode::Global, Operand::Label(Label::Function(name.clone()))),
        );
        self.emit(Instruction::Label(Label::Function(name)));
        self.emit(Instruction::unary(Opcode::Push, Operand::Register(Register::Rbp)));
        self.emit(
            Instruction::binary(
                Opcode::Mov,
                Operand::Register(Register::Rbp),
                Operand::Register(Register::Rsp),
            ),
        );
        self.stacks_data.i_variable_stack = 0;
    }

    /// Writes the epilogue: the frame pointer of the caller is restored and
    /// the function returns.
    fn emit_epilogue(&mut self)
        ensures
            final(self)@ == epilogue(old(self)@),
    {
        self.emit(Instruction::unary(Opcode::Pop, Operand::Register(Register::Rbp)));
        self.emit(Instruction::nullary(Opcode::Ret));
        self.stacks_data.i_variable_stack = 0;
    }

    /// Gives `variable` the next slot of the frame and enters it under its
    /// name.
    fn allocate(&mut self, variable: &Variable) -> (result: Result<(), CompileError>)
        ensures
            agrees_on_state(allocate(old(self)@, *variable), result, final(self)@),
    {
        let size = match variable.type_.checked_size() {
            Some(size) => size,
            None => {
                return Err(CompileError::Unsupported);
            },
        };
        let position = match self.stacks_data.i_variable_stack.checked_add(size) {
            Some(position) => position,
            None => {
                return Err(CompileError::Unsupported);
            },
        };
        let mut placed = variable.clone();
        placed.set_stack_pos(position);
        self.stacks_data.i_variable_stack = position;
        self.stacks_data.variable_stack.insert(placed);
        Ok(())
    }

    /// Declares the parameters of a function: each gets the next slot, and
    /// the register that carries it is stored there.
    fn declare_parameters(&mut self, params: &Vec<Variable>) -> (result: Result<(), CompileError>)
        ensures
            agrees_on_state(declare_parameters(old(self)@, params@, 0), result, final(self)@),
    {
        let mut i: usize = 0;
        while i < params.len()
            invariant
                i <= params.len(),
                declare_parameters(old(self)@, params@, 0) == declare_parameters(
                    self@,
                    params@,
                    i as int,
                ),
            decreases params.len() - i,
        {
            let register = match LinuxCompiler::give_register_for_parameter(i) {
                Ok(register) => register,
                Err(e) => {
                    return Err(e);
                },
            };
            match self.allocate(&params[i]) {
                Ok(()) => {},
                Err(e) => {
                    return Err(e);
                },
            }
            let slot = Operand::Stack(self.stacks_data.i_variable_stack);
            self.emit(Instruction::binary(Opcode::Mov, slot, Operand::Register(register)));
            i += 1;
        }
        Ok(())
    }

    /// Writes the head of `function`: the start stub if it is the entry
    /// point, the label, which is the identifier of the function, the
    /// prologue, and the parameters.
    fn function_head(&mut self, function: &Function) -> (result: Result<(), CompileError>)
        ensures
            agrees_on_state(function_head(old(self)@, *function), result, final(self)@),
    {
        if is_text(&function.id, "main") {
            self.create_start_function();
        }
        self.emit_prologue(function.id.clone());
        self.declare_parameters(&function.params)
    }
}

/// The operator that `token` asks for.
pub fn operator_from(token: &Token) -> (operator: Option<Operator>)
    ensures
        operator == operator_of(*token),
{
    match token {
        Token::Assign => Some(Operator::Assign),
        Token::Plus => Some(Operator::Add),
        Token::Minus => Some(Operator::Subtract),
        Token::Multiply => Some(Operator::Multiply),
        Token::Divide => Some(Operator::Divide),
        Token::Equal => Some(Operator::Compare(Condition::Equal)),
        Token::NotEqual => Some(Operator::Compare(Condition::NotEqual)),
        Token::LessThan => Some(Operator::Compare(Condition::Less)),
        Token::MoreThan => Some(Operator::Compare(Condition::Greater)),
        Token::LessThanOrEqual => Some(Operator::Compare(Condition::LessOrEqual)),
        Token::MoreThanOrEqual => Some(Operator::Compare(Condition::GreaterOrEqual)),
        _ => None,
    }
}

/// Whether `token` stands for the expression that follows.
fn is_expression(token: &Token) -> (b: bool)
    ensures
        b == (*token is BracketOpen),
{
    match token {
        Token::BracketOpen => true,
        _ => false,
    }
}

/// Whether `element` leaves open what is open.
fn is_kept_open_by(element: &Element) -> (b: bool)
    ensures
        b == keeps_open(*element),
{
    match element {
        Element::Other(Token::NewLine) => true,
        Element::Other(Token::BracketOpen) => true,
        Element::Operation(_) => true,
        _ => false,
    }
}

/// What was open around a nested expression.
pub struct Around {
    pub open_condition: Option<usize>,
    pub open_loop: Option<usize>,
    pub enclosing_loop: Option<usize>,
    pub in_test: bool,
}

impl LinuxCompiler {
    /// Closes what is open at this level, the conditional first.
    pub fn end_open(&mut self)
        ensures
            final(self)@ == close_open(old(self)@),
    {
        self.end_condition();
        self.end_loop();
    }

    /// Closes what is open unless `element` keeps it open or continues it.
    fn end_before(&mut self, element: &Element)
        ensures
            final(self)@ == closed_before(old(self)@, *element),
    {
        if is_kept_open_by(element) {
            return ;
        }
        let is_else = match element {
            Element::Other(Token::ConditionElse) => true,
            _ => false,
        };
        if !is_else {
            self.end_condition();
        }
        let continues_loop = match element {
            Element::Other(Token::LoopBreak) => true,
            Element::Other(Token::LoopContinue) => true,
            _ => false,
        };
        if !continues_loop {
            self.end_loop();
        }
    }

    /// Starts a nested expression: nothing is open in it.
    fn enter(&mut self, as_test: bool) -> (around: Around)
        ensures
            final(self)@ == enter(old(self)@, as_test),
            around.open_condition == old(self)@.open_condition,
            around.open_loop == old(self)@.open_loop,
            around.enclosing_loop == old(self)@.enclosing_loop,
            around.in_test == old(self)@.in_test,
    {
        let around = Around {
            open_condition: self.code_data.open_condition,
            open_loop: self.code_data.open_loop,
            enclosing_loop: self.code_data.enclosing_loop,
            in_test: self.code_data.in_test,
        };
        if self.code_data.open_loop.is_some() {
            self.code_data.enclosing_loop = self.code_data.open_loop;
        }
        self.code_data.open_condition = None;
        self.code_data.open_loop = None;
        self.code_data.in_test = as_test;
        around
    }

    /// Ends a nested expression: what was open around it is open again.
    fn leave(&mut self, around: Around)
        ensures
            final(self)@ == (State {
                open_condition: around.open_condition,
                open_loop: around.open_loop,
                enclosing_loop: around.enclosing_loop,
                in_test: around.in_test,
                ..old(self)@
            }),
    {
        self.code_data.open_condition = around.open_condition;
        self.code_data.open_loop = around.open_loop;
        self.code_data.enclosing_loop = around.enclosing_loop;
        self.code_data.in_test = around.in_test;
    }

    /// Walks `elements[start..end]`, lowering each element in turn. An
    /// element that has taken some of its followers hands back the place
    /// behind them, and the walk goes on there. What is still open at the
    /// end of the range is closed.
    pub fn call_for_range(&mut self, elements: &Vec<Element>, start: usize, end: usize) -> (result:
        Result<(), CompileError>)
        requires
            start <= end <= elements.len(),
        ensures
            agrees_on_state(
                lower_elements(old(self)@, elements@, start as int, end as int),
                result,
                final(self)@,
            ),
        decreases elements@, end - start, 9int,
    {
        if start >= end {
            self.end_open();
            return Ok(());
        }
        match self.check_element(elements, start, end) {
            Ok(next) => self.call_for_range(elements, next, end),
            Err(e) => Err(e),
        }
    }

    /// Walks the whole of `elements`.
    pub fn call_for_elements(&mut self, elements: &Vec<Element>) -> (result: Result<
        (),
        CompileError,
    >)
        ensures
            agrees_on_state(
                lower_elements(old(self)@, elements@, 0, elements@.len() as int),
                result,
                final(self)@,
            ),
    {
        self.call_for_range(elements, 0, elements.len())
    }

    /// Lowers the expression that starts at `at`, with nothing open around
    /// it: the elements up to the bracket that matches the one at `at`, or
    /// else the one element at `at`. Hands back the place behind the
    /// expression.
    pub fn execute_next_expression(
        &mut self,
        elements: &Vec<Element>,
        at: usize,
        end: usize,
        as_test: bool,
    ) -> (result: Result<usize, CompileError>)
        requires
            at <= end <= elements.len(),
        ensures
            agrees(
                lower_expression(old(self)@, elements@, at as int, end as int, as_test),
                result,
                final(self)@,
                at as int,
                end as int,
            ),
        decreases elements@, end - at, 8int,
    {
        if at >= end {
            return Err(CompileError::MalformedTree);
        }
        if is_open(&elements[at]) {
            let close = match find_matching_close(elements, at, end) {
                Some(close) => close,
                None => {
                    return Err(CompileError::MalformedTree);
                },
            };
            let around = self.enter(as_test);
            match self.call_for_range(elements, at + 1, close) {
                Ok(()) => {},
                Err(e) => {
                    return Err(e);
                },
            }
            self.leave(around);
            Ok(close + 1)
        } else {
            let around = self.enter(as_test);
            let next = match self.check_element(elements, at, end) {
                Ok(next) => next,
                Err(e) => {
                    return Err(e);
                },
            };
            self.end_open();
            self.leave(around);
            Ok(next)
        }
    }

    /// Lowers the element at `at`, by its kind. What is open is closed
    /// first, unless the element keeps it open or continues it.
    pub fn check_element(&mut self, elements: &Vec<Element>, at: usize, end: usize) -> (result:
        Result<usize, CompileError>)
        requires
            at < end <= elements.len(),
        ensures
            agrees(
                lower_element(old(self)@, elements@, at as int, end as int),
                result,
                final(self)@,
                at as int,
                end as int,
            ),
        decreases elements@, end - at, 7int,
    {
        self.end_before(&elements[at]);
        match &elements[at] {
            Element::Array(_) => Ok(at + 1),
            Element::Parameters(_) => Ok(at + 1),
            Element::Assembly(code) => {
                self.at_assembly(code);
                Ok(at + 1)
            },
            Element::Function(function) => self.at_function(elements, at, end, function),
            Element::Operation(operation) => self.at_operation(elements, at, end, operation),
            Element::Return(value) => self.at_return(elements, at, end, value),
            Element::Variable(variable) => self.at_variable(elements, at, end, variable),
            Element::Other(token) => self.at_other(elements, at, end, token),
        }
    }

    /// Lowers the function at `at`: the head, and the body where one
    /// follows between brackets. The body is lowered inside the scope of
    /// the function.
    pub fn at_function(
        &mut self,
        elements: &Vec<Element>,
        at: usize,
        end: usize,
        function: &Function,
    ) -> (result: Result<usize, CompileError>)
        requires
            at < end <= elements.len(),
        ensures
            agrees(
                lower_function(old(self)@, elements@, at as int, end as int, *function),
                result,
                final(self)@,
                at as int,
                end as int,
            ),
        decreases elements@, end - at, 6int,
    {
        match self.function_head(function) {
            Ok(()) => {},
            Err(e) => {
                return Err(e);
            },
        }
        if at + 1 < end && is_open(&elements[at + 1]) {
            let close = match find_matching_close(elements, at + 1, end) {
                Some(close) => close,
                None => {
                    return Err(CompileError::MalformedTree);
                },
            };
            let outside = self.code_data.scope.clone();
            self.code_data.scope.push(function.id.clone());
            let around = self.enter(false);
            match self.call_for_range(elements, at + 2, close) {
                Ok(()) => {},
                Err(e) => {
                    return Err(e);
                },
            }
            self.leave(around);
            self.code_data.scope = outside;
            Ok(close + 1)
        } else {
            Ok(at + 1)
        }
    }

    /// Assigns the value of `variable` to its slot. An array takes its
    /// values from the array literal that follows; an expression is
    /// lowered first and its result stored; no value writes nothing.
    pub fn assign_variable(
        &mut self,
        elements: &Vec<Element>,
        at: usize,
        end: usize,
        variable: &Variable,
    ) -> (result: Result<usize, CompileError>)
        requires
            at < end <= elements.len(),
        ensures
            agrees(
                lower_assignment(old(self)@, elements@, at as int, end as int, *variable),
                result,
                final(self)@,
                at as int,
                end as int,
            ),
        decreases elements@, end - at, 4int,
    {
        match &variable.current_value {
            Token::SquareBracketOpen => {
                if at + 1 < end {
                    match &elements[at + 1] {
                        Element::Array(values) => match self.assign_array_variable(
                            variable,
                            values,
                        ) {
                            Ok(()) => Ok(at + 1),
                            Err(e) => Err(e),
                        },
                        _ => Err(CompileError::MalformedTree),
                    }
                } else {
                    Err(CompileError::MalformedTree)
                }
            },
            Token::Nothing => Ok(at + 1),
            Token::BracketOpen => {
                let next = match self.execute_next_expression(elements, at + 1, end, false) {
                    Ok(next) => next,
                    Err(e) => {
                        return Err(e);
                    },
                };
                self.emit_store(
                    variable.stack_pos,
                    None,
                    Operand::Register(Register::Rbx),
                    variable.id.clone(),
                );
                Ok(next)
            },
            _ => match self.assign_value(variable) {
                Ok(()) => Ok(at + 1),
                Err(e) => Err(e),
            },
        }
    }

    /// Lowers the declaration at `at`: the variable gets the next slot of
    /// the frame and is entered under its name, then its value is
    /// assigned. A scalar that is given no value is set to zero.
    pub fn at_variable(
        &mut self,
        elements: &Vec<Element>,
        at: usize,
        end: usize,
        variable: &Variable,
    ) -> (result: Result<usize, CompileError>)
        requires
            at < end <= elements.len(),
        ensures
            agrees(
                lower_variable(old(self)@, elements@, at as int, end as int, *variable),
                result,
                final(self)@,
                at as int,
                end as int,
            ),
        decreases elements@, end - at, 6int,
    {
        match self.allocate(variable) {
            Ok(()) => {},
            Err(e) => {
                return Err(e);
            },
        }
        let position = self.stacks_data.i_variable_stack;
        match &variable.current_value {
            Token::Nothing => {
                match variable.type_.width() {
                    Some(w) => {
                        self.emit_store(
                            position,
                            Some(w),
                            Operand::Value(String::from_str("0")),
                            variable.id.clone(),
                        );
                    },
                    None => {},
                }
                Ok(at + 1)
            },
            _ => {
                let mut placed = variable.clone();
                placed.set_stack_pos(position);
                self.assign_variable(elements, at, end, &placed)
            },
        }
    }

    /// Lowers the return at `at`: the value goes to the register in which
    /// a function hands back its result, zero where none is given, and the
    /// frame is given up.
    pub fn at_return(&mut self, elements: &Vec<Element>, at: usize, end: usize, value: &Token) -> (result:
        Result<usize, CompileError>)
        requires
            at < end <= elements.len(),
        ensures
            agrees(
                lower_return(old(self)@, elements@, at as int, end as int, *value),
                result,
                final(self)@,
                at as int,
                end as int,
            ),
        decreases elements@, end - at, 6int,
    {
        match value {
            Token::Nothing => {
                self.emit(
                    Instruction::binary(
                        Opcode::Xor,
                        Operand::Register(Register::Rax),
                        Operand::Register(Register::Rax),
                    ),
                );
                self.emit_epilogue();
                Ok(at + 1)
            },
            Token::BracketOpen => {
                let next = match self.execute_next_expression(elements, at + 1, end, false) {
                    Ok(next) => next,
                    Err(e) => {
                        return Err(e);
                    },
                };
                self.emit(Instruction::load(Register::Rax, Operand::Register(Register::Rbx)));
                self.emit_epilogue();
                Ok(next)
            },
            _ => {
                let operand = match self.give_value(value) {
                    Ok(operand) => operand,
                    Err(e) => {
                        return Err(e);
                    },
                };
                self.emit(Instruction::load(Register::Rax, operand));
                self.emit_epilogue();
                Ok(at + 1)
            },
        }
    }

    /// Lowers the assignment at `at`: the variable named on the left is
    /// given the value on the right.
    pub fn at_assign(
        &mut self,
        elements: &Vec<Element>,
        at: usize,
        end: usize,
        operation: &Operation,
    ) -> (result: Result<usize, CompileError>)
        requires
            at < end <= elements.len(),
        ensures
            agrees(
                lower_assign(old(self)@, elements@, at as int, end as int, *operation),
                result,
                final(self)@,
                at as int,
                end as int,
            ),
        decreases elements@, end - at, 5int,
    {
        match &operation.arg1 {
            Token::Other(name) => {
                let mut variable_to_assign = match self.stacks_data.variable_stack.get(name) {
                    Some(variable) => variable.clone(),
                    None => {
                        return Err(CompileError::UnknownIdentifier);
                    },
                };
                variable_to_assign.set_current_value(operation.arg2.clone());
                self.assign_variable(elements, at, end, &variable_to_assign)
            },
            _ => Err(CompileError::MalformedTree),
        }
    }

    /// Lowers the operation at `at`. An operand that is a subexpression is
    /// lowered first, from the elements that follow, and read from the
    /// expression register.
    pub fn at_operation(
        &mut self,
        elements: &Vec<Element>,
        at: usize,
        end: usize,
        operation: &Operation,
    ) -> (result: Result<usize, CompileError>)
        requires
            at < end <= elements.len(),
        ensures
            agrees(
                lower_operation(old(self)@, elements@, at as int, end as int, *operation),
                result,
                final(self)@,
                at as int,
                end as int,
            ),
        decreases elements@, end - at, 6int,
    {
        let operator = match operator_from(&operation.operator) {
            Some(operator) => operator,
            None => {
                return Err(CompileError::InvalidOperator);
            },
        };
        let left = is_expression(&operation.arg1);
        let right = is_expression(&operation.arg2);
        match operator {
            Operator::Assign => {
                return self.at_assign(elements, at, end, operation);
            },
            Operator::Multiply | Operator::Divide => {
                if left && right {
                    return Err(CompileError::Unsupported);
                }
            },
            _ => {
                if right {
                    return Err(CompileError::Unsupported);
                }
            },
        }
        if left {
            let next = match self.execute_next_expression(elements, at + 1, end, false) {
                Ok(next) => next,
                Err(e) => {
                    return Err(e);
                },
            };
            let b = match self.give_value(&operation.arg2) {
                Ok(b) => b,
                Err(e) => {
                    return Err(e);
                },
            };
            self.compute(operator, false, Operand::Register(Register::Rbx), b);
            Ok(next)
        } else {
            let a = match self.give_value(&operation.arg1) {
                Ok(a) => a,
                Err(e) => {
                    return Err(e);
                },
            };
            if right {
                let next = match self.execute_next_expression(elements, at + 1, end, false) {
                    Ok(next) => next,
                    Err(e) => {
                        return Err(e);
                    },
                };
                self.compute(operator, false, a, Operand::Register(Register::Rbx));
                Ok(next)
            } else {
                let b = match self.give_value(&operation.arg2) {
                    Ok(b) => b,
                    Err(e) => {
                        return Err(e);
                    },
                };
                let staged = match KindToken::from_token(&operation.arg1) {
                    KindToken::Identifier => match KindToken::from_token(&operation.arg2) {
                        KindToken::Identifier => true,
                        _ => false,
                    },
                    _ => false,
                };
                self.compute(operator, staged, a, b);
                Ok(at + 1)
            }
        }
    }

    /// Lowers `if` and `else`. An `if` takes the next label number, lowers
    /// its test and jumps past the body on the inverted comparison. An
    /// `else` jumps from the end of the first branch to a new label, writes
    /// the label of the conditional, lowers the second branch and ends the
    /// conditional with the new label.
    pub fn at_condition(
        &mut self,
        elements: &Vec<Element>,
        at: usize,
        end: usize,
        condition: &Token,
    ) -> (result: Result<usize, CompileError>)
        requires
            at < end <= elements.len(),
            *condition is ConditionIf || *condition is ConditionElse,
        ensures
            agrees(
                if *condition is ConditionIf {
                    lower_if(old(self)@, elements@, at as int, end as int)
                } else {
                    lower_else(old(self)@, elements@, at as int, end as int)
                },
                result,
                final(self)@,
                at as int,
                end as int,
            ),
        decreases elements@, end - at, 5int,
    {
        match condition {
            Token::ConditionIf => {
                if self.code_data.n_condition == usize::MAX {
                    return Err(CompileError::Unsupported);
                }
                let n = self.code_data.n_condition + 1;
                self.code_data.n_condition = n;
                self.code_data.open_condition = Some(n);
                self.code_data.previous_operator = None;
                let next = match self.execute_next_expression(elements, at + 1, end, true) {
                    Ok(next) => next,
                    Err(e) => {
                        return Err(e);
                    },
                };
                let jump_on = match self.give_mnemonic_for_previous_operator() {
                    Ok(jump_on) => jump_on,
                    Err(e) => {
                        return Err(e);
                    },
                };
                self.emit(Instruction::JumpIf { condition: jump_on, target: Label::Condition(n) });
                Ok(next)
            },
            _ => {
                let n = match self.code_data.open_condition {
                    Some(n) => n,
                    None => {
                        return Err(CompileError::MalformedTree);
                    },
                };
                if self.code_data.n_condition == usize::MAX {
                    return Err(CompileError::Unsupported);
                }
                let m = self.code_data.n_condition + 1;
                self.emit(Instruction::jump(Label::Condition(m)));
                self.emit(Instruction::Label(Label::Condition(n)));
                self.code_data.n_condition = m;
                self.code_data.open_condition = Some(m);
                let next = if at + 1 < end {
                    match self.execute_next_expression(elements, at + 1, end, false) {
                        Ok(next) => next,
                        Err(e) => {
                            return Err(e);
                        },
                    }
                } else {
                    at + 1
                };
                self.end_condition();
                Ok(next)
            },
        }
    }

    /// Lowers `loop`, `break` and `continue`. A `loop` takes the next
    /// number, writes its test label and lowers its test; a jump on the
    /// inverted comparison leads to the body, a plain jump to the end, and
    /// the body label follows. `break` jumps to the end label of the
    /// nearest loop, `continue` to its test label.
    pub fn at_loop(&mut self, elements: &Vec<Element>, at: usize, end: usize, token: &Token) -> (result:
        Result<usize, CompileError>)
        requires
            at < end <= elements.len(),
            *token is Loop || *token is LoopBreak || *token is LoopContinue,
        ensures
            agrees(
                lower_other(old(self)@, elements@, at as int, end as int, *token),
                result,
                final(self)@,
                at as int,
                end as int,
            ),
        decreases elements@, end - at, 5int,
    {
        match token {
            Token::Loop => {
                if self.code_data.n_loop == usize::MAX {
                    return Err(CompileError::Unsupported);
                }
                let n = self.code_data.n_loop + 1;
                self.emit(Instruction::Label(Label::LoopTest(n)));
                self.code_data.n_loop = n;
                self.code_data.open_loop = Some(n);
                self.code_data.previous_operator = None;
                let next = match self.execute_next_expression(elements, at + 1, end, true) {
                    Ok(next) => next,
                    Err(e) => {
                        return Err(e);
                    },
                };
                let jump_on = match self.give_mnemonic_for_previous_operator() {
                    Ok(jump_on) => jump_on,
                    Err(e) => {
                        return Err(e);
                    },
                };
                self.emit(Instruction::JumpIf { condition: jump_on, target: Label::LoopCore(n) });
                self.emit(Instruction::jump(Label::LoopEnd(n)));
                self.emit(Instruction::Label(Label::LoopCore(n)));
                Ok(next)
            },
            _ => {
                let nearest = if self.code_data.open_loop.is_some() {
                    self.code_data.open_loop
                } else {
                    self.code_data.enclosing_loop
                };
                let n = match nearest {
                    Some(n) => n,
                    None => {
                        return Err(CompileError::MalformedTree);
                    },
                };
                let target = match token {
                    Token::LoopBreak => Label::LoopEnd(n),
                    _ => Label::LoopTest(n),
                };
                self.emit(Instruction::jump(target));
                Ok(at + 1)
            },
        }
    }

    /// Moves the arguments of `arguments` to the registers that carry
    /// them, in their order. An argument between brackets is lowered first
    /// and taken from the expression register.
    fn pass_arguments(&mut self, arguments: &Vec<Element>) -> (result: Result<(), CompileError>)
        ensures
            agrees_on_state(lower_arguments(old(self)@, arguments@, 0, 0), result, final(self)@),
        decreases arguments@, arguments.len(), 10int,
    {
        let mut from: usize = 0;
        let mut passed: usize = 0;
        while from < arguments.len()
            invariant
                from <= arguments.len(),
                passed <= 4,
                lower_arguments(old(self)@, arguments@, 0, 0) == lower_arguments(
                    self@,
                    arguments@,
                    from as int,
                    passed as int,
                ),
            decreases arguments.len() - from,
        {
            match &arguments[from] {
                Element::Other(Token::Comma) => {
                    from += 1;
                },
                Element::Other(Token::BracketOpen) => {
                    let register = match LinuxCompiler::give_register_for_parameter(passed) {
                        Ok(register) => register,
                        Err(e) => {
                            return Err(e);
                        },
                    };
                    let close = match find_matching_close(arguments, from, arguments.len()) {
                        Some(close) => close,
                        None => {
                            return Err(CompileError::MalformedTree);
                        },
                    };
                    let around = self.enter(false);
                    match self.call_for_range(arguments, from + 1, close) {
                        Ok(()) => {},
                        Err(e) => {
                            return Err(e);
                        },
                    }
                    self.leave(around);
                    self.emit(Instruction::load(register, Operand::Register(Register::Rbx)));
                    from = close + 1;
                    passed += 1;
                },
                Element::Other(token) => {
                    let register = match LinuxCompiler::give_register_for_parameter(passed) {
                        Ok(register) => register,
                        Err(e) => {
                            return Err(e);
                        },
                    };
                    let operand = match self.give_value(token) {
                        Ok(operand) => operand,
                        Err(e) => {
                            return Err(e);
                        },
                    };
                    self.emit(Instruction::load(register, operand));
                    from += 1;
                    passed += 1;
                },
                _ => {
                    return Err(CompileError::MalformedTree);
                },
            }
        }
        Ok(())
    }

    /// Lowers the call of the function `id` at `at`: the arguments, which
    /// the next element holds, go to their registers, the function is
    /// called, and its result is copied to the expression register.
    pub fn call_function(&mut self, elements: &Vec<Element>, at: usize, end: usize, id: &String) -> (result:
        Result<usize, CompileError>)
        requires
            at < end <= elements.len(),
        ensures
            agrees(
                lower_call(old(self)@, elements@, at as int, end as int, id@),
                result,
                final(self)@,
                at as int,
                end as int,
            ),
        decreases elements@, end - at, 5int,
    {
        if at + 1 >= end {
            return Err(CompileError::MalformedTree);
        }
        match &elements[at + 1] {
            Element::Parameters(arguments) => {
                match self.pass_arguments(arguments) {
                    Ok(()) => {},
                    Err(e) => {
                        return Err(e);
                    },
                }
                self.emit(
                    Instruction::unary(Opcode::Call, Operand::Label(Label::Function(id.clone()))),
                );
                self.emit(Instruction::load(Register::Rbx, Operand::Register(Register::Rax)));
                Ok(at + 1)
            },
            _ => Err(CompileError::MalformedTree),
        }
    }

    /// Lowers the lone token at `at`: a key word of control flow, a
    /// bracket, a value that goes to the expression register, or the name
    /// of a function that is called.
    pub fn at_other(&mut self, elements: &Vec<Element>, at: usize, end: usize, other: &Token) -> (result:
        Result<usize, CompileError>)
        requires
            at < end <= elements.len(),
        ensures
            agrees(
                lower_other(old(self)@, elements@, at as int, end as int, *other),
                result,
                final(self)@,
                at as int,
                end as int,
            ),
        decreases elements@, end - at, 6int,
    {
        match other {
            Token::ConditionIf | Token::ConditionElse => self.at_condition(
                elements,
                at,
                end,
                other,
            ),
            Token::Loop | Token::LoopBreak | Token::LoopContinue => self.at_loop(
                elements,
                at,
                end,
                other,
            ),
            Token::NewLine => Ok(at + 1),
            Token::BracketOpen => {
                let close = match find_matching_close(elements, at, end) {
                    Some(close) => close,
                    None => {
                        return Err(CompileError::MalformedTree);
                    },
                };
                let around = self.enter(false);
                match self.call_for_range(elements, at + 1, close) {
                    Ok(()) => {},
                    Err(e) => {
                        return Err(e);
                    },
                }
                self.leave(around);
                Ok(close + 1)
            },
            Token::Other(id_or_value) => {
                if is_number(id_or_value.as_str()) {
                    self.update_return_register(Operand::Value(id_or_value.clone()));
                    Ok(at + 1)
                } else {
                    let slot = match self.stacks_data.variable_stack.get(id_or_value) {
                        Some(variable) => Some(variable.stack_pos),
                        None => None,
                    };
                    match slot {
                        Some(position) => {
                            self.update_return_register(Operand::Stack(position));
                            Ok(at + 1)
                        },
                        None => self.call_function(elements, at, end, id_or_value),
                    }
                }
            },
            _ => Err(CompileError::MalformedTree),
        }
    }

    /// Compiles the tree of one file: the text section is opened and the
    /// elements are lowered from the first to the last.
    pub fn compile(&mut self, elements: &Vec<Element>) -> (result: Result<(), CompileError>)
        ensures
            agrees_on_state(lower_file(old(self)@, elements@), result, final(self)@),
    {
        self.emit(Instruction::Section(Section::Text));
        self.call_for_elements(elements)
    }
}

impl LinuxCompiler {
    /// The values that define the static variable `variable`.
    fn static_values(variable: &Variable) -> (values: Result<Vec<String>, CompileError>)
        ensures
            match static_values(variable.type_, variable.current_value) {
                Ok(v) => values is Ok && values->Ok_0.deep_view() == v,
                Err(e) => values == Err::<Vec<String>, CompileError>(e),
            },
    {
        let mut values: Vec<String> = Vec::new();
        match &variable.current_value {
            Token::Nothing => {
                values.push(String::from_str("0"));
                assert(values.deep_view() =~= seq!["0"@]);
                Ok(values)
            },
            Token::Other(text) => {
                let is_text_type = match &variable.type_ {
                    Type::Str => true,
                    _ => false,
                };
                if is_text_type && !is_text(text, "0") {
                    let len = text.as_str().unicode_len();
                    if len < 2 {
                        return Err(CompileError::MalformedTree);
                    }
                    let mut quoted = String::from_str("`");
                    quoted.append(text.as_str().substring_char(1, len - 1));
                    quoted.append("`");
                    values.push(quoted);
                    values.push(String::from_str("0"));
                    assert(values.deep_view() =~= seq![
                        "`"@ + text@.subrange(1, text@.len() - 1) + "`"@,
                        "0"@,
                    ]);
                    Ok(values)
                } else {
                    values.push(text.clone());
                    assert(values.deep_view() =~= seq![text@]);
                    Ok(values)
                }
            },
            _ => Err(CompileError::MalformedTree),
        }
    }

    /// Defines the static variable `variable`: its definition is added to
    /// the static data of the file. A text is ended by a zero.
    pub fn add_static_variable(&mut self, variable: &Variable) -> (result: Result<
        (),
        CompileError,
    >)
        ensures
            agrees_on_state(define_static(old(self)@, *variable), result, final(self)@),
    {
        let directive = match variable.type_.directive() {
            Some(directive) => directive,
            None => {
                return Err(CompileError::Unsupported);
            },
        };
        let values = match LinuxCompiler::static_values(variable) {
            Ok(values) => values,
            Err(e) => {
                return Err(e);
            },
        };
        let definition = Instruction::Define { name: variable.id.clone(), directive, values };
        self.section_data.push(definition);
        assert(self@.data =~= old(self)@.data.push(definition.deep_view()));
        Ok(())
    }

    /// Starts the file of the module `module`: nothing is written and
    /// nothing is open, the frame is empty, and the scope is the module.
    pub fn init_file(&mut self, module: String)
        ensures
            final(self)@ == file_start(old(self)@, module@),
    {
        self.code = Vec::new();
        self.section_data = Vec::new();
        self.stacks_data.i_variable_stack = 0;
        self.code_data.scope.reset();
        self.code_data.scope.push(module);
        self.code_data.open_condition = None;
        self.code_data.open_loop = None;
        self.code_data.enclosing_loop = None;
        self.code_data.previous_operator = None;
        self.code_data.in_test = false;
        assert(self@.code =~= Seq::empty());
        assert(self@.data =~= Seq::empty());
        assert(self@.scope =~= seq![module@]);
    }

    /// Finishes a file: hands back its assembly text, the code and behind
    /// it the static data under the header of its section, and forgets
    /// both for the next file.
    pub fn terminate_file(&mut self) -> (text: String)
        ensures
            text@ == assembly_text(lines_of(file_listing(old(self)@))),
            final(self)@ == file_end(old(self)@),
    {
        if self.section_data.len() > 0 {
            self.code.push(Instruction::Section(Section::Data));
            let ghost code = self.code.deep_view();
            assert(code =~= old(self)@.code.push(InstructionView::Section(Section::Data)));
            self.code.append(&mut self.section_data);
            assert(self.code.deep_view() =~= code + old(self)@.data);
        }
        let text = assemble(&self.code);
        self.code = Vec::new();
        self.section_data = Vec::new();
        assert(self@.code =~= Seq::empty());
        assert(self@.data =~= Seq::empty());
        text
    }

    /// Compiles the tree of the file of the module `module` to assembly
    /// text.
    pub fn compile_file(&mut self, module: String, elements: &Vec<Element>) -> (result: Result<
        String,
        CompileError,
    >)
        ensures
            match lower_file(file_start(old(self)@, module@), elements@) {
                Ok(s) => result is Ok && result->Ok_0@ == assembly_text(
                    lines_of(file_listing(s)),
                ) && final(self)@ == file_end(s),
                Err(e) => result == Err::<String, CompileError>(e),
            },
    {
        self.init_file(module);
        match self.compile(elements) {
            Ok(()) => Ok(self.terminate_file()),
            Err(e) => Err(e),
        }
    }
}

impl LinuxCompiler {
    /// The width that stands before `id_or_value_or_expression` where it
    /// is stored to `variable`: that of the type of the variable before a
    /// literal, none before a name or a subexpression.
    pub fn give_type_operand_before_value(
        variable: &Variable,
        id_or_value_or_expression: &Token,
    ) -> (width: Result<Option<Width>, CompileError>)
        ensures
            width == width_before(variable.type_, *id_or_value_or_expression),
    {
        match KindToken::from_token(id_or_value_or_expression) {
            KindToken::Value => match variable.type_.width() {
                Some(w) => Ok(Some(w)),
                None => Err(CompileError::Unsupported),
            },
            _ => Ok(None),
        }
    }

    /// Loads the variable that `id_or_value` names into `to_register`,
    /// and tells whether it names one. A literal loads nothing.
    pub fn before_getting_value_when_id(&mut self, id_or_value: &Token, to_register: Register) -> (named:
        Result<bool, CompileError>)
        ensures
            match loaded_when_named(old(self)@, *id_or_value, to_register) {
                Ok((s, is_name)) => named == Ok::<bool, CompileError>(is_name) && final(self)@
                    == s,
                Err(e) => named == Err::<bool, CompileError>(e),
            },
    {
        match id_or_value {
            Token::Other(text) => {
                if is_number(text.as_str()) {
                    Ok(false)
                } else {
                    let position = match self.stacks_data.variable_stack.get(text) {
                        Some(variable) => variable.stack_pos,
                        None => {
                            return Err(CompileError::UnknownIdentifier);
                        },
                    };
                    self.emit(Instruction::load(to_register, Operand::Stack(position)));
                    Ok(true)
                }
            },
            _ => Ok(false),
        }
    }

    /// Writes one line of assembly as it is.
    fn emit_raw(&mut self, code: &str)
        ensures
            final(self)@ == old(self)@.emit(InstructionView::Raw(code@)),
    {
        self.emit(Instruction::Raw(String::from_str(code)));
    }

    /// Prints the text `to_print`: the text is defined as static data, its
    /// length is counted up to the zero that ends it, and the system is
    /// called to write it to the standard output.
    pub fn print(&mut self, to_print: String) -> (result: Result<(), CompileError>)
        ensures
            agrees_on_state(printed(old(self)@, to_print), result, final(self)@),
    {
        let text = Variable::static_(String::from_str("_string_"), Type::Str, Token::Other(to_print));
        match self.add_static_variable(&text) {
            Ok(()) => {},
            Err(e) => {
                return Err(e);
            },
        }
        self.emit_raw("mov rdi, _string_");
        self.emit_raw("xor rcx, rcx");
        self.emit_raw("not rcx");
        self.emit_raw("xor al, al");
        self.emit_raw("cld");
        self.emit_raw("repnz scasb");
        self.emit_raw("not rcx");
        self.emit_raw("dec rcx");
        self.emit_raw("mov rdx, rcx");
        self.emit_raw("mov rsi, _string_");
        self.emit_raw("mov rax, 1");
        self.emit_raw("mov rdi, rax");
        self.emit(Instruction::nullary(Opcode::Syscall));
        Ok(())
    }

    /// Ends the process with the value that `value` names.
    pub fn exit(&mut self, value: &Token) -> (result: Result<(), CompileError>)
        ensures
            agrees_on_state(
                match operand_of(old(self)@.variables, *value) {
                    Ok(operand) => Ok(exited(old(self)@, operand)),
                    Err(e) => Err(e),
                },
                result,
                final(self)@,
            ),
    {
        let operand = match self.give_value(value) {
            Ok(operand) => operand,
            Err(e) => {
                return Err(e);
            },
        };
        self.emit(Instruction::load(Register::Rax, Operand::Number(60)));
        self.emit(Instruction::load(Register::Rdi, operand));
        self.emit(Instruction::nullary(Opcode::Syscall));
        Ok(())
    }
}

} // verus!

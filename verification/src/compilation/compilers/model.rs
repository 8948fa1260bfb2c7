//! What the code generator does, as functions from one state to the next.
//! The executable generator is proved to compute exactly these.

use crate::assembly::instruction::{
    Condition, InstructionView, jump, LabelView, load, op0, op1, op2, Opcode, OperandView,
    Register, Section, Width,
};
use crate::compilation::compilers::base::{is_number_text, kind_of, KindToken};
use crate::compilation::defaults::parameter_register;
use crate::compilation::error::CompileError;
use crate::objects::function::Function;
use crate::objects::type_::{directive_of, size_of, Type, width_of};
use crate::objects::variable::Variable;
use crate::parsing::elements::{Element, Operation};
use crate::parsing::elements::Token;
use crate::text::decimal_text;
use vstd::prelude::*;

verus! {

/// All that the generator knows while it walks a tree.
pub struct State {
    /// The instructions written so far.
    pub code: Seq<InstructionView>,
    /// The static data defined so far.
    pub data: Seq<InstructionView>,
    /// The variables of the file, by name.
    pub variables: Map<Seq<char>, Variable>,
    /// The size of the current frame: the offset given out last.
    pub offset: usize,
    /// The names around the place where the generator stands.
    pub scope: Seq<Seq<char>>,
    /// The number of the conditional label given out last.
    pub conditions: usize,
    /// The label that ends the conditional which is open at this level of
    /// nesting.
    pub open_condition: Option<usize>,
    /// The number of the loop opened last.
    pub loops: usize,
    /// The loop which is open at this level of nesting.
    pub open_loop: Option<usize>,
    /// The innermost loop whose body holds this level of nesting.
    pub enclosing_loop: Option<usize>,
    /// The operator of the comparison that was lowered last; the test of a
    /// conditional or a loop starts without one.
    pub previous_operator: Option<Condition>,
    /// Whether the elements at this level are the test of a conditional or
    /// a loop.
    pub in_test: bool,
}

/// The result of lowering one element: the new state and the index of the
/// element at which the walk goes on.
pub type Lowered = Result<(State, int), CompileError>;

impl State {
    /// The state before anything is compiled, at the top of module
    /// `module`.
    pub open spec fn initial(module: Seq<char>) -> State {
        State {
            code: Seq::empty(),
            data: Seq::empty(),
            variables: Map::empty(),
            offset: 0,
            scope: seq![module],
            conditions: 0,
            open_condition: None,
            loops: 0,
            open_loop: None,
            enclosing_loop: None,
            previous_operator: None,
            in_test: false,
        }
    }

    /// The state after `instruction` is written.
    pub open spec fn emit(self, instruction: InstructionView) -> State {
        State { code: self.code.push(instruction), ..self }
    }

    /// The loop that `break` and `continue` speak of: the loop that is open
    /// at this level, else the innermost loop around it.
    pub open spec fn nearest_loop(self) -> Option<usize> {
        if self.open_loop is Some {
            self.open_loop
        } else {
            self.enclosing_loop
        }
    }
}

// ---------------------------------------------------------------- brackets

/// Whether `element` opens a subexpression.
pub open spec fn opens(element: Element) -> bool {
    element == Element::Other(Token::BracketOpen)
}

/// Whether `element` closes a subexpression.
pub open spec fn closes(element: Element) -> bool {
    element == Element::Other(Token::BracketClose)
}

/// The first closing bracket in `elements[from..end]` that is not matched
/// by an opening bracket of that range, where `depth` opening brackets
/// before `from` are still unmatched.
pub open spec fn scan_close(elements: Seq<Element>, from: int, end: int, depth: nat) -> Option<int>
    decreases end - from,
{
    if from < 0 || from >= end || end > elements.len() {
        None
    } else if opens(elements[from]) {
        scan_close(elements, from + 1, end, depth + 1)
    } else if closes(elements[from]) {
        if depth == 0 {
            Some(from)
        } else {
            scan_close(elements, from + 1, end, (depth - 1) as nat)
        }
    } else {
        scan_close(elements, from + 1, end, depth)
    }
}

/// The closing bracket before `end` that matches the opening bracket at
/// `open`.
pub open spec fn matching_close(elements: Seq<Element>, open: int, end: int) -> Option<int> {
    scan_close(elements, open + 1, end, 0)
}

// ---------------------------------------------------------- control flow

/// The state after the open conditional, if there is one, is closed: its
/// label is written.
pub open spec fn close_condition(s: State) -> State {
    match s.open_condition {
        Some(n) => State {
            open_condition: None,
            ..s.emit(InstructionView::Label(LabelView::Condition(n)))
        },
        None => s,
    }
}

/// The state after the open loop, if there is one, is closed: the jump back
/// to its test is written, and then its end label.
pub open spec fn close_loop(s: State) -> State {
    match s.open_loop {
        Some(n) => State {
            open_loop: None,
            ..s.emit(jump(LabelView::LoopTest(n))).emit(
                InstructionView::Label(LabelView::LoopEnd(n)),
            )
        },
        None => s,
    }
}

/// The state after whatever is open at this level is closed, the
/// conditional first.
pub open spec fn close_open(s: State) -> State {
    close_loop(close_condition(s))
}

/// Whether `element` leaves open what is open: a new line, an operation or
/// the start of a subexpression.
pub open spec fn keeps_open(element: Element) -> bool {
    element == Element::Other(Token::NewLine) || element is Operation || opens(element)
}

/// The state in which `element` is lowered: an element that neither keeps
/// open what is open nor continues it closes it first. `else` continues a
/// conditional, `break` and `continue` a loop.
pub open spec fn closed_before(s: State, element: Element) -> State {
    if keeps_open(element) {
        s
    } else {
        let s1 = if element != Element::Other(Token::ConditionElse) {
            close_condition(s)
        } else {
            s
        };
        if element != Element::Other(Token::LoopBreak) && element != Element::Other(
            Token::LoopContinue,
        ) {
            close_loop(s1)
        } else {
            s1
        }
    }
}

/// The state in which a nested expression starts: nothing is open in it,
/// and the loop around it is the nearest loop of the level that holds it.
pub open spec fn enter(s: State, as_test: bool) -> State {
    State {
        open_condition: None,
        open_loop: None,
        enclosing_loop: s.nearest_loop(),
        in_test: as_test,
        ..s
    }
}

/// The state after a nested expression: what was open around it is open
/// again.
pub open spec fn leave(outer: State, inner: State) -> State {
    State {
        open_condition: outer.open_condition,
        open_loop: outer.open_loop,
        enclosing_loop: outer.enclosing_loop,
        in_test: outer.in_test,
        ..inner
    }
}

/// The comparison that a token asks for.
pub open spec fn comparison_of(operator: Token) -> Option<Condition> {
    match operator {
        Token::Equal => Some(Condition::Equal),
        Token::NotEqual => Some(Condition::NotEqual),
        Token::LessThan => Some(Condition::Less),
        Token::MoreThan => Some(Condition::Greater),
        Token::LessThanOrEqual => Some(Condition::LessOrEqual),
        Token::MoreThanOrEqual => Some(Condition::GreaterOrEqual),
        _ => None,
    }
}

/// The condition that holds exactly when `condition` does not: a test
/// jumps on it, past the body.
pub open spec fn inverted(condition: Condition) -> Condition {
    match condition {
        Condition::Equal => Condition::NotEqual,
        Condition::NotEqual => Condition::Equal,
        Condition::Less => Condition::GreaterOrEqual,
        Condition::Greater => Condition::LessOrEqual,
        Condition::LessOrEqual => Condition::Greater,
        Condition::GreaterOrEqual => Condition::Less,
    }
}

// --------------------------------------------------------------- operands

/// The operand that `token` names: a literal as it is written, a variable
/// as its slot in the frame.
pub open spec fn operand_of(variables: Map<Seq<char>, Variable>, token: Token) -> Result<
    OperandView,
    CompileError,
> {
    match token {
        Token::Other(text) => if is_number_text(text@) {
            Ok(OperandView::Value(text@))
        } else if variables.dom().contains(text@) {
            Ok(OperandView::Stack(variables[text@].stack_pos))
        } else {
            Err(CompileError::UnknownIdentifier)
        },
        _ => Err(CompileError::MalformedTree),
    }
}

/// The move that stores `source` to the frame slot at `offset`, with the
/// name of the variable as its comment. A literal is stored under the width
/// of the variable's type.
pub open spec fn store(
    offset: usize,
    width: Option<Width>,
    source: OperandView,
    name: Seq<char>,
) -> InstructionView {
    InstructionView::Op {
        opcode: Opcode::Mov,
        operands: match width {
            Some(w) => seq![OperandView::Stack(offset), OperandView::Width(w), source],
            None => seq![OperandView::Stack(offset), source],
        },
        comment: Some(name),
    }
}

/// The state after the value `value` is assigned to the slot at `offset`,
/// which holds a variable `name` of type `type_`. A literal is stored at
/// once; a variable goes through the expression register.
pub open spec fn assign_scalar(
    s: State,
    offset: usize,
    type_: Type,
    value: Token,
    name: Seq<char>,
) -> Result<State, CompileError> {
    match value {
        Token::Other(text) => if is_number_text(text@) {
            match width_of(type_) {
                Some(w) => Ok(s.emit(store(offset, Some(w), OperandView::Value(text@), name))),
                None => Err(CompileError::Unsupported),
            }
        } else if s.variables.dom().contains(text@) {
            Ok(
                s.emit(
                    load(Register::Rbx, OperandView::Stack(s.variables[text@].stack_pos)),
                ).emit(store(offset, None, OperandView::Register(Register::Rbx), name)),
            )
        } else {
            Err(CompileError::UnknownIdentifier)
        },
        _ => Err(CompileError::MalformedTree),
    }
}

/// The name under which item `index` of the array `id` is stored.
pub open spec fn item_name(id: Seq<char>, index: nat) -> Seq<char> {
    id + "["@ + decimal_text(index) + "]"@
}

/// The state after the values of `values` from index `from` on are assigned
/// to the items of an array: item `k` lies `k` element sizes above the base,
/// that is at the offset `base - size * k`, which must stay positive.
pub open spec fn assign_items(
    s: State,
    values: Seq<Token>,
    from: int,
    base: usize,
    size: nat,
    element: Type,
    id: Seq<char>,
) -> Result<State, CompileError>
    decreases values.len() - from,
{
    if from < 0 || from >= values.len() {
        Ok(s)
    } else if size * from >= base {
        Err(CompileError::MalformedTree)
    } else {
        match assign_scalar(
            s,
            (base - size * from) as usize,
            element,
            values[from],
            item_name(id, from as nat),
        ) {
            Ok(s1) => assign_items(s1, values, from + 1, base, size, element, id),
            Err(e) => Err(e),
        }
    }
}

/// The state after the array literal `values` is assigned to the array
/// variable `variable`.
pub open spec fn assign_array(s: State, variable: Variable, values: Seq<Token>) -> Result<
    State,
    CompileError,
> {
    match variable.type_ {
        Type::Array(element, _) => assign_array_items(s, variable, *element, values),
        Type::StaticArray(element) => assign_array_items(s, variable, *element, values),
        _ => Err(CompileError::MalformedTree),
    }
}

/// The state after `values` are assigned to the items of the array
/// `variable`, which are of type `element`.
pub open spec fn assign_array_items(
    s: State,
    variable: Variable,
    element: Type,
    values: Seq<Token>,
) -> Result<State, CompileError> {
    match size_of(element) {
        Some(size) => if size > usize::MAX {
            Err(CompileError::Unsupported)
        } else {
            assign_items(s, values, 0, variable.stack_pos, size, element, variable.id@)
        },
        None => Err(CompileError::Unsupported),
    }
}

// ------------------------------------------------------------- operations

/// What an operation computes.
#[derive(Clone, Copy, Debug, PartialEq, Eq, Structural)]
pub enum Operator {
    Assign,
    Add,
    Subtract,
    Multiply,
    Divide,
    Compare(Condition),
}

/// The operator that a token asks for.
pub open spec fn operator_of(token: Token) -> Option<Operator> {
    match token {
        Token::Assign => Some(Operator::Assign),
        Token::Plus => Some(Operator::Add),
        Token::Minus => Some(Operator::Subtract),
        Token::Multiply => Some(Operator::Multiply),
        Token::Divide => Some(Operator::Divide),
        _ => match comparison_of(token) {
            Some(c) => Some(Operator::Compare(c)),
            None => None,
        },
    }
}

/// Whether the instructions of `operator` would overwrite the result of a
/// subexpression before they read it: a sum, a difference or a comparison
/// loads its left operand into the register that holds the result of the
/// right one; a product or a quotient of two subexpressions finds both in
/// one register.
pub open spec fn overwrites_operand(operator: Operator, arg1: Token, arg2: Token) -> bool {
    match operator {
        Operator::Assign => false,
        Operator::Multiply | Operator::Divide => arg1 is BracketOpen && arg2 is BracketOpen,
        _ => arg2 is BracketOpen,
    }
}

/// The state after the sum or difference of `a` and `b` is computed into
/// the expression register: the left operand is moved there, and the right
/// one is added to it or taken from it, so that a difference is the left
/// operand less the right one. Two variables are staged: the left one is
/// loaded into the second register first, and goes from there to the
/// expression register.
pub open spec fn arithmetic(s: State, opcode: Opcode, staged: bool, a: OperandView, b: OperandView) -> State {
    if staged {
        s.emit(load(Register::Rdx, a)).emit(
            load(Register::Rbx, OperandView::Register(Register::Rdx)),
        ).emit(op2(opcode, OperandView::Register(Register::Rbx), b))
    } else {
        s.emit(load(Register::Rbx, a)).emit(op2(opcode, OperandView::Register(Register::Rbx), b))
    }
}

/// The state after the product of `a` and `b` is computed into the
/// expression register.
pub open spec fn multiplication(s: State, a: OperandView, b: OperandView) -> State {
    s.emit(load(Register::Rax, a)).emit(
        op2(Opcode::Imul, OperandView::Register(Register::Rax), b),
    ).emit(load(Register::Rbx, OperandView::Register(Register::Rax)))
}

/// The state after the quotient of `a` and `b` is computed into the
/// expression register.
pub open spec fn division(s: State, a: OperandView, b: OperandView) -> State {
    s.emit(load(Register::Rax, a)).emit(load(Register::Rdx, b)).emit(
        op1(Opcode::Idiv, OperandView::Register(Register::Rax)),
    ).emit(load(Register::Rbx, OperandView::Register(Register::Rax)))
}

/// The state after `a` and `b` are compared. The comparison sets the
/// flags, and its operator is recorded. In the test of a conditional or a
/// loop that is all, and the jump that follows reads the record. Anywhere
/// else the outcome, 0 or 1, is written to the expression register too.
pub open spec fn comparison(s: State, condition: Condition, a: OperandView, b: OperandView) -> State {
    let compared = State {
        previous_operator: Some(condition),
        ..s.emit(load(Register::Rbx, a)).emit(
            op2(Opcode::Compare, OperandView::Register(Register::Rbx), b),
        )
    };
    if s.in_test {
        compared
    } else {
        compared.emit(InstructionView::SetIf { condition, register: Register::Al }).emit(
            op2(
                Opcode::Movzx,
                OperandView::Register(Register::Rbx),
                OperandView::Register(Register::Al),
            ),
        )
    }
}

/// The state after `operator`, which is no assignment, is applied to `a`
/// and `b`.
pub open spec fn computation(
    s: State,
    operator: Operator,
    staged: bool,
    a: OperandView,
    b: OperandView,
) -> State {
    match operator {
        Operator::Add => arithmetic(s, Opcode::Add, staged, a, b),
        Operator::Subtract => arithmetic(s, Opcode::Sub, staged, a, b),
        Operator::Multiply => multiplication(s, a, b),
        Operator::Divide => division(s, a, b),
        Operator::Compare(condition) => comparison(s, condition, a, b),
        Operator::Assign => s,
    }
}

/// Whether both operands are names, so that a sum or a difference stages
/// the left one.
pub open spec fn both_identifiers(arg1: Token, arg2: Token) -> bool {
    kind_of(arg1) == KindToken::Identifier && kind_of(arg2) == KindToken::Identifier
}

// -------------------------------------------------------------- functions

/// The state after the frame of a function is given up: the frame pointer
/// of the caller is restored, the function returns, and offsets start at
/// zero again.
pub open spec fn epilogue(s: State) -> State {
    State {
        offset: 0,
        ..s.emit(op1(Opcode::Pop, OperandView::Register(Register::Rbp))).emit(op0(Opcode::Ret))
    }
}

/// The state after the stub at which the process starts is written: it
/// calls the entry point and hands its result to the system call that ends
/// the process.
pub open spec fn start_stub(s: State) -> State {
    s.emit(op1(Opcode::Global, OperandView::Label(LabelView::Start))).emit(
        InstructionView::Label(LabelView::Start),
    ).emit(op1(Opcode::Call, OperandView::Label(LabelView::Function("main"@)))).emit(
        load(Register::Rdi, OperandView::Register(Register::Rax)),
    ).emit(load(Register::Rax, OperandView::Number(60))).emit(op0(Opcode::Syscall))
}

/// The state after the head of the function called `name` is written: the
/// label, then the prologue, which saves the frame pointer of the caller
/// and sets up the new frame. Offsets start at zero.
pub open spec fn prologue(s: State, name: Seq<char>) -> State {
    State {
        offset: 0,
        ..s.emit(op1(Opcode::Global, OperandView::Label(LabelView::Function(name)))).emit(
            InstructionView::Label(LabelView::Function(name)),
        ).emit(op1(Opcode::Push, OperandView::Register(Register::Rbp))).emit(
            op2(
                Opcode::Mov,
                OperandView::Register(Register::Rbp),
                OperandView::Register(Register::Rsp),
            ),
        )
    }
}

/// The state after the variable `variable` is given the next slot of the
/// frame, which lies its size under the slot given before.
pub open spec fn allocate(s: State, variable: Variable) -> Result<State, CompileError> {
    match size_of(variable.type_) {
        Some(size) => if s.offset + size > usize::MAX {
            Err(CompileError::Unsupported)
        } else {
            let position = (s.offset + size) as usize;
            Ok(
                State {
                    offset: position,
                    variables: s.variables.insert(
                        variable.id@,
                        Variable { stack_pos: position, ..variable },
                    ),
                    ..s
                },
            )
        },
        None => Err(CompileError::Unsupported),
    }
}

/// The state after the parameters of `params` from index `from` on are
/// declared: each gets the next slot, and the register that carries it is
/// stored there. Only four parameters can be carried.
pub open spec fn declare_parameters(s: State, params: Seq<Variable>, from: int) -> Result<
    State,
    CompileError,
>
    decreases params.len() - from,
{
    if from < 0 || from >= params.len() {
        Ok(s)
    } else if from >= 4 {
        Err(CompileError::Unsupported)
    } else {
        match allocate(s, params[from]) {
            Ok(s1) => declare_parameters(
                s1.emit(
                    op2(
                        Opcode::Mov,
                        OperandView::Stack(s1.offset),
                        OperandView::Register(parameter_register(from)),
                    ),
                ),
                params,
                from + 1,
            ),
            Err(e) => Err(e),
        }
    }
}

/// The state after the head of `function` is lowered: the start stub if
/// it is the entry point, the label, which is the identifier of the
/// function as it is handed over, the prologue, and the parameters.
pub open spec fn function_head(s: State, function: Function) -> Result<State, CompileError> {
    let started = if function.id@ == "main"@ {
        start_stub(s)
    } else {
        s
    };
    declare_parameters(prologue(started, function.id@), function.params@, 0)
}

// ------------------------------------------------------------- the walk

/// The state after `elements[start..end]` are lowered in turn. What is
/// still open at the end of the range is closed there.
pub open spec fn lower_elements(s: State, elements: Seq<Element>, start: int, end: int) -> Result<
    State,
    CompileError,
>
    decreases elements, end - start, 9int,
{
    if start < 0 || start >= end || end > elements.len() {
        Ok(close_open(s))
    } else {
        match lower_element(s, elements, start, end) {
            Ok((s1, next)) => if start < next <= end {
                lower_elements(s1, elements, next, end)
            } else {
                Err(CompileError::MalformedTree)
            },
            Err(e) => Err(e),
        }
    }
}

/// The expression that starts at `at`, lowered with nothing open around
/// it: the elements between a bracket and its partner, or else the one
/// element at `at` with what it takes of its followers. The walk goes on
/// behind the expression.
pub open spec fn lower_expression(
    s: State,
    elements: Seq<Element>,
    at: int,
    end: int,
    as_test: bool,
) -> Lowered
    decreases elements, end - at, 8int,
{
    if at < 0 || at >= end || end > elements.len() {
        Err(CompileError::MalformedTree)
    } else if opens(elements[at]) {
        match matching_close(elements, at, end) {
            Some(close) => if at < close < end {
                match lower_elements(enter(s, as_test), elements, at + 1, close) {
                    Ok(inner) => Ok((leave(s, inner), close + 1)),
                    Err(e) => Err(e),
                }
            } else {
                Err(CompileError::MalformedTree)
            },
            None => Err(CompileError::MalformedTree),
        }
    } else {
        match lower_element(enter(s, as_test), elements, at, end) {
            Ok((inner, next)) => Ok((leave(s, close_open(inner)), next)),
            Err(e) => Err(e),
        }
    }
}

/// The element at `at`, lowered: what is open is closed first unless the
/// element keeps it open or continues it, then the element is handled by
/// its kind.
pub open spec fn lower_element(s: State, elements: Seq<Element>, at: int, end: int) -> Lowered
    decreases elements, end - at, 7int,
{
    if at < 0 || at >= end || end > elements.len() {
        Err(CompileError::MalformedTree)
    } else {
        let s0 = closed_before(s, elements[at]);
        match elements[at] {
            Element::Array(_) => Ok((s0, at + 1)),
            Element::Parameters(_) => Ok((s0, at + 1)),
            Element::Assembly(code) => Ok((s0.emit(InstructionView::Raw(code@)), at + 1)),
            Element::Function(function) => lower_function(s0, elements, at, end, function),
            Element::Operation(operation) => lower_operation(s0, elements, at, end, operation),
            Element::Return(value) => lower_return(s0, elements, at, end, value),
            Element::Variable(variable) => lower_variable(s0, elements, at, end, variable),
            Element::Other(token) => lower_other(s0, elements, at, end, token),
        }
    }
}

/// The function at `at`: its head, and its body where one follows between
/// brackets. The body is lowered inside the scope of the function; behind
/// it the scope is what it was.
pub open spec fn lower_function(
    s: State,
    elements: Seq<Element>,
    at: int,
    end: int,
    function: Function,
) -> Lowered
    decreases elements, end - at, 6int,
    when 0 <= at < end <= elements.len()
{
    match function_head(s, function) {
        Ok(head) => if at + 1 < end && end <= elements.len() && opens(elements[at + 1]) {
            match matching_close(elements, at + 1, end) {
                Some(close) => if at + 1 < close < end {
                    match lower_elements(
                        enter(State { scope: head.scope.push(function.id@), ..head }, false),
                        elements,
                        at + 2,
                        close,
                    ) {
                        Ok(inner) => Ok(
                            (State { scope: head.scope, ..leave(head, inner) }, close + 1),
                        ),
                        Err(e) => Err(e),
                    }
                } else {
                    Err(CompileError::MalformedTree)
                },
                None => Err(CompileError::MalformedTree),
            }
        } else {
            Ok((head, at + 1))
        },
        Err(e) => Err(e),
    }
}

/// The assignment of the value of `variable` to its slot. An array takes
/// its values from the array literal that follows; an expression is
/// lowered first and its result stored; no value writes nothing.
pub open spec fn lower_assignment(
    s: State,
    elements: Seq<Element>,
    at: int,
    end: int,
    variable: Variable,
) -> Lowered
    decreases elements, end - at, 4int,
    when 0 <= at < end <= elements.len()
{
    match variable.current_value {
        Token::SquareBracketOpen => if at + 1 < end && end <= elements.len() {
            match elements[at + 1] {
                Element::Array(values) => match assign_array(s, variable, values@) {
                    Ok(s1) => Ok((s1, at + 1)),
                    Err(e) => Err(e),
                },
                _ => Err(CompileError::MalformedTree),
            }
        } else {
            Err(CompileError::MalformedTree)
        },
        Token::Nothing => Ok((s, at + 1)),
        Token::BracketOpen => match lower_expression(s, elements, at + 1, end, false) {
            Ok((s1, next)) => Ok(
                (
                    s1.emit(
                        store(
                            variable.stack_pos,
                            None,
                            OperandView::Register(Register::Rbx),
                            variable.id@,
                        ),
                    ),
                    next,
                ),
            ),
            Err(e) => Err(e),
        },
        value => match assign_scalar(s, variable.stack_pos, variable.type_, value, variable.id@) {
            Ok(s1) => Ok((s1, at + 1)),
            Err(e) => Err(e),
        },
    }
}

/// The declaration at `at`: the variable gets the next slot of the frame
/// and is entered under its name, then its value is assigned. A scalar
/// that is given no value is set to zero.
pub open spec fn lower_variable(
    s: State,
    elements: Seq<Element>,
    at: int,
    end: int,
    variable: Variable,
) -> Lowered
    decreases elements, end - at, 6int,
    when 0 <= at < end <= elements.len()
{
    match allocate(s, variable) {
        Ok(s1) => if variable.current_value is Nothing {
            match width_of(variable.type_) {
                Some(w) => Ok(
                    (
                        s1.emit(
                            store(s1.offset, Some(w), OperandView::Value("0"@), variable.id@),
                        ),
                        at + 1,
                    ),
                ),
                None => Ok((s1, at + 1)),
            }
        } else {
            lower_assignment(
                s1,
                elements,
                at,
                end,
                Variable { stack_pos: s1.offset, ..variable },
            )
        },
        Err(e) => Err(e),
    }
}

/// The return at `at`: the value goes to the register in which a function
/// hands back its result, zero where none is given, and the frame is given
/// up.
pub open spec fn lower_return(s: State, elements: Seq<Element>, at: int, end: int, value: Token) -> Lowered
    decreases elements, end - at, 6int,
    when 0 <= at < end <= elements.len()
{
    match value {
        Token::Nothing => Ok(
            (
                epilogue(
                    s.emit(
                        op2(
                            Opcode::Xor,
                            OperandView::Register(Register::Rax),
                            OperandView::Register(Register::Rax),
                        ),
                    ),
                ),
                at + 1,
            ),
        ),
        Token::BracketOpen => match lower_expression(s, elements, at + 1, end, false) {
            Ok((s1, next)) => Ok(
                (
                    epilogue(s1.emit(load(Register::Rax, OperandView::Register(Register::Rbx)))),
                    next,
                ),
            ),
            Err(e) => Err(e),
        },
        _ => match operand_of(s.variables, value) {
            Ok(operand) => Ok((epilogue(s.emit(load(Register::Rax, operand))), at + 1)),
            Err(e) => Err(e),
        },
    }
}

/// The assignment at `at`: the variable that the left operand names is
/// given the value of the right operand.
pub open spec fn lower_assign(
    s: State,
    elements: Seq<Element>,
    at: int,
    end: int,
    operation: Operation,
) -> Lowered
    decreases elements, end - at, 5int,
    when 0 <= at < end <= elements.len()
{
    match operation.arg1 {
        Token::Other(name) => if s.variables.dom().contains(name@) {
            lower_assignment(
                s,
                elements,
                at,
                end,
                Variable { current_value: operation.arg2, ..s.variables[name@] },
            )
        } else {
            Err(CompileError::UnknownIdentifier)
        },
        _ => Err(CompileError::MalformedTree),
    }
}

/// The operation at `at`. An operand that is a subexpression is lowered
/// first, from the elements that follow, and read from the expression
/// register.
pub open spec fn lower_operation(
    s: State,
    elements: Seq<Element>,
    at: int,
    end: int,
    operation: Operation,
) -> Lowered
    decreases elements, end - at, 6int,
    when 0 <= at < end <= elements.len()
{
    match operator_of(operation.operator) {
        None => Err(CompileError::InvalidOperator),
        Some(Operator::Assign) => lower_assign(s, elements, at, end, operation),
        Some(operator) => if overwrites_operand(operator, operation.arg1, operation.arg2) {
            Err(CompileError::Unsupported)
        } else if operation.arg1 is BracketOpen {
            match lower_expression(s, elements, at + 1, end, false) {
                Ok((s1, next)) => match operand_of(s1.variables, operation.arg2) {
                    Ok(b) => Ok(
                        (
                            computation(
                                s1,
                                operator,
                                false,
                                OperandView::Register(Register::Rbx),
                                b,
                            ),
                            next,
                        ),
                    ),
                    Err(e) => Err(e),
                },
                Err(e) => Err(e),
            }
        } else {
            match operand_of(s.variables, operation.arg1) {
                Ok(a) => if operation.arg2 is BracketOpen {
                    match lower_expression(s, elements, at + 1, end, false) {
                        Ok((s1, next)) => Ok(
                            (
                                computation(
                                    s1,
                                    operator,
                                    false,
                                    a,
                                    OperandView::Register(Register::Rbx),
                                ),
                                next,
                            ),
                        ),
                        Err(e) => Err(e),
                    }
                } else {
                    match operand_of(s.variables, operation.arg2) {
                        Ok(b) => Ok(
                            (
                                computation(
                                    s,
                                    operator,
                                    both_identifiers(operation.arg1, operation.arg2),
                                    a,
                                    b,
                                ),
                                at + 1,
                            ),
                        ),
                        Err(e) => Err(e),
                    }
                },
                Err(e) => Err(e),
            }
        },
    }
}

/// The `if` at `at`: the conditional takes the next label number, its test
/// is lowered, and a jump on the inverted comparison leads past the body
/// to that label.
pub open spec fn lower_if(s: State, elements: Seq<Element>, at: int, end: int) -> Lowered
    decreases elements, end - at, 5int,
    when 0 <= at < end <= elements.len()
{
    if s.conditions == usize::MAX {
        Err(CompileError::Unsupported)
    } else {
        let n = (s.conditions + 1) as usize;
        let opened = State {
            conditions: n,
            open_condition: Some(n),
            previous_operator: None,
            ..s
        };
        match lower_expression(opened, elements, at + 1, end, true) {
            Ok((tested, next)) => match tested.previous_operator {
                Some(condition) => Ok(
                    (
                        tested.emit(
                            InstructionView::JumpIf {
                                condition: inverted(condition),
                                target: LabelView::Condition(n),
                            },
                        ),
                        next,
                    ),
                ),
                None => Err(CompileError::InvalidOperator),
            },
            Err(e) => Err(e),
        }
    }
}

/// The `else` at `at`: a jump leads from the end of the first branch to a
/// new label, the label of the conditional is written, the second branch
/// is lowered where one follows, and the new label ends the conditional.
pub open spec fn lower_else(s: State, elements: Seq<Element>, at: int, end: int) -> Lowered
    decreases elements, end - at, 5int,
    when 0 <= at < end <= elements.len()
{
    match s.open_condition {
        Some(n) => if s.conditions == usize::MAX {
            Err(CompileError::Unsupported)
        } else {
            let m = (s.conditions + 1) as usize;
            let second = State {
                conditions: m,
                open_condition: Some(m),
                ..s.emit(jump(LabelView::Condition(m))).emit(
                    InstructionView::Label(LabelView::Condition(n)),
                )
            };
            if at + 1 < end {
                match lower_expression(second, elements, at + 1, end, false) {
                    Ok((s1, next)) => Ok((close_condition(s1), next)),
                    Err(e) => Err(e),
                }
            } else {
                Ok((close_condition(second), at + 1))
            }
        },
        None => Err(CompileError::MalformedTree),
    }
}

/// The `loop` at `at`: the loop takes the next number, its test label is
/// written and its test lowered; a jump on the inverted comparison leads
/// to the body, a plain jump to the end, and the body label follows.
pub open spec fn lower_loop(s: State, elements: Seq<Element>, at: int, end: int) -> Lowered
    decreases elements, end - at, 5int,
    when 0 <= at < end <= elements.len()
{
    if s.loops == usize::MAX {
        Err(CompileError::Unsupported)
    } else {
        let n = (s.loops + 1) as usize;
        let opened = State {
            loops: n,
            open_loop: Some(n),
            previous_operator: None,
            ..s.emit(InstructionView::Label(LabelView::LoopTest(n)))
        };
        match lower_expression(opened, elements, at + 1, end, true) {
            Ok((tested, next)) => match tested.previous_operator {
                Some(condition) => Ok(
                    (
                        tested.emit(
                            InstructionView::JumpIf {
                                condition: inverted(condition),
                                target: LabelView::LoopCore(n),
                            },
                        ).emit(jump(LabelView::LoopEnd(n))).emit(
                            InstructionView::Label(LabelView::LoopCore(n)),
                        ),
                        next,
                    ),
                ),
                None => Err(CompileError::InvalidOperator),
            },
            Err(e) => Err(e),
        }
    }
}

/// The state after the arguments of `arguments` from index `from` on are
/// moved to the registers that carry them, where `passed` arguments are in
/// place already. An argument between brackets is lowered first and taken
/// from the expression register. Only four arguments can be carried.
pub open spec fn lower_arguments(s: State, arguments: Seq<Element>, from: int, passed: int) -> Result<
    State,
    CompileError,
>
    decreases arguments, arguments.len() - from, 4int,
{
    if from < 0 || from >= arguments.len() {
        Ok(s)
    } else {
        match arguments[from] {
            Element::Other(Token::Comma) => lower_arguments(s, arguments, from + 1, passed),
            Element::Other(Token::BracketOpen) => if passed >= 4 {
                Err(CompileError::Unsupported)
            } else {
                match matching_close(arguments, from, arguments.len() as int) {
                    Some(close) => if from < close < arguments.len() {
                        match lower_elements(enter(s, false), arguments, from + 1, close) {
                            Ok(inner) => lower_arguments(
                                leave(s, inner).emit(
                                    load(
                                        parameter_register(passed),
                                        OperandView::Register(Register::Rbx),
                                    ),
                                ),
                                arguments,
                                close + 1,
                                passed + 1,
                            ),
                            Err(e) => Err(e),
                        }
                    } else {
                        Err(CompileError::MalformedTree)
                    },
                    None => Err(CompileError::MalformedTree),
                }
            },
            Element::Other(token) => if passed >= 4 {
                Err(CompileError::Unsupported)
            } else {
                match operand_of(s.variables, token) {
                    Ok(operand) => lower_arguments(
                        s.emit(load(parameter_register(passed), operand)),
                        arguments,
                        from + 1,
                        passed + 1,
                    ),
                    Err(e) => Err(e),
                }
            },
            _ => Err(CompileError::MalformedTree),
        }
    }
}

/// The call of the function `name` at `at`: the arguments, which the next
/// element holds, go to their registers, the function is called, and its
/// result is copied to the expression register.
pub open spec fn lower_call(s: State, elements: Seq<Element>, at: int, end: int, name: Seq<char>) -> Lowered
    decreases elements, end - at, 5int,
    when 0 <= at < end <= elements.len()
{
    if at + 1 < end && end <= elements.len() {
        match elements[at + 1] {
            Element::Parameters(arguments) => match lower_arguments(s, arguments@, 0, 0) {
                Ok(s1) => Ok(
                    (
                        s1.emit(
                            op1(Opcode::Call, OperandView::Label(LabelView::Function(name))),
                        ).emit(load(Register::Rbx, OperandView::Register(Register::Rax))),
                        at + 1,
                    ),
                ),
                Err(e) => Err(e),
            },
            _ => Err(CompileError::MalformedTree),
        }
    } else {
        Err(CompileError::MalformedTree)
    }
}

/// The lone token at `at`: a key word of control flow, a bracket, a value
/// that goes to the expression register, or the name of a function that is
/// called.
pub open spec fn lower_other(s: State, elements: Seq<Element>, at: int, end: int, token: Token) -> Lowered
    decreases elements, end - at, 6int,
    when 0 <= at < end <= elements.len()
{
    match token {
        Token::ConditionIf => lower_if(s, elements, at, end),
        Token::ConditionElse => lower_else(s, elements, at, end),
        Token::Loop => lower_loop(s, elements, at, end),
        Token::LoopBreak => match s.nearest_loop() {
            Some(n) => Ok((s.emit(jump(LabelView::LoopEnd(n))), at + 1)),
            None => Err(CompileError::MalformedTree),
        },
        Token::LoopContinue => match s.nearest_loop() {
            Some(n) => Ok((s.emit(jump(LabelView::LoopTest(n))), at + 1)),
            None => Err(CompileError::MalformedTree),
        },
        Token::NewLine => Ok((s, at + 1)),
        Token::BracketOpen => match matching_close(elements, at, end) {
            Some(close) => if at < close < end && end <= elements.len() {
                match lower_elements(enter(s, false), elements, at + 1, close) {
                    Ok(inner) => Ok((leave(s, inner), close + 1)),
                    Err(e) => Err(e),
                }
            } else {
                Err(CompileError::MalformedTree)
            },
            None => Err(CompileError::MalformedTree),
        },
        Token::Other(text) => if is_number_text(text@) {
            Ok((s.emit(load(Register::Rbx, OperandView::Value(text@))), at + 1))
        } else if s.variables.dom().contains(text@) {
            Ok(
                (
                    s.emit(
                        load(Register::Rbx, OperandView::Stack(s.variables[text@].stack_pos)),
                    ),
                    at + 1,
                ),
            )
        } else {
            lower_call(s, elements, at, end, text@)
        },
        _ => Err(CompileError::MalformedTree),
    }
}

/// The state after the whole tree of a file is lowered: the text section
/// is opened, and the elements are lowered from the first to the last.
pub open spec fn lower_file(s: State, elements: Seq<Element>) -> Result<State, CompileError> {
    lower_elements(
        s.emit(InstructionView::Section(Section::Text)),
        elements,
        0,
        elements.len() as int,
    )
}

// ------------------------------------------------------------ whole files

/// The values that define a static variable of type `type_` with the
/// value `value`: the value itself, zero where none is given; for a text
/// the characters between its quotes, between backquotes, and a zero that
/// ends it.
pub open spec fn static_values(type_: Type, value: Token) -> Result<Seq<Seq<char>>, CompileError> {
    match value {
        Token::Nothing => Ok(seq!["0"@]),
        Token::Other(text) => if type_ == Type::Str && text@ != "0"@ {
            if text@.len() < 2 {
                Err(CompileError::MalformedTree)
            } else {
                Ok(seq!["`"@ + text@.subrange(1, text@.len() - 1) + "`"@, "0"@])
            }
        } else {
            Ok(seq![text@])
        },
        _ => Err(CompileError::MalformedTree),
    }
}

/// The state after the static variable `variable` is defined: its
/// definition is added to the static data.
pub open spec fn define_static(s: State, variable: Variable) -> Result<State, CompileError> {
    define_static_as(s, variable.id@, variable.type_, variable.current_value)
}

/// The state after a static variable called `name`, of type `type_` and
/// with the value `value`, is defined.
pub open spec fn define_static_as(s: State, name: Seq<char>, type_: Type, value: Token) -> Result<
    State,
    CompileError,
> {
    match directive_of(type_) {
        Some(directive) => match static_values(type_, value) {
            Ok(values) => Ok(
                State {
                    data: s.data.push(InstructionView::Define { name, directive, values }),
                    ..s
                },
            ),
            Err(e) => Err(e),
        },
        None => Err(CompileError::Unsupported),
    }
}

/// The state in which the file of the module `module` starts: nothing is
/// written and nothing is open, the frame is empty, and the scope is the
/// module. The variables and the counters stay.
pub open spec fn file_start(s: State, module: Seq<char>) -> State {
    State {
        code: Seq::empty(),
        data: Seq::empty(),
        offset: 0,
        scope: seq![module],
        open_condition: None,
        open_loop: None,
        enclosing_loop: None,
        previous_operator: None,
        in_test: false,
        ..s
    }
}

/// The instructions of a file: the code, and behind it the static data
/// under the header of its section, where there is static data.
pub open spec fn file_listing(s: State) -> Seq<InstructionView> {
    if s.data.len() == 0 {
        s.code
    } else {
        s.code.push(InstructionView::Section(Section::Data)) + s.data
    }
}

/// The state after a file is finished: nothing is written, for the next
/// file.
pub open spec fn file_end(s: State) -> State {
    State { code: Seq::empty(), data: Seq::empty(), ..s }
}

// ------------------------------------------------------- printing, exiting

/// The name of the static text that a print statement writes.
pub open spec fn print_name() -> Seq<char> {
    "_string_"@
}

/// The state after `text` is printed: the text is defined as static data,
/// its length is counted up to the zero that ends it, and the system is
/// called to write it to the standard output.
pub open spec fn printed(s: State, text: String) -> Result<State, CompileError> {
    match define_static_as(s, print_name(), Type::Str, Token::Other(text)) {
        Ok(s1) => Ok(
            s1.emit(InstructionView::Raw("mov rdi, _string_"@)).emit(
                InstructionView::Raw("xor rcx, rcx"@),
            ).emit(InstructionView::Raw("not rcx"@)).emit(InstructionView::Raw("xor al, al"@)).emit(
                InstructionView::Raw("cld"@),
            ).emit(InstructionView::Raw("repnz scasb"@)).emit(
                InstructionView::Raw("not rcx"@),
            ).emit(InstructionView::Raw("dec rcx"@)).emit(
                InstructionView::Raw("mov rdx, rcx"@),
            ).emit(InstructionView::Raw("mov rsi, _string_"@)).emit(
                InstructionView::Raw("mov rax, 1"@),
            ).emit(InstructionView::Raw("mov rdi, rax"@)).emit(op0(Opcode::Syscall)),
        ),
        Err(e) => Err(e),
    }
}

/// The state after the process is ended with the value `value`.
pub open spec fn exited(s: State, value: OperandView) -> State {
    s.emit(load(Register::Rax, OperandView::Number(60))).emit(load(Register::Rdi, value)).emit(
        op0(Opcode::Syscall),
    )
}

/// The width that stands before a value which is stored to a variable of
/// type `type_`: that of the type before a literal, none before a name or
/// a subexpression, which are stored from a register.
pub open spec fn width_before(type_: Type, value: Token) -> Result<Option<Width>, CompileError> {
    if kind_of(value) == KindToken::Value {
        match width_of(type_) {
            Some(w) => Ok(Some(w)),
            None => Err(CompileError::Unsupported),
        }
    } else {
        Ok(None)
    }
}

/// The state after the variable that `token` names, if it names one, is
/// loaded into `register`, and whether it names one.
pub open spec fn loaded_when_named(s: State, token: Token, register: Register) -> Result<
    (State, bool),
    CompileError,
> {
    match token {
        Token::Other(text) => if is_number_text(text@) {
            Ok((s, false))
        } else if s.variables.dom().contains(text@) {
            Ok((s.emit(load(register, OperandView::Stack(s.variables[text@].stack_pos))), true))
        } else {
            Err(CompileError::UnknownIdentifier)
        },
        _ => Ok((s, false)),
    }
}

} // verus!

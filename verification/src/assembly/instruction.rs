//! Instructions as data. Offsets and label numbers are kept as numbers, so
//! that what the code generator promises can be stated of them; text is made
//! only when a listing is rendered.

use vstd::prelude::*;

verus! {

/// The registers that generated code names.
#[derive(Clone, Copy, Debug, PartialEq, Eq, Structural)]
pub enum Register {
    Rax,
    Rbx,
    Rcx,
    Rdx,
    Rdi,
    Rbp,
    Rsp,
    R8,
    R9,
    Al,
}

/// The mnemonics that stand alone, without a condition.
#[derive(Clone, Copy, Debug, PartialEq, Eq, Structural)]
pub enum Opcode {
    Mov,
    Movzx,
    Push,
    Pop,
    Add,
    Sub,
    Imul,
    Idiv,
    Compare,
    Xor,
    Jmp,
    Call,
    Ret,
    Syscall,
    Global,
}

/// The outcome of a comparison that a conditional jump or a `set`
/// instruction tests.
#[derive(Clone, Copy, Debug, PartialEq, Eq, Structural)]
pub enum Condition {
    Equal,
    NotEqual,
    Less,
    LessOrEqual,
    Greater,
    GreaterOrEqual,
}

/// A section of the output file.
#[derive(Clone, Copy, Debug, PartialEq, Eq, Structural)]
pub enum Section {
    Text,
    Data,
}

/// The width named in front of a literal that is stored to memory.
#[derive(Clone, Copy, Debug, PartialEq, Eq, Structural)]
pub enum Width {
    Byte,
    Dword,
    Qword,
}

/// The directive that defines static data of one element size.
#[derive(Clone, Copy, Debug, PartialEq, Eq, Structural)]
pub enum Directive {
    Db,
    Dd,
    Dq,
}

/// A place in the code that a jump or a call can name.
#[derive(Clone, Debug, PartialEq, Eq)]
pub enum Label {
    /// The process entry stub.
    Start,
    /// A function, by its qualified name.
    Function(String),
    /// The end of the branch of conditional number `n` that is being skipped.
    Condition(usize),
    /// The test of loop number `n`.
    LoopTest(usize),
    /// The body of loop number `n`.
    LoopCore(usize),
    /// The first instruction after loop number `n`.
    LoopEnd(usize),
}

/// What a `Label` stands for in contracts.
pub enum LabelView {
    Start,
    Function(Seq<char>),
    Condition(usize),
    LoopTest(usize),
    LoopCore(usize),
    LoopEnd(usize),
}

impl DeepView for Label {
    type V = LabelView;

    open spec fn deep_view(&self) -> LabelView {
        match self {
            Label::Start => LabelView::Start,
            Label::Function(name) => LabelView::Function(name@),
            Label::Condition(n) => LabelView::Condition(*n),
            Label::LoopTest(n) => LabelView::LoopTest(*n),
            Label::LoopCore(n) => LabelView::LoopCore(*n),
            Label::LoopEnd(n) => LabelView::LoopEnd(*n),
        }
    }
}

/// What an instruction works on.
#[derive(Clone, Debug, PartialEq, Eq)]
pub enum Operand {
    Register(Register),
    /// The slot of the current frame that lies `offset` bytes under the
    /// frame base.
    Stack(usize),
    /// A literal, written as the source wrote it.
    Value(String),
    /// A number of the compiler's own.
    Number(usize),
    Label(Label),
    Width(Width),
}

/// What an `Operand` stands for in contracts.
pub enum OperandView {
    Register(Register),
    Stack(usize),
    Value(Seq<char>),
    Number(usize),
    Label(LabelView),
    Width(Width),
}

impl DeepView for Operand {
    type V = OperandView;

    open spec fn deep_view(&self) -> OperandView {
        match self {
            Operand::Register(r) => OperandView::Register(*r),
            Operand::Stack(offset) => OperandView::Stack(*offset),
            Operand::Value(text) => OperandView::Value(text@),
            Operand::Number(n) => OperandView::Number(*n),
            Operand::Label(label) => OperandView::Label(label.deep_view()),
            Operand::Width(w) => OperandView::Width(*w),
        }
    }
}

/// One line of assembly.
#[derive(Clone, Debug, PartialEq, Eq)]
pub enum Instruction {
    /// `name:`
    Label(Label),
    /// `section .name`
    Section(Section),
    /// Text that the source gave as assembly, written as it is.
    Raw(String),
    /// A mnemonic with its operands and, after them, an optional comment.
    Op { opcode: Opcode, operands: Vec<Operand>, comment: Option<String> },
    /// A jump that is taken when `condition` holds of the last comparison.
    JumpIf { condition: Condition, target: Label },
    /// Sets `register` to 1 when `condition` holds of the last comparison,
    /// to 0 when it does not.
    SetIf { condition: Condition, register: Register },
    /// Static data: a name, an element size and the values.
    Define { name: String, directive: Directive, values: Vec<String> },
}

/// What an `Instruction` stands for in contracts.
pub enum InstructionView {
    Label(LabelView),
    Section(Section),
    Raw(Seq<char>),
    Op { opcode: Opcode, operands: Seq<OperandView>, comment: Option<Seq<char>> },
    JumpIf { condition: Condition, target: LabelView },
    SetIf { condition: Condition, register: Register },
    Define { name: Seq<char>, directive: Directive, values: Seq<Seq<char>> },
}

/// The text of an optional string.
pub open spec fn optional_text(text: Option<String>) -> Option<Seq<char>> {
    match text {
        Some(t) => Some(t@),
        None => None,
    }
}

impl DeepView for Instruction {
    type V = InstructionView;

    open spec fn deep_view(&self) -> InstructionView {
        match self {
            Instruction::Label(label) => InstructionView::Label(label.deep_view()),
            Instruction::Section(section) => InstructionView::Section(*section),
            Instruction::Raw(text) => InstructionView::Raw(text@),
            Instruction::Op { opcode, operands, comment } => InstructionView::Op {
                opcode: *opcode,
                operands: operands.deep_view(),
                comment: optional_text(*comment),
            },
            Instruction::JumpIf { condition, target } => InstructionView::JumpIf {
                condition: *condition,
                target: target.deep_view(),
            },
            Instruction::SetIf { condition, register } => InstructionView::SetIf {
                condition: *condition,
                register: *register,
            },
            Instruction::Define { name, directive, values } => InstructionView::Define {
                name: name@,
                directive: *directive,
                values: values.deep_view(),
            },
        }
    }
}

/// `opcode` without operands.
pub open spec fn op0(opcode: Opcode) -> InstructionView {
    InstructionView::Op { opcode, operands: Seq::empty(), comment: None }
}

/// `opcode a`.
pub open spec fn op1(opcode: Opcode, a: OperandView) -> InstructionView {
    InstructionView::Op { opcode, operands: seq![a], comment: None }
}

/// `opcode a, b`.
pub open spec fn op2(opcode: Opcode, a: OperandView, b: OperandView) -> InstructionView {
    InstructionView::Op { opcode, operands: seq![a, b], comment: None }
}

/// `mov register, source`.
pub open spec fn load(register: Register, source: OperandView) -> InstructionView {
    op2(Opcode::Mov, OperandView::Register(register), source)
}

/// `jmp target`.
pub open spec fn jump(target: LabelView) -> InstructionView {
    op1(Opcode::Jmp, OperandView::Label(target))
}

impl Instruction {
    /// `opcode` without operands.
    pub fn nullary(opcode: Opcode) -> (i: Instruction)
        ensures
            i.deep_view() == op0(opcode),
    {
        let i = Instruction::Op { opcode, operands: Vec::new(), comment: None };
        assert(i.deep_view()->Op_operands =~= Seq::empty());
        i
    }

    /// `opcode a`.
    pub fn unary(opcode: Opcode, a: Operand) -> (i: Instruction)
        ensures
            i.deep_view() == op1(opcode, a.deep_view()),
    {
        let mut operands: Vec<Operand> = Vec::new();
        operands.push(a);
        let i = Instruction::Op { opcode, operands, comment: None };
        assert(i.deep_view()->Op_operands =~= seq![a.deep_view()]);
        i
    }

    /// `opcode a, b`.
    pub fn binary(opcode: Opcode, a: Operand, b: Operand) -> (i: Instruction)
        ensures
            i.deep_view() == op2(opcode, a.deep_view(), b.deep_view()),
    {
        let mut operands: Vec<Operand> = Vec::new();
        operands.push(a);
        operands.push(b);
        let i = Instruction::Op { opcode, operands, comment: None };
        assert(i.deep_view()->Op_operands =~= seq![a.deep_view(), b.deep_view()]);
        i
    }

    /// `mov register, source`.
    pub fn load(register: Register, source: Operand) -> (i: Instruction)
        ensures
            i.deep_view() == load(register, source.deep_view()),
    {
        Instruction::binary(Opcode::Mov, Operand::Register(register), source)
    }

    /// `jmp target`.
    pub fn jump(target: Label) -> (i: Instruction)
        ensures
            i.deep_view() == jump(target.deep_view()),
    {
        Instruction::unary(Opcode::Jmp, Operand::Label(target))
    }
}

} // verus!

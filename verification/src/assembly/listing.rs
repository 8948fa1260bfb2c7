//! From instructions to text: the text of labels and operands, which this
//! crate decides, and the rendering of whole listings, which `x64asm` does.

use crate::assembly::assembler::{
    assembly_text, formatter_new, formatter_text, Line, listing, push_define, push_jump_if,
    push_label, push_op, push_raw, push_section, push_set_if, register_name, register_text, with_tabs,
};
use crate::assembly::instruction::{
    Instruction, InstructionView, Label, LabelView, Operand, OperandView, Register, Width,
};
use crate::text::{concat, decimal, decimal_text};
use vstd::prelude::*;
use x64asm::formatter::Formatter;

verus! {

/// How a label is written.
pub open spec fn label_text(label: LabelView) -> Seq<char> {
    match label {
        LabelView::Start => "_start"@,
        LabelView::Function(name) => name,
        LabelView::Condition(n) => ".cond_"@ + decimal_text(n as nat),
        LabelView::LoopTest(n) => ".loop_test_"@ + decimal_text(n as nat),
        LabelView::LoopCore(n) => ".loop_core_"@ + decimal_text(n as nat),
        LabelView::LoopEnd(n) => ".loop_end_"@ + decimal_text(n as nat),
    }
}

/// How a width is written.
pub open spec fn width_text(width: Width) -> Seq<char> {
    match width {
        Width::Byte => "byte"@,
        Width::Dword => "dword"@,
        Width::Qword => "qword"@,
    }
}

/// How the frame slot `offset` bytes under the frame base is written.
pub open spec fn stack_text(offset: usize) -> Seq<char> {
    "["@ + register_name(Register::Rbp) + "-"@ + decimal_text(offset as nat) + "]"@
}

/// How an operand is written.
pub open spec fn operand_text(operand: OperandView) -> Seq<char> {
    match operand {
        OperandView::Register(register) => register_name(register),
        OperandView::Stack(offset) => stack_text(offset),
        OperandView::Value(text) => text,
        OperandView::Number(n) => decimal_text(n as nat),
        OperandView::Label(label) => label_text(label),
        OperandView::Width(width) => width_text(width),
    }
}

/// The text of each operand of `operands`.
pub open spec fn operand_texts(operands: Seq<OperandView>) -> Seq<Seq<char>> {
    Seq::new(operands.len(), |i: int| operand_text(operands[i]))
}

/// The instruction as it is handed to the formatter.
pub open spec fn line_of(instruction: InstructionView) -> Line {
    match instruction {
        InstructionView::Label(label) => Line::Label(label_text(label)),
        InstructionView::Section(section) => Line::Section(section),
        InstructionView::Raw(code) => Line::Raw(code),
        InstructionView::Op { opcode, operands, comment } => Line::Op {
            opcode,
            operands: operand_texts(operands),
            comment,
        },
        InstructionView::JumpIf { condition, target } => Line::JumpIf {
            condition,
            target: label_text(target),
        },
        InstructionView::SetIf { condition, register } => Line::SetIf {
            condition,
            operand: register_name(register),
        },
        InstructionView::Define { name, directive, values } => Line::Define {
            name,
            directive,
            values,
        },
    }
}

/// The instructions of `code` as they are handed to the formatter.
pub open spec fn lines_of(code: Seq<InstructionView>) -> Seq<Line> {
    Seq::new(code.len(), |i: int| line_of(code[i]))
}

impl Label {
    /// Writes the label.
    pub fn text(&self) -> (text: String)
        ensures
            text@ == label_text(self.deep_view()),
    {
        match self {
            Label::Start => String::from_str("_start"),
            Label::Function(name) => name.clone(),
            Label::Condition(n) => concat(".cond_", decimal(*n).as_str()),
            Label::LoopTest(n) => concat(".loop_test_", decimal(*n).as_str()),
            Label::LoopCore(n) => concat(".loop_core_", decimal(*n).as_str()),
            Label::LoopEnd(n) => concat(".loop_end_", decimal(*n).as_str()),
        }
    }
}

impl Width {
    /// Writes the width.
    pub fn text(&self) -> (text: String)
        ensures
            text@ == width_text(*self),
    {
        match self {
            Width::Byte => String::from_str("byte"),
            Width::Dword => String::from_str("dword"),
            Width::Qword => String::from_str("qword"),
        }
    }
}

impl Operand {
    /// Writes the operand.
    pub fn text(&self) -> (text: String)
        ensures
            text@ == operand_text(self.deep_view()),
    {
        match self {
            Operand::Register(register) => register_text(*register),
            Operand::Stack(offset) => {
                let mut text = String::from_str("[");
                text.append(register_text(Register::Rbp).as_str());
                text.append("-");
                text.append(decimal(*offset).as_str());
                text.append("]");
                text
            },
            Operand::Value(value) => value.clone(),
            Operand::Number(n) => decimal(*n),
            Operand::Label(label) => label.text(),
            Operand::Width(width) => width.text(),
        }
    }
}

/// Writes each operand of `operands`.
fn operands_text(operands: &Vec<Operand>) -> (texts: Vec<String>)
    ensures
        texts.deep_view() == operand_texts(operands.deep_view()),
{
    let mut texts: Vec<String> = Vec::new();
    let mut i: usize = 0;
    while i < operands.len()
        invariant
            i <= operands.len(),
            texts.len() == i,
            forall|k: int| 0 <= k < i ==> (#[trigger] texts[k])@ == operand_text(operands[k].deep_view()),
        decreases operands.len() - i,
    {
        texts.push(operands[i].text());
        i += 1;
    }
    assert(texts.deep_view() =~= operand_texts(operands.deep_view()));
    texts
}

/// Hands one instruction to the formatter.
fn add_line(formatter: &mut Formatter, instruction: &Instruction)
    ensures
        listing(*final(formatter)) == listing(*old(formatter)).push(
            line_of(instruction.deep_view()),
        ),
        with_tabs(*final(formatter)) == with_tabs(*old(formatter)),
{
    match instruction {
        Instruction::Label(label) => push_label(formatter, label.text().as_str()),
        Instruction::Section(section) => push_section(formatter, *section),
        Instruction::Raw(code) => push_raw(formatter, code.as_str()),
        Instruction::Op { opcode, operands, comment } => {
            let texts = operands_text(operands);
            push_op(formatter, *opcode, &texts, comment);
        },
        Instruction::JumpIf { condition, target } => {
            push_jump_if(formatter, *condition, target.text().as_str())
        },
        Instruction::SetIf { condition, register } => {
            push_set_if(formatter, *condition, register_text(*register).as_str())
        },
        Instruction::Define { name, directive, values } => {
            push_define(formatter, name.as_str(), *directive, values)
        },
    }
}

/// The assembly text of `code`: each instruction is handed to a formatter of
/// `x64asm` in turn, and the formatter writes the listing.
pub fn assemble(code: &Vec<Instruction>) -> (text: String)
    ensures
        text@ == assembly_text(lines_of(code.deep_view())),
{
    let mut formatter = formatter_new();
    let mut i: usize = 0;
    while i < code.len()
        invariant
            i <= code.len(),
            listing(formatter) == lines_of(code.deep_view().take(i as int)),
            !with_tabs(formatter),
        decreases code.len() - i,
    {
        add_line(&mut formatter, &code[i]);
        assert(lines_of(code.deep_view().take(i as int)).push(line_of(code[i as int].deep_view()))
            =~= lines_of(code.deep_view().take(i + 1)));
        i += 1;
    }
    assert(code.deep_view().take(code.len() as int) =~= code.deep_view());
    formatter_text(&formatter)
}

} // verus!

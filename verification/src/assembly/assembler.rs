//! The calls into the `x64asm` crate, which writes assembly text. Nothing in
//! this file is proved: each contract below is what the rest of the crate
//! believes of one function of `x64asm`.

use crate::assembly::instruction::{Condition, Directive, Opcode, Register, Section};
use vstd::prelude::*;
use x64asm::formatter::Formatter;
use x64asm::instruction::Instruction;
use x64asm::mnemonic::Mnemonic;
use x64asm::operand::Operand;

verus! {

/// `x64asm::formatter::Formatter`: the instructions of one listing, in the
/// order in which they were added.
#[verifier::external_type_specification]
#[verifier::external_body]
pub struct ExFormatter(Formatter);

/// One instruction as a `Formatter` holds it: the mnemonic, and the text of
/// each operand and of the comment.
pub enum Line {
    Label(Seq<char>),
    Section(Section),
    Raw(Seq<char>),
    Op { opcode: Opcode, operands: Seq<Seq<char>>, comment: Option<Seq<char>> },
    JumpIf { condition: Condition, target: Seq<char> },
    SetIf { condition: Condition, operand: Seq<char> },
    Define { name: Seq<char>, directive: Directive, values: Seq<Seq<char>> },
}

/// The instructions that `formatter` holds, oldest first.
pub uninterp spec fn listing(formatter: Formatter) -> Seq<Line>;

/// Whether `formatter` was made to write tabulators in the place of
/// spaces.
pub uninterp spec fn with_tabs(formatter: Formatter) -> bool;

/// The text that `Formatter::fmt` writes for the instructions `lines`, added
/// in this order to a formatter that keeps spaces.
pub uninterp spec fn assembly_text(lines: Seq<Line>) -> Seq<char>;

/// The text of each string of `texts`.
pub open spec fn texts_of(texts: Vec<String>) -> Seq<Seq<char>> {
    texts.deep_view()
}

/// The text of `text`, where there is one.
pub open spec fn text_of(text: Option<String>) -> Option<Seq<char>> {
    match text {
        Some(t) => Some(t@),
        None => None,
    }
}

/// `Formatter::new`, asked to keep spaces: the new formatter holds no
/// instruction and keeps spaces.
#[verifier::external_body]
pub(crate) fn formatter_new() -> (formatter: Formatter)
    ensures
        listing(formatter) == Seq::<Line>::empty(),
        !with_tabs(formatter),
{
    Formatter::new(false)
}

/// `Formatter::add_instruction` with a label: the label is added behind the
/// instructions that the formatter held.
#[verifier::external_body]
pub(crate) fn push_label(formatter: &mut Formatter, name: &str)
    ensures
        listing(*final(formatter)) == listing(*old(formatter)).push(Line::Label(name@)),
        with_tabs(*final(formatter)) == with_tabs(*old(formatter)),
{
    let label = x64asm::label::Label::new(name.to_string());
    formatter.add_instruction(Instruction::new(Mnemonic::Label(label)));
}

/// `Formatter::add_instruction` with a section header: the header is added
/// behind the instructions that the formatter held.
#[verifier::external_body]
pub(crate) fn push_section(formatter: &mut Formatter, section: Section)
    ensures
        listing(*final(formatter)) == listing(*old(formatter)).push(Line::Section(section)),
        with_tabs(*final(formatter)) == with_tabs(*old(formatter)),
{
    let section = match section {
        Section::Text => x64asm::section::Section::Text,
        Section::Data => x64asm::section::Section::Data,
    };
    formatter.add_instruction(Instruction::new(Mnemonic::Section(section)));
}

/// `Formatter::add_instruction` with text that stands for a whole
/// instruction: the text is added behind the instructions that the formatter
/// held.
#[verifier::external_body]
pub(crate) fn push_raw(formatter: &mut Formatter, code: &str)
    ensures
        listing(*final(formatter)) == listing(*old(formatter)).push(Line::Raw(code@)),
        with_tabs(*final(formatter)) == with_tabs(*old(formatter)),
{
    formatter.add_instruction(Instruction::new(Mnemonic::Expression(code.to_string())));
}

/// `Formatter::add_instruction` with a mnemonic, its operands as text and a
/// comment: that instruction is added behind the instructions that the
/// formatter held.
#[verifier::external_body]
pub(crate) fn push_op(
    formatter: &mut Formatter,
    opcode: Opcode,
    operands: &Vec<String>,
    comment: &Option<String>,
)
    ensures
        listing(*final(formatter)) == listing(*old(formatter)).push(
            Line::Op { opcode, operands: texts_of(*operands), comment: text_of(*comment) },
        ),
        with_tabs(*final(formatter)) == with_tabs(*old(formatter)),
{
    let mnemonic = match opcode {
        Opcode::Mov => Mnemonic::Mov, Opcode::Movzx => Mnemonic::Movzx,
        Opcode::Push => Mnemonic::Push, Opcode::Pop => Mnemonic::Pop,
        Opcode::Add => Mnemonic::Add, Opcode::Sub => Mnemonic::Sub,
        Opcode::Imul => Mnemonic::Imul, Opcode::Idiv => Mnemonic::Idiv,
        Opcode::Compare => Mnemonic::Cmp, Opcode::Xor => Mnemonic::Xor,
        Opcode::Jmp => Mnemonic::Jmp, Opcode::Call => Mnemonic::Call,
        Opcode::Ret => Mnemonic::Ret, Opcode::Syscall => Mnemonic::Syscall,
        Opcode::Global => Mnemonic::Global,
    };
    let operands = operands.iter().map(|o| Operand::Expression(o.clone())).collect();
    formatter.add_instruction(Instruction { mnemonic, operands, comment: comment.clone() });
}

/// `Formatter::add_instruction` with a conditional jump to the label
/// `target`: the jump is added behind the instructions that the formatter
/// held.
#[verifier::external_body]
pub(crate) fn push_jump_if(formatter: &mut Formatter, condition: Condition, target: &str)
    ensures
        listing(*final(formatter)) == listing(*old(formatter)).push(
            Line::JumpIf { condition, target: target@ },
        ),
        with_tabs(*final(formatter)) == with_tabs(*old(formatter)),
{
    let mnemonic = match condition {
        Condition::Equal => Mnemonic::Je,
        Condition::NotEqual => Mnemonic::Jne,
        Condition::Less => Mnemonic::Jl,
        Condition::LessOrEqual => Mnemonic::Jle,
        Condition::Greater => Mnemonic::Jg,
        Condition::GreaterOrEqual => Mnemonic::Jge,
    };
    let operands = vec![Operand::Label(target.to_string())];
    formatter.add_instruction(Instruction { mnemonic, operands, comment: None });
}

/// `Formatter::add_instruction` with a `set` instruction on the operand
/// written `operand`: the instruction is added behind the instructions that
/// the formatter held.
#[verifier::external_body]
pub(crate) fn push_set_if(formatter: &mut Formatter, condition: Condition, operand: &str)
    ensures
        listing(*final(formatter)) == listing(*old(formatter)).push(
            Line::SetIf { condition, operand: operand@ },
        ),
        with_tabs(*final(formatter)) == with_tabs(*old(formatter)),
{
    let mnemonic = match condition {
        Condition::Equal => Mnemonic::Sete,
        Condition::NotEqual => Mnemonic::Setne,
        Condition::Less => Mnemonic::Setl,
        Condition::LessOrEqual => Mnemonic::Setle,
        Condition::Greater => Mnemonic::Setg,
        Condition::GreaterOrEqual => Mnemonic::Setge,
    };
    let operands = vec![Operand::Expression(operand.to_string())];
    formatter.add_instruction(Instruction { mnemonic, operands, comment: None });
}

/// `Formatter::add_instruction` with a definition of static data, a label
/// followed by a define directive and the values: the definition is added
/// behind the instructions that the formatter held.
#[verifier::external_body]
pub(crate) fn push_define(
    formatter: &mut Formatter,
    name: &str,
    directive: Directive,
    values: &Vec<String>,
)
    ensures
        listing(*final(formatter)) == listing(*old(formatter)).push(
            Line::Define { name: name@, directive, values: texts_of(*values) },
        ),
        with_tabs(*final(formatter)) == with_tabs(*old(formatter)),
{
    let directive = match directive {
        Directive::Db => x64asm::ddirective::DefineDirective::Db,
        Directive::Dd => x64asm::ddirective::DefineDirective::Dd,
        Directive::Dq => x64asm::ddirective::DefineDirective::Dq,
    };
    let mut operands = vec![Operand::DefineDirective(directive)];
    operands.extend(values.iter().map(|v| Operand::Expression(v.clone())));
    let mnemonic = Mnemonic::Label(x64asm::label::Label::new(name.to_string()));
    formatter.add_instruction(Instruction { mnemonic, operands, comment: None });
}

/// `Formatter::fmt`: the text of the instructions that the formatter
/// holds, where the formatter keeps spaces.
#[verifier::external_body]
pub(crate) fn formatter_text(formatter: &Formatter) -> (text: String)
    ensures
        !with_tabs(*formatter) ==> text@ == assembly_text(listing(*formatter)),
{
    formatter.fmt()
}

/// The name of `register` in assembly text.
pub open spec fn register_name(register: Register) -> Seq<char> {
    match register {
        Register::Rax => "rax"@,
        Register::Rbx => "rbx"@,
        Register::Rcx => "rcx"@,
        Register::Rdx => "rdx"@,
        Register::Rdi => "rdi"@,
        Register::Rbp => "rbp"@,
        Register::Rsp => "rsp"@,
        Register::R8 => "r8"@,
        Register::R9 => "r9"@,
        Register::Al => "al"@,
    }
}

/// `Register::to_string` of `x64asm`: the register's name in lower case.
#[verifier::external_body]
pub(crate) fn register_text(register: Register) -> (text: String)
    ensures
        text@ == register_name(register),
{
    let register = match register {
        Register::Rax => x64asm::register::Register::Rax,
        Register::Rbx => x64asm::register::Register::Rbx,
        Register::Rcx => x64asm::register::Register::Rcx,
        Register::Rdx => x64asm::register::Register::Rdx,
        Register::Rdi => x64asm::register::Register::Rdi,
        Register::Rbp => x64asm::register::Register::Rbp,
        Register::Rsp => x64asm::register::Register::Rsp,
        Register::R8 => x64asm::register::Register::R8,
        Register::R9 => x64asm::register::Register::R9,
        Register::Al => x64asm::register::Register::Al,
    };
    register.to_string()
}

} // verus!

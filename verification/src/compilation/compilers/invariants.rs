//! What holds of the generated code at every moment of a walk: function
//! labels and returns stand in their frames, and labels carry numbers that
//! the counters have given out.

use crate::assembly::instruction::{
    InstructionView, jump, LabelView, load, op0, op1, op2, Opcode, OperandView, Register, Section,
};
use crate::compilation::compilers::base::is_number_text;
use crate::compilation::compilers::model::{
    allocate, assign_array, assign_items, assign_scalar, both_identifiers, close_condition,
    close_loop, close_open, closed_before, computation, declare_parameters, enter, epilogue,
    function_head, inverted, item_name, leave, lower_arguments, lower_assign,
    lower_assignment, lower_call, lower_element, lower_elements, lower_else, lower_expression,
    lower_file, lower_function, lower_if, lower_loop, lower_operation, lower_other, lower_return,
    lower_variable, matching_close, opens, operand_of, Operator, operator_of, prologue, start_stub,
    State, store,
};
use crate::compilation::defaults::parameter_register;
use crate::objects::function::Function;
use crate::objects::type_::{size_of, Type, width_of};
use crate::objects::variable::Variable;
use crate::parsing::elements::{Element, Operation};
use crate::parsing::elements::Token;
use vstd::prelude::*;

verus! {

/// Whether `instruction` is the label of a function.
pub open spec fn is_function_label(instruction: InstructionView) -> bool {
    instruction matches InstructionView::Label(LabelView::Function(_))
}

/// The instruction that saves the frame pointer of the caller.
pub open spec fn save_frame() -> InstructionView {
    op1(Opcode::Push, OperandView::Register(Register::Rbp))
}

/// The instruction that sets up the frame of a function.
pub open spec fn new_frame() -> InstructionView {
    op2(Opcode::Mov, OperandView::Register(Register::Rbp), OperandView::Register(Register::Rsp))
}

/// The instruction that restores the frame pointer of the caller.
pub open spec fn restore_frame() -> InstructionView {
    op1(Opcode::Pop, OperandView::Register(Register::Rbp))
}

/// The instruction that returns to the caller.
pub open spec fn ret() -> InstructionView {
    op0(Opcode::Ret)
}

/// Whether instruction number `k` of `code` stands in its frame: the label
/// of a function has its prologue behind it, the frame pointer is saved
/// nowhere but there, and the frame pointer is restored exactly where the
/// function returns.
pub open spec fn framed_at(code: Seq<InstructionView>, k: int) -> bool {
    &&& is_function_label(code[k]) ==> k + 2 < code.len() && code[k + 1] == save_frame() && code[k
        + 2] == new_frame()
    &&& code[k] == save_frame() ==> k >= 1 && is_function_label(code[k - 1])
    &&& code[k] == restore_frame() ==> k + 1 < code.len() && code[k + 1] == ret()
    &&& code[k] == ret() ==> k >= 1 && code[k - 1] == restore_frame()
}

/// Whether every instruction of `code` stands in its frame.
pub open spec fn framed(code: Seq<InstructionView>) -> bool {
    forall|k: int| 0 <= k < code.len() ==> #[trigger] framed_at(code, k)
}

/// Whether `instruction`, if it is a label of a conditional or a loop,
/// carries a number that the counters have given out.
pub open spec fn numbered(instruction: InstructionView, conditions: usize, loops: usize) -> bool {
    match instruction {
        InstructionView::Label(LabelView::Condition(n)) => 1 <= n <= conditions,
        InstructionView::Label(LabelView::LoopTest(n)) => 1 <= n <= loops,
        InstructionView::Label(LabelView::LoopCore(n)) => 1 <= n <= loops,
        InstructionView::Label(LabelView::LoopEnd(n)) => 1 <= n <= loops,
        _ => true,
    }
}

/// Whether a number that is kept for later was given out by the counter.
pub open spec fn given_out(kept: Option<usize>, counter: usize) -> bool {
    match kept {
        Some(n) => 1 <= n <= counter,
        None => true,
    }
}

/// What holds of the state at every moment of a walk.
pub open spec fn sound(s: State) -> bool {
    &&& framed(s.code)
    &&& forall|k: int| 0 <= k < s.code.len() ==> #[trigger] numbered(s.code[k], s.conditions, s.loops)
    &&& given_out(s.open_condition, s.conditions)
    &&& given_out(s.open_loop, s.loops)
    &&& given_out(s.enclosing_loop, s.loops)
}

/// Whether the counters of `after` are those of `before` or beyond them.
pub open spec fn counted_on(before: State, after: State) -> bool {
    before.conditions <= after.conditions && before.loops <= after.loops
}

/// Whether `instruction` is a label of a conditional or of a loop.
pub open spec fn is_numbered_label(instruction: InstructionView) -> bool {
    match instruction {
        InstructionView::Label(LabelView::Condition(_)) => true,
        InstructionView::Label(LabelView::LoopTest(_)) => true,
        InstructionView::Label(LabelView::LoopCore(_)) => true,
        InstructionView::Label(LabelView::LoopEnd(_)) => true,
        _ => false,
    }
}

/// The label that ends the conditional number `n`.
pub open spec fn condition_label(n: usize) -> InstructionView {
    InstructionView::Label(LabelView::Condition(n))
}

/// The label behind the loop number `n`.
pub open spec fn loop_end_label(n: usize) -> InstructionView {
    InstructionView::Label(LabelView::LoopEnd(n))
}

/// Whether `instruction` stands nowhere in `code`.
pub open spec fn absent(code: Seq<InstructionView>, instruction: InstructionView) -> bool {
    forall|k: int| 0 <= k < code.len() ==> #[trigger] code[k] != instruction
}

/// Whether no label of a conditional or of a loop stands twice in `code`.
pub open spec fn unique_labels(code: Seq<InstructionView>) -> bool {
    forall|i: int, j: int|
        0 <= i < j < code.len() && is_numbered_label(#[trigger] code[i]) ==> code[i]
            != #[trigger] code[j]
}

/// Whether the label that is kept for the open conditional, and the one
/// kept for the open loop, are still to be written.
pub open spec fn kept_unwritten(s: State) -> bool {
    &&& s.open_condition matches Some(n) ==> absent(s.code, condition_label(n))
    &&& s.open_loop matches Some(n) ==> absent(s.code, loop_end_label(n))
}

/// What holds of the state at every moment of a walk, labels included:
/// the state is sound, no label is written twice, and the labels that
/// are kept for later are not written yet.
pub open spec fn clean(s: State) -> bool {
    &&& sound(s)
    &&& unique_labels(s.code)
    &&& kept_unwritten(s)
}

/// Whether `instruction` may be written from the state `s` on: a label of
/// a conditional or of a loop carries a number beyond the counter of `s`,
/// or is the label that `s` keeps for later.
pub open spec fn allowed(s: State, instruction: InstructionView) -> bool {
    match instruction {
        InstructionView::Label(LabelView::Condition(n)) => n > s.conditions || s.open_condition
            == Some(n),
        InstructionView::Label(LabelView::LoopTest(n)) => n > s.loops,
        InstructionView::Label(LabelView::LoopCore(n)) => n > s.loops,
        InstructionView::Label(LabelView::LoopEnd(n)) => n > s.loops || s.open_loop == Some(n),
        _ => true,
    }
}

/// Whether a number that `after` keeps for later may be written from the
/// state `before` on.
pub open spec fn kept_allowed(before: State, after: State) -> bool {
    &&& after.open_condition matches Some(n) ==> n > before.conditions || before.open_condition
        == Some(n)
    &&& after.open_loop matches Some(n) ==> n > before.loops || before.open_loop == Some(n)
}

/// Whether the state `after` comes from the state `before` by writing:
/// the code of `before` stands unchanged at the start of the code of
/// `after`, what stands behind it may be written from `before` on, the
/// counters have not gone back, and the scope is what it was.
pub open spec fn extends(before: State, after: State) -> bool {
    &&& before.code.len() <= after.code.len()
    &&& forall|k: int| 0 <= k < before.code.len() ==> #[trigger] after.code[k] == before.code[k]
    &&& forall|k: int|
        before.code.len() <= k < after.code.len() ==> allowed(before, #[trigger] after.code[k])
    &&& counted_on(before, after)
    &&& kept_allowed(before, after)
    &&& after.scope == before.scope
}

/// Writing goes on from writing: what comes from a state that comes from
/// a first state comes from the first state.
pub proof fn lemma_extends_twice(first: State, second: State, third: State)
    requires
        extends(first, second),
        extends(second, third),
    ensures
        extends(first, third),
{
    assert forall|k: int| 0 <= k < first.code.len() implies #[trigger] third.code[k]
        == first.code[k] by {
        assert(second.code[k] == first.code[k]);
    }
    assert forall|k: int| first.code.len() <= k < third.code.len() implies allowed(
        first,
        #[trigger] third.code[k],
    ) by {
        if k < second.code.len() {
            assert(third.code[k] == second.code[k]);
            assert(allowed(first, second.code[k]));
        } else {
            assert(allowed(second, third.code[k]));
        }
    }
}

/// Writing an instruction that is no label of a conditional or a loop,
/// and belongs to no prologue or epilogue, keeps the state clean.
pub proof fn lemma_write(s: State, instruction: InstructionView)
    requires
        clean(s),
        plain(instruction),
        !is_numbered_label(instruction),
    ensures
        clean(s.emit(instruction)),
        extends(s, s.emit(instruction)),
{
    lemma_emit(s, instruction);
    let code = s.emit(instruction).code;
    assert forall|i: int, j: int|
        0 <= i < j < code.len() && is_numbered_label(#[trigger] code[i]) implies code[i]
        != #[trigger] code[j] by {
        if j < s.code.len() {
            assert(s.code[i] != s.code[j]);
        }
    }
    if let Some(n) = s.open_condition {
        assert forall|k: int| 0 <= k < code.len() implies #[trigger] code[k] != condition_label(
            n,
        ) by {
            if k < s.code.len() {
                assert(s.code[k] != condition_label(n));
            }
        }
    }
    if let Some(n) = s.open_loop {
        assert forall|k: int| 0 <= k < code.len() implies #[trigger] code[k] != loop_end_label(
            n,
        ) by {
            if k < s.code.len() {
                assert(s.code[k] != loop_end_label(n));
            }
        }
    }
}

/// Writing a label of a conditional or a loop that stands nowhere yet and
/// is not kept for later keeps the state clean.
pub proof fn lemma_write_label(s: State, label: InstructionView)
    requires
        clean(s),
        is_numbered_label(label),
        numbered(label, s.conditions, s.loops),
        absent(s.code, label),
        s.open_condition matches Some(n) ==> label != condition_label(n),
        s.open_loop matches Some(n) ==> label != loop_end_label(n),
    ensures
        clean(s.emit(label)),
        forall|k: int| 0 <= k < s.code.len() ==> #[trigger] s.emit(label).code[k] == s.code[k],
{
    lemma_emit(s, label);
    let code = s.emit(label).code;
    assert forall|i: int, j: int|
        0 <= i < j < code.len() && is_numbered_label(#[trigger] code[i]) implies code[i]
        != #[trigger] code[j] by {
        if j < s.code.len() {
            assert(s.code[i] != s.code[j]);
        } else {
            assert(s.code[i] != label);
        }
    }
    if let Some(n) = s.open_condition {
        assert forall|k: int| 0 <= k < code.len() implies #[trigger] code[k] != condition_label(
            n,
        ) by {
            if k < s.code.len() {
                assert(s.code[k] != condition_label(n));
            }
        }
    }
    if let Some(n) = s.open_loop {
        assert forall|k: int| 0 <= k < code.len() implies #[trigger] code[k] != loop_end_label(
            n,
        ) by {
            if k < s.code.len() {
                assert(s.code[k] != loop_end_label(n));
            }
        }
    }
}

/// A state with the code of a clean state, counters that are not behind
/// those of that state, and kept numbers that were given out and are not
/// written is clean.
pub proof fn lemma_same_clean(s: State, other: State)
    requires
        clean(s),
        other.code == s.code,
        counted_on(s, other),
        given_out(other.open_condition, other.conditions),
        given_out(other.open_loop, other.loops),
        given_out(other.enclosing_loop, other.loops),
        kept_unwritten(other),
    ensures
        clean(other),
        kept_allowed(s, other) && other.scope == s.scope ==> extends(s, other),
{
    lemma_same_code(s, other);
}

/// No label of a number beyond the counters stands in the code of a
/// sound state.
pub proof fn lemma_beyond_is_absent(s: State, n: usize)
    requires
        sound(s),
    ensures
        n > s.conditions ==> absent(s.code, condition_label(n)),
        n > s.loops ==> absent(s.code, loop_end_label(n)),
        n > s.loops ==> absent(s.code, InstructionView::Label(LabelView::LoopTest(n))),
        n > s.loops ==> absent(s.code, InstructionView::Label(LabelView::LoopCore(n))),
{
    assert forall|k: int| 0 <= k < s.code.len() implies (n > s.conditions ==> #[trigger] s.code[k]
        != condition_label(n)) && (n > s.loops ==> s.code[k] != loop_end_label(n) && s.code[k]
        != InstructionView::Label(LabelView::LoopTest(n)) && s.code[k] != InstructionView::Label(
        LabelView::LoopCore(n),
    )) by {
        assert(numbered(s.code[k], s.conditions, s.loops));
    }
}

/// A label that stood nowhere in the code of `before`, and may not be
/// written from `before` on, stands nowhere in the code of a state that
/// comes from `before`.
pub proof fn lemma_still_absent(before: State, after: State, label: InstructionView)
    requires
        extends(before, after),
        absent(before.code, label),
        !allowed(before, label),
    ensures
        absent(after.code, label),
{
    assert forall|k: int| 0 <= k < after.code.len() implies #[trigger] after.code[k] != label by {
        if k < before.code.len() {
            assert(after.code[k] == before.code[k]);
            assert(before.code[k] != label);
        } else {
            assert(allowed(before, after.code[k]));
        }
    }
}

/// Whether `instruction` can be written anywhere: it is none of the
/// instructions that belong to a prologue or an epilogue.
pub open spec fn plain(instruction: InstructionView) -> bool {
    &&& !is_function_label(instruction)
    &&& instruction != save_frame()
    &&& instruction != restore_frame()
    &&& instruction != ret()
}

/// Writing a plain instruction keeps the state sound.
pub broadcast proof fn lemma_emit(s: State, instruction: InstructionView)
    requires
        sound(s),
        plain(instruction),
        numbered(instruction, s.conditions, s.loops),
    ensures
        #[trigger] sound(s.emit(instruction)),
{
    let code = s.emit(instruction).code;
    assert forall|k: int| 0 <= k < code.len() implies #[trigger] framed_at(code, k) by {
        if k < s.code.len() {
            assert(framed_at(s.code, k));
        }
        if k >= 1 && k - 1 < s.code.len() {
            assert(framed_at(s.code, k - 1));
        }
    }
    assert forall|k: int| 0 <= k < code.len() implies #[trigger] numbered(
        code[k],
        s.conditions,
        s.loops,
    ) by {
        if k < s.code.len() {
            assert(numbered(s.code[k], s.conditions, s.loops));
        }
    }
}

/// Taking a new number from a counter keeps the state sound.
pub proof fn lemma_count(s: State, conditions: usize, loops: usize)
    requires
        sound(s),
        s.conditions <= conditions,
        s.loops <= loops,
    ensures
        sound(State { conditions, loops, ..s }),
{
    let after = State { conditions, loops, ..s };
    assert forall|k: int| 0 <= k < after.code.len() implies #[trigger] numbered(
        after.code[k],
        conditions,
        loops,
    ) by {
        assert(numbered(s.code[k], s.conditions, s.loops));
    }
}

/// The head of a function keeps the state sound.
pub proof fn lemma_prologue(s: State, name: Seq<char>)
    requires
        sound(s),
    ensures
        sound(prologue(s, name)),
        counted_on(s, prologue(s, name)),
{
    broadcast use lemma_emit;

    let s1 = s.emit(op1(Opcode::Global, OperandView::Label(LabelView::Function(name))));
    assert(sound(s1));
    let code = prologue(s, name).code;
    assert forall|k: int| 0 <= k < code.len() implies #[trigger] framed_at(code, k) by {
        if k < s1.code.len() {
            assert(framed_at(s1.code, k));
        }
        if k >= 1 && k - 1 < s1.code.len() {
            assert(framed_at(s1.code, k - 1));
        }
    }
    assert forall|k: int| 0 <= k < code.len() implies #[trigger] numbered(
        code[k],
        s.conditions,
        s.loops,
    ) by {
        if k < s1.code.len() {
            assert(numbered(s1.code[k], s.conditions, s.loops));
        }
    }
}

/// The end of a function keeps the state sound.
pub proof fn lemma_epilogue(s: State)
    requires
        sound(s),
    ensures
        sound(epilogue(s)),
        counted_on(s, epilogue(s)),
{
    let code = epilogue(s).code;
    assert forall|k: int| 0 <= k < code.len() implies #[trigger] framed_at(code, k) by {
        if k < s.code.len() {
            assert(framed_at(s.code, k));
        }
        if k >= 1 && k - 1 < s.code.len() {
            assert(framed_at(s.code, k - 1));
        }
    }
    assert forall|k: int| 0 <= k < code.len() implies #[trigger] numbered(
        code[k],
        s.conditions,
        s.loops,
    ) by {
        if k < s.code.len() {
            assert(numbered(s.code[k], s.conditions, s.loops));
        }
    }
}

/// A state with the code of a sound state, counters that are not behind
/// those of that state, and kept numbers that were given out is sound.
pub proof fn lemma_same_code(s: State, other: State)
    requires
        sound(s),
        other.code == s.code,
        counted_on(s, other),
        given_out(other.open_condition, other.conditions),
        given_out(other.open_loop, other.loops),
        given_out(other.enclosing_loop, other.loops),
    ensures
        sound(other),
{
    assert forall|k: int| 0 <= k < other.code.len() implies #[trigger] numbered(
        other.code[k],
        other.conditions,
        other.loops,
    ) by {
        assert(numbered(s.code[k], s.conditions, s.loops));
    }
}

/// Closing what is open keeps the state sound.
pub proof fn lemma_close(s: State)
    requires
        sound(s),
    ensures
        sound(close_condition(s)),
        sound(close_loop(s)),
        sound(close_open(s)),
        counted_on(s, close_open(s)),
        counted_on(s, close_loop(s)),
        counted_on(s, close_condition(s)),
{
    lemma_close_condition(s);
    lemma_close_loop(s);
    lemma_close_loop(close_condition(s));
}

/// Closing the open conditional keeps the state sound.
proof fn lemma_close_condition(s: State)
    requires
        sound(s),
    ensures
        sound(close_condition(s)),
{
    if let Some(n) = s.open_condition {
        let labelled = s.emit(InstructionView::Label(LabelView::Condition(n)));
        lemma_emit(s, InstructionView::Label(LabelView::Condition(n)));
        lemma_same_code(labelled, close_condition(s));
    }
}

/// Closing the open loop keeps the state sound.
proof fn lemma_close_loop(s: State)
    requires
        sound(s),
    ensures
        sound(close_loop(s)),
{
    if let Some(n) = s.open_loop {
        let back = s.emit(jump(LabelView::LoopTest(n)));
        lemma_emit(s, jump(LabelView::LoopTest(n)));
        let labelled = back.emit(InstructionView::Label(LabelView::LoopEnd(n)));
        lemma_emit(back, InstructionView::Label(LabelView::LoopEnd(n)));
        lemma_same_code(labelled, close_loop(s));
    }
}

/// The assignment of a scalar keeps the state sound.
pub proof fn lemma_assign_scalar(s: State, offset: usize, type_: Type, value: Token, name: Seq<char>)
    requires
        sound(s),
        assign_scalar(s, offset, type_, value, name) is Ok,
    ensures
        sound(assign_scalar(s, offset, type_, value, name)->Ok_0),
        counted_on(s, assign_scalar(s, offset, type_, value, name)->Ok_0),
{
    broadcast use lemma_emit;

}

/// A computation keeps the state sound.
pub proof fn lemma_computation(
    s: State,
    operator: Operator,
    staged: bool,
    a: OperandView,
    b: OperandView,
)
    requires
        sound(s),
    ensures
        sound(computation(s, operator, staged, a, b)),
        counted_on(s, computation(s, operator, staged, a, b)),
{
    broadcast use lemma_emit;

    match operator {
        Operator::Compare(condition) => {
            let written = s.emit(load(Register::Rbx, a)).emit(
                op2(Opcode::Compare, OperandView::Register(Register::Rbx), b),
            );
            assert(sound(written));
            let compared = State { previous_operator: Some(condition), ..written };
            lemma_count(written, written.conditions, written.loops);
            assert(sound(compared));
            if !s.in_test {
                let set = compared.emit(
                    InstructionView::SetIf { condition, register: Register::Al },
                );
                assert(sound(set));
            }
        },
        _ => {},
    }
}

/// The allocation of a variable keeps the state sound.
pub proof fn lemma_allocate(s: State, variable: Variable)
    requires
        sound(s),
        allocate(s, variable) is Ok,
    ensures
        sound(allocate(s, variable)->Ok_0),
        counted_on(s, allocate(s, variable)->Ok_0),
{
    let after = allocate(s, variable)->Ok_0;
    assert(after.code == s.code);
}

/// Entering a nested expression keeps the state sound, and so does
/// leaving it.
pub proof fn lemma_nesting(outer: State, inner: State, as_test: bool)
    requires
        sound(outer),
    ensures
        sound(enter(outer, as_test)),
        sound(inner) && counted_on(outer, inner) ==> sound(leave(outer, inner)),
{
    let entered = enter(outer, as_test);
    assert(entered.code == outer.code);
    assert forall|k: int| 0 <= k < entered.code.len() implies #[trigger] numbered(
        entered.code[k],
        entered.conditions,
        entered.loops,
    ) by {
        assert(numbered(outer.code[k], outer.conditions, outer.loops));
    }
    if sound(inner) && counted_on(outer, inner) {
        let left = leave(outer, inner);
        assert(left.code == inner.code);
        assert forall|k: int| 0 <= k < left.code.len() implies #[trigger] numbered(
            left.code[k],
            left.conditions,
            left.loops,
        ) by {
            assert(numbered(inner.code[k], inner.conditions, inner.loops));
        }
    }
}

/// A sound state that comes from a clean state by writing instructions
/// which are no labels of conditionals or loops, and keeps what that state
/// keeps, is clean.
pub proof fn lemma_written(s: State, after: State)
    requires
        clean(s),
        sound(after),
        s.code.len() <= after.code.len(),
        forall|k: int| 0 <= k < s.code.len() ==> #[trigger] after.code[k] == s.code[k],
        forall|k: int|
            s.code.len() <= k < after.code.len() ==> !is_numbered_label(#[trigger] after.code[k]),
        after.open_condition == s.open_condition,
        after.open_loop == s.open_loop,
        after.scope == s.scope,
        counted_on(s, after),
    ensures
        clean(after),
        extends(s, after),
{
    let code = after.code;
    assert forall|i: int, j: int|
        0 <= i < j < code.len() && is_numbered_label(#[trigger] code[i]) implies code[i]
        != #[trigger] code[j] by {
        if j < s.code.len() {
            assert(s.code[i] != s.code[j]);
        } else {
            assert(!is_numbered_label(code[j]));
        }
    }
    if let Some(n) = s.open_condition {
        assert forall|k: int| 0 <= k < code.len() implies #[trigger] code[k] != condition_label(
            n,
        ) by {
            if k < s.code.len() {
                assert(s.code[k] != condition_label(n));
            } else {
                assert(!is_numbered_label(code[k]));
            }
        }
    }
    if let Some(n) = s.open_loop {
        assert forall|k: int| 0 <= k < code.len() implies #[trigger] code[k] != loop_end_label(
            n,
        ) by {
            if k < s.code.len() {
                assert(s.code[k] != loop_end_label(n));
            } else {
                assert(!is_numbered_label(code[k]));
            }
        }
    }
    assert forall|k: int| s.code.len() <= k < code.len() implies allowed(s, #[trigger] code[k]) by {
        assert(!is_numbered_label(code[k]));
    }
}

/// Closing the open conditional keeps the state clean.
pub proof fn lemma_clean_close_condition(s: State)
    requires
        clean(s),
    ensures
        clean(close_condition(s)),
        extends(s, close_condition(s)),
{
    lemma_close(s);
    if let Some(n) = s.open_condition {
        let after = close_condition(s);
        let code = after.code;
        assert forall|i: int, j: int|
            0 <= i < j < code.len() && is_numbered_label(#[trigger] code[i]) implies code[i]
            != #[trigger] code[j] by {
            if j < s.code.len() {
                assert(s.code[i] != s.code[j]);
            } else {
                assert(s.code[i] != condition_label(n));
            }
        }
        if let Some(m) = s.open_loop {
            assert forall|k: int| 0 <= k < code.len() implies #[trigger] code[k]
                != loop_end_label(m) by {
                if k < s.code.len() {
                    assert(s.code[k] != loop_end_label(m));
                }
            }
        }
    }
}

/// Closing the open loop keeps the state clean.
pub proof fn lemma_clean_close_loop(s: State)
    requires
        clean(s),
    ensures
        clean(close_loop(s)),
        extends(s, close_loop(s)),
{
    lemma_close(s);
    if let Some(n) = s.open_loop {
        let after = close_loop(s);
        let code = after.code;
        assert forall|i: int, j: int|
            0 <= i < j < code.len() && is_numbered_label(#[trigger] code[i]) implies code[i]
            != #[trigger] code[j] by {
            if j < s.code.len() {
                assert(s.code[i] != s.code[j]);
            } else if i < s.code.len() {
                assert(s.code[i] != loop_end_label(n));
            }
        }
        if let Some(m) = s.open_condition {
            assert forall|k: int| 0 <= k < code.len() implies #[trigger] code[k]
                != condition_label(m) by {
                if k < s.code.len() {
                    assert(s.code[k] != condition_label(m));
                }
            }
        }
    }
}

/// Closing what is open keeps the state clean.
pub proof fn lemma_clean_close(s: State)
    requires
        clean(s),
    ensures
        clean(close_open(s)),
        extends(s, close_open(s)),
{
    lemma_clean_close_condition(s);
    lemma_clean_close_loop(close_condition(s));
    lemma_extends_twice(s, close_condition(s), close_open(s));
}

/// Closing what an element does not continue keeps the state clean.
pub proof fn lemma_clean_closed_before(s: State, element: Element)
    requires
        clean(s),
    ensures
        clean(closed_before(s, element)),
        extends(s, closed_before(s, element)),
{
    lemma_clean_close_condition(s);
    lemma_clean_close_loop(s);
    lemma_clean_close_loop(close_condition(s));
    lemma_extends_twice(s, close_condition(s), close_loop(close_condition(s)));
}

/// The assignment of a scalar keeps the state clean.
pub proof fn lemma_clean_assign_scalar(
    s: State,
    offset: usize,
    type_: Type,
    value: Token,
    name: Seq<char>,
)
    requires
        clean(s),
        assign_scalar(s, offset, type_, value, name) is Ok,
    ensures
        clean(assign_scalar(s, offset, type_, value, name)->Ok_0),
        extends(s, assign_scalar(s, offset, type_, value, name)->Ok_0),
{
    lemma_assign_scalar(s, offset, type_, value, name);
    lemma_written(s, assign_scalar(s, offset, type_, value, name)->Ok_0);
}

/// The assignment of the items of an array keeps the state clean.
pub proof fn lemma_clean_assign_items(
    s: State,
    values: Seq<Token>,
    from: int,
    base: usize,
    size: nat,
    element: Type,
    id: Seq<char>,
)
    requires
        clean(s),
        assign_items(s, values, from, base, size, element, id) is Ok,
    ensures
        clean(assign_items(s, values, from, base, size, element, id)->Ok_0),
        extends(s, assign_items(s, values, from, base, size, element, id)->Ok_0),
    decreases values.len() - from,
{
    if 0 <= from < values.len() {
        let offset = (base - size * from) as usize;
        let name = item_name(id, from as nat);
        lemma_clean_assign_scalar(s, offset, element, values[from], name);
        let s1 = assign_scalar(s, offset, element, values[from], name)->Ok_0;
        lemma_clean_assign_items(s1, values, from + 1, base, size, element, id);
        lemma_extends_twice(
            s,
            s1,
            assign_items(s, values, from, base, size, element, id)->Ok_0,
        );
    } else {
        lemma_written(s, s);
    }
}

/// The assignment of an array keeps the state clean.
pub proof fn lemma_clean_assign_array(s: State, variable: Variable, values: Seq<Token>)
    requires
        clean(s),
        assign_array(s, variable, values) is Ok,
    ensures
        clean(assign_array(s, variable, values)->Ok_0),
        extends(s, assign_array(s, variable, values)->Ok_0),
{
    match variable.type_ {
        Type::Array(element, length) => {
            lemma_clean_assign_items(
                s,
                values,
                0,
                variable.stack_pos,
                size_of(*element)->Some_0,
                *element,
                variable.id@,
            );
        },
        Type::StaticArray(element) => {
            lemma_clean_assign_items(
                s,
                values,
                0,
                variable.stack_pos,
                size_of(*element)->Some_0,
                *element,
                variable.id@,
            );
        },
        _ => {},
    }
}

/// A computation keeps the state clean.
pub proof fn lemma_clean_computation(
    s: State,
    operator: Operator,
    staged: bool,
    a: OperandView,
    b: OperandView,
)
    requires
        clean(s),
    ensures
        clean(computation(s, operator, staged, a, b)),
        extends(s, computation(s, operator, staged, a, b)),
{
    lemma_computation(s, operator, staged, a, b);
    lemma_written(s, computation(s, operator, staged, a, b));
}

/// The end of a function keeps the state clean.
pub proof fn lemma_clean_epilogue(s: State)
    requires
        clean(s),
    ensures
        clean(epilogue(s)),
        extends(s, epilogue(s)),
{
    lemma_epilogue(s);
    lemma_written(s, epilogue(s));
}

/// The declaration of the parameters keeps the state clean.
pub proof fn lemma_clean_declare_parameters(s: State, params: Seq<Variable>, from: int)
    requires
        clean(s),
        declare_parameters(s, params, from) is Ok,
    ensures
        clean(declare_parameters(s, params, from)->Ok_0),
        extends(s, declare_parameters(s, params, from)->Ok_0),
    decreases params.len() - from,
{
    if 0 <= from < params.len() {
        lemma_allocate(s, params[from]);
        let s1 = allocate(s, params[from])->Ok_0;
        lemma_written(s, s1);
        let moved = op2(
            Opcode::Mov,
            OperandView::Stack(s1.offset),
            OperandView::Register(parameter_register(from)),
        );
        lemma_write(s1, moved);
        lemma_extends_twice(s, s1, s1.emit(moved));
        lemma_clean_declare_parameters(s1.emit(moved), params, from + 1);
        lemma_extends_twice(s, s1.emit(moved), declare_parameters(s, params, from)->Ok_0);
    } else {
        lemma_written(s, s);
    }
}

/// The head of a function, with the start stub and the parameters, keeps
/// the state clean.
pub proof fn lemma_clean_function_head(s: State, function: Function)
    requires
        clean(s),
        function_head(s, function) is Ok,
    ensures
        clean(function_head(s, function)->Ok_0),
        extends(s, function_head(s, function)->Ok_0),
{
    broadcast use lemma_emit;

    let started = if function.id@ == "main"@ {
        start_stub(s)
    } else {
        s
    };
    assert(sound(started));
    lemma_written(s, started);
    let name = function.id@;
    lemma_prologue(started, name);
    lemma_written(started, prologue(started, name));
    lemma_extends_twice(s, started, prologue(started, name));
    lemma_clean_declare_parameters(prologue(started, name), function.params@, 0);
    lemma_extends_twice(s, prologue(started, name), function_head(s, function)->Ok_0);
}

/// Entering a nested expression keeps the state clean.
pub proof fn lemma_clean_enter(s: State, as_test: bool)
    requires
        clean(s),
    ensures
        clean(enter(s, as_test)),
{
    lemma_nesting(s, s, as_test);
}

/// Leaving a nested expression keeps the state clean: what the state
/// around the expression keeps for later was not written in it.
pub proof fn lemma_clean_leave(outer: State, inner: State, as_test: bool)
    requires
        clean(outer),
        clean(inner),
        extends(enter(outer, as_test), inner),
    ensures
        clean(leave(outer, inner)),
        extends(outer, leave(outer, inner)),
{
    lemma_nesting(outer, inner, as_test);
    let left = leave(outer, inner);
    let entered = enter(outer, as_test);
    if let Some(n) = outer.open_condition {
        assert(!allowed(entered, condition_label(n)));
        lemma_still_absent(entered, inner, condition_label(n));
    }
    if let Some(n) = outer.open_loop {
        assert(!allowed(entered, loop_end_label(n)));
        lemma_still_absent(entered, inner, loop_end_label(n));
    }
    assert forall|k: int| outer.code.len() <= k < left.code.len() implies allowed(
        outer,
        #[trigger] left.code[k],
    ) by {
        assert(allowed(entered, inner.code[k]));
    }
}

/// Lowering a range of elements keeps the state clean: no label is
/// written twice, and the counters never go back.
pub proof fn lemma_lower_elements(s: State, elements: Seq<Element>, start: int, end: int)
    requires
        clean(s),
        lower_elements(s, elements, start, end) is Ok,
    ensures
        clean(lower_elements(s, elements, start, end)->Ok_0),
        extends(s, lower_elements(s, elements, start, end)->Ok_0),
    decreases elements, end - start, 9int,
{
    if start < 0 || start >= end || end > elements.len() {
        lemma_clean_close(s);
    } else {
        lemma_lower_element(s, elements, start, end);
        let (s1, next) = lower_element(s, elements, start, end)->Ok_0;
        lemma_lower_elements(s1, elements, next, end);
        lemma_extends_twice(s, s1, lower_elements(s, elements, start, end)->Ok_0);
    }
}

/// Lowering a nested range of elements keeps the state around it clean.
pub proof fn lemma_lower_nested(
    s: State,
    elements: Seq<Element>,
    start: int,
    end: int,
    as_test: bool,
)
    requires
        clean(s),
        lower_elements(enter(s, as_test), elements, start, end) is Ok,
    ensures
        clean(leave(s, lower_elements(enter(s, as_test), elements, start, end)->Ok_0)),
        extends(s, leave(s, lower_elements(enter(s, as_test), elements, start, end)->Ok_0)),
    decreases elements, end - start, 10int,
{
    lemma_clean_enter(s, as_test);
    lemma_lower_elements(enter(s, as_test), elements, start, end);
    lemma_clean_leave(
        s,
        lower_elements(enter(s, as_test), elements, start, end)->Ok_0,
        as_test,
    );
}

/// Lowering an expression keeps the state clean.
pub proof fn lemma_lower_expression(
    s: State,
    elements: Seq<Element>,
    at: int,
    end: int,
    as_test: bool,
)
    requires
        clean(s),
        lower_expression(s, elements, at, end, as_test) is Ok,
    ensures
        clean(lower_expression(s, elements, at, end, as_test)->Ok_0.0),
        extends(s, lower_expression(s, elements, at, end, as_test)->Ok_0.0),
    decreases elements, end - at, 8int,
{
    if opens(elements[at]) {
        let close = matching_close(elements, at, end)->Some_0;
        lemma_lower_nested(s, elements, at + 1, close, as_test);
    } else {
        lemma_clean_enter(s, as_test);
        let entered = enter(s, as_test);
        lemma_lower_element(entered, elements, at, end);
        let inner = lower_element(entered, elements, at, end)->Ok_0.0;
        lemma_clean_close(inner);
        lemma_extends_twice(entered, inner, close_open(inner));
        lemma_clean_leave(s, close_open(inner), as_test);
    }
}

/// Lowering one element keeps the state clean.
pub proof fn lemma_lower_element(s: State, elements: Seq<Element>, at: int, end: int)
    requires
        clean(s),
        lower_element(s, elements, at, end) is Ok,
    ensures
        clean(lower_element(s, elements, at, end)->Ok_0.0),
        extends(s, lower_element(s, elements, at, end)->Ok_0.0),
    decreases elements, end - at, 7int,
{
    lemma_clean_closed_before(s, elements[at]);
    let s0 = closed_before(s, elements[at]);
    match elements[at] {
        Element::Array(_) => {},
        Element::Parameters(_) => {},
        Element::Assembly(code) => {
            lemma_write(s0, InstructionView::Raw(code@));
        },
        Element::Function(function) => {
            lemma_lower_function(s0, elements, at, end, function);
        },
        Element::Operation(operation) => {
            lemma_lower_operation(s0, elements, at, end, operation);
        },
        Element::Return(value) => {
            lemma_lower_return(s0, elements, at, end, value);
        },
        Element::Variable(variable) => {
            lemma_lower_variable(s0, elements, at, end, variable);
        },
        Element::Other(token) => {
            lemma_lower_other(s0, elements, at, end, token);
        },
    }
    lemma_extends_twice(s, s0, lower_element(s, elements, at, end)->Ok_0.0);
}

/// Lowering a function keeps the state clean.
pub proof fn lemma_lower_function(
    s: State,
    elements: Seq<Element>,
    at: int,
    end: int,
    function: Function,
)
    requires
        clean(s),
        0 <= at < end <= elements.len(),
        lower_function(s, elements, at, end, function) is Ok,
    ensures
        clean(lower_function(s, elements, at, end, function)->Ok_0.0),
        extends(s, lower_function(s, elements, at, end, function)->Ok_0.0),
    decreases elements, end - at, 6int,
{
    lemma_clean_function_head(s, function);
    let head = function_head(s, function)->Ok_0;
    if at + 1 < end && opens(elements[at + 1]) {
        let close = matching_close(elements, at + 1, end)->Some_0;
        let scoped = State { scope: head.scope.push(function.id@), ..head };
        lemma_same_clean(head, scoped);
        lemma_lower_nested(scoped, elements, at + 2, close, false);
        let inner = lower_elements(enter(scoped, false), elements, at + 2, close)->Ok_0;
        let left = leave(head, inner);
        assert(left == leave(scoped, inner));
        let after = State { scope: head.scope, ..left };
        lemma_same_clean(left, after);
        assert forall|k: int| head.code.len() <= k < after.code.len() implies allowed(
            head,
            #[trigger] after.code[k],
        ) by {
            assert(allowed(scoped, left.code[k]));
        }
        assert(extends(head, after));
        lemma_extends_twice(s, head, after);
    }
}

/// Lowering an assignment keeps the state clean.
pub proof fn lemma_lower_assignment(
    s: State,
    elements: Seq<Element>,
    at: int,
    end: int,
    variable: Variable,
)
    requires
        clean(s),
        0 <= at < end <= elements.len(),
        lower_assignment(s, elements, at, end, variable) is Ok,
    ensures
        clean(lower_assignment(s, elements, at, end, variable)->Ok_0.0),
        extends(s, lower_assignment(s, elements, at, end, variable)->Ok_0.0),
    decreases elements, end - at, 4int,
{
    match variable.current_value {
        Token::SquareBracketOpen => {
            match elements[at + 1] {
                Element::Array(values) => {
                    lemma_clean_assign_array(s, variable, values@);
                },
                _ => {},
            }
        },
        Token::Nothing => {
            lemma_written(s, s);
        },
        Token::BracketOpen => {
            lemma_lower_expression(s, elements, at + 1, end, false);
            let s1 = lower_expression(s, elements, at + 1, end, false)->Ok_0.0;
            let stored = store(
                variable.stack_pos,
                None,
                OperandView::Register(Register::Rbx),
                variable.id@,
            );
            lemma_write(s1, stored);
            lemma_extends_twice(s, s1, s1.emit(stored));
        },
        value => {
            lemma_clean_assign_scalar(
                s,
                variable.stack_pos,
                variable.type_,
                value,
                variable.id@,
            );
        },
    }
}

/// Lowering a declaration keeps the state clean.
pub proof fn lemma_lower_variable(
    s: State,
    elements: Seq<Element>,
    at: int,
    end: int,
    variable: Variable,
)
    requires
        clean(s),
        0 <= at < end <= elements.len(),
        lower_variable(s, elements, at, end, variable) is Ok,
    ensures
        clean(lower_variable(s, elements, at, end, variable)->Ok_0.0),
        extends(s, lower_variable(s, elements, at, end, variable)->Ok_0.0),
    decreases elements, end - at, 6int,
{
    lemma_allocate(s, variable);
    let s1 = allocate(s, variable)->Ok_0;
    lemma_written(s, s1);
    if variable.current_value is Nothing {
        match width_of(variable.type_) {
            Some(w) => {
                let stored = store(
                    s1.offset,
                    Some(w),
                    OperandView::Value("0"@),
                    variable.id@,
                );
                lemma_write(s1, stored);
                lemma_extends_twice(s, s1, s1.emit(stored));
            },
            None => {},
        }
    } else {
        lemma_lower_assignment(
            s1,
            elements,
            at,
            end,
            Variable { stack_pos: s1.offset, ..variable },
        );
        lemma_extends_twice(s, s1, lower_variable(s, elements, at, end, variable)->Ok_0.0);
    }
}

/// Lowering a return keeps the state clean.
pub proof fn lemma_lower_return(s: State, elements: Seq<Element>, at: int, end: int, value: Token)
    requires
        clean(s),
        0 <= at < end <= elements.len(),
        lower_return(s, elements, at, end, value) is Ok,
    ensures
        clean(lower_return(s, elements, at, end, value)->Ok_0.0),
        extends(s, lower_return(s, elements, at, end, value)->Ok_0.0),
    decreases elements, end - at, 6int,
{
    match value {
        Token::Nothing => {
            let cleared = op2(
                Opcode::Xor,
                OperandView::Register(Register::Rax),
                OperandView::Register(Register::Rax),
            );
            lemma_write(s, cleared);
            lemma_clean_epilogue(s.emit(cleared));
            lemma_extends_twice(s, s.emit(cleared), epilogue(s.emit(cleared)));
        },
        Token::BracketOpen => {
            lemma_lower_expression(s, elements, at + 1, end, false);
            let s1 = lower_expression(s, elements, at + 1, end, false)->Ok_0.0;
            let moved = load(
                Register::Rax,
                OperandView::Register(Register::Rbx),
            );
            lemma_write(s1, moved);
            lemma_clean_epilogue(s1.emit(moved));
            lemma_extends_twice(s, s1, s1.emit(moved));
            lemma_extends_twice(s, s1.emit(moved), epilogue(s1.emit(moved)));
        },
        _ => {
            let operand = operand_of(
                s.variables,
                value,
            )->Ok_0;
            let moved = load(Register::Rax, operand);
            lemma_write(s, moved);
            lemma_clean_epilogue(s.emit(moved));
            lemma_extends_twice(s, s.emit(moved), epilogue(s.emit(moved)));
        },
    }
}

/// Lowering an operation keeps the state clean.
pub proof fn lemma_lower_operation(
    s: State,
    elements: Seq<Element>,
    at: int,
    end: int,
    operation: Operation,
)
    requires
        clean(s),
        0 <= at < end <= elements.len(),
        lower_operation(s, elements, at, end, operation) is Ok,
    ensures
        clean(lower_operation(s, elements, at, end, operation)->Ok_0.0),
        extends(s, lower_operation(s, elements, at, end, operation)->Ok_0.0),
    decreases elements, end - at, 6int,
{
    match operator_of(operation.operator) {
        None => {},
        Some(Operator::Assign) => {
            match operation.arg1 {
                Token::Other(name) => {
                    lemma_lower_assignment(
                        s,
                        elements,
                        at,
                        end,
                        Variable { current_value: operation.arg2, ..s.variables[name@] },
                    );
                },
                _ => {},
            }
            assert(lower_operation(s, elements, at, end, operation) == lower_assign(
                s,
                elements,
                at,
                end,
                operation,
            ));
        },
        Some(operator) => {
            if operation.arg1 is BracketOpen {
                lemma_lower_expression(s, elements, at + 1, end, false);
                let s1 = lower_expression(s, elements, at + 1, end, false)->Ok_0.0;
                let b = operand_of(
                    s1.variables,
                    operation.arg2,
                )->Ok_0;
                let a = OperandView::Register(Register::Rbx);
                lemma_clean_computation(s1, operator, false, a, b);
                lemma_extends_twice(s, s1, computation(s1, operator, false, a, b));
            } else {
                let a = operand_of(
                    s.variables,
                    operation.arg1,
                )->Ok_0;
                if operation.arg2 is BracketOpen {
                    lemma_lower_expression(s, elements, at + 1, end, false);
                    let s1 = lower_expression(s, elements, at + 1, end, false)->Ok_0.0;
                    let b = OperandView::Register(Register::Rbx);
                    lemma_clean_computation(s1, operator, false, a, b);
                    lemma_extends_twice(s, s1, computation(s1, operator, false, a, b));
                } else {
                    let b = operand_of(
                        s.variables,
                        operation.arg2,
                    )->Ok_0;
                    lemma_clean_computation(
                        s,
                        operator,
                        both_identifiers(
                            operation.arg1,
                            operation.arg2,
                        ),
                        a,
                        b,
                    );
                }
            }
        },
    }
}

/// Lowering an `if` keeps the state clean.
pub proof fn lemma_lower_if(s: State, elements: Seq<Element>, at: int, end: int)
    requires
        clean(s),
        0 <= at < end <= elements.len(),
        lower_if(s, elements, at, end) is Ok,
    ensures
        clean(lower_if(s, elements, at, end)->Ok_0.0),
        extends(s, lower_if(s, elements, at, end)->Ok_0.0),
    decreases elements, end - at, 5int,
{
    let n = (s.conditions + 1) as usize;
    let opened = State { conditions: n, open_condition: Some(n), previous_operator: None, ..s };
    lemma_beyond_is_absent(s, n);
    lemma_same_clean(s, opened);
    lemma_lower_expression(opened, elements, at + 1, end, true);
    let tested = lower_expression(opened, elements, at + 1, end, true)->Ok_0.0;
    let jumped = InstructionView::JumpIf {
        condition: inverted(
            tested.previous_operator->Some_0,
        ),
        target: LabelView::Condition(n),
    };
    lemma_write(tested, jumped);
    lemma_extends_twice(s, opened, tested);
    lemma_extends_twice(s, tested, tested.emit(jumped));
}

/// The head of an `else` keeps the state clean: the label of the
/// conditional is written once, and a new number is kept for its end.
pub proof fn lemma_else_head(s: State)
    requires
        clean(s),
        s.open_condition is Some,
        s.conditions < usize::MAX,
    ensures
        clean(
            State {
                conditions: (s.conditions + 1) as usize,
                open_condition: Some((s.conditions + 1) as usize),
                ..s.emit(
                    jump(
                        LabelView::Condition((s.conditions + 1) as usize),
                    ),
                ).emit(condition_label(s.open_condition->Some_0))
            },
        ),
        extends(
            s,
            State {
                conditions: (s.conditions + 1) as usize,
                open_condition: Some((s.conditions + 1) as usize),
                ..s.emit(
                    jump(
                        LabelView::Condition((s.conditions + 1) as usize),
                    ),
                ).emit(condition_label(s.open_condition->Some_0))
            },
        ),
{
    let n = s.open_condition->Some_0;
    let m = (s.conditions + 1) as usize;
    let jumped = s.emit(jump(LabelView::Condition(m)));
    lemma_write(s, jump(LabelView::Condition(m)));
    let closed = State { open_condition: None, ..jumped };
    lemma_same_clean(jumped, closed);
    assert(absent(closed.code, condition_label(n)));
    lemma_write_label(closed, condition_label(n));
    let labelled = closed.emit(condition_label(n));
    let second = State { conditions: m, open_condition: Some(m), ..labelled };
    lemma_beyond_is_absent(labelled, m);
    lemma_same_clean(labelled, second);
    assert(second == State {
        conditions: m,
        open_condition: Some(m),
        ..jumped.emit(condition_label(n))
    });
    assert forall|k: int| s.code.len() <= k < second.code.len() implies allowed(
        s,
        #[trigger] second.code[k],
    ) by {}
}

/// Lowering an `else` keeps the state clean.
pub proof fn lemma_lower_else(s: State, elements: Seq<Element>, at: int, end: int)
    requires
        clean(s),
        0 <= at < end <= elements.len(),
        lower_else(s, elements, at, end) is Ok,
    ensures
        clean(lower_else(s, elements, at, end)->Ok_0.0),
        extends(s, lower_else(s, elements, at, end)->Ok_0.0),
    decreases elements, end - at, 5int,
{
    let n = s.open_condition->Some_0;
    let m = (s.conditions + 1) as usize;
    lemma_else_head(s);
    let second = State {
        conditions: m,
        open_condition: Some(m),
        ..s.emit(jump(LabelView::Condition(m))).emit(
            condition_label(n),
        )
    };
    if at + 1 < end {
        lemma_lower_expression(second, elements, at + 1, end, false);
        let s1 = lower_expression(second, elements, at + 1, end, false)->Ok_0.0;
        lemma_clean_close_condition(s1);
        lemma_extends_twice(s, second, s1);
        lemma_extends_twice(s, s1, close_condition(s1));
    } else {
        lemma_clean_close_condition(second);
        lemma_extends_twice(s, second, close_condition(second));
    }
}

/// The head of a `loop` keeps the state clean: the loop takes a new
/// number, and its test label is written.
pub proof fn lemma_loop_head(s: State)
    requires
        clean(s),
        s.loops < usize::MAX,
    ensures
        clean(
            State {
                loops: (s.loops + 1) as usize,
                open_loop: Some((s.loops + 1) as usize),
                previous_operator: None,
                ..s.emit(InstructionView::Label(LabelView::LoopTest((s.loops + 1) as usize)))
            },
        ),
        extends(
            s,
            State {
                loops: (s.loops + 1) as usize,
                open_loop: Some((s.loops + 1) as usize),
                previous_operator: None,
                ..s.emit(InstructionView::Label(LabelView::LoopTest((s.loops + 1) as usize)))
            },
        ),
        absent(
            s.emit(InstructionView::Label(LabelView::LoopTest((s.loops + 1) as usize))).code,
            InstructionView::Label(LabelView::LoopCore((s.loops + 1) as usize)),
        ),
{
    let n = (s.loops + 1) as usize;
    let counted = State { loops: n, open_loop: None, previous_operator: None, ..s };
    lemma_beyond_is_absent(s, n);
    lemma_same_clean(s, counted);
    lemma_write_label(counted, InstructionView::Label(LabelView::LoopTest(n)));
    let labelled = counted.emit(InstructionView::Label(LabelView::LoopTest(n)));
    let opened = State { open_loop: Some(n), ..labelled };
    assert forall|k: int| 0 <= k < opened.code.len() implies #[trigger] opened.code[k]
        != loop_end_label(n) && opened.code[k] != InstructionView::Label(
        LabelView::LoopCore(n),
    ) by {
        if k < s.code.len() {
            assert(numbered(s.code[k], s.conditions, s.loops));
        }
    }
    lemma_same_clean(labelled, opened);
    assert(opened == State {
        loops: n,
        open_loop: Some(n),
        previous_operator: None,
        ..s.emit(InstructionView::Label(LabelView::LoopTest(n)))
    });
    assert forall|k: int| s.code.len() <= k < opened.code.len() implies allowed(
        s,
        #[trigger] opened.code[k],
    ) by {}
}

/// Lowering a `loop` keeps the state clean.
pub proof fn lemma_lower_loop(s: State, elements: Seq<Element>, at: int, end: int)
    requires
        clean(s),
        0 <= at < end <= elements.len(),
        lower_loop(s, elements, at, end) is Ok,
    ensures
        clean(lower_loop(s, elements, at, end)->Ok_0.0),
        extends(s, lower_loop(s, elements, at, end)->Ok_0.0),
    decreases elements, end - at, 5int,
{
    let n = (s.loops + 1) as usize;
    lemma_loop_head(s);
    let opened = State {
        loops: n,
        open_loop: Some(n),
        previous_operator: None,
        ..s.emit(InstructionView::Label(LabelView::LoopTest(n)))
    };
    lemma_lower_expression(opened, elements, at + 1, end, true);
    let tested = lower_expression(opened, elements, at + 1, end, true)->Ok_0.0;
    let core = InstructionView::Label(LabelView::LoopCore(n));
    assert(!allowed(opened, core));
    lemma_still_absent(opened, tested, core);
    let condition = inverted(
        tested.previous_operator->Some_0,
    );
    let branch = InstructionView::JumpIf { condition, target: LabelView::LoopCore(n) };
    lemma_write(tested, branch);
    let s1 = tested.emit(branch);
    let leave_loop = jump(LabelView::LoopEnd(n));
    lemma_write(s1, leave_loop);
    let s2 = s1.emit(leave_loop);
    lemma_extends_twice(tested, s1, s2);
    assert forall|k: int| 0 <= k < s2.code.len() implies #[trigger] s2.code[k] != core by {
        if k < tested.code.len() {
            assert(s2.code[k] == tested.code[k]);
            assert(tested.code[k] != core);
        }
    }
    lemma_write_label(s2, core);
    let after = s2.emit(core);
    lemma_extends_twice(s, opened, tested);
    lemma_extends_twice(s, tested, s2);
    assert forall|k: int| 0 <= k < s.code.len() implies #[trigger] after.code[k]
        == s.code[k] by {
        assert(s2.code[k] == s.code[k]);
    }
    assert forall|k: int| s.code.len() <= k < after.code.len() implies allowed(
        s,
        #[trigger] after.code[k],
    ) by {
        if k < s2.code.len() {
            assert(after.code[k] == s2.code[k]);
            assert(allowed(s, s2.code[k]));
        }
    }
}

/// Lowering the arguments of a call keeps the state clean.
pub proof fn lemma_lower_arguments(s: State, arguments: Seq<Element>, from: int, passed: int)
    requires
        clean(s),
        lower_arguments(s, arguments, from, passed) is Ok,
    ensures
        clean(lower_arguments(s, arguments, from, passed)->Ok_0),
        extends(s, lower_arguments(s, arguments, from, passed)->Ok_0),
    decreases arguments, arguments.len() - from, 11int,
{
    if 0 <= from < arguments.len() {
        match arguments[from] {
            Element::Other(Token::Comma) => {
                lemma_lower_arguments(s, arguments, from + 1, passed);
            },
            Element::Other(Token::BracketOpen) => {
                let close = matching_close(arguments, from, arguments.len() as int)->Some_0;
                lemma_lower_nested(s, arguments, from + 1, close, false);
                let inner = lower_elements(enter(s, false), arguments, from + 1, close)->Ok_0;
                let moved = load(
                    parameter_register(passed),
                    OperandView::Register(Register::Rbx),
                );
                lemma_write(leave(s, inner), moved);
                let s1 = leave(s, inner).emit(moved);
                lemma_extends_twice(s, leave(s, inner), s1);
                lemma_lower_arguments(s1, arguments, close + 1, passed + 1);
                lemma_extends_twice(s, s1, lower_arguments(s, arguments, from, passed)->Ok_0);
            },
            Element::Other(token) => {
                let operand = operand_of(
                    s.variables,
                    token,
                )->Ok_0;
                let moved = load(
                    parameter_register(passed),
                    operand,
                );
                lemma_write(s, moved);
                lemma_lower_arguments(s.emit(moved), arguments, from + 1, passed + 1);
                lemma_extends_twice(
                    s,
                    s.emit(moved),
                    lower_arguments(s, arguments, from, passed)->Ok_0,
                );
            },
            _ => {},
        }
    } else {
        lemma_written(s, s);
    }
}

/// Lowering a call keeps the state clean.
pub proof fn lemma_lower_call(s: State, elements: Seq<Element>, at: int, end: int, name: Seq<char>)
    requires
        clean(s),
        0 <= at < end <= elements.len(),
        lower_call(s, elements, at, end, name) is Ok,
    ensures
        clean(lower_call(s, elements, at, end, name)->Ok_0.0),
        extends(s, lower_call(s, elements, at, end, name)->Ok_0.0),
    decreases elements, end - at, 5int,
{
    match elements[at + 1] {
        Element::Parameters(arguments) => {
            lemma_lower_arguments(s, arguments@, 0, 0);
            let s1 = lower_arguments(s, arguments@, 0, 0)->Ok_0;
            let called = op1(Opcode::Call, OperandView::Label(LabelView::Function(name)));
            lemma_write(s1, called);
            let s2 = s1.emit(called);
            let copied = load(
                Register::Rbx,
                OperandView::Register(Register::Rax),
            );
            lemma_write(s2, copied);
            lemma_extends_twice(s, s1, s2);
            lemma_extends_twice(s, s2, s2.emit(copied));
        },
        _ => {},
    }
}

/// Lowering a lone token keeps the state clean.
pub proof fn lemma_lower_other(s: State, elements: Seq<Element>, at: int, end: int, token: Token)
    requires
        clean(s),
        0 <= at < end <= elements.len(),
        lower_other(s, elements, at, end, token) is Ok,
    ensures
        clean(lower_other(s, elements, at, end, token)->Ok_0.0),
        extends(s, lower_other(s, elements, at, end, token)->Ok_0.0),
    decreases elements, end - at, 6int,
{
    match token {
        Token::ConditionIf => {
            lemma_lower_if(s, elements, at, end);
        },
        Token::ConditionElse => {
            lemma_lower_else(s, elements, at, end);
        },
        Token::Loop => {
            lemma_lower_loop(s, elements, at, end);
        },
        Token::LoopBreak => {
            lemma_write(
                s,
                jump(LabelView::LoopEnd(s.nearest_loop()->Some_0)),
            );
        },
        Token::LoopContinue => {
            lemma_write(
                s,
                jump(
                    LabelView::LoopTest(s.nearest_loop()->Some_0),
                ),
            );
        },
        Token::NewLine => {
            lemma_written(s, s);
        },
        Token::BracketOpen => {
            let close = matching_close(elements, at, end)->Some_0;
            lemma_lower_nested(s, elements, at + 1, close, false);
        },
        Token::Other(text) => {
            if is_number_text(text@) {
                lemma_write(
                    s,
                    load(Register::Rbx, OperandView::Value(text@)),
                );
            } else if s.variables.dom().contains(text@) {
                lemma_write(
                    s,
                    load(
                        Register::Rbx,
                        OperandView::Stack(s.variables[text@].stack_pos),
                    ),
                );
            } else {
                lemma_lower_call(s, elements, at, end, text@);
            }
        },
        _ => {},
    }
}

/// Frames and labels. In the code of a file that was compiled, the label
/// of every function has its prologue behind it, which saves the frame
/// pointer of the caller and sets up the new frame; the frame pointer is
/// saved nowhere else; every return stands behind the instruction that
/// restores the frame pointer, and that instruction nowhere else. Every
/// label of a conditional or a loop carries a number that its counter has
/// given out, and none of these labels is written twice.
pub proof fn law_frames_and_labels(module: Seq<char>, elements: Seq<Element>)
    requires
        lower_file(State::initial(module), elements) is Ok,
    ensures
        framed(lower_file(State::initial(module), elements)->Ok_0.code),
        unique_labels(lower_file(State::initial(module), elements)->Ok_0.code),
        clean(lower_file(State::initial(module), elements)->Ok_0),
{
    let s = State::initial(module);
    assert(clean(s));
    lemma_write(s, InstructionView::Section(Section::Text));
    lemma_lower_elements(
        s.emit(InstructionView::Section(Section::Text)),
        elements,
        0,
        elements.len() as int,
    );
}

/// Counters go forward only, and what is written stays. Whatever is
/// lowered from a clean state, the state afterwards is clean; the counter
/// of the conditionals and the counter of the loops are where they were
/// or beyond; the code written before stands unchanged at the start of
/// the code; and every label of a conditional or a loop that was written
/// since carries a number beyond the counters before, or is the label
/// that was kept for what was open.
pub proof fn law_counters(s: State, elements: Seq<Element>, start: int, end: int)
    requires
        clean(s),
        lower_elements(s, elements, start, end) is Ok,
    ensures
        s.conditions <= lower_elements(s, elements, start, end)->Ok_0.conditions,
        s.loops <= lower_elements(s, elements, start, end)->Ok_0.loops,
        clean(lower_elements(s, elements, start, end)->Ok_0),
        extends(s, lower_elements(s, elements, start, end)->Ok_0),
{
    lemma_lower_elements(s, elements, start, end);
}

/// The scope is restored. Whatever is lowered from a clean state, the
/// scope afterwards is the scope before: the name of a function is in the
/// scope while the body of the function is lowered, and is left behind
/// the body, so that no function changes the names of the functions that
/// follow it.
pub proof fn law_scope_is_restored(s: State, elements: Seq<Element>, start: int, end: int)
    requires
        clean(s),
        lower_elements(s, elements, start, end) is Ok,
    ensures
        lower_elements(s, elements, start, end)->Ok_0.scope == s.scope,
{
    lemma_lower_elements(s, elements, start, end);
}

/// Numbers are fresh. An `if` takes the number behind the counter for the
/// label that it jumps to, and a `loop` the number behind its counter for
/// its three labels; the counters are beyond those numbers afterwards or
/// at them. A sound state holds no label of a number beyond its counters,
/// so no label carries such a number yet.
pub proof fn law_fresh_numbers(s: State, elements: Seq<Element>, at: int, end: int)
    requires
        clean(s),
        0 <= at < end <= elements.len(),
    ensures
        lower_if(s, elements, at, end) matches Ok((after, _)) ==> {
            &&& after.open_condition == Some((s.conditions + 1) as usize)
            &&& s.conditions < after.conditions
            &&& after.code.last() is JumpIf
            &&& after.code.last()->JumpIf_target == LabelView::Condition(
                (s.conditions + 1) as usize,
            )
        },
        lower_loop(s, elements, at, end) matches Ok((after, _)) ==> {
            &&& after.open_loop == Some((s.loops + 1) as usize)
            &&& s.loops < after.loops
            &&& after.code.last() == InstructionView::Label(
                LabelView::LoopCore((s.loops + 1) as usize),
            )
        },
        forall|k: int, n: usize|
            0 <= k < s.code.len() && n > s.conditions ==> !#[trigger] labels_condition(
                s.code[k],
                n,
            ),
        forall|k: int, n: usize|
            0 <= k < s.code.len() && n > s.loops ==> !#[trigger] labels_loop(s.code[k], n),
{
    assert forall|k: int, n: usize| 0 <= k < s.code.len() && n > s.conditions implies !#[trigger]
        labels_condition(s.code[k], n) by {
        assert(numbered(s.code[k], s.conditions, s.loops));
    }
    assert forall|k: int, n: usize| 0 <= k < s.code.len() && n > s.loops implies !#[trigger]
        labels_loop(s.code[k], n) by {
        assert(numbered(s.code[k], s.conditions, s.loops));
    }
    if lower_loop(s, elements, at, end) is Ok {
        let n = (s.loops + 1) as usize;
        lemma_loop_head(s);
        let opened = State {
            loops: n,
            open_loop: Some(n),
            previous_operator: None,
            ..s.emit(InstructionView::Label(LabelView::LoopTest(n)))
        };
        lemma_lower_expression(opened, elements, at + 1, end, true);
    }
    if lower_if(s, elements, at, end) is Ok {
        let n = (s.conditions + 1) as usize;
        let opened = State {
            conditions: n,
            open_condition: Some(n),
            previous_operator: None,
            ..s
        };
        lemma_beyond_is_absent(s, n);
        lemma_same_clean(s, opened);
        lemma_lower_expression(opened, elements, at + 1, end, true);
    }
}

/// Whether `instruction` is the label of the conditional number `n`.
pub open spec fn labels_condition(instruction: InstructionView, n: usize) -> bool {
    instruction == InstructionView::Label(LabelView::Condition(n))
}

/// Whether `instruction` is one of the labels of the loop number `n`.
pub open spec fn labels_loop(instruction: InstructionView, n: usize) -> bool {
    ||| instruction == InstructionView::Label(LabelView::LoopTest(n))
    ||| instruction == InstructionView::Label(LabelView::LoopCore(n))
    ||| instruction == InstructionView::Label(LabelView::LoopEnd(n))
}

} // verus!

//! What holds of every run of the code generator, proved of the functions
//! that say what it does.

use crate::assembly::instruction::{
    Condition, InstructionView, jump, LabelView, load, op0, op1, op2, Opcode, OperandView,
    Register,
};
use crate::compilation::compilers::model::{
    allocate, assign_items, assign_scalar, closed_before, closes, comparison, declare_parameters,
    enter, epilogue, item_name, lower_element, lower_elements, lower_expression, lower_other,
    lower_return, lower_variable, matching_close, opens, operand_of, prologue, scan_close, State,
};
use crate::compilation::defaults::parameter_register;
use crate::compilation::error::CompileError;
use crate::objects::type_::{size_of, Type};
use crate::objects::variable::Variable;
use crate::parsing::elements::Element;
use crate::parsing::elements::Token;
use vstd::prelude::*;

verus! {

// ------------------------------------------------------------ stack slots

/// The state after the variables of `variables` are given their slots, one
/// after the other.
pub open spec fn allocate_all(s: State, variables: Seq<Variable>) -> Result<State, CompileError>
    decreases variables.len(),
{
    if variables.len() == 0 {
        Ok(s)
    } else {
        match allocate_all(s, variables.drop_last()) {
            Ok(s1) => allocate(s1, variables.last()),
            Err(e) => Err(e),
        }
    }
}

/// The sizes of the first `count` variables of `variables`, added up.
pub open spec fn sizes_sum(variables: Seq<Variable>, count: int) -> int
    decreases count,
{
    if count <= 0 || count > variables.len() {
        0
    } else {
        sizes_sum(variables, count - 1) + match size_of(variables[count - 1].type_) {
            Some(size) => size as int,
            None => 0,
        }
    }
}

/// A prefix of declarations that succeed as a whole succeeds too, and the
/// frame after it is as large as the frame before and the sizes of its
/// variables together.
pub proof fn lemma_allocate_prefix(s: State, variables: Seq<Variable>, count: int)
    requires
        allocate_all(s, variables) is Ok,
        0 <= count <= variables.len(),
    ensures
        allocate_all(s, variables.take(count)) is Ok,
        allocate_all(s, variables.take(count))->Ok_0.offset == s.offset + sizes_sum(
            variables,
            count,
        ),
    decreases variables.len() - count, count,
{
    if count == variables.len() {
        assert(variables.take(count) =~= variables);
        lemma_allocate_sum(s, variables);
    } else {
        lemma_allocate_prefix(s, variables, count + 1);
        assert(variables.take(count + 1).drop_last() =~= variables.take(count));
        lemma_allocate_sum(s, variables.take(count));
        lemma_sizes_sum_prefix(variables, count, count);
    }
}

/// The sum of the first sizes of a prefix is that of the whole sequence.
proof fn lemma_sizes_sum_prefix(variables: Seq<Variable>, length: int, count: int)
    requires
        0 <= count <= length <= variables.len(),
    ensures
        sizes_sum(variables.take(length), count) == sizes_sum(variables, count),
    decreases count,
{
    if count > 0 {
        lemma_sizes_sum_prefix(variables, length, count - 1);
    }
}

/// After declarations that succeed, the frame is as large as the frame
/// before and the sizes of the variables together.
proof fn lemma_allocate_sum(s: State, variables: Seq<Variable>)
    requires
        allocate_all(s, variables) is Ok,
    ensures
        allocate_all(s, variables)->Ok_0.offset == s.offset + sizes_sum(
            variables,
            variables.len() as int,
        ),
    decreases variables.len(),
{
    if variables.len() > 0 {
        lemma_allocate_sum(s, variables.drop_last());
        lemma_sizes_sum_prefix(variables, variables.len() - 1, variables.len() - 1);
        assert(variables.take(variables.len() - 1) =~= variables.drop_last());
    }
}

/// The slot that variable number `index` of `variables` is given when the
/// variables are declared one after the other from the state `s` on.
pub open spec fn slot_of(s: State, variables: Seq<Variable>, index: int) -> int {
    allocate_all(s, variables.take(index + 1))->Ok_0.offset as int
}

/// Stack offsets. Of variables that are declared one after the other in
/// one frame, each lies at the offset that is the size of the frame before
/// them, the sizes of the variables before it, and its own size, added up;
/// it is entered under its name with that offset; and a variable whose
/// size is not zero lies at an offset that is positive and beyond the
/// offset of the variable before it, so that the offsets grow strictly in
/// the order of declaration.
pub proof fn law_stack_offsets(s: State, variables: Seq<Variable>, index: int)
    requires
        allocate_all(s, variables) is Ok,
        0 <= index < variables.len(),
    ensures
        slot_of(s, variables, index) == s.offset + sizes_sum(variables, index + 1),
        allocate_all(s, variables.take(index + 1)) is Ok,
        allocate_all(s, variables.take(index + 1))->Ok_0.variables[variables[index].id@]
            == (Variable { stack_pos: slot_of(s, variables, index) as usize, ..variables[index] }),
        index > 0 && size_of(variables[index].type_) != Some(0nat) ==> slot_of(
            s,
            variables,
            index - 1,
        ) < slot_of(s, variables, index),
        size_of(variables[index].type_) != Some(0nat) ==> slot_of(s, variables, index) > 0,
{
    lemma_allocate_prefix(s, variables, index + 1);
    assert(variables.take(index + 1).drop_last() =~= variables.take(index));
    assert(variables.take(index + 1).last() == variables[index]);
    lemma_allocate_prefix(s, variables, index);
    if index > 0 {
        assert(variables.take(index - 1 + 1) =~= variables.take(index));
    }
}

/// A declaration that is not initialised by a subexpression changes the
/// frame and the table of variables as the allocation of its variable
/// does, and nothing else of them.
pub proof fn law_declaration_allocates(
    s: State,
    elements: Seq<Element>,
    at: int,
    end: int,
    variable: Variable,
)
    requires
        0 <= at < end <= elements.len(),
        !(variable.current_value is BracketOpen),
        lower_variable(s, elements, at, end, variable) is Ok,
    ensures
        allocate(s, variable) is Ok,
        lower_variable(
            s,
            elements,
            at,
            end,
            variable,
        )->Ok_0.0.offset == allocate(s, variable)->Ok_0.offset,
        lower_variable(
            s,
            elements,
            at,
            end,
            variable,
        )->Ok_0.0.variables == allocate(s, variable)->Ok_0.variables,
{
    let s1 = allocate(s, variable)->Ok_0;
    let placed = Variable { stack_pos: s1.offset, ..variable };
    if variable.current_value is SquareBracketOpen {
        if at + 1 < end {
            match elements[at + 1] {
                Element::Array(values) => {
                    match placed.type_ {
                        Type::Array(element, length) => {
                            if let Some(size) = size_of(*element) {
                                lemma_items_keep_frame(
                                    s1,
                                    values@,
                                    0,
                                    placed.stack_pos,
                                    size,
                                    *element,
                                    placed.id@,
                                );
                            }
                        },
                        Type::StaticArray(element) => {
                            if let Some(size) = size_of(*element) {
                                lemma_items_keep_frame(
                                    s1,
                                    values@,
                                    0,
                                    placed.stack_pos,
                                    size,
                                    *element,
                                    placed.id@,
                                );
                            }
                        },
                        _ => {},
                    }
                },
                _ => {},
            }
        }
    }
}

/// The assignment of the items of an array changes neither the frame nor
/// the table of variables.
proof fn lemma_items_keep_frame(
    s: State,
    values: Seq<Token>,
    from: int,
    base: usize,
    size: nat,
    element: Type,
    id: Seq<char>,
)
    requires
        assign_items(s, values, from, base, size, element, id) is Ok,
    ensures
        assign_items(s, values, from, base, size, element, id)->Ok_0.offset == s.offset,
        assign_items(s, values, from, base, size, element, id)->Ok_0.variables == s.variables,
    decreases values.len() - from,
{
    if 0 <= from < values.len() {
        let s1 = assign_scalar(
            s,
            (base - size * from) as usize,
            element,
            values[from],
            item_name(id, from as nat),
        )->Ok_0;
        lemma_items_keep_frame(s1, values, from + 1, base, size, element, id);
    }
}

/// Allocation looks at the frame and the table of variables only: from
/// two states that agree on both, the same variables are allocated alike.
proof fn lemma_allocate_all_alike(s: State, t: State, variables: Seq<Variable>)
    requires
        s.offset == t.offset,
        s.variables == t.variables,
    ensures
        allocate_all(s, variables) is Ok <==> allocate_all(t, variables) is Ok,
        allocate_all(s, variables) is Ok ==> allocate_all(s, variables)->Ok_0.offset
            == allocate_all(t, variables)->Ok_0.offset && allocate_all(
            s,
            variables,
        )->Ok_0.variables == allocate_all(t, variables)->Ok_0.variables,
        allocate_all(s, variables) is Err ==> allocate_all(s, variables)->Err_0 == allocate_all(
            t,
            variables,
        )->Err_0,
    decreases variables.len(),
{
    if variables.len() > 0 {
        lemma_allocate_all_alike(s, t, variables.drop_last());
    }
}

/// Allocating a first variable and then the others is allocating all of
/// them.
proof fn lemma_allocate_all_front(s: State, first: Variable, others: Seq<Variable>)
    ensures
        allocate_all(s, seq![first] + others) == match allocate(s, first) {
            Ok(s1) => allocate_all(s1, others),
            Err(e) => Err(e),
        },
    decreases others.len(),
{
    let all = seq![first] + others;
    if others.len() == 0 {
        assert(all.drop_last() =~= Seq::<Variable>::empty());
        assert(all.last() == first);
        assert(allocate_all(s, all.drop_last()) == Ok::<State, CompileError>(s));
        assert(allocate_all(s, all) == allocate(s, first));
        if let Ok(s1) = allocate(s, first) {
            assert(allocate_all(s1, others) == Ok::<State, CompileError>(s1));
        }
    } else {
        lemma_allocate_all_front(s, first, others.drop_last());
        assert(all.drop_last() =~= seq![first] + others.drop_last());
        assert(all.last() == others.last());
        assert(allocate_all(s, all) == match allocate_all(s, all.drop_last()) {
            Ok(before) => allocate(before, others.last()),
            Err(e) => Err(e),
        });
        if let Ok(s1) = allocate(s, first) {
            assert(allocate_all(s1, others) == match allocate_all(s1, others.drop_last()) {
                Ok(before) => allocate(before, others.last()),
                Err(e) => Err(e),
            });
        }
    }
}

/// The parameters of a function are allocated as variables that are
/// declared one after the other: the frame and the table of variables
/// after their declaration are those after their allocation.
pub proof fn law_parameters_are_allocated(s: State, params: Seq<Variable>, from: int)
    requires
        0 <= from <= params.len(),
        declare_parameters(s, params, from) is Ok,
    ensures
        allocate_all(s, params.subrange(from, params.len() as int)) is Ok,
        allocate_all(s, params.subrange(from, params.len() as int))->Ok_0.offset
            == declare_parameters(s, params, from)->Ok_0.offset,
        allocate_all(s, params.subrange(from, params.len() as int))->Ok_0.variables
            == declare_parameters(s, params, from)->Ok_0.variables,
    decreases params.len() - from,
{
    let rest = params.subrange(from, params.len() as int);
    if from < params.len() {
        let s1 = allocate(s, params[from])->Ok_0;
        let stored = s1.emit(
            op2(
                Opcode::Mov,
                OperandView::Stack(s1.offset),
                OperandView::Register(parameter_register(from)),
            ),
        );
        law_parameters_are_allocated(stored, params, from + 1);
        let others = params.subrange(from + 1, params.len() as int);
        lemma_allocate_all_alike(stored, s1, others);
        lemma_allocate_all_front(s, params[from], others);
        assert(rest =~= seq![params[from]] + others);
    } else {
        assert(rest =~= Seq::<Variable>::empty());
    }
}

/// Stack offsets of parameters. The parameters of a function lie in its
/// frame in the order of their declaration, the first at the offset of
/// its own size: each lies at the offset that is the sizes of the
/// parameters before it and its own size, added up.
pub proof fn law_parameter_offsets(s: State, name: Seq<char>, params: Seq<Variable>, index: int)
    requires
        declare_parameters(prologue(s, name), params, 0) is Ok,
        0 <= index < params.len(),
    ensures
        allocate_all(prologue(s, name), params) is Ok,
        slot_of(prologue(s, name), params, index) == sizes_sum(params, index + 1),
        declare_parameters(prologue(s, name), params, 0)->Ok_0.offset == sizes_sum(
            params,
            params.len() as int,
        ),
{
    let start = prologue(s, name);
    law_parameters_are_allocated(start, params, 0);
    assert(params.subrange(0, params.len() as int) =~= params);
    law_stack_offsets(start, params, index);
    lemma_allocate_prefix(start, params, params.len() as int);
    assert(params.take(params.len() as int) =~= params);
}

/// Declarations in a row. Where the elements of a range are declarations,
/// none of them initialised by a subexpression, lowering the range leaves
/// the frame and the table of variables as the allocation of their
/// variables does, one after the other: so the offsets of these variables
/// are those of the law of stack offsets.
pub proof fn law_declarations_in_a_row(
    s: State,
    elements: Seq<Element>,
    start: int,
    end: int,
    variables: Seq<Variable>,
)
    requires
        0 <= start <= end <= elements.len(),
        variables.len() == end - start,
        forall|k: int|
            0 <= k < variables.len() ==> #[trigger] elements[start + k] == Element::Variable(
                variables[k],
            ) && !(variables[k].current_value is BracketOpen),
        lower_elements(s, elements, start, end) is Ok,
    ensures
        allocate_all(s, variables) is Ok,
        lower_elements(s, elements, start, end)->Ok_0.offset == allocate_all(
            s,
            variables,
        )->Ok_0.offset,
        lower_elements(s, elements, start, end)->Ok_0.variables == allocate_all(
            s,
            variables,
        )->Ok_0.variables,
    decreases end - start,
{
    if start < end {
        let first = variables[0];
        assert(elements[start + 0] == Element::Variable(first));
        let s0 = closed_before(s, elements[start]);
        law_declaration_allocates(s0, elements, start, end, first);
        let (s1, next) = lower_element(s, elements, start, end)->Ok_0;
        assert(next == start + 1) by {
            lemma_declaration_takes_one(s0, elements, start, end, first);
        }
        let others = variables.subrange(1, variables.len() as int);
        assert forall|k: int| 0 <= k < others.len() implies #[trigger] elements[start + 1 + k]
            == Element::Variable(others[k]) && !(others[k].current_value is BracketOpen) by {
            assert(elements[start + (k + 1)] == Element::Variable(variables[k + 1]));
        }
        law_declarations_in_a_row(s1, elements, start + 1, end, others);
        let allocated = allocate(s, first)->Ok_0;
        lemma_allocate_all_alike(s1, allocated, others);
        lemma_allocate_all_front(s, first, others);
        assert(variables =~= seq![first] + others);
    } else {
        assert(variables =~= Seq::<Variable>::empty());
    }
}

/// A declaration that is not initialised by a subexpression takes no
/// element but its own.
proof fn lemma_declaration_takes_one(
    s: State,
    elements: Seq<Element>,
    at: int,
    end: int,
    variable: Variable,
)
    requires
        0 <= at < end <= elements.len(),
        !(variable.current_value is BracketOpen),
        lower_variable(s, elements, at, end, variable) is Ok,
    ensures
        lower_variable(s, elements, at, end, variable)->Ok_0.1 == at + 1,
{
}

// --------------------------------------------------------------- brackets

/// The number of brackets in `elements[from..to]` that open, less the
/// number of those that close.
pub open spec fn depth(elements: Seq<Element>, from: int, to: int) -> int
    decreases to - from,
{
    if to <= from || from < 0 || to > elements.len() {
        0
    } else {
        depth(elements, from, to - 1) + if opens(elements[to - 1]) {
            1int
        } else if closes(elements[to - 1]) {
            -1int
        } else {
            0int
        }
    }
}

/// Whether the bracket at `close` closes the expression that the bracket
/// before `from` opens: every bracket that opens between them is closed
/// before `close`.
pub open spec fn ends_expression(elements: Seq<Element>, from: int, close: int) -> bool {
    &&& from <= close < elements.len()
    &&& closes(elements[close])
    &&& depth(elements, from, close) == 0
}

/// What the scan finds, where brackets before `from` are still open and
/// `start` is the place behind the opening bracket of the expression: the
/// first bracket that ends the expression, and none where the scan finds
/// nothing.
proof fn lemma_scan_close(elements: Seq<Element>, start: int, from: int, end: int, open: nat)
    requires
        0 <= start <= from <= end <= elements.len(),
        open == depth(elements, start, from),
        forall|k: int| start <= k < from ==> !#[trigger] ends_expression(elements, start, k),
        forall|k: int| start <= k <= from ==> #[trigger] depth(elements, start, k) >= 0,
    ensures
        match scan_close(elements, from, end, open) {
            Some(close) => from <= close < end && ends_expression(elements, start, close) && (
            forall|k: int| start <= k < close ==> !#[trigger] ends_expression(elements, start, k)) && (
            forall|k: int| start <= k <= close ==> #[trigger] depth(elements, start, k) >= 0),
            None => forall|k: int| start <= k < end ==> !#[trigger] ends_expression(elements, start, k),
        },
    decreases end - from,
{
    if from < end {
        assert(depth(elements, start, from + 1) == depth(elements, start, from) + if opens(
            elements[from],
        ) {
            1int
        } else if closes(elements[from]) {
            -1int
        } else {
            0int
        });
        if opens(elements[from]) {
            lemma_scan_close(elements, start, from + 1, end, open + 1);
        } else if closes(elements[from]) {
            if open > 0 {
                lemma_scan_close(elements, start, from + 1, end, (open - 1) as nat);
            }
        } else {
            lemma_scan_close(elements, start, from + 1, end, open);
        }
    }
}

/// Bracket matching is exact. The partner that is found for the bracket at
/// `open` closes a bracket; between the two every bracket that opens is
/// closed and none closes that was not opened; and no bracket before the
/// partner ends the expression. Where none is found, no bracket before
/// `end` ends the expression.
pub proof fn law_matching_close(elements: Seq<Element>, open: int, end: int)
    requires
        0 <= open < end <= elements.len(),
    ensures
        match matching_close(elements, open, end) {
            Some(close) => {
                &&& open < close < end
                &&& closes(elements[close])
                &&& depth(elements, open + 1, close) == 0
                &&& forall|k: int| open < k <= close ==> #[trigger] depth(elements, open + 1, k) >= 0
                &&& forall|k: int| open < k < close ==> !#[trigger] ends_expression(elements, open + 1, k)
            },
            None => forall|k: int| open < k < end ==> !#[trigger] ends_expression(elements, open + 1, k),
        },
{
    lemma_scan_close(elements, open + 1, open + 1, end, 0);
}

/// The walk goes on just behind the expression. Where the element at `at`
/// opens an expression and the expression is lowered, the elements up to
/// the partner of that bracket are consumed, and the walk is handed the
/// place just behind the partner.
pub proof fn law_expression_is_skipped(
    s: State,
    elements: Seq<Element>,
    at: int,
    end: int,
    as_test: bool,
)
    requires
        0 <= at < end <= elements.len(),
        opens(elements[at]),
        lower_expression(s, elements, at, end, as_test) is Ok,
    ensures
        matching_close(elements, at, end) is Some,
        lower_expression(s, elements, at, end, as_test)->Ok_0.1 == matching_close(
            elements,
            at,
            end,
        )->Some_0 + 1,
        closes(elements[matching_close(elements, at, end)->Some_0]),
{
    law_matching_close(elements, at, end);
}

// ------------------------------------------------------------ comparisons

/// A comparison is written by its context. As the test of a conditional
/// or a loop it writes the load and the comparison only; anywhere else it
/// writes, behind these two, the instruction that sets the low byte and
/// the one that widens it into the expression register. In both contexts
/// it records its operator.
pub proof fn law_comparison_by_context(s: State, condition: Condition, a: OperandView, b: OperandView)
    ensures
        s.in_test ==> comparison(s, condition, a, b).code == s.code.push(
            load(Register::Rbx, a),
        ).push(op2(Opcode::Compare, OperandView::Register(Register::Rbx), b)),
        !s.in_test ==> comparison(s, condition, a, b).code == s.code.push(
            load(Register::Rbx, a),
        ).push(op2(Opcode::Compare, OperandView::Register(Register::Rbx), b)).push(
            InstructionView::SetIf { condition, register: Register::Al },
        ).push(
            op2(
                Opcode::Movzx,
                OperandView::Register(Register::Rbx),
                OperandView::Register(Register::Al),
            ),
        ),
        comparison(s, condition, a, b).previous_operator == Some(condition),
{
}

/// The test of a conditional or a loop is lowered as a test, whatever the
/// context of the conditional or loop itself; an operand that is a
/// subexpression, and every other nested expression, is not.
pub proof fn law_test_context(s: State, as_test: bool)
    ensures
        enter(s, as_test).in_test == as_test,
        enter(s, as_test).open_condition is None,
        enter(s, as_test).open_loop is None,
{
}

// ----------------------------------------------------------------- arrays

/// The state after the first `count` values of an array literal are
/// assigned.
pub open spec fn items_assigned(
    s: State,
    values: Seq<Token>,
    count: int,
    base: usize,
    size: nat,
    element: Type,
    id: Seq<char>,
) -> Result<State, CompileError>
    decreases count,
{
    if count <= 0 {
        Ok(s)
    } else {
        match items_assigned(s, values, count - 1, base, size, element, id) {
            Ok(s1) => if size * (count - 1) >= base {
                Err(CompileError::MalformedTree)
            } else {
                assign_scalar(
                    s1,
                    (base - size * (count - 1)) as usize,
                    element,
                    values[count - 1],
                    item_name(id, (count - 1) as nat),
                )
            },
            Err(e) => Err(e),
        }
    }
}

/// Assigning the values from `from` on behind the first `from` values is
/// assigning the first `count` values, `count` being the number of all.
proof fn lemma_assign_items(
    s: State,
    values: Seq<Token>,
    from: int,
    base: usize,
    size: nat,
    element: Type,
    id: Seq<char>,
)
    requires
        0 <= from <= values.len(),
        items_assigned(s, values, from, base, size, element, id) is Ok,
    ensures
        assign_items(
            items_assigned(s, values, from, base, size, element, id)->Ok_0,
            values,
            from,
            base,
            size,
            element,
            id,
        ) == items_assigned(s, values, values.len() as int, base, size, element, id),
    decreases values.len() - from,
{
    let middle = items_assigned(s, values, from, base, size, element, id)->Ok_0;
    if from < values.len() {
        if size * from >= base {
            lemma_items_fail(s, values, from + 1, values.len() as int, base, size, element, id);
        } else {
            let next = assign_scalar(
                middle,
                (base - size * from) as usize,
                element,
                values[from],
                item_name(id, from as nat),
            );
            if next is Ok {
                lemma_assign_items(s, values, from + 1, base, size, element, id);
            } else {
                lemma_items_fail(
                    s,
                    values,
                    from + 1,
                    values.len() as int,
                    base,
                    size,
                    element,
                    id,
                );
            }
        }
    }
}

/// Once the assignment of a value has failed, the failure stays.
proof fn lemma_items_fail(
    s: State,
    values: Seq<Token>,
    count: int,
    more: int,
    base: usize,
    size: nat,
    element: Type,
    id: Seq<char>,
)
    requires
        0 <= count <= more,
        items_assigned(s, values, count, base, size, element, id) is Err,
    ensures
        items_assigned(s, values, more, base, size, element, id) == items_assigned(
            s,
            values,
            count,
            base,
            size,
            element,
            id,
        ),
    decreases more - count,
{
    if count < more {
        lemma_items_fail(s, values, count, more - 1, base, size, element, id);
    }
}

/// Array assignment. An array literal of `n` values that is assigned to
/// an array writes `n` scalar assignments, one for each value in its
/// order: value number `k` is assigned as a scalar of the element type to
/// the slot at the offset `base - size * k`, under the name of the array
/// with the index behind it. So the offsets go down by one element size
/// from each value to the next.
pub proof fn law_array_assignment(
    s: State,
    values: Seq<Token>,
    base: usize,
    size: nat,
    element: Type,
    id: Seq<char>,
    index: int,
)
    requires
        assign_items(s, values, 0, base, size, element, id) is Ok,
        0 <= index < values.len(),
    ensures
        assign_items(s, values, 0, base, size, element, id) == items_assigned(
            s,
            values,
            values.len() as int,
            base,
            size,
            element,
            id,
        ),
        items_assigned(s, values, index, base, size, element, id) is Ok,
        size * index < base,
        items_assigned(s, values, index + 1, base, size, element, id) == assign_scalar(
            items_assigned(s, values, index, base, size, element, id)->Ok_0,
            (base - size * index) as usize,
            element,
            values[index],
            item_name(id, index as nat),
        ),
        items_assigned(s, values, index + 1, base, size, element, id) is Ok,
        index + 1 < values.len() ==> (base - size * (index + 1)) == (base - size * index) - size,
{
    lemma_assign_items(s, values, 0, base, size, element, id);
    if items_assigned(s, values, index + 1, base, size, element, id) is Err {
        lemma_items_fail(s, values, index + 1, values.len() as int, base, size, element, id);
    }
    if items_assigned(s, values, index, base, size, element, id) is Err {
        lemma_items_fail(s, values, index, index + 1, base, size, element, id);
    }
    assert(size * (index + 1) == size * index + size) by (nonlinear_arith);
}

// ------------------------------------------------------------ frames

/// The head of a function. The label of a function is written once, and
/// the two instructions behind it are its prologue: the frame pointer of
/// the caller is saved, and the new frame pointer is taken from the stack
/// pointer. The frame starts empty.
pub proof fn law_prologue(s: State, name: Seq<char>)
    ensures
        prologue(s, name).code == s.code.push(
            op1(Opcode::Global, OperandView::Label(LabelView::Function(name))),
        ).push(InstructionView::Label(LabelView::Function(name))).push(
            op1(Opcode::Push, OperandView::Register(Register::Rbp)),
        ).push(
            op2(
                Opcode::Mov,
                OperandView::Register(Register::Rbp),
                OperandView::Register(Register::Rsp),
            ),
        ),
        prologue(s, name).offset == 0,
{
}

/// The end of a function. A return that takes its value from no
/// subexpression writes three instructions: the move of the value to the
/// register in which a function hands back its result, then the epilogue,
/// which restores the frame pointer of the caller and returns. The frame is
/// empty behind it.
pub proof fn law_epilogue(s: State, elements: Seq<Element>, at: int, end: int, value: Token)
    requires
        0 <= at < end <= elements.len(),
        !(value is BracketOpen),
        lower_return(s, elements, at, end, value) is Ok,
    ensures
        lower_return(s, elements, at, end, value)->Ok_0.0.code == s.code.push(
            if value is Nothing {
                op2(
                    Opcode::Xor,
                    OperandView::Register(Register::Rax),
                    OperandView::Register(Register::Rax),
                )
            } else {
                load(Register::Rax, operand_of(s.variables, value)->Ok_0)
            },
        ).push(op1(Opcode::Pop, OperandView::Register(Register::Rbp))).push(op0(Opcode::Ret)),
        lower_return(s, elements, at, end, value)->Ok_0.0.offset == 0,
        lower_return(s, elements, at, end, value)->Ok_0.1 == at + 1,
{
}

// ----------------------------------------------------------------- labels

/// `break` and `continue` speak of the nearest loop. Where a loop is open
/// at the level of the token, they jump to the end and to the test of that
/// loop; inside a nested expression, to those of the loop that was open
/// where the expression was entered, or else of the loop around that.
pub proof fn law_nearest_loop(s: State, elements: Seq<Element>, at: int, end: int, as_test: bool)
    requires
        0 <= at < end <= elements.len(),
    ensures
        s.nearest_loop() matches Some(n) ==> lower_other(
            s,
            elements,
            at,
            end,
            Token::LoopBreak,
        ) == Ok::<(State, int), CompileError>((s.emit(jump(LabelView::LoopEnd(n))), at + 1)),
        s.nearest_loop() matches Some(n) ==> lower_other(
            s,
            elements,
            at,
            end,
            Token::LoopContinue,
        ) == Ok::<(State, int), CompileError>((s.emit(jump(LabelView::LoopTest(n))), at + 1)),
        s.nearest_loop() is None ==> lower_other(s, elements, at, end, Token::LoopBreak) is Err,
        s.open_loop is Some ==> s.nearest_loop() == s.open_loop,
        enter(s, as_test).nearest_loop() == s.nearest_loop(),
{
}

} // verus!

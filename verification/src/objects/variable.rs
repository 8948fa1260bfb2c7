//! Variables as the compiler keeps them.

use crate::objects::type_::Type;
use crate::parsing::elements::Token;
use vstd::prelude::*;

verus! {

/// A variable: its name, its type, the value it was last given and its
/// place in the frame, as the distance in bytes under the frame base.
#[derive(Debug, PartialEq, Eq)]
pub struct Variable {
    pub id: String,
    pub type_: Type,
    pub current_value: Token,
    pub stack_pos: usize,
}

impl Clone for Variable {
    fn clone(&self) -> (copy: Self)
        ensures
            copy == *self,
    {
        Variable {
            id: self.id.clone(),
            type_: self.type_.clone(),
            current_value: self.current_value.clone(),
            stack_pos: self.stack_pos,
        }
    }
}

impl Variable {
    /// A variable on the stack.
    pub fn new(id: String, type_: Type, current_value: Token, stack_pos: usize) -> (v: Variable)
        ensures
            v == (Variable { id, type_, current_value, stack_pos }),
    {
        Variable { id, type_, current_value, stack_pos }
    }

    /// A variable in static data, which has no place in a frame.
    pub fn static_(id: String, type_: Type, value: Token) -> (v: Variable)
        ensures
            v == (Variable { id, type_, current_value: value, stack_pos: 0 }),
    {
        Variable { id, type_, current_value: value, stack_pos: 0 }
    }

    /// Replaces the value.
    pub fn set_current_value(&mut self, current_value: Token)
        ensures
            *final(self) == (Variable { current_value, ..*old(self) }),
    {
        self.current_value = current_value;
    }

    /// Replaces the place in the frame.
    pub fn set_stack_pos(&mut self, stack_pos: usize)
        ensures
            *final(self) == (Variable { stack_pos, ..*old(self) }),
    {
        self.stack_pos = stack_pos;
    }

    pub fn id(&self) -> (id: &String)
        ensures
            *id == self.id,
    {
        &self.id
    }

    pub fn type_(&self) -> (type_: &Type)
        ensures
            *type_ == self.type_,
    {
        &self.type_
    }

    pub fn current_value(&self) -> (value: &Token)
        ensures
            *value == self.current_value,
    {
        &self.current_value
    }

    pub fn stack_pos(&self) -> (stack_pos: &usize)
        ensures
            *stack_pos == self.stack_pos,
    {
        &self.stack_pos
    }
}

} // verus!

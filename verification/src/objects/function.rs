//! Functions as the compiler reads them.

use crate::compilation::error::CompileError;
use crate::objects::params::Params;
use crate::objects::type_::{Type, type_of_name};
use crate::objects::variable::Variable;
use crate::parsing::elements::Element;
use crate::parsing::elements::Token;
use vstd::prelude::*;

verus! {

/// A function: its name, the parameters that it declares and the name of
/// the type that it returns.
#[derive(Clone, Debug, PartialEq, Eq)]
pub struct Function {
    pub id: String,
    pub params: Params,
    pub return_type: String,
}

impl Function {
    pub fn new(id: String, params: Params, return_type: String) -> (f: Function)
        ensures
            f == (Function { id, params, return_type }),
    {
        Function { id, params, return_type }
    }

    pub fn id(&self) -> (id: &String)
        ensures
            *id == self.id,
    {
        &self.id
    }

    pub fn params(&self) -> (params: &Params)
        ensures
            *params == self.params,
    {
        &self.params
    }

    pub fn return_type(&self) -> (return_type: &String)
        ensures
            *return_type == self.return_type,
    {
        &self.return_type
    }
}

/// The parameter that is named `id` and is of the type written `type_`.
pub open spec fn parameter(id: String, type_: String) -> Variable {
    Variable { id, type_: type_of_name(type_), current_value: Token::Nothing, stack_pos: 0 }
}

/// The parameters that the tokens of `list` from index `from` on declare,
/// behind the parameters `read`. Each parameter is a name and, behind it,
/// the name of its type; colons and commas stand between the names and
/// are passed over. `pending` is a name whose type is still to come; a
/// name that no type follows declares nothing.
pub open spec fn parameters_from(
    list: Seq<Element>,
    from: int,
    pending: Option<String>,
    read: Seq<Variable>,
) -> Result<Seq<Variable>, CompileError>
    decreases list.len() - from,
{
    if from < 0 || from >= list.len() {
        Ok(read)
    } else {
        match list[from] {
            Element::Other(Token::TypeDef) => parameters_from(list, from + 1, pending, read),
            Element::Other(Token::Comma) => parameters_from(list, from + 1, pending, read),
            Element::Other(Token::Other(text)) => match pending {
                Some(id) => parameters_from(list, from + 1, None, read.push(parameter(id, text))),
                None => parameters_from(list, from + 1, Some(text), read),
            },
            _ => Err(CompileError::MalformedTree),
        }
    }
}

/// Reads the parameters that a parameter list declares, as a parser
/// hands it over: the lone tokens of the list, one element each.
pub fn read_parameters(list: &Vec<Element>) -> (params: Result<Params, CompileError>)
    ensures
        match parameters_from(list@, 0, None, Seq::empty()) {
            Ok(read) => params is Ok && params->Ok_0@ == read,
            Err(e) => params == Err::<Params, CompileError>(e),
        },
{
    let mut read: Vec<Variable> = Vec::new();
    let mut pending: Option<String> = None;
    let mut i: usize = 0;
    while i < list.len()
        invariant
            i <= list.len(),
            parameters_from(list@, 0, None, Seq::empty()) == parameters_from(
                list@,
                i as int,
                pending,
                read@,
            ),
        decreases list.len() - i,
    {
        match &list[i] {
            Element::Other(Token::TypeDef) => {},
            Element::Other(Token::Comma) => {},
            Element::Other(Token::Other(text)) => {
                match pending {
                    Some(id) => {
                        read.push(
                            Variable::new(id, Type::from_string(text.clone()), Token::Nothing, 0),
                        );
                        pending = None;
                    },
                    None => {
                        pending = Some(text.clone());
                    },
                }
            },
            _ => {
                return Err(CompileError::MalformedTree);
            },
        }
        i += 1;
    }
    Ok(read)
}

} // verus!

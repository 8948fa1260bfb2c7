//! The types of the language and their sizes in memory.

use crate::assembly::instruction::{Directive, Width};
use crate::assembly::listing::width_text;
use crate::text::is_text;
use vstd::prelude::*;

verus! {

/// The type of a variable.
#[derive(Debug, PartialEq, Eq)]
pub enum Type {
    /// One byte.
    Byte,
    /// Four bytes.
    Integer,
    /// Eight bytes.
    BigInteger,
    /// Text, one byte for each character.
    Str,
    /// An array whose length is not part of the type.
    StaticArray(Box<Type>),
    /// An array of the given length.
    Array(Box<Type>, usize),
    /// A type that the language does not define, by its name.
    NotNative(String),
}

impl Clone for Type {
    fn clone(&self) -> (copy: Self)
        ensures
            copy == *self,
        decreases *self,
    {
        match self {
            Type::Byte => Type::Byte,
            Type::Integer => Type::Integer,
            Type::BigInteger => Type::BigInteger,
            Type::Str => Type::Str,
            Type::StaticArray(element) => Type::StaticArray(Box::new((**element).clone())),
            Type::Array(element, length) => Type::Array(Box::new((**element).clone()), *length),
            Type::NotNative(name) => Type::NotNative(name.clone()),
        }
    }
}

/// The type that is written `name`.
pub open spec fn type_of_name(name: String) -> Type {
    if name@ == "byte"@ {
        Type::Byte
    } else if name@ == "int"@ {
        Type::Integer
    } else if name@ == "bigint"@ {
        Type::BigInteger
    } else if name@ == "str"@ {
        Type::Str
    } else {
        Type::NotNative(name)
    }
}

/// The number of bytes that a value of type `t` takes, where the language
/// defines it: an array takes the size of its element times its length, an
/// array without a length the size of one element.
pub open spec fn size_of(t: Type) -> Option<nat>
    decreases t,
{
    match t {
        Type::Byte => Some(1),
        Type::Integer => Some(4),
        Type::BigInteger => Some(8),
        Type::Str => Some(1),
        Type::StaticArray(element) => size_of(*element),
        Type::Array(element, length) => match size_of(*element) {
            Some(size) => Some(size * (length as nat)),
            None => None,
        },
        Type::NotNative(_) => None,
    }
}

/// The directive that defines static data of type `t`.
pub open spec fn directive_of(t: Type) -> Option<Directive>
    decreases t,
{
    match t {
        Type::Byte => Some(Directive::Db),
        Type::Integer => Some(Directive::Dd),
        Type::BigInteger => Some(Directive::Dq),
        Type::Str => Some(Directive::Db),
        Type::StaticArray(element) => directive_of(*element),
        Type::Array(element, _) => directive_of(*element),
        Type::NotNative(_) => None,
    }
}

/// The width that is named when a literal is stored to a variable of type
/// `t`.
pub open spec fn width_of(t: Type) -> Option<Width> {
    match t {
        Type::Byte => Some(Width::Byte),
        Type::Integer => Some(Width::Dword),
        Type::BigInteger => Some(Width::Qword),
        Type::Str => Some(Width::Byte),
        _ => None,
    }
}

impl Type {
    /// The type that is written `type_as_string`.
    pub fn from_string(type_as_string: String) -> (t: Type)
        ensures
            t == type_of_name(type_as_string),
    {
        if is_text(&type_as_string, "byte") {
            Type::Byte
        } else if is_text(&type_as_string, "int") {
            Type::Integer
        } else if is_text(&type_as_string, "bigint") {
            Type::BigInteger
        } else if is_text(&type_as_string, "str") {
            Type::Str
        } else {
            Type::NotNative(type_as_string)
        }
    }

    /// An array of `len` elements of type `type_`.
    pub fn new_array(type_: Type, len: usize) -> (t: Type)
        ensures
            t == Type::Array(Box::new(type_), len),
    {
        Type::Array(Box::new(type_), len)
    }

    /// An array of `len` elements of the type that is written
    /// `type_as_string`.
    pub fn array_from_string(type_as_string: String, len: usize) -> (t: Type)
        ensures
            t == Type::Array(Box::new(type_of_name(type_as_string)), len),
    {
        Type::Array(Box::new(Type::from_string(type_as_string)), len)
    }

    /// An array without a length, of elements of the type that is written
    /// `type_as_string`.
    pub fn static_array_from_string(type_as_string: String) -> (t: Type)
        ensures
            t == Type::StaticArray(Box::new(type_of_name(type_as_string))),
    {
        Type::StaticArray(Box::new(Type::from_string(type_as_string)))
    }

    /// The size of the type in bytes: `None` where the language defines no
    /// size for it, or where the size does not fit the machine's word.
    pub fn checked_size(&self) -> (size: Option<usize>)
        ensures
            size == match size_of(*self) {
                Some(n) => if n <= usize::MAX {
                    Some(n as usize)
                } else {
                    None
                },
                None => None,
            },
        decreases *self,
    {
        match self {
            Type::Byte => Some(1),
            Type::Integer => Some(4),
            Type::BigInteger => Some(8),
            Type::Str => Some(1),
            Type::StaticArray(element) => element.checked_size(),
            Type::Array(element, length) => match element.checked_size() {
                Some(size) => {
                    let total = size.checked_mul(*length);
                    proof {
                        let n = size_of(**element).unwrap();
                        if *length == 0 {
                            assert(n * *length == 0) by (nonlinear_arith)
                                requires
                                    *length == 0,
                            ;
                        }
                    }
                    total
                },
                None => {
                    proof {
                        if let Some(n) = size_of(**element) {
                            if *length > 0 {
                                assert(n * *length >= n) by (nonlinear_arith)
                                    requires
                                        *length >= 1,
                                        n >= 0,
                                ;
                            }
                        }
                    }
                    if *length == 0 && element.is_sized() {
                        Some(0)
                    } else {
                        None
                    }
                },
            },
            Type::NotNative(_) => None,
        }
    }

    /// Whether the language defines a size for the type.
    pub fn is_sized(&self) -> (sized: bool)
        ensures
            sized == size_of(*self) is Some,
        decreases *self,
    {
        match self {
            Type::Byte => true,
            Type::Integer => true,
            Type::BigInteger => true,
            Type::Str => true,
            Type::StaticArray(element) => element.is_sized(),
            Type::Array(element, _) => element.is_sized(),
            Type::NotNative(_) => false,
        }
    }

    /// The size of the type in bytes.
    pub fn to_usize(&self) -> (size: usize)
        requires
            size_of(*self) is Some,
            size_of(*self).unwrap() <= usize::MAX,
        ensures
            size == size_of(*self).unwrap(),
    {
        match self.checked_size() {
            Some(size) => size,
            None => 0,
        }
    }

    /// The directive that defines static data of the type, where there is
    /// one.
    pub fn directive(&self) -> (directive: Option<Directive>)
        ensures
            directive == directive_of(*self),
        decreases *self,
    {
        match self {
            Type::Byte => Some(Directive::Db),
            Type::Integer => Some(Directive::Dd),
            Type::BigInteger => Some(Directive::Dq),
            Type::Str => Some(Directive::Db),
            Type::StaticArray(element) => element.directive(),
            Type::Array(element, _) => element.directive(),
            Type::NotNative(_) => None,
        }
    }

    /// The width that is named when a literal is stored to a variable of
    /// the type: none for an array or a type that the language does not
    /// define.
    pub fn width(&self) -> (width: Option<Width>)
        ensures
            width == width_of(*self),
    {
        match self {
            Type::Byte => Some(Width::Byte),
            Type::Integer => Some(Width::Dword),
            Type::BigInteger => Some(Width::Qword),
            Type::Str => Some(Width::Byte),
            _ => None,
        }
    }
}

/// How the directive that defines static data of type `t` is written; a
/// type that the language does not define is written by its name.
pub open spec fn directive_text(t: Type) -> Seq<char>
    decreases t,
{
    match t {
        Type::Byte => "db"@,
        Type::Integer => "dd"@,
        Type::BigInteger => "dq"@,
        Type::Str => "db"@,
        Type::StaticArray(element) => directive_text(*element),
        Type::Array(element, _) => directive_text(*element),
        Type::NotNative(name) => name@,
    }
}

/// The type that is written `type_as_string`.
pub fn string_to_type(type_as_string: String) -> (t: Type)
    ensures
        t == type_of_name(type_as_string),
{
    Type::from_string(type_as_string)
}

/// Writes the directive that defines static data of type `type_`.
pub fn type_to_assembly(type_: &Type) -> (text: String)
    ensures
        text@ == directive_text(*type_),
    decreases *type_,
{
    match type_ {
        Type::Byte => String::from_str("db"),
        Type::Integer => String::from_str("dd"),
        Type::BigInteger => String::from_str("dq"),
        Type::Str => String::from_str("db"),
        Type::StaticArray(element) => type_to_assembly(element),
        Type::Array(element, _) => type_to_assembly(element),
        Type::NotNative(name) => name.clone(),
    }
}

/// Writes the width of a value of the scalar type `type_`.
pub fn type_size_to_assembly(type_: &Type) -> (text: String)
    requires
        width_of(*type_) is Some,
    ensures
        text@ == width_text(width_of(*type_)->Some_0),
{
    match type_.width() {
        Some(width) => width.text(),
        None => String::new(),
    }
}

/// The size of a value of type `type_` in bytes.
pub fn type_size_to_usize(type_: &Type) -> (size: usize)
    requires
        size_of(*type_) is Some,
        size_of(*type_).unwrap() <= usize::MAX,
    ensures
        size == size_of(*type_).unwrap(),
{
    type_.to_usize()
}

} // verus!

//! The values that a program computes with.

use vstd::prelude::*;
use vstd::std_specs::cmp::PartialEqSpecImpl;
use vstd::std_specs::convert::FromSpecImpl;

use crate::function::Function;
use crate::number::{equal, number_eq};

verus! {

/// A runtime value. A number is held as its IEEE 754 bit pattern; a class or
/// an instance is held as its handle in the interpreter's tables.
#[derive(Debug)]
pub enum LoxType {
    Boolean(bool),
    Callable(Function),
    Class(usize),
    Instance(usize),
    Nil,
    Number(u64),
    String(String),
}

/// The mathematical value that a `LoxType` stands for.
pub ghost enum Value {
    Boolean(bool),
    Callable(Function),
    Class(usize),
    Instance(usize),
    Nil,
    Number(u64),
    Text(Seq<char>),
}

impl View for LoxType {
    type V = Value;

    open spec fn view(&self) -> Value {
        match self {
            LoxType::Boolean(b) => Value::Boolean(*b),
            LoxType::Callable(function) => Value::Callable(*function),
            LoxType::Class(class) => Value::Class(*class),
            LoxType::Instance(instance) => Value::Instance(*instance),
            LoxType::Nil => Value::Nil,
            LoxType::Number(bits) => Value::Number(*bits),
            LoxType::String(text) => Value::Text(text@),
        }
    }
}

/// Nil and false are falsy; every other value is truthy, zero and the empty
/// string among them.
pub open spec fn truthy(value: Value) -> bool {
    match value {
        Value::Nil => false,
        Value::Boolean(b) => b,
        _ => true,
    }
}

/// Equality of values. Values of different variants are never equal; numbers
/// compare as IEEE doubles, strings by their characters, functions, classes
/// and instances by identity.
pub open spec fn values_equal(left: Value, right: Value) -> bool {
    match (left, right) {
        (Value::Boolean(a), Value::Boolean(b)) => a == b,
        (Value::Callable(f), Value::Callable(g)) => f == g,
        (Value::Class(a), Value::Class(b)) => a == b,
        (Value::Instance(a), Value::Instance(b)) => a == b,
        (Value::Nil, Value::Nil) => true,
        (Value::Number(a), Value::Number(b)) => number_eq(a, b),
        (Value::Text(a), Value::Text(b)) => a == b,
        _ => false,
    }
}

/// Whether two values are of the same variant.
pub open spec fn same_variant(left: Value, right: Value) -> bool {
    match (left, right) {
        (Value::Boolean(_), Value::Boolean(_)) => true,
        (Value::Callable(_), Value::Callable(_)) => true,
        (Value::Class(_), Value::Class(_)) => true,
        (Value::Instance(_), Value::Instance(_)) => true,
        (Value::Nil, Value::Nil) => true,
        (Value::Number(_), Value::Number(_)) => true,
        (Value::Text(_), Value::Text(_)) => true,
        _ => false,
    }
}

impl LoxType {
    /// Whether the value counts as true in a condition.
    pub fn is_truthy(&self) -> (result: bool)
        ensures
            result == truthy(self@),
            result == !(self@ is Nil || self@ == Value::Boolean(false)),
    {
        match self {
            LoxType::Boolean(b) => *b,
            LoxType::Nil => false,
            _ => true,
        }
    }

    /// Whether the value is the literal nil.
    pub fn is_nil(&self) -> (result: bool)
        ensures
            result == (self@ is Nil),
    {
        match self {
            LoxType::Nil => true,
            _ => false,
        }
    }
}

impl Clone for LoxType {
    fn clone(&self) -> (copy: Self)
        ensures
            copy == *self,
    {
        match self {
            LoxType::Boolean(b) => LoxType::Boolean(*b),
            LoxType::Callable(function) => LoxType::Callable(*function),
            LoxType::Class(class) => LoxType::Class(*class),
            LoxType::Instance(instance) => LoxType::Instance(*instance),
            LoxType::Nil => LoxType::Nil,
            LoxType::Number(bits) => LoxType::Number(*bits),
            LoxType::String(text) => LoxType::String(text.clone()),
        }
    }
}

impl PartialEq for LoxType {
    fn eq(&self, other: &Self) -> (same: bool) {
        match (self, other) {
            (LoxType::Boolean(a), LoxType::Boolean(b)) => *a == *b,
            (LoxType::Callable(f), LoxType::Callable(g)) => *f == *g,
            (LoxType::Class(a), LoxType::Class(b)) => *a == *b,
            (LoxType::Instance(a), LoxType::Instance(b)) => *a == *b,
            (LoxType::Nil, LoxType::Nil) => true,
            (LoxType::Number(a), LoxType::Number(b)) => equal(*a, *b),
            (LoxType::String(a), LoxType::String(b)) => *a == *b,
            _ => false,
        }
    }
}

impl PartialEqSpecImpl for LoxType {
    open spec fn obeys_eq_spec() -> bool {
        true
    }

    open spec fn eq_spec(&self, other: &Self) -> bool {
        values_equal(self@, other@)
    }
}

impl From<LoxType> for bool {
    fn from(value: LoxType) -> (result: bool) {
        value.is_truthy()
    }
}

impl FromSpecImpl<LoxType> for bool {
    open spec fn obeys_from_spec() -> bool {
        true
    }

    open spec fn from_spec(value: LoxType) -> bool {
        truthy(value@)
    }
}

/// A value is equal to itself, unless it is the number not-a-number.
pub proof fn lemma_equality_reflexive(value: Value)
    requires
        !(value matches Value::Number(bits) && crate::number::is_nan(bits)),
    ensures
        values_equal(value, value),
{
}

/// Values of different variants are never equal, and equality is symmetric.
pub proof fn lemma_equality_variants(left: Value, right: Value)
    ensures
        !same_variant(left, right) ==> !values_equal(left, right),
        values_equal(left, right) == values_equal(right, left),
{
}

/// Numbers are equal as IEEE doubles are: positive and negative zero are
/// equal, and not-a-number is equal to nothing, itself included.
pub proof fn lemma_equality_numbers(left: u64, right: u64)
    ensures
        values_equal(Value::Number(left), Value::Number(right)) == number_eq(left, right),
        values_equal(Value::Number(0), Value::Number(crate::number::SIGN_BIT)),
        crate::number::is_nan(left) ==> !values_equal(Value::Number(left), Value::Number(right)),
        crate::number::is_nan(left) ==> !values_equal(Value::Number(left), Value::Number(left)),
{
}

/// Nil and false are the only falsy values.
pub proof fn lemma_truthiness(value: Value)
    ensures
        truthy(value) == !(value is Nil || value == Value::Boolean(false)),
        truthy(Value::Number(0)),
        truthy(Value::Text(Seq::empty())),
{
}

} // verus!

//! The tagged value that every expression evaluates to, its truthiness, its
//! unary operators and its conversions to integers, floats and text.

use crate::descriptor::LoxArray;
use crate::descriptor::LoxClass;
use crate::descriptor::LoxFunction;
use crate::descriptor::LoxObject;
use crate::descriptor::LoxTrait;
use crate::error::ValueError;
use crate::float::Float32;
use std::ops::Neg;
use std::ops::Not;
use std::rc::Rc;
use vstd::prelude::*;
use vstd::std_specs::convert::TryFromSpecImpl;
use vstd::std_specs::ops::NegSpecImpl;
use vstd::std_specs::ops::NotSpecImpl;

verus! {

/// A runtime value. Scalars and strings are held in place; functions,
/// classes, instances, traits and arrays are shared by reference count, so a
/// copy of the value is another holder of the same descriptor. A descriptor
/// lives as long as its last holder, and no holder changes it.
#[derive(Clone, Debug)]
#[allow(inconsistent_fields)]
pub enum Value {
    Nil,
    /// The state of a binding that was declared and not assigned yet.
    Uninitialized,
    Boolean { value: bool },
    Integer { value: i64 },
    Float { value: Float32 },
    String { value: String },
    Function(Rc<LoxFunction>),
    /// A function and the instance that it was bound to.
    Method(Rc<LoxFunction>, Rc<LoxObject>),
    Class(Rc<LoxClass>),
    Object(Rc<LoxObject>),
    Trait(Rc<LoxTrait>),
    Array(Rc<LoxArray>),
    /// A namespace outside the value model, by its name.
    Module(String),
}

impl Value {
    /// What conditionals take the value for: false for `Nil`, for
    /// `Uninitialized`, for the boolean false and for the number zero of
    /// either kind, zero with a minus sign too; true for everything else.
    pub open spec fn truthy(self) -> bool {
        match self {
            Value::Nil => false,
            Value::Uninitialized => false,
            Value::Boolean { value } => value,
            Value::Float { value } => !value.is_zero(),
            Value::Integer { value } => value != 0,
            _ => true,
        }
    }

    /// The value with its sign changed, where it is a number. The integer
    /// that has no positive counterpart is its own negation.
    pub open spec fn negation(self) -> Result<Value, ValueError> {
        match self {
            Value::Integer { value } => Ok(
                Value::Integer {
                    value: if value == i64::MIN {
                        value
                    } else {
                        (-value) as i64
                    },
                },
            ),
            Value::Float { value } => Ok(Value::Float { value: value.negated() }),
            _ => Err(ValueError::ExpectingNumber),
        }
    }

    /// The boolean that is true where the value counts as false.
    pub open spec fn logical_not(self) -> Value {
        Value::Boolean { value: !self.truthy() }
    }

    /// The value as a 64-bit integer: an integer as it is, a float cut down
    /// to its integer part.
    pub open spec fn as_integer(self) -> Result<i64, ValueError> {
        match self {
            Value::Integer { value } => Ok(value),
            Value::Float { value } => Ok(value.truncated() as i64),
            _ => Err(ValueError::ExpectingInteger),
        }
    }

    /// The value as a float: a float as it is, an integer as the float
    /// nearest to it.
    pub open spec fn as_float(self) -> Result<Float32, ValueError> {
        match self {
            Value::Float { value } => Ok(value),
            Value::Integer { value } => Ok(Float32::from_int(value as int)),
            _ => Err(ValueError::ExpectingDouble),
        }
    }

    /// The value as text, which only a string is.
    pub open spec fn as_text(self) -> Result<String, ValueError> {
        match self {
            Value::String { value } => Ok(value),
            _ => Err(ValueError::ExpectingString),
        }
    }

    /// Whether the value is an integer or a float.
    pub fn is_number(&self) -> (r: bool)
        ensures
            r == (*self is Integer || *self is Float),
    {
        match self {
            Value::Integer { .. } => true,
            Value::Float { .. } => true,
            _ => false,
        }
    }

    /// Whether the value is a class.
    pub fn is_class(&self) -> (r: bool)
        ensures
            r == (*self is Class),
    {
        match self {
            Value::Class(_) => true,
            _ => false,
        }
    }

    /// Whether the value is a trait.
    pub fn is_trait(&self) -> (r: bool)
        ensures
            r == (*self is Trait),
    {
        match self {
            Value::Trait(_) => true,
            _ => false,
        }
    }

    /// Whether the value counts as true in a condition.
    pub fn is_truthy(&self) -> (r: bool)
        ensures
            r == self.truthy(),
    {
        match self {
            Value::Nil => false,
            Value::Uninitialized => false,
            Value::Boolean { value } => *value,
            Value::Float { value } => !value.is_zero(),
            Value::Integer { value } => *value != 0,
            _ => true,
        }
    }
}

/// Unary minus. An integer or a float comes back with its sign changed; the
/// integer that has no positive counterpart comes back as it is. Any other
/// value is a type error of the program being run, and comes back as one.
impl Neg for Value {
    type Output = Result<Value, ValueError>;

    fn neg(self) -> (r: Result<Value, ValueError>)
        ensures
            r == self.negation(),
    {
        match self {
            Value::Integer { value } => {
                if value == i64::MIN {
                    Ok(Value::Integer { value })
                } else {
                    Ok(Value::Integer { value: -value })
                }
            },
            Value::Float { value } => Ok(Value::Float { value: value.negate() }),
            _ => Err(ValueError::ExpectingNumber),
        }
    }
}

impl NegSpecImpl for Value {
    open spec fn obeys_neg_spec() -> bool {
        true
    }

    open spec fn neg_req(self) -> bool {
        true
    }

    open spec fn neg_spec(self) -> Result<Value, ValueError> {
        self.negation()
    }
}

/// Logical not: the boolean that is true where the value counts as false.
impl Not for Value {
    type Output = Value;

    fn not(self) -> (r: Value)
        ensures
            r == self.logical_not(),
    {
        match self {
            Value::Boolean { value } => Value::Boolean { value: !value },
            _ => Value::Boolean { value: !self.is_truthy() },
        }
    }
}

impl NotSpecImpl for Value {
    open spec fn obeys_not_spec() -> bool {
        true
    }

    open spec fn not_req(self) -> bool {
        true
    }

    open spec fn not_spec(self) -> Value {
        self.logical_not()
    }
}

/// An integer converts to itself and a float to its integer part; nothing
/// else converts.
impl TryFrom<Value> for i64 {
    type Error = ValueError;

    fn try_from(value: Value) -> (r: Result<i64, ValueError>)
        ensures
            r == value.as_integer(),
    {
        match value {
            Value::Integer { value } => Ok(value),
            Value::Float { value } => Ok(value.to_i64()),
            _ => Err(ValueError::ExpectingInteger),
        }
    }
}

impl TryFromSpecImpl<Value> for i64 {
    open spec fn obeys_try_from_spec() -> bool {
        true
    }

    open spec fn try_from_spec(v: Value) -> Result<i64, ValueError> {
        v.as_integer()
    }
}

/// A float converts to itself and an integer to the nearest float; nothing
/// else converts.
impl TryFrom<Value> for Float32 {
    type Error = ValueError;

    fn try_from(value: Value) -> (r: Result<Float32, ValueError>)
        ensures
            r == value.as_float(),
    {
        match value {
            Value::Float { value } => Ok(value),
            Value::Integer { value } => Ok(Float32::from_i64(value)),
            _ => Err(ValueError::ExpectingDouble),
        }
    }
}

impl TryFromSpecImpl<Value> for Float32 {
    open spec fn obeys_try_from_spec() -> bool {
        true
    }

    open spec fn try_from_spec(v: Value) -> Result<Float32, ValueError> {
        v.as_float()
    }
}

/// Only a string converts to text.
impl TryFrom<Value> for String {
    type Error = ValueError;

    fn try_from(value: Value) -> (r: Result<String, ValueError>)
        ensures
            r == value.as_text(),
    {
        match value {
            Value::String { value } => Ok(value),
            _ => Err(ValueError::ExpectingString),
        }
    }
}

impl TryFromSpecImpl<Value> for String {
    open spec fn obeys_try_from_spec() -> bool {
        true
    }

    open spec fn try_from_spec(v: Value) -> Result<String, ValueError> {
        v.as_text()
    }
}

} // verus!

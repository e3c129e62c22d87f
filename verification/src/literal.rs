//! The literals that a parser hands over, and the value each one stands for.

use crate::float::Float32;
use crate::value::Value;
use vstd::prelude::*;
use vstd::std_specs::convert::FromSpecImpl;

verus! {

/// The keywords that are literals.
#[derive(Clone, Copy, Debug, PartialEq, Eq, Structural)]
pub enum DataKeyword {
    Nil,
    True,
    False,
}

/// A literal of the source text, read already: a number by its value, a
/// quoted string by what stands between the quotes.
#[derive(Clone, Debug)]
pub enum Literal {
    Float(Float32),
    Integer(i64),
    QuotedString(String),
    Keyword(DataKeyword),
}

impl Literal {
    /// The value that the literal evaluates to: one variant for each kind of
    /// literal, with the same payload.
    pub open spec fn value(self) -> Value {
        match self {
            Literal::Float(value) => Value::Float { value },
            Literal::Integer(value) => Value::Integer { value },
            Literal::QuotedString(value) => Value::String { value },
            Literal::Keyword(DataKeyword::Nil) => Value::Nil,
            Literal::Keyword(DataKeyword::True) => Value::Boolean { value: true },
            Literal::Keyword(DataKeyword::False) => Value::Boolean { value: false },
        }
    }
}

impl From<&Literal> for Value {
    fn from(literal: &Literal) -> (value: Value)
        ensures
            value == literal.value(),
    {
        match literal {
            Literal::Float(value) => Value::Float { value: *value },
            Literal::Integer(value) => Value::Integer { value: *value },
            Literal::QuotedString(value) => Value::String { value: value.clone() },
            Literal::Keyword(DataKeyword::Nil) => Value::Nil,
            Literal::Keyword(DataKeyword::True) => Value::Boolean { value: true },
            Literal::Keyword(DataKeyword::False) => Value::Boolean { value: false },
        }
    }
}

impl FromSpecImpl<&Literal> for Value {
    open spec fn obeys_from_spec() -> bool {
        true
    }

    open spec fn from_spec(literal: &Literal) -> Value {
        literal.value()
    }
}

} // verus!

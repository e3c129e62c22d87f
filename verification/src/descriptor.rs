//! The descriptors that composite values share: what the value model reads
//! of functions, classes, instances, traits and arrays.

use crate::value::Value;
use vstd::prelude::*;

verus! {

/// The signature of a method: its name and the number of its parameters.
#[derive(Clone, Debug)]
pub struct FunctionHeader {
    pub name: String,
    pub arity: usize,
}

/// A function definition, as far as the value model looks into it.
#[derive(Clone, Debug)]
pub struct LoxFunction {
    pub name: String,
    pub parameters: Vec<String>,
}

/// A class, known to the value model by its declared name.
#[derive(Clone, Debug)]
pub struct LoxClass {
    pub name: String,
}

/// One field of an instance.
#[derive(Clone, Debug)]
pub struct Field {
    pub name: String,
    pub value: Value,
}

/// An instance: the name of its class, and its fields in the order its
/// builder gave them.
#[derive(Clone, Debug)]
pub struct LoxObject {
    pub class_name: String,
    pub fields: Vec<Field>,
}

/// An interface that classes may claim to satisfy: a name and four lists of
/// signatures. A trait holds no state.
#[derive(Clone, Debug)]
pub struct LoxTrait {
    pub name: String,
    pub methods: Vec<FunctionHeader>,
    pub getters: Vec<FunctionHeader>,
    pub setters: Vec<FunctionHeader>,
    pub static_methods: Vec<FunctionHeader>,
}

/// A sequence of values with the capacity it was declared with. The capacity
/// bounds the count from above; keeping insertions under it is the owner's
/// part.
#[derive(Clone, Debug)]
pub struct LoxArray {
    pub capacity: usize,
    pub elements: Vec<Value>,
}

} // verus!

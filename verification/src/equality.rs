//! Equality of values.
//!
//! Two values are equal when they are of one variant and hold equal content.
//! That goes for the shared variants too: two instances of one class with
//! equal fields are equal, whether or not they are one instance. Floats are
//! compared as numbers, so a NaN equals nothing, and neither does a value
//! that holds one.

use crate::descriptor::Field;
use crate::descriptor::FunctionHeader;
use crate::descriptor::LoxArray;
use crate::descriptor::LoxClass;
use crate::descriptor::LoxFunction;
use crate::descriptor::LoxObject;
use crate::descriptor::LoxTrait;
use crate::value::Value;
use vstd::prelude::*;
use vstd::std_specs::cmp::PartialEqSpecImpl;

verus! {

/// Two lists of strings hold the same texts in the same order.
pub open spec fn same_strings(a: Seq<String>, b: Seq<String>) -> bool {
    &&& a.len() == b.len()
    &&& forall|i: int| 0 <= i < a.len() ==> (#[trigger] a[i])@ == b[i]@
}

/// Two lists of signatures hold equal signatures in the same order.
pub open spec fn same_headers(a: Seq<FunctionHeader>, b: Seq<FunctionHeader>) -> bool {
    &&& a.len() == b.len()
    &&& forall|i: int| 0 <= i < a.len() ==> (#[trigger] a[i]).equals(b[i])
}

/// Two lists of fields hold equal fields in the same order.
pub open spec fn same_fields(a: Seq<Field>, b: Seq<Field>) -> bool
    decreases a,
{
    &&& a.len() == b.len()
    &&& forall|i: int| 0 <= i < a.len() ==> (#[trigger] a[i]).equals(b[i])
}

/// Two lists of values hold equal values in the same order.
pub open spec fn same_values(a: Seq<Value>, b: Seq<Value>) -> bool
    decreases a,
{
    &&& a.len() == b.len()
    &&& forall|i: int| 0 <= i < a.len() ==> (#[trigger] a[i]).equals(b[i])
}

impl FunctionHeader {
    /// Two signatures agree in name and in arity.
    pub open spec fn equals(self, other: FunctionHeader) -> bool {
        self.name@ == other.name@ && self.arity == other.arity
    }
}

impl LoxFunction {
    /// Two functions agree in name and in the names of their parameters.
    pub open spec fn equals(self, other: LoxFunction) -> bool {
        self.name@ == other.name@ && same_strings(self.parameters@, other.parameters@)
    }
}

impl LoxClass {
    /// Two classes agree in name.
    pub open spec fn equals(self, other: LoxClass) -> bool {
        self.name@ == other.name@
    }
}

impl LoxTrait {
    /// Two traits agree in name and in each of their four lists of signatures.
    pub open spec fn equals(self, other: LoxTrait) -> bool {
        &&& self.name@ == other.name@
        &&& same_headers(self.methods@, other.methods@)
        &&& same_headers(self.getters@, other.getters@)
        &&& same_headers(self.setters@, other.setters@)
        &&& same_headers(self.static_methods@, other.static_methods@)
    }
}

impl Field {
    /// Two fields agree in name and hold equal values.
    pub open spec fn equals(self, other: Field) -> bool
        decreases self,
    {
        self.name@ == other.name@ && self.value.equals(other.value)
    }
}

impl LoxObject {
    /// Two instances name one class and hold equal fields in one order.
    pub open spec fn equals(self, other: LoxObject) -> bool
        decreases self,
    {
        self.class_name@ == other.class_name@ && same_fields(self.fields@, other.fields@)
    }
}

impl LoxArray {
    /// Two arrays agree in capacity and hold equal elements in one order.
    pub open spec fn equals(self, other: LoxArray) -> bool
        decreases self,
    {
        self.capacity == other.capacity && same_values(self.elements@, other.elements@)
    }
}

impl Value {
    /// The two values are of one variant and hold equal content.
    pub open spec fn equals(self, other: Value) -> bool
        decreases self,
    {
        match (self, other) {
            (Value::Nil, Value::Nil) => true,
            (Value::Uninitialized, Value::Uninitialized) => true,
            (Value::Boolean { value: a }, Value::Boolean { value: b }) => a == b,
            (Value::Integer { value: a }, Value::Integer { value: b }) => a == b,
            (Value::Float { value: a }, Value::Float { value: b }) => a.same_number(b),
            (Value::String { value: a }, Value::String { value: b }) => a@ == b@,
            (Value::Function(a), Value::Function(b)) => a.equals(*b),
            (Value::Method(a, object), Value::Method(b, other_object)) => a.equals(*b)
                && object.equals(*other_object),
            (Value::Class(a), Value::Class(b)) => a.equals(*b),
            (Value::Object(a), Value::Object(b)) => a.equals(*b),
            (Value::Trait(a), Value::Trait(b)) => a.equals(*b),
            (Value::Array(a), Value::Array(b)) => a.equals(*b),
            (Value::Module(a), Value::Module(b)) => a@ == b@,
            _ => false,
        }
    }
}

fn strings_equal(a: &Vec<String>, b: &Vec<String>) -> (r: bool)
    ensures
        r == same_strings(a@, b@),
{
    if a.len() != b.len() {
        return false;
    }
    let mut i: usize = 0;
    while i < a.len()
        invariant
            i <= a.len(),
            a.len() == b.len(),
            forall|j: int| 0 <= j < i ==> (#[trigger] a@[j])@ == b@[j]@,
        decreases a.len() - i,
    {
        if a[i] != b[i] {
            return false;
        }
        i = i + 1;
    }
    true
}

fn headers_equal(a: &Vec<FunctionHeader>, b: &Vec<FunctionHeader>) -> (r: bool)
    ensures
        r == same_headers(a@, b@),
{
    if a.len() != b.len() {
        return false;
    }
    let mut i: usize = 0;
    while i < a.len()
        invariant
            i <= a.len(),
            a.len() == b.len(),
            forall|j: int| 0 <= j < i ==> (#[trigger] a@[j]).equals(b@[j]),
        decreases a.len() - i,
    {
        if a[i].name != b[i].name || a[i].arity != b[i].arity {
            return false;
        }
        i = i + 1;
    }
    true
}

fn functions_equal(a: &LoxFunction, b: &LoxFunction) -> (r: bool)
    ensures
        r == a.equals(*b),
{
    a.name == b.name && strings_equal(&a.parameters, &b.parameters)
}

fn traits_equal(a: &LoxTrait, b: &LoxTrait) -> (r: bool)
    ensures
        r == a.equals(*b),
{
    a.name == b.name && headers_equal(&a.methods, &b.methods) && headers_equal(
        &a.getters,
        &b.getters,
    ) && headers_equal(&a.setters, &b.setters) && headers_equal(
        &a.static_methods,
        &b.static_methods,
    )
}

fn fields_equal(a: &Vec<Field>, b: &Vec<Field>) -> (r: bool)
    ensures
        r == same_fields(a@, b@),
    decreases a,
{
    if a.len() != b.len() {
        return false;
    }
    let mut i: usize = 0;
    while i < a.len()
        invariant
            i <= a.len(),
            a.len() == b.len(),
            forall|j: int| 0 <= j < i ==> (#[trigger] a@[j]).equals(b@[j]),
        decreases a.len() - i,
    {
        proof {
            broadcast use vstd::std_specs::vec::axiom_vec_index_decreases;

            assert(decreases_to!(a => a[i as int]));
        }
        if a[i].name != b[i].name || !values_equal(&a[i].value, &b[i].value) {
            return false;
        }
        i = i + 1;
    }
    true
}

fn elements_equal(a: &Vec<Value>, b: &Vec<Value>) -> (r: bool)
    ensures
        r == same_values(a@, b@),
    decreases a,
{
    if a.len() != b.len() {
        return false;
    }
    let mut i: usize = 0;
    while i < a.len()
        invariant
            i <= a.len(),
            a.len() == b.len(),
            forall|j: int| 0 <= j < i ==> (#[trigger] a@[j]).equals(b@[j]),
        decreases a.len() - i,
    {
        proof {
            broadcast use vstd::std_specs::vec::axiom_vec_index_decreases;

            assert(decreases_to!(a => a[i as int]));
        }
        if !values_equal(&a[i], &b[i]) {
            return false;
        }
        i = i + 1;
    }
    true
}

fn objects_equal(a: &LoxObject, b: &LoxObject) -> (r: bool)
    ensures
        r == a.equals(*b),
    decreases a,
{
    a.class_name == b.class_name && fields_equal(&a.fields, &b.fields)
}

fn arrays_equal(a: &LoxArray, b: &LoxArray) -> (r: bool)
    ensures
        r == a.equals(*b),
    decreases a,
{
    a.capacity == b.capacity && elements_equal(&a.elements, &b.elements)
}

fn values_equal(a: &Value, b: &Value) -> (r: bool)
    ensures
        r == a.equals(*b),
    decreases a,
{
    match (a, b) {
        (Value::Nil, Value::Nil) => true,
        (Value::Uninitialized, Value::Uninitialized) => true,
        (Value::Boolean { value: x }, Value::Boolean { value: y }) => *x == *y,
        (Value::Integer { value: x }, Value::Integer { value: y }) => *x == *y,
        (Value::Float { value: x }, Value::Float { value: y }) => *x == *y,
        (Value::String { value: x }, Value::String { value: y }) => *x == *y,
        (Value::Function(x), Value::Function(y)) => functions_equal(x, y),
        (Value::Method(x, object), Value::Method(y, other_object)) => functions_equal(x, y)
            && objects_equal(object, other_object),
        (Value::Class(x), Value::Class(y)) => x.name == y.name,
        (Value::Object(x), Value::Object(y)) => objects_equal(x, y),
        (Value::Trait(x), Value::Trait(y)) => traits_equal(x, y),
        (Value::Array(x), Value::Array(y)) => arrays_equal(x, y),
        (Value::Module(x), Value::Module(y)) => *x == *y,
        _ => false,
    }
}

impl PartialEq for FunctionHeader {
    fn eq(&self, other: &FunctionHeader) -> (r: bool)
        ensures
            r == self.equals(*other),
    {
        self.name == other.name && self.arity == other.arity
    }
}

impl PartialEqSpecImpl for FunctionHeader {
    open spec fn obeys_eq_spec() -> bool {
        true
    }

    open spec fn eq_spec(&self, other: &FunctionHeader) -> bool {
        self.equals(*other)
    }
}

impl PartialEq for LoxFunction {
    fn eq(&self, other: &LoxFunction) -> (r: bool)
        ensures
            r == self.equals(*other),
    {
        functions_equal(self, other)
    }
}

impl PartialEqSpecImpl for LoxFunction {
    open spec fn obeys_eq_spec() -> bool {
        true
    }

    open spec fn eq_spec(&self, other: &LoxFunction) -> bool {
        self.equals(*other)
    }
}

impl PartialEq for LoxClass {
    fn eq(&self, other: &LoxClass) -> (r: bool)
        ensures
            r == self.equals(*other),
    {
        self.name == other.name
    }
}

impl PartialEqSpecImpl for LoxClass {
    open spec fn obeys_eq_spec() -> bool {
        true
    }

    open spec fn eq_spec(&self, other: &LoxClass) -> bool {
        self.equals(*other)
    }
}

impl PartialEq for LoxTrait {
    fn eq(&self, other: &LoxTrait) -> (r: bool)
        ensures
            r == self.equals(*other),
    {
        traits_equal(self, other)
    }
}

impl PartialEqSpecImpl for LoxTrait {
    open spec fn obeys_eq_spec() -> bool {
        true
    }

    open spec fn eq_spec(&self, other: &LoxTrait) -> bool {
        self.equals(*other)
    }
}

impl PartialEq for Field {
    fn eq(&self, other: &Field) -> (r: bool)
        ensures
            r == self.equals(*other),
    {
        self.name == other.name && values_equal(&self.value, &other.value)
    }
}

impl PartialEqSpecImpl for Field {
    open spec fn obeys_eq_spec() -> bool {
        true
    }

    open spec fn eq_spec(&self, other: &Field) -> bool {
        self.equals(*other)
    }
}

impl PartialEq for LoxObject {
    fn eq(&self, other: &LoxObject) -> (r: bool)
        ensures
            r == self.equals(*other),
    {
        objects_equal(self, other)
    }
}

impl PartialEqSpecImpl for LoxObject {
    open spec fn obeys_eq_spec() -> bool {
        true
    }

    open spec fn eq_spec(&self, other: &LoxObject) -> bool {
        self.equals(*other)
    }
}

impl PartialEq for LoxArray {
    fn eq(&self, other: &LoxArray) -> (r: bool)
        ensures
            r == self.equals(*other),
    {
        arrays_equal(self, other)
    }
}

impl PartialEqSpecImpl for LoxArray {
    open spec fn obeys_eq_spec() -> bool {
        true
    }

    open spec fn eq_spec(&self, other: &LoxArray) -> bool {
        self.equals(*other)
    }
}

impl PartialEq for Value {
    fn eq(&self, other: &Value) -> (r: bool)
        ensures
            r == self.equals(*other),
    {
        values_equal(self, other)
    }
}

impl PartialEqSpecImpl for Value {
    open spec fn obeys_eq_spec() -> bool {
        true
    }

    open spec fn eq_spec(&self, other: &Value) -> bool {
        self.equals(*other)
    }
}

} // verus!

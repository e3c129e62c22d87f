use lox_value::Float32;
use lox_value::LoxArray;
use lox_value::LoxClass;
use lox_value::LoxFunction;
use lox_value::LoxObject;
use lox_value::LoxTrait;
use lox_value::Value;
use std::rc::Rc;

fn float(value: f32) -> Value {
    Value::Float { value: Float32 { bits: value.to_bits() } }
}

#[test]
fn nil_and_uninitialized_are_falsy() {
    assert!(!Value::Nil.is_truthy());
    assert!(!Value::Uninitialized.is_truthy());
}

#[test]
fn a_boolean_is_as_truthy_as_it_says() {
    assert!(!Value::Boolean { value: false }.is_truthy());
    assert!(Value::Boolean { value: true }.is_truthy());
}

#[test]
fn zero_is_falsy_in_both_numeric_kinds() {
    assert!(!Value::Integer { value: 0 }.is_truthy());
    assert!(!float(0.0).is_truthy());
    assert!(!float(-0.0).is_truthy());
}

#[test]
fn other_numbers_are_truthy() {
    assert!(Value::Integer { value: -1 }.is_truthy());
    assert!(Value::Integer { value: 1 }.is_truthy());
    assert!(Value::Integer { value: i64::MIN }.is_truthy());
    assert!(float(0.5).is_truthy());
    assert!(float(-3.0).is_truthy());
    assert!(float(f32::MIN_POSITIVE).is_truthy());
    assert!(Value::Float { value: Float32 { bits: 1 } }.is_truthy());
    assert!(float(f32::NAN).is_truthy());
    assert!(float(f32::INFINITY).is_truthy());
}

#[test]
fn strings_are_truthy_even_when_empty() {
    assert!(Value::String { value: String::new() }.is_truthy());
    assert!(Value::String { value: "x".to_string() }.is_truthy());
}

#[test]
fn composite_values_are_truthy_whatever_they_hold() {
    let function = Rc::new(LoxFunction { name: "f".to_string(), parameters: vec![] });
    let object = Rc::new(LoxObject { class_name: "C".to_string(), fields: vec![] });
    let empty_trait = LoxTrait {
        name: "T".to_string(),
        methods: vec![],
        getters: vec![],
        setters: vec![],
        static_methods: vec![],
    };
    assert!(Value::Function(function.clone()).is_truthy());
    assert!(Value::Method(function, object.clone()).is_truthy());
    assert!(Value::Class(Rc::new(LoxClass { name: "C".to_string() })).is_truthy());
    assert!(Value::Object(object).is_truthy());
    assert!(Value::Trait(Rc::new(empty_trait)).is_truthy());
    assert!(Value::Array(Rc::new(LoxArray { capacity: 0, elements: vec![] })).is_truthy());
    assert!(Value::Module("math".to_string()).is_truthy());
}

#[test]
fn kinds_are_told_apart() {
    let class = Value::Class(Rc::new(LoxClass { name: "C".to_string() }));
    let empty_trait = Value::Trait(Rc::new(LoxTrait {
        name: "T".to_string(),
        methods: vec![],
        getters: vec![],
        setters: vec![],
        static_methods: vec![],
    }));
    assert!(Value::Integer { value: 3 }.is_number());
    assert!(float(3.0).is_number());
    assert!(!Value::Boolean { value: true }.is_number());
    assert!(!Value::String { value: "3".to_string() }.is_number());
    assert!(!Value::Nil.is_number());
    assert!(!class.is_number());
    assert!(class.is_class());
    assert!(!class.is_trait());
    assert!(empty_trait.is_trait());
    assert!(!empty_trait.is_class());
    assert!(!Value::Nil.is_class());
    assert!(!Value::Integer { value: 1 }.is_trait());
}

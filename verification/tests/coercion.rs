use lox_value::Float32;
use lox_value::LoxArray;
use lox_value::LoxClass;
use lox_value::Value;
use lox_value::ValueError;
use std::convert::TryFrom;
use std::convert::TryInto;
use std::rc::Rc;

fn float(value: f32) -> Value {
    Value::Float { value: Float32 { bits: value.to_bits() } }
}

fn as_f32(value: Float32) -> f32 {
    f32::from_bits(value.bits)
}

fn neither_number_nor_string() -> Vec<Value> {
    vec![
        Value::Nil,
        Value::Uninitialized,
        Value::Boolean { value: true },
        Value::Class(Rc::new(LoxClass { name: "C".to_string() })),
        Value::Array(Rc::new(LoxArray { capacity: 1, elements: vec![Value::Integer { value: 1 }] })),
        Value::Module("m".to_string()),
    ]
}

#[test]
fn an_integer_converts_to_itself() {
    for n in [0i64, 1, -1, 42, 16_777_217, i64::MAX, i64::MIN] {
        assert_eq!(i64::try_from(Value::Integer { value: n }), Ok(n));
    }
}

#[test]
fn an_integer_converts_to_the_float_of_its_value() {
    for n in [0i64, 1, -1, 42, -1000, 16_777_216, -16_777_216, 1 << 40] {
        let converted = Float32::try_from(Value::Integer { value: n }).unwrap();
        assert_eq!(as_f32(converted), n as f32);
        assert_eq!(as_f32(converted) as i64, n);
    }
}

#[test]
fn an_integer_without_a_float_converts_to_the_nearest_one() {
    let converted = Float32::try_from(Value::Integer { value: 16_777_217 }).unwrap();
    assert_eq!(as_f32(converted), 16_777_216.0);
    let converted = Float32::try_from(Value::Integer { value: i64::MAX }).unwrap();
    assert_eq!(as_f32(converted), 9_223_372_036_854_775_808.0);
}

#[test]
fn a_float_converts_to_its_integer_part() {
    assert_eq!(i64::try_from(float(3.9)), Ok(3));
    assert_eq!(i64::try_from(float(-3.9)), Ok(-3));
    assert_eq!(i64::try_from(float(0.5)), Ok(0));
    assert_eq!(i64::try_from(float(-0.5)), Ok(0));
    assert_eq!(i64::try_from(float(7.0)), Ok(7));
    assert_eq!(i64::try_from(float(1e30)), Ok(i64::MAX));
    assert_eq!(i64::try_from(float(-1e30)), Ok(i64::MIN));
    assert_eq!(i64::try_from(float(f32::NAN)), Ok(0));
}

#[test]
fn a_float_converts_to_itself() {
    for value in [0.0f32, -0.0, 3.9, -3.9, f32::MAX, f32::MIN_POSITIVE, f32::INFINITY] {
        let converted = Float32::try_from(float(value)).unwrap();
        assert_eq!(converted.bits, value.to_bits());
    }
    let converted = Float32::try_from(Value::Float { value: Float32 { bits: 0x7fc0_0123 } });
    assert_eq!(converted.unwrap().bits, 0x7fc0_0123);
}

#[test]
fn a_string_is_no_number() {
    let text = Value::String { value: "x".to_string() };
    assert_eq!(i64::try_from(text.clone()), Err(ValueError::ExpectingInteger));
    assert_eq!(Float32::try_from(text).map(|f| f.bits), Err(ValueError::ExpectingDouble));
}

#[test]
fn a_string_of_digits_is_no_number_either() {
    let text = Value::String { value: "12".to_string() };
    assert_eq!(i64::try_from(text.clone()), Err(ValueError::ExpectingInteger));
    assert_eq!(Float32::try_from(text).map(|f| f.bits), Err(ValueError::ExpectingDouble));
}

#[test]
fn nothing_else_is_a_number() {
    for value in neither_number_nor_string() {
        assert_eq!(i64::try_from(value.clone()), Err(ValueError::ExpectingInteger));
        assert_eq!(Float32::try_from(value).map(|f| f.bits), Err(ValueError::ExpectingDouble));
    }
}

#[test]
fn a_string_converts_to_its_text() {
    let text = Value::String { value: "hello".to_string() };
    assert_eq!(String::try_from(text), Ok("hello".to_string()));
    let empty = Value::String { value: String::new() };
    assert_eq!(String::try_from(empty), Ok(String::new()));
}

#[test]
fn a_string_converts_through_try_into_as_well() {
    let text = Value::String { value: "hello".to_string() };
    let converted: Result<String, ValueError> = text.try_into();
    assert_eq!(converted, Ok("hello".to_string()));
    let number: Result<i64, ValueError> = Value::Integer { value: 9 }.try_into();
    assert_eq!(number, Ok(9));
}

#[test]
fn nothing_but_a_string_converts_to_text() {
    assert_eq!(String::try_from(Value::Integer { value: 1 }), Err(ValueError::ExpectingString));
    assert_eq!(String::try_from(float(1.0)), Err(ValueError::ExpectingString));
    for value in neither_number_nor_string() {
        assert_eq!(String::try_from(value), Err(ValueError::ExpectingString));
    }
}

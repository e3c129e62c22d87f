use lox_value::DataKeyword;
use lox_value::Float32;
use lox_value::Literal;
use lox_value::Value;

#[test]
fn a_number_literal_is_a_number() {
    assert_eq!(Value::from(&Literal::Integer(42)), Value::Integer { value: 42 });
    assert_eq!(Value::from(&Literal::Integer(-1)), Value::Integer { value: -1 });
    let half = Float32 { bits: 0.5f32.to_bits() };
    assert_eq!(Value::from(&Literal::Float(half)), Value::Float { value: half });
}

#[test]
fn a_float_literal_keeps_its_encoding() {
    let literal = Literal::Float(Float32 { bits: 0x7fc0_0001 });
    match Value::from(&literal) {
        Value::Float { value } => assert_eq!(value.bits, 0x7fc0_0001),
        other => panic!("{:?}", other),
    }
}

#[test]
fn a_quoted_string_is_a_string() {
    let literal = Literal::QuotedString("hello".to_string());
    assert_eq!(Value::from(&literal), Value::String { value: "hello".to_string() });
    let converted: Value = (&literal).into();
    assert_eq!(converted, Value::String { value: "hello".to_string() });
}

#[test]
fn the_keywords_are_nil_and_the_booleans() {
    assert_eq!(Value::from(&Literal::Keyword(DataKeyword::Nil)), Value::Nil);
    assert_eq!(Value::from(&Literal::Keyword(DataKeyword::True)), Value::Boolean { value: true });
    assert_eq!(
        Value::from(&Literal::Keyword(DataKeyword::False)),
        Value::Boolean { value: false }
    );
}

use lox_value::text::format_integer;
use lox_value::Field;
use lox_value::Float32;
use lox_value::LoxArray;
use lox_value::LoxClass;
use lox_value::LoxFunction;
use lox_value::LoxObject;
use lox_value::LoxTrait;
use lox_value::Segment;
use lox_value::Value;
use std::rc::Rc;

fn float(value: f32) -> Value {
    Value::Float { value: Float32 { bits: value.to_bits() } }
}

fn integer(value: i64) -> Value {
    Value::Integer { value }
}

fn string(value: &str) -> Value {
    Value::String { value: value.to_string() }
}

fn array(elements: Vec<Value>) -> Value {
    Value::Array(Rc::new(LoxArray { capacity: elements.len(), elements }))
}

/// The text of a value, with the digits of each float written by the
/// standard library.
fn text(value: &Value) -> String {
    let mut out = String::new();
    for segment in value.render() {
        match segment {
            Segment::Text(text) => out.push_str(&text),
            Segment::Float(value) => out.push_str(&f32::from_bits(value.bits).to_string()),
        }
    }
    out
}

fn texts(value: &Value) -> Vec<String> {
    value
        .render()
        .into_iter()
        .map(|segment| match segment {
            Segment::Text(text) => text,
            Segment::Float(value) => format!("<{:#x}>", value.bits),
        })
        .collect()
}

#[test]
fn integers_are_written_in_decimal() {
    assert_eq!(text(&integer(0)), "0");
    assert_eq!(text(&integer(7)), "7");
    assert_eq!(text(&integer(10)), "10");
    assert_eq!(text(&integer(-1)), "-1");
    assert_eq!(text(&integer(1234567890)), "1234567890");
    assert_eq!(text(&integer(i64::MAX)), "9223372036854775807");
    assert_eq!(text(&integer(i64::MIN)), "-9223372036854775808");
}

#[test]
fn integers_are_written_as_the_standard_library_writes_them() {
    let mut n: i64 = 1;
    for _ in 0..62 {
        for candidate in [n, -n, n - 1, n + 1, 1 - n] {
            assert_eq!(format_integer(candidate), candidate.to_string());
        }
        n *= 2;
    }
    for candidate in -1000i64..=1000 {
        assert_eq!(format_integer(candidate), candidate.to_string());
    }
}

#[test]
fn a_float_is_handed_on_in_its_place() {
    match float(2.5).render().as_slice() {
        [Segment::Float(value)] => assert_eq!(value.bits, 2.5f32.to_bits()),
        other => panic!("{:?}", other),
    }
    assert_eq!(text(&float(2.5)), "2.5");
    assert_eq!(text(&float(-0.1)), "-0.1");
    assert_eq!(text(&float(3.0)), "3");
}

#[test]
fn booleans_are_written_as_words() {
    assert_eq!(text(&Value::Boolean { value: true }), "true");
    assert_eq!(text(&Value::Boolean { value: false }), "false");
}

#[test]
fn a_string_is_written_without_quotes() {
    assert_eq!(text(&string("hello world")), "hello world");
    assert_eq!(text(&string("")), "");
    assert_eq!(text(&string("\"quoted\"")), "\"quoted\"");
    assert_eq!(texts(&string("")), vec![String::new()]);
}

#[test]
fn nil_and_uninitialized_have_tokens_of_their_own() {
    assert_eq!(text(&Value::Nil), "Nil");
    assert_eq!(text(&Value::Uninitialized), "Uninitialized");
    assert_ne!(text(&Value::Nil), text(&Value::Uninitialized));
}

#[test]
fn a_module_is_a_fixed_token() {
    assert_eq!(text(&Value::Module("math".to_string())), "[Module]");
    assert_eq!(text(&Value::Module(String::new())), "[Module]");
}

#[test]
fn a_function_is_shown_by_its_name() {
    let function = LoxFunction {
        name: "add".to_string(),
        parameters: vec!["a".to_string(), "b".to_string()],
    };
    assert_eq!(text(&Value::Function(Rc::new(function))), "<fn add>");
}

#[test]
fn a_method_names_its_function_and_its_class() {
    let function = Rc::new(LoxFunction { name: "area".to_string(), parameters: vec![] });
    let object = Rc::new(LoxObject { class_name: "Circle".to_string(), fields: vec![] });
    assert_eq!(text(&Value::Method(function, object)), "Method <fn area> of Circle");
}

#[test]
fn a_class_and_a_trait_are_their_names() {
    let class = Value::Class(Rc::new(LoxClass { name: "Circle".to_string() }));
    let shape = Value::Trait(Rc::new(LoxTrait {
        name: "Shape".to_string(),
        methods: vec![],
        getters: vec![],
        setters: vec![],
        static_methods: vec![],
    }));
    assert_eq!(text(&class), "Circle");
    assert_eq!(text(&shape), "Shape");
}

#[test]
fn an_instance_names_its_class() {
    let object = LoxObject {
        class_name: "Circle".to_string(),
        fields: vec![Field { name: "radius".to_string(), value: integer(2) }],
    };
    assert_eq!(text(&Value::Object(Rc::new(object))), "Circle instance");
}

#[test]
fn an_array_is_its_elements_between_brackets() {
    let value = array(vec![integer(1), string("a"), Value::Boolean { value: true }]);
    assert_eq!(text(&value), "[ 1, a, true, ]");
    assert_eq!(texts(&value), vec!["[ ", "1", ", ", "a", ", ", "true", ", ", "]"]);
    let each: String = [integer(1), string("a"), Value::Boolean { value: true }]
        .iter()
        .map(|element| text(element) + ", ")
        .collect();
    assert_eq!(text(&value), format!("[ {}]", each));
}

#[test]
fn an_empty_array_is_a_pair_of_brackets() {
    assert_eq!(text(&array(vec![])), "[ ]");
    assert_eq!(texts(&array(vec![])), vec!["[ ", "]"]);
}

#[test]
fn an_array_within_an_array_is_written_in_its_place() {
    let inner = array(vec![integer(2), float(0.5)]);
    let value = array(vec![integer(1), inner, Value::Nil]);
    assert_eq!(text(&value), "[ 1, [ 2, 0.5, ], Nil, ]");
    assert_eq!(
        texts(&value),
        vec!["[ ", "1", ", ", "[ ", "2", ", ", "<0x3f000000>", ", ", "]", ", ", "Nil", ", ", "]"]
    );
}

#[test]
fn an_array_shared_by_two_holders_is_written_the_same_by_both() {
    let shared = Rc::new(LoxArray { capacity: 8, elements: vec![integer(1), integer(2)] });
    let first = Value::Array(shared.clone());
    let second = Value::Array(shared);
    assert_eq!(text(&first), "[ 1, 2, ]");
    assert_eq!(text(&first), text(&second));
    let nested = array(vec![first.clone(), first]);
    assert_eq!(text(&nested), "[ [ 1, 2, ], [ 1, 2, ], ]");
}

#[test]
fn a_deep_nest_of_arrays_is_written_to_the_bottom() {
    let mut value = integer(0);
    for _ in 0..200 {
        value = array(vec![value]);
    }
    let written = text(&value);
    assert!(written.starts_with("[ [ [ "));
    assert!(written.ends_with(", ], ], ]"));
    assert_eq!(written.len(), 200 * 2 + 1 + 200 * 3);
}

#[test]
fn rendering_appends_to_what_is_there() {
    let mut out = vec![Segment::Text("x = ".to_string())];
    integer(5).render_into(&mut out);
    let written: Vec<String> = out
        .into_iter()
        .map(|segment| match segment {
            Segment::Text(text) => text,
            Segment::Float(_) => unreachable!(),
        })
        .collect();
    assert_eq!(written, vec!["x = ", "5"]);
}

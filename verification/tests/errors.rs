use lox_value::SourceCodeLocation;
use lox_value::ValueError;

#[test]
fn each_error_has_its_message() {
    assert_eq!(ValueError::ExpectingDouble.to_string(), "Type error! Expecting a double!");
    assert_eq!(ValueError::ExpectingInteger.to_string(), "Type error! Expecting an integer!");
    assert_eq!(ValueError::ExpectingNumber.to_string(), "Type error! Expecting a number!");
    assert_eq!(ValueError::ExpectingString.to_string(), "Type error! Expecting a string!");
}

#[test]
fn an_error_takes_the_place_it_is_given() {
    let location = SourceCodeLocation { file: "main.lox".to_string(), line: 12 };
    let error = ValueError::ExpectingNumber.into_program_error(&location);
    assert_eq!(error.location.file, "main.lox");
    assert_eq!(error.location.line, 12);
    assert_eq!(error.message, "Type error! Expecting a number!");
    assert_eq!(location.line, 12);
}

#[test]
fn a_location_is_cloned_field_by_field() {
    let location = SourceCodeLocation { file: "lib.lox".to_string(), line: 3 };
    let copy = location.clone();
    assert_eq!(copy.file, location.file);
    assert_eq!(copy.line, location.line);
}

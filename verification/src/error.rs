//! The type errors of the value model, and their pairing with a place in the
//! source text.

use vstd::prelude::*;

verus! {

/// What a value was expected to be when a conversion or an operator refused
/// it. No other error comes out of the value model.
#[derive(Clone, Copy, Debug, PartialEq, Eq, Structural)]
pub enum ValueError {
    ExpectingDouble,
    ExpectingInteger,
    ExpectingNumber,
    ExpectingString,
}

/// A place in a program's source text.
#[derive(Debug)]
pub struct SourceCodeLocation {
    pub file: String,
    pub line: usize,
}

impl Clone for SourceCodeLocation {
    fn clone(&self) -> (copy: SourceCodeLocation)
        ensures
            copy == *self,
    {
        SourceCodeLocation { file: self.file.clone(), line: self.line }
    }
}

/// A diagnostic for the user: a message and the place it is about.
#[derive(Debug)]
pub struct ProgramError {
    pub location: SourceCodeLocation,
    pub message: String,
}

impl ValueError {
    /// The fixed message of each error.
    pub open spec fn message(self) -> Seq<char> {
        match self {
            ValueError::ExpectingDouble => "Type error! Expecting a double!"@,
            ValueError::ExpectingInteger => "Type error! Expecting an integer!"@,
            ValueError::ExpectingNumber => "Type error! Expecting a number!"@,
            ValueError::ExpectingString => "Type error! Expecting a string!"@,
        }
    }

    /// The message of the error, as text.
    pub fn to_string(&self) -> (text: String)
        ensures
            text@ == self.message(),
    {
        match self {
            ValueError::ExpectingDouble => String::from_str("Type error! Expecting a double!"),
            ValueError::ExpectingInteger => String::from_str("Type error! Expecting an integer!"),
            ValueError::ExpectingNumber => String::from_str("Type error! Expecting a number!"),
            ValueError::ExpectingString => String::from_str("Type error! Expecting a string!"),
        }
    }

    /// Attaches the place that the caller found the error at.
    pub fn into_program_error(self, location: &SourceCodeLocation) -> (error: ProgramError)
        ensures
            error.location == *location,
            error.message@ == self.message(),
    {
        ProgramError { location: location.clone(), message: self.to_string() }
    }
}

} // verus!

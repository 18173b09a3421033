//! The ways in which compiling a template or reading a text can fail.

use vstd::prelude::*;

verus! {

/// Why a template was refused or a field could not be read.
#[derive(Debug, Clone, Copy, PartialEq, Eq, Structural)]
pub enum ParseError {
    /// The template is malformed or names a type tag that no converter answers to.
    InvalidFormat,
    /// The text does not follow the template.
    NoMatch,
    /// A field was found but its text is not a value of the field's type.
    TypeConversionFailed,
}

impl ParseError {
    /// The message of each error, as a sequence of characters.
    pub open spec fn spec_message(&self) -> Seq<char> {
        match self {
            ParseError::InvalidFormat => "invalid format string"@,
            ParseError::NoMatch => "no match found"@,
            ParseError::TypeConversionFailed => "type conversion failed"@,
        }
    }

    /// A short description of the error for people to read.
    pub fn message(&self) -> (r: String)
        ensures
            r@ == self.spec_message(),
    {
        match self {
            ParseError::InvalidFormat => "invalid format string".to_owned(),
            ParseError::NoMatch => "no match found".to_owned(),
            ParseError::TypeConversionFailed => "type conversion failed".to_owned(),
        }
    }
}

} // verus!

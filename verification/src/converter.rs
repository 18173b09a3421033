//! Converters: what a field of a given type looks like, and how its text
//! becomes a value.

use vstd::prelude::*;
use crate::error::ParseError;
use crate::number::{integer_of, is_float_text, parse_i64};
use crate::value::{Float, Value, ValueView};

verus! {

/// A converter as a mathematical object: the regular expression that its
/// fields follow, if it has one of its own, and the value or the error that
/// each text is converted to.
pub struct ConverterModel {
    pub pattern: Option<Seq<char>>,
    pub convert: spec_fn(Seq<char>) -> Result<ValueView, ParseError>,
}

/// The outcome of a conversion as a mathematical value.
pub open spec fn outcome_view(r: Result<Value, ParseError>) -> Result<ValueView, ParseError> {
    match r {
        Ok(v) => Ok(v@),
        Err(e) => Err(e),
    }
}

/// An optional pattern as a mathematical value.
pub open spec fn pattern_view(r: Option<&str>) -> Option<Seq<char>> {
    match r {
        Some(p) => Some(p@),
        None => None,
    }
}

/// A field type: a pattern for the texts it accepts, and a conversion of such
/// a text to a value.
///
/// The pattern and the outcome of a conversion depend on the converter and on
/// the text alone: `model` says what they are. A converter that answers
/// differently from one call to the next has no model, and nothing that the
/// library states holds of a parser that uses it.
pub trait TypeConverter: Send + Sync {
    /// What this converter does, as a mathematical object. It is ghost and
    /// never run: a converter written where nothing is verified gives it a
    /// body that cannot be reached.
    spec fn model(&self) -> ConverterModel;

    /// Converts the text of a field to a value, or refuses it.
    fn convert(&self, s: &str) -> (r: Result<Value, ParseError>)
        ensures
            outcome_view(r) == (self.model().convert)(s@),
    ;

    /// The regular expression that fields of this type follow. With `None`,
    /// the field follows the pattern of a field without a type.
    ///
    /// The expression stands inside the capture group of its field and must
    /// hold no capture group of its own: a group in it is written `(?:...)`.
    fn get_pattern(&self) -> (r: Option<&str>)
        ensures
            pattern_view(r) == self.model().pattern,
    ;
}

/// The regular expression for an integer: an optional minus sign and digits.
pub const INTEGER_FRAGMENT: &'static str = r"-?\d+";

/// The regular expression for a number with a fractional part: an optional
/// minus sign, digits, and optionally a point among them.
pub const FLOAT_FRAGMENT: &'static str = r"-?\d*\.?\d+";

/// The regular expression for a word: one word character or more.
pub const WORD_FRAGMENT: &'static str = r"\w+";

/// What the integer converter makes of `s`.
pub open spec fn integer_outcome(s: Seq<char>) -> Result<ValueView, ParseError> {
    match integer_of(s) {
        Some(n) => Ok(ValueView::Integer(n)),
        None => Err(ParseError::TypeConversionFailed),
    }
}

/// What the float converter makes of `s`.
pub open spec fn float_outcome(s: Seq<char>) -> Result<ValueView, ParseError> {
    if is_float_text(s) {
        Ok(ValueView::Float(s))
    } else {
        Err(ParseError::TypeConversionFailed)
    }
}

/// What the word converter makes of `s`.
pub open spec fn word_outcome(s: Seq<char>) -> Result<ValueView, ParseError> {
    Ok(ValueView::Text(s))
}

/// What the integer converter does.
pub open spec fn integer_model() -> ConverterModel {
    ConverterModel { pattern: Some(INTEGER_FRAGMENT@), convert: |s: Seq<char>| integer_outcome(s) }
}

/// What the float converter does.
pub open spec fn float_model() -> ConverterModel {
    ConverterModel { pattern: Some(FLOAT_FRAGMENT@), convert: |s: Seq<char>| float_outcome(s) }
}

/// What the word converter does.
pub open spec fn word_model() -> ConverterModel {
    ConverterModel { pattern: Some(WORD_FRAGMENT@), convert: |s: Seq<char>| word_outcome(s) }
}

/// Converts a field to a signed 64-bit integer.
#[derive(Debug, Clone, Copy)]
pub struct IntConverter;

impl TypeConverter for IntConverter {
    open spec fn model(&self) -> ConverterModel {
        integer_model()
    }

    fn convert(&self, s: &str) -> (r: Result<Value, ParseError>)
        ensures
            outcome_view(r) == integer_outcome(s@),
    {
        match parse_i64(s) {
            Some(n) => Ok(Value::Integer(n)),
            None => Err(ParseError::TypeConversionFailed),
        }
    }

    fn get_pattern(&self) -> (r: Option<&str>)
        ensures
            r == Some(INTEGER_FRAGMENT),
    {
        Some(INTEGER_FRAGMENT)
    }
}

/// Converts a field to a number with a fractional part.
#[derive(Debug, Clone, Copy)]
pub struct FloatConverter;

impl TypeConverter for FloatConverter {
    open spec fn model(&self) -> ConverterModel {
        float_model()
    }

    fn convert(&self, s: &str) -> (r: Result<Value, ParseError>)
        ensures
            outcome_view(r) == float_outcome(s@),
    {
        match Float::parse(s) {
            Some(x) => Ok(Value::Float(x)),
            None => Err(ParseError::TypeConversionFailed),
        }
    }

    fn get_pattern(&self) -> (r: Option<&str>)
        ensures
            r == Some(FLOAT_FRAGMENT),
    {
        Some(FLOAT_FRAGMENT)
    }
}

/// Takes a word over as text.
#[derive(Debug, Clone, Copy)]
pub struct WordConverter;

impl TypeConverter for WordConverter {
    open spec fn model(&self) -> ConverterModel {
        word_model()
    }

    fn convert(&self, s: &str) -> (r: Result<Value, ParseError>)
        ensures
            outcome_view(r) == word_outcome(s@),
    {
        Ok(Value::Text(s.to_owned()))
    }

    fn get_pattern(&self) -> (r: Option<&str>)
        ensures
            r == Some(WORD_FRAGMENT),
    {
        Some(WORD_FRAGMENT)
    }
}

} // verus!

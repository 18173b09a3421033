//! The typed values that fields are converted to.

use vstd::prelude::*;
use crate::number::{is_float, is_float_text};

verus! {

/// A number with a fractional part, kept exactly as it was written.
///
/// The text always has the syntax of a floating-point number, so
/// `as_str().parse()` gives its numeric value.
#[derive(Debug, PartialEq)]
pub struct Float {
    text: String,
}

impl View for Float {
    type V = Seq<char>;

    closed spec fn view(&self) -> Seq<char> {
        self.text@
    }
}

impl Float {
    #[verifier::type_invariant]
    spec fn well_written(self) -> bool {
        is_float_text(self.text@)
    }

    /// Keeps `s` if it is written as a floating-point number.
    pub fn parse(s: &str) -> (r: Option<Float>)
        ensures
            r is Some == is_float_text(s@),
            r matches Some(number) ==> number@ == s@,
    {
        if is_float(s) {
            Some(Float { text: s.to_owned() })
        } else {
            None
        }
    }

    /// The number as it was written.
    pub fn as_str(&self) -> (r: &str)
        ensures
            r@ == self@,
            is_float_text(r@),
    {
        proof {
            use_type_invariant(self);
        }
        self.text.as_str()
    }
}

/// A value of a kind that the library has no type for, in the form that a
/// converter of the caller's own gave it.
#[derive(Debug, PartialEq, Eq)]
pub struct Custom(pub String);

impl View for Custom {
    type V = Seq<char>;

    open spec fn view(&self) -> Seq<char> {
        self.0@
    }
}

/// One converted field.
#[derive(Debug, PartialEq)]
pub enum Value {
    /// A signed integer.
    Integer(i64),
    /// A number with a fractional part.
    Float(Float),
    /// Text, taken over as it stands.
    Text(String),
    /// A calendar date.
    Date(chrono::NaiveDate),
    /// A time of day.
    Time(chrono::NaiveTime),
    /// A date with a time of day.
    DateTime(chrono::NaiveDateTime),
    /// A value of a kind of the caller's own.
    Custom(Custom),
}

/// A converted field as a mathematical value.
pub enum ValueView {
    Integer(int),
    Float(Seq<char>),
    Text(Seq<char>),
    Date(chrono::NaiveDate),
    Time(chrono::NaiveTime),
    DateTime(chrono::NaiveDateTime),
    Custom(Seq<char>),
}

impl View for Value {
    type V = ValueView;

    open spec fn view(&self) -> ValueView {
        match self {
            Value::Integer(n) => ValueView::Integer(*n as int),
            Value::Float(x) => ValueView::Float(x@),
            Value::Text(s) => ValueView::Text(s@),
            Value::Date(d) => ValueView::Date(*d),
            Value::Time(t) => ValueView::Time(*t),
            Value::DateTime(d) => ValueView::DateTime(*d),
            Value::Custom(c) => ValueView::Custom(c@),
        }
    }
}

/// A type that a field can be asked for: each one answers to exactly one
/// kind of [`Value`].
pub trait FieldType: Sized {
    /// The content of `value`, if `value` is of the kind that belongs to this
    /// type.
    spec fn held_in(value: &Value) -> Option<&Self>;

    /// Hands out the content of `value` if it is of this type's kind, and
    /// nothing otherwise.
    fn pick(value: &Value) -> (r: Option<&Self>)
        ensures
            r == Self::held_in(value),
    ;
}

impl FieldType for i64 {
    open spec fn held_in(value: &Value) -> Option<&i64> {
        match value {
            Value::Integer(n) => Some(n),
            _ => None,
        }
    }

    fn pick(value: &Value) -> (r: Option<&i64>) {
        match value {
            Value::Integer(n) => Some(n),
            _ => None,
        }
    }
}

impl FieldType for Float {
    open spec fn held_in(value: &Value) -> Option<&Float> {
        match value {
            Value::Float(x) => Some(x),
            _ => None,
        }
    }

    fn pick(value: &Value) -> (r: Option<&Float>) {
        match value {
            Value::Float(x) => Some(x),
            _ => None,
        }
    }
}

impl FieldType for String {
    open spec fn held_in(value: &Value) -> Option<&String> {
        match value {
            Value::Text(s) => Some(s),
            _ => None,
        }
    }

    fn pick(value: &Value) -> (r: Option<&String>) {
        match value {
            Value::Text(s) => Some(s),
            _ => None,
        }
    }
}

impl FieldType for Custom {
    open spec fn held_in(value: &Value) -> Option<&Custom> {
        match value {
            Value::Custom(c) => Some(c),
            _ => None,
        }
    }

    fn pick(value: &Value) -> (r: Option<&Custom>) {
        match value {
            Value::Custom(c) => Some(c),
            _ => None,
        }
    }
}

impl FieldType for chrono::NaiveDate {
    open spec fn held_in(value: &Value) -> Option<&chrono::NaiveDate> {
        match value {
            Value::Date(d) => Some(d),
            _ => None,
        }
    }

    fn pick(value: &Value) -> (r: Option<&chrono::NaiveDate>) {
        match value {
            Value::Date(d) => Some(d),
            _ => None,
        }
    }
}

impl FieldType for chrono::NaiveTime {
    open spec fn held_in(value: &Value) -> Option<&chrono::NaiveTime> {
        match value {
            Value::Time(t) => Some(t),
            _ => None,
        }
    }

    fn pick(value: &Value) -> (r: Option<&chrono::NaiveTime>) {
        match value {
            Value::Time(t) => Some(t),
            _ => None,
        }
    }
}

impl FieldType for chrono::NaiveDateTime {
    open spec fn held_in(value: &Value) -> Option<&chrono::NaiveDateTime> {
        match value {
            Value::DateTime(d) => Some(d),
            _ => None,
        }
    }

    fn pick(value: &Value) -> (r: Option<&chrono::NaiveDateTime>) {
        match value {
            Value::DateTime(d) => Some(d),
            _ => None,
        }
    }
}

} // verus!

//! Typed extraction of fields from text that follows a template.
//!
//! A template such as `"Name: {name:w}, Age: {age:d}"` is compiled once into a
//! [`Parser`]; the parser then matches whole texts, searches inside texts, or
//! collects every match, and hands back the captured fields both as written
//! and as typed [`Value`]s.
//!
//! ```text
//! let parser = Parser::new("Name: {name:w}, Age: {age:d}", true)?;
//! let result = parser.parse("Name: Alice, Age: 25").unwrap();
//! assert_eq!(result.named::<String>("name").unwrap(), "Alice");
//! assert_eq!(*result.get::<i64>(1).unwrap(), 25);
//! ```
//!
//! | In a template | Meaning |
//! |---|---|
//! | `{}` | a field without name or type |
//! | `{name}` | a field with a name |
//! | `{:type}` | a field with a type |
//! | `{name:type}` | a field with a name and a type |
//! | `{{`, `}}` | the brace itself |
//!
//! The built-in types are `d` for integers, `f` for numbers with a
//! fractional part, `w` for words, and `tg`, `ta`, `te`, `th`, `ts` and `ti`
//! for dates with times. A [`Registry`] adds types of the caller's own.
//!
//! The library is verified: every function states in its contract what it
//! returns, and the contract is proved. What the regular expressions match
//! and what the date layouts read is decided by the crates `regex` and
//! `chrono`; the modules [`engine`] and [`calendar`] hold what is taken from
//! them on trust.

pub mod calendar;
pub mod converter;
pub mod datetime;
pub mod engine;
pub mod error;
pub mod laws;
pub mod number;
pub mod parser;
pub mod registry;
pub mod result;
pub mod template;
pub mod text;
pub mod value;

pub use converter::{FloatConverter, IntConverter, TypeConverter, WordConverter};
pub use datetime::{DateConverter, DateTimeConverter, TimeConverter};
pub use engine::Capture;
pub use error::ParseError;
pub use parser::{
    findall, findall_with_types, parse, parse_with_types, search, search_with_types, Parser,
};
pub use registry::Registry;
pub use result::ParseResult;
pub use template::{parse_format, FieldSpec, Pattern};
pub use value::{Custom, FieldType, Float, Value};

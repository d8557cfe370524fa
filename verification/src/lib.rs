//! A small command-line-argument decoding engine.
//!
//! Given a schema describing the flags, value-options and positional slots a
//! program accepts, and a raw sequence of argument tokens, the parser
//! classifies each token, resolves it against the schema, type-converts its
//! value and records the assignment in an index-addressed sink table — or
//! reports a precise error.

pub mod error;
pub mod parse;
pub mod schema;
pub mod sinks;
pub mod strutil;
pub mod value;

pub use error::{Error, ErrorKind, Switch};
pub use parse::parse_args;
pub use schema::{ArgHandlers, FlagHandler, OptionHandler, PositionalHandler};
pub use sinks::Sinks;
pub use value::{IntParse, ParsedAssign, Value, ValueType};

//! Parsing and validation of `security.txt` documents: classification of
//! lines, per-field value grammars, and aggregation of the fields into a
//! document whose cardinality rules hold.

use vstd::prelude::*;

pub mod document;
pub mod error;
pub mod field;
pub mod laws;
pub mod text;
pub mod values;

pub use document::{SecurityTxt, aggregate, parse};
pub use error::{ParseError, ParseErrorKind};
pub use field::{Field, FieldKind, Line, field_kind_of, parse_field, parse_field_parts, parse_fields, parse_line};
pub use values::{Timestamp, parse_language_tags, parse_timestamp, parse_url};

verus! {

/// The conventional name of the file.
pub const FILENAME: &'static str = "security.txt";

/// The path at which the file must be served over HTTP.
pub const WELL_KNOWN_PATH: &'static str = "/.well-known/security.txt";

/// The media type the file must be served with.
pub const MIMETYPE: &'static str = "text/plain";

} // verus!

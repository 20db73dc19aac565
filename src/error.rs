//! The ways in which a line or a document can be refused.

use vstd::prelude::*;
use vstd::string::StringExecFns;

verus! {

/// What went wrong.
#[derive(Clone, Copy, Debug, PartialEq, Eq, Structural)]
pub enum ParseErrorKind {
    /// A field line has no `:`.
    MissingSeparator,
    /// A URL-valued field holds no valid absolute URL.
    InvalidUrl,
    /// An Expires field holds no valid date-time with an offset.
    InvalidTimestamp,
    /// A Preferred-Languages field holds an invalid language tag.
    InvalidLanguageTag,
    /// The Expires field appears more than once.
    DuplicateExpires,
    /// The Preferred-Languages field appears more than once.
    DuplicatePreferredLanguages,
    /// No Contact field appears.
    MissingContact,
    /// No Expires field appears.
    MissingExpires,
}

/// An error of a line or of a document: its kind, and for the value-grammar
/// kinds the diagnostic text of the parser that refused the value (empty for
/// the other kinds).
#[derive(Clone, Debug, PartialEq, Eq)]
pub struct ParseError {
    pub kind: ParseErrorKind,
    pub detail: String,
}

/// The model of a [`ParseError`].
pub ghost struct ParseErrorView {
    pub kind: ParseErrorKind,
    pub detail: Seq<char>,
}

impl View for ParseError {
    type V = ParseErrorView;

    open spec fn view(&self) -> ParseErrorView {
        ParseErrorView { kind: self.kind, detail: self.detail@ }
    }
}

/// An error of a kind that carries no diagnostic text.
pub open spec fn bare_error(kind: ParseErrorKind) -> ParseErrorView {
    ParseErrorView { kind, detail: Seq::<char>::empty() }
}

/// A value-grammar error with the refusing parser's text.
pub open spec fn grammar_error(kind: ParseErrorKind, detail: Seq<char>) -> ParseErrorView {
    ParseErrorView { kind, detail }
}

/// The fixed description of each kind that carries no diagnostic text.
pub open spec fn kind_text(kind: ParseErrorKind) -> Seq<char> {
    match kind {
        ParseErrorKind::MissingSeparator => "Missing `:`"@,
        ParseErrorKind::DuplicateExpires => "The Expires field must only appear once"@,
        ParseErrorKind::DuplicatePreferredLanguages =>
            "The Preferred-Languages field must only appear once"@,
        ParseErrorKind::MissingContact => "Must have at least one Contact field"@,
        ParseErrorKind::MissingExpires => "Must have an Expires field"@,
        _ => Seq::<char>::empty(),
    }
}

impl ParseError {
    /// An error of a kind that carries no diagnostic text.
    pub fn bare(kind: ParseErrorKind) -> (r: ParseError)
        ensures
            r@ == bare_error(kind),
    {
        ParseError { kind, detail: String::new() }
    }

    /// A human-readable description: the diagnostic text for value-grammar
    /// errors, a fixed sentence for the others.
    pub fn message(&self) -> (r: String)
        ensures
            r@ == match self.kind {
                ParseErrorKind::InvalidUrl | ParseErrorKind::InvalidTimestamp
                | ParseErrorKind::InvalidLanguageTag => self.detail@,
                _ => kind_text(self.kind),
            },
    {
        match self.kind {
            ParseErrorKind::InvalidUrl | ParseErrorKind::InvalidTimestamp
            | ParseErrorKind::InvalidLanguageTag => self.detail.clone(),
            ParseErrorKind::MissingSeparator => String::from_str("Missing `:`"),
            ParseErrorKind::DuplicateExpires => String::from_str(
                "The Expires field must only appear once",
            ),
            ParseErrorKind::DuplicatePreferredLanguages => String::from_str(
                "The Preferred-Languages field must only appear once",
            ),
            ParseErrorKind::MissingContact => String::from_str(
                "Must have at least one Contact field",
            ),
            ParseErrorKind::MissingExpires => String::from_str("Must have an Expires field"),
        }
    }
}

} // verus!

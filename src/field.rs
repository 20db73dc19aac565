//! Fields and lines: splitting a line at its first `:`, dispatching on the
//! case-folded name, and the stream of per-line results over a document.

use vstd::prelude::*;
use crate::error::{ParseError, ParseErrorKind, ParseErrorView, bare_error};
use crate::text::{find_char, index_of, lines, lines_of};
use crate::values::{
    Timestamp, languages_value, parse_language_tags, parse_timestamp, parse_url, timestamp_value,
    url_value,
};

verus! {

/// One directive of a document, its value already parsed by its grammar.
/// URLs are held as their serialization, language tags as their text.
#[derive(Debug, PartialEq, Eq)]
pub enum Field {
    Acknowledgments(String),
    Canonical(String),
    Contact(String),
    Encryption(String),
    Expires(Timestamp),
    Hiring(String),
    Policy(String),
    PreferredLanguages(Vec<String>),
    /// A field of any other name: the name as written, and the raw value.
    Extension(String, String),
}

/// The model of a [`Field`].
pub ghost enum FieldView {
    Acknowledgments(Seq<char>),
    Canonical(Seq<char>),
    Contact(Seq<char>),
    Encryption(Seq<char>),
    Expires(Timestamp),
    Hiring(Seq<char>),
    Policy(Seq<char>),
    PreferredLanguages(Seq<Seq<char>>),
    Extension(Seq<char>, Seq<char>),
}

impl View for Field {
    type V = FieldView;

    open spec fn view(&self) -> FieldView {
        match self {
            Field::Acknowledgments(u) => FieldView::Acknowledgments(u@),
            Field::Canonical(u) => FieldView::Canonical(u@),
            Field::Contact(u) => FieldView::Contact(u@),
            Field::Encryption(u) => FieldView::Encryption(u@),
            Field::Expires(t) => FieldView::Expires(*t),
            Field::Hiring(u) => FieldView::Hiring(u@),
            Field::Policy(u) => FieldView::Policy(u@),
            Field::PreferredLanguages(tags) => FieldView::PreferredLanguages(
                tags@.map_values(|t: String| t@),
            ),
            Field::Extension(n, v) => FieldView::Extension(n@, v@),
        }
    }
}

/// Which field a (case-folded) name designates.
#[derive(Clone, Copy, Debug, PartialEq, Eq, Structural)]
pub enum FieldKind {
    Acknowledgments,
    Canonical,
    Contact,
    Encryption,
    Expires,
    Hiring,
    Policy,
    PreferredLanguages,
    Extension,
}

/// What `str::to_lowercase` gives for a text.
pub uninterp spec fn lower_of(s: Seq<char>) -> Seq<char>;

/// Relies on `str::to_lowercase`: the lower-case form of the text, which
/// depends on its characters alone.
#[verifier::external_body]
fn lowercase(s: &str) -> (r: String)
    ensures
        r@ == lower_of(s@),
{
    s.to_lowercase()
}

/// The field that a lower-cased name designates.
pub open spec fn kind_of_name(lowered: Seq<char>) -> FieldKind {
    if lowered == "acknowledgments"@ {
        FieldKind::Acknowledgments
    } else if lowered == "canonical"@ {
        FieldKind::Canonical
    } else if lowered == "contact"@ {
        FieldKind::Contact
    } else if lowered == "encryption"@ {
        FieldKind::Encryption
    } else if lowered == "expires"@ {
        FieldKind::Expires
    } else if lowered == "hiring"@ {
        FieldKind::Hiring
    } else if lowered == "policy"@ {
        FieldKind::Policy
    } else if lowered == "preferred-languages"@ {
        FieldKind::PreferredLanguages
    } else {
        FieldKind::Extension
    }
}

/// Wraps a parsed URL value in the field of kind `k`.
pub open spec fn url_field(k: FieldKind, u: Seq<char>) -> FieldView {
    match k {
        FieldKind::Acknowledgments => FieldView::Acknowledgments(u),
        FieldKind::Canonical => FieldView::Canonical(u),
        FieldKind::Contact => FieldView::Contact(u),
        FieldKind::Encryption => FieldView::Encryption(u),
        FieldKind::Hiring => FieldView::Hiring(u),
        _ => FieldView::Policy(u),
    }
}

/// The field that a name (as written) and a raw value make.
pub open spec fn field_of_parts(name: Seq<char>, value: Seq<char>) -> Result<FieldView, ParseErrorView> {
    let k = kind_of_name(lower_of(name));
    match k {
        FieldKind::Expires => match timestamp_value(value) {
            Ok(t) => Ok(FieldView::Expires(t)),
            Err(e) => Err(e),
        },
        FieldKind::PreferredLanguages => match languages_value(value) {
            Ok(tags) => Ok(FieldView::PreferredLanguages(tags)),
            Err(e) => Err(e),
        },
        FieldKind::Extension => Ok(FieldView::Extension(name, value)),
        _ => match url_value(value) {
            Ok(u) => Ok(url_field(k, u)),
            Err(e) => Err(e),
        },
    }
}

/// The field that a line (not a comment) makes: split at the first `:`.
pub open spec fn field_of(line: Seq<char>) -> Result<FieldView, ParseErrorView> {
    match index_of(line, ':') {
        None => Err(bare_error(ParseErrorKind::MissingSeparator)),
        Some(i) => field_of_parts(line.take(i), line.skip(i + 1)),
    }
}

/// The model of a field result.
pub open spec fn field_result_view(r: Result<Field, ParseError>) -> Result<FieldView, ParseErrorView> {
    match r {
        Ok(f) => Ok(f@),
        Err(e) => Err(e@),
    }
}

/// Whether two texts are equal, character by character.
pub fn text_eq(a: &str, b: &str) -> (r: bool)
    ensures
        r == (a@ == b@),
{
    let n = a.unicode_len();
    if n != b.unicode_len() {
        return false;
    }
    let mut i: usize = 0;
    while i < n
        invariant
            n == a@.len() == b@.len(),
            i <= n,
            a@.take(i as int) == b@.take(i as int),
        decreases n - i,
    {
        if a.get_char(i) != b.get_char(i) {
            return false;
        }
        assert(a@.take(i as int + 1) == a@.take(i as int).push(a@[i as int]));
        assert(b@.take(i as int + 1) == b@.take(i as int).push(b@[i as int]));
        i = i + 1;
    }
    assert(a@.take(n as int) == a@);
    assert(b@.take(n as int) == b@);
    true
}

/// The field that a lower-cased name designates; unknown names are
/// extensions.
pub fn field_kind_of(lowered: &str) -> (r: FieldKind)
    ensures
        r == kind_of_name(lowered@),
{
    if text_eq(lowered, "acknowledgments") {
        FieldKind::Acknowledgments
    } else if text_eq(lowered, "canonical") {
        FieldKind::Canonical
    } else if text_eq(lowered, "contact") {
        FieldKind::Contact
    } else if text_eq(lowered, "encryption") {
        FieldKind::Encryption
    } else if text_eq(lowered, "expires") {
        FieldKind::Expires
    } else if text_eq(lowered, "hiring") {
        FieldKind::Hiring
    } else if text_eq(lowered, "policy") {
        FieldKind::Policy
    } else if text_eq(lowered, "preferred-languages") {
        FieldKind::PreferredLanguages
    } else {
        FieldKind::Extension
    }
}

/// Builds the field of a name (as written) and its raw value.
pub fn parse_field_parts(name: &str, value: &str) -> (r: Result<Field, ParseError>)
    ensures
        field_result_view(r) == field_of_parts(name@, value@),
{
    let lowered = lowercase(name);
    let kind = field_kind_of(lowered.as_str());
    match kind {
        FieldKind::Expires => match parse_timestamp(value) {
            Ok(t) => Ok(Field::Expires(t)),
            Err(e) => Err(e),
        },
        FieldKind::PreferredLanguages => match parse_language_tags(value) {
            Ok(tags) => Ok(Field::PreferredLanguages(tags)),
            Err(e) => Err(e),
        },
        FieldKind::Extension => Ok(Field::Extension(String::from_str(name), String::from_str(value))),
        _ => match parse_url(value) {
            Ok(u) => Ok(
                match kind {
                    FieldKind::Acknowledgments => Field::Acknowledgments(u),
                    FieldKind::Canonical => Field::Canonical(u),
                    FieldKind::Contact => Field::Contact(u),
                    FieldKind::Encryption => Field::Encryption(u),
                    FieldKind::Hiring => Field::Hiring(u),
                    _ => Field::Policy(u),
                },
            ),
            Err(e) => Err(e),
        },
    }
}

/// Parses a line that is not a comment as a field: the name is what stands
/// before the first `:`, the value everything after it, further colons
/// included.
pub fn parse_field(line: &str) -> (r: Result<Field, ParseError>)
    ensures
        field_result_view(r) == field_of(line@),
{
    match find_char(line, ':') {
        None => Err(ParseError::bare(ParseErrorKind::MissingSeparator)),
        Some(i) => {
            let n = line.unicode_len();
            let name = line.substring_char(0, i);
            let value = line.substring_char(i + 1, n);
            assert(name@ == line@.take(i as int));
            assert(value@ == line@.skip(i as int + 1));
            parse_field_parts(name, value)
        },
    }
}

impl std::str::FromStr for Field {
    type Err = ParseError;

    fn from_str(s: &str) -> (r: Result<Field, ParseError>)
        ensures
            field_result_view(r) == field_of(s@),
    {
        parse_field(s)
    }
}

/// One line of a document: a comment, or a field.
#[derive(Debug, PartialEq, Eq)]
pub enum Line {
    Field(Field),
    /// The text after the `#`.
    Comment(String),
}

/// The model of a [`Line`].
pub ghost enum LineView {
    Field(FieldView),
    Comment(Seq<char>),
}

impl View for Line {
    type V = LineView;

    open spec fn view(&self) -> LineView {
        match self {
            Line::Field(f) => LineView::Field(f@),
            Line::Comment(c) => LineView::Comment(c@),
        }
    }
}

/// Whether a line is a comment: it starts with `#`.
pub open spec fn is_comment(line: Seq<char>) -> bool {
    line.len() > 0 && line[0] == '#'
}

/// What a line is: a comment, which never fails, or a field.
pub open spec fn line_of(line: Seq<char>) -> Result<LineView, ParseErrorView> {
    if is_comment(line) {
        Ok(LineView::Comment(line.skip(1)))
    } else {
        match field_of(line) {
            Ok(f) => Ok(LineView::Field(f)),
            Err(e) => Err(e),
        }
    }
}

/// The model of a line result.
pub open spec fn line_result_view(r: Result<Line, ParseError>) -> Result<LineView, ParseErrorView> {
    match r {
        Ok(l) => Ok(l@),
        Err(e) => Err(e@),
    }
}

/// Classifies one line (without its line ending).
pub fn parse_line(line: &str) -> (r: Result<Line, ParseError>)
    ensures
        line_result_view(r) == line_of(line@),
{
    let n = line.unicode_len();
    if n > 0 && line.get_char(0) == '#' {
        let rest = line.substring_char(1, n);
        assert(rest@ == line@.skip(1));
        Ok(Line::Comment(String::from_str(rest)))
    } else {
        match parse_field(line) {
            Ok(f) => Ok(Line::Field(f)),
            Err(e) => Err(e),
        }
    }
}

impl std::str::FromStr for Line {
    type Err = ParseError;

    fn from_str(s: &str) -> (r: Result<Line, ParseError>)
        ensures
            line_result_view(r) == line_of(s@),
    {
        parse_line(s)
    }
}

/// The stream entries of a sequence of lines: one per line that is not a
/// comment, in order.
pub open spec fn entries_of_lines(ls: Seq<Seq<char>>) -> Seq<Result<FieldView, ParseErrorView>>
    decreases ls.len(),
{
    if ls.len() == 0 {
        Seq::empty()
    } else {
        let before = entries_of_lines(ls.drop_last());
        if is_comment(ls.last()) {
            before
        } else {
            before.push(field_of(ls.last()))
        }
    }
}

/// The stream entries of a document.
pub open spec fn entries_of(text: Seq<char>) -> Seq<Result<FieldView, ParseErrorView>> {
    entries_of_lines(lines_of(text))
}

/// The model of a field stream.
pub open spec fn entries_view(es: Seq<Result<Field, ParseError>>) -> Seq<Result<FieldView, ParseErrorView>> {
    es.map_values(|r: Result<Field, ParseError>| field_result_view(r))
}

/// The result of each line of `text` that is not a comment, in line order;
/// an error on one line does not stop the others.
pub fn parse_fields(text: &str) -> (r: Vec<Result<Field, ParseError>>)
    ensures
        entries_view(r@) == entries_of(text@),
{
    let ls = lines(text);
    let ghost lv = lines_of(text@);
    let mut out: Vec<Result<Field, ParseError>> = Vec::new();
    let mut i: usize = 0;
    assert(lv.take(0) == Seq::<Seq<char>>::empty());
    assert(entries_view(out@) == Seq::<Result<FieldView, ParseErrorView>>::empty());
    while i < ls.len()
        invariant
            ls@.map_values(|l: &str| l@) == lv,
            lv == lines_of(text@),
            i <= lv.len(),
            entries_view(out@) == entries_of_lines(lv.take(i as int)),
        decreases lv.len() - i,
    {
        let line = ls[i];
        assert(line@ == lv[i as int]);
        assert(lv.take(i as int + 1).drop_last() == lv.take(i as int));
        assert(lv.take(i as int + 1).last() == lv[i as int]);
        match parse_line(line) {
            Ok(Line::Comment(_)) => {},
            Ok(Line::Field(f)) => {
                let ghost before = entries_view(out@);
                out.push(Ok(f));
                assert(entries_view(out@) == before.push(field_of(line@)));
            },
            Err(e) => {
                let ghost before = entries_view(out@);
                out.push(Err(e));
                assert(entries_view(out@) == before.push(field_of(line@)));
            },
        }
        i = i + 1;
    }
    assert(lv.take(lv.len() as int) == lv);
    out
}

} // verus!

//! The grammars of field values: absolute URLs, date-times with an offset,
//! and lists of language tags. The grammars themselves are those of the
//! `url`, `chrono` and `language-tags` crates; what is decided here is how
//! their results become field values and errors.

use vstd::prelude::*;
use crate::error::{ParseError, ParseErrorKind, ParseErrorView, grammar_error};
use crate::text::{split_char, split_on};

verus! {

/// A point in time together with the offset at which it was written:
/// seconds since the Unix epoch, the nanoseconds within that second, and the
/// offset from UTC in seconds (kept as written, not normalised).
#[derive(Clone, Copy, Debug, PartialEq, Eq, Structural)]
pub struct Timestamp {
    pub seconds: i64,
    pub nanos: u32,
    pub offset: i32,
}

/// What `url::Url::parse` gives for a text: the URL's serialization, or the
/// text of its error.
pub uninterp spec fn url_parse_of(s: Seq<char>) -> Result<Seq<char>, Seq<char>>;

/// What chrono's RFC 2822 parser gives for a text: the instant as
/// (seconds, nanoseconds, offset), or the text of its error.
pub uninterp spec fn rfc2822_of(s: Seq<char>) -> Result<(i64, u32, i32), Seq<char>>;

/// What chrono's RFC 3339 parser gives for a text, in the same form.
pub uninterp spec fn rfc3339_of(s: Seq<char>) -> Result<(i64, u32, i32), Seq<char>>;

/// What `language_tags::LanguageTag::from_str` gives for a text: the tag as
/// it displays, or the text of its error.
pub uninterp spec fn language_tag_of(s: Seq<char>) -> Result<Seq<char>, Seq<char>>;

/// The model of a text result of a wrapper.
pub open spec fn text_result(r: Result<String, String>) -> Result<Seq<char>, Seq<char>> {
    match r {
        Ok(v) => Ok(v@),
        Err(e) => Err(e@),
    }
}

/// The model of a timestamp result of a wrapper.
pub open spec fn instant_result(r: Result<Timestamp, String>) -> Result<(i64, u32, i32), Seq<char>> {
    match r {
        Ok(t) => Ok((t.seconds, t.nanos, t.offset)),
        Err(e) => Err(e@),
    }
}

/// The timestamp of (seconds, nanoseconds, offset).
pub open spec fn timestamp_of(t: (i64, u32, i32)) -> Timestamp {
    Timestamp { seconds: t.0, nanos: t.1, offset: t.2 }
}

/// Relies on `url::Url::parse`: the serialization of the parsed URL, or the
/// display text of the `url::ParseError`.
#[verifier::external_body]
fn url_parse(s: &str) -> (r: Result<String, String>)
    ensures
        text_result(r) == url_parse_of(s@),
{
    url::Url::parse(s).map(|u| String::from(u.as_str())).map_err(|e| e.to_string())
}

/// Relies on `chrono::DateTime::parse_from_rfc2822`: the parsed instant and
/// its offset, or the display text of the chrono error.
#[verifier::external_body]
fn rfc2822_parse(s: &str) -> (r: Result<Timestamp, String>)
    ensures
        instant_result(r) == rfc2822_of(s@),
{
    chrono::DateTime::parse_from_rfc2822(s).map(|d| Timestamp {
        seconds: d.timestamp(),
        nanos: d.timestamp_subsec_nanos(),
        offset: d.offset().local_minus_utc(),
    }).map_err(|e| e.to_string())
}

/// Relies on `chrono::DateTime::parse_from_rfc3339`: the parsed instant and
/// its offset, or the display text of the chrono error.
#[verifier::external_body]
fn rfc3339_parse(s: &str) -> (r: Result<Timestamp, String>)
    ensures
        instant_result(r) == rfc3339_of(s@),
{
    chrono::DateTime::parse_from_rfc3339(s).map(|d| Timestamp {
        seconds: d.timestamp(),
        nanos: d.timestamp_subsec_nanos(),
        offset: d.offset().local_minus_utc(),
    }).map_err(|e| e.to_string())
}

/// Relies on `<language_tags::LanguageTag as FromStr>::from_str`: the tag's
/// display text, or the display text of the `language_tags::Error`.
#[verifier::external_body]
fn language_tag_parse(s: &str) -> (r: Result<String, String>)
    ensures
        text_result(r) == language_tag_of(s@),
{
    <language_tags::LanguageTag as std::str::FromStr>::from_str(s)
        .map(|t| t.to_string())
        .map_err(|e| e.to_string())
}

/// The value of a URL field, or `InvalidUrl` with the URL parser's reason.
pub open spec fn url_value(s: Seq<char>) -> Result<Seq<char>, ParseErrorView> {
    match url_parse_of(s) {
        Ok(u) => Ok(u),
        Err(e) => Err(grammar_error(ParseErrorKind::InvalidUrl, e)),
    }
}

/// The value of an Expires field: read as an RFC 2822 (RFC 5322) date-time,
/// or failing that as an RFC 3339 one; else `InvalidTimestamp` with the
/// reason that the second reading gave.
pub open spec fn timestamp_value(s: Seq<char>) -> Result<Timestamp, ParseErrorView> {
    match rfc2822_of(s) {
        Ok(t) => Ok(timestamp_of(t)),
        Err(_) => match rfc3339_of(s) {
            Ok(t) => Ok(timestamp_of(t)),
            Err(e) => Err(grammar_error(ParseErrorKind::InvalidTimestamp, e)),
        },
    }
}

/// The tags of a list of tokens, or the error of the first invalid one.
pub open spec fn tags_value(tokens: Seq<Seq<char>>) -> Result<Seq<Seq<char>>, ParseErrorView>
    decreases tokens.len(),
{
    if tokens.len() == 0 {
        Ok(Seq::empty())
    } else {
        match tags_value(tokens.drop_last()) {
            Err(e) => Err(e),
            Ok(tags) => match language_tag_of(tokens.last()) {
                Ok(t) => Ok(tags.push(t)),
                Err(e) => Err(grammar_error(ParseErrorKind::InvalidLanguageTag, e)),
            },
        }
    }
}

/// The value of a Preferred-Languages field: the comma-separated tokens,
/// untrimmed, each a valid language tag.
pub open spec fn languages_value(s: Seq<char>) -> Result<Seq<Seq<char>>, ParseErrorView> {
    tags_value(split_on(s, ','))
}

/// Parses the value of a URL field.
pub fn parse_url(value: &str) -> (r: Result<String, ParseError>)
    ensures
        match r {
            Ok(u) => url_value(value@) == Ok::<Seq<char>, ParseErrorView>(u@),
            Err(e) => url_value(value@) == Err::<Seq<char>, ParseErrorView>(e@),
        },
{
    match url_parse(value) {
        Ok(u) => Ok(u),
        Err(e) => Err(ParseError { kind: ParseErrorKind::InvalidUrl, detail: e }),
    }
}

/// Parses the value of an Expires field.
pub fn parse_timestamp(value: &str) -> (r: Result<Timestamp, ParseError>)
    ensures
        match r {
            Ok(t) => timestamp_value(value@) == Ok::<Timestamp, ParseErrorView>(t),
            Err(e) => timestamp_value(value@) == Err::<Timestamp, ParseErrorView>(e@),
        },
{
    match rfc2822_parse(value) {
        Ok(t) => Ok(t),
        Err(_) => match rfc3339_parse(value) {
            Ok(t) => Ok(t),
            Err(e) => Err(ParseError { kind: ParseErrorKind::InvalidTimestamp, detail: e }),
        },
    }
}

/// Parses the value of a Preferred-Languages field.
pub fn parse_language_tags(value: &str) -> (r: Result<Vec<String>, ParseError>)
    ensures
        match r {
            Ok(tags) => languages_value(value@) == Ok::<Seq<Seq<char>>, ParseErrorView>(
                tags@.map_values(|t: String| t@),
            ),
            Err(e) => languages_value(value@) == Err::<Seq<Seq<char>>, ParseErrorView>(e@),
        },
{
    let tokens = split_char(value, ',');
    let ghost toks = split_on(value@, ',');
    assert(tokens@.len() == toks.len());
    let mut tags: Vec<String> = Vec::new();
    let mut i: usize = 0;
    assert(toks.take(0) == Seq::<Seq<char>>::empty());
    assert(tags@.map_values(|t: String| t@) == Seq::<Seq<char>>::empty());
    while i < tokens.len()
        invariant
            tokens@.map_values(|p: &str| p@) == toks,
            toks == split_on(value@, ','),
            i <= toks.len(),
            tags_value(toks.take(i as int)) == Ok::<Seq<Seq<char>>, ParseErrorView>(
                tags@.map_values(|t: String| t@),
            ),
        decreases toks.len() - i,
    {
        let token = tokens[i];
        assert(token@ == toks[i as int]);
        assert(toks.take(i as int + 1).drop_last() == toks.take(i as int));
        assert(toks.take(i as int + 1).last() == toks[i as int]);
        match language_tag_parse(token) {
            Ok(t) => {
                let ghost before = tags@.map_values(|t: String| t@);
                tags.push(t);
                assert(tags@.map_values(|t: String| t@) == before.push(t@));
            },
            Err(e) => {
                proof {
                    lemma_tags_value_error(toks, i as int);
                }
                return Err(ParseError { kind: ParseErrorKind::InvalidLanguageTag, detail: e });
            },
        }
        i = i + 1;
    }
    assert(toks.take(toks.len() as int) == toks);
    Ok(tags)
}

/// Once a prefix of the tokens fails, the whole list fails the same way.
pub proof fn lemma_tags_value_error(tokens: Seq<Seq<char>>, k: int)
    requires
        0 <= k < tokens.len(),
        tags_value(tokens.take(k + 1)) is Err,
    ensures
        tags_value(tokens) == tags_value(tokens.take(k + 1)),
    decreases tokens.len() - k,
{
    if k + 1 == tokens.len() {
        assert(tokens.take(k + 1) == tokens);
    } else {
        assert(tokens.take(k + 2).drop_last() == tokens.take(k + 1));
        lemma_tags_value_error(tokens, k + 1);
    }
}

} // verus!

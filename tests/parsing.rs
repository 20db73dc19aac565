use securitytxt::{
    aggregate, field_kind_of, parse, parse_field, parse_fields, parse_language_tags, parse_line,
    parse_timestamp, parse_url, Field, FieldKind, Line, ParseError, ParseErrorKind, SecurityTxt,
    Timestamp, FILENAME, MIMETYPE, WELL_KNOWN_PATH,
};
use std::str::FromStr;
use url::Url;

const NEW_YEAR_2025: Timestamp = Timestamp { seconds: 1735689600, nanos: 0, offset: 0 };

fn kind_of(r: Result<SecurityTxt, ParseError>) -> ParseErrorKind {
    r.unwrap_err().kind
}

#[test]
fn it_works() {
    assert_eq!(
        Ok(Field::Acknowledgments(Url::parse("https://abc.com").unwrap().to_string())),
        Field::from_str("Acknowledgments:https://abc.com")
    );
}

#[test]
fn contact_and_expires_make_a_document() {
    let d = parse("Contact:https://example.com/security\nExpires:2025-01-01T00:00:00Z").unwrap();
    assert_eq!(d.contacts(), &vec!["https://example.com/security".to_string()]);
    assert_eq!(d.primary_contact(), "https://example.com/security");
    assert_eq!(d.expires(), NEW_YEAR_2025);
    assert!(d.acknowledgments().is_empty());
    assert!(d.canonical().is_empty());
    assert!(d.encryptions().is_empty());
    assert!(d.hiring().is_empty());
    assert!(d.policies().is_empty());
    assert!(d.preferred_languages().is_empty());
    assert!(d.extensions().is_empty());
}

#[test]
fn missing_contact_is_refused() {
    assert_eq!(kind_of(parse("Expires:2025-01-01T00:00:00Z")), ParseErrorKind::MissingContact);
}

#[test]
fn two_expires_are_refused() {
    let text = "Contact:https://x.test\nExpires:2025-01-01T00:00:00Z\nExpires:2026-01-01T00:00:00Z";
    assert_eq!(kind_of(parse(text)), ParseErrorKind::DuplicateExpires);
}

#[test]
fn preferred_languages_keep_their_order() {
    let d = parse("Preferred-Languages:en,fr\nContact:https://x.test\nExpires:2025-01-01T00:00:00Z")
        .unwrap();
    assert_eq!(d.preferred_languages(), &vec!["en".to_string(), "fr".to_string()]);
}

#[test]
fn comment_line_changes_nothing() {
    let with = parse("#comment\nContact:https://x.test\nExpires:2025-01-01T00:00:00Z").unwrap();
    let without = parse("Contact:https://x.test\nExpires:2025-01-01T00:00:00Z").unwrap();
    assert_eq!(with, without);
}

#[test]
fn known_names_dispatch_case_insensitively() {
    assert_eq!(
        parse_field("CONTACT:https://x.test"),
        Ok(Field::Contact("https://x.test/".to_string()))
    );
    assert_eq!(
        parse_field("Policy:https://x.test/policy"),
        Ok(Field::Policy("https://x.test/policy".to_string()))
    );
    assert_eq!(
        parse_field("hiring:https://x.test/jobs"),
        Ok(Field::Hiring("https://x.test/jobs".to_string()))
    );
    assert_eq!(
        parse_field("Encryption:https://x.test/key.asc"),
        Ok(Field::Encryption("https://x.test/key.asc".to_string()))
    );
    assert_eq!(
        parse_field("Canonical:https://x.test/.well-known/security.txt"),
        Ok(Field::Canonical("https://x.test/.well-known/security.txt".to_string()))
    );
    assert_eq!(parse_field("Expires:2025-01-01T00:00:00Z"), Ok(Field::Expires(NEW_YEAR_2025)));
}

#[test]
fn value_keeps_later_colons() {
    assert_eq!(
        parse_field("Contact:https://x.test:8443/a"),
        Ok(Field::Contact("https://x.test:8443/a".to_string()))
    );
    assert_eq!(
        parse_field("X-Custom:Bar:baz"),
        Ok(Field::Extension("X-Custom".to_string(), "Bar:baz".to_string()))
    );
}

#[test]
fn unknown_name_is_an_extension_verbatim() {
    assert_eq!(
        parse_field("Signature-Note: some value "),
        Ok(Field::Extension("Signature-Note".to_string(), " some value ".to_string()))
    );
}

#[test]
fn field_kinds_of_lowered_names() {
    assert_eq!(field_kind_of("contact"), FieldKind::Contact);
    assert_eq!(field_kind_of("preferred-languages"), FieldKind::PreferredLanguages);
    assert_eq!(field_kind_of("acknowledgments"), FieldKind::Acknowledgments);
    assert_eq!(field_kind_of("Contact"), FieldKind::Extension);
    assert_eq!(field_kind_of(""), FieldKind::Extension);
}

#[test]
fn comment_lines_never_fail() {
    assert_eq!(parse_line("#: no field here"), Ok(Line::Comment(": no field here".to_string())));
    assert_eq!(parse_line("#"), Ok(Line::Comment(String::new())));
    let entries = parse_fields("# Contact:not a url\n#\nContact:https://x.test");
    assert_eq!(entries, vec![Ok(Field::Contact("https://x.test/".to_string()))]);
}

#[test]
fn stream_goes_on_past_errors() {
    let entries = parse_fields("no separator\nContact:https://x.test\n\nExpires:soon");
    assert_eq!(entries.len(), 4);
    assert_eq!(entries[0].as_ref().unwrap_err().kind, ParseErrorKind::MissingSeparator);
    assert_eq!(entries[1], Ok(Field::Contact("https://x.test/".to_string())));
    assert_eq!(entries[2].as_ref().unwrap_err().kind, ParseErrorKind::MissingSeparator);
    assert_eq!(entries[3].as_ref().unwrap_err().kind, ParseErrorKind::InvalidTimestamp);
}

#[test]
fn crlf_and_final_newline() {
    let entries = parse_fields("Contact:https://x.test\r\nExpires:2025-01-01T00:00:00Z\r\n");
    assert_eq!(
        entries,
        vec![Ok(Field::Contact("https://x.test/".to_string())), Ok(Field::Expires(NEW_YEAR_2025))]
    );
    assert!(parse_fields("").is_empty());
}

#[test]
fn parsing_twice_gives_equal_results() {
    let text = "Contact:https://x.test\nX-A:1\nbad\nExpires:2025-01-01T00:00:00Z";
    assert_eq!(parse(text), parse(text));
    assert_eq!(parse_fields(text), parse_fields(text));
    let good = "Contact:https://x.test\nExpires:2025-01-01T00:00:00Z";
    assert_eq!(parse(good), parse(good));
}

#[test]
fn adding_one_contact_makes_a_document() {
    let without = "Policy:https://x.test/p\nExpires:2025-01-01T00:00:00Z\nX-A:b";
    assert_eq!(kind_of(parse(without)), ParseErrorKind::MissingContact);
    let with = "Policy:https://x.test/p\nExpires:2025-01-01T00:00:00Z\nContact:mailto:a@x.test\nX-A:b";
    let d = parse(with).unwrap();
    assert_eq!(d.contacts(), &vec!["mailto:a@x.test".to_string()]);
}

#[test]
fn two_expires_among_other_fields() {
    let text = "X-A:1\nExpires:2025-01-01T00:00:00Z\nContact:https://x.test\n\
                Policy:https://x.test/p\nExpires:2025-01-01T00:00:00Z\nHiring:https://x.test/h";
    assert_eq!(kind_of(parse(text)), ParseErrorKind::DuplicateExpires);
}

#[test]
fn lists_follow_line_order() {
    let text = "Contact:https://a.test\nX-One:1\nAcknowledgments:https://t.test/1\n\
                Contact:mailto:b@b.test\nEncryption:https://k.test/1\nX-Two:2\n\
                Acknowledgments:https://t.test/2\nCanonical:https://c.test/s\n\
                Expires:2025-01-01T00:00:00Z\nContact:https://a.test\nPolicy:https://p.test/\n\
                Hiring:https://h.test/";
    let d = parse(text).unwrap();
    let s = |v: &[&str]| v.iter().map(|x| x.to_string()).collect::<Vec<String>>();
    assert_eq!(d.contacts(), &s(&["https://a.test/", "mailto:b@b.test", "https://a.test/"]));
    assert_eq!(d.acknowledgments(), &s(&["https://t.test/1", "https://t.test/2"]));
    assert_eq!(d.encryptions(), &s(&["https://k.test/1"]));
    assert_eq!(d.canonical(), &s(&["https://c.test/s"]));
    assert_eq!(d.policies(), &s(&["https://p.test/"]));
    assert_eq!(d.hiring(), &s(&["https://h.test/"]));
    assert_eq!(
        d.extensions(),
        &vec![("X-One".to_string(), "1".to_string()), ("X-Two".to_string(), "2".to_string())]
    );
}

#[test]
fn missing_separator_error() {
    let e = parse_field("Contact x.test").unwrap_err();
    assert_eq!(e.kind, ParseErrorKind::MissingSeparator);
    assert_eq!(e.message(), "Missing `:`");
    assert_eq!(parse_line("").unwrap_err().kind, ParseErrorKind::MissingSeparator);
}

#[test]
fn invalid_url_error() {
    let e = parse_field("Contact:not a url").unwrap_err();
    assert_eq!(e.kind, ParseErrorKind::InvalidUrl);
    assert_eq!(e.detail, Url::parse("not a url").unwrap_err().to_string());
    assert_eq!(e.message(), e.detail);
    assert_eq!(parse_url("/relative").unwrap_err().kind, ParseErrorKind::InvalidUrl);
}

#[test]
fn invalid_timestamp_error() {
    let e = parse_field("Expires:tomorrow").unwrap_err();
    assert_eq!(e.kind, ParseErrorKind::InvalidTimestamp);
    assert!(!e.detail.is_empty());
    assert_eq!(parse_timestamp(" 2025-01-01T00:00:00Z").unwrap_err().kind, ParseErrorKind::InvalidTimestamp);
}

#[test]
fn invalid_language_tag_error() {
    let e = parse_field("Preferred-Languages:en,!!").unwrap_err();
    assert_eq!(e.kind, ParseErrorKind::InvalidLanguageTag);
    assert!(!e.detail.is_empty());
    assert_eq!(parse_language_tags("").unwrap_err().kind, ParseErrorKind::InvalidLanguageTag);
}

#[test]
fn duplicate_preferred_languages_error() {
    let text = "Preferred-Languages:en\nContact:https://x.test\nPreferred-Languages:fr\n\
                Expires:2025-01-01T00:00:00Z";
    let e = parse(text).unwrap_err();
    assert_eq!(e.kind, ParseErrorKind::DuplicatePreferredLanguages);
    assert_eq!(e.message(), "The Preferred-Languages field must only appear once");
}

#[test]
fn missing_expires_error() {
    let e = parse("Contact:https://x.test").unwrap_err();
    assert_eq!(e.kind, ParseErrorKind::MissingExpires);
    assert_eq!(e.message(), "Must have an Expires field");
}

#[test]
fn contact_is_checked_before_expires() {
    let e = parse("X-A:b").unwrap_err();
    assert_eq!(e.kind, ParseErrorKind::MissingContact);
    assert_eq!(e.message(), "Must have at least one Contact field");
    assert!(e.detail.is_empty());
}

#[test]
fn first_error_wins_in_a_document() {
    let text = "Contact:nope\nExpires:2025-01-01T00:00:00Z\nExpires:2025-01-01T00:00:00Z";
    assert_eq!(kind_of(parse(text)), ParseErrorKind::InvalidUrl);
}

#[test]
fn aggregate_folds_a_stream() {
    let d = aggregate(vec![
        Ok(Field::Contact("https://x.test/".to_string())),
        Ok(Field::Expires(NEW_YEAR_2025)),
    ])
    .unwrap();
    assert_eq!(d.contacts(), &vec!["https://x.test/".to_string()]);
    let e = aggregate(vec![Err(ParseError { kind: ParseErrorKind::MissingSeparator, detail: String::new() })]);
    assert_eq!(kind_of(e), ParseErrorKind::MissingSeparator);
}

#[test]
fn urls_are_normalised() {
    assert_eq!(parse_url("HTTPS://X.Test").unwrap(), "https://x.test/");
}

#[test]
fn language_tags_are_normalised() {
    assert_eq!(parse_language_tags("EN-us,de").unwrap(), vec!["en-US".to_string(), "de".to_string()]);
}

#[test]
fn timestamps_keep_their_offset() {
    assert_eq!(
        parse_timestamp("2025-01-01T01:00:00+01:00").unwrap(),
        Timestamp { seconds: 1735689600, nanos: 0, offset: 3600 }
    );
    assert_eq!(
        parse_timestamp("Wed, 01 Jan 2025 00:00:00 -0200").unwrap(),
        Timestamp { seconds: 1735696800, nanos: 0, offset: -7200 }
    );
    assert_eq!(
        parse_timestamp("2025-01-01T00:00:00.5Z").unwrap(),
        Timestamp { seconds: 1735689600, nanos: 500000000, offset: 0 }
    );
}

#[test]
fn from_str_matches_the_functions() {
    let text = "Contact:https://x.test\nExpires:2025-01-01T00:00:00Z";
    assert_eq!(SecurityTxt::from_str(text), parse(text));
    assert_eq!(Line::from_str("#x"), parse_line("#x"));
}

#[test]
fn well_known_constants() {
    assert_eq!(FILENAME, "security.txt");
    assert_eq!(WELL_KNOWN_PATH, "/.well-known/security.txt");
    assert_eq!(MIMETYPE, "text/plain");
}

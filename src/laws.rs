//! Properties that relate the parsing functions to each other, proved over
//! the models that their contracts use.

use vstd::prelude::*;
use crate::document::{
    SecurityTxt, SecurityTxtView, Tally, document_of, document_of_entries, document_result_view,
    empty_tally, fold_from, step,
};
use crate::error::{ParseError, ParseErrorKind, ParseErrorView, bare_error};
use crate::field::{
    Field, FieldKind, FieldView, LineView, entries_of, entries_of_lines, entries_view, field_of,
    field_of_parts, is_comment, kind_of_name, line_of, lower_of,
};
use crate::text::{index_of, lemma_index_of_prefix};
use crate::values::Timestamp;

verus! {

/// The URL of a field, when the field is of URL kind `k`.
pub open spec fn url_payload(f: FieldView, k: FieldKind) -> Option<Seq<char>> {
    match f {
        FieldView::Acknowledgments(u) => if k == FieldKind::Acknowledgments { Some(u) } else { None },
        FieldView::Canonical(u) => if k == FieldKind::Canonical { Some(u) } else { None },
        FieldView::Contact(u) => if k == FieldKind::Contact { Some(u) } else { None },
        FieldView::Encryption(u) => if k == FieldKind::Encryption { Some(u) } else { None },
        FieldView::Hiring(u) => if k == FieldKind::Hiring { Some(u) } else { None },
        FieldView::Policy(u) => if k == FieldKind::Policy { Some(u) } else { None },
        _ => None,
    }
}

/// The URLs of the stream's fields of kind `k`, in stream order.
pub open spec fn urls_in(es: Seq<Result<FieldView, ParseErrorView>>, k: FieldKind) -> Seq<Seq<char>>
    decreases es.len(),
{
    if es.len() == 0 {
        Seq::empty()
    } else {
        let before = urls_in(es.drop_last(), k);
        match es.last() {
            Ok(f) => match url_payload(f, k) {
                Some(u) => before.push(u),
                None => before,
            },
            Err(_) => before,
        }
    }
}

/// The (name, value) pairs of the stream's extension fields, in stream order.
pub open spec fn extensions_in(es: Seq<Result<FieldView, ParseErrorView>>) -> Seq<(Seq<char>, Seq<char>)>
    decreases es.len(),
{
    if es.len() == 0 {
        Seq::empty()
    } else {
        let before = extensions_in(es.drop_last());
        match es.last() {
            Ok(FieldView::Extension(n, v)) => before.push((n, v)),
            _ => before,
        }
    }
}

/// Whether an entry is a successfully parsed Contact field.
pub open spec fn is_contact(e: Result<FieldView, ParseErrorView>) -> bool {
    e is Ok && e->Ok_0 is Contact
}

/// A field line `name:value`, whose name holds no `:`, is parsed from that
/// name and that value, further colons staying in the value; a name that
/// designates no known field gives an extension holding both verbatim.
pub proof fn law_field_line(name: Seq<char>, value: Seq<char>)
    requires
        index_of(name, ':') is None,
    ensures
        field_of(name + seq![':'] + value) == field_of_parts(name, value),
        kind_of_name(lower_of(name)) == FieldKind::Extension ==> field_of(name + seq![':'] + value)
            == Ok::<FieldView, ParseErrorView>(FieldView::Extension(name, value)),
{
    let line = name + seq![':'] + value;
    let k = name.len() as int + 1;
    assert(line.take(k).drop_last() == name);
    assert(line.take(k).last() == ':');
    lemma_index_of_prefix(line, ':', k);
    assert(line.take(name.len() as int) == name);
    assert(line.skip(k) == value);
}

proof fn lemma_entries_concat(a: Seq<Seq<char>>, b: Seq<Seq<char>>)
    ensures
        entries_of_lines(a + b) == entries_of_lines(a) + entries_of_lines(b),
    decreases b.len(),
{
    if b.len() == 0 {
        assert(a + b == a);
        assert(entries_of_lines(a) + Seq::empty() == entries_of_lines(a));
    } else {
        lemma_entries_concat(a, b.drop_last());
        assert((a + b).drop_last() == a + b.drop_last());
        assert((a + b).last() == b.last());
    }
}

/// A line that starts with `#` is never refused, whatever follows, and
/// contributes no entry to the field stream wherever it stands.
pub proof fn law_comment_lines(before: Seq<Seq<char>>, comment: Seq<char>, after: Seq<Seq<char>>)
    requires
        is_comment(comment),
    ensures
        line_of(comment) == Ok::<LineView, ParseErrorView>(LineView::Comment(comment.skip(1))),
        entries_of_lines(before + seq![comment] + after) == entries_of_lines(before + after),
{
    lemma_entries_concat(before + seq![comment], after);
    lemma_entries_concat(before, seq![comment]);
    lemma_entries_concat(before, after);
    assert(seq![comment].drop_last() == Seq::<Seq<char>>::empty());
    assert(entries_of_lines(seq![comment]) == entries_of_lines(Seq::<Seq<char>>::empty()));
    assert(entries_of_lines(before) + Seq::empty() == entries_of_lines(before));
}

/// Parsing depends on the text alone: two parses of the same text give
/// equal results.
pub proof fn law_parse_is_repeatable(
    text: Seq<char>,
    first: Result<SecurityTxt, ParseError>,
    second: Result<SecurityTxt, ParseError>,
)
    requires
        document_result_view(first) == document_of(text),
        document_result_view(second) == document_of(text),
    ensures
        document_result_view(first) == document_result_view(second),
{
}

/// The field stream depends on the text alone: two streams of the same
/// text hold equal entries.
pub proof fn law_stream_is_repeatable(
    text: Seq<char>,
    first: Seq<Result<Field, ParseError>>,
    second: Seq<Result<Field, ParseError>>,
)
    requires
        entries_view(first) == entries_of(text),
        entries_view(second) == entries_of(text),
    ensures
        entries_view(first) == entries_view(second),
{
}

proof fn lemma_fold_lists(es: Seq<Result<FieldView, ParseErrorView>>)
    requires
        fold_from(empty_tally(), es) is Ok,
    ensures
        ({
            let t = fold_from(empty_tally(), es)->Ok_0;
            &&& t.acknowledgments == urls_in(es, FieldKind::Acknowledgments)
            &&& t.canonical == urls_in(es, FieldKind::Canonical)
            &&& t.contacts == urls_in(es, FieldKind::Contact)
            &&& t.encryptions == urls_in(es, FieldKind::Encryption)
            &&& t.hiring == urls_in(es, FieldKind::Hiring)
            &&& t.policies == urls_in(es, FieldKind::Policy)
            &&& t.extensions == extensions_in(es)
        }),
    decreases es.len(),
{
    if es.len() > 0 {
        lemma_fold_lists(es.drop_last());
    }
}

/// The Acknowledgments, Canonical, Contact, Encryption, Hiring, Policy and
/// extension fields of a document are exactly those of its field stream,
/// each as often and in the order in which they appear there.
pub proof fn law_lists_keep_order(es: Seq<Result<FieldView, ParseErrorView>>)
    requires
        document_of_entries(es) is Ok,
    ensures
        ({
            let d = document_of_entries(es)->Ok_0;
            &&& d.acknowledgments == urls_in(es, FieldKind::Acknowledgments)
            &&& d.canonical == urls_in(es, FieldKind::Canonical)
            &&& d.contacts == urls_in(es, FieldKind::Contact)
            &&& d.encryptions == urls_in(es, FieldKind::Encryption)
            &&& d.hiring == urls_in(es, FieldKind::Hiring)
            &&& d.policies == urls_in(es, FieldKind::Policy)
            &&& d.extensions == extensions_in(es)
        }),
{
    lemma_fold_lists(es);
}

proof fn lemma_no_contacts(es: Seq<Result<FieldView, ParseErrorView>>)
    requires
        forall|i: int| 0 <= i < es.len() ==> !is_contact(#[trigger] es[i]),
    ensures
        urls_in(es, FieldKind::Contact).len() == 0,
    decreases es.len(),
{
    if es.len() > 0 {
        let d = es.drop_last();
        assert forall|i: int| 0 <= i < d.len() implies !is_contact(#[trigger] d[i]) by {
            assert(d[i] == es[i]);
        }
        lemma_no_contacts(d);
        assert(!is_contact(es[es.len() - 1]));
    }
}

/// A stream with no Contact field, that no other error stops first, makes
/// no document: the error is `MissingContact`.
pub proof fn law_missing_contact(es: Seq<Result<FieldView, ParseErrorView>>)
    requires
        forall|i: int| 0 <= i < es.len() ==> !is_contact(#[trigger] es[i]),
        fold_from(empty_tally(), es) is Ok,
    ensures
        document_of_entries(es) == Err::<SecurityTxtView, ParseErrorView>(
            bare_error(ParseErrorKind::MissingContact),
        ),
{
    lemma_fold_lists(es);
    lemma_no_contacts(es);
}

proof fn lemma_fold_concat(
    start: Tally,
    a: Seq<Result<FieldView, ParseErrorView>>,
    b: Seq<Result<FieldView, ParseErrorView>>,
)
    ensures
        fold_from(start, a + b) == match fold_from(start, a) {
            Err(e) => Err(e),
            Ok(t) => fold_from(t, b),
        },
    decreases b.len(),
{
    if b.len() == 0 {
        assert(a + b == a);
    } else {
        lemma_fold_concat(start, a, b.drop_last());
        assert((a + b).drop_last() == a + b.drop_last());
        assert((a + b).last() == b.last());
    }
}

proof fn lemma_fold_one(start: Tally, e: Result<FieldView, ParseErrorView>)
    ensures
        fold_from(start, seq![e]) == match e {
            Err(x) => Err(x),
            Ok(f) => step(start, f),
        },
{
    assert(seq![e].drop_last() == Seq::<Result<FieldView, ParseErrorView>>::empty());
    assert(fold_from(start, seq![e].drop_last()) == Ok::<Tally, ParseErrorView>(start));
}

proof fn lemma_fold_ignores_contacts(t1: Tally, t2: Tally, b: Seq<Result<FieldView, ParseErrorView>>)
    requires
        t1 == (Tally { contacts: t1.contacts, ..t2 }),
    ensures
        fold_from(t1, b) is Ok <==> fold_from(t2, b) is Ok,
        fold_from(t1, b) is Ok ==> {
            let r1 = fold_from(t1, b)->Ok_0;
            let r2 = fold_from(t2, b)->Ok_0;
            &&& r1 == (Tally { contacts: r1.contacts, ..r2 })
            &&& r1.contacts.len() >= t1.contacts.len()
        },
    decreases b.len(),
{
    if b.len() > 0 {
        lemma_fold_ignores_contacts(t1, t2, b.drop_last());
    }
}

/// A stream without a Contact field but with an Expires field, that no
/// error stops, makes a document once one valid Contact field is added at
/// any place in it.
pub proof fn law_one_contact_suffices(
    before: Seq<Result<FieldView, ParseErrorView>>,
    after: Seq<Result<FieldView, ParseErrorView>>,
    contact: Seq<char>,
)
    requires
        forall|i: int| 0 <= i < (before + after).len() ==> !is_contact(#[trigger] (before + after)[i]),
        fold_from(empty_tally(), before + after) is Ok,
        fold_from(empty_tally(), before + after)->Ok_0.expires is Some,
    ensures
        document_of_entries(
            before + seq![Ok::<FieldView, ParseErrorView>(FieldView::Contact(contact))] + after,
        ) is Ok,
{
    let c = seq![Ok::<FieldView, ParseErrorView>(FieldView::Contact(contact))];
    lemma_fold_concat(empty_tally(), before, after);
    lemma_fold_concat(empty_tally(), before + c, after);
    lemma_fold_concat(empty_tally(), before, c);
    lemma_fold_one(fold_from(empty_tally(), before)->Ok_0, c[0]);
    let ta = fold_from(empty_tally(), before)->Ok_0;
    let tc = fold_from(empty_tally(), before + c)->Ok_0;
    assert(tc == Tally { contacts: ta.contacts.push(contact), ..ta });
    lemma_fold_ignores_contacts(tc, ta, after);
}

proof fn lemma_expires_stays(start: Tally, b: Seq<Result<FieldView, ParseErrorView>>)
    requires
        start.expires is Some,
        fold_from(start, b) is Ok,
    ensures
        fold_from(start, b)->Ok_0.expires is Some,
    decreases b.len(),
{
    if b.len() > 0 {
        lemma_expires_stays(start, b.drop_last());
    }
}

/// A stream with two Expires fields makes no document: the error is
/// `DuplicateExpires`, whatever other fields surround them, provided no
/// error stops the fold before the second one.
pub proof fn law_duplicate_expires(
    before: Seq<Result<FieldView, ParseErrorView>>,
    first: Timestamp,
    between: Seq<Result<FieldView, ParseErrorView>>,
    second: Timestamp,
    after: Seq<Result<FieldView, ParseErrorView>>,
)
    requires
        fold_from(
            empty_tally(),
            before + seq![Ok::<FieldView, ParseErrorView>(FieldView::Expires(first))] + between,
        ) is Ok,
    ensures
        document_of_entries(
            before + seq![Ok::<FieldView, ParseErrorView>(FieldView::Expires(first))] + between
                + seq![Ok::<FieldView, ParseErrorView>(FieldView::Expires(second))] + after,
        ) == Err::<SecurityTxtView, ParseErrorView>(bare_error(ParseErrorKind::DuplicateExpires)),
{
    let e1 = seq![Ok::<FieldView, ParseErrorView>(FieldView::Expires(first))];
    let e2 = seq![Ok::<FieldView, ParseErrorView>(FieldView::Expires(second))];
    let p = before + e1 + between;
    lemma_fold_concat(empty_tally(), before + e1, between);
    lemma_fold_concat(empty_tally(), before, e1);
    lemma_fold_one(fold_from(empty_tally(), before)->Ok_0, e1[0]);
    let t1 = fold_from(empty_tally(), before + e1)->Ok_0;
    assert(t1.expires is Some);
    lemma_expires_stays(t1, between);
    lemma_fold_concat(empty_tally(), p, e2);
    lemma_fold_one(fold_from(empty_tally(), p)->Ok_0, e2[0]);
    lemma_fold_concat(empty_tally(), p + e2, after);
}

} // verus!

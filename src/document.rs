//! The document: a left fold over the field stream that enforces the
//! cardinality rules, then the checks for the required fields.

use vstd::prelude::*;
use crate::error::{ParseError, ParseErrorKind, ParseErrorView, bare_error};
use crate::field::{Field, FieldView, entries_of, entries_view, field_result_view, parse_fields};
use crate::values::Timestamp;

verus! {

/// What the fold has gathered so far.
pub ghost struct Tally {
    pub acknowledgments: Seq<Seq<char>>,
    pub canonical: Seq<Seq<char>>,
    pub contacts: Seq<Seq<char>>,
    pub encryptions: Seq<Seq<char>>,
    pub expires: Option<Timestamp>,
    pub hiring: Seq<Seq<char>>,
    pub policies: Seq<Seq<char>>,
    pub preferred_languages: Option<Seq<Seq<char>>>,
    pub extensions: Seq<(Seq<char>, Seq<char>)>,
}

/// What the fold starts from: nothing gathered.
pub open spec fn empty_tally() -> Tally {
    Tally {
        acknowledgments: Seq::empty(),
        canonical: Seq::empty(),
        contacts: Seq::empty(),
        encryptions: Seq::empty(),
        expires: None,
        hiring: Seq::empty(),
        policies: Seq::empty(),
        preferred_languages: None,
        extensions: Seq::empty(),
    }
}

/// One step of the fold: a multi-valued field is appended; a singleton
/// field is recorded, or refused when already recorded.
pub open spec fn step(t: Tally, f: FieldView) -> Result<Tally, ParseErrorView> {
    match f {
        FieldView::Acknowledgments(u) => Ok(Tally { acknowledgments: t.acknowledgments.push(u), ..t }),
        FieldView::Canonical(u) => Ok(Tally { canonical: t.canonical.push(u), ..t }),
        FieldView::Contact(u) => Ok(Tally { contacts: t.contacts.push(u), ..t }),
        FieldView::Encryption(u) => Ok(Tally { encryptions: t.encryptions.push(u), ..t }),
        FieldView::Expires(x) => if t.expires is Some {
            Err(bare_error(ParseErrorKind::DuplicateExpires))
        } else {
            Ok(Tally { expires: Some(x), ..t })
        },
        FieldView::Hiring(u) => Ok(Tally { hiring: t.hiring.push(u), ..t }),
        FieldView::Policy(u) => Ok(Tally { policies: t.policies.push(u), ..t }),
        FieldView::PreferredLanguages(tags) => if t.preferred_languages is Some {
            Err(bare_error(ParseErrorKind::DuplicatePreferredLanguages))
        } else {
            Ok(Tally { preferred_languages: Some(tags), ..t })
        },
        FieldView::Extension(n, v) => Ok(Tally { extensions: t.extensions.push((n, v)), ..t }),
    }
}

/// The fold over a stream from a given start; the first error ends it.
pub open spec fn fold_from(start: Tally, es: Seq<Result<FieldView, ParseErrorView>>) -> Result<Tally, ParseErrorView>
    decreases es.len(),
{
    if es.len() == 0 {
        Ok(start)
    } else {
        match fold_from(start, es.drop_last()) {
            Err(e) => Err(e),
            Ok(t) => match es.last() {
                Err(e) => Err(e),
                Ok(f) => step(t, f),
            },
        }
    }
}

/// The model of a [`SecurityTxt`].
pub ghost struct SecurityTxtView {
    pub acknowledgments: Seq<Seq<char>>,
    pub canonical: Seq<Seq<char>>,
    pub contacts: Seq<Seq<char>>,
    pub encryptions: Seq<Seq<char>>,
    pub expires: Timestamp,
    pub hiring: Seq<Seq<char>>,
    pub policies: Seq<Seq<char>>,
    pub preferred_languages: Seq<Seq<char>>,
    pub extensions: Seq<(Seq<char>, Seq<char>)>,
}

/// The document a finished fold makes: Contact is checked first, then
/// Expires; an absent Preferred-Languages is an empty list.
pub open spec fn finish(t: Tally) -> Result<SecurityTxtView, ParseErrorView> {
    if t.contacts.len() == 0 {
        Err(bare_error(ParseErrorKind::MissingContact))
    } else if t.expires is None {
        Err(bare_error(ParseErrorKind::MissingExpires))
    } else {
        Ok(SecurityTxtView {
            acknowledgments: t.acknowledgments,
            canonical: t.canonical,
            contacts: t.contacts,
            encryptions: t.encryptions,
            expires: t.expires->0,
            hiring: t.hiring,
            policies: t.policies,
            preferred_languages: match t.preferred_languages {
                Some(l) => l,
                None => Seq::empty(),
            },
            extensions: t.extensions,
        })
    }
}

/// The document that a field stream makes.
pub open spec fn document_of_entries(es: Seq<Result<FieldView, ParseErrorView>>) -> Result<SecurityTxtView, ParseErrorView> {
    match fold_from(empty_tally(), es) {
        Err(e) => Err(e),
        Ok(t) => finish(t),
    }
}

/// The document that a text makes.
pub open spec fn document_of(text: Seq<char>) -> Result<SecurityTxtView, ParseErrorView> {
    document_of_entries(entries_of(text))
}

/// The models of a list of strings.
pub open spec fn texts(v: Seq<String>) -> Seq<Seq<char>> {
    v.map_values(|s: String| s@)
}

/// The models of a list of string pairs.
pub open spec fn pairs(v: Seq<(String, String)>) -> Seq<(Seq<char>, Seq<char>)> {
    v.map_values(|p: (String, String)| (p.0@, p.1@))
}

/// The accumulator of the fold, replaced at each step.
struct Gathered {
    acknowledgments: Vec<String>,
    canonical: Vec<String>,
    contacts: Vec<String>,
    encryptions: Vec<String>,
    expires: Option<Timestamp>,
    hiring: Vec<String>,
    policies: Vec<String>,
    preferred_languages: Option<Vec<String>>,
    extensions: Vec<(String, String)>,
}

impl Gathered {
    spec fn tally(&self) -> Tally {
        Tally {
            acknowledgments: texts(self.acknowledgments@),
            canonical: texts(self.canonical@),
            contacts: texts(self.contacts@),
            encryptions: texts(self.encryptions@),
            expires: self.expires,
            hiring: texts(self.hiring@),
            policies: texts(self.policies@),
            preferred_languages: match self.preferred_languages {
                Some(l) => Some(texts(l@)),
                None => None,
            },
            extensions: pairs(self.extensions@),
        }
    }

    fn new() -> (r: Gathered)
        ensures
            r.tally() == empty_tally(),
    {
        let r = Gathered {
            acknowledgments: Vec::new(),
            canonical: Vec::new(),
            contacts: Vec::new(),
            encryptions: Vec::new(),
            expires: None,
            hiring: Vec::new(),
            policies: Vec::new(),
            preferred_languages: None,
            extensions: Vec::new(),
        };
        assert(texts(r.contacts@) == Seq::<Seq<char>>::empty());
        assert(pairs(r.extensions@) == Seq::<(Seq<char>, Seq<char>)>::empty());
        r
    }

    fn step(self, f: Field) -> (r: Result<Gathered, ParseError>)
        ensures
            match r {
                Ok(g) => step(self.tally(), f@) == Ok::<Tally, ParseErrorView>(g.tally()),
                Err(e) => step(self.tally(), f@) == Err::<Tally, ParseErrorView>(e@),
            },
    {
        let mut g = self;
        match f {
            Field::Acknowledgments(u) => {
                push_text(&mut g.acknowledgments, u);
            },
            Field::Canonical(u) => {
                push_text(&mut g.canonical, u);
            },
            Field::Contact(u) => {
                push_text(&mut g.contacts, u);
            },
            Field::Encryption(u) => {
                push_text(&mut g.encryptions, u);
            },
            Field::Expires(x) => {
                if g.expires.is_some() {
                    return Err(ParseError::bare(ParseErrorKind::DuplicateExpires));
                }
                g.expires = Some(x);
            },
            Field::Hiring(u) => {
                push_text(&mut g.hiring, u);
            },
            Field::Policy(u) => {
                push_text(&mut g.policies, u);
            },
            Field::PreferredLanguages(tags) => {
                if g.preferred_languages.is_some() {
                    return Err(ParseError::bare(ParseErrorKind::DuplicatePreferredLanguages));
                }
                g.preferred_languages = Some(tags);
            },
            Field::Extension(n, v) => {
                let ghost before = pairs(g.extensions@);
                let ghost pair = (n@, v@);
                g.extensions.push((n, v));
                assert(pairs(g.extensions@) == before.push(pair));
            },
        }
        Ok(g)
    }
}

fn push_text(v: &mut Vec<String>, s: String)
    ensures
        texts(final(v)@) == texts(old(v)@).push(s@),
{
    v.push(s);
    assert(texts(final(v)@) == texts(old(v)@).push(s@));
}

/// A validated document: at least one contact, exactly one expiry, at most
/// one list of preferred languages, and every other field in the order of
/// its lines.
#[derive(Debug, PartialEq, Eq)]
pub struct SecurityTxt {
    acknowledgments: Vec<String>,
    canonical: Vec<String>,
    contacts: Vec<String>,
    encryptions: Vec<String>,
    expires: Timestamp,
    hiring: Vec<String>,
    policies: Vec<String>,
    preferred_languages: Vec<String>,
    extensions: Vec<(String, String)>,
}

impl SecurityTxt {
    /// At least one contact is always present.
    #[verifier::type_invariant]
    spec fn has_contact(&self) -> bool {
        self.contacts.len() > 0
    }

    /// The URLs of the Acknowledgments fields, in line order.
    pub fn acknowledgments(&self) -> (r: &Vec<String>)
        ensures
            texts(r@) == self@.acknowledgments,
    {
        &self.acknowledgments
    }

    /// The URLs of the Canonical fields, in line order.
    pub fn canonical(&self) -> (r: &Vec<String>)
        ensures
            texts(r@) == self@.canonical,
    {
        &self.canonical
    }

    /// The URLs of the Contact fields, in line order; never empty.
    pub fn contacts(&self) -> (r: &Vec<String>)
        ensures
            texts(r@) == self@.contacts,
            r@.len() > 0,
    {
        proof {
            use_type_invariant(self);
        }
        &self.contacts
    }

    /// The first Contact field's URL.
    pub fn primary_contact(&self) -> (r: &String)
        ensures
            r@ == self@.contacts[0],
    {
        proof {
            use_type_invariant(self);
        }
        &self.contacts[0]
    }

    /// The URLs of the Encryption fields, in line order.
    pub fn encryptions(&self) -> (r: &Vec<String>)
        ensures
            texts(r@) == self@.encryptions,
    {
        &self.encryptions
    }

    /// The instant of the Expires field, with its offset.
    pub fn expires(&self) -> (r: Timestamp)
        ensures
            r == self@.expires,
    {
        self.expires
    }

    /// The URLs of the Hiring fields, in line order.
    pub fn hiring(&self) -> (r: &Vec<String>)
        ensures
            texts(r@) == self@.hiring,
    {
        &self.hiring
    }

    /// The URLs of the Policy fields, in line order.
    pub fn policies(&self) -> (r: &Vec<String>)
        ensures
            texts(r@) == self@.policies,
    {
        &self.policies
    }

    /// The tags of the Preferred-Languages field; empty when it is absent.
    pub fn preferred_languages(&self) -> (r: &Vec<String>)
        ensures
            texts(r@) == self@.preferred_languages,
    {
        &self.preferred_languages
    }

    /// The extension fields as (name, value), in line order.
    pub fn extensions(&self) -> (r: &Vec<(String, String)>)
        ensures
            pairs(r@) == self@.extensions,
    {
        &self.extensions
    }
}

impl View for SecurityTxt {
    type V = SecurityTxtView;

    closed spec fn view(&self) -> SecurityTxtView {
        SecurityTxtView {
            acknowledgments: texts(self.acknowledgments@),
            canonical: texts(self.canonical@),
            contacts: texts(self.contacts@),
            encryptions: texts(self.encryptions@),
            expires: self.expires,
            hiring: texts(self.hiring@),
            policies: texts(self.policies@),
            preferred_languages: texts(self.preferred_languages@),
            extensions: pairs(self.extensions@),
        }
    }
}

/// The model of a document result.
pub open spec fn document_result_view(r: Result<SecurityTxt, ParseError>) -> Result<SecurityTxtView, ParseErrorView> {
    match r {
        Ok(d) => Ok(d@),
        Err(e) => Err(e@),
    }
}

/// Folds a field stream into a document; the first error in the stream, or
/// the first refused field, ends the fold and is returned.
pub fn aggregate(fields: Vec<Result<Field, ParseError>>) -> (r: Result<SecurityTxt, ParseError>)
    ensures
        document_result_view(r) == document_of_entries(entries_view(fields@)),
{
    let ghost es = entries_view(fields@);
    let mut rest = fields;
    let mut g = Gathered::new();
    let n = rest.len();
    let mut i: usize = 0;
    while i < n
        invariant
            n == es.len(),
            es == entries_view(fields@),
            i <= n,
            entries_view(rest@) == es.skip(i as int),
            rest@.len() == n - i,
            fold_from(empty_tally(), es.take(i as int)) == Ok::<Tally, ParseErrorView>(g.tally()),
        decreases n - i,
    {
        let ghost before = rest@;
        assert(entries_view(before)[0] == es[i as int]);
        let entry = rest.remove(0);
        assert(rest@ == before.subrange(1, before.len() as int));
        assert forall|j: int| 0 <= j < rest@.len() implies entries_view(rest@)[j] == es.skip(
            i as int + 1,
        )[j] by {
            assert(entries_view(before)[j + 1] == es.skip(i as int)[j + 1]);
        }
        assert(entries_view(rest@) =~= es.skip(i as int + 1));
        assert(es.take(i as int + 1).drop_last() == es.take(i as int));
        assert(es.take(i as int + 1).last() == es[i as int]);
        match entry {
            Err(e) => {
                proof {
                    lemma_fold_error_stays(empty_tally(), es, i as int);
                }
                return Err(e);
            },
            Ok(f) => match g.step(f) {
                Ok(next) => {
                    g = next;
                },
                Err(e) => {
                    proof {
                        lemma_fold_error_stays(empty_tally(), es, i as int);
                    }
                    return Err(e);
                },
            },
        }
        i = i + 1;
    }
    assert(es.take(n as int) == es);
    if g.contacts.len() == 0 {
        return Err(ParseError::bare(ParseErrorKind::MissingContact));
    }
    match g.expires {
        None => Err(ParseError::bare(ParseErrorKind::MissingExpires)),
        Some(expires) => {
            let preferred_languages = match g.preferred_languages {
                Some(l) => l,
                None => Vec::new(),
            };
            assert(texts(preferred_languages@) == match g.tally().preferred_languages {
                Some(l) => l,
                None => Seq::<Seq<char>>::empty(),
            });
            Ok(SecurityTxt {
                acknowledgments: g.acknowledgments,
                canonical: g.canonical,
                contacts: g.contacts,
                encryptions: g.encryptions,
                expires,
                hiring: g.hiring,
                policies: g.policies,
                preferred_languages,
                extensions: g.extensions,
            })
        },
    }
}

/// Once the fold over a prefix fails, the fold over the whole fails the
/// same way.
pub proof fn lemma_fold_error_stays(start: Tally, es: Seq<Result<FieldView, ParseErrorView>>, k: int)
    requires
        0 <= k < es.len(),
        fold_from(start, es.take(k + 1)) is Err,
    ensures
        fold_from(start, es) == fold_from(start, es.take(k + 1)),
    decreases es.len() - k,
{
    if k + 1 == es.len() {
        assert(es.take(k + 1) == es);
    } else {
        assert(es.take(k + 2).drop_last() == es.take(k + 1));
        lemma_fold_error_stays(start, es, k + 1);
    }
}

/// Parses a whole document: the fields of its lines, folded.
pub fn parse(text: &str) -> (r: Result<SecurityTxt, ParseError>)
    ensures
        document_result_view(r) == document_of(text@),
{
    aggregate(parse_fields(text))
}

impl std::str::FromStr for SecurityTxt {
    type Err = ParseError;

    fn from_str(s: &str) -> (r: Result<SecurityTxt, ParseError>)
        ensures
            document_result_view(r) == document_of(s@),
    {
        parse(s)
    }
}

} // verus!

//! Character-level splitting of text: the first occurrence of a character,
//! the pieces between separators, and the lines of a document.

use vstd::prelude::*;

verus! {

/// The index of the first occurrence of `c` in `s`, if any.
pub open spec fn index_of(s: Seq<char>, c: char) -> Option<int>
    decreases s.len(),
{
    if s.len() == 0 {
        None
    } else {
        match index_of(s.drop_last(), c) {
            Some(i) => Some(i),
            None => if s.last() == c {
                Some(s.len() - 1)
            } else {
                None
            },
        }
    }
}

/// The pieces of `s` between occurrences of `c`: one more piece than there
/// are separators, each possibly empty.
pub open spec fn split_on(s: Seq<char>, c: char) -> Seq<Seq<char>>
    decreases s.len(),
{
    if s.len() == 0 {
        seq![Seq::<char>::empty()]
    } else {
        let p = split_on(s.drop_last(), c);
        if s.last() == c {
            p.push(Seq::<char>::empty())
        } else {
            p.update(p.len() - 1, p.last().push(s.last()))
        }
    }
}

/// A line that was ended by a newline loses one trailing carriage return.
pub open spec fn strip_cr(s: Seq<char>) -> Seq<char> {
    if s.len() > 0 && s.last() == '\r' {
        s.drop_last()
    } else {
        s
    }
}

/// The lines of a text: the pieces between newlines, each without a final
/// carriage return, where a newline at the very end opens no further line.
pub open spec fn lines_of(s: Seq<char>) -> Seq<Seq<char>> {
    let p = split_on(s, '\n');
    let ended = p.drop_last().map_values(|l: Seq<char>| strip_cr(l));
    if p.last().len() == 0 {
        ended
    } else {
        ended.push(p.last())
    }
}

/// There is always at least one piece.
pub proof fn lemma_split_on_len(s: Seq<char>, c: char)
    ensures
        split_on(s, c).len() >= 1,
    decreases s.len(),
{
    if s.len() > 0 {
        lemma_split_on_len(s.drop_last(), c);
    }
}

/// What `index_of` finds is an occurrence, and none comes before it.
pub proof fn lemma_index_of(s: Seq<char>, c: char)
    ensures
        match index_of(s, c) {
            Some(i) => 0 <= i < s.len() && s[i] == c && forall|j: int| 0 <= j < i ==> s[j] != c,
            None => forall|j: int| 0 <= j < s.len() ==> s[j] != c,
        },
    decreases s.len(),
{
    if s.len() > 0 {
        let t = s.drop_last();
        lemma_index_of(t, c);
        assert(forall|j: int| 0 <= j < t.len() ==> t[j] == s[j]);
    }
}

/// A first occurrence in a prefix is the first occurrence in the whole.
pub proof fn lemma_index_of_prefix(s: Seq<char>, c: char, k: int)
    requires
        0 <= k <= s.len(),
        index_of(s.take(k), c) is Some,
    ensures
        index_of(s, c) == index_of(s.take(k), c),
    decreases s.len() - k,
{
    if k == s.len() {
        assert(s.take(k) == s);
    } else {
        assert(s.take(k + 1).drop_last() == s.take(k));
        lemma_index_of_prefix(s, c, k + 1);
    }
}

/// The first index of `c` in `s`.
pub fn find_char(s: &str, c: char) -> (r: Option<usize>)
    ensures
        match r {
            Some(i) => index_of(s@, c) == Some(i as int) && i < s@.len(),
            None => index_of(s@, c) is None,
        },
{
    let n = s.unicode_len();
    let mut i: usize = 0;
    while i < n
        invariant
            n == s@.len(),
            i <= n,
            index_of(s@.take(i as int), c) is None,
        decreases n - i,
    {
        assert(s@.take(i as int + 1).drop_last() == s@.take(i as int));
        if s.get_char(i) == c {
            proof {
                lemma_index_of_prefix(s@, c, i as int + 1);
                lemma_index_of(s@, c);
            }
            return Some(i);
        }
        i = i + 1;
    }
    assert(s@.take(n as int) == s@);
    None
}

/// The pieces of `s` between occurrences of `c`.
pub fn split_char<'a>(s: &'a str, c: char) -> (r: Vec<&'a str>)
    ensures
        r@.map_values(|p: &str| p@) == split_on(s@, c),
{
    let n = s.unicode_len();
    let mut pieces: Vec<&'a str> = Vec::new();
    let mut start: usize = 0;
    let mut i: usize = 0;
    assert(s@.take(0) == Seq::<char>::empty());
    assert(pieces@.map_values(|p: &str| p@).push(s@.subrange(0, 0)) == seq![Seq::<char>::empty()]);
    while i < n
        invariant
            n == s@.len(),
            start <= i <= n,
            pieces@.map_values(|p: &str| p@).push(s@.subrange(start as int, i as int))
                == split_on(s@.take(i as int), c),
        decreases n - i,
    {
        let ghost prev = pieces@.map_values(|p: &str| p@);
        assert(s@.take(i as int + 1).drop_last() == s@.take(i as int));
        proof {
            lemma_split_on_len(s@.take(i as int), c);
        }
        if s.get_char(i) == c {
            pieces.push(s.substring_char(start, i));
            assert(pieces@.map_values(|p: &str| p@) == prev.push(s@.subrange(start as int, i as int)));
            start = i + 1;
            assert(s@.subrange(start as int, i as int + 1) == Seq::<char>::empty());
        } else {
            assert(s@.subrange(start as int, i as int + 1) == s@.subrange(start as int, i as int).push(s@[i as int]));
        }
        i = i + 1;
    }
    pieces.push(s.substring_char(start, n));
    assert(s@.take(n as int) == s@);
    pieces
}

/// The lines of `s`, as the standard library's `str::lines` yields them.
pub fn lines<'a>(s: &'a str) -> (r: Vec<&'a str>)
    ensures
        r@.map_values(|l: &str| l@) == lines_of(s@),
{
    let pieces = split_char(s, '\n');
    let ghost p = split_on(s@, '\n');
    proof {
        lemma_split_on_len(s@, '\n');
    }
    assert(pieces@.len() == p.len());
    let mut out: Vec<&'a str> = Vec::new();
    let mut k: usize = 0;
    while k < pieces.len() - 1
        invariant
            pieces@.map_values(|q: &str| q@) == p,
            p.len() >= 1,
            k + 1 <= p.len(),
            out@.map_values(|l: &str| l@) == p.take(k as int).map_values(|l: Seq<char>| strip_cr(l)),
        decreases p.len() - k,
    {
        let piece = pieces[k];
        assert(piece@ == p[k as int]);
        let m = piece.unicode_len();
        let line = if m > 0 && piece.get_char(m - 1) == '\r' {
            piece.substring_char(0, m - 1)
        } else {
            piece
        };
        assert(line@ == strip_cr(p[k as int]));
        let ghost before = out@.map_values(|l: &str| l@);
        out.push(line);
        assert(out@.map_values(|l: &str| l@) == before.push(line@));
        assert(p.take(k as int + 1) == p.take(k as int).push(p[k as int]));
        k = k + 1;
    }
    assert(p.take(k as int) == p.drop_last());
    let last = pieces[k];
    assert(last@ == p.last());
    if last.unicode_len() > 0 {
        let ghost before = out@.map_values(|l: &str| l@);
        out.push(last);
        assert(out@.map_values(|l: &str| l@) == before.push(last@));
    }
    out
}

} // verus!

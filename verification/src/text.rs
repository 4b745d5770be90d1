//! Cutting text at separators.

use vstd::prelude::*;
use vstd::string::*;

verus! {

/// The characters that carry the Unicode property `White_Space`.
pub open spec fn is_whitespace(c: char) -> bool {
    ||| '\u{9}' <= c <= '\u{d}'
    ||| c == ' '
    ||| c == '\u{85}'
    ||| c == '\u{a0}'
    ||| c == '\u{1680}'
    ||| '\u{2000}' <= c <= '\u{200a}'
    ||| c == '\u{2028}'
    ||| c == '\u{2029}'
    ||| c == '\u{202f}'
    ||| c == '\u{205f}'
    ||| c == '\u{3000}'
}

/// Tells whether `c` is white space.
pub fn char_is_whitespace(c: char) -> (b: bool)
    ensures
        b == is_whitespace(c),
{
    ('\u{9}' <= c && c <= '\u{d}') || c == ' ' || c == '\u{85}' || c == '\u{a0}' || c
        == '\u{1680}' || ('\u{2000}' <= c && c <= '\u{200a}') || c == '\u{2028}' || c
        == '\u{2029}' || c == '\u{202f}' || c == '\u{205f}' || c == '\u{3000}'
}

/// What a text is cut at.
#[derive(Clone, Copy, Debug, PartialEq, Eq)]
pub enum Separator {
    /// The slash between the components of a path.
    Slash,
    /// The line feed that ends a line.
    LineFeed,
    /// Any white space.
    Whitespace,
}

impl Separator {
    /// Whether a text is cut at `c`.
    pub open spec fn cuts(self, c: char) -> bool {
        match self {
            Separator::Slash => c == '/',
            Separator::LineFeed => c == '\n',
            Separator::Whitespace => is_whitespace(c),
        }
    }

    /// Tells whether a text is cut at `c`.
    pub fn cuts_at(&self, c: char) -> (b: bool)
        ensures
            b == self.cuts(c),
    {
        match self {
            Separator::Slash => c == '/',
            Separator::LineFeed => c == '\n',
            Separator::Whitespace => char_is_whitespace(c),
        }
    }
}

/// The pieces that `s` falls into when every separator is taken out: one
/// more than `s` holds separators, empty where two separators meet and
/// where `s` begins or ends with one.
pub open spec fn pieces(s: Seq<char>, sep: Separator) -> Seq<Seq<char>>
    decreases s.len(),
{
    if s.len() == 0 {
        seq![Seq::empty()]
    } else {
        let before = pieces(s.drop_last(), sep);
        if sep.cuts(s.last()) {
            before.push(Seq::empty())
        } else {
            before.drop_last().push(before.last().push(s.last()))
        }
    }
}

/// Those of `parts` that are not empty, in their order.
pub open spec fn non_empty(parts: Seq<Seq<char>>) -> Seq<Seq<char>>
    decreases parts.len(),
{
    if parts.len() == 0 {
        Seq::empty()
    } else if parts.last().len() == 0 {
        non_empty(parts.drop_last())
    } else {
        non_empty(parts.drop_last()).push(parts.last())
    }
}

/// The words of `s`: its maximal runs of characters that are not white
/// space.
pub open spec fn words(s: Seq<char>) -> Seq<Seq<char>> {
    non_empty(pieces(s, Separator::Whitespace))
}

/// The characters of `s`, one by one.
pub fn chars_of(s: &str) -> (found: Vec<char>)
    ensures
        found@ == s@,
{
    let mut found: Vec<char> = Vec::new();
    for c in it: s.chars()
        invariant
            it.seq() == s@,
            found@ == it.seq().take(it.index() as int),
    {
        found.push(c);
        assert(it.seq().take(it.index() + 1) =~= it.seq().take(it.index() as int).push(c));
    }
    assert(s@.take(s@.len() as int) =~= s@);
    found
}

/// Cuts `s` into its pieces.
pub fn split(s: &str, sep: Separator) -> (parts: Vec<String>)
    ensures
        parts.deep_view() == pieces(s@, sep),
{
    let chars = chars_of(s);
    let n = chars.len();
    let mut parts: Vec<String> = Vec::new();
    let mut start: usize = 0;
    let mut i: usize = 0;
    assert(s@.take(0) =~= Seq::<char>::empty());
    assert(parts.deep_view().push(s@.subrange(0, 0)) =~= seq![Seq::<char>::empty()]);
    while i < n
        invariant
            n == s@.len(),
            chars@ == s@,
            start <= i <= n,
            pieces(s@.take(i as int), sep) == parts.deep_view().push(
                s@.subrange(start as int, i as int),
            ),
        decreases n - i,
    {
        let c = chars[i];
        let ghost done = parts.deep_view();
        let ghost current = s@.subrange(start as int, i as int);
        assert(s@.take(i + 1).drop_last() =~= s@.take(i as int));
        assert(s@.take(i + 1).last() == c);
        if sep.cuts_at(c) {
            parts.push(String::from_str(s.substring_char(start, i)));
            start = i + 1;
            assert(parts.deep_view() =~= done.push(current));
            assert(s@.subrange(start as int, i + 1) =~= Seq::<char>::empty());
        } else {
            assert(done.push(current).drop_last() =~= done);
            assert(current.push(c) =~= s@.subrange(start as int, i + 1));
        }
        i += 1;
    }
    assert(s@.take(n as int) =~= s@);
    let ghost done = parts.deep_view();
    parts.push(String::from_str(s.substring_char(start, n)));
    assert(parts.deep_view() =~= done.push(s@.subrange(start as int, n as int)));
    parts
}

/// Tells whether two texts hold the same characters.
pub fn same_text(a: &str, b: &str) -> (same: bool)
    ensures
        same == (a@ == b@),
{
    String::from_str(a) == String::from_str(b)
}

/// Whether `s` begins with a full stop.
pub open spec fn starts_with_dot(s: Seq<char>) -> bool {
    s.len() > 0 && s[0] == '.'
}

/// Tells whether `s` begins with a full stop.
pub fn begins_with_dot(s: &str) -> (b: bool)
    ensures
        b == starts_with_dot(s@),
{
    s.unicode_len() > 0 && s.get_char(0) == '.'
}

/// Whether `s` ends with a slash.
pub open spec fn ends_with_slash(s: Seq<char>) -> bool {
    s.len() > 0 && s.last() == '/'
}

/// Tells whether `s` ends with a slash.
pub fn ends_in_slash(s: &str) -> (b: bool)
    ensures
        b == ends_with_slash(s@),
{
    let n = s.unicode_len();
    n > 0 && s.get_char(n - 1) == '/'
}

/// Cuts `s` into its words.
pub fn split_words(s: &str) -> (found: Vec<String>)
    ensures
        found.deep_view() == words(s@),
{
    let parts = split(s, Separator::Whitespace);
    let ghost all = parts.deep_view();
    let mut found: Vec<String> = Vec::new();
    let mut i: usize = 0;
    assert(all.take(0) =~= Seq::<Seq<char>>::empty());
    assert(found.deep_view() =~= Seq::<Seq<char>>::empty());
    while i < parts.len()
        invariant
            i <= parts.len(),
            all == parts.deep_view(),
            found.deep_view() == non_empty(all.take(i as int)),
        decreases parts.len() - i,
    {
        let part = parts[i].as_str();
        let ghost before = found.deep_view();
        assert(all.take(i + 1).drop_last() =~= all.take(i as int));
        assert(all.take(i + 1).last() == part@);
        if part.unicode_len() > 0 {
            found.push(String::from_str(part));
            assert(found.deep_view() =~= before.push(part@));
        }
        i += 1;
    }
    assert(all.take(parts.len() as int) =~= all);
    found
}

/// A text always falls into at least one piece.
pub proof fn lemma_pieces_not_empty(s: Seq<char>, sep: Separator)
    ensures
        pieces(s, sep).len() >= 1,
    decreases s.len(),
{
    if s.len() > 0 {
        lemma_pieces_not_empty(s.drop_last(), sep);
    }
}

/// A text that is cut at `c` falls into the pieces of what stands before
/// `c`, followed by the pieces of what stands after it.
pub proof fn lemma_pieces_concat(a: Seq<char>, c: char, b: Seq<char>, sep: Separator)
    requires
        sep.cuts(c),
    ensures
        pieces(a + seq![c] + b, sep) == pieces(a, sep) + pieces(b, sep),
    decreases b.len(),
{
    let s = a + seq![c] + b;
    if b.len() == 0 {
        assert(s.drop_last() =~= a);
        assert(pieces(a, sep) + pieces(b, sep) =~= pieces(a, sep).push(Seq::empty()));
    } else {
        let shorter = b.drop_last();
        assert(s.drop_last() =~= a + seq![c] + shorter);
        lemma_pieces_concat(a, c, shorter, sep);
        lemma_pieces_not_empty(shorter, sep);
        let left = pieces(a, sep);
        let right = pieces(shorter, sep);
        if sep.cuts(b.last()) {
            assert((left + right).push(Seq::empty()) =~= left + right.push(Seq::empty()));
        } else {
            assert((left + right).drop_last() =~= left + right.drop_last());
            assert((left + right).drop_last().push((left + right).last().push(b.last())) =~= left
                + right.drop_last().push(right.last().push(b.last())));
        }
    }
}

/// A text that holds no separator is its own single piece.
pub proof fn lemma_pieces_of_uncut(s: Seq<char>, sep: Separator)
    requires
        forall|i: int| 0 <= i < s.len() ==> !sep.cuts(#[trigger] s[i]),
    ensures
        pieces(s, sep) == seq![s],
    decreases s.len(),
{
    if s.len() == 0 {
        assert(s =~= Seq::<char>::empty());
    } else {
        lemma_pieces_of_uncut(s.drop_last(), sep);
        assert(s.drop_last().push(s.last()) =~= s);
        assert(seq![s.drop_last()].drop_last().push(s.drop_last().push(s.last())) =~= seq![s]);
    }
}

/// No piece holds a separator.
pub proof fn lemma_pieces_hold_no_separator(s: Seq<char>, sep: Separator)
    ensures
        forall|i: int, j: int|
            0 <= i < pieces(s, sep).len() && 0 <= j < pieces(s, sep)[i].len() ==> !sep.cuts(
                #[trigger] pieces(s, sep)[i][j],
            ),
    decreases s.len(),
{
    if s.len() > 0 {
        lemma_pieces_hold_no_separator(s.drop_last(), sep);
        lemma_pieces_not_empty(s.drop_last(), sep);
        let before = pieces(s.drop_last(), sep);
        assert forall|i: int, j: int|
            0 <= i < pieces(s, sep).len() && 0 <= j < pieces(s, sep)[i].len() implies !sep.cuts(
            #[trigger] pieces(s, sep)[i][j],
        ) by {
            if i < before.len() - 1 {
                assert(pieces(s, sep)[i] == before[i]);
                assert(!sep.cuts(before[i][j]));
            } else if !sep.cuts(s.last()) && j < before.last().len() {
                assert(pieces(s, sep)[i][j] == before[before.len() - 1][j]);
                assert(!sep.cuts(before[before.len() - 1][j]));
            } else if sep.cuts(s.last()) && i == before.len() - 1 {
                assert(pieces(s, sep)[i] == before[i]);
                assert(!sep.cuts(before[i][j]));
            }
        }
    }
}

/// Every word holds a character, and none that is white space.
pub proof fn lemma_words_are_runs(s: Seq<char>)
    ensures
        forall|i: int| 0 <= i < words(s).len() ==> (#[trigger] words(s)[i]).len() > 0,
        forall|i: int, j: int|
            0 <= i < words(s).len() && 0 <= j < words(s)[i].len() ==> !is_whitespace(
                #[trigger] words(s)[i][j],
            ),
{
    lemma_pieces_hold_no_separator(s, Separator::Whitespace);
    lemma_non_empty_keeps(pieces(s, Separator::Whitespace));
    let parts = pieces(s, Separator::Whitespace);
    assert forall|i: int, j: int|
        0 <= i < words(s).len() && 0 <= j < words(s)[i].len() implies !is_whitespace(
        #[trigger] words(s)[i][j],
    ) by {
        let k = choose|k: int| 0 <= k < parts.len() && parts[k] == words(s)[i];
        assert(!Separator::Whitespace.cuts(parts[k][j]));
    }
}

/// What `non_empty` keeps is not empty and stood in the list.
pub proof fn lemma_non_empty_keeps(parts: Seq<Seq<char>>)
    ensures
        forall|i: int|
            0 <= i < non_empty(parts).len() ==> (#[trigger] non_empty(parts)[i]).len() > 0
                && exists|k: int| 0 <= k < parts.len() && parts[k] == non_empty(parts)[i],
    decreases parts.len(),
{
    if parts.len() > 0 {
        let shorter = parts.drop_last();
        lemma_non_empty_keeps(shorter);
        assert forall|i: int| 0 <= i < non_empty(parts).len() implies (#[trigger] non_empty(
            parts,
        )[i]).len() > 0 && exists|k: int| 0 <= k < parts.len() && parts[k] == non_empty(parts)[i] by {
            if i < non_empty(shorter).len() {
                assert(non_empty(parts)[i] == non_empty(shorter)[i]);
                let k = choose|k: int| 0 <= k < shorter.len() && shorter[k] == non_empty(shorter)[i];
                assert(parts[k] == non_empty(parts)[i]);
            } else {
                assert(parts[parts.len() - 1] == non_empty(parts)[i]);
            }
        }
    }
}

} // verus!

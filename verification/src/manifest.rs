//! Manifests: the text files in which a mission lists the libraries it
//! needs, one to a line, as `USER REPO VERSION [LIBNAME]`.

use vstd::prelude::*;
use crate::text::{
    lemma_pieces_concat, lemma_pieces_of_uncut, pieces, split, split_words, words, Separator,
};

verus! {

/// One line of a manifest that asks for a library.
#[derive(Clone, Debug, PartialEq, Eq)]
pub struct ManifestLine {
    /// The owner of the repository.
    pub user: String,
    /// The repository that released the library.
    pub repo: String,
    /// The tag of the release.
    pub version: String,
    /// The name of the library: the fourth word, or the repository's name
    /// where the line has only three.
    pub lib: String,
}

/// A `ManifestLine` as sequences of characters.
pub struct ManifestLineView {
    pub user: Seq<char>,
    pub repo: Seq<char>,
    pub version: Seq<char>,
    pub lib: Seq<char>,
}

impl View for ManifestLine {
    type V = ManifestLineView;

    open spec fn view(&self) -> ManifestLineView {
        ManifestLineView {
            user: self.user@,
            repo: self.repo@,
            version: self.version@,
            lib: self.lib@,
        }
    }
}

impl DeepView for ManifestLine {
    type V = ManifestLineView;

    open spec fn deep_view(&self) -> ManifestLineView {
        self.view()
    }
}

/// What `line` asks for: nothing where it has fewer than three words,
/// else the library that its first three or four words name. Words after
/// the fourth are ignored.
pub open spec fn parsed_line(line: Seq<char>) -> Option<ManifestLineView> {
    let found = words(line);
    if found.len() < 3 {
        None
    } else {
        Some(
            ManifestLineView {
                user: found[0],
                repo: found[1],
                version: found[2],
                lib: if found.len() > 3 {
                    found[3]
                } else {
                    found[1]
                },
            },
        )
    }
}

/// What `lines` ask for, in their order.
pub open spec fn resolved_lines(lines: Seq<Seq<char>>) -> Seq<ManifestLineView>
    decreases lines.len(),
{
    if lines.len() == 0 {
        Seq::empty()
    } else {
        let before = resolved_lines(lines.drop_last());
        match parsed_line(lines.last()) {
            Some(line) => before.push(line),
            None => before,
        }
    }
}

/// What the manifest `text` asks for: what its lines ask for, a line
/// ending at each line feed.
pub open spec fn resolved(text: Seq<char>) -> Seq<ManifestLineView> {
    resolved_lines(pieces(text, Separator::LineFeed))
}

/// Reads one line of a manifest.
pub fn parse_manifest_line(line: &str) -> (r: Option<ManifestLine>)
    ensures
        r.deep_view() == parsed_line(line@),
{
    let found = split_words(line);
    if found.len() < 3 {
        return None;
    }
    let lib = if found.len() > 3 {
        found[3].clone()
    } else {
        found[1].clone()
    };
    Some(
        ManifestLine {
            user: found[0].clone(),
            repo: found[1].clone(),
            version: found[2].clone(),
            lib,
        },
    )
}

/// Reads a manifest.
pub fn resolve(text: &str) -> (found: Vec<ManifestLine>)
    ensures
        found.deep_view() == resolved(text@),
{
    let lines = split(text, Separator::LineFeed);
    let ghost all = lines.deep_view();
    let mut found: Vec<ManifestLine> = Vec::new();
    let mut i: usize = 0;
    assert(all.take(0) =~= Seq::<Seq<char>>::empty());
    assert(found.deep_view() =~= Seq::<ManifestLineView>::empty());
    while i < lines.len()
        invariant
            i <= lines.len(),
            all == lines.deep_view(),
            found.deep_view() == resolved_lines(all.take(i as int)),
        decreases lines.len() - i,
    {
        let ghost before = found.deep_view();
        assert(all.take(i + 1).drop_last() =~= all.take(i as int));
        assert(all.take(i + 1).last() == lines[i as int]@);
        match parse_manifest_line(lines[i].as_str()) {
            Some(line) => {
                found.push(line);
                assert(found.deep_view() =~= before.push(line@));
            },
            None => {},
        }
        i += 1;
    }
    assert(all.take(lines.len() as int) =~= all);
    found
}

/// What two lists of lines ask for is what the first asks for, followed by
/// what the second asks for.
pub proof fn lemma_resolved_lines_concat(a: Seq<Seq<char>>, b: Seq<Seq<char>>)
    ensures
        resolved_lines(a + b) == resolved_lines(a) + resolved_lines(b),
    decreases b.len(),
{
    if b.len() == 0 {
        assert(a + b =~= a);
        assert(resolved_lines(a) + resolved_lines(b) =~= resolved_lines(a));
    } else {
        assert((a + b).drop_last() =~= a + b.drop_last());
        lemma_resolved_lines_concat(a, b.drop_last());
        match parsed_line(b.last()) {
            Some(line) => {
                assert((resolved_lines(a) + resolved_lines(b.drop_last())).push(line)
                    =~= resolved_lines(a) + resolved_lines(b.drop_last()).push(line));
            },
            None => {},
        }
    }
}

/// Each line is read by itself: a manifest asks for what stands before one
/// of its line feeds asks for, followed by what stands after it asks for.
pub proof fn lemma_lines_are_independent(before: Seq<char>, after: Seq<char>)
    ensures
        resolved(before + seq!['\n'] + after) == resolved(before) + resolved(after),
{
    lemma_pieces_concat(before, '\n', after, Separator::LineFeed);
    lemma_resolved_lines_concat(
        pieces(before, Separator::LineFeed),
        pieces(after, Separator::LineFeed),
    );
}

/// A single line asks for what `parsed_line` finds in it.
pub proof fn lemma_single_line(line: Seq<char>)
    requires
        forall|i: int| 0 <= i < line.len() ==> #[trigger] line[i] != '\n',
    ensures
        resolved(line) == match parsed_line(line) {
            Some(found) => seq![found],
            None => Seq::empty(),
        },
{
    lemma_pieces_of_uncut(line, Separator::LineFeed);
    reveal_with_fuel(resolved_lines, 2);
    assert(seq![line].drop_last() =~= Seq::<Seq<char>>::empty());
    assert(Seq::<ManifestLineView>::empty().push(parsed_line(line).unwrap()) =~= seq![
        parsed_line(line).unwrap(),
    ]);
}

/// A line with fewer than three words asks for nothing, and the lines
/// around it are read as if it were not there.
pub proof fn lemma_short_line_is_ignored(before: Seq<char>, line: Seq<char>, after: Seq<char>)
    requires
        forall|i: int| 0 <= i < line.len() ==> #[trigger] line[i] != '\n',
        words(line).len() < 3,
    ensures
        resolved(line) == Seq::<ManifestLineView>::empty(),
        resolved(before + seq!['\n'] + line + seq!['\n'] + after) == resolved(
            before + seq!['\n'] + after,
        ),
{
    lemma_single_line(line);
    lemma_lines_are_independent(before + seq!['\n'] + line, after);
    lemma_lines_are_independent(before, line);
    lemma_lines_are_independent(before, after);
    assert(resolved(before) + Seq::<ManifestLineView>::empty() =~= resolved(before));
}

} // verus!

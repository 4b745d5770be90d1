//! Paths inside an archive: their components, and which of them are
//! unpacked.

use vstd::prelude::*;
use vstd::string::*;
use crate::text::{
    begins_with_dot, lemma_pieces_concat, lemma_pieces_hold_no_separator,
    lemma_pieces_not_empty, lemma_pieces_of_uncut, pieces, same_text, split, starts_with_dot,
    Separator,
};

verus! {

/// Name of the folder that holds a mission's documentation.
pub const DOCS_FOLDER: &'static str = "mkdocs";

/// Those of `parts` that name something: all but the empty ones and the
/// ones that are a single full stop.
pub open spec fn named(parts: Seq<Seq<char>>) -> Seq<Seq<char>>
    decreases parts.len(),
{
    if parts.len() == 0 {
        Seq::empty()
    } else if parts.last().len() == 0 || parts.last() == "."@ {
        named(parts.drop_last())
    } else {
        named(parts.drop_last()).push(parts.last())
    }
}

/// The components of `path`. A path that begins with a slash has the
/// component `/` first; one that begins with the piece `.` has `.` first.
/// After that come the pieces between its slashes that name something.
pub open spec fn components(path: Seq<char>) -> Seq<Seq<char>> {
    let parts = pieces(path, Separator::Slash);
    if path.len() > 0 && path[0] == '/' {
        seq!["/"@] + named(parts)
    } else if parts[0] == "."@ {
        seq!["."@] + named(parts)
    } else {
        named(parts)
    }
}

/// `parts` with a slash between each two.
pub open spec fn joined(parts: Seq<Seq<char>>) -> Seq<char>
    decreases parts.len(),
{
    if parts.len() == 0 {
        Seq::empty()
    } else if parts.len() == 1 {
        parts[0]
    } else {
        joined(parts.drop_last()) + "/"@ + parts.last()
    }
}

/// Cuts `path` into its components.
pub fn path_components(path: &str) -> (comps: Vec<String>)
    ensures
        comps.deep_view() == components(path@),
{
    let parts = split(path, Separator::Slash);
    proof {
        lemma_pieces_not_empty(path@, Separator::Slash);
    }
    let mut comps: Vec<String> = Vec::new();
    if path.unicode_len() > 0 && path.get_char(0) == '/' {
        comps.push(String::from_str("/"));
    } else if parts.len() > 0 && same_text(parts[0].as_str(), ".") {
        comps.push(String::from_str("."));
    }
    let ghost head = comps.deep_view();
    let ghost all = parts.deep_view();
    assert(all.take(0) =~= Seq::<Seq<char>>::empty());
    assert(comps.deep_view() =~= head + named(all.take(0)));
    let mut i: usize = 0;
    while i < parts.len()
        invariant
            i <= parts.len(),
            all == parts.deep_view(),
            comps.deep_view() == head + named(all.take(i as int)),
        decreases parts.len() - i,
    {
        let part = parts[i].as_str();
        let ghost before = comps.deep_view();
        assert(all.take(i + 1).drop_last() =~= all.take(i as int));
        assert(all.take(i + 1).last() == part@);
        if part.unicode_len() > 0 && !same_text(part, ".") {
            comps.push(String::from_str(part));
            assert(comps.deep_view() =~= before.push(part@));
            assert(head + named(all.take(i as int)).push(part@) =~= before.push(part@));
        }
        i += 1;
    }
    assert(all.take(parts.len() as int) =~= all);
    comps
}

/// Joins the components from index `from` up to, not including, index `to`.
pub fn join(parts: &Vec<String>, from: usize, to: usize) -> (text: String)
    requires
        from <= to <= parts.len(),
    ensures
        text@ == joined(parts.deep_view().subrange(from as int, to as int)),
{
    let mut text = String::new();
    let ghost all = parts.deep_view();
    let mut i: usize = from;
    assert(all.subrange(from as int, from as int) =~= Seq::<Seq<char>>::empty());
    while i < to
        invariant
            from <= i <= to <= parts.len(),
            all == parts.deep_view(),
            text@ == joined(all.subrange(from as int, i as int)),
        decreases to - i,
    {
        assert(all.subrange(from as int, i + 1).drop_last() =~= all.subrange(
            from as int,
            i as int,
        ));
        assert(all.subrange(from as int, i + 1).last() == parts[i as int]@);
        if i > from {
            text.append("/");
        } else {
            assert(text@ + parts[i as int]@ =~= parts[i as int]@);
        }
        text.append(parts[i].as_str());
        i += 1;
    }
    text
}

/// Why an entry is left out of what is unpacked.
#[derive(Clone, Copy, Debug, PartialEq, Eq, Structural)]
pub enum Skip {
    /// The archive gives the entry no path under which it may be unpacked.
    Unresolvable,
    /// Nothing is left of the path once its first component is dropped, or
    /// what is left ends in `..`.
    NoFileName,
    /// The file name or the parent directory begins with a full stop.
    Hidden,
    /// The entry lies in the documentation folder, and documentation was
    /// not asked for.
    Documentation,
}

/// An entry's path below the mission folder: the path in the archive
/// without its first component, the folder that wraps every snapshot.
#[derive(Clone, Debug, PartialEq, Eq)]
pub struct SanitizedPath {
    /// The directory that holds the file, empty for the mission folder
    /// itself.
    pub parent: String,
    /// The last component.
    pub file_name: String,
}

/// A `SanitizedPath` as two sequences of characters.
pub struct SanitizedPathView {
    pub parent: Seq<char>,
    pub file_name: Seq<char>,
}

impl View for SanitizedPath {
    type V = SanitizedPathView;

    open spec fn view(&self) -> SanitizedPathView {
        SanitizedPathView { parent: self.parent@, file_name: self.file_name@ }
    }
}

impl SanitizedPathView {
    /// Whether this is what the sanitizer hands out: the file name is one
    /// component, so it holds a character and no slash, and neither the
    /// file name nor the parent directory begins with a full stop.
    pub open spec fn well_formed(self) -> bool {
        &&& self.file_name.len() > 0
        &&& forall|i: int| 0 <= i < self.file_name.len() ==> self.file_name[i] != '/'
        &&& !starts_with_dot(self.file_name)
        &&& !starts_with_dot(self.parent)
    }
}

/// `parent` and `file_name` as one path.
pub open spec fn relative_path(parent: Seq<char>, file_name: Seq<char>) -> Seq<char> {
    if parent.len() == 0 {
        file_name
    } else {
        parent + "/"@ + file_name
    }
}

impl SanitizedPath {
    /// The path below the mission folder, parent and file name in one.
    pub fn relative(&self) -> (text: String)
        ensures
            text@ == relative_path(self.parent@, self.file_name@),
    {
        if self.parent.as_str().unicode_len() == 0 {
            self.file_name.clone()
        } else {
            let mut text = self.parent.clone();
            text.append("/");
            text.append(self.file_name.as_str());
            text
        }
    }
}

/// What is left of `path` once its first component is dropped.
pub open spec fn remainder(path: Seq<char>) -> Seq<Seq<char>> {
    let comps = components(path);
    if comps.len() == 0 {
        comps
    } else {
        comps.skip(1)
    }
}

/// The file name of an entry with the path `path`: the last component of
/// the remainder. There is none where the remainder is empty or ends in
/// `..`.
pub open spec fn file_name(path: Seq<char>) -> Option<Seq<char>> {
    let rest = remainder(path);
    if rest.len() == 0 || rest.last() == ".."@ {
        None
    } else {
        Some(rest.last())
    }
}

/// The parent directory of an entry with the path `path`: what stands
/// before the last component of the remainder, joined by slashes.
pub open spec fn parent_dir(path: Seq<char>) -> Seq<char> {
    joined(remainder(path).drop_last())
}

/// Whether an entry with the path `path` is hidden: its file name or its
/// parent directory begins with a full stop.
pub open spec fn is_hidden(path: Seq<char>) -> bool {
    file_name(path) matches Some(name) && (starts_with_dot(name) || starts_with_dot(
        parent_dir(path),
    ))
}

/// Whether an entry with the path `path` is documentation: its parent
/// directory is the documentation folder.
pub open spec fn is_documentation(path: Seq<char>) -> bool {
    file_name(path) is Some && parent_dir(path) == DOCS_FOLDER@
}

/// The sanitized form of `path`, or the reason why the entry is skipped.
///
/// The entry is skipped where it has no file name, where it is hidden,
/// and, unless documentation is included, where it is documentation.
pub open spec fn sanitized(path: Seq<char>, include_docs: bool) -> Result<
    SanitizedPathView,
    Skip,
> {
    match file_name(path) {
        None => Err(Skip::NoFileName),
        Some(name) => if is_hidden(path) {
            Err(Skip::Hidden)
        } else if is_documentation(path) && !include_docs {
            Err(Skip::Documentation)
        } else {
            Ok(SanitizedPathView { parent: parent_dir(path), file_name: name })
        },
    }
}

/// Sanitizes the path of an archive entry.
pub fn sanitize(path: &str, include_docs: bool) -> (r: Result<SanitizedPath, Skip>)
    ensures
        match r {
            Ok(p) => sanitized(path@, include_docs) == Ok::<SanitizedPathView, Skip>(p@),
            Err(why) => sanitized(path@, include_docs) == Err::<SanitizedPathView, Skip>(why),
        },
        r matches Ok(p) ==> p@.well_formed(),
{
    proof {
        lemma_sanitized_is_well_formed(path@, include_docs);
    }
    let comps = path_components(path);
    let n = comps.len();
    if n <= 1 {
        return Err(Skip::NoFileName);
    }
    let ghost rest = remainder(path@);
    assert(rest.last() == comps[n - 1]@);
    assert(rest.drop_last() =~= comps.deep_view().subrange(1, n - 1));
    let file_name = comps[n - 1].as_str();
    if same_text(file_name, "..") {
        return Err(Skip::NoFileName);
    }
    let parent = join(&comps, 1, n - 1);
    if begins_with_dot(file_name) || begins_with_dot(parent.as_str()) {
        return Err(Skip::Hidden);
    }
    if same_text(parent.as_str(), DOCS_FOLDER) && !include_docs {
        return Err(Skip::Documentation);
    }
    Ok(SanitizedPath { parent, file_name: String::from_str(file_name) })
}

/// How far a component leads down: one level up for `..`, nowhere for `.`
/// and for the root `/`, one level down for a name.
pub open spec fn climb(component: Seq<char>) -> int {
    if component == ".."@ {
        -1
    } else if component == "."@ || component == "/"@ {
        0
    } else {
        1
    }
}

/// The level that `parts` lead to, counted from where they start.
pub open spec fn depth(parts: Seq<Seq<char>>) -> int
    decreases parts.len(),
{
    if parts.len() == 0 {
        0
    } else {
        depth(parts.drop_last()) + climb(parts.last())
    }
}

/// Whether `parts`, followed one by one, never lead above the directory
/// they start in.
pub open spec fn stays_inside(parts: Seq<Seq<char>>) -> bool {
    forall|k: int| 0 <= k <= parts.len() ==> depth(#[trigger] parts.take(k)) >= 0
}

/// Tells whether `path`, taken relative to a directory, stays inside that
/// directory at each of its components.
pub fn stays_below(path: &str) -> (inside: bool)
    ensures
        inside == stays_inside(components(path@)),
{
    let comps = path_components(path);
    let ghost all = comps.deep_view();
    let mut level: usize = 0;
    let mut i: usize = 0;
    assert(all.take(0) =~= Seq::<Seq<char>>::empty());
    while i < comps.len()
        invariant
            i <= comps.len(),
            all == comps.deep_view(),
            all == components(path@),
            level == depth(all.take(i as int)),
            level <= i,
            forall|k: int| 0 <= k <= i ==> depth(#[trigger] all.take(k)) >= 0,
        decreases comps.len() - i,
    {
        let component = comps[i].as_str();
        assert(all.take(i + 1).drop_last() =~= all.take(i as int));
        assert(all.take(i + 1).last() == component@);
        if same_text(component, "..") {
            if level == 0 {
                assert(depth(all.take(i + 1)) < 0);
                return false;
            }
            level -= 1;
        } else if same_text(component, ".") || same_text(component, "/") {
        } else {
            level += 1;
        }
        i += 1;
    }
    assert(all.take(comps.len() as int) =~= all);
    true
}

/// A path whose last component or whose parent directory begins with a
/// full stop is skipped, whether documentation is included or not.
pub proof fn lemma_hidden_is_skipped(path: Seq<char>, include_docs: bool)
    requires
        remainder(path).len() > 0,
        starts_with_dot(remainder(path).last()) || starts_with_dot(parent_dir(path)),
    ensures
        sanitized(path, include_docs) is Err,
        file_name(path) is Some ==> sanitized(path, include_docs) == Err::<
            SanitizedPathView,
            Skip,
        >(Skip::Hidden),
{
}

/// Documentation that is not hidden is accepted if and only if
/// documentation is included. Where it is not accepted, it is skipped as
/// documentation.
pub proof fn lemma_documentation_needs_flag(path: Seq<char>, include_docs: bool)
    requires
        is_documentation(path),
        !is_hidden(path),
    ensures
        sanitized(path, include_docs) is Ok <==> include_docs,
        !include_docs ==> sanitized(path, include_docs) == Err::<SanitizedPathView, Skip>(
            Skip::Documentation,
        ),
{
}

/// Whether documentation is included matters to documentation only.
pub proof fn lemma_flag_only_matters_for_documentation(path: Seq<char>)
    requires
        !is_documentation(path),
    ensures
        sanitized(path, true) == sanitized(path, false),
{
}

/// The parts of two lists that name something are those of the first list
/// followed by those of the second.
pub proof fn lemma_named_concat(a: Seq<Seq<char>>, b: Seq<Seq<char>>)
    ensures
        named(a + b) == named(a) + named(b),
    decreases b.len(),
{
    if b.len() == 0 {
        assert(a + b =~= a);
        assert(named(a) + named(b) =~= named(a));
    } else {
        assert((a + b).drop_last() =~= a + b.drop_last());
        lemma_named_concat(a, b.drop_last());
        if b.last().len() == 0 || b.last() == "."@ {
        } else {
            assert((named(a) + named(b.drop_last())).push(b.last()) =~= named(a) + named(
                b.drop_last(),
            ).push(b.last()));
        }
    }
}

/// The components of a path that goes on after a directory begin with the
/// components of that directory.
pub proof fn lemma_components_extend(dir: Seq<char>, rest: Seq<char>)
    requires
        dir.len() > 0,
    ensures
        components(dir + "/"@ + rest) == components(dir) + named(pieces(rest, Separator::Slash)),
{
    reveal_strlit("/");
    assert("/"@ =~= seq!['/']);
    let path = dir + "/"@ + rest;
    lemma_pieces_concat(dir, '/', rest, Separator::Slash);
    lemma_pieces_not_empty(dir, Separator::Slash);
    let first = pieces(dir, Separator::Slash);
    let second = pieces(rest, Separator::Slash);
    lemma_named_concat(first, second);
    assert(path[0] == dir[0]);
    assert((first + second)[0] == first[0]);
    if dir[0] == '/' {
        assert(seq!["/"@] + (named(first) + named(second)) =~= (seq!["/"@] + named(first)) + named(
            second,
        ));
    } else if first[0] == "."@ {
        assert(seq!["."@] + (named(first) + named(second)) =~= (seq!["."@] + named(first)) + named(
            second,
        ));
    }
}

/// Where a list of components never leads above its start, none of its
/// beginnings does.
pub proof fn lemma_beginning_stays_inside(whole: Seq<Seq<char>>, n: int)
    requires
        stays_inside(whole),
        0 <= n <= whole.len(),
    ensures
        stays_inside(whole.take(n)),
{
    assert forall|k: int| 0 <= k <= n implies depth(#[trigger] whole.take(n).take(k)) >= 0 by {
        assert(whole.take(n).take(k) =~= whole.take(k));
    }
}

/// A path that stays inside a directory still does so when it is cut off
/// at one of its slashes.
pub proof fn lemma_directory_stays_inside(dir: Seq<char>, rest: Seq<char>)
    requires
        stays_inside(components(dir + "/"@ + rest)),
    ensures
        stays_inside(components(dir)),
{
    if dir.len() == 0 {
        assert(dir =~= Seq::<char>::empty());
        assert(pieces(dir, Separator::Slash) =~= seq![Seq::<char>::empty()]);
        reveal_strlit(".");
        reveal_with_fuel(named, 2);
        assert(seq![Seq::<char>::empty()].drop_last() =~= Seq::<Seq<char>>::empty());
        assert(components(dir) =~= Seq::<Seq<char>>::empty());
        assert forall|k: int| 0 <= k <= 0 implies depth(#[trigger] components(dir).take(k))
            >= 0 by {
            assert(components(dir).take(k) =~= Seq::<Seq<char>>::empty());
        }
    } else {
        lemma_components_extend(dir, rest);
        let whole = components(dir + "/"@ + rest);
        lemma_beginning_stays_inside(whole, components(dir).len() as int);
        assert(whole.take(components(dir).len() as int) =~= components(dir));
    }
}

/// The pieces between the slashes of a path, joined by slashes, are the
/// path.
pub proof fn lemma_joined_pieces(path: Seq<char>)
    ensures
        joined(pieces(path, Separator::Slash)) == path,
    decreases path.len(),
{
    reveal_strlit("/");
    assert("/"@ =~= seq!['/']);
    if path.len() == 0 {
        assert(joined(seq![Seq::<char>::empty()]) =~= path);
    } else {
        let shorter = path.drop_last();
        lemma_joined_pieces(shorter);
        lemma_pieces_not_empty(shorter, Separator::Slash);
        let before = pieces(shorter, Separator::Slash);
        if path.last() == '/' {
            assert(before.push(Seq::empty()).drop_last() =~= before);
            assert(shorter + "/"@ + Seq::<char>::empty() =~= path);
        } else {
            let grown = before.drop_last().push(before.last().push(path.last()));
            assert(grown.drop_last() =~= before.drop_last());
            if before.len() == 1 {
                assert(before.last().push(path.last()) =~= path);
            } else {
                assert(joined(before.drop_last()) + "/"@ + before.last().push(path.last())
                    =~= (joined(before.drop_last()) + "/"@ + before.last()).push(path.last()));
                assert(shorter.push(path.last()) =~= path);
            }
        }
    }
}

/// What `named` keeps stood in the list, holds a character, and is not a
/// single full stop.
pub proof fn lemma_named_keeps(parts: Seq<Seq<char>>)
    ensures
        forall|i: int|
            0 <= i < named(parts).len() ==> (#[trigger] named(parts)[i]).len() > 0 && named(
                parts,
            )[i] != "."@ && exists|k: int| 0 <= k < parts.len() && parts[k] == named(parts)[i],
    decreases parts.len(),
{
    if parts.len() > 0 {
        let shorter = parts.drop_last();
        lemma_named_keeps(shorter);
        assert forall|i: int| 0 <= i < named(parts).len() implies (#[trigger] named(parts)[i]).len()
            > 0 && named(parts)[i] != "."@ && exists|k: int|
            0 <= k < parts.len() && parts[k] == named(parts)[i] by {
            if i < named(shorter).len() {
                assert(named(parts)[i] == named(shorter)[i]);
                let k = choose|k: int| 0 <= k < shorter.len() && shorter[k] == named(shorter)[i];
                assert(parts[k] == named(parts)[i]);
            } else {
                assert(parts[parts.len() - 1] == named(parts)[i]);
            }
        }
    }
}

/// What the sanitizer accepts is well formed.
pub proof fn lemma_sanitized_is_well_formed(path: Seq<char>, include_docs: bool)
    ensures
        sanitized(path, include_docs) matches Ok(accepted) ==> accepted.well_formed(),
{
    if let Ok(accepted) = sanitized(path, include_docs) {
        let parts = pieces(path, Separator::Slash);
        let comps = components(path);
        lemma_named_keeps(parts);
        lemma_pieces_hold_no_separator(path, Separator::Slash);
        let last = comps.len() - 1;
        assert(comps.len() >= 2);
        assert(accepted.file_name == comps[last]);
        let shift = comps.len() - named(parts).len();
        assert(shift == 0 || shift == 1);
        assert(comps[last] == named(parts)[last - shift]);
        let k = choose|k: int| 0 <= k < parts.len() && parts[k] == named(parts)[last - shift];
        assert forall|i: int| 0 <= i < accepted.file_name.len() implies accepted.file_name[i]
            != '/' by {
            assert(!Separator::Slash.cuts(parts[k][i]));
        }
    }
}

/// Whether `part` can stand between two slashes and name something: it
/// holds a character, holds no slash, and is not a single full stop.
pub open spec fn is_name(part: Seq<char>) -> bool {
    &&& part.len() > 0
    &&& part != "."@
    &&& forall|i: int| 0 <= i < part.len() ==> part[i] != '/'
}

/// What is left of a path without its first component is made of names.
pub proof fn lemma_remainder_is_names(path: Seq<char>)
    ensures
        forall|i: int| 0 <= i < remainder(path).len() ==> is_name(#[trigger] remainder(path)[i]),
{
    let parts = pieces(path, Separator::Slash);
    let comps = components(path);
    lemma_named_keeps(parts);
    lemma_pieces_hold_no_separator(path, Separator::Slash);
    assert forall|i: int| 0 <= i < remainder(path).len() implies is_name(
        #[trigger] remainder(path)[i],
    ) by {
        let shift = comps.len() - named(parts).len();
        assert(shift == 0 || shift == 1);
        let at = i + 1 - shift;
        assert(remainder(path)[i] == comps[i + 1]);
        assert(comps[i + 1] == named(parts)[at]);
        let k = choose|k: int| 0 <= k < parts.len() && parts[k] == named(parts)[at];
        assert forall|j: int| 0 <= j < remainder(path)[i].len() implies remainder(path)[i][j]
            != '/' by {
            assert(!Separator::Slash.cuts(parts[k][j]));
        }
    }
}

/// Names that are joined by slashes hold a character between them.
pub proof fn lemma_joined_names_not_empty(parts: Seq<Seq<char>>)
    requires
        parts.len() > 0,
        forall|i: int| 0 <= i < parts.len() ==> is_name(#[trigger] parts[i]),
    ensures
        joined(parts).len() > 0,
{
    assert(is_name(parts[parts.len() - 1]));
}

/// Names that are joined by slashes are found again as the pieces between
/// the slashes, and each of them names something.
pub proof fn lemma_pieces_of_joined_names(parts: Seq<Seq<char>>)
    requires
        parts.len() > 0,
        forall|i: int| 0 <= i < parts.len() ==> is_name(#[trigger] parts[i]),
    ensures
        pieces(joined(parts), Separator::Slash) == parts,
        named(parts) == parts,
    decreases parts.len(),
{
    reveal_strlit("/");
    assert("/"@ =~= seq!['/']);
    let last = parts.last();
    assert(is_name(parts[parts.len() - 1]));
    lemma_pieces_of_uncut(last, Separator::Slash);
    if parts.len() == 1 {
        assert(seq![last] =~= parts);
        assert(named(parts.drop_last()) =~= Seq::<Seq<char>>::empty());
        assert(Seq::<Seq<char>>::empty().push(last) =~= parts);
    } else {
        let shorter = parts.drop_last();
        assert forall|i: int| 0 <= i < shorter.len() implies is_name(#[trigger] shorter[i]) by {
            assert(shorter[i] == parts[i]);
        }
        lemma_pieces_of_joined_names(shorter);
        lemma_pieces_concat(joined(shorter), '/', last, Separator::Slash);
        assert(shorter + seq![last] =~= parts);
        assert(shorter.push(last) =~= parts);
    }
}

/// The sanitized path, parent directory and file name in one, is what is
/// left of the entry's path without its first component.
pub proof fn lemma_relative_is_remainder(path: Seq<char>)
    requires
        file_name(path) is Some,
    ensures
        relative_path(parent_dir(path), file_name(path).unwrap()) == joined(remainder(path)),
{
    let rest = remainder(path);
    lemma_remainder_is_names(path);
    if rest.len() == 1 {
        assert(rest.drop_last() =~= Seq::<Seq<char>>::empty());
    } else {
        let shorter = rest.drop_last();
        assert forall|i: int| 0 <= i < shorter.len() implies is_name(#[trigger] shorter[i]) by {
            assert(shorter[i] == rest[i]);
        }
        lemma_joined_names_not_empty(shorter);
    }
}

/// The components of a sanitized path that is placed in a folder are those
/// of the folder, then what is left of the entry's path without its first
/// component. An empty folder leaves only its slash, which stands for the
/// root.
pub proof fn lemma_components_in_folder(folder: Seq<char>, path: Seq<char>)
    requires
        file_name(path) is Some,
    ensures
        components(
            folder + "/"@ + relative_path(parent_dir(path), file_name(path).unwrap()),
        ) == if folder.len() == 0 {
            seq!["/"@] + remainder(path)
        } else {
            components(folder) + remainder(path)
        },
{
    let rest = remainder(path);
    let relative = relative_path(parent_dir(path), file_name(path).unwrap());
    lemma_relative_is_remainder(path);
    lemma_remainder_is_names(path);
    lemma_pieces_of_joined_names(rest);
    if folder.len() == 0 {
        reveal_strlit("/");
        reveal_strlit(".");
        assert("/"@ =~= seq!['/']);
        let whole = folder + "/"@ + relative;
        assert(whole[0] == '/');
        assert(folder =~= Seq::<char>::empty());
        lemma_pieces_concat(folder, '/', relative, Separator::Slash);
        let first = pieces(folder, Separator::Slash);
        assert(first =~= seq![Seq::<char>::empty()]);
        lemma_named_concat(first, rest);
        reveal_with_fuel(named, 2);
        assert(first.drop_last() =~= Seq::<Seq<char>>::empty());
        assert(named(first) =~= Seq::<Seq<char>>::empty());
        assert(named(first) + named(rest) =~= rest);
    } else {
        lemma_components_extend(folder, relative);
    }
}

} // verus!

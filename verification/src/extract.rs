//! Which entries of a mission archive are unpacked, and where.

use vstd::prelude::*;
use vstd::string::*;
use crate::path::{
    components, is_documentation, is_hidden, lemma_components_in_folder,
    lemma_directory_stays_inside, parent_dir, relative_path, remainder, sanitize, sanitized,
    stays_below, stays_inside, SanitizedPathView, Skip,
};
use crate::text::{ends_in_slash, ends_with_slash, starts_with_dot};

verus! {

/// One entry of an archive, as plain values.
#[derive(Clone, Debug, PartialEq, Eq)]
pub struct ArchiveEntry {
    /// The path that the archive records for the entry.
    pub name: String,
    /// That path, where the archive reader vouches that it is relative and
    /// does not leave the directory it is unpacked in.
    pub enclosed_name: Option<String>,
    /// The size of the content in bytes, as the archive records it.
    pub size: u64,
    /// The comment that the archive records for the entry.
    pub comment: String,
    /// The content, where it could be read.
    pub data: Option<Vec<u8>>,
}

/// An `ArchiveEntry` as mathematical values.
pub struct ArchiveEntryView {
    pub name: Seq<char>,
    pub enclosed_name: Option<Seq<char>>,
    pub size: u64,
    pub comment: Seq<char>,
    pub data: Option<Seq<u8>>,
}

impl View for ArchiveEntry {
    type V = ArchiveEntryView;

    open spec fn view(&self) -> ArchiveEntryView {
        ArchiveEntryView {
            name: self.name@,
            enclosed_name: match self.enclosed_name {
                Some(path) => Some(path@),
                None => None,
            },
            size: self.size,
            comment: self.comment@,
            data: match self.data {
                Some(bytes) => Some(bytes@),
                None => None,
            },
        }
    }
}

impl DeepView for ArchiveEntry {
    type V = ArchiveEntryView;

    open spec fn deep_view(&self) -> ArchiveEntryView {
        self.view()
    }
}

/// What becomes of one entry.
#[derive(Clone, Debug, PartialEq, Eq)]
pub enum EntryAction {
    /// The entry is left out.
    Skip(Skip),
    /// The directory `path` is created, with the directories above it.
    CreateDir { path: String },
    /// The directory `parent` is created, with the directories above it,
    /// and `data` is written to the file `path`.
    WriteFile { path: String, parent: String, data: Vec<u8> },
}

/// An `EntryAction` as mathematical values.
pub enum EntryActionView {
    Skip(Skip),
    CreateDir { path: Seq<char> },
    WriteFile { path: Seq<char>, parent: Seq<char>, data: Seq<u8> },
}

impl View for EntryAction {
    type V = EntryActionView;

    open spec fn view(&self) -> EntryActionView {
        match self {
            EntryAction::Skip(why) => EntryActionView::Skip(*why),
            EntryAction::CreateDir { path } => EntryActionView::CreateDir { path: path@ },
            EntryAction::WriteFile { path, parent, data } => EntryActionView::WriteFile {
                path: path@,
                parent: parent@,
                data: data@,
            },
        }
    }
}

/// Why an entry stops the extraction.
#[derive(Clone, Copy, Debug, PartialEq, Eq, Structural)]
pub enum EntryError {
    /// The entry would be unpacked outside the destination root.
    EscapesRoot,
    /// The content of the entry could not be read.
    Unreadable,
}

/// The path of an entry below the destination root: the mission folder,
/// then the entry's path inside it.
pub open spec fn below_root(mission_folder: Seq<char>, path: SanitizedPathView) -> Seq<char> {
    mission_folder + "/"@ + relative_path(path.parent, path.file_name)
}

/// The directory, below the destination root, of an entry: the mission
/// folder, then the entry's parent directory if it has one.
pub open spec fn parent_below_root(mission_folder: Seq<char>, path: SanitizedPathView) -> Seq<
    char,
> {
    if path.parent.len() == 0 {
        mission_folder
    } else {
        mission_folder + "/"@ + path.parent
    }
}

/// `below` placed under the destination root `base_dir`.
pub open spec fn under_root(base_dir: Seq<char>, below: Seq<char>) -> Seq<char> {
    base_dir + "/"@ + below
}

/// What becomes of `entry` when a mission is unpacked under `base_dir`, in
/// the folder `mission_folder`.
///
/// An entry without an enclosed name is skipped, and so is one that the
/// sanitizer turns down. The others are re-rooted under `base_dir`. One
/// whose path would then climb above `base_dir` stops the extraction. One
/// whose recorded name ends with a slash is a directory; any other is a
/// file, which needs its content.
pub open spec fn planned_entry(
    entry: ArchiveEntryView,
    base_dir: Seq<char>,
    mission_folder: Seq<char>,
    include_docs: bool,
) -> Result<EntryActionView, EntryError> {
    match entry.enclosed_name {
        None => Ok(EntryActionView::Skip(Skip::Unresolvable)),
        Some(enclosed) => match sanitized(enclosed, include_docs) {
            Err(why) => Ok(EntryActionView::Skip(why)),
            Ok(path) => {
                let below = below_root(mission_folder, path);
                if !stays_inside(components(below)) {
                    Err(EntryError::EscapesRoot)
                } else if ends_with_slash(entry.name) {
                    Ok(EntryActionView::CreateDir { path: under_root(base_dir, below) })
                } else {
                    match entry.data {
                        None => Err(EntryError::Unreadable),
                        Some(data) => Ok(
                            EntryActionView::WriteFile {
                                path: under_root(base_dir, below),
                                parent: under_root(
                                    base_dir,
                                    parent_below_root(mission_folder, path),
                                ),
                                data,
                            },
                        ),
                    }
                }
            },
        },
    }
}

/// Places `below` under the destination root.
fn place_under_root(base_dir: &str, below: &str) -> (path: String)
    ensures
        path@ == under_root(base_dir@, below@),
{
    let mut path = String::from_str(base_dir);
    path.append("/");
    path.append(below);
    path
}

/// Decides what becomes of one entry.
pub fn plan_entry(
    entry: &ArchiveEntry,
    base_dir: &str,
    mission_folder: &str,
    include_docs: bool,
) -> (r: Result<EntryAction, EntryError>)
    ensures
        match r {
            Ok(action) => planned_entry(entry@, base_dir@, mission_folder@, include_docs) == Ok::<
                EntryActionView,
                EntryError,
            >(action@),
            Err(e) => planned_entry(entry@, base_dir@, mission_folder@, include_docs) == Err::<
                EntryActionView,
                EntryError,
            >(e),
        },
{
    let enclosed = match &entry.enclosed_name {
        None => {
            return Ok(EntryAction::Skip(Skip::Unresolvable));
        },
        Some(enclosed) => enclosed,
    };
    let path = match sanitize(enclosed.as_str(), include_docs) {
        Err(why) => {
            return Ok(EntryAction::Skip(why));
        },
        Ok(path) => path,
    };
    let mut below = String::from_str(mission_folder);
    below.append("/");
    let relative = path.relative();
    below.append(relative.as_str());
    if !stays_below(below.as_str()) {
        return Err(EntryError::EscapesRoot);
    }
    if ends_in_slash(entry.name.as_str()) {
        return Ok(EntryAction::CreateDir { path: place_under_root(base_dir, below.as_str()) });
    }
    let data = match &entry.data {
        None => {
            return Err(EntryError::Unreadable);
        },
        Some(data) => data.clone(),
    };
    let mut parent_below = String::from_str(mission_folder);
    if path.parent.as_str().unicode_len() > 0 {
        parent_below.append("/");
        parent_below.append(path.parent.as_str());
    }
    Ok(
        EntryAction::WriteFile {
            path: place_under_root(base_dir, below.as_str()),
            parent: place_under_root(base_dir, parent_below.as_str()),
            data,
        },
    )
}

/// What becomes of the entry at `index`, with what a driver reports of it.
#[derive(Clone, Debug, PartialEq, Eq)]
pub struct ExtractStep {
    /// The place of the entry in the archive.
    pub index: usize,
    /// The comment of the entry.
    pub comment: String,
    /// The size of the entry, as the archive records it.
    pub size: u64,
    /// What is done with the entry.
    pub action: EntryAction,
}

/// An `ExtractStep` as mathematical values.
pub struct ExtractStepView {
    pub index: usize,
    pub comment: Seq<char>,
    pub size: u64,
    pub action: EntryActionView,
}

impl View for ExtractStep {
    type V = ExtractStepView;

    open spec fn view(&self) -> ExtractStepView {
        ExtractStepView {
            index: self.index,
            comment: self.comment@,
            size: self.size,
            action: self.action@,
        }
    }
}

impl DeepView for ExtractStep {
    type V = ExtractStepView;

    open spec fn deep_view(&self) -> ExtractStepView {
        self.view()
    }
}

/// Why nothing of an archive is unpacked.
#[derive(Clone, Copy, Debug, PartialEq, Eq, Structural)]
pub enum ExtractionError {
    /// The bytes are not an archive that can be read.
    UnreadableArchive,
    /// The entry at this index, or its content, could not be read.
    UnreadableEntry(usize),
    /// The entry at this index would be unpacked outside the destination
    /// root.
    EscapesRoot(usize),
}

/// The step for the entry at `index`, or the error with which that entry
/// stops the extraction. `None` stands for an entry that could not be read.
pub open spec fn planned_step(
    index: usize,
    entry: Option<ArchiveEntryView>,
    base_dir: Seq<char>,
    mission_folder: Seq<char>,
    include_docs: bool,
) -> Result<ExtractStepView, ExtractionError> {
    match entry {
        None => Err(ExtractionError::UnreadableEntry(index)),
        Some(entry) => match planned_entry(entry, base_dir, mission_folder, include_docs) {
            Err(EntryError::EscapesRoot) => Err(ExtractionError::EscapesRoot(index)),
            Err(EntryError::Unreadable) => Err(ExtractionError::UnreadableEntry(index)),
            Ok(action) => Ok(
                ExtractStepView { index, comment: entry.comment, size: entry.size, action },
            ),
        },
    }
}

/// The steps for `entries`, one for each in the order of the archive, or
/// the error of the first entry that stops the extraction.
pub open spec fn planned_steps(
    entries: Seq<Option<ArchiveEntryView>>,
    base_dir: Seq<char>,
    mission_folder: Seq<char>,
    include_docs: bool,
) -> Result<Seq<ExtractStepView>, ExtractionError>
    decreases entries.len(),
{
    if entries.len() == 0 {
        Ok(Seq::empty())
    } else {
        match planned_steps(entries.drop_last(), base_dir, mission_folder, include_docs) {
            Err(e) => Err(e),
            Ok(steps) => match planned_step(
                (entries.len() - 1) as usize,
                entries.last(),
                base_dir,
                mission_folder,
                include_docs,
            ) {
                Err(e) => Err(e),
                Ok(step) => Ok(steps.push(step)),
            },
        }
    }
}

/// Decides what becomes of each entry of an archive.
pub fn plan_extraction(
    entries: &Vec<Option<ArchiveEntry>>,
    base_dir: &str,
    mission_folder: &str,
    include_docs: bool,
) -> (r: Result<Vec<ExtractStep>, ExtractionError>)
    ensures
        match r {
            Ok(steps) => planned_steps(
                entries.deep_view(),
                base_dir@,
                mission_folder@,
                include_docs,
            ) == Ok::<Seq<ExtractStepView>, ExtractionError>(steps.deep_view()),
            Err(e) => planned_steps(entries.deep_view(), base_dir@, mission_folder@, include_docs)
                == Err::<Seq<ExtractStepView>, ExtractionError>(e),
        },
        r matches Ok(steps) ==> steps.len() == entries.len() && forall|i: int|
            0 <= i < steps.len() ==> keeps_to_root((#[trigger] steps[i])@.action, base_dir@),
{
    let ghost all = entries.deep_view();
    let mut steps: Vec<ExtractStep> = Vec::new();
    let mut i: usize = 0;
    assert(all.take(0) =~= Seq::<Option<ArchiveEntryView>>::empty());
    assert(steps.deep_view() =~= Seq::<ExtractStepView>::empty());
    while i < entries.len()
        invariant
            i <= entries.len(),
            all == entries.deep_view(),
            planned_steps(all.take(i as int), base_dir@, mission_folder@, include_docs) == Ok::<
                Seq<ExtractStepView>,
                ExtractionError,
            >(steps.deep_view()),
        decreases entries.len() - i,
    {
        let ghost before = steps.deep_view();
        assert(all.take(i + 1).drop_last() =~= all.take(i as int));
        assert(all.take(i + 1).last() == entries[i as int].deep_view());
        proof {
            if i + 1 < entries.len() {
                lemma_first_error_stays(
                    all.take(i + 1),
                    all,
                    base_dir@,
                    mission_folder@,
                    include_docs,
                );
            } else {
                assert(all.take(i + 1) =~= all);
            }
        }
        match &entries[i] {
            None => {
                return Err(ExtractionError::UnreadableEntry(i));
            },
            Some(entry) => match plan_entry(entry, base_dir, mission_folder, include_docs) {
                Err(EntryError::EscapesRoot) => {
                    return Err(ExtractionError::EscapesRoot(i));
                },
                Err(EntryError::Unreadable) => {
                    return Err(ExtractionError::UnreadableEntry(i));
                },
                Ok(action) => {
                    let step = ExtractStep {
                        index: i,
                        comment: entry.comment.clone(),
                        size: entry.size,
                        action,
                    };
                    steps.push(step);
                    assert(steps.deep_view() =~= before.push(step@));
                },
            },
        }
        i += 1;
    }
    assert(all.take(entries.len() as int) =~= all);
    proof {
        lemma_steps_are_entrywise(all, base_dir@, mission_folder@, include_docs);
        lemma_steps_keep_to_root(all, base_dir@, mission_folder@, include_docs);
        assert forall|i: int| 0 <= i < steps.len() implies keeps_to_root(
            (#[trigger] steps[i])@.action,
            base_dir@,
        ) by {
            assert(steps.deep_view()[i] == steps[i]@);
        }
    }
    Ok(steps)
}

/// An error among the first entries of an archive is the error of the
/// whole archive.
pub proof fn lemma_first_error_stays(
    first: Seq<Option<ArchiveEntryView>>,
    all: Seq<Option<ArchiveEntryView>>,
    base_dir: Seq<char>,
    mission_folder: Seq<char>,
    include_docs: bool,
)
    requires
        first.len() <= all.len(),
        first == all.take(first.len() as int),
    ensures
        planned_steps(first, base_dir, mission_folder, include_docs) is Err ==> planned_steps(
            all,
            base_dir,
            mission_folder,
            include_docs,
        ) == planned_steps(first, base_dir, mission_folder, include_docs),
    decreases all.len(),
{
    if first.len() < all.len() {
        assert(all.drop_last().take(first.len() as int) =~= first);
        lemma_first_error_stays(first, all.drop_last(), base_dir, mission_folder, include_docs);
    } else {
        assert(first =~= all);
    }
}

/// Whether `path` lies under the destination root `base_dir`: it is
/// `base_dir`, a slash, and a path that never leads above the directory it
/// starts in.
pub open spec fn is_under_root(base_dir: Seq<char>, path: Seq<char>) -> bool {
    exists|below: Seq<char>| #[trigger]
        under_root(base_dir, below) == path && stays_inside(components(below))
}

/// Whether all that `action` creates or writes lies under the destination
/// root `base_dir`.
pub open spec fn keeps_to_root(action: EntryActionView, base_dir: Seq<char>) -> bool {
    match action {
        EntryActionView::Skip(_) => true,
        EntryActionView::CreateDir { path } => is_under_root(base_dir, path),
        EntryActionView::WriteFile { path, parent, .. } => is_under_root(base_dir, path)
            && is_under_root(base_dir, parent),
    }
}

/// Nothing is unpacked outside the destination root. An entry that the
/// sanitizer accepts and whose path would climb above the root stops the
/// extraction, and what any other entry creates or writes lies under the
/// root.
pub proof fn lemma_nothing_leaves_root(
    entry: ArchiveEntryView,
    base_dir: Seq<char>,
    mission_folder: Seq<char>,
    include_docs: bool,
)
    ensures
        planned_entry(entry, base_dir, mission_folder, include_docs) matches Ok(action)
            ==> keeps_to_root(action, base_dir),
        entry.enclosed_name matches Some(enclosed) ==> (sanitized(enclosed, include_docs) matches Ok(
            path,
        ) ==> (!stays_inside(components(below_root(mission_folder, path))) ==> planned_entry(
            entry,
            base_dir,
            mission_folder,
            include_docs,
        ) == Err::<EntryActionView, EntryError>(EntryError::EscapesRoot))),
{
    if let Some(enclosed) = entry.enclosed_name {
        if let Ok(path) = sanitized(enclosed, include_docs) {
            let below = below_root(mission_folder, path);
            if stays_inside(components(below)) {
                assert(under_root(base_dir, below) == under_root(base_dir, below));
                let parent = parent_below_root(mission_folder, path);
                if path.parent.len() == 0 {
                    lemma_directory_stays_inside(mission_folder, path.file_name);
                } else {
                    assert(below =~= parent + "/"@ + path.file_name);
                    lemma_directory_stays_inside(parent, path.file_name);
                }
                assert(under_root(base_dir, parent) == under_root(base_dir, parent));
            }
        }
    }
}

/// An entry whose file name or whose parent directory begins with a full
/// stop is skipped, whether documentation is included or not.
pub proof fn lemma_hidden_entry_is_skipped(
    entry: ArchiveEntryView,
    base_dir: Seq<char>,
    mission_folder: Seq<char>,
    include_docs: bool,
)
    requires
        entry.enclosed_name matches Some(enclosed) && remainder(enclosed).len() > 0 && (
        starts_with_dot(remainder(enclosed).last()) || starts_with_dot(parent_dir(enclosed))),
    ensures
        planned_entry(entry, base_dir, mission_folder, include_docs) matches Ok(
            EntryActionView::Skip(_),
        ),
        entry.enclosed_name matches Some(enclosed) && is_hidden(enclosed) ==> planned_entry(
            entry,
            base_dir,
            mission_folder,
            include_docs,
        ) == Ok::<EntryActionView, EntryError>(EntryActionView::Skip(Skip::Hidden)),
{
}

/// An entry of the documentation folder that is not hidden is skipped if
/// and only if documentation is not included. Where it is included, the
/// entry is unpacked like any other: it is created or written unless it
/// stops the extraction.
pub proof fn lemma_documentation_entry_needs_flag(
    entry: ArchiveEntryView,
    base_dir: Seq<char>,
    mission_folder: Seq<char>,
    include_docs: bool,
)
    requires
        entry.enclosed_name matches Some(enclosed) && is_documentation(enclosed) && !is_hidden(
            enclosed,
        ),
    ensures
        planned_entry(entry, base_dir, mission_folder, include_docs) matches Ok(
            EntryActionView::Skip(_),
        ) <==> !include_docs,
        !include_docs ==> planned_entry(entry, base_dir, mission_folder, include_docs) == Ok::<
            EntryActionView,
            EntryError,
        >(EntryActionView::Skip(Skip::Documentation)),
{
}

/// The steps of an archive are those of its entries, each decided by
/// itself: where the extraction goes ahead, every entry has its step, and
/// where it does not, the error is that of the first entry without one.
pub proof fn lemma_steps_are_entrywise(
    entries: Seq<Option<ArchiveEntryView>>,
    base_dir: Seq<char>,
    mission_folder: Seq<char>,
    include_docs: bool,
)
    ensures
        match planned_steps(entries, base_dir, mission_folder, include_docs) {
            Ok(steps) => steps.len() == entries.len() && forall|i: int|
                0 <= i < entries.len() ==> planned_step(
                    i as usize,
                    #[trigger] entries[i],
                    base_dir,
                    mission_folder,
                    include_docs,
                ) == Ok::<ExtractStepView, ExtractionError>(steps[i]),
            Err(e) => exists|k: int|
                0 <= k < entries.len() && planned_step(
                    k as usize,
                    #[trigger] entries[k],
                    base_dir,
                    mission_folder,
                    include_docs,
                ) == Err::<ExtractStepView, ExtractionError>(e) && forall|i: int|
                    0 <= i < k ==> planned_step(
                        i as usize,
                        #[trigger] entries[i],
                        base_dir,
                        mission_folder,
                        include_docs,
                    ) is Ok,
        },
    decreases entries.len(),
{
    if entries.len() > 0 {
        let shorter = entries.drop_last();
        lemma_steps_are_entrywise(shorter, base_dir, mission_folder, include_docs);
        let last = entries.len() - 1;
        match planned_steps(shorter, base_dir, mission_folder, include_docs) {
            Ok(steps) => {
                assert forall|i: int| 0 <= i < last implies planned_step(
                    i as usize,
                    #[trigger] entries[i],
                    base_dir,
                    mission_folder,
                    include_docs,
                ) is Ok by {
                    assert(entries[i] == shorter[i]);
                }
                match planned_step(
                    last as usize,
                    entries.last(),
                    base_dir,
                    mission_folder,
                    include_docs,
                ) {
                    Ok(step) => {
                        assert forall|i: int| 0 <= i < entries.len() implies planned_step(
                            i as usize,
                            #[trigger] entries[i],
                            base_dir,
                            mission_folder,
                            include_docs,
                        ) == Ok::<ExtractStepView, ExtractionError>(steps.push(step)[i]) by {
                            if i < last {
                                assert(entries[i] == shorter[i]);
                            }
                        }
                    },
                    Err(e) => {
                        assert(entries[last] == entries.last());
                    },
                }
            },
            Err(e) => {
                let k = choose|k: int|
                    0 <= k < shorter.len() && planned_step(
                        k as usize,
                        #[trigger] shorter[k],
                        base_dir,
                        mission_folder,
                        include_docs,
                    ) == Err::<ExtractStepView, ExtractionError>(e) && forall|i: int|
                        0 <= i < k ==> planned_step(
                            i as usize,
                            #[trigger] shorter[i],
                            base_dir,
                            mission_folder,
                            include_docs,
                        ) is Ok;
                assert(entries[k] == shorter[k]);
                assert forall|i: int| 0 <= i < k implies planned_step(
                    i as usize,
                    #[trigger] entries[i],
                    base_dir,
                    mission_folder,
                    include_docs,
                ) is Ok by {
                    assert(entries[i] == shorter[i]);
                }
            },
        }
    }
}

/// Where an archive is unpacked, nothing is created or written outside
/// the destination root.
pub proof fn lemma_steps_keep_to_root(
    entries: Seq<Option<ArchiveEntryView>>,
    base_dir: Seq<char>,
    mission_folder: Seq<char>,
    include_docs: bool,
)
    ensures
        planned_steps(entries, base_dir, mission_folder, include_docs) matches Ok(steps)
            ==> forall|i: int|
            0 <= i < steps.len() ==> keeps_to_root((#[trigger] steps[i]).action, base_dir),
{
    lemma_steps_are_entrywise(entries, base_dir, mission_folder, include_docs);
    if let Ok(steps) = planned_steps(entries, base_dir, mission_folder, include_docs) {
        assert forall|i: int| 0 <= i < steps.len() implies keeps_to_root(
            (#[trigger] steps[i]).action,
            base_dir,
        ) by {
            assert(planned_step(i as usize, entries[i], base_dir, mission_folder, include_docs)
                == Ok::<ExtractStepView, ExtractionError>(steps[i]));
            lemma_nothing_leaves_root(entries[i].unwrap(), base_dir, mission_folder, include_docs);
        }
    }
}

/// The components that lead from the destination root to an entry: those
/// of the mission folder, then what is left of the entry's path without its
/// first component. An empty mission folder leaves only the slash that
/// follows it.
pub open spec fn walk_below_root(mission_folder: Seq<char>, enclosed: Seq<char>) -> Seq<
    Seq<char>,
> {
    if mission_folder.len() == 0 {
        seq!["/"@] + remainder(enclosed)
    } else {
        components(mission_folder) + remainder(enclosed)
    }
}

/// An entry that the sanitizer accepts stops the extraction as one that
/// escapes the root if and only if the components that lead to it, followed
/// one by one from the destination root, lead above the root.
pub proof fn lemma_escape_is_decided_by_components(
    entry: ArchiveEntryView,
    base_dir: Seq<char>,
    mission_folder: Seq<char>,
    include_docs: bool,
)
    requires
        entry.enclosed_name matches Some(enclosed) && sanitized(enclosed, include_docs) is Ok,
    ensures
        planned_entry(entry, base_dir, mission_folder, include_docs) == Err::<
            EntryActionView,
            EntryError,
        >(EntryError::EscapesRoot) <==> !stays_inside(
            walk_below_root(mission_folder, entry.enclosed_name.unwrap()),
        ),
{
    lemma_components_in_folder(mission_folder, entry.enclosed_name.unwrap());
}

} // verus!

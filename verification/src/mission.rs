//! A mission: what is asked for, and how its archive is unpacked.

use vstd::prelude::*;
use crate::archive::{parsed_archive, read_entries};
use crate::extract::{
    keeps_to_root, plan_extraction, planned_steps, ExtractStep, ExtractStepView,
    ExtractionError,
};
use crate::url::{build_mission_archive_url, mission_archive_url};

verus! {

/// The mission to fetch.
#[derive(Clone, Debug, PartialEq, Eq)]
pub struct FetchArgs {
    /// The user or organization that owns the repository.
    pub user: String,
    /// The name of the mission, which is the name of its repository.
    pub mission: String,
    /// The folder to unpack into, where it is not to be named after the
    /// mission.
    pub mission_folder: Option<String>,
    /// The branch, or other reference, to take the snapshot of.
    pub branch: String,
    /// Whether the documentation is unpacked too.
    pub docs: bool,
}

impl FetchArgs {
    /// The folder, below the destination root, that the mission is
    /// unpacked into: the one asked for, or one named after the mission.
    pub open spec fn folder(&self) -> Seq<char> {
        match self.mission_folder {
            Some(folder) => folder@,
            None => self.mission@,
        }
    }

    /// The address of the mission's snapshot archive.
    pub open spec fn url(&self) -> Seq<char> {
        mission_archive_url(self.user@, self.mission@, self.branch@)
    }

    /// Names the folder that the mission is unpacked into.
    pub fn folder_name(&self) -> (name: String)
        ensures
            name@ == self.folder(),
    {
        match &self.mission_folder {
            Some(folder) => folder.clone(),
            None => self.mission.clone(),
        }
    }

    /// Builds the address of the mission's snapshot archive.
    pub fn archive_url(&self) -> (url: String)
        ensures
            url@ == self.url(),
    {
        build_mission_archive_url(
            self.user.as_str(),
            self.mission.as_str(),
            self.branch.as_str(),
        )
    }
}

/// The steps that unpack the archive encoded by `archive`, or why nothing
/// of it is unpacked.
pub open spec fn mission_steps(
    archive: Seq<u8>,
    base_dir: Seq<char>,
    mission_folder: Seq<char>,
    include_docs: bool,
) -> Result<Seq<ExtractStepView>, ExtractionError> {
    match parsed_archive(archive) {
        None => Err(ExtractionError::UnreadableArchive),
        Some(entries) => planned_steps(entries, base_dir, mission_folder, include_docs),
    }
}

/// Decides how the downloaded archive of a mission is unpacked under
/// `base_dir`: one step for each entry, in the order of the archive. No
/// step is handed out unless every entry has one.
pub fn fetch_mission_code(
    args: &FetchArgs,
    base_dir: &str,
    archive: Vec<u8>,
) -> (r: Result<Vec<ExtractStep>, ExtractionError>)
    ensures
        match r {
            Ok(steps) => mission_steps(archive@, base_dir@, args.folder(), args.docs) == Ok::<
                Seq<ExtractStepView>,
                ExtractionError,
            >(steps.deep_view()),
            Err(e) => mission_steps(archive@, base_dir@, args.folder(), args.docs) == Err::<
                Seq<ExtractStepView>,
                ExtractionError,
            >(e),
        },
        r matches Ok(steps) ==> forall|i: int|
            0 <= i < steps.len() ==> keeps_to_root((#[trigger] steps[i])@.action, base_dir@),
{
    let entries = match read_entries(archive) {
        Ok(entries) => entries,
        Err(e) => {
            return Err(e);
        },
    };
    let folder = args.folder_name();
    plan_extraction(&entries, base_dir, folder.as_str(), args.docs)
}

} // verus!

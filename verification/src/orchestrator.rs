//! The order in which a mission is fetched.
//!
//! A driver starts at `Stage::Idle`, does the work of the stage it is in,
//! and moves on with `Stage::advance` until it reaches a stage with nothing
//! left to do.

use vstd::prelude::*;

verus! {

/// Where the fetching of a mission stands.
#[derive(Clone, Copy, Debug, PartialEq, Eq, Structural)]
pub enum Stage {
    /// Nothing has been done yet.
    Idle,
    /// The archive of the mission is being downloaded.
    FetchingMissionArchive,
    /// The archive is being unpacked.
    ExtractingArchive,
    /// The libraries that the mission is built on are being fetched.
    ResolvingPrimaryDeps,
    /// The add-on libraries are being fetched.
    ResolvingAddonDeps,
    /// The mission is unpacked and each of its libraries has been tried.
    Done,
    /// The mission could not be downloaded or unpacked.
    Failed,
}

/// How the work of a stage ended.
#[derive(Clone, Copy, Debug, PartialEq, Eq, Structural)]
pub enum Outcome {
    /// All of it was done.
    Succeeded,
    /// Some of it could not be done.
    Failed,
}

/// The work that a driver does in a stage.
#[derive(Clone, Copy, Debug, PartialEq, Eq, Structural)]
pub enum Task {
    /// Nothing: the run has not begun, or it is over.
    Nothing,
    /// Download the archive of the mission.
    DownloadArchive,
    /// Unpack the archive.
    ExtractArchive,
    /// Read the manifest of the libraries that the mission is built on, and
    /// try each download it asks for.
    FetchPrimaryLibraries,
    /// Read the manifest of the add-on libraries, and try each download it
    /// asks for.
    FetchAddonLibraries,
}

impl Stage {
    /// The stage that follows this one when its work ended with `outcome`.
    ///
    /// Downloading and unpacking the archive must succeed for the run to
    /// go on. A library that cannot be fetched does not end the run: both
    /// manifests are gone through whatever becomes of their downloads.
    pub open spec fn next(self, outcome: Outcome) -> Stage {
        match self {
            Stage::Idle => Stage::FetchingMissionArchive,
            Stage::FetchingMissionArchive => match outcome {
                Outcome::Succeeded => Stage::ExtractingArchive,
                Outcome::Failed => Stage::Failed,
            },
            Stage::ExtractingArchive => match outcome {
                Outcome::Succeeded => Stage::ResolvingPrimaryDeps,
                Outcome::Failed => Stage::Failed,
            },
            Stage::ResolvingPrimaryDeps => Stage::ResolvingAddonDeps,
            Stage::ResolvingAddonDeps => Stage::Done,
            Stage::Done => Stage::Done,
            Stage::Failed => Stage::Failed,
        }
    }

    /// Whether the run is over.
    pub open spec fn is_final(self) -> bool {
        self == Stage::Done || self == Stage::Failed
    }

    /// Whether libraries are fetched in this stage.
    pub open spec fn fetches_libraries(self) -> bool {
        self == Stage::ResolvingPrimaryDeps || self == Stage::ResolvingAddonDeps
    }

    /// The work of this stage.
    pub open spec fn work(self) -> Task {
        match self {
            Stage::Idle => Task::Nothing,
            Stage::FetchingMissionArchive => Task::DownloadArchive,
            Stage::ExtractingArchive => Task::ExtractArchive,
            Stage::ResolvingPrimaryDeps => Task::FetchPrimaryLibraries,
            Stage::ResolvingAddonDeps => Task::FetchAddonLibraries,
            Stage::Done => Task::Nothing,
            Stage::Failed => Task::Nothing,
        }
    }

    /// Moves on from this stage, whose work ended with `outcome`.
    pub fn advance(self, outcome: Outcome) -> (next: Stage)
        ensures
            next == self.next(outcome),
            next == Stage::Failed ==> self == Stage::Failed || (outcome == Outcome::Failed && (self
                == Stage::FetchingMissionArchive || self == Stage::ExtractingArchive)),
            next.fetches_libraries() ==> (self == Stage::ExtractingArchive && outcome
                == Outcome::Succeeded) || self == Stage::ResolvingPrimaryDeps,
            self.fetches_libraries() ==> !(next == Stage::Failed),
    {
        match self {
            Stage::Idle => Stage::FetchingMissionArchive,
            Stage::FetchingMissionArchive => match outcome {
                Outcome::Succeeded => Stage::ExtractingArchive,
                Outcome::Failed => Stage::Failed,
            },
            Stage::ExtractingArchive => match outcome {
                Outcome::Succeeded => Stage::ResolvingPrimaryDeps,
                Outcome::Failed => Stage::Failed,
            },
            Stage::ResolvingPrimaryDeps => Stage::ResolvingAddonDeps,
            Stage::ResolvingAddonDeps => Stage::Done,
            Stage::Done => Stage::Done,
            Stage::Failed => Stage::Failed,
        }
    }

    /// Tells whether the run is over.
    pub fn is_over(&self) -> (over: bool)
        ensures
            over == self.is_final(),
    {
        match self {
            Stage::Done => true,
            Stage::Failed => true,
            _ => false,
        }
    }

    /// Tells what a driver does in this stage.
    pub fn task(&self) -> (task: Task)
        ensures
            task == self.work(),
    {
        match self {
            Stage::FetchingMissionArchive => Task::DownloadArchive,
            Stage::ExtractingArchive => Task::ExtractArchive,
            Stage::ResolvingPrimaryDeps => Task::FetchPrimaryLibraries,
            Stage::ResolvingAddonDeps => Task::FetchAddonLibraries,
            _ => Task::Nothing,
        }
    }
}

/// How a run ended.
#[derive(Clone, Copy, Debug, PartialEq, Eq, Structural)]
pub enum Verdict {
    /// The run is not over.
    Unfinished,
    /// The mission is unpacked and every library was fetched.
    Complete,
    /// The mission is unpacked, and a library could not be fetched.
    LibrariesMissing,
    /// The mission could not be downloaded or unpacked.
    Failed,
}

/// A run: the stage it is in, and whether a library could not be fetched
/// so far.
#[derive(Clone, Copy, Debug, PartialEq, Eq, Structural)]
pub struct Run {
    pub stage: Stage,
    pub libraries_missing: bool,
}

impl Run {
    /// The run after the work of its stage ended with `outcome`: it moves
    /// to the next stage, and remembers a failure to fetch libraries.
    pub open spec fn next(self, outcome: Outcome) -> Run {
        Run {
            stage: self.stage.next(outcome),
            libraries_missing: self.libraries_missing || (self.stage.fetches_libraries()
                && outcome == Outcome::Failed),
        }
    }

    /// How the run ended.
    pub open spec fn result(self) -> Verdict {
        match self.stage {
            Stage::Failed => Verdict::Failed,
            Stage::Done => if self.libraries_missing {
                Verdict::LibrariesMissing
            } else {
                Verdict::Complete
            },
            _ => Verdict::Unfinished,
        }
    }

    /// The run that has not begun: it is idle and misses no library.
    pub open spec fn initial() -> Run {
        Run { stage: Stage::Idle, libraries_missing: false }
    }

    /// A run that has not begun.
    pub fn start() -> (run: Run)
        ensures
            run == Run::initial(),
    {
        Run { stage: Stage::Idle, libraries_missing: false }
    }

    /// Moves on from the stage that the run is in, whose work ended with
    /// `outcome`.
    pub fn advance(self, outcome: Outcome) -> (next: Run)
        ensures
            next == self.next(outcome),
    {
        let missing = match self.stage {
            Stage::ResolvingPrimaryDeps | Stage::ResolvingAddonDeps => match outcome {
                Outcome::Failed => true,
                Outcome::Succeeded => self.libraries_missing,
            },
            _ => self.libraries_missing,
        };
        Run { stage: self.stage.advance(outcome), libraries_missing: missing }
    }

    /// Tells how the run ended.
    pub fn verdict(&self) -> (verdict: Verdict)
        ensures
            verdict == self.result(),
    {
        match self.stage {
            Stage::Failed => Verdict::Failed,
            Stage::Done => if self.libraries_missing {
                Verdict::LibrariesMissing
            } else {
                Verdict::Complete
            },
            _ => Verdict::Unfinished,
        }
    }
}

/// The stage that a run is in after its stages ended with `outcomes`, one
/// after the other, starting from `from`.
pub open spec fn stage_after(from: Stage, outcomes: Seq<Outcome>) -> Stage
    decreases outcomes.len(),
{
    if outcomes.len() == 0 {
        from
    } else {
        stage_after(from, outcomes.drop_last()).next(outcomes.last())
    }
}

/// A run never gets to the libraries unless the archive was downloaded and
/// unpacked: where a run that starts idle is at a stage that fetches
/// libraries, or is done, the second and the third outcome were successes.
pub proof fn lemma_libraries_only_after_extraction(outcomes: Seq<Outcome>)
    requires
        stage_after(Stage::Idle, outcomes).fetches_libraries() || stage_after(
            Stage::Idle,
            outcomes,
        ) == Stage::Done,
    ensures
        outcomes.len() >= 3,
        outcomes[1] == Outcome::Succeeded,
        outcomes[2] == Outcome::Succeeded,
        stage_after(Stage::Idle, outcomes.take(3)) == Stage::ResolvingPrimaryDeps,
    decreases outcomes.len(),
{
    reveal_with_fuel(stage_after, 5);
    if outcomes.len() <= 3 {
        assert(outcomes.take(outcomes.len() as int) =~= outcomes);
        if outcomes.len() == 3 {
            assert(outcomes.drop_last().drop_last().drop_last().len() == 0);
        } else if outcomes.len() == 2 {
            assert(outcomes.drop_last().drop_last().len() == 0);
        } else if outcomes.len() == 1 {
            assert(outcomes.drop_last().len() == 0);
        }
    } else {
        let shorter = outcomes.drop_last();
        let before = stage_after(Stage::Idle, shorter);
        assert(before.fetches_libraries() || before == Stage::Done);
        lemma_libraries_only_after_extraction(shorter);
        assert(shorter.take(3) =~= outcomes.take(3));
    }
}

/// Once the archive is unpacked, no outcome keeps a run from going through
/// both manifests: three stages after the libraries are first reached, the
/// run is done, whatever became of the downloads.
pub proof fn lemma_failed_downloads_do_not_stop(first: Outcome, second: Outcome)
    ensures
        Stage::ResolvingPrimaryDeps.next(first) == Stage::ResolvingAddonDeps,
        Stage::ResolvingAddonDeps.next(second) == Stage::Done,
        stage_after(Stage::ResolvingPrimaryDeps, seq![first, second]) == Stage::Done,
{
    reveal_with_fuel(stage_after, 3);
    let outcomes = seq![first, second];
    assert(outcomes.drop_last() =~= seq![first]);
    assert(outcomes.drop_last().drop_last() =~= Seq::<Outcome>::empty());
}

/// The run after its stages ended with `outcomes`, one after the other,
/// starting from `from`.
pub open spec fn run_after(from: Run, outcomes: Seq<Outcome>) -> Run
    decreases outcomes.len(),
{
    if outcomes.len() == 0 {
        from
    } else {
        run_after(from, outcomes.drop_last()).next(outcomes.last())
    }
}

/// Every run ends: five stages after its start it is over, and it stays
/// so.
pub proof fn lemma_run_ends(outcomes: Seq<Outcome>)
    requires
        outcomes.len() >= 5,
    ensures
        stage_after(Stage::Idle, outcomes).is_final(),
    decreases outcomes.len(),
{
    reveal_with_fuel(stage_after, 6);
    if outcomes.len() == 5 {
        assert(outcomes.drop_last().drop_last().drop_last().drop_last().drop_last().len() == 0);
    } else {
        lemma_run_ends(outcomes.drop_last());
    }
}

/// How a run ends is decided by the outcomes of its stages. It fails where
/// the archive could not be downloaded or unpacked. Where it could, the run
/// is complete if both manifests were gone through without a failure, and
/// misses libraries if not. The outcome at the start, `begin`, decides
/// nothing.
pub proof fn lemma_verdict(
    begin: Outcome,
    download: Outcome,
    extraction: Outcome,
    primary: Outcome,
    addon: Outcome,
)
    ensures
        run_after(Run::initial(), seq![begin, download, extraction, primary, addon]).result()
            == if download == Outcome::Failed || extraction == Outcome::Failed {
            Verdict::Failed
        } else if primary == Outcome::Failed || addon == Outcome::Failed {
            Verdict::LibrariesMissing
        } else {
            Verdict::Complete
        },
{
    reveal_with_fuel(run_after, 6);
    let outcomes = seq![begin, download, extraction, primary, addon];
    assert(outcomes.drop_last() =~= seq![begin, download, extraction, primary]);
    assert(outcomes.drop_last().drop_last() =~= seq![begin, download, extraction]);
    assert(outcomes.drop_last().drop_last().drop_last() =~= seq![begin, download]);
    assert(outcomes.drop_last().drop_last().drop_last().drop_last() =~= seq![begin]);
    assert(outcomes.drop_last().drop_last().drop_last().drop_last().drop_last()
        =~= Seq::<Outcome>::empty());
}

} // verus!

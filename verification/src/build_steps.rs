//! The steps of a build, one after the other.
//!
//! A build alternates between work on disk and decisions. The work is the
//! caller's: it performs the action it is handed and reports how that went.
//! The decisions are made here: from where the build stands and what was
//! reported, where it stands next and what is to be done.

use crate::error::LisError;
use crate::packaging::{missing_fields, validate};
use crate::project::Project;
use vstd::prelude::*;

verus! {

/// How an action went.
#[derive(Clone, Copy, Debug, PartialEq, Eq, Structural)]
pub enum Outcome {
    /// It was done.
    Done,
    /// What it was to work on is not there.
    Missing,
    /// It was tried and did not succeed.
    Failed,
    /// The answer to a question is yes.
    Yes,
    /// The answer to a question is no.
    No,
}

/// Where a build stands.
#[derive(Clone, Copy, Debug, PartialEq, Eq, Structural)]
pub enum BuildPhase {
    /// It is being found out whether the package file exists already.
    ProbingOutput,
    /// The author is being asked whether the package file may be replaced.
    AwaitingConfirmation,
    /// The directory that receives the package is being made.
    CreatingOutputDirectory,
    /// The directory in which the package is put together is being made.
    CreatingStaging,
    /// The directory for the desktop entry is being made.
    CreatingInstallTree,
    /// The directory for the files of the project is being made.
    CreatingApplicationTree,
    /// The desktop entry is being copied.
    CopyingDesktopEntry,
    /// The files of the project are being copied.
    CopyingFiles,
    /// The archive is being written.
    WritingArchive,
    /// The build went well and clears its working directory.
    CleaningUp,
    /// The build went wrong and clears its working directory.
    CleaningUpAfterFailure,
    /// The package is written.
    Succeeded,
    /// The author did not allow the package file to be replaced.
    Cancelled,
    /// The build went wrong.
    Failed,
}

/// What the caller is to do next.
#[derive(Clone, Copy, Debug, PartialEq, Eq, Structural)]
pub enum BuildAction {
    /// Find out whether the package file exists: `Yes` or `No`.
    ProbeOutput,
    /// Ask the author whether the package file may be replaced: `Yes` or
    /// `No`.
    AskOverwrite,
    /// Make the directory that receives the package, unless it is there.
    CreateOutputDirectory,
    /// Make the directory in which the package is put together.
    CreateStaging,
    /// Make the directory for the desktop entry.
    CreateInstallTree,
    /// Make the directory for the files of the project.
    CreateApplicationTree,
    /// Copy the desktop entry into its directory.
    CopyDesktopEntry,
    /// Copy the file of the project at this position into its place.
    CopyFile(usize),
    /// Write the archive from what was put together.
    WriteArchive,
    /// Remove the directory in which the package was put together.
    RemoveStaging,
    /// Nothing: the build is over.
    Finish,
}

/// A build in progress.
#[derive(Clone, Copy, Debug, PartialEq, Eq, Structural)]
pub struct BuildState {
    pub phase: BuildPhase,
    /// How many files of the project have been dealt with.
    pub next_file: usize,
    /// How many files the project has.
    pub file_count: usize,
    /// Whether the project names a desktop entry.
    pub has_desktop_entry: bool,
}

/// Whether the build is over.
pub open spec fn is_final(phase: BuildPhase) -> bool {
    phase == BuildPhase::Succeeded || phase == BuildPhase::Cancelled || phase
        == BuildPhase::Failed
}

/// Whether an action changes anything on disk.
pub open spec fn touches_disk(action: BuildAction) -> bool {
    action != BuildAction::ProbeOutput && action != BuildAction::AskOverwrite && action
        != BuildAction::Finish
}

/// The state in which a build of a project with `file_count` files starts.
pub open spec fn initial_state(file_count: usize, has_desktop_entry: bool) -> BuildState {
    BuildState { phase: BuildPhase::ProbingOutput, next_file: 0, file_count, has_desktop_entry }
}

/// The copying of the next file, or the writing of the archive once no
/// file is left.
pub open spec fn files_or_archive(s: BuildState) -> (BuildState, BuildAction) {
    if s.next_file < s.file_count {
        (BuildState { phase: BuildPhase::CopyingFiles, ..s }, BuildAction::CopyFile(s.next_file))
    } else {
        (BuildState { phase: BuildPhase::WritingArchive, ..s }, BuildAction::WriteArchive)
    }
}

/// The state after the state `s` in which an action went as `outcome` says,
/// and the action to take then.
///
/// The package file is probed before anything is touched; if it is there,
/// or if that cannot be told, nothing goes on without the author's yes.
/// A directory that cannot be made ends the build. A desktop entry or a
/// file that is missing or cannot be copied does not: the build goes on to
/// the next file. Once the working directory exists, the build does not end
/// without an attempt to remove it, and how that attempt goes changes
/// nothing.
pub open spec fn next(s: BuildState, outcome: Outcome) -> (BuildState, BuildAction) {
    match s.phase {
        BuildPhase::ProbingOutput => if outcome == Outcome::No {
            (
                BuildState { phase: BuildPhase::CreatingOutputDirectory, ..s },
                BuildAction::CreateOutputDirectory,
            )
        } else {
            (BuildState { phase: BuildPhase::AwaitingConfirmation, ..s }, BuildAction::AskOverwrite)
        },
        BuildPhase::AwaitingConfirmation => if outcome == Outcome::Yes {
            (
                BuildState { phase: BuildPhase::CreatingOutputDirectory, ..s },
                BuildAction::CreateOutputDirectory,
            )
        } else {
            (BuildState { phase: BuildPhase::Cancelled, ..s }, BuildAction::Finish)
        },
        BuildPhase::CreatingOutputDirectory => if outcome == Outcome::Done {
            (BuildState { phase: BuildPhase::CreatingStaging, ..s }, BuildAction::CreateStaging)
        } else {
            (BuildState { phase: BuildPhase::Failed, ..s }, BuildAction::Finish)
        },
        BuildPhase::CreatingStaging => if outcome == Outcome::Done {
            (
                BuildState { phase: BuildPhase::CreatingInstallTree, ..s },
                BuildAction::CreateInstallTree,
            )
        } else {
            (BuildState { phase: BuildPhase::Failed, ..s }, BuildAction::Finish)
        },
        BuildPhase::CreatingInstallTree => if outcome == Outcome::Done {
            (
                BuildState { phase: BuildPhase::CreatingApplicationTree, ..s },
                BuildAction::CreateApplicationTree,
            )
        } else {
            (
                BuildState { phase: BuildPhase::CleaningUpAfterFailure, ..s },
                BuildAction::RemoveStaging,
            )
        },
        BuildPhase::CreatingApplicationTree => if outcome == Outcome::Done {
            if s.has_desktop_entry {
                (
                    BuildState { phase: BuildPhase::CopyingDesktopEntry, ..s },
                    BuildAction::CopyDesktopEntry,
                )
            } else {
                files_or_archive(s)
            }
        } else {
            (
                BuildState { phase: BuildPhase::CleaningUpAfterFailure, ..s },
                BuildAction::RemoveStaging,
            )
        },
        BuildPhase::CopyingDesktopEntry => files_or_archive(s),
        BuildPhase::CopyingFiles => if s.next_file < s.file_count {
            files_or_archive(BuildState { next_file: (s.next_file + 1) as usize, ..s })
        } else {
            files_or_archive(s)
        },
        BuildPhase::WritingArchive => if outcome == Outcome::Done {
            (BuildState { phase: BuildPhase::CleaningUp, ..s }, BuildAction::RemoveStaging)
        } else {
            (
                BuildState { phase: BuildPhase::CleaningUpAfterFailure, ..s },
                BuildAction::RemoveStaging,
            )
        },
        BuildPhase::CleaningUp => (
            BuildState { phase: BuildPhase::Succeeded, ..s },
            BuildAction::Finish,
        ),
        BuildPhase::CleaningUpAfterFailure => (
            BuildState { phase: BuildPhase::Failed, ..s },
            BuildAction::Finish,
        ),
        BuildPhase::Succeeded => (s, BuildAction::Finish),
        BuildPhase::Cancelled => (s, BuildAction::Finish),
        BuildPhase::Failed => (s, BuildAction::Finish),
    }
}

/// The state that a build reaches from `s` when its actions go as
/// `outcomes` say, one after the other.
pub open spec fn run(s: BuildState, outcomes: Seq<Outcome>) -> BuildState
    decreases outcomes.len(),
{
    if outcomes.len() == 0 {
        s
    } else {
        run(next(s, outcomes[0]).0, outcomes.skip(1))
    }
}

/// The actions that a build takes from `s` when its actions go as
/// `outcomes` say: one in answer to each outcome.
pub open spec fn actions(s: BuildState, outcomes: Seq<Outcome>) -> Seq<BuildAction>
    decreases outcomes.len(),
{
    if outcomes.len() == 0 {
        Seq::empty()
    } else {
        seq![next(s, outcomes[0]).1] + actions(next(s, outcomes[0]).0, outcomes.skip(1))
    }
}

impl BuildState {
    /// Starts the build of `project`. Nothing is done for a project that
    /// lacks a required field: all the missing fields are reported
    /// together. Otherwise the first thing to do is to find out whether the
    /// package file exists.
    pub fn start(project: &Project) -> (r: Result<(BuildState, BuildAction), LisError>)
        ensures
            missing_fields(project@).len() == 0 ==> (r matches Ok(begin) && begin.0
                == initial_state(
                project.files.len(),
                project@.metadata.desktop_file is Some,
            ) && begin.1 == BuildAction::ProbeOutput),
            missing_fields(project@).len() > 0 ==> (r matches Err(e) && e@
                == crate::error::LisErrorView::Validation { missing: missing_fields(project@) }),
    {
        match validate(project) {
            Ok(()) => Ok(
                (
                    BuildState {
                        phase: BuildPhase::ProbingOutput,
                        next_file: 0,
                        file_count: project.files.len(),
                        has_desktop_entry: project.metadata.desktop_file.is_some(),
                    },
                    BuildAction::ProbeOutput,
                ),
            ),
            Err(e) => Err(e),
        }
    }

    fn to_files_or_archive(self) -> (r: (BuildState, BuildAction))
        ensures
            r == files_or_archive(self),
    {
        if self.next_file < self.file_count {
            (
                BuildState { phase: BuildPhase::CopyingFiles, ..self },
                BuildAction::CopyFile(self.next_file),
            )
        } else {
            (BuildState { phase: BuildPhase::WritingArchive, ..self }, BuildAction::WriteArchive)
        }
    }

    fn to(self, phase: BuildPhase, action: BuildAction) -> (r: (BuildState, BuildAction))
        ensures
            r == (BuildState { phase, ..self }, action),
    {
        (BuildState { phase, ..self }, action)
    }

    /// Takes the report on the last action and says where the build stands
    /// now and what is to be done.
    pub fn step(self, outcome: Outcome) -> (r: (BuildState, BuildAction))
        ensures
            r == next(self, outcome),
    {
        match self.phase {
            BuildPhase::ProbingOutput => match outcome {
                Outcome::No => self.to(
                    BuildPhase::CreatingOutputDirectory,
                    BuildAction::CreateOutputDirectory,
                ),
                _ => self.to(BuildPhase::AwaitingConfirmation, BuildAction::AskOverwrite),
            },
            BuildPhase::AwaitingConfirmation => match outcome {
                Outcome::Yes => self.to(
                    BuildPhase::CreatingOutputDirectory,
                    BuildAction::CreateOutputDirectory,
                ),
                _ => self.to(BuildPhase::Cancelled, BuildAction::Finish),
            },
            BuildPhase::CreatingOutputDirectory => match outcome {
                Outcome::Done => self.to(BuildPhase::CreatingStaging, BuildAction::CreateStaging),
                _ => self.to(BuildPhase::Failed, BuildAction::Finish),
            },
            BuildPhase::CreatingStaging => match outcome {
                Outcome::Done => self.to(
                    BuildPhase::CreatingInstallTree,
                    BuildAction::CreateInstallTree,
                ),
                _ => self.to(BuildPhase::Failed, BuildAction::Finish),
            },
            BuildPhase::CreatingInstallTree => match outcome {
                Outcome::Done => self.to(
                    BuildPhase::CreatingApplicationTree,
                    BuildAction::CreateApplicationTree,
                ),
                _ => self.to(BuildPhase::CleaningUpAfterFailure, BuildAction::RemoveStaging),
            },
            BuildPhase::CreatingApplicationTree => match outcome {
                Outcome::Done => {
                    if self.has_desktop_entry {
                        self.to(BuildPhase::CopyingDesktopEntry, BuildAction::CopyDesktopEntry)
                    } else {
                        self.to_files_or_archive()
                    }
                },
                _ => self.to(BuildPhase::CleaningUpAfterFailure, BuildAction::RemoveStaging),
            },
            BuildPhase::CopyingDesktopEntry => self.to_files_or_archive(),
            BuildPhase::CopyingFiles => {
                if self.next_file < self.file_count {
                    let advanced = BuildState { next_file: self.next_file + 1, ..self };
                    advanced.to_files_or_archive()
                } else {
                    self.to_files_or_archive()
                }
            },
            BuildPhase::WritingArchive => match outcome {
                Outcome::Done => self.to(BuildPhase::CleaningUp, BuildAction::RemoveStaging),
                _ => self.to(BuildPhase::CleaningUpAfterFailure, BuildAction::RemoveStaging),
            },
            BuildPhase::CleaningUp => self.to(BuildPhase::Succeeded, BuildAction::Finish),
            BuildPhase::CleaningUpAfterFailure => self.to(BuildPhase::Failed, BuildAction::Finish),
            BuildPhase::Succeeded => (self, BuildAction::Finish),
            BuildPhase::Cancelled => (self, BuildAction::Finish),
            BuildPhase::Failed => (self, BuildAction::Finish),
        }
    }

    /// Whether the build is over.
    pub fn is_over(&self) -> (r: bool)
        ensures
            r == is_final(self.phase),
    {
        match self.phase {
            BuildPhase::Succeeded => true,
            BuildPhase::Cancelled => true,
            BuildPhase::Failed => true,
            _ => false,
        }
    }
}

/// A build that is over stays over and asks for nothing more.
pub proof fn lemma_final_states_are_final(s: BuildState, outcomes: Seq<Outcome>)
    requires
        is_final(s.phase),
    ensures
        run(s, outcomes) == s,
        forall|i: int| 0 <= i < actions(s, outcomes).len() ==> actions(s, outcomes)[i]
            == BuildAction::Finish,
        actions(s, outcomes).len() == outcomes.len(),
    decreases outcomes.len(),
{
    if outcomes.len() > 0 {
        lemma_final_states_are_final(s, outcomes.skip(1));
    }
}

/// While files are copied, nothing that is reported stops the build: a file
/// that is missing, or that cannot be copied, is passed over, and once each
/// file has had its turn the archive is written.
pub proof fn lemma_copying_always_reaches_the_archive(s: BuildState, outcomes: Seq<Outcome>)
    requires
        s.phase == BuildPhase::CopyingFiles,
        s.next_file < s.file_count,
        outcomes.len() == s.file_count - s.next_file,
    ensures
        run(s, outcomes) == (BuildState {
            phase: BuildPhase::WritingArchive,
            next_file: s.file_count,
            ..s
        }),
        actions(s, outcomes).last() == BuildAction::WriteArchive,
        forall|i: int|
            0 <= i < outcomes.len() - 1 ==> #[trigger] actions(s, outcomes)[i]
                == BuildAction::CopyFile((s.next_file + 1 + i) as usize),
        actions(s, outcomes).len() == outcomes.len(),
    decreases outcomes.len(),
{
    let (t, a) = next(s, outcomes[0]);
    let rest = outcomes.skip(1);
    if s.next_file + 1 < s.file_count {
        lemma_copying_always_reaches_the_archive(t, rest);
        assert forall|i: int| 0 <= i < outcomes.len() - 1 implies #[trigger] actions(
            s,
            outcomes,
        )[i] == BuildAction::CopyFile((s.next_file + 1 + i) as usize) by {
            if i > 0 {
                assert(actions(s, outcomes)[i] == actions(t, rest)[i - 1]);
            }
        }
        assert(actions(s, outcomes).last() == actions(t, rest).last());
    } else {
        assert(rest.len() == 0);
        assert(run(t, rest) == t);
        assert(actions(t, rest) =~= Seq::empty());
        assert(actions(s, outcomes) =~= seq![a]);
    }
}

/// Once the application's tree is made, each file of the project has its
/// turn, once and in the project's order, whatever is reported of the
/// desktop entry and of the files before it; then the archive is written.
pub proof fn lemma_each_file_has_its_turn(s: BuildState, outcomes: Seq<Outcome>)
    requires
        s.phase == BuildPhase::CopyingDesktopEntry || (s.phase
            == BuildPhase::CreatingApplicationTree && !s.has_desktop_entry && outcomes[0]
            == Outcome::Done),
        s.next_file == 0,
        outcomes.len() == s.file_count + 1,
    ensures
        actions(s, outcomes).len() == s.file_count + 1,
        forall|i: int|
            0 <= i < s.file_count ==> #[trigger] actions(s, outcomes)[i] == BuildAction::CopyFile(
                i as usize,
            ),
        actions(s, outcomes)[s.file_count as int] == BuildAction::WriteArchive,
        run(s, outcomes).phase == BuildPhase::WritingArchive,
{
    let (t, a) = next(s, outcomes[0]);
    let rest = outcomes.skip(1);
    let acts = actions(s, outcomes);
    assert(acts == seq![a] + actions(t, rest));
    assert(run(s, outcomes) == run(t, rest));
    if s.file_count == 0 {
        assert(rest.len() == 0);
        assert(run(t, rest) == t);
        assert(actions(t, rest) =~= Seq::empty());
        assert(acts =~= seq![a]);
    } else {
        lemma_copying_always_reaches_the_archive(t, rest);
        assert(acts.len() == s.file_count + 1);
        assert(acts[0] == a);
        assert forall|i: int| 0 <= i < s.file_count implies #[trigger] acts[i]
            == BuildAction::CopyFile(i as usize) by {
            if i > 0 {
                assert(acts[i] == actions(t, rest)[i - 1]);
            }
        }
        assert(acts[s.file_count as int] == actions(t, rest).last());
    }
}

/// A package file that exists is not replaced without the author's yes:
/// when the file is there, or when that cannot be told, the next thing is
/// the question, and after any answer but yes the build is over with
/// nothing on disk touched, whatever is reported afterwards.
pub proof fn lemma_no_overwrite_without_confirmation(s: BuildState, outcomes: Seq<Outcome>)
    requires
        s.phase == BuildPhase::ProbingOutput,
        outcomes.len() >= 2,
        outcomes[0] != Outcome::No,
        outcomes[1] != Outcome::Yes,
    ensures
        actions(s, outcomes)[0] == BuildAction::AskOverwrite,
        run(s, outcomes).phase == BuildPhase::Cancelled,
        actions(s, outcomes).len() == outcomes.len(),
        forall|i: int|
            0 <= i < outcomes.len() ==> !touches_disk(#[trigger] actions(s, outcomes)[i]),
{
    let s1 = next(s, outcomes[0]).0;
    let rest1 = outcomes.skip(1);
    let s2 = next(s1, rest1[0]).0;
    let later = rest1.skip(1);
    lemma_final_states_are_final(s2, later);
    assert(run(s, outcomes) == run(s1, rest1));
    assert(run(s1, rest1) == run(s2, later));
    let acts = actions(s, outcomes);
    assert(acts == seq![BuildAction::AskOverwrite] + actions(s1, rest1));
    assert(actions(s1, rest1) == seq![BuildAction::Finish] + actions(s2, later));
    assert(acts =~= seq![BuildAction::AskOverwrite] + (seq![BuildAction::Finish] + actions(
        s2,
        later,
    )));
    assert forall|i: int| 0 <= i < outcomes.len() implies !touches_disk(#[trigger] acts[i]) by {
        if i >= 2 {
            assert(acts[i] == actions(s2, later)[i - 2]);
        }
    }
}

/// Nothing on disk is touched before the package file was probed and, if
/// it was there, before the author said yes.
pub proof fn lemma_disk_is_touched_only_after_the_gate(s: BuildState, outcome: Outcome)
    requires
        touches_disk(next(s, outcome).1),
    ensures
        s.phase == BuildPhase::ProbingOutput ==> outcome == Outcome::No,
        s.phase == BuildPhase::AwaitingConfirmation ==> outcome == Outcome::Yes,
        !is_final(s.phase),
{
}

} // verus!

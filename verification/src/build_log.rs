//! What a build tells the author: a line for each step, a line for what
//! went wrong, and the error that a failed build ends with.

use crate::build_steps::{BuildAction, BuildPhase, BuildState, Outcome};
use crate::error::{LisError, LisErrorView};
use crate::packaging::{output_path, output_path_of};
use crate::paths::{file_name, file_name_of, join, joined};
use crate::project::{Project, ProjectView};
use crate::text::append_str;
use vstd::prelude::*;

verus! {

/// The line that tells of a step that is about to be taken.
pub open spec fn announcement_of(p: ProjectView, staging: Seq<char>, action: BuildAction) -> Seq<
    char,
> {
    match action {
        BuildAction::ProbeOutput => "Starting build process..."@,
        BuildAction::AskOverwrite => "File exists at "@ + output_path_of(p)
            + ". Asking for overwrite..."@,
        BuildAction::CreateOutputDirectory => "Creating output directory: "@
            + p.metadata.output_directory,
        BuildAction::CreateStaging => "Creating temporary build directory: "@ + staging,
        BuildAction::CreateInstallTree => "Populating install/ folder..."@,
        BuildAction::CreateApplicationTree => "Populating application/ folder..."@,
        BuildAction::CopyDesktopEntry => match p.metadata.desktop_file {
            Some(path) => "Copying: "@ + path + " -> install/"@ + match file_name_of(path) {
                Some(n) => n,
                None => Seq::empty(),
            },
            None => "WARNING: No desktop file specified"@,
        },
        BuildAction::CopyFile(i) => if i < p.files.len() {
            "Copying: "@ + p.files[i as int].source + " -> application/"@
                + p.files[i as int].destination
        } else {
            Seq::empty()
        },
        BuildAction::WriteArchive => "Creating package file: "@ + output_path_of(p),
        BuildAction::RemoveStaging => "Cleaning up temporary directory..."@,
        BuildAction::Finish => Seq::empty(),
    }
}

/// The line that tells how a build ended; empty while it goes on.
pub open spec fn conclusion_of(phase: BuildPhase) -> Seq<char> {
    match phase {
        BuildPhase::Succeeded => "Build Successful!"@,
        BuildPhase::Cancelled => "Build cancelled by user."@,
        BuildPhase::Failed => "Build Failed"@,
        _ => Seq::empty(),
    }
}

/// The line, if any, that tells of how the action taken in the state `s`
/// went: a warning for what was passed over, an error for what went wrong.
/// `cause` is the reason that the system gave.
pub open spec fn complaint_of(p: ProjectView, s: BuildState, outcome: Outcome, cause: Seq<char>)
    -> Option<Seq<char>> {
    match s.phase {
        BuildPhase::ProbingOutput => None,
        BuildPhase::AwaitingConfirmation => if outcome == Outcome::Yes {
            Some("Overwrite confirmed."@)
        } else {
            None
        },
        BuildPhase::CreatingOutputDirectory => if outcome == Outcome::Done {
            None
        } else {
            Some("ERROR: Could not create output directory: "@ + cause)
        },
        BuildPhase::CreatingStaging => if outcome == Outcome::Done {
            None
        } else {
            Some("ERROR: Could not create temp directory: "@ + cause)
        },
        BuildPhase::CreatingInstallTree => if outcome == Outcome::Done {
            None
        } else {
            Some("ERROR: Could not create install directory: "@ + cause)
        },
        BuildPhase::CreatingApplicationTree => if outcome == Outcome::Done {
            if s.has_desktop_entry {
                None
            } else {
                Some("WARNING: No desktop file specified"@)
            }
        } else {
            Some("ERROR: Could not create application directory: "@ + cause)
        },
        BuildPhase::CopyingDesktopEntry => if outcome == Outcome::Done {
            None
        } else if outcome == Outcome::Missing {
            Some("WARNING: Desktop file not found"@)
        } else {
            Some("ERROR copying desktop file: "@ + cause)
        },
        BuildPhase::CopyingFiles => if outcome == Outcome::Done {
            None
        } else if outcome == Outcome::Missing && s.next_file < p.files.len() {
            Some("WARNING: File not found: "@ + p.files[s.next_file as int].source)
        } else {
            Some("ERROR copying file: "@ + cause)
        },
        BuildPhase::WritingArchive => if outcome == Outcome::Done {
            None
        } else {
            Some("ERROR: Could not create package file: "@ + cause)
        },
        BuildPhase::CleaningUp => if outcome == Outcome::Done {
            None
        } else {
            Some("WARNING: Could not remove temporary directory: "@ + cause)
        },
        BuildPhase::CleaningUpAfterFailure => if outcome == Outcome::Done {
            None
        } else {
            Some("WARNING: Could not remove temporary directory: "@ + cause)
        },
        BuildPhase::Succeeded => None,
        BuildPhase::Cancelled => None,
        BuildPhase::Failed => None,
    }
}

/// The error with which a build ends when the action taken in `phase` went
/// wrong for the reason `cause`: it names what could not be made.
pub open spec fn failure_of(p: ProjectView, staging: Seq<char>, phase: BuildPhase, cause: Seq<char>)
    -> LisErrorView {
    match phase {
        BuildPhase::CreatingOutputDirectory => LisErrorView::Io {
            context: "Could not create output directory"@,
            path: p.metadata.output_directory,
            cause,
        },
        BuildPhase::CreatingStaging => LisErrorView::Io {
            context: "Could not create temp directory"@,
            path: staging,
            cause,
        },
        BuildPhase::CreatingInstallTree => LisErrorView::Io {
            context: "Could not create install directory"@,
            path: joined(staging, "install"@),
            cause,
        },
        BuildPhase::CreatingApplicationTree => LisErrorView::Io {
            context: "Could not create application directory"@,
            path: joined(staging, "application"@),
            cause,
        },
        _ => LisErrorView::Io {
            context: "Could not create package file"@,
            path: output_path_of(p),
            cause,
        },
    }
}

/// The line that tells of a step that is about to be taken.
pub fn announcement(project: &Project, staging: &str, action: BuildAction) -> (r: String)
    ensures
        r@ == announcement_of(project@, staging@, action),
{
    match action {
        BuildAction::ProbeOutput => "Starting build process...".to_owned(),
        BuildAction::AskOverwrite => {
            let a = append_str("File exists at ", output_path(project).as_str());
            append_str(a.as_str(), ". Asking for overwrite...")
        },
        BuildAction::CreateOutputDirectory => append_str(
            "Creating output directory: ",
            project.metadata.output_directory.as_str(),
        ),
        BuildAction::CreateStaging => append_str("Creating temporary build directory: ", staging),
        BuildAction::CreateInstallTree => "Populating install/ folder...".to_owned(),
        BuildAction::CreateApplicationTree => "Populating application/ folder...".to_owned(),
        BuildAction::CopyDesktopEntry => match &project.metadata.desktop_file {
            Some(path) => {
                let name = match file_name(path.as_str()) {
                    Some(n) => n,
                    None => String::new(),
                };
                let a = append_str("Copying: ", path.as_str());
                let b = append_str(a.as_str(), " -> install/");
                append_str(b.as_str(), name.as_str())
            },
            None => "WARNING: No desktop file specified".to_owned(),
        },
        BuildAction::CopyFile(i) => {
            if i < project.files.len() {
                let f = &project.files[i];
                let a = append_str("Copying: ", f.source.as_str());
                let b = append_str(a.as_str(), " -> application/");
                append_str(b.as_str(), f.destination.as_str())
            } else {
                String::new()
            }
        },
        BuildAction::WriteArchive => append_str(
            "Creating package file: ",
            output_path(project).as_str(),
        ),
        BuildAction::RemoveStaging => "Cleaning up temporary directory...".to_owned(),
        BuildAction::Finish => String::new(),
    }
}

/// The line that tells how a build ended; empty while it goes on.
pub fn conclusion(phase: BuildPhase) -> (r: String)
    ensures
        r@ == conclusion_of(phase),
{
    match phase {
        BuildPhase::Succeeded => "Build Successful!".to_owned(),
        BuildPhase::Cancelled => "Build cancelled by user.".to_owned(),
        BuildPhase::Failed => "Build Failed".to_owned(),
        _ => String::new(),
    }
}

fn with_cause(text: &str, cause: &str) -> (r: Option<String>)
    ensures
        r matches Some(line) && line@ == text@ + cause@,
{
    Some(append_str(text, cause))
}

/// The line, if any, that tells of how the action taken in `state` went.
pub fn complaint(project: &Project, state: BuildState, outcome: Outcome, cause: &str) -> (r:
    Option<String>)
    ensures
        crate::text::opt_view(r) == complaint_of(project@, state, outcome, cause@),
{
    let done = match outcome {
        Outcome::Done => true,
        _ => false,
    };
    let missing = match outcome {
        Outcome::Missing => true,
        _ => false,
    };
    let yes = match outcome {
        Outcome::Yes => true,
        _ => false,
    };
    match state.phase {
        BuildPhase::ProbingOutput => None,
        BuildPhase::AwaitingConfirmation => {
            if yes {
                Some("Overwrite confirmed.".to_owned())
            } else {
                None
            }
        },
        BuildPhase::CreatingOutputDirectory => {
            if done {
                None
            } else {
                with_cause("ERROR: Could not create output directory: ", cause)
            }
        },
        BuildPhase::CreatingStaging => {
            if done {
                None
            } else {
                with_cause("ERROR: Could not create temp directory: ", cause)
            }
        },
        BuildPhase::CreatingInstallTree => {
            if done {
                None
            } else {
                with_cause("ERROR: Could not create install directory: ", cause)
            }
        },
        BuildPhase::CreatingApplicationTree => {
            if done {
                if state.has_desktop_entry {
                    None
                } else {
                    Some("WARNING: No desktop file specified".to_owned())
                }
            } else {
                with_cause("ERROR: Could not create application directory: ", cause)
            }
        },
        BuildPhase::CopyingDesktopEntry => {
            if done {
                None
            } else if missing {
                Some("WARNING: Desktop file not found".to_owned())
            } else {
                with_cause("ERROR copying desktop file: ", cause)
            }
        },
        BuildPhase::CopyingFiles => {
            if done {
                None
            } else if missing && state.next_file < project.files.len() {
                with_cause(
                    "WARNING: File not found: ",
                    project.files[state.next_file].source.as_str(),
                )
            } else {
                with_cause("ERROR copying file: ", cause)
            }
        },
        BuildPhase::WritingArchive => {
            if done {
                None
            } else {
                with_cause("ERROR: Could not create package file: ", cause)
            }
        },
        BuildPhase::CleaningUp => {
            if done {
                None
            } else {
                with_cause("WARNING: Could not remove temporary directory: ", cause)
            }
        },
        BuildPhase::CleaningUpAfterFailure => {
            if done {
                None
            } else {
                with_cause("WARNING: Could not remove temporary directory: ", cause)
            }
        },
        BuildPhase::Succeeded => None,
        BuildPhase::Cancelled => None,
        BuildPhase::Failed => None,
    }
}

/// The error with which a build ends when the action taken in `phase` went
/// wrong.
pub fn failure(project: &Project, staging: &str, phase: BuildPhase, cause: &str) -> (r: LisError)
    ensures
        r@ == failure_of(project@, staging@, phase, cause@),
{
    match phase {
        BuildPhase::CreatingOutputDirectory => LisError::Io {
            context: "Could not create output directory".to_owned(),
            path: project.metadata.output_directory.clone(),
            cause: cause.to_owned(),
        },
        BuildPhase::CreatingStaging => LisError::Io {
            context: "Could not create temp directory".to_owned(),
            path: staging.to_owned(),
            cause: cause.to_owned(),
        },
        BuildPhase::CreatingInstallTree => LisError::Io {
            context: "Could not create install directory".to_owned(),
            path: join(staging, "install"),
            cause: cause.to_owned(),
        },
        BuildPhase::CreatingApplicationTree => LisError::Io {
            context: "Could not create application directory".to_owned(),
            path: join(staging, "application"),
            cause: cause.to_owned(),
        },
        _ => LisError::Io {
            context: "Could not create package file".to_owned(),
            path: output_path(project),
            cause: cause.to_owned(),
        },
    }
}

} // verus!

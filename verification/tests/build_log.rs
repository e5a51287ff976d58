use liblis::build_log::{announcement, complaint, conclusion, failure};
use liblis::build_steps::{BuildAction, BuildPhase, BuildState, Outcome};
use liblis::error::LisError;
use liblis::project::{Project, ProjectFile};

fn project() -> Project {
    let mut p = Project::new();
    p.metadata.output_directory = "/out".to_string();
    p.package_name = "app.lis".to_string();
    p.metadata.desktop_file = Some("/src/data/app.desktop".to_string());
    p.files.push(ProjectFile {
        source: "/src/bin/app".to_string(),
        destination: "bin/app".to_string(),
        permissions: Some("755".to_string()),
    });
    p
}

fn state(phase: BuildPhase) -> BuildState {
    BuildState { phase, next_file: 0, file_count: 1, has_desktop_entry: true }
}

#[test]
fn each_step_is_announced() {
    let p = project();
    let s = "/tmp/stage";
    assert_eq!(announcement(&p, s, BuildAction::ProbeOutput), "Starting build process...");
    assert_eq!(
        announcement(&p, s, BuildAction::AskOverwrite),
        "File exists at /out/app.lis. Asking for overwrite..."
    );
    assert_eq!(
        announcement(&p, s, BuildAction::CreateOutputDirectory),
        "Creating output directory: /out"
    );
    assert_eq!(
        announcement(&p, s, BuildAction::CreateStaging),
        "Creating temporary build directory: /tmp/stage"
    );
    assert_eq!(announcement(&p, s, BuildAction::CreateInstallTree), "Populating install/ folder...");
    assert_eq!(
        announcement(&p, s, BuildAction::CreateApplicationTree),
        "Populating application/ folder..."
    );
    assert_eq!(
        announcement(&p, s, BuildAction::CopyDesktopEntry),
        "Copying: /src/data/app.desktop -> install/app.desktop"
    );
    assert_eq!(
        announcement(&p, s, BuildAction::CopyFile(0)),
        "Copying: /src/bin/app -> application/bin/app"
    );
    assert_eq!(announcement(&p, s, BuildAction::CopyFile(1)), "");
    assert_eq!(
        announcement(&p, s, BuildAction::WriteArchive),
        "Creating package file: /out/app.lis"
    );
    assert_eq!(
        announcement(&p, s, BuildAction::RemoveStaging),
        "Cleaning up temporary directory..."
    );
    assert_eq!(announcement(&p, s, BuildAction::Finish), "");
    let mut q = project();
    q.metadata.desktop_file = None;
    assert_eq!(
        announcement(&q, s, BuildAction::CopyDesktopEntry),
        "WARNING: No desktop file specified"
    );
}

#[test]
fn the_end_of_a_build_is_told() {
    assert_eq!(conclusion(BuildPhase::Succeeded), "Build Successful!");
    assert_eq!(conclusion(BuildPhase::Cancelled), "Build cancelled by user.");
    assert_eq!(conclusion(BuildPhase::Failed), "Build Failed");
    assert_eq!(conclusion(BuildPhase::CopyingFiles), "");
    assert_eq!(conclusion(BuildPhase::ProbingOutput), "");
}

#[test]
fn what_goes_wrong_is_told() {
    let p = project();
    let line = |phase, outcome| complaint(&p, state(phase), outcome, "disk full");
    assert_eq!(line(BuildPhase::ProbingOutput, Outcome::Yes), None);
    assert_eq!(
        line(BuildPhase::AwaitingConfirmation, Outcome::Yes),
        Some("Overwrite confirmed.".to_string())
    );
    assert_eq!(line(BuildPhase::AwaitingConfirmation, Outcome::No), None);
    assert_eq!(line(BuildPhase::CreatingOutputDirectory, Outcome::Done), None);
    assert_eq!(
        line(BuildPhase::CreatingOutputDirectory, Outcome::Failed),
        Some("ERROR: Could not create output directory: disk full".to_string())
    );
    assert_eq!(
        line(BuildPhase::CreatingStaging, Outcome::Failed),
        Some("ERROR: Could not create temp directory: disk full".to_string())
    );
    assert_eq!(
        line(BuildPhase::CreatingInstallTree, Outcome::Failed),
        Some("ERROR: Could not create install directory: disk full".to_string())
    );
    assert_eq!(
        line(BuildPhase::CreatingApplicationTree, Outcome::Failed),
        Some("ERROR: Could not create application directory: disk full".to_string())
    );
    assert_eq!(line(BuildPhase::CreatingApplicationTree, Outcome::Done), None);
    assert_eq!(line(BuildPhase::CopyingDesktopEntry, Outcome::Done), None);
    assert_eq!(
        line(BuildPhase::CopyingDesktopEntry, Outcome::Missing),
        Some("WARNING: Desktop file not found".to_string())
    );
    assert_eq!(
        line(BuildPhase::CopyingDesktopEntry, Outcome::Failed),
        Some("ERROR copying desktop file: disk full".to_string())
    );
    assert_eq!(line(BuildPhase::CopyingFiles, Outcome::Done), None);
    assert_eq!(
        line(BuildPhase::CopyingFiles, Outcome::Missing),
        Some("WARNING: File not found: /src/bin/app".to_string())
    );
    assert_eq!(
        line(BuildPhase::CopyingFiles, Outcome::Failed),
        Some("ERROR copying file: disk full".to_string())
    );
    assert_eq!(
        line(BuildPhase::WritingArchive, Outcome::Failed),
        Some("ERROR: Could not create package file: disk full".to_string())
    );
    assert_eq!(line(BuildPhase::WritingArchive, Outcome::Done), None);
    assert_eq!(
        line(BuildPhase::CleaningUp, Outcome::Failed),
        Some("WARNING: Could not remove temporary directory: disk full".to_string())
    );
    assert_eq!(line(BuildPhase::CleaningUpAfterFailure, Outcome::Done), None);
    assert_eq!(line(BuildPhase::Succeeded, Outcome::Failed), None);
}

#[test]
fn a_project_without_desktop_entry_is_warned_about() {
    let p = project();
    let s = BuildState {
        phase: BuildPhase::CreatingApplicationTree,
        next_file: 0,
        file_count: 1,
        has_desktop_entry: false,
    };
    assert_eq!(
        complaint(&p, s, Outcome::Done, ""),
        Some("WARNING: No desktop file specified".to_string())
    );
}

#[test]
fn a_failed_build_names_what_could_not_be_made() {
    let p = project();
    let s = "/tmp/stage";
    let io = |context: &str, path: &str| LisError::Io {
        context: context.to_string(),
        path: path.to_string(),
        cause: "denied".to_string(),
    };
    assert_eq!(
        failure(&p, s, BuildPhase::CreatingOutputDirectory, "denied"),
        io("Could not create output directory", "/out")
    );
    assert_eq!(
        failure(&p, s, BuildPhase::CreatingStaging, "denied"),
        io("Could not create temp directory", "/tmp/stage")
    );
    assert_eq!(
        failure(&p, s, BuildPhase::CreatingInstallTree, "denied"),
        io("Could not create install directory", "/tmp/stage/install")
    );
    assert_eq!(
        failure(&p, s, BuildPhase::CreatingApplicationTree, "denied"),
        io("Could not create application directory", "/tmp/stage/application")
    );
    assert_eq!(
        failure(&p, s, BuildPhase::WritingArchive, "denied"),
        io("Could not create package file", "/out/app.lis")
    );
    assert_eq!(
        failure(&p, s, BuildPhase::WritingArchive, "denied").message(),
        "Could not create package file (/out/app.lis): denied"
    );
}

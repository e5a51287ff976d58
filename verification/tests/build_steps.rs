use liblis::build_steps::{BuildAction, BuildPhase, BuildState, Outcome};
use liblis::error::{LisError, RequiredField};
use liblis::project::{Project, ProjectFile};

fn project(files: usize, desktop: bool) -> Project {
    let mut p = Project::new();
    p.metadata.author = "Me".to_string();
    p.metadata.description = "D".to_string();
    for i in 0..files {
        p.files.push(ProjectFile::from_source(&format!("/src/file{}", i)));
    }
    if desktop {
        p.metadata.desktop_file = Some("/src/data/app.desktop".to_string());
    }
    p
}

fn drive(p: &Project, outcomes: &[Outcome]) -> (BuildState, Vec<BuildAction>) {
    let (mut state, first) = BuildState::start(p).unwrap();
    let mut actions = vec![first];
    for o in outcomes {
        let (next, action) = state.step(*o);
        state = next;
        actions.push(action);
    }
    (state, actions)
}

fn all_outcomes() -> Vec<Outcome> {
    vec![Outcome::Done, Outcome::Missing, Outcome::Failed, Outcome::Yes, Outcome::No]
}

#[test]
fn a_project_with_missing_fields_is_not_built() {
    let mut p = project(1, false);
    p.metadata.author = " ".to_string();
    p.package_name = String::new();
    assert_eq!(
        BuildState::start(&p),
        Err(LisError::Validation {
            missing: vec![RequiredField::Author, RequiredField::PackageName]
        })
    );
}

#[test]
fn a_build_begins_by_probing_the_package_file() {
    let (state, action) = BuildState::start(&project(2, true)).unwrap();
    assert_eq!(
        state,
        BuildState {
            phase: BuildPhase::ProbingOutput,
            next_file: 0,
            file_count: 2,
            has_desktop_entry: true
        }
    );
    assert_eq!(action, BuildAction::ProbeOutput);
}

#[test]
fn a_build_goes_through_its_steps_in_order() {
    let p = project(2, true);
    let outcomes = [
        Outcome::No,
        Outcome::Done,
        Outcome::Done,
        Outcome::Done,
        Outcome::Done,
        Outcome::Done,
        Outcome::Done,
        Outcome::Done,
        Outcome::Done,
        Outcome::Done,
    ];
    let (state, actions) = drive(&p, &outcomes);
    assert_eq!(
        actions,
        vec![
            BuildAction::ProbeOutput,
            BuildAction::CreateOutputDirectory,
            BuildAction::CreateStaging,
            BuildAction::CreateInstallTree,
            BuildAction::CreateApplicationTree,
            BuildAction::CopyDesktopEntry,
            BuildAction::CopyFile(0),
            BuildAction::CopyFile(1),
            BuildAction::WriteArchive,
            BuildAction::RemoveStaging,
            BuildAction::Finish,
        ]
    );
    assert_eq!(state.phase, BuildPhase::Succeeded);
    assert!(state.is_over());
}

#[test]
fn a_project_without_desktop_entry_or_files_goes_straight_to_the_archive() {
    let p = project(0, false);
    let (state, actions) = drive(&p, &[Outcome::No, Outcome::Done, Outcome::Done, Outcome::Done, Outcome::Done]);
    assert_eq!(actions.last(), Some(&BuildAction::WriteArchive));
    assert_eq!(state.phase, BuildPhase::WritingArchive);
    assert!(!state.is_over());
}

#[test]
fn an_existing_package_file_needs_a_yes() {
    let p = project(1, false);
    let (state, actions) = drive(&p, &[Outcome::Yes]);
    assert_eq!(actions[1], BuildAction::AskOverwrite);
    assert_eq!(state.phase, BuildPhase::AwaitingConfirmation);
    let (confirmed, action) = state.step(Outcome::Yes);
    assert_eq!(confirmed.phase, BuildPhase::CreatingOutputDirectory);
    assert_eq!(action, BuildAction::CreateOutputDirectory);
    for o in all_outcomes() {
        if o == Outcome::Yes {
            continue;
        }
        let (declined, action) = state.step(o);
        assert_eq!(declined.phase, BuildPhase::Cancelled);
        assert_eq!(action, BuildAction::Finish);
        for later in all_outcomes() {
            assert_eq!(declined.step(later), (declined, BuildAction::Finish));
        }
    }
}

#[test]
fn a_probe_that_cannot_tell_asks_too() {
    let p = project(1, false);
    for o in all_outcomes() {
        let (state, actions) = drive(&p, &[o]);
        if o == Outcome::No {
            assert_eq!(actions[1], BuildAction::CreateOutputDirectory);
            assert_eq!(state.phase, BuildPhase::CreatingOutputDirectory);
        } else {
            assert_eq!(actions[1], BuildAction::AskOverwrite);
            assert_eq!(state.phase, BuildPhase::AwaitingConfirmation);
        }
    }
}

#[test]
fn missing_files_do_not_stop_a_build() {
    let p = project(3, true);
    let prefix = [Outcome::No, Outcome::Done, Outcome::Done, Outcome::Done, Outcome::Done];
    for a in all_outcomes() {
        for b in all_outcomes() {
            for c in all_outcomes() {
                for d in all_outcomes() {
                    let mut outcomes = prefix.to_vec();
                    outcomes.extend_from_slice(&[a, b, c, d]);
                    let (state, actions) = drive(&p, &outcomes);
                    assert_eq!(state.phase, BuildPhase::WritingArchive);
                    assert_eq!(state.next_file, 3);
                    assert_eq!(
                        &actions[5..],
                        &[
                            BuildAction::CopyDesktopEntry,
                            BuildAction::CopyFile(0),
                            BuildAction::CopyFile(1),
                            BuildAction::CopyFile(2),
                            BuildAction::WriteArchive,
                        ]
                    );
                    let (after, action) = state.step(Outcome::Done);
                    assert_eq!(after.phase, BuildPhase::CleaningUp);
                    assert_eq!(action, BuildAction::RemoveStaging);
                }
            }
        }
    }
}

#[test]
fn a_directory_that_cannot_be_made_ends_the_build() {
    let p = project(1, true);
    let (state, actions) = drive(&p, &[Outcome::No, Outcome::Failed]);
    assert_eq!(state.phase, BuildPhase::Failed);
    assert_eq!(actions.last(), Some(&BuildAction::Finish));
    let (state, actions) = drive(&p, &[Outcome::No, Outcome::Done, Outcome::Failed]);
    assert_eq!(state.phase, BuildPhase::Failed);
    assert_eq!(actions.last(), Some(&BuildAction::Finish));
    let (state, actions) = drive(&p, &[Outcome::No, Outcome::Done, Outcome::Done, Outcome::Failed]);
    assert_eq!(state.phase, BuildPhase::CleaningUpAfterFailure);
    assert_eq!(actions.last(), Some(&BuildAction::RemoveStaging));
    let (state, actions) =
        drive(&p, &[Outcome::No, Outcome::Done, Outcome::Done, Outcome::Done, Outcome::Failed]);
    assert_eq!(state.phase, BuildPhase::CleaningUpAfterFailure);
    assert_eq!(actions.last(), Some(&BuildAction::RemoveStaging));
    for o in all_outcomes() {
        let (end, action) = state.step(o);
        assert_eq!(end.phase, BuildPhase::Failed);
        assert_eq!(action, BuildAction::Finish);
        assert!(end.is_over());
    }
}

#[test]
fn an_archive_that_cannot_be_written_fails_after_cleaning_up() {
    let p = project(0, false);
    let (state, _) = drive(&p, &[Outcome::No, Outcome::Done, Outcome::Done, Outcome::Done, Outcome::Done]);
    let (state, action) = state.step(Outcome::Failed);
    assert_eq!(state.phase, BuildPhase::CleaningUpAfterFailure);
    assert_eq!(action, BuildAction::RemoveStaging);
    let (state, action) = state.step(Outcome::Done);
    assert_eq!(state.phase, BuildPhase::Failed);
    assert_eq!(action, BuildAction::Finish);
}

#[test]
fn a_failed_cleanup_does_not_fail_a_good_build() {
    let p = project(0, false);
    let (state, _) = drive(
        &p,
        &[Outcome::No, Outcome::Done, Outcome::Done, Outcome::Done, Outcome::Done, Outcome::Done],
    );
    assert_eq!(state.phase, BuildPhase::CleaningUp);
    for o in all_outcomes() {
        let (end, action) = state.step(o);
        assert_eq!(end.phase, BuildPhase::Succeeded);
        assert_eq!(action, BuildAction::Finish);
    }
}

#[test]
fn each_file_has_one_turn_whatever_is_reported() {
    for desktop in [false, true] {
        for count in 0..5usize {
            for report in all_outcomes() {
                let p = project(count, desktop);
                let mut outcomes =
                    vec![Outcome::No, Outcome::Done, Outcome::Done, Outcome::Done, Outcome::Done];
                if desktop {
                    outcomes.push(report);
                }
                for _file in 0..count {
                    outcomes.push(report);
                }
                let (state, actions) = drive(&p, &outcomes);
                let copies: Vec<BuildAction> = actions
                    .iter()
                    .copied()
                    .filter(|a| matches!(a, BuildAction::CopyFile(_)))
                    .collect();
                assert_eq!(
                    copies,
                    (0..count).map(BuildAction::CopyFile).collect::<Vec<BuildAction>>()
                );
                assert_eq!(actions.last(), Some(&BuildAction::WriteArchive));
                assert_eq!(state.phase, BuildPhase::WritingArchive);
            }
        }
    }
}

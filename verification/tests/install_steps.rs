use liblis::error::LisError;
use liblis::install_steps::{
    InstallAction, InstallOutcome, InstallPhase, Installation, Placement, Progress,
};
use liblis::metadata::{FileEntry, Metadata};
use liblis::packaging::build_metadata;
use liblis::project::Project;

fn metadata(files: &[(&str, Option<&str>)]) -> Metadata {
    let mut p = Project::new();
    p.metadata.name = "Foo".to_string();
    let mut m = build_metadata(&p);
    for (dest, perms) in files {
        m.files.push(FileEntry {
            source: dest.to_string(),
            destination: dest.to_string(),
            permissions: perms.map(|x| x.to_string()),
        });
    }
    m
}

fn begin(files: &[(&str, Option<&str>)]) -> Installation {
    Installation::begin(&metadata(files), false, Some("/home/me"), 1700000000)
}

fn drive(i: &mut Installation, outcomes: &[InstallOutcome]) -> Vec<InstallAction> {
    let mut actions = Vec::new();
    for o in outcomes {
        actions.push(i.next_action());
        i.record(*o);
    }
    actions
}

#[test]
fn an_installation_that_has_not_started_waits_for_its_prefix() {
    let mut i = Installation::new(true);
    assert_eq!(i.phase, InstallPhase::NotStarted);
    assert_eq!(i.next_action(), InstallAction::ResolvePrefix);
    assert!(i.for_all_users);
    assert!(!i.is_over());
    let before = i.clone();
    i.record(InstallOutcome::Done);
    assert_eq!(i, before);
    assert_eq!(i.progress().unwrap().percent, 0);
}

#[test]
fn resolving_the_prefix_lays_out_the_installation() {
    let i = begin(&[("foo", Some("755")), ("doc/readme", None)]);
    assert_eq!(i.phase, InstallPhase::PrefixResolved);
    assert_eq!(i.cursor, 0);
    assert_eq!(i.manifest.prefix, "/home/me/.local");
    assert_eq!(i.manifest.app_id, "com.example.foo");
    assert_eq!(i.manifest.installed_at, "1700000000");
    assert!(i.directories.contains(&"/home/me/.local/bin".to_string()));
    assert!(i.directories.contains(&"/home/me/.local/share/com.example.foo".to_string()));
    assert_eq!(i.directories.len(), 5);
    assert!(!i.directories.contains(&"/home/me/.local/share/metainfo".to_string()));
    assert_eq!(
        i.files,
        vec![
            Placement {
                source: "foo".to_string(),
                target: "/home/me/.local/bin/foo".to_string(),
                mode: Some(0o755),
                placed: false,
            },
            Placement {
                source: "doc/readme".to_string(),
                target: "/home/me/.local/share/com.example.foo/doc/readme".to_string(),
                mode: None,
                placed: false,
            },
        ]
    );
    let report = i.prefix_progress();
    assert_eq!(report.percent, 10);
    assert_eq!(report.status, "Installing to /home/me/.local...");
}

#[test]
fn an_installation_goes_through_its_phases() {
    let mut i = begin(&[("foo", Some("755")), ("doc/readme", None), ("bar", Some("700"))]);
    let mut reports = vec![(i.progress().unwrap().percent, i.progress().unwrap().status)];
    let actions = drive(&mut i, &[InstallOutcome::Done; 5]);
    assert_eq!(
        actions,
        (0..5).map(InstallAction::CreateDirectory).collect::<Vec<InstallAction>>()
    );
    assert_eq!(i.phase, InstallPhase::DirectoriesCreated);
    reports.push((i.progress().unwrap().percent, i.progress().unwrap().status));
    let actions = drive(&mut i, &[InstallOutcome::Done; 3]);
    assert_eq!(
        actions,
        vec![InstallAction::CopyFile(0), InstallAction::CopyFile(1), InstallAction::CopyFile(2)]
    );
    assert_eq!(i.phase, InstallPhase::FilesExtracted);
    reports.push((i.progress().unwrap().percent, i.progress().unwrap().status));
    let actions = drive(&mut i, &[InstallOutcome::Done, InstallOutcome::Failed]);
    assert_eq!(actions, vec![InstallAction::SetMode(0), InstallAction::SetMode(2)]);
    assert_eq!(i.phase, InstallPhase::PermissionsApplied);
    reports.push((i.progress().unwrap().percent, i.progress().unwrap().status));
    assert_eq!(i.next_action(), InstallAction::SaveManifest);
    i.record(InstallOutcome::Done);
    assert_eq!(i.phase, InstallPhase::Complete);
    assert!(i.is_over());
    assert_eq!(i.next_action(), InstallAction::Nothing);
    reports.push((i.progress().unwrap().percent, i.progress().unwrap().status));
    assert_eq!(
        reports,
        vec![
            (20, "Creating directories...".to_string()),
            (50, "Extracting files...".to_string()),
            (80, "Setting permissions...".to_string()),
            (90, "Recording installation...".to_string()),
            (100, "Installation complete!".to_string()),
        ]
    );
    assert_eq!(
        i.manifest.installed_files,
        vec![
            "/home/me/.local/bin/foo",
            "/home/me/.local/share/com.example.foo/doc/readme",
            "/home/me/.local/bin/bar",
        ]
    );
    assert_eq!(i.manifest.created_directories, i.directories);
    let done = i.clone();
    i.record(InstallOutcome::Failed);
    assert_eq!(i, done);
}

#[test]
fn a_package_without_files_skips_the_empty_phases() {
    let mut i = begin(&[]);
    drive(&mut i, &[InstallOutcome::Existed; 4]);
    assert_eq!(i.phase, InstallPhase::PrefixResolved);
    i.record(InstallOutcome::Existed);
    assert_eq!(i.phase, InstallPhase::PermissionsApplied);
    assert_eq!(i.next_action(), InstallAction::SaveManifest);
}

#[test]
fn files_are_listed_in_the_order_in_which_they_were_copied() {
    let mut i = begin(&[("a", None), ("b", Some("755")), ("c", None), ("d", None), ("e", Some("644"))]);
    drive(&mut i, &[InstallOutcome::Existed; 5]);
    drive(
        &mut i,
        &[
            InstallOutcome::Done,
            InstallOutcome::Skipped,
            InstallOutcome::Done,
            InstallOutcome::Existed,
            InstallOutcome::Done,
        ],
    );
    assert_eq!(
        i.manifest.installed_files,
        vec![
            "/home/me/.local/share/com.example.foo/a",
            "/home/me/.local/share/com.example.foo/c",
            "/home/me/.local/share/com.example.foo/e",
        ]
    );
    assert_eq!(
        i.files.iter().map(|f| f.placed).collect::<Vec<bool>>(),
        vec![true, false, true, false, true]
    );
    assert_eq!(i.phase, InstallPhase::FilesExtracted);
    assert_eq!(i.next_action(), InstallAction::SetMode(4));
    i.record(InstallOutcome::Done);
    assert_eq!(i.phase, InstallPhase::PermissionsApplied);
}

#[test]
fn only_directories_that_were_made_are_recorded() {
    let mut i = begin(&[]);
    drive(
        &mut i,
        &[
            InstallOutcome::Existed,
            InstallOutcome::Existed,
            InstallOutcome::Done,
            InstallOutcome::Done,
            InstallOutcome::Existed,
        ],
    );
    assert_eq!(i.phase, InstallPhase::PermissionsApplied);
    assert_eq!(
        i.manifest.created_directories,
        vec![
            "/home/me/.local/share/com.example.foo",
            "/home/me/.local/share/applications",
        ]
    );
}

#[test]
fn making_the_directories_twice_records_nothing_twice() {
    let mut disk: Vec<String> = vec!["/home/me/.local/share".to_string()];
    let mut recorded: Vec<String> = Vec::new();
    for _pass in 0..2 {
        let mut i = begin(&[]);
        i.manifest.created_directories = recorded.clone();
        while let InstallAction::CreateDirectory(k) = i.next_action() {
            let dir = i.directories[k].clone();
            if disk.contains(&dir) {
                i.record(InstallOutcome::Existed);
            } else {
                disk.push(dir);
                i.record(InstallOutcome::Done);
            }
        }
        assert!(i.phase != InstallPhase::Failed);
        recorded = i.manifest.created_directories.clone();
        assert_eq!(
            recorded,
            vec![
                "/home/me/.local/bin",
                "/home/me/.local/share/com.example.foo",
                "/home/me/.local/share/applications",
                "/home/me/.local/share/icons/hicolor",
            ]
        );
    }
}

#[test]
fn a_directory_that_cannot_be_made_fails_the_installation() {
    for bad in [InstallOutcome::Failed, InstallOutcome::Skipped] {
        let mut i = begin(&[("a", None)]);
        drive(&mut i, &[InstallOutcome::Done, InstallOutcome::Done, bad]);
        assert_eq!(i.phase, InstallPhase::Failed);
        assert!(i.is_over());
        assert_eq!(i.next_action(), InstallAction::Nothing);
        assert_eq!(i.manifest.created_directories.len(), 2);
        assert_eq!(i.progress(), None);
        let failed = i.clone();
        i.record(InstallOutcome::Done);
        assert_eq!(i, failed);
    }
}

#[test]
fn a_copy_that_cannot_go_on_fails_and_keeps_what_was_done() {
    let mut i = begin(&[("a", None), ("b", None), ("c", None)]);
    drive(&mut i, &[InstallOutcome::Done; 5]);
    drive(&mut i, &[InstallOutcome::Done, InstallOutcome::Failed]);
    assert_eq!(i.phase, InstallPhase::Failed);
    assert_eq!(i.manifest.installed_files, vec!["/home/me/.local/share/com.example.foo/a"]);
    assert_eq!(i.manifest.created_directories.len(), 5);
}

#[test]
fn a_manifest_that_cannot_be_written_fails_the_installation() {
    let mut i = begin(&[]);
    drive(&mut i, &[InstallOutcome::Done; 5]);
    assert_eq!(i.next_action(), InstallAction::SaveManifest);
    i.record(InstallOutcome::Failed);
    assert_eq!(i.phase, InstallPhase::Failed);
}

#[test]
fn permissions_are_set_only_on_files_that_were_copied() {
    let mut i = begin(&[("a", Some("755")), ("b", Some("644")), ("c", Some("junk")), ("d", Some("600"))]);
    drive(&mut i, &[InstallOutcome::Done; 5]);
    drive(
        &mut i,
        &[InstallOutcome::Skipped, InstallOutcome::Done, InstallOutcome::Done, InstallOutcome::Done],
    );
    assert_eq!(i.next_action(), InstallAction::SetMode(1));
    i.record(InstallOutcome::Done);
    assert_eq!(i.next_action(), InstallAction::SetMode(3));
    assert_eq!(i.files[3].mode, Some(0o600));
    i.record(InstallOutcome::Done);
    assert_eq!(i.next_action(), InstallAction::SaveManifest);
}

#[test]
fn an_installation_for_one_user_goes_under_the_home_directory() {
    let mut p = Project::new();
    p.metadata.name = "Foo".to_string();
    p.metadata.version = "1.0.0".to_string();
    let m = build_metadata(&p);
    assert_eq!(m.package.app_id, "com.example.foo");
    assert_eq!(m.installation.prefix_user, "~/.local");
    let home = "/home/someone";
    let i = Installation::begin(&m, false, Some(home), 0);
    assert_eq!(i.manifest.prefix, format!("{}/.local", home));
    assert!(i.directories.contains(&format!("{}/.local/bin", home)));
    assert!(i.directories.contains(&format!("{}/.local/share/com.example.foo", home)));
    let all = Installation::begin(&m, true, Some(home), 0);
    assert_eq!(all.manifest.prefix, "/usr/local");
    assert!(all.directories.contains(&"/usr/local/bin".to_string()));
}

#[test]
fn a_failed_installation_never_reports_all_of_the_way() {
    let outcomes = [
        InstallOutcome::Done,
        InstallOutcome::Existed,
        InstallOutcome::Skipped,
        InstallOutcome::Failed,
    ];
    let mut seed: u32 = 99;
    for _round in 0..500 {
        let mut i = begin(&[("a", Some("755")), ("b", None), ("c", Some("644"))]);
        let mut last: u8 = i.prefix_progress().percent;
        assert_eq!(last, 10);
        let mut steps = 0;
        while !i.is_over() {
            let report = i.progress().unwrap();
            assert!(report.percent >= last && report.percent < 100);
            last = report.percent;
            seed = seed.wrapping_mul(1103515245).wrapping_add(12345);
            let outcome = if (seed >> 16) % 8 == 0 {
                outcomes[((seed >> 20) % 4) as usize]
            } else {
                InstallOutcome::Done
            };
            i.record(outcome);
            steps += 1;
            assert!(steps < 100);
        }
        if i.phase == InstallPhase::Failed {
            assert_eq!(i.progress(), None);
            assert_eq!(i.next_action(), InstallAction::Nothing);
        } else {
            assert_eq!(
                i.progress(),
                Some(Progress { percent: 100, status: "Installation complete!".to_string() })
            );
        }
    }
}

#[test]
fn a_failure_while_directories_are_made_records_what_was_made_before() {
    let mut i = begin(&[("a", None)]);
    drive(&mut i, &[InstallOutcome::Done, InstallOutcome::Existed, InstallOutcome::Done]);
    let before = i.clone();
    i.record(InstallOutcome::Failed);
    assert_eq!(i.phase, InstallPhase::Failed);
    assert_eq!(i.manifest, before.manifest);
    assert_eq!(i.files, before.files);
    assert_eq!(i.cursor, before.cursor);
    assert_eq!(i.manifest.created_directories.len(), 2);
    assert!(i.manifest.installed_files.is_empty());
    assert_eq!(i.progress(), None);
}

#[test]
fn a_failure_names_what_could_not_be_done() {
    let i = begin(&[("a", None), ("tool", Some("755"))]);
    let io = |context: &str, path: &str| LisError::Io {
        context: context.to_string(),
        path: path.to_string(),
        cause: "permission denied".to_string(),
    };
    assert_eq!(
        i.failure(InstallAction::CreateDirectory(2), "permission denied"),
        io("Failed to create directory", "/home/me/.local/share/com.example.foo")
    );
    assert_eq!(
        i.failure(InstallAction::CopyFile(1), "permission denied"),
        io("Failed to install file", "/home/me/.local/bin/tool")
    );
    assert_eq!(
        i.failure(InstallAction::SaveManifest, "permission denied"),
        io("Failed to write manifest", "/home/me/.local")
    );
    assert_eq!(
        i.failure(InstallAction::Nothing, "permission denied"),
        io("Installation failed", "/home/me/.local")
    );
    assert_eq!(
        i.failure(InstallAction::CreateDirectory(5), "permission denied"),
        io("Failed to create directory", "/home/me/.local")
    );
    assert_eq!(
        i.failure(InstallAction::CopyFile(2), "permission denied"),
        io("Failed to install file", "/home/me/.local")
    );
    assert_eq!(
        i.failure(InstallAction::CopyFile(0), "gone").message(),
        "Failed to install file (/home/me/.local/share/com.example.foo/a): gone"
    );
}

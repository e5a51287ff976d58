use liblis::error::LisError;
use liblis::project::{InstallerScreen, Project, ProjectFile, ProjectMetadata};

fn screen(id: &str, order: usize) -> InstallerScreen {
    InstallerScreen { id: id.to_string(), enabled: true, order, custom_content: None }
}

#[test]
fn a_new_project_has_the_defaults() {
    let p = Project::new();
    assert_eq!(
        p,
        Project {
            metadata: ProjectMetadata {
                name: "MyProject".to_string(),
                version: "1.0.0".to_string(),
                author: String::new(),
                description: String::new(),
                application_name: "My Application".to_string(),
                output_directory: ".".to_string(),
                desktop_file: None,
            },
            files: vec![],
            installer_screens: vec![
                screen("welcome", 1),
                screen("license", 2),
                screen("install_location", 3),
                screen("finish", 4),
            ],
            package_name: "package.lis".to_string(),
            compression_level: 9,
        }
    );
    assert_eq!(Project::default(), p);
}

#[test]
fn the_default_screens_leave_out_progress() {
    let screens = Project::default_screens();
    assert_eq!(screens.len(), 4);
    assert!(screens.iter().all(|s| s.id != "progress"));
    assert!(screens.iter().all(|s| s.enabled && s.custom_content.is_none()));
    assert_eq!(screens.iter().map(|s| s.order).collect::<Vec<usize>>(), vec![1, 2, 3, 4]);
}

#[test]
fn setters_say_whether_the_value_changed() {
    let mut p = Project::new();
    assert!(!p.set_name("MyProject"));
    assert!(p.set_name("Other"));
    assert_eq!(p.metadata.name, "Other");
    assert!(!p.set_name("Other"));
    assert!(!p.set_version("1.0.0"));
    assert!(p.set_version("2.0.0"));
    assert!(p.set_author("Me"));
    assert!(!p.set_author("Me"));
    assert!(p.set_description("Does things"));
    assert!(!p.set_description("Does things"));
    assert!(p.set_application_name("Other App"));
    assert!(!p.set_application_name("Other App"));
    assert!(p.set_output_directory("/out"));
    assert!(!p.set_output_directory("/out"));
    assert!(p.set_package_name("other.lis"));
    assert!(!p.set_package_name("other.lis"));
    assert_eq!(p.metadata.version, "2.0.0");
    assert_eq!(p.metadata.author, "Me");
    assert_eq!(p.metadata.description, "Does things");
    assert_eq!(p.metadata.application_name, "Other App");
    assert_eq!(p.metadata.output_directory, "/out");
    assert_eq!(p.package_name, "other.lis");
}

#[test]
fn a_setter_leaves_the_other_fields_alone() {
    let mut p = Project::new();
    p.set_author("Me");
    let mut want = Project::new();
    want.metadata.author = "Me".to_string();
    assert_eq!(p, want);
}

#[test]
fn compression_levels_go_from_zero_to_nine() {
    let mut p = Project::new();
    assert!(!p.set_compression_level(9));
    assert!(p.set_compression_level(0));
    assert_eq!(p.compression_level, 0);
    assert!(!p.set_compression_level(10));
    assert!(!p.set_compression_level(255));
    assert_eq!(p.compression_level, 0);
    assert!(p.set_compression_level(5));
    assert_eq!(p.compression_level, 5);
}

#[test]
fn files_are_added_behind_the_others() {
    let mut p = Project::new();
    assert!(p.add_file(ProjectFile::from_source("/src/bin/app")));
    assert!(p.add_file(ProjectFile::from_source("/src/data/icon.png")));
    assert!(p.add_file(ProjectFile::from_source("/src/bin/app")));
    assert_eq!(
        p.files.iter().map(|f| f.destination.as_str()).collect::<Vec<&str>>(),
        vec!["app", "icon.png", "app"]
    );
    assert_eq!(p.files[1].source, "/src/data/icon.png");
    assert_eq!(p.files[1].permissions, None);
}

#[test]
fn a_file_without_a_name_has_an_empty_destination() {
    assert_eq!(ProjectFile::from_source("/").destination, "");
    assert_eq!(ProjectFile::from_source("").destination, "");
    assert_eq!(ProjectFile::from_source("a/..").destination, "");
    assert_eq!(ProjectFile::from_source("dir/").destination, "dir");
}

#[test]
fn files_are_removed_by_position() {
    let mut p = Project::new();
    p.add_file(ProjectFile::from_source("/a"));
    p.add_file(ProjectFile::from_source("/b"));
    p.add_file(ProjectFile::from_source("/c"));
    assert!(!p.remove_file(3));
    assert!(!p.remove_file(usize::MAX));
    assert_eq!(p.files.len(), 3);
    assert!(p.remove_file(1));
    assert_eq!(
        p.files.iter().map(|f| f.source.as_str()).collect::<Vec<&str>>(),
        vec!["/a", "/c"]
    );
    assert!(p.remove_file(0));
    assert!(p.remove_file(0));
    assert!(!p.remove_file(0));
    assert!(p.files.is_empty());
}

#[test]
fn screens_are_toggled_by_name() {
    let mut p = Project::new();
    assert!(!p.toggle_screen("license", true));
    assert!(p.toggle_screen("license", false));
    assert!(!p.installer_screens[1].enabled);
    assert!(p.installer_screens[0].enabled);
    assert!(!p.toggle_screen("license", false));
    assert!(p.toggle_screen("license", true));
    assert_eq!(p, Project::new());
    assert!(!p.toggle_screen("no_such_screen", false));
    assert_eq!(p, Project::new());
}

#[test]
fn the_progress_screen_cannot_be_toggled() {
    let mut p = Project::new();
    p.installer_screens.push(screen("progress", 5));
    let before = p.clone();
    assert!(!p.toggle_screen("progress", false));
    assert_eq!(p, before);
}

#[test]
fn only_the_first_screen_of_a_name_is_toggled() {
    let mut p = Project::new();
    p.installer_screens.push(screen("welcome", 5));
    assert!(p.toggle_screen("welcome", false));
    assert!(!p.installer_screens[0].enabled);
    assert!(p.installer_screens[4].enabled);
}

#[test]
fn a_project_is_seeded_from_a_desktop_entry() {
    let p = Project::from_desktop_entry("/home/me/My App/data/app.desktop", "Shown Name", "What it does")
        .unwrap();
    let mut want = Project::new();
    want.metadata.name = "My App".to_string();
    want.metadata.application_name = "Shown Name".to_string();
    want.metadata.description = "What it does".to_string();
    want.metadata.output_directory = "/home/me/My App".to_string();
    want.metadata.desktop_file = Some("/home/me/My App/data/app.desktop".to_string());
    want.package_name = "my-app.lis".to_string();
    assert_eq!(p, want);
}

#[test]
fn a_desktop_entry_at_the_root_seeds_the_default_name() {
    let p = Project::from_desktop_entry("/data/app.desktop", "A", "B").unwrap();
    assert_eq!(p.metadata.name, "MyProject");
    assert_eq!(p.metadata.output_directory, "/");
    assert_eq!(p.package_name, "myproject.lis");
}

#[test]
fn a_desktop_entry_outside_a_project_is_an_error() {
    for path in ["/app.desktop", "/", ""] {
        match Project::from_desktop_entry(path, "A", "B") {
            Err(LisError::Io { context, path: p, .. }) => {
                assert_eq!(context, "Invalid File Location");
                assert_eq!(p, path);
            }
            other => panic!("unexpected result for {:?}: {:?}", path, other),
        }
    }
    assert!(Project::from_desktop_entry("app.desktop", "A", "B").is_err());
    assert!(Project::from_desktop_entry("data/app.desktop", "A", "B").is_ok());
}

use liblis::error::{LisError, RequiredField};
use liblis::metadata::{
    DependenciesInfo, DesktopInfo, FileEntry, InstallationInfo, InstallerScreen, Metadata,
    PackageInfo,
};
use liblis::packaging::{
    application_dir, build_metadata, install_dir, metadata_with_slug, missing_required_fields,
    output_path, staged_desktop_entry, staged_file, staging_dir, validate,
};
use liblis::installer::staged_source;
use liblis::paths::join;
use liblis::project::{Project, ProjectFile};

fn complete() -> Project {
    let mut p = Project::new();
    p.metadata.author = "Me".to_string();
    p.metadata.description = "Does things".to_string();
    p
}

fn all_fields() -> Vec<RequiredField> {
    vec![
        RequiredField::Name,
        RequiredField::ApplicationName,
        RequiredField::Version,
        RequiredField::Author,
        RequiredField::Description,
        RequiredField::PackageName,
    ]
}

fn blank_out(p: &mut Project, f: RequiredField, with: &str) {
    let slot = match f {
        RequiredField::Name => &mut p.metadata.name,
        RequiredField::ApplicationName => &mut p.metadata.application_name,
        RequiredField::Version => &mut p.metadata.version,
        RequiredField::Author => &mut p.metadata.author,
        RequiredField::Description => &mut p.metadata.description,
        RequiredField::PackageName => &mut p.package_name,
    };
    *slot = with.to_string();
}

#[test]
fn a_complete_project_passes() {
    assert_eq!(validate(&complete()), Ok(()));
    assert!(missing_required_fields(&complete()).is_empty());
}

#[test]
fn a_new_project_lacks_author_and_description() {
    assert_eq!(
        validate(&Project::new()),
        Err(LisError::Validation {
            missing: vec![RequiredField::Author, RequiredField::Description]
        })
    );
}

#[test]
fn every_subset_of_missing_fields_is_reported_exactly() {
    let fields = all_fields();
    for mask in 0u32..64 {
        let mut p = complete();
        let mut want: Vec<RequiredField> = Vec::new();
        for (i, f) in fields.iter().enumerate() {
            if mask & (1 << i) != 0 {
                blank_out(&mut p, *f, if i % 2 == 0 { "" } else { " \t " });
                want.push(*f);
            }
        }
        assert_eq!(missing_required_fields(&p), want, "mask {}", mask);
        if want.is_empty() {
            assert_eq!(validate(&p), Ok(()));
        } else {
            assert_eq!(validate(&p), Err(LisError::Validation { missing: want }));
        }
    }
}

#[test]
fn the_missing_fields_are_shown_as_one_list() {
    let e = validate(&Project::new()).unwrap_err();
    assert_eq!(
        e.message(),
        "Please fill in all required fields:\n\u{2022} Author is required\n\u{2022} Description is required"
    );
    let mut p = complete();
    for f in all_fields() {
        blank_out(&mut p, f, "");
    }
    assert_eq!(
        validate(&p).unwrap_err().message(),
        "Please fill in all required fields:\n\u{2022} Project Name is required\n\u{2022} Application Name is required\n\u{2022} Version is required\n\u{2022} Author is required\n\u{2022} Description is required\n\u{2022} Package Name is required"
    );
}

fn sample_project() -> Project {
    let mut p = complete();
    p.metadata.name = "My Tool".to_string();
    p.metadata.application_name = "My Tool App".to_string();
    p.metadata.version = "2.1.0".to_string();
    p.package_name = "my-tool.lis".to_string();
    p.compression_level = 6;
    p.files.push(ProjectFile {
        source: "/src/build/tool".to_string(),
        destination: "tool".to_string(),
        permissions: Some("755".to_string()),
    });
    p.files.push(ProjectFile {
        source: "/src/data/help.txt".to_string(),
        destination: "doc/help.txt".to_string(),
        permissions: None,
    });
    p.installer_screens[1].enabled = false;
    p.installer_screens[1].custom_content = Some("/src/LICENSE".to_string());
    p
}

#[test]
fn the_metadata_document_is_made_from_the_project() {
    let m = build_metadata(&sample_project());
    let want = Metadata {
        package: PackageInfo {
            name: "My Tool".to_string(),
            version: "2.1.0".to_string(),
            app_id: "com.example.my-tool".to_string(),
            description: "Does things".to_string(),
            author: "Me".to_string(),
            application_name: "My Tool App".to_string(),
            package_name: "my-tool.lis".to_string(),
            compression_level: 6,
        },
        installation: InstallationInfo {
            prefix_system: "/usr/local".to_string(),
            prefix_user: "~/.local".to_string(),
        },
        desktop: DesktopInfo {
            name: "My Tool App".to_string(),
            executable: "my-tool".to_string(),
            icon: String::new(),
            categories: vec!["Utility".to_string()],
        },
        dependencies: DependenciesInfo { bundled: vec![] },
        files: vec![
            FileEntry {
                source: "tool".to_string(),
                destination: "tool".to_string(),
                permissions: Some("755".to_string()),
            },
            FileEntry {
                source: "doc/help.txt".to_string(),
                destination: "doc/help.txt".to_string(),
                permissions: None,
            },
        ],
        installer_screens: vec![
            InstallerScreen { id: "welcome".to_string(), enabled: true, order: 1, custom_content: None },
            InstallerScreen {
                id: "license".to_string(),
                enabled: false,
                order: 2,
                custom_content: Some("/src/LICENSE".to_string()),
            },
            InstallerScreen {
                id: "install_location".to_string(),
                enabled: true,
                order: 3,
                custom_content: None,
            },
            InstallerScreen { id: "finish".to_string(), enabled: true, order: 4, custom_content: None },
        ],
    };
    assert_eq!(m, want);
    assert!(m.is_well_formed());
    assert!(m.is_ready_for_build());
}

#[test]
fn the_metadata_lists_every_file_under_its_destination() {
    let p = sample_project();
    let m = build_metadata(&p);
    assert_eq!(m.files.len(), p.files.len());
    for (entry, file) in m.files.iter().zip(p.files.iter()) {
        assert_eq!(entry.destination, file.destination);
        assert_eq!(entry.source, file.destination);
        assert_eq!(entry.permissions, file.permissions);
    }
}

#[test]
fn the_slug_goes_into_the_identifier_and_the_command() {
    let m = metadata_with_slug(&sample_project(), "given-slug");
    assert_eq!(m.package.app_id, "com.example.given-slug");
    assert_eq!(m.desktop.executable, "given-slug");
    assert_eq!(m.package.name, "My Tool");
    let lowered = build_metadata(&Project::new());
    assert_eq!(lowered.package.app_id, "com.example.myproject");
    assert_eq!(lowered.desktop.executable, "myproject");
}

#[test]
fn a_build_works_in_known_places() {
    let mut p = sample_project();
    p.metadata.output_directory = "/home/me/out".to_string();
    p.metadata.desktop_file = Some("/src/data/tool.desktop".to_string());
    assert_eq!(output_path(&p), "/home/me/out/my-tool.lis");
    assert_eq!(staging_dir("/tmp", 4242), "/tmp/obision-build-4242");
    assert_eq!(staging_dir("/tmp/", 0), "/tmp/obision-build-0");
    assert_eq!(staging_dir("/tmp", u32::MAX), "/tmp/obision-build-4294967295");
    let staging = "/tmp/obision-build-4242";
    assert_eq!(install_dir(staging), "/tmp/obision-build-4242/install");
    assert_eq!(application_dir(staging), "/tmp/obision-build-4242/application");
    assert_eq!(
        staged_desktop_entry(staging, &p),
        Some("/tmp/obision-build-4242/install/tool.desktop".to_string())
    );
    assert_eq!(staged_file(staging, &p.files[0]), "/tmp/obision-build-4242/application/tool");
    assert_eq!(
        staged_file(staging, &p.files[1]),
        "/tmp/obision-build-4242/application/doc/help.txt"
    );
    p.metadata.desktop_file = None;
    assert_eq!(staged_desktop_entry(staging, &p), None);
    p.metadata.desktop_file = Some("/".to_string());
    assert_eq!(staged_desktop_entry(staging, &p), None);
}

#[test]
fn a_file_is_looked_for_where_the_build_put_it() {
    let mut p = sample_project();
    p.files.push(ProjectFile {
        source: "/src/abs".to_string(),
        destination: "/opt/abs".to_string(),
        permissions: None,
    });
    let m = build_metadata(&p);
    let members = ["application/tool", "application/doc/help.txt", "/opt/abs"];
    for root in ["/tmp/obision-build-7", "/tmp/unpacked/", "", "relative"] {
        for (i, file) in p.files.iter().enumerate() {
            assert_eq!(staged_file(root, file), join(root, members[i]));
            assert_eq!(staged_source(root, &m.files[i]), join(root, members[i]));
        }
    }
    assert_eq!(staged_file("/tmp/b", &p.files[1]), "/tmp/b/application/doc/help.txt");
    assert_eq!(staged_source("/tmp/u", &m.files[1]), "/tmp/u/application/doc/help.txt");
}

#[test]
fn the_metadata_of_a_build_is_read_back_as_written() {
    let m = build_metadata(&sample_project());
    let document = m.to_document().unwrap();
    assert_eq!(Metadata::from_document(&document), Ok(m));
}

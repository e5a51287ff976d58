use liblis::metadata::{is_known_screen, InstallerScreen, Metadata};
use liblis::packaging::build_metadata;
use liblis::project::Project;

fn metadata() -> Metadata {
    build_metadata(&Project::new())
}

#[test]
fn the_screen_vocabulary_has_five_names() {
    for id in ["welcome", "license", "install_location", "progress", "finish"] {
        assert!(is_known_screen(id), "{}", id);
    }
    for id in ["", "Welcome", "directory", "components", "finish ", "install-location"] {
        assert!(!is_known_screen(id), "{:?}", id);
    }
}

#[test]
fn a_document_from_a_project_is_well_formed() {
    assert!(metadata().is_well_formed());
}

#[test]
fn a_compression_level_beyond_nine_is_not_well_formed() {
    let mut m = metadata();
    m.package.compression_level = 10;
    assert!(!m.is_well_formed());
    m.package.compression_level = 0;
    assert!(m.is_well_formed());
}

#[test]
fn an_unknown_screen_is_not_well_formed() {
    let mut m = metadata();
    m.installer_screens.push(InstallerScreen {
        id: "components".to_string(),
        enabled: false,
        order: 9,
        custom_content: None,
    });
    assert!(!m.is_well_formed());
    m.installer_screens.pop();
    m.installer_screens.clear();
    assert!(m.is_well_formed());
}

#[test]
fn a_build_needs_name_version_and_identifier() {
    let m = metadata();
    assert!(m.is_ready_for_build());
    let mut a = m.clone();
    a.package.name.clear();
    assert!(!a.is_ready_for_build());
    let mut b = m.clone();
    b.package.version.clear();
    assert!(!b.is_ready_for_build());
    let mut c = m.clone();
    c.package.app_id.clear();
    assert!(!c.is_ready_for_build());
    let mut d = m.clone();
    d.package.author.clear();
    d.package.description.clear();
    assert!(d.is_ready_for_build());
}

#[test]
fn copies_are_equal_to_what_they_copy() {
    let m = metadata();
    for s in &m.installer_screens {
        assert_eq!(&s.duplicate(), s);
    }
}

use liblis::install_paths::{
    app_data_dir, applications_dir, bin_dir, expand_home, icons_dir, metainfo_dir,
    required_directories, share_dir,
};
use std::path::PathBuf;

#[test]
fn the_directories_lie_under_the_prefix() {
    assert_eq!(bin_dir("/usr/local"), "/usr/local/bin");
    assert_eq!(share_dir("/usr/local"), "/usr/local/share");
    assert_eq!(applications_dir("/usr/local"), "/usr/local/share/applications");
    assert_eq!(app_data_dir("/usr/local", "com.example.foo"), "/usr/local/share/com.example.foo");
    assert_eq!(icons_dir("/usr/local"), "/usr/local/share/icons/hicolor");
    assert_eq!(metainfo_dir("/usr/local"), "/usr/local/share/metainfo");
}

#[test]
fn the_directories_are_joined_as_paths_are() {
    for prefix in ["/usr/local", "/usr/local/", "", "/", "relative", "/home/me/.local"] {
        let p = |parts: &[&str]| {
            let mut b = PathBuf::from(prefix);
            for part in parts {
                b = b.join(part);
            }
            b.to_string_lossy().into_owned()
        };
        assert_eq!(bin_dir(prefix), p(&["bin"]));
        assert_eq!(share_dir(prefix), p(&["share"]));
        assert_eq!(applications_dir(prefix), p(&["share", "applications"]));
        assert_eq!(app_data_dir(prefix, "org.x.y"), p(&["share", "org.x.y"]));
        assert_eq!(icons_dir(prefix), p(&["share", "icons", "hicolor"]));
        assert_eq!(metainfo_dir(prefix), p(&["share", "metainfo"]));
    }
}

#[test]
fn the_home_placeholder_is_expanded() {
    assert_eq!(expand_home("~/.local", Some("/home/me")), "/home/me/.local");
    assert_eq!(expand_home("~/", Some("/home/me")), "/home/me/");
    assert_eq!(expand_home("~/a/b", Some("")), "/a/b");
}

#[test]
fn other_paths_stand_as_they_are() {
    assert_eq!(expand_home("/usr/local", Some("/home/me")), "/usr/local");
    assert_eq!(expand_home("~", Some("/home/me")), "~");
    assert_eq!(expand_home("~user/x", Some("/home/me")), "~user/x");
    assert_eq!(expand_home("a/~/b", Some("/home/me")), "a/~/b");
    assert_eq!(expand_home("", Some("/home/me")), "");
}

#[test]
fn without_a_home_nothing_is_expanded() {
    assert_eq!(expand_home("~/.local", None), "~/.local");
    assert_eq!(expand_home("/usr/local", None), "/usr/local");
}

#[test]
fn an_installation_needs_five_directories() {
    assert_eq!(
        required_directories("/home/me/.local", "com.example.foo"),
        vec![
            "/home/me/.local/bin".to_string(),
            "/home/me/.local/share".to_string(),
            "/home/me/.local/share/com.example.foo".to_string(),
            "/home/me/.local/share/applications".to_string(),
            "/home/me/.local/share/icons/hicolor".to_string(),
        ]
    );
}

#[test]
fn the_directory_for_descriptions_is_made_only_when_used() {
    let needed = required_directories("/usr/local", "com.example.foo");
    assert!(!needed.contains(&metainfo_dir("/usr/local")));
}

#[test]
fn an_expanded_path_carries_no_placeholder() {
    for home in ["/home/me", "/", "", "relative/home", "~user", "x~/"] {
        for path in ["~/.local", "~/", "~/a/b", "/usr/local", "~", "a/~/b"] {
            assert!(!expand_home(path, Some(home)).starts_with("~/"), "{:?} {:?}", home, path);
        }
    }
}

#[test]
fn a_home_that_is_itself_a_placeholder_stays_one() {
    assert_eq!(expand_home("~/.local", Some("~")), "~/.local");
    assert_eq!(expand_home("~/.local", Some("~/nested")), "~/nested/.local");
}

#[test]
fn every_needed_directory_begins_with_the_prefix() {
    for prefix in ["/usr/local", "/home/me/.local", "/", "", "opt/"] {
        for app_id in ["com.example.foo", "", "a/b", "~"] {
            for dir in required_directories(prefix, app_id) {
                assert!(dir.starts_with(prefix), "{:?} {:?} {:?}", prefix, app_id, dir);
            }
        }
    }
}

#[test]
fn an_absolute_identifier_leaves_the_prefix() {
    let needed = required_directories("/usr/local", "/elsewhere");
    assert_eq!(needed[2], "/elsewhere");
    assert_eq!(needed[2], PathBuf::from("/usr/local/share").join("/elsewhere").to_string_lossy());
}

use liblis::paths::{file_name, is_package_path, join, parent};
use std::path::Path;

fn std_file_name(p: &str) -> Option<String> {
    Path::new(p).file_name().map(|n| n.to_string_lossy().into_owned())
}

fn std_parent(p: &str) -> Option<String> {
    Path::new(p).parent().map(|n| n.to_string_lossy().into_owned())
}

fn samples() -> Vec<&'static str> {
    vec![
        "", "/", "//", ".", "..", "./", "../", "a", "a/", "a//", "/a", "//a", "/a/", "a/b",
        "/a/b", "a/b/", "a//b", "a/./b", "a/.", "a/./", "a/..", "a/../b", "./a", "../a", "/.",
        "/..", "/./a", "...", "a/...", ".a", "a/.b", "a/b.", "/usr/bin/", "tmp/foo.txt",
        "foo.txt/.", "foo.txt/.//", "foo.txt/..", "/home/user/project/data/app.desktop",
        "a/b/c/d.e.f", "./.", "././a", "a/././", "/a/b/../c",
    ]
}

#[test]
fn file_name_follows_the_standard_library() {
    for p in samples() {
        assert_eq!(file_name(p), std_file_name(p), "file name of {:?}", p);
    }
}

#[test]
fn parent_follows_the_standard_library() {
    for p in samples() {
        assert_eq!(parent(p), std_parent(p), "parent of {:?}", p);
    }
}

#[test]
fn join_follows_the_standard_library() {
    for base in samples() {
        for rel in samples() {
            let want = Path::new(base).join(rel).to_string_lossy().into_owned();
            assert_eq!(join(base, rel), want, "join of {:?} and {:?}", base, rel);
        }
    }
}

#[test]
fn join_puts_one_separator_between_its_parts() {
    assert_eq!(join("/usr/local", "bin"), "/usr/local/bin");
    assert_eq!(join("/usr/local/", "bin"), "/usr/local/bin");
    assert_eq!(join("", "bin"), "bin");
    assert_eq!(join("/usr/local", "/etc"), "/etc");
    assert_eq!(join("/usr/local", ""), "/usr/local/");
}

#[test]
fn package_paths_end_in_lis() {
    assert!(is_package_path("/tmp/app.lis"));
    assert!(is_package_path("app.lis"));
    assert!(is_package_path("pkg/my.app.lis/"));
    assert!(!is_package_path(".lis"));
    assert!(!is_package_path("/tmp/.lis"));
    assert!(!is_package_path("app.LIS"));
    assert!(!is_package_path("app.lis.bak"));
    assert!(!is_package_path("applis"));
    assert!(!is_package_path(""));
    assert!(!is_package_path("/"));
    for p in samples() {
        let want = Path::new(p).extension().map(|e| e == "lis").unwrap_or(false);
        assert_eq!(is_package_path(p), want, "extension of {:?}", p);
    }
}

use liblis::installer::{
    mode_for, parse_mode, resolve_prefix, staged_source, target_path, EXECUTE_BITS, MODE_MAX,
};
use liblis::metadata::{FileEntry, Metadata};
use liblis::packaging::build_metadata;
use liblis::project::Project;

fn entry(source: &str, destination: &str, permissions: Option<&str>) -> FileEntry {
    FileEntry {
        source: source.to_string(),
        destination: destination.to_string(),
        permissions: permissions.map(|p| p.to_string()),
    }
}

fn metadata() -> Metadata {
    let mut p = Project::new();
    p.metadata.name = "Foo".to_string();
    build_metadata(&p)
}

#[test]
fn permissions_are_read_as_octal() {
    assert_eq!(parse_mode("755"), Some(0o755));
    assert_eq!(parse_mode("644"), Some(0o644));
    assert_eq!(parse_mode("0"), Some(0));
    assert_eq!(parse_mode("0755"), Some(0o755));
    assert_eq!(parse_mode("7777"), Some(0o7777));
    assert_eq!(parse_mode("00007777"), Some(0o7777));
    assert_eq!(parse_mode("4755"), Some(0o4755));
}

#[test]
fn permissions_that_make_no_sense_are_none() {
    assert_eq!(parse_mode(""), None);
    assert_eq!(parse_mode("10000"), None);
    assert_eq!(parse_mode("77777777777777777777777"), None);
    assert_eq!(parse_mode("758"), None);
    assert_eq!(parse_mode("rwx"), None);
    assert_eq!(parse_mode(" 755"), None);
    assert_eq!(parse_mode("755 "), None);
    assert_eq!(parse_mode("-755"), None);
    assert_eq!(parse_mode("+755"), None);
    assert_eq!(parse_mode("0o755"), None);
}

#[test]
fn permissions_agree_with_the_standard_library() {
    for n in 0u32..=0o7777 {
        let text = format!("{:o}", n);
        assert_eq!(parse_mode(&text), Some(n));
    }
    for text in ["17777", "20000", "777777", "1", "12", "123", "8", "78", "a1"] {
        let want = u32::from_str_radix(text, 8).ok().filter(|m| *m <= MODE_MAX);
        assert_eq!(parse_mode(text), want, "{:?}", text);
    }
}

#[test]
fn an_entry_asks_for_the_mode_it_names() {
    assert_eq!(mode_for(&entry("a", "a", Some("755"))), Some(0o755));
    assert_eq!(mode_for(&entry("a", "a", Some("junk"))), None);
    assert_eq!(mode_for(&entry("a", "a", None)), None);
}

#[test]
fn executables_go_to_bin_and_the_rest_to_the_data_directory() {
    assert_eq!(EXECUTE_BITS, 0o111);
    let prefix = "/home/me/.local";
    let id = "com.example.foo";
    assert_eq!(target_path(prefix, id, &entry("foo", "foo", Some("755"))), "/home/me/.local/bin/foo");
    assert_eq!(target_path(prefix, id, &entry("foo", "foo", Some("700"))), "/home/me/.local/bin/foo");
    assert_eq!(target_path(prefix, id, &entry("foo", "foo", Some("001"))), "/home/me/.local/bin/foo");
    assert_eq!(target_path(prefix, id, &entry("foo", "foo", Some("010"))), "/home/me/.local/bin/foo");
    assert_eq!(
        target_path(prefix, id, &entry("d.txt", "doc/d.txt", Some("644"))),
        "/home/me/.local/share/com.example.foo/doc/d.txt"
    );
    assert_eq!(
        target_path(prefix, id, &entry("d.txt", "d.txt", Some("666"))),
        "/home/me/.local/share/com.example.foo/d.txt"
    );
    assert_eq!(
        target_path(prefix, id, &entry("d.txt", "d.txt", None)),
        "/home/me/.local/share/com.example.foo/d.txt"
    );
    assert_eq!(
        target_path(prefix, id, &entry("d.txt", "d.txt", Some("exec"))),
        "/home/me/.local/share/com.example.foo/d.txt"
    );
}

#[test]
fn files_are_taken_from_the_application_tree() {
    assert_eq!(
        staged_source("/tmp/unpacked", &entry("doc/d.txt", "x", None)),
        "/tmp/unpacked/application/doc/d.txt"
    );
}

#[test]
fn the_prefix_of_a_user_is_expanded_with_the_home_directory() {
    let m = metadata();
    assert_eq!(m.installation.prefix_user, "~/.local");
    assert_eq!(resolve_prefix(&m, false, Some("/home/me")), "/home/me/.local");
    assert_eq!(resolve_prefix(&m, false, None), "~/.local");
}

#[test]
fn the_prefix_for_all_users_does_not_depend_on_the_home_directory() {
    let m = metadata();
    assert_eq!(resolve_prefix(&m, true, Some("/home/me")), "/usr/local");
    assert_eq!(resolve_prefix(&m, true, Some("/root")), "/usr/local");
    assert_eq!(resolve_prefix(&m, true, None), "/usr/local");
}

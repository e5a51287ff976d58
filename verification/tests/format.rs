use liblis::error::LisError;
use liblis::format::{
    extract_error, metadata_path, ExtractStage, LisPackage, Member, MemberKind, METADATA_MODE,
};
use liblis::packaging::build_metadata;
use liblis::project::Project;

fn package(binary: &str, resources: Option<&str>, deps: &[&str]) -> LisPackage {
    LisPackage::new(
        build_metadata(&Project::new()),
        binary.to_string(),
        resources.map(|r| r.to_string()),
        deps.iter().map(|d| d.to_string()).collect(),
    )
}

fn member(name: &str, kind: MemberKind, source: &str) -> Member {
    Member { name: name.to_string(), kind, source: source.to_string() }
}

#[test]
fn a_package_keeps_what_it_is_given() {
    let p = package("/b/app", Some("/b/data"), &["/lib/a.so"]);
    assert_eq!(p.metadata, build_metadata(&Project::new()));
    assert_eq!(p.binary_path, "/b/app");
    assert_eq!(p.resources_dir, Some("/b/data".to_string()));
    assert_eq!(p.dependencies, vec!["/lib/a.so".to_string()]);
}

#[test]
fn the_members_come_in_a_fixed_order() {
    let p = package("/b/builddir/app", Some("/b/data"), &["/lib/libgtk-4.so.1", "/lib/x/libcairo.so.2"]);
    assert_eq!(
        p.members(true),
        Ok(vec![
            member("metadata.toml", MemberKind::Metadata, ""),
            member("application/app", MemberKind::File, "/b/builddir/app"),
            member("resources", MemberKind::Tree, "/b/data"),
            member("dependencies/libgtk-4.so.1", MemberKind::File, "/lib/libgtk-4.so.1"),
            member("dependencies/libcairo.so.2", MemberKind::File, "/lib/x/libcairo.so.2"),
        ])
    );
}

#[test]
fn resources_that_are_not_there_are_left_out() {
    let p = package("/b/app", Some("/b/data"), &[]);
    assert_eq!(
        p.members(false),
        Ok(vec![
            member("metadata.toml", MemberKind::Metadata, ""),
            member("application/app", MemberKind::File, "/b/app"),
        ])
    );
    let q = package("/b/app", None, &[]);
    assert_eq!(q.members(true), p.members(false));
}

#[test]
fn a_binary_without_a_name_is_an_error() {
    for binary in ["/", "", "..", "/a/.."] {
        let p = package(binary, None, &["/lib/a.so"]);
        assert_eq!(
            p.members(true),
            Err(LisError::Io {
                context: "Invalid binary path".to_string(),
                path: binary.to_string(),
                cause: "the path has no file name".to_string(),
            })
        );
    }
}

#[test]
fn the_first_library_without_a_name_is_an_error() {
    let p = package("/b/app", None, &["/lib/a.so", "/", "/lib/b.so", ".."]);
    assert_eq!(
        p.members(true),
        Err(LisError::Io {
            context: "Invalid dependency path".to_string(),
            path: "/".to_string(),
            cause: "the path has no file name".to_string(),
        })
    );
}

#[test]
fn the_metadata_document_has_its_place_and_mode() {
    assert_eq!(METADATA_MODE, 0o644);
    assert_eq!(metadata_path("/tmp/unpacked"), "/tmp/unpacked/metadata.toml");
    assert_eq!(metadata_path("/tmp/unpacked/"), "/tmp/unpacked/metadata.toml");
}

#[test]
fn each_stage_of_reading_a_package_has_its_error() {
    assert_eq!(
        extract_error(ExtractStage::Open, "/p/app.lis", "/out", "not found"),
        LisError::Io {
            context: "Failed to open .lis file".to_string(),
            path: "/p/app.lis".to_string(),
            cause: "not found".to_string(),
        }
    );
    assert_eq!(
        extract_error(ExtractStage::Unpack, "/p/app.lis", "/out", "bad gzip"),
        LisError::Extraction { detail: "Failed to extract .lis file: bad gzip".to_string() }
    );
    assert_eq!(
        extract_error(ExtractStage::ReadMetadata, "/p/app.lis", "/out", "not found"),
        LisError::Extraction {
            detail: "No metadata document at /out/metadata.toml: not found".to_string()
        }
    );
    assert_eq!(
        extract_error(ExtractStage::ParseMetadata, "/p/app.lis", "/out", "line 3"),
        LisError::Format { detail: "Malformed metadata document: line 3".to_string() }
    );
    assert_eq!(
        extract_error(ExtractStage::Unpack, "a", "b", "c").message(),
        "Failed to extract .lis file: c"
    );
}

#[test]
fn the_header_of_the_metadata_document_holds_size_mode_and_checksum() {
    for len in [0u64, 1, 511, 512, 1234, 8 * 1024 * 1024, 8589934591, 8589934592, u64::MAX / 2] {
        let h = liblis::format::metadata_header(len);
        assert_eq!(h.size().unwrap(), len);
        assert_eq!(h.entry_size().unwrap(), len);
        assert_eq!(h.mode().unwrap(), 0o644);
        let bytes = h.as_bytes();
        let mut sum: u32 = 0;
        for (i, b) in bytes.iter().enumerate() {
            sum += if (148..156).contains(&i) { 32 } else { *b as u32 };
        }
        assert_eq!(h.cksum().unwrap(), sum);
        assert!(h.as_gnu().is_some());
    }
    assert_eq!(liblis::format::HEADER_MODE_MAX, 0o7777777);
}

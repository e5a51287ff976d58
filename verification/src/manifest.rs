//! The record of an installation, from which it can be undone.

use crate::document::{Document, EntryView, Scalar, ScalarView, Section, SectionView};
use crate::error::{LisError, LisErrorView};
use crate::metadata::{Metadata, MetadataView};
use crate::paths::{is_absolute, join, joined};
use crate::text::{append_str, clone_strings, decimal, decimal_string, lemma_views_push, views};
use vstd::prelude::*;

verus! {

/// What an installation put on the machine.
#[derive(Clone, Debug, PartialEq, Eq)]
pub struct InstallationManifest {
    pub app_id: String,
    pub app_name: String,
    pub version: String,
    /// The prefix that was installed under, resolved and absolute.
    pub prefix: String,
    /// When the installation began: seconds since the Unix epoch, in
    /// decimal notation.
    pub installed_at: String,
    /// The files that were copied, in the order in which they were copied.
    pub installed_files: Vec<String>,
    /// The directories that were made, in the order in which they were made.
    pub created_directories: Vec<String>,
}

/// The view of `InstallationManifest`: what it holds, as the contracts speak of it.
pub struct ManifestView {
    pub app_id: Seq<char>,
    pub app_name: Seq<char>,
    pub version: Seq<char>,
    pub prefix: Seq<char>,
    pub installed_at: Seq<char>,
    pub installed_files: Seq<Seq<char>>,
    pub created_directories: Seq<Seq<char>>,
}

impl View for InstallationManifest {
    type V = ManifestView;

    open spec fn view(&self) -> ManifestView {
        ManifestView {
            app_id: self.app_id@,
            app_name: self.app_name@,
            version: self.version@,
            prefix: self.prefix@,
            installed_at: self.installed_at@,
            installed_files: views(self.installed_files@),
            created_directories: views(self.created_directories@),
        }
    }
}

/// The manifest at the start of an installation of `metadata` under
/// `prefix` at the time `now`: nothing is recorded yet.
pub open spec fn fresh_manifest(metadata: MetadataView, prefix: Seq<char>, now: nat)
    -> ManifestView {
    ManifestView {
        app_id: metadata.package.app_id,
        app_name: metadata.package.application_name,
        version: metadata.package.version,
        prefix,
        installed_at: decimal(now),
        installed_files: Seq::empty(),
        created_directories: Seq::empty(),
    }
}

/// Where the manifests of a scope are kept. Those of an installation for
/// all users have a fixed place; those of one user lie under that user's
/// home directory, or under `/tmp` where no home directory is known.
pub open spec fn registry_dir_of(for_all_users: bool, home: Option<Seq<char>>) -> Seq<char> {
    if for_all_users {
        "/var/lib/obision-installer/manifests"@
    } else {
        joined(
            match home {
                Some(h) => h,
                None => "/tmp"@,
            },
            ".local/share/obision-installer/manifests"@,
        )
    }
}

/// Where the manifest of the application `app_id` is kept.
pub open spec fn manifest_path_of(app_id: Seq<char>, for_all_users: bool, home: Option<Seq<char>>)
    -> Seq<char> {
    joined(registry_dir_of(for_all_users, home), app_id + ".json"@)
}

/// The two scopes keep the manifest of one application in different places,
/// whatever the home directory, as long as the application's identifier is no
/// absolute path.
pub proof fn lemma_scopes_keep_separate_manifests(app_id: Seq<char>, home: Option<Seq<char>>)
    requires
        !is_absolute(app_id),
    ensures
        manifest_path_of(app_id, true, home) != manifest_path_of(app_id, false, home),
{
    reveal_strlit("/var/lib/obision-installer/manifests");
    reveal_strlit(".local/share/obision-installer/manifests");
    reveal_strlit(".json");
    let name = app_id + ".json"@;
    let shared = registry_dir_of(true, home);
    let own = registry_dir_of(false, home);
    assert(!is_absolute(name)) by {
        if app_id.len() > 0 {
            assert(name[0] == app_id[0]);
        } else {
            assert(name[0] == ".json"@[0]);
        }
    }
    assert(shared.len() == 36);
    assert(shared.last() == 's');
    assert(".local/share/obision-installer/manifests"@.len() == 40);
    assert(own.len() >= 40);
    assert(own.last() == ".local/share/obision-installer/manifests"@[39]);
    assert(manifest_path_of(app_id, true, home).len() == 37 + name.len());
    assert(manifest_path_of(app_id, false, home).len() == own.len() + 1 + name.len());
}

impl InstallationManifest {
    /// The manifest at the start of an installation.
    pub fn new(metadata: &Metadata, prefix: String, now: u64) -> (r: InstallationManifest)
        ensures
            r@ == fresh_manifest(metadata@, prefix@, now as nat),
    {
        let r = InstallationManifest {
            app_id: metadata.package.app_id.clone(),
            app_name: metadata.package.application_name.clone(),
            version: metadata.package.version.clone(),
            prefix,
            installed_at: decimal_string(now),
            installed_files: Vec::new(),
            created_directories: Vec::new(),
        };
        assert(views(r.installed_files@) =~= Seq::empty());
        assert(views(r.created_directories@) =~= Seq::empty());
        r
    }

    /// Where the manifests of a scope are kept.
    pub fn registry_dir(for_all_users: bool, home: Option<&str>) -> (r: String)
        ensures
            r@ == registry_dir_of(
                for_all_users,
                match home {
                    Some(h) => Some(h@),
                    None => None,
                },
            ),
    {
        if for_all_users {
            "/var/lib/obision-installer/manifests".to_owned()
        } else {
            let base = match home {
                Some(h) => h,
                None => "/tmp",
            };
            join(base, ".local/share/obision-installer/manifests")
        }
    }

    /// Where this manifest is kept.
    pub fn manifest_path(&self, for_all_users: bool, home: Option<&str>) -> (r: String)
        ensures
            r@ == manifest_path_of(
                self@.app_id,
                for_all_users,
                match home {
                    Some(h) => Some(h@),
                    None => None,
                },
            ),
    {
        let name = append_str(self.app_id.as_str(), ".json");
        join(InstallationManifest::registry_dir(for_all_users, home).as_str(), name.as_str())
    }

    /// Records a file that was copied, behind those recorded before.
    pub fn record_file(&mut self, path: &str)
        ensures
            final(self)@ == (ManifestView {
                installed_files: old(self)@.installed_files.push(path@),
                ..old(self)@
            }),
    {
        let p = path.to_owned();
        proof {
            lemma_views_push(self.installed_files@, p);
        }
        self.installed_files.push(p);
    }

    /// Records a directory that was made, behind those recorded before.
    pub fn record_directory(&mut self, path: &str)
        ensures
            final(self)@ == (ManifestView {
                created_directories: old(self)@.created_directories.push(path@),
                ..old(self)@
            }),
    {
        let p = path.to_owned();
        proof {
            lemma_views_push(self.created_directories@, p);
        }
        self.created_directories.push(p);
    }
}

/// A section that holds a text.
pub open spec fn text_entry(key: Seq<char>, value: Seq<char>) -> EntryView {
    EntryView { key, section: SectionView::Value(ScalarView::Text(value)) }
}

/// A section that holds a list of texts.
pub open spec fn texts_entry(key: Seq<char>, values: Seq<Seq<char>>) -> EntryView {
    EntryView { key, section: SectionView::Value(ScalarView::Texts(values)) }
}

/// The document that a manifest is written as: its fields by name, in the
/// order in which the manifest holds them.
pub open spec fn encoded_manifest(m: ManifestView) -> Seq<EntryView> {
    seq![
        text_entry("app_id"@, m.app_id),
        text_entry("app_name"@, m.app_name),
        text_entry("version"@, m.version),
        text_entry("prefix"@, m.prefix),
        text_entry("installed_at"@, m.installed_at),
        texts_entry("installed_files"@, m.installed_files),
        texts_entry("created_directories"@, m.created_directories),
    ]
}

impl InstallationManifest {
    /// Writes the manifest as a document.
    pub fn to_document(&self) -> (d: Document)
        ensures
            d@ == encoded_manifest(self@),
    {
        let mut d = Document::new();
        d.put("app_id", Section::Value(Scalar::Text(self.app_id.clone())));
        d.put("app_name", Section::Value(Scalar::Text(self.app_name.clone())));
        d.put("version", Section::Value(Scalar::Text(self.version.clone())));
        d.put("prefix", Section::Value(Scalar::Text(self.prefix.clone())));
        d.put("installed_at", Section::Value(Scalar::Text(self.installed_at.clone())));
        d.put(
            "installed_files",
            Section::Value(Scalar::Texts(clone_strings(&self.installed_files))),
        );
        d.put(
            "created_directories",
            Section::Value(Scalar::Texts(clone_strings(&self.created_directories))),
        );
        assert(d@ =~= encoded_manifest(self@));
        d
    }
}

/// A stage of writing a manifest to disk.
#[derive(Clone, Copy, Debug, PartialEq, Eq, Structural)]
pub enum SaveStage {
    /// Making the directory in which the manifests are kept.
    CreateDirectory,
    /// Putting the manifest into text.
    Serialize,
    /// Writing the text.
    Write,
}

/// What is reported when writing the manifest to `path` fails at `stage`
/// for the reason `cause`.
pub open spec fn save_failure(stage: SaveStage, path: Seq<char>, cause: Seq<char>) -> LisErrorView {
    match stage {
        SaveStage::CreateDirectory => LisErrorView::Io {
            context: "Failed to create manifest directory"@,
            path,
            cause,
        },
        SaveStage::Serialize => LisErrorView::Format {
            detail: "Failed to serialize manifest: "@ + cause,
        },
        SaveStage::Write => LisErrorView::Io { context: "Failed to write manifest"@, path, cause },
    }
}

/// The error for a failure at one stage of writing a manifest.
pub fn save_error(stage: SaveStage, path: &str, cause: &str) -> (r: LisError)
    ensures
        r@ == save_failure(stage, path@, cause@),
{
    match stage {
        SaveStage::CreateDirectory => LisError::Io {
            context: "Failed to create manifest directory".to_owned(),
            path: path.to_owned(),
            cause: cause.to_owned(),
        },
        SaveStage::Serialize => LisError::Format {
            detail: append_str("Failed to serialize manifest: ", cause),
        },
        SaveStage::Write => LisError::Io {
            context: "Failed to write manifest".to_owned(),
            path: path.to_owned(),
            cause: cause.to_owned(),
        },
    }
}

} // verus!

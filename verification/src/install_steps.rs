//! The steps of an installation, one after the other, and the record of
//! what they put on the machine.

use crate::error::{LisError, LisErrorView};
use crate::install_paths::{required_directories, required_directories_of};
use crate::installer::{entry_mode, mode_for, prefix_of, resolve_prefix, target_of, target_path};
use crate::manifest::{InstallationManifest, ManifestView, fresh_manifest};
use crate::metadata::{FileEntryView, Metadata, MetadataView};
use crate::text::{append_str, lemma_views_push, views};
use vstd::prelude::*;

verus! {

/// Where an installation stands.
#[derive(Clone, Copy, Debug, PartialEq, Eq, Structural)]
pub enum InstallPhase {
    /// Nothing is known yet of where the package goes.
    NotStarted,
    /// The prefix is known; the directories are being made.
    PrefixResolved,
    /// The directories are there; the files are being copied.
    DirectoriesCreated,
    /// The files are in place; their permissions are being set.
    FilesExtracted,
    /// The permissions are set; the manifest is being written.
    PermissionsApplied,
    /// The package is installed and its manifest written.
    Complete,
    /// The installation went wrong. What it had done stays as it is.
    Failed,
}

/// How an action of an installation went.
#[derive(Clone, Copy, Debug, PartialEq, Eq, Structural)]
pub enum InstallOutcome {
    /// It was done.
    Done,
    /// There was nothing to do: what was to be made is there already.
    Existed,
    /// It could not be done, and the installation can go on without it.
    Skipped,
    /// It could not be done, and the installation cannot go on.
    Failed,
}

/// What the caller is to do next.
#[derive(Clone, Copy, Debug, PartialEq, Eq, Structural)]
pub enum InstallAction {
    /// Resolve the prefix.
    ResolvePrefix,
    /// Make the directory at this position, with those above it: `Done` if
    /// it was made, `Existed` if it was there.
    CreateDirectory(usize),
    /// Copy the file at this position from the unpacked package to its
    /// target.
    CopyFile(usize),
    /// Set the permissions of the file at this position.
    SetMode(usize),
    /// Write the manifest.
    SaveManifest,
    /// Nothing: the installation is over.
    Nothing,
}

/// A file of the package and what has become of it.
#[derive(Clone, Debug, PartialEq, Eq)]
pub struct Placement {
    /// Where the file lies in the package, below the application's tree.
    pub source: String,
    /// Where the file is installed.
    pub target: String,
    /// The permissions that the file is to get, if any.
    pub mode: Option<u32>,
    /// Whether the file was copied.
    pub placed: bool,
}

/// The view of `Placement`: what it holds, as the contracts speak of it.
pub struct PlacementView {
    pub source: Seq<char>,
    pub target: Seq<char>,
    pub mode: Option<u32>,
    pub placed: bool,
}

impl View for Placement {
    type V = PlacementView;

    open spec fn view(&self) -> PlacementView {
        PlacementView {
            source: self.source@,
            target: self.target@,
            mode: self.mode,
            placed: self.placed,
        }
    }
}

/// An installation in progress.
#[derive(Clone, Debug, PartialEq, Eq)]
pub struct Installation {
    pub phase: InstallPhase,
    /// Position of the directory or file that is being dealt with.
    pub cursor: usize,
    pub for_all_users: bool,
    /// The directories to make, in the order in which they are made.
    pub directories: Vec<String>,
    /// The files to install, in the order of the metadata document.
    pub files: Vec<Placement>,
    pub manifest: InstallationManifest,
}

/// The view of `Installation`: what it holds, as the contracts speak of it.
pub struct InstallationView {
    pub phase: InstallPhase,
    pub cursor: nat,
    pub for_all_users: bool,
    pub directories: Seq<Seq<char>>,
    pub files: Seq<PlacementView>,
    pub manifest: ManifestView,
}

impl View for Installation {
    type V = InstallationView;

    open spec fn view(&self) -> InstallationView {
        InstallationView {
            phase: self.phase,
            cursor: self.cursor as nat,
            for_all_users: self.for_all_users,
            directories: views(self.directories@),
            files: views(self.files@),
            manifest: self.manifest@,
        }
    }
}

/// A manifest with nothing in it.
pub open spec fn empty_manifest() -> ManifestView {
    ManifestView {
        app_id: Seq::empty(),
        app_name: Seq::empty(),
        version: Seq::empty(),
        prefix: Seq::empty(),
        installed_at: Seq::empty(),
        installed_files: Seq::empty(),
        created_directories: Seq::empty(),
    }
}

/// An installation of which nothing is known but whom it is for.
pub open spec fn not_started(for_all_users: bool) -> InstallationView {
    InstallationView {
        phase: InstallPhase::NotStarted,
        cursor: 0,
        for_all_users,
        directories: Seq::empty(),
        files: Seq::empty(),
        manifest: empty_manifest(),
    }
}

/// What an installation has to do for a file entry of a package that is
/// installed under `prefix`.
pub open spec fn placement_of(prefix: Seq<char>, app_id: Seq<char>, f: FileEntryView)
    -> PlacementView {
    PlacementView {
        source: f.source,
        target: target_of(prefix, app_id, f),
        mode: entry_mode(f),
        placed: false,
    }
}

/// The first position at or after `from` of a file that was copied and is
/// to get permissions, or the number of files when there is none.
pub open spec fn next_due(files: Seq<PlacementView>, from: int) -> int
    decreases files.len() - from,
{
    if 0 <= from < files.len() && !(files[from].placed && files[from].mode is Some) {
        next_due(files, from + 1)
    } else {
        from
    }
}

/// The installation once it has left behind each phase in which nothing
/// is left to do.
pub open spec fn settled(v: InstallationView) -> InstallationView {
    let a = if v.phase == InstallPhase::PrefixResolved && v.cursor >= v.directories.len() {
        InstallationView { phase: InstallPhase::DirectoriesCreated, cursor: 0, ..v }
    } else {
        v
    };
    let b = if a.phase == InstallPhase::DirectoriesCreated && a.cursor >= a.files.len() {
        InstallationView {
            phase: InstallPhase::FilesExtracted,
            cursor: next_due(a.files, 0) as nat,
            ..a
        }
    } else {
        a
    };
    if b.phase == InstallPhase::FilesExtracted && b.cursor >= b.files.len() {
        InstallationView { phase: InstallPhase::PermissionsApplied, cursor: 0, ..b }
    } else {
        b
    }
}

/// The installation of the package `m` once its prefix is resolved, at the
/// time `now`: the directories to make and the place of each file are
/// known, and the manifest is begun.
pub open spec fn resolved(
    m: MetadataView,
    for_all_users: bool,
    home: Option<Seq<char>>,
    now: nat,
) -> InstallationView {
    let prefix = prefix_of(m, for_all_users, home);
    settled(
        InstallationView {
            phase: InstallPhase::PrefixResolved,
            cursor: 0,
            for_all_users,
            directories: required_directories_of(prefix, m.package.app_id),
            files: Seq::new(
                m.files.len(),
                |i: int| placement_of(prefix, m.package.app_id, m.files[i]),
            ),
            manifest: fresh_manifest(m, prefix, now),
        },
    )
}

/// What is to be done in the state `v`.
pub open spec fn action_of(v: InstallationView) -> InstallAction {
    match v.phase {
        InstallPhase::NotStarted => InstallAction::ResolvePrefix,
        InstallPhase::PrefixResolved => InstallAction::CreateDirectory(v.cursor as usize),
        InstallPhase::DirectoriesCreated => InstallAction::CopyFile(v.cursor as usize),
        InstallPhase::FilesExtracted => InstallAction::SetMode(v.cursor as usize),
        InstallPhase::PermissionsApplied => InstallAction::SaveManifest,
        InstallPhase::Complete => InstallAction::Nothing,
        InstallPhase::Failed => InstallAction::Nothing,
    }
}

/// The installation with its cursor moved on by one.
pub open spec fn advanced(v: InstallationView) -> InstallationView {
    InstallationView { cursor: v.cursor + 1, ..v }
}

/// The state after the state `v` in which the action of `v` went as
/// `outcome` says.
///
/// A directory that was made is recorded; one that was there is not. A
/// directory that could not be made ends the installation. A file that was
/// copied is recorded behind those copied before it; one that could not be
/// copied is passed over, unless the installation cannot go on. How the
/// setting of permissions goes changes nothing. The installation is
/// complete once its manifest is written.
pub open spec fn recorded(v: InstallationView, outcome: InstallOutcome) -> InstallationView {
    match v.phase {
        InstallPhase::NotStarted => v,
        InstallPhase::PrefixResolved => if v.cursor >= v.directories.len() {
            settled(v)
        } else if outcome == InstallOutcome::Done {
            settled(
                advanced(
                    InstallationView {
                        manifest: ManifestView {
                            created_directories: v.manifest.created_directories.push(
                                v.directories[v.cursor as int],
                            ),
                            ..v.manifest
                        },
                        ..v
                    },
                ),
            )
        } else if outcome == InstallOutcome::Existed {
            settled(advanced(v))
        } else {
            InstallationView { phase: InstallPhase::Failed, ..v }
        },
        InstallPhase::DirectoriesCreated => if v.cursor >= v.files.len() {
            settled(v)
        } else if outcome == InstallOutcome::Done {
            settled(
                advanced(
                    InstallationView {
                        files: v.files.update(
                            v.cursor as int,
                            PlacementView { placed: true, ..v.files[v.cursor as int] },
                        ),
                        manifest: ManifestView {
                            installed_files: v.manifest.installed_files.push(
                                v.files[v.cursor as int].target,
                            ),
                            ..v.manifest
                        },
                        ..v
                    },
                ),
            )
        } else if outcome == InstallOutcome::Failed {
            InstallationView { phase: InstallPhase::Failed, ..v }
        } else {
            settled(advanced(v))
        },
        InstallPhase::FilesExtracted => if v.cursor >= v.files.len() {
            settled(v)
        } else {
            settled(InstallationView { cursor: next_due(v.files, v.cursor as int + 1) as nat, ..v })
        },
        InstallPhase::PermissionsApplied => if outcome == InstallOutcome::Done {
            InstallationView { phase: InstallPhase::Complete, ..v }
        } else {
            InstallationView { phase: InstallPhase::Failed, ..v }
        },
        InstallPhase::Complete => v,
        InstallPhase::Failed => v,
    }
}

/// How far an installation has come, in hundredths, and what it is doing.
#[derive(Clone, Debug, PartialEq, Eq)]
pub struct Progress {
    pub percent: u8,
    pub status: String,
}

/// The view of `Progress`: what it holds, as the contracts speak of it.
pub struct ProgressView {
    pub percent: u8,
    pub status: Seq<char>,
}

impl View for Progress {
    type V = ProgressView;

    open spec fn view(&self) -> ProgressView {
        ProgressView { percent: self.percent, status: self.status@ }
    }
}

/// What an installation in a phase reports: how far it has come, in
/// hundredths, and what it is doing. An installation that has failed
/// reports nothing: what it says is the error that it ends with.
pub open spec fn report_of(phase: InstallPhase) -> Option<ProgressView> {
    match phase {
        InstallPhase::NotStarted => Some(
            ProgressView { percent: 0, status: "Preparing installation..."@ },
        ),
        InstallPhase::PrefixResolved => Some(
            ProgressView { percent: 20, status: "Creating directories..."@ },
        ),
        InstallPhase::DirectoriesCreated => Some(
            ProgressView { percent: 50, status: "Extracting files..."@ },
        ),
        InstallPhase::FilesExtracted => Some(
            ProgressView { percent: 80, status: "Setting permissions..."@ },
        ),
        InstallPhase::PermissionsApplied => Some(
            ProgressView { percent: 90, status: "Recording installation..."@ },
        ),
        InstallPhase::Complete => Some(
            ProgressView { percent: 100, status: "Installation complete!"@ },
        ),
        InstallPhase::Failed => None,
    }
}

/// The error with which an installation ends when the action `action`,
/// taken in the state `v`, went wrong for the reason `cause`: it names what
/// could not be made, copied or written.
pub open spec fn failure_of(v: InstallationView, action: InstallAction, cause: Seq<char>)
    -> LisErrorView {
    match action {
        InstallAction::CreateDirectory(k) => LisErrorView::Io {
            context: "Failed to create directory"@,
            path: if k < v.directories.len() {
                v.directories[k as int]
            } else {
                v.manifest.prefix
            },
            cause,
        },
        InstallAction::CopyFile(i) => LisErrorView::Io {
            context: "Failed to install file"@,
            path: if i < v.files.len() {
                v.files[i as int].target
            } else {
                v.manifest.prefix
            },
            cause,
        },
        InstallAction::SaveManifest => LisErrorView::Io {
            context: "Failed to write manifest"@,
            path: v.manifest.prefix,
            cause,
        },
        _ => LisErrorView::Io { context: "Installation failed"@, path: v.manifest.prefix, cause },
    }
}

/// What is said once the prefix is resolved.
pub open spec fn prefix_status_of(prefix: Seq<char>) -> Seq<char> {
    "Installing to "@ + prefix + "..."@
}

impl Installation {
    /// An installation that has not started.
    pub fn new(for_all_users: bool) -> (r: Installation)
        ensures
            r@ == not_started(for_all_users),
    {
        let r = Installation {
            phase: InstallPhase::NotStarted,
            cursor: 0,
            for_all_users,
            directories: Vec::new(),
            files: Vec::new(),
            manifest: InstallationManifest {
                app_id: String::new(),
                app_name: String::new(),
                version: String::new(),
                prefix: String::new(),
                installed_at: String::new(),
                installed_files: Vec::new(),
                created_directories: Vec::new(),
            },
        };
        assert(views(r.directories@) =~= Seq::empty());
        assert(views(r.files@) =~= Seq::empty());
        assert(views(r.manifest.installed_files@) =~= Seq::empty());
        assert(views(r.manifest.created_directories@) =~= Seq::empty());
        r
    }

    fn skip_to_due(&self, from: usize) -> (r: usize)
        requires
            from <= self.files.len(),
        ensures
            r == next_due(self@.files, from as int),
            from <= r <= self.files.len(),
    {
        let mut k: usize = from;
        while k < self.files.len() && !(self.files[k].placed && self.files[k].mode.is_some())
            invariant
                from <= k <= self.files.len(),
                next_due(self@.files, from as int) == next_due(self@.files, k as int),
            decreases self.files.len() - k,
        {
            k = k + 1;
        }
        k
    }

    fn settle(&mut self)
        ensures
            final(self)@ == settled(old(self)@),
    {
        if self.phase == InstallPhase::PrefixResolved && self.cursor >= self.directories.len() {
            self.phase = InstallPhase::DirectoriesCreated;
            self.cursor = 0;
        }
        if self.phase == InstallPhase::DirectoriesCreated && self.cursor >= self.files.len() {
            self.phase = InstallPhase::FilesExtracted;
            self.cursor = self.skip_to_due(0);
        }
        if self.phase == InstallPhase::FilesExtracted && self.cursor >= self.files.len() {
            self.phase = InstallPhase::PermissionsApplied;
            self.cursor = 0;
        }
    }

    /// Resolves the prefix of an installation of the package `metadata`:
    /// for all users or for the one whose home directory is `home`. `now`
    /// is the time, in seconds since the Unix epoch.
    pub fn begin(metadata: &Metadata, for_all_users: bool, home: Option<&str>, now: u64) -> (r:
        Installation)
        ensures
            r@ == resolved(
                metadata@,
                for_all_users,
                match home {
                    Some(h) => Some(h@),
                    None => None,
                },
                now as nat,
            ),
    {
        let prefix = resolve_prefix(metadata, for_all_users, home);
        let app_id = metadata.package.app_id.as_str();
        let ghost want = Seq::new(
            metadata@.files.len(),
            |i: int| placement_of(prefix@, metadata@.package.app_id, metadata@.files[i]),
        );
        let mut files: Vec<Placement> = Vec::new();
        let mut i: usize = 0;
        assert(views(files@) =~= want.take(0));
        while i < metadata.files.len()
            invariant
                i <= metadata.files.len(),
                app_id@ == metadata@.package.app_id,
                want == Seq::new(
                    metadata@.files.len(),
                    |k: int| placement_of(prefix@, metadata@.package.app_id, metadata@.files[k]),
                ),
                views(files@) == want.take(i as int),
            decreases metadata.files.len() - i,
        {
            let entry = &metadata.files[i];
            let p = Placement {
                source: entry.source.clone(),
                target: target_path(prefix.as_str(), app_id, entry),
                mode: mode_for(entry),
                placed: false,
            };
            proof {
                lemma_views_push(files@, p);
                assert(p@ == want[i as int]);
                assert(want.take(i + 1) =~= want.take(i as int).push(want[i as int]));
            }
            files.push(p);
            i = i + 1;
        }
        assert(want.take(want.len() as int) == want);
        let directories = required_directories(prefix.as_str(), app_id);
        let manifest = InstallationManifest::new(metadata, prefix, now);
        let mut r = Installation {
            phase: InstallPhase::PrefixResolved,
            cursor: 0,
            for_all_users,
            directories,
            files,
            manifest,
        };
        r.settle();
        r
    }

    /// What is to be done now.
    pub fn next_action(&self) -> (r: InstallAction)
        ensures
            r == action_of(self@),
    {
        match self.phase {
            InstallPhase::NotStarted => InstallAction::ResolvePrefix,
            InstallPhase::PrefixResolved => InstallAction::CreateDirectory(self.cursor),
            InstallPhase::DirectoriesCreated => InstallAction::CopyFile(self.cursor),
            InstallPhase::FilesExtracted => InstallAction::SetMode(self.cursor),
            InstallPhase::PermissionsApplied => InstallAction::SaveManifest,
            InstallPhase::Complete => InstallAction::Nothing,
            InstallPhase::Failed => InstallAction::Nothing,
        }
    }

    /// Takes the report on the action that `next_action` named.
    pub fn record(&mut self, outcome: InstallOutcome)
        ensures
            final(self)@ == recorded(old(self)@, outcome),
    {
        match self.phase {
            InstallPhase::NotStarted => {},
            InstallPhase::PrefixResolved => {
                if self.cursor >= self.directories.len() {
                    self.settle();
                } else {
                    match outcome {
                        InstallOutcome::Done => {
                            let dir = self.directories[self.cursor].clone();
                            self.manifest.record_directory(dir.as_str());
                            self.cursor = self.cursor + 1;
                            self.settle();
                        },
                        InstallOutcome::Existed => {
                            self.cursor = self.cursor + 1;
                            self.settle();
                        },
                        _ => {
                            self.phase = InstallPhase::Failed;
                        },
                    }
                }
            },
            InstallPhase::DirectoriesCreated => {
                if self.cursor >= self.files.len() {
                    self.settle();
                } else {
                    match outcome {
                        InstallOutcome::Done => {
                            let old_file = &self.files[self.cursor];
                            let file = Placement {
                                source: old_file.source.clone(),
                                target: old_file.target.clone(),
                                mode: old_file.mode,
                                placed: true,
                            };
                            self.manifest.record_file(file.target.as_str());
                            let ghost before = views(self.files@);
                            self.files.set(self.cursor, file);
                            assert(views(self.files@) =~= before.update(
                                self.cursor as int,
                                PlacementView { placed: true, ..before[self.cursor as int] },
                            ));
                            self.cursor = self.cursor + 1;
                            self.settle();
                        },
                        InstallOutcome::Failed => {
                            self.phase = InstallPhase::Failed;
                        },
                        _ => {
                            self.cursor = self.cursor + 1;
                            self.settle();
                        },
                    }
                }
            },
            InstallPhase::FilesExtracted => {
                if self.cursor >= self.files.len() {
                    self.settle();
                } else {
                    self.cursor = self.skip_to_due(self.cursor + 1);
                    self.settle();
                }
            },
            InstallPhase::PermissionsApplied => {
                match outcome {
                    InstallOutcome::Done => {
                        self.phase = InstallPhase::Complete;
                    },
                    _ => {
                        self.phase = InstallPhase::Failed;
                    },
                }
            },
            InstallPhase::Complete => {},
            InstallPhase::Failed => {},
        }
    }

    /// Whether the installation is over.
    pub fn is_over(&self) -> (r: bool)
        ensures
            r == (self@.phase == InstallPhase::Complete || self@.phase == InstallPhase::Failed),
    {
        match self.phase {
            InstallPhase::Complete => true,
            InstallPhase::Failed => true,
            _ => false,
        }
    }

    /// How far the installation has come and what it is doing; nothing for
    /// an installation that has failed.
    pub fn progress(&self) -> (r: Option<Progress>)
        ensures
            match report_of(self@.phase) {
                Some(report) => r matches Some(given) && given@ == report,
                None => r is None,
            },
    {
        match self.phase {
            InstallPhase::NotStarted => Some(
                Progress { percent: 0, status: "Preparing installation...".to_owned() },
            ),
            InstallPhase::PrefixResolved => Some(
                Progress { percent: 20, status: "Creating directories...".to_owned() },
            ),
            InstallPhase::DirectoriesCreated => Some(
                Progress { percent: 50, status: "Extracting files...".to_owned() },
            ),
            InstallPhase::FilesExtracted => Some(
                Progress { percent: 80, status: "Setting permissions...".to_owned() },
            ),
            InstallPhase::PermissionsApplied => Some(
                Progress { percent: 90, status: "Recording installation...".to_owned() },
            ),
            InstallPhase::Complete => Some(
                Progress { percent: 100, status: "Installation complete!".to_owned() },
            ),
            InstallPhase::Failed => None,
        }
    }

    /// The error with which the installation ends when `action` went wrong
    /// for the reason `cause`.
    pub fn failure(&self, action: InstallAction, cause: &str) -> (r: LisError)
        ensures
            r@ == failure_of(self@, action, cause@),
    {
        match action {
            InstallAction::CreateDirectory(k) => {
                let path = if k < self.directories.len() {
                    self.directories[k].clone()
                } else {
                    self.manifest.prefix.clone()
                };
                LisError::Io {
                    context: "Failed to create directory".to_owned(),
                    path,
                    cause: cause.to_owned(),
                }
            },
            InstallAction::CopyFile(i) => {
                let path = if i < self.files.len() {
                    self.files[i].target.clone()
                } else {
                    self.manifest.prefix.clone()
                };
                LisError::Io {
                    context: "Failed to install file".to_owned(),
                    path,
                    cause: cause.to_owned(),
                }
            },
            InstallAction::SaveManifest => LisError::Io {
                context: "Failed to write manifest".to_owned(),
                path: self.manifest.prefix.clone(),
                cause: cause.to_owned(),
            },
            _ => LisError::Io {
                context: "Installation failed".to_owned(),
                path: self.manifest.prefix.clone(),
                cause: cause.to_owned(),
            },
        }
    }

    /// What is said once the prefix is resolved: a tenth of the way.
    pub fn prefix_progress(&self) -> (r: Progress)
        ensures
            r@ == (ProgressView { percent: 10, status: prefix_status_of(self@.manifest.prefix) }),
    {
        let a = append_str("Installing to ", self.manifest.prefix.as_str());
        Progress { percent: 10, status: append_str(a.as_str(), "...") }
    }
}

/// The state that an installation reaches from `v` when its actions go
/// as `outcomes` say, one after the other.
pub open spec fn run(v: InstallationView, outcomes: Seq<InstallOutcome>) -> InstallationView
    decreases outcomes.len(),
{
    if outcomes.len() == 0 {
        v
    } else {
        run(recorded(v, outcomes[0]), outcomes.skip(1))
    }
}

/// Of the items of `all` from the position `from` on, those whose turn
/// ended in `Done`, in order: `outcomes` holds how each turn ended.
pub open spec fn done_items(all: Seq<Seq<char>>, from: int, outcomes: Seq<InstallOutcome>) -> Seq<
    Seq<char>,
>
    decreases outcomes.len(),
{
    if outcomes.len() == 0 || from < 0 || from >= all.len() {
        Seq::empty()
    } else if outcomes[0] == InstallOutcome::Done {
        seq![all[from]] + done_items(all, from + 1, outcomes.skip(1))
    } else {
        done_items(all, from + 1, outcomes.skip(1))
    }
}

/// The targets of the files, in order.
pub open spec fn targets(files: Seq<PlacementView>) -> Seq<Seq<char>> {
    Seq::new(files.len(), |i: int| files[i].target)
}

/// How the making of the directories `dirs[from..]` goes, one after the
/// other, on a disk that holds the directories `existing` and lets each
/// directory be made: one that is there is found there, any other is made
/// and is there from then on.
pub open spec fn pass_outcomes(existing: Set<Seq<char>>, dirs: Seq<Seq<char>>, from: int) -> Seq<
    InstallOutcome,
>
    decreases dirs.len() - from,
{
    if from < 0 || from >= dirs.len() {
        Seq::empty()
    } else if existing.contains(dirs[from]) {
        seq![InstallOutcome::Existed] + pass_outcomes(existing, dirs, from + 1)
    } else {
        seq![InstallOutcome::Done] + pass_outcomes(existing.insert(dirs[from]), dirs, from + 1)
    }
}

/// The directories that the disk holds once `dirs[from..]` were made.
pub open spec fn disk_after(existing: Set<Seq<char>>, dirs: Seq<Seq<char>>, from: int) -> Set<
    Seq<char>,
>
    decreases dirs.len() - from,
{
    if from < 0 || from >= dirs.len() {
        existing
    } else {
        disk_after(existing.insert(dirs[from]), dirs, from + 1)
    }
}

/// What an installation reports never falls: after any step it has come
/// at least as far as before. It reports all of the way when it is
/// complete and at no other time.
pub proof fn lemma_progress_never_falls(v: InstallationView, outcome: InstallOutcome)
    ensures
        report_of(v.phase) is Some && report_of(recorded(v, outcome).phase) is Some ==> report_of(
            v.phase,
        )->0.percent <= report_of(recorded(v, outcome).phase)->0.percent,
        report_of(v.phase) is Some ==> report_of(v.phase)->0.percent <= 100,
        report_of(v.phase) is Some ==> (report_of(v.phase)->0.percent == 100 <==> v.phase
            == InstallPhase::Complete),
{
}

/// An installation that has failed stays failed: it asks for nothing
/// more, takes no report, records nothing more and reports nothing, so
/// that it never reports to have come all of the way.
pub proof fn lemma_failure_is_final(v: InstallationView, outcome: InstallOutcome)
    requires
        v.phase == InstallPhase::Failed,
    ensures
        recorded(v, outcome) == v,
        action_of(v) == InstallAction::Nothing,
        report_of(v.phase) is None,
{
}

/// A step that fails leaves everything but the phase as it was: what had
/// been made and copied stays recorded, and nothing is added.
pub proof fn lemma_failure_keeps_the_record(v: InstallationView, outcome: InstallOutcome)
    requires
        v.phase != InstallPhase::Failed,
        recorded(v, outcome).phase == InstallPhase::Failed,
    ensures
        recorded(v, outcome) == (InstallationView { phase: InstallPhase::Failed, ..v }),
        v.phase == InstallPhase::PrefixResolved || v.phase == InstallPhase::DirectoriesCreated
            || v.phase == InstallPhase::PermissionsApplied,
{
}

/// The installed files are listed in the order in which they were copied:
/// a file that was copied is put behind those listed before, and nothing
/// else ever changes the list.
pub proof fn lemma_files_are_listed_in_copy_order(v: InstallationView, outcome: InstallOutcome)
    ensures
        recorded(v, outcome).manifest.installed_files == if v.phase
            == InstallPhase::DirectoriesCreated && v.cursor < v.files.len() && outcome
            == InstallOutcome::Done {
            v.manifest.installed_files.push(v.files[v.cursor as int].target)
        } else {
            v.manifest.installed_files
        },
        targets(recorded(v, outcome).files) == targets(v.files),
{
    assert(targets(recorded(v, outcome).files) =~= targets(v.files));
}

/// Over the whole copying of the files, the manifest lists exactly the
/// targets of the files that were copied, first copied first listed.
pub proof fn lemma_manifest_lists_copied_files(v: InstallationView, outcomes: Seq<InstallOutcome>)
    requires
        v.phase == InstallPhase::DirectoriesCreated,
        v.cursor + outcomes.len() <= v.files.len(),
        forall|i: int| 0 <= i < outcomes.len() ==> outcomes[i] != InstallOutcome::Failed,
    ensures
        run(v, outcomes).manifest.installed_files == v.manifest.installed_files + done_items(
            targets(v.files),
            v.cursor as int,
            outcomes,
        ),
        run(v, outcomes).manifest.created_directories == v.manifest.created_directories,
        run(v, outcomes).phase != InstallPhase::Failed,
    decreases outcomes.len(),
{
    if outcomes.len() == 0 {
        assert(v.manifest.installed_files + Seq::<Seq<char>>::empty()
            =~= v.manifest.installed_files);
    } else {
        let w = recorded(v, outcomes[0]);
        let rest = outcomes.skip(1);
        lemma_files_are_listed_in_copy_order(v, outcomes[0]);
        let item = targets(v.files)[v.cursor as int];
        assert(item == v.files[v.cursor as int].target);
        if v.cursor + 1 < v.files.len() {
            assert(w.phase == InstallPhase::DirectoriesCreated);
            assert(w.cursor == v.cursor + 1);
            lemma_manifest_lists_copied_files(w, rest);
            let tail = done_items(targets(v.files), v.cursor as int + 1, rest);
            if outcomes[0] == InstallOutcome::Done {
                assert(v.manifest.installed_files.push(item) + tail
                    =~= v.manifest.installed_files + (seq![item] + tail));
            }
        } else {
            assert(rest.len() == 0);
            assert(run(w, rest) == w);
            assert(done_items(targets(v.files), v.cursor as int + 1, rest) =~= Seq::empty());
            if outcomes[0] == InstallOutcome::Done {
                assert(v.manifest.installed_files.push(item) =~= v.manifest.installed_files + (
                seq![item] + Seq::<Seq<char>>::empty()));
            } else {
                assert(v.manifest.installed_files + Seq::<Seq<char>>::empty()
                    =~= v.manifest.installed_files);
            }
        }
    }
}

/// Over the making of the directories, the manifest lists exactly the
/// directories that were made, in the order in which they were made; one
/// that was found there is not listed, and is no error.
pub proof fn lemma_manifest_lists_made_directories(
    v: InstallationView,
    outcomes: Seq<InstallOutcome>,
)
    requires
        v.phase == InstallPhase::PrefixResolved,
        v.cursor + outcomes.len() <= v.directories.len(),
        forall|i: int|
            0 <= i < outcomes.len() ==> outcomes[i] == InstallOutcome::Done || outcomes[i]
                == InstallOutcome::Existed,
    ensures
        run(v, outcomes).manifest.created_directories == v.manifest.created_directories
            + done_items(v.directories, v.cursor as int, outcomes),
        run(v, outcomes).manifest.installed_files == v.manifest.installed_files,
        run(v, outcomes).phase != InstallPhase::Failed,
    decreases outcomes.len(),
{
    if outcomes.len() == 0 {
        assert(v.manifest.created_directories + Seq::<Seq<char>>::empty()
            =~= v.manifest.created_directories);
    } else {
        let w = recorded(v, outcomes[0]);
        let rest = outcomes.skip(1);
        let item = v.directories[v.cursor as int];
        if v.cursor + 1 < v.directories.len() {
            assert(w.phase == InstallPhase::PrefixResolved);
            assert(w.cursor == v.cursor + 1);
            assert(w.directories == v.directories);
            lemma_manifest_lists_made_directories(w, rest);
            let tail = done_items(v.directories, v.cursor as int + 1, rest);
            if outcomes[0] == InstallOutcome::Done {
                assert(v.manifest.created_directories.push(item) + tail
                    =~= v.manifest.created_directories + (seq![item] + tail));
            }
        } else {
            assert(rest.len() == 0);
            assert(run(w, rest) == w);
            assert(done_items(v.directories, v.cursor as int + 1, rest) =~= Seq::empty());
            if outcomes[0] == InstallOutcome::Done {
                assert(v.manifest.created_directories.push(item)
                    =~= v.manifest.created_directories + (seq![item] + Seq::<
                    Seq<char>,
                >::empty()));
            } else {
                assert(v.manifest.created_directories + Seq::<Seq<char>>::empty()
                    =~= v.manifest.created_directories);
            }
        }
    }
}

proof fn lemma_pass_shape(existing: Set<Seq<char>>, dirs: Seq<Seq<char>>, from: int)
    requires
        0 <= from <= dirs.len(),
    ensures
        pass_outcomes(existing, dirs, from).len() == dirs.len() - from,
        forall|i: int|
            0 <= i < dirs.len() - from ==> {
                let o = #[trigger] pass_outcomes(existing, dirs, from)[i];
                o == InstallOutcome::Done || o == InstallOutcome::Existed
            },
    decreases dirs.len() - from,
{
    if from < dirs.len() {
        if existing.contains(dirs[from]) {
            lemma_pass_shape(existing, dirs, from + 1);
            let rest = pass_outcomes(existing, dirs, from + 1);
            let all = pass_outcomes(existing, dirs, from);
            assert forall|i: int| 0 <= i < dirs.len() - from implies {
                let o = #[trigger] all[i];
                o == InstallOutcome::Done || o == InstallOutcome::Existed
            } by {
                if i > 0 {
                    assert(all[i] == rest[i - 1]);
                }
            }
        } else {
            lemma_pass_shape(existing.insert(dirs[from]), dirs, from + 1);
            let rest = pass_outcomes(existing.insert(dirs[from]), dirs, from + 1);
            let all = pass_outcomes(existing, dirs, from);
            assert forall|i: int| 0 <= i < dirs.len() - from implies {
                let o = #[trigger] all[i];
                o == InstallOutcome::Done || o == InstallOutcome::Existed
            } by {
                if i > 0 {
                    assert(all[i] == rest[i - 1]);
                }
            }
        }
    }
}

proof fn lemma_disk_grows(existing: Set<Seq<char>>, dirs: Seq<Seq<char>>, from: int)
    requires
        0 <= from <= dirs.len(),
    ensures
        forall|d: Seq<char>| existing.contains(d) ==> disk_after(existing, dirs, from).contains(d),
        forall|k: int|
            from <= k < dirs.len() ==> disk_after(existing, dirs, from).contains(#[trigger] dirs[k]),
    decreases dirs.len() - from,
{
    if from < dirs.len() {
        lemma_disk_grows(existing.insert(dirs[from]), dirs, from + 1);
        assert(existing.insert(dirs[from]).contains(dirs[from]));
        assert forall|d: Seq<char>| existing.contains(d) implies disk_after(
            existing,
            dirs,
            from,
        ).contains(d) by {
            assert(existing.insert(dirs[from]).contains(d));
        }
    }
}

proof fn lemma_nothing_is_made_twice(existing: Set<Seq<char>>, dirs: Seq<Seq<char>>, from: int)
    requires
        0 <= from <= dirs.len(),
    ensures
        ({
            let made = done_items(dirs, from, pass_outcomes(existing, dirs, from));
            &&& made.no_duplicates()
            &&& forall|i: int| 0 <= i < made.len() ==> !existing.contains(#[trigger] made[i])
        }),
    decreases dirs.len() - from,
{
    let outcomes = pass_outcomes(existing, dirs, from);
    let made = done_items(dirs, from, outcomes);
    if from < dirs.len() {
        let d = dirs[from];
        if existing.contains(d) {
            lemma_nothing_is_made_twice(existing, dirs, from + 1);
            assert(outcomes.skip(1) =~= pass_outcomes(existing, dirs, from + 1));
        } else {
            let grown = existing.insert(d);
            lemma_nothing_is_made_twice(grown, dirs, from + 1);
            assert(outcomes.skip(1) =~= pass_outcomes(grown, dirs, from + 1));
            let tail = done_items(dirs, from + 1, pass_outcomes(grown, dirs, from + 1));
            assert(made == seq![d] + tail);
            assert forall|i: int| 0 <= i < made.len() implies !existing.contains(
                #[trigger] made[i],
            ) by {
                if i > 0 {
                    assert(made[i] == tail[i - 1]);
                    assert(!grown.contains(tail[i - 1]));
                }
            }
            assert forall|i: int, j: int| 0 <= i < made.len() && 0 <= j < made.len() && i
                != j implies made[i] != made[j] by {
                if i > 0 {
                    assert(made[i] == tail[i - 1]);
                    assert(!grown.contains(tail[i - 1]));
                }
                if j > 0 {
                    assert(made[j] == tail[j - 1]);
                    assert(!grown.contains(tail[j - 1]));
                }
            }
        }
    } else {
        assert(made =~= Seq::empty());
    }
}

proof fn lemma_nothing_is_made_of_what_is_there(
    existing: Set<Seq<char>>,
    dirs: Seq<Seq<char>>,
    from: int,
)
    requires
        0 <= from <= dirs.len(),
        forall|k: int| from <= k < dirs.len() ==> existing.contains(#[trigger] dirs[k]),
    ensures
        done_items(dirs, from, pass_outcomes(existing, dirs, from)) == Seq::<Seq<char>>::empty(),
    decreases dirs.len() - from,
{
    let outcomes = pass_outcomes(existing, dirs, from);
    if from < dirs.len() {
        assert(existing.contains(dirs[from]));
        lemma_nothing_is_made_of_what_is_there(existing, dirs, from + 1);
        assert(outcomes.skip(1) =~= pass_outcomes(existing, dirs, from + 1));
    }
}

/// Making the directories twice is no error and records no directory
/// twice. On a disk that lets each directory be made, a first pass over
/// the directories records those that were not there, each once; a second
/// pass finds every directory there and records nothing.
pub proof fn lemma_directory_creation_is_idempotent(v: InstallationView, existing: Set<Seq<char>>)
    requires
        v.phase == InstallPhase::PrefixResolved,
        v.cursor == 0,
    ensures
        ({
            let first = pass_outcomes(existing, v.directories, 0);
            let second = pass_outcomes(disk_after(existing, v.directories, 0), v.directories, 0);
            &&& run(v, first).phase != InstallPhase::Failed
            &&& run(v, first).manifest.created_directories == v.manifest.created_directories
                + done_items(v.directories, 0, first)
            &&& done_items(v.directories, 0, first).no_duplicates()
            &&& forall|i: int|
                0 <= i < done_items(v.directories, 0, first).len() ==> !existing.contains(
                    #[trigger] done_items(v.directories, 0, first)[i],
                )
            &&& run(v, second).phase != InstallPhase::Failed
            &&& run(v, second).manifest.created_directories == v.manifest.created_directories
        }),
{
    let dirs = v.directories;
    let first = pass_outcomes(existing, dirs, 0);
    let disk = disk_after(existing, dirs, 0);
    let second = pass_outcomes(disk, dirs, 0);
    lemma_pass_shape(existing, dirs, 0);
    lemma_pass_shape(disk, dirs, 0);
    lemma_manifest_lists_made_directories(v, first);
    lemma_manifest_lists_made_directories(v, second);
    lemma_nothing_is_made_twice(existing, dirs, 0);
    lemma_disk_grows(existing, dirs, 0);
    lemma_nothing_is_made_of_what_is_there(disk, dirs, 0);
    assert(v.manifest.created_directories + Seq::<Seq<char>>::empty()
        =~= v.manifest.created_directories);
}

} // verus!

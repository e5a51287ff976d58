//! The project model: what an author puts into a package before it is built.

use crate::error::{LisError, LisErrorView};
use crate::metadata::ScreenView;
use crate::paths::{file_name, file_name_of, parent, parent_of};
use crate::text::{append_str, clone_opt, lemma_views_push, opt_view, slug, slugify, views};
use vstd::prelude::*;

verus! {

/// A file to be put into the package.
#[derive(Clone, Debug, PartialEq, Eq)]
pub struct ProjectFile {
    /// Absolute path of the file on the authoring machine.
    pub source: String,
    /// Where the file goes, relative to the directory it is installed in.
    pub destination: String,
    /// Unix permission bits in octal notation, such as `755`.
    pub permissions: Option<String>,
}

/// The view of `ProjectFile`: what it holds, as the contracts speak of it.
pub struct ProjectFileView {
    pub source: Seq<char>,
    pub destination: Seq<char>,
    pub permissions: Option<Seq<char>>,
}

impl View for ProjectFile {
    type V = ProjectFileView;

    open spec fn view(&self) -> ProjectFileView {
        ProjectFileView {
            source: self.source@,
            destination: self.destination@,
            permissions: opt_view(self.permissions),
        }
    }
}

/// A screen of the installer, as the author configures it. The progress
/// screen is not among them: the installer always shows it.
#[derive(Clone, Debug, PartialEq, Eq)]
pub struct InstallerScreen {
    /// One of `welcome`, `license`, `install_location`, `finish`.
    pub id: String,
    /// Whether the screen is shown.
    pub enabled: bool,
    /// Position among the screens, starting at 1.
    pub order: usize,
    /// Content of its own, such as the path of a license text.
    pub custom_content: Option<String>,
}

impl View for InstallerScreen {
    type V = ScreenView;

    open spec fn view(&self) -> ScreenView {
        ScreenView {
            id: self.id@,
            enabled: self.enabled,
            order: self.order,
            custom_content: opt_view(self.custom_content),
        }
    }
}

/// The descriptive fields of a project.
#[derive(Clone, Debug, PartialEq, Eq)]
pub struct ProjectMetadata {
    pub name: String,
    pub version: String,
    pub author: String,
    pub description: String,
    /// The name under which the application is shown.
    pub application_name: String,
    /// Directory into which the package is written.
    pub output_directory: String,
    /// Desktop entry from which the project was started, if any.
    pub desktop_file: Option<String>,
}

/// The view of `ProjectMetadata`: what it holds, as the contracts speak of it.
pub struct ProjectMetadataView {
    pub name: Seq<char>,
    pub version: Seq<char>,
    pub author: Seq<char>,
    pub description: Seq<char>,
    pub application_name: Seq<char>,
    pub output_directory: Seq<char>,
    pub desktop_file: Option<Seq<char>>,
}

impl View for ProjectMetadata {
    type V = ProjectMetadataView;

    open spec fn view(&self) -> ProjectMetadataView {
        ProjectMetadataView {
            name: self.name@,
            version: self.version@,
            author: self.author@,
            description: self.description@,
            application_name: self.application_name@,
            output_directory: self.output_directory@,
            desktop_file: opt_view(self.desktop_file),
        }
    }
}

/// A project.
#[derive(Clone, Debug, PartialEq, Eq)]
pub struct Project {
    pub metadata: ProjectMetadata,
    pub files: Vec<ProjectFile>,
    pub installer_screens: Vec<InstallerScreen>,
    /// File name of the package that is built.
    pub package_name: String,
    /// From 0 to 9.
    pub compression_level: u8,
}

/// The view of `Project`: what it holds, as the contracts speak of it.
pub struct ProjectView {
    pub metadata: ProjectMetadataView,
    pub files: Seq<ProjectFileView>,
    pub installer_screens: Seq<ScreenView>,
    pub package_name: Seq<char>,
    pub compression_level: u8,
}

impl View for Project {
    type V = ProjectView;

    open spec fn view(&self) -> ProjectView {
        ProjectView {
            metadata: self.metadata@,
            files: views(self.files@),
            installer_screens: views(self.installer_screens@),
            package_name: self.package_name@,
            compression_level: self.compression_level,
        }
    }
}

/// A screen that is shown and has no content of its own.
pub open spec fn plain_screen(id: Seq<char>, order: usize) -> ScreenView {
    ScreenView { id, enabled: true, order, custom_content: None }
}

/// The screens of a new project.
pub open spec fn default_screen_views() -> Seq<ScreenView> {
    seq![
        plain_screen("welcome"@, 1),
        plain_screen("license"@, 2),
        plain_screen("install_location"@, 3),
        plain_screen("finish"@, 4),
    ]
}

/// A new project.
pub open spec fn default_project() -> ProjectView {
    ProjectView {
        metadata: ProjectMetadataView {
            name: "MyProject"@,
            version: "1.0.0"@,
            author: Seq::empty(),
            description: Seq::empty(),
            application_name: "My Application"@,
            output_directory: "."@,
            desktop_file: None,
        },
        files: Seq::empty(),
        installer_screens: default_screen_views(),
        package_name: "package.lis"@,
        compression_level: 9,
    }
}

/// The first position at or after `from` of a screen called `id`, or the
/// number of screens when there is none.
pub open spec fn find_screen(screens: Seq<ScreenView>, id: Seq<char>, from: int) -> int
    decreases screens.len() - from,
{
    if 0 <= from < screens.len() && screens[from].id != id {
        find_screen(screens, id, from + 1)
    } else {
        from
    }
}

/// The project after the first screen called `id` is shown or hidden. The
/// progress screen is not for the author to show or hide; for it, as for a
/// name that no screen has, the project stays as it is.
pub open spec fn toggled(p: ProjectView, id: Seq<char>, enabled: bool) -> ProjectView {
    let k = find_screen(p.installer_screens, id, 0);
    if id != "progress"@ && k < p.installer_screens.len() {
        ProjectView {
            installer_screens: p.installer_screens.update(
                k,
                ScreenView { enabled, ..p.installer_screens[k] },
            ),
            ..p
        }
    } else {
        p
    }
}

/// The file entry that adding the file at `source` makes: it is installed
/// under its own name, with the permissions it gets by default.
pub open spec fn entry_for(source: Seq<char>) -> ProjectFileView {
    ProjectFileView {
        source,
        destination: match file_name_of(source) {
            Some(n) => n,
            None => Seq::empty(),
        },
        permissions: None,
    }
}

/// The project that is started from the desktop entry at `desktop_path`,
/// which lies in a directory directly under the project's root: the root
/// gives the project its name and receives the package, the entry gives the
/// application's name and description.
pub open spec fn seeded_project(
    desktop_path: Seq<char>,
    application_name: Seq<char>,
    description: Seq<char>,
) -> Option<ProjectView> {
    match parent_of(desktop_path) {
        None => None,
        Some(data_dir) => match parent_of(data_dir) {
            None => None,
            Some(root) => {
                let name = match file_name_of(root) {
                    Some(n) => n,
                    None => default_project().metadata.name,
                };
                Some(
                    ProjectView {
                        metadata: ProjectMetadataView {
                            name,
                            application_name,
                            description,
                            output_directory: root,
                            desktop_file: Some(desktop_path),
                            ..default_project().metadata
                        },
                        package_name: slug(name) + ".lis"@,
                        ..default_project()
                    },
                )
            },
        },
    }
}

fn make_screen(id: &str, order: usize) -> (r: InstallerScreen)
    ensures
        r@ == plain_screen(id@, order),
{
    InstallerScreen { id: id.to_owned(), enabled: true, order, custom_content: None }
}

impl ProjectFile {
    /// The entry for a file that the author picked.
    pub fn from_source(source: &str) -> (r: ProjectFile)
        ensures
            r@ == entry_for(source@),
    {
        let destination = match file_name(source) {
            Some(n) => n,
            None => String::new(),
        };
        ProjectFile { source: source.to_owned(), destination, permissions: None }
    }
}

impl InstallerScreen {
    /// A copy of the screen.
    pub fn duplicate(&self) -> (r: InstallerScreen)
        ensures
            r@ == self@,
    {
        InstallerScreen {
            id: self.id.clone(),
            enabled: self.enabled,
            order: self.order,
            custom_content: clone_opt(&self.custom_content),
        }
    }
}

impl Project {
    /// A project with the values that a new one starts from.
    pub fn new() -> (r: Project)
        ensures
            r@ == default_project(),
    {
        let r = Project {
            metadata: ProjectMetadata {
                name: "MyProject".to_owned(),
                version: "1.0.0".to_owned(),
                author: String::new(),
                description: String::new(),
                application_name: "My Application".to_owned(),
                output_directory: ".".to_owned(),
                desktop_file: None,
            },
            files: Vec::new(),
            installer_screens: Project::default_screens(),
            package_name: "package.lis".to_owned(),
            compression_level: 9,
        };
        assert(views(r.files@) =~= Seq::empty());
        r
    }

    /// The screens that a new project starts from.
    pub fn default_screens() -> (r: Vec<InstallerScreen>)
        ensures
            views(r@) == default_screen_views(),
    {
        let mut r: Vec<InstallerScreen> = Vec::new();
        r.push(make_screen("welcome", 1));
        r.push(make_screen("license", 2));
        r.push(make_screen("install_location", 3));
        r.push(make_screen("finish", 4));
        assert(views(r@) =~= default_screen_views());
        r
    }

    /// Starts a project from a desktop entry that was read from
    /// `desktop_path` and gave `application_name` and `description`.
    pub fn from_desktop_entry(desktop_path: &str, application_name: &str, description: &str) -> (r:
        Result<Project, LisError>)
        ensures
            match seeded_project(desktop_path@, application_name@, description@) {
                Some(p) => r matches Ok(project) && project@ == p,
                None => r matches Err(e) && e@ matches crate::error::LisErrorView::Io { path, .. }
                    && path == desktop_path@,
            },
    {
        let data_dir = match parent(desktop_path) {
            Some(d) => d,
            None => {
                return Err(
                    LisError::Io {
                        context: "Invalid File Location".to_owned(),
                        path: desktop_path.to_owned(),
                        cause: "Could not determine project structure.".to_owned(),
                    },
                );
            },
        };
        let root = match parent(data_dir.as_str()) {
            Some(d) => d,
            None => {
                return Err(
                    LisError::Io {
                        context: "Invalid File Location".to_owned(),
                        path: desktop_path.to_owned(),
                        cause: "The .desktop file must be in a 'data' folder within your project root.".to_owned(),
                    },
                );
            },
        };
        let mut project = Project::new();
        match file_name(root.as_str()) {
            Some(n) => {
                project.metadata.name = n;
            },
            None => {},
        }
        project.metadata.output_directory = root;
        project.metadata.application_name = application_name.to_owned();
        project.metadata.description = description.to_owned();
        project.metadata.desktop_file = Some(desktop_path.to_owned());
        let stem = slugify(project.metadata.name.as_str());
        project.package_name = append_str(stem.as_str(), ".lis");
        Ok(project)
    }

    /// Sets the project's name; says whether that changed it.
    pub fn set_name(&mut self, value: &str) -> (changed: bool)
        ensures
            changed == (old(self)@.metadata.name != value@),
            final(self)@ == (ProjectView {
                metadata: ProjectMetadataView { name: value@, ..old(self)@.metadata },
                ..old(self)@
            }),
    {
        if self.metadata.name.as_str().eq(value) {
            false
        } else {
            self.metadata.name = value.to_owned();
            true
        }
    }

    /// Sets the project's version; says whether that changed it.
    pub fn set_version(&mut self, value: &str) -> (changed: bool)
        ensures
            changed == (old(self)@.metadata.version != value@),
            final(self)@ == (ProjectView {
                metadata: ProjectMetadataView { version: value@, ..old(self)@.metadata },
                ..old(self)@
            }),
    {
        if self.metadata.version.as_str().eq(value) {
            false
        } else {
            self.metadata.version = value.to_owned();
            true
        }
    }

    /// Sets the author; says whether that changed the project.
    pub fn set_author(&mut self, value: &str) -> (changed: bool)
        ensures
            changed == (old(self)@.metadata.author != value@),
            final(self)@ == (ProjectView {
                metadata: ProjectMetadataView { author: value@, ..old(self)@.metadata },
                ..old(self)@
            }),
    {
        if self.metadata.author.as_str().eq(value) {
            false
        } else {
            self.metadata.author = value.to_owned();
            true
        }
    }

    /// Sets the description; says whether that changed the project.
    pub fn set_description(&mut self, value: &str) -> (changed: bool)
        ensures
            changed == (old(self)@.metadata.description != value@),
            final(self)@ == (ProjectView {
                metadata: ProjectMetadataView { description: value@, ..old(self)@.metadata },
                ..old(self)@
            }),
    {
        if self.metadata.description.as_str().eq(value) {
            false
        } else {
            self.metadata.description = value.to_owned();
            true
        }
    }

    /// Sets the name under which the application is shown; says whether
    /// that changed the project.
    pub fn set_application_name(&mut self, value: &str) -> (changed: bool)
        ensures
            changed == (old(self)@.metadata.application_name != value@),
            final(self)@ == (ProjectView {
                metadata: ProjectMetadataView { application_name: value@, ..old(self)@.metadata },
                ..old(self)@
            }),
    {
        if self.metadata.application_name.as_str().eq(value) {
            false
        } else {
            self.metadata.application_name = value.to_owned();
            true
        }
    }

    /// Sets the directory into which the package is written; says whether
    /// that changed the project.
    pub fn set_output_directory(&mut self, value: &str) -> (changed: bool)
        ensures
            changed == (old(self)@.metadata.output_directory != value@),
            final(self)@ == (ProjectView {
                metadata: ProjectMetadataView { output_directory: value@, ..old(self)@.metadata },
                ..old(self)@
            }),
    {
        if self.metadata.output_directory.as_str().eq(value) {
            false
        } else {
            self.metadata.output_directory = value.to_owned();
            true
        }
    }

    /// Sets the file name of the package; says whether that changed the
    /// project.
    pub fn set_package_name(&mut self, value: &str) -> (changed: bool)
        ensures
            changed == (old(self)@.package_name != value@),
            final(self)@ == (ProjectView { package_name: value@, ..old(self)@ }),
    {
        if self.package_name.as_str().eq(value) {
            false
        } else {
            self.package_name = value.to_owned();
            true
        }
    }

    /// Sets the compression level, which goes from 0 to 9; a level beyond
    /// that is not taken. Says whether the project changed.
    pub fn set_compression_level(&mut self, level: u8) -> (changed: bool)
        ensures
            changed == (level <= 9 && old(self)@.compression_level != level),
            final(self)@ == if level <= 9 {
                ProjectView { compression_level: level, ..old(self)@ }
            } else {
                old(self)@
            },
    {
        if level > 9 || self.compression_level == level {
            false
        } else {
            self.compression_level = level;
            true
        }
    }

    /// Adds a file behind those that are there; the project always changes.
    pub fn add_file(&mut self, file: ProjectFile) -> (changed: bool)
        ensures
            changed,
            final(self)@ == (ProjectView { files: old(self)@.files.push(file@), ..old(self)@ }),
    {
        proof {
            lemma_views_push(self.files@, file);
        }
        self.files.push(file);
        true
    }

    /// Removes the file at `index`, if there is one; says whether the
    /// project changed.
    pub fn remove_file(&mut self, index: usize) -> (changed: bool)
        ensures
            changed == (index < old(self)@.files.len()),
            final(self)@ == if index < old(self)@.files.len() {
                ProjectView { files: old(self)@.files.remove(index as int), ..old(self)@ }
            } else {
                old(self)@
            },
    {
        if index < self.files.len() {
            let _ = self.files.remove(index);
            assert(views(self.files@) =~= views(old(self).files@).remove(index as int));
            true
        } else {
            false
        }
    }

    /// Shows or hides the first screen called `id`. The progress screen
    /// cannot be hidden or shown: for it, as for a name that no screen has,
    /// nothing happens. Says whether the project changed.
    pub fn toggle_screen(&mut self, id: &str, enabled: bool) -> (changed: bool)
        ensures
            final(self)@ == toggled(old(self)@, id@, enabled),
            changed == (final(self)@ != old(self)@),
    {
        if id.eq("progress") {
            return false;
        }
        let mut k: usize = 0;
        while k < self.installer_screens.len() && !self.installer_screens[k].id.as_str().eq(id)
            invariant
                k <= self.installer_screens.len(),
                *self == *old(self),
                find_screen(self@.installer_screens, id@, 0) == find_screen(
                    self@.installer_screens,
                    id@,
                    k as int,
                ),
            decreases self.installer_screens.len() - k,
        {
            k = k + 1;
        }
        if k == self.installer_screens.len() || self.installer_screens[k].enabled == enabled {
            proof {
                let before = self@.installer_screens;
                if k < before.len() {
                    assert(before.update(k as int, ScreenView { enabled, ..before[k as int] })
                        =~= before);
                }
            }
            return false;
        }
        let mut screen = self.installer_screens[k].duplicate();
        screen.enabled = enabled;
        self.installer_screens.set(k, screen);
        proof {
            let before = old(self)@.installer_screens;
            let after = before.update(k as int, ScreenView { enabled, ..before[k as int] });
            assert(views(self.installer_screens@) =~= after);
            assert(after[k as int].enabled != before[k as int].enabled);
        }
        true
    }
}

impl Default for Project {
    fn default() -> (r: Project)
        ensures
            r@ == default_project(),
    {
        Project::new()
    }
}

/// A stage of saving a project to a file or loading it from one.
#[derive(Clone, Copy, Debug, PartialEq, Eq, Structural)]
pub enum FileStage {
    /// Putting the project into text.
    Serialize,
    /// Writing the text to the file.
    Write,
    /// Reading the text of the file.
    Read,
    /// Making a project of the text.
    Deserialize,
}

/// What is reported when saving a project to `path`, or loading it from
/// there, fails at `stage` for the reason `cause`.
pub open spec fn file_failure(stage: FileStage, path: Seq<char>, cause: Seq<char>) -> LisErrorView {
    match stage {
        FileStage::Serialize => LisErrorView::Format {
            detail: "Failed to serialize project: "@ + cause,
        },
        FileStage::Write => LisErrorView::Io {
            context: "Failed to write project file"@,
            path,
            cause,
        },
        FileStage::Read => LisErrorView::Io { context: "Failed to read project file"@, path, cause },
        FileStage::Deserialize => LisErrorView::Format {
            detail: "Failed to deserialize project: "@ + cause,
        },
    }
}

/// The error for a failure at one stage of saving or loading a project.
pub fn file_error(stage: FileStage, path: &str, cause: &str) -> (r: LisError)
    ensures
        r@ == file_failure(stage, path@, cause@),
{
    match stage {
        FileStage::Serialize => LisError::Format {
            detail: append_str("Failed to serialize project: ", cause),
        },
        FileStage::Write => LisError::Io {
            context: "Failed to write project file".to_owned(),
            path: path.to_owned(),
            cause: cause.to_owned(),
        },
        FileStage::Read => LisError::Io {
            context: "Failed to read project file".to_owned(),
            path: path.to_owned(),
            cause: cause.to_owned(),
        },
        FileStage::Deserialize => LisError::Format {
            detail: append_str("Failed to deserialize project: ", cause),
        },
    }
}

} // verus!

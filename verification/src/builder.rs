//! The authoring session and the steps by which a package is built from a
//! project.




use crate::project::{Project, ProjectFile, ProjectMetadataView, ProjectView, entry_for, toggled};
use crate::text::{append_str, opt_view};
use vstd::prelude::*;

verus! {

/// What an authoring session holds: the one project that is being worked
/// on, the file it was last saved to or opened from, and whether it has
/// changed since.
#[derive(Clone, Debug, PartialEq, Eq)]
pub struct AppState {
    pub project: Project,
    pub current_path: Option<String>,
    pub is_modified: bool,
}

/// The view of `AppState`: what it holds, as the contracts speak of it.
pub struct AppStateView {
    pub project: ProjectView,
    pub current_path: Option<Seq<char>>,
    pub is_modified: bool,
}

impl View for AppState {
    type V = AppStateView;

    open spec fn view(&self) -> AppStateView {
        AppStateView {
            project: self.project@,
            current_path: opt_view(self.current_path),
            is_modified: self.is_modified,
        }
    }
}

/// A change that the author makes to the project.
#[derive(Clone, Debug, PartialEq, Eq)]
pub enum Edit {
    Name(String),
    Version(String),
    Author(String),
    PackageName(String),
    ApplicationName(String),
    Description(String),
    OutputDirectory(String),
    CompressionLevel(u8),
    /// Adds the file at this path.
    AddFile(String),
    /// Removes the file at this position.
    RemoveFile(usize),
    /// Shows or hides the screen of this name.
    ToggleScreen(String, bool),
}

/// The view of `Edit`: what it holds, as the contracts speak of it.
pub enum EditView {
    Name(Seq<char>),
    Version(Seq<char>),
    Author(Seq<char>),
    PackageName(Seq<char>),
    ApplicationName(Seq<char>),
    Description(Seq<char>),
    OutputDirectory(Seq<char>),
    CompressionLevel(u8),
    AddFile(Seq<char>),
    RemoveFile(usize),
    ToggleScreen(Seq<char>, bool),
}

impl View for Edit {
    type V = EditView;

    open spec fn view(&self) -> EditView {
        match self {
            Edit::Name(v) => EditView::Name(v@),
            Edit::Version(v) => EditView::Version(v@),
            Edit::Author(v) => EditView::Author(v@),
            Edit::PackageName(v) => EditView::PackageName(v@),
            Edit::ApplicationName(v) => EditView::ApplicationName(v@),
            Edit::Description(v) => EditView::Description(v@),
            Edit::OutputDirectory(v) => EditView::OutputDirectory(v@),
            Edit::CompressionLevel(n) => EditView::CompressionLevel(*n),
            Edit::AddFile(p) => EditView::AddFile(p@),
            Edit::RemoveFile(i) => EditView::RemoveFile(*i),
            Edit::ToggleScreen(id, enabled) => EditView::ToggleScreen(id@, *enabled),
        }
    }
}

/// The project after an edit.
pub open spec fn edited(p: ProjectView, e: EditView) -> ProjectView {
    match e {
        EditView::Name(v) => ProjectView {
            metadata: ProjectMetadataView { name: v, ..p.metadata },
            ..p
        },
        EditView::Version(v) => ProjectView {
            metadata: ProjectMetadataView { version: v, ..p.metadata },
            ..p
        },
        EditView::Author(v) => ProjectView {
            metadata: ProjectMetadataView { author: v, ..p.metadata },
            ..p
        },
        EditView::PackageName(v) => ProjectView { package_name: v, ..p },
        EditView::ApplicationName(v) => ProjectView {
            metadata: ProjectMetadataView { application_name: v, ..p.metadata },
            ..p
        },
        EditView::Description(v) => ProjectView {
            metadata: ProjectMetadataView { description: v, ..p.metadata },
            ..p
        },
        EditView::OutputDirectory(v) => ProjectView {
            metadata: ProjectMetadataView { output_directory: v, ..p.metadata },
            ..p
        },
        EditView::CompressionLevel(n) => if n <= 9 {
            ProjectView { compression_level: n, ..p }
        } else {
            p
        },
        EditView::AddFile(path) => ProjectView { files: p.files.push(entry_for(path)), ..p },
        EditView::RemoveFile(i) => if i < p.files.len() {
            ProjectView { files: p.files.remove(i as int), ..p }
        } else {
            p
        },
        EditView::ToggleScreen(id, enabled) => toggled(p, id, enabled),
    }
}

/// A session that starts with a new project.
pub open spec fn fresh_session() -> AppStateView {
    AppStateView {
        project: crate::project::default_project(),
        current_path: None,
        is_modified: false,
    }
}

/// The title of the session's window: the file of the project, or a
/// placeholder for a project that has none yet, with a star behind it while
/// there are changes to save.
pub open spec fn title_of(s: AppStateView) -> Seq<char> {
    let name = match s.current_path {
        Some(path) => path,
        None => "untitled.lisproj"@,
    };
    if s.is_modified {
        name + "*"@
    } else {
        name
    }
}

/// What the author answers when asked about changes that are not saved.
#[derive(Clone, Copy, Debug, PartialEq, Eq, Structural)]
pub enum UnsavedChoice {
    Cancel,
    Discard,
    Save,
}

/// What follows the author's answer.
#[derive(Clone, Copy, Debug, PartialEq, Eq, Structural)]
pub enum NextStep {
    /// Nothing: what was about to happen does not happen.
    Stay,
    /// What was about to happen happens.
    Proceed,
    /// The project is saved to the file it has, then what was about to
    /// happen happens.
    SaveToCurrentPath,
    /// The author is asked for a file, the project is saved to it, then
    /// what was about to happen happens.
    AskForPath,
}

/// What follows an answer in a session.
pub open spec fn step_after(s: AppStateView, choice: UnsavedChoice) -> NextStep {
    match choice {
        UnsavedChoice::Cancel => NextStep::Stay,
        UnsavedChoice::Discard => NextStep::Proceed,
        UnsavedChoice::Save => if s.current_path is Some {
            NextStep::SaveToCurrentPath
        } else {
            NextStep::AskForPath
        },
    }
}

impl AppState {
    /// A session that starts with a new project.
    pub fn new() -> (r: AppState)
        ensures
            r@ == fresh_session(),
    {
        AppState { project: Project::new(), current_path: None, is_modified: false }
    }

    /// Notes that the project has changed. Says whether that is news: only
    /// then do the title and the save action have to be brought up to date.
    pub fn mark_modified(&mut self) -> (news: bool)
        ensures
            news == !old(self)@.is_modified,
            final(self)@ == (AppStateView { is_modified: true, ..old(self)@ }),
    {
        if self.is_modified {
            false
        } else {
            self.is_modified = true;
            true
        }
    }

    /// Makes an edit. The session counts as modified afterwards if it did
    /// before or if the edit changed the project; an edit that leaves every
    /// value as it was does not make it so. Says whether the project
    /// changed.
    pub fn apply(&mut self, edit: Edit) -> (changed: bool)
        ensures
            final(self)@ == (AppStateView {
                project: edited(old(self)@.project, edit@),
                is_modified: old(self)@.is_modified || changed,
                ..old(self)@
            }),
            changed == (final(self)@.project != old(self)@.project),
    {
        let ghost before = self.project@;
        let changed = match edit {
            Edit::Name(v) => self.project.set_name(v.as_str()),
            Edit::Version(v) => self.project.set_version(v.as_str()),
            Edit::Author(v) => self.project.set_author(v.as_str()),
            Edit::PackageName(v) => self.project.set_package_name(v.as_str()),
            Edit::ApplicationName(v) => self.project.set_application_name(v.as_str()),
            Edit::Description(v) => self.project.set_description(v.as_str()),
            Edit::OutputDirectory(v) => self.project.set_output_directory(v.as_str()),
            Edit::CompressionLevel(n) => self.project.set_compression_level(n),
            Edit::AddFile(path) => {
                let file = ProjectFile::from_source(path.as_str());
                let r = self.project.add_file(file);
                assert(self.project@.files.len() != before.files.len());
                r
            },
            Edit::RemoveFile(i) => {
                let r = self.project.remove_file(i);
                assert(r ==> self.project@.files.len() != before.files.len());
                r
            },
            Edit::ToggleScreen(id, enabled) => self.project.toggle_screen(id.as_str(), enabled),
        };
        if changed {
            self.is_modified = true;
        }
        changed
    }

    /// The title of the session's window.
    pub fn title(&self) -> (r: String)
        ensures
            r@ == title_of(self@),
    {
        let name = match &self.current_path {
            Some(path) => path.clone(),
            None => "untitled.lisproj".to_owned(),
        };
        if self.is_modified {
            append_str(name.as_str(), "*")
        } else {
            name
        }
    }

    /// Whether there is anything to save.
    pub fn can_save(&self) -> (r: bool)
        ensures
            r == self@.is_modified,
    {
        self.is_modified
    }

    /// Whether the author has to be asked before the project is closed or
    /// replaced.
    pub fn must_ask(&self) -> (r: bool)
        ensures
            r == self@.is_modified,
    {
        self.is_modified
    }

    /// Takes the author's answer about changes that are not saved. To
    /// discard them is to call the project unchanged.
    pub fn resolve_unsaved(&mut self, choice: UnsavedChoice) -> (next: NextStep)
        ensures
            next == step_after(old(self)@, choice),
            final(self)@ == if choice == UnsavedChoice::Discard {
                AppStateView { is_modified: false, ..old(self)@ }
            } else {
                old(self)@
            },
    {
        match choice {
            UnsavedChoice::Cancel => NextStep::Stay,
            UnsavedChoice::Discard => {
                self.is_modified = false;
                NextStep::Proceed
            },
            UnsavedChoice::Save => {
                if self.current_path.is_some() {
                    NextStep::SaveToCurrentPath
                } else {
                    NextStep::AskForPath
                }
            },
        }
    }

    /// Notes that the project was saved to `path`.
    pub fn saved(&mut self, path: &str)
        ensures
            final(self)@ == (AppStateView {
                current_path: Some(path@),
                is_modified: false,
                ..old(self)@
            }),
    {
        self.current_path = Some(path.to_owned());
        self.is_modified = false;
    }

    /// Replaces the project by another: a new one, which has no file yet,
    /// or one that was opened from `path`.
    pub fn replace_project(&mut self, project: Project, path: Option<String>)
        ensures
            final(self)@ == (AppStateView {
                project: project@,
                current_path: opt_view(path),
                is_modified: false,
            }),
    {
        self.project = project;
        self.current_path = path;
        self.is_modified = false;
    }
}

} // verus!

//! The metadata document that travels inside a package.

use crate::text::{clone_opt, opt_view, views};
use vstd::prelude::*;

verus! {

/// What a package is and who made it.
#[derive(Clone, Debug, PartialEq, Eq)]
pub struct PackageInfo {
    pub name: String,
    pub version: String,
    pub app_id: String,
    pub description: String,
    pub author: String,
    pub application_name: String,
    pub package_name: String,
    pub compression_level: u8,
}

/// The view of `PackageInfo`: what it holds, as the contracts speak of it.
pub struct PackageInfoView {
    pub name: Seq<char>,
    pub version: Seq<char>,
    pub app_id: Seq<char>,
    pub description: Seq<char>,
    pub author: Seq<char>,
    pub application_name: Seq<char>,
    pub package_name: Seq<char>,
    pub compression_level: u8,
}

impl View for PackageInfo {
    type V = PackageInfoView;

    open spec fn view(&self) -> PackageInfoView {
        PackageInfoView {
            name: self.name@,
            version: self.version@,
            app_id: self.app_id@,
            description: self.description@,
            author: self.author@,
            application_name: self.application_name@,
            package_name: self.package_name@,
            compression_level: self.compression_level,
        }
    }
}

/// The two prefixes under which a package can be installed.
#[derive(Clone, Debug, PartialEq, Eq)]
pub struct InstallationInfo {
    /// Prefix of an installation for all users, such as `/usr/local`.
    pub prefix_system: String,
    /// Prefix of an installation for one user, such as `~/.local`.
    pub prefix_user: String,
}

/// The view of `InstallationInfo`: what it holds, as the contracts speak of it.
pub struct InstallationInfoView {
    pub prefix_system: Seq<char>,
    pub prefix_user: Seq<char>,
}

impl View for InstallationInfo {
    type V = InstallationInfoView;

    open spec fn view(&self) -> InstallationInfoView {
        InstallationInfoView { prefix_system: self.prefix_system@, prefix_user: self.prefix_user@ }
    }
}

/// The fields from which a desktop entry is generated.
#[derive(Clone, Debug, PartialEq, Eq)]
pub struct DesktopInfo {
    pub name: String,
    /// The command line that starts the application.
    pub executable: String,
    pub icon: String,
    pub categories: Vec<String>,
}

/// The view of `DesktopInfo`: what it holds, as the contracts speak of it.
pub struct DesktopInfoView {
    pub name: Seq<char>,
    pub executable: Seq<char>,
    pub icon: Seq<char>,
    pub categories: Seq<Seq<char>>,
}

impl View for DesktopInfo {
    type V = DesktopInfoView;

    open spec fn view(&self) -> DesktopInfoView {
        DesktopInfoView {
            name: self.name@,
            executable: self.executable@,
            icon: self.icon@,
            categories: views(self.categories@),
        }
    }
}

/// The libraries that a package brings along, by name.
#[derive(Clone, Debug, PartialEq, Eq)]
pub struct DependenciesInfo {
    pub bundled: Vec<String>,
}

/// The view of `DependenciesInfo`: what it holds, as the contracts speak of it.
pub struct DependenciesInfoView {
    pub bundled: Seq<Seq<char>>,
}

impl View for DependenciesInfo {
    type V = DependenciesInfoView;

    open spec fn view(&self) -> DependenciesInfoView {
        DependenciesInfoView { bundled: views(self.bundled@) }
    }
}

/// A file to be installed.
#[derive(Clone, Debug, PartialEq, Eq)]
pub struct FileEntry {
    /// Where the file lies in the package, relative to `application/`.
    pub source: String,
    /// Where the file goes, relative to the directory it is installed in.
    pub destination: String,
    /// Unix permission bits in octal notation, such as `755`.
    pub permissions: Option<String>,
}

/// The view of `FileEntry`: what it holds, as the contracts speak of it.
pub struct FileEntryView {
    pub source: Seq<char>,
    pub destination: Seq<char>,
    pub permissions: Option<Seq<char>>,
}

impl View for FileEntry {
    type V = FileEntryView;

    open spec fn view(&self) -> FileEntryView {
        FileEntryView {
            source: self.source@,
            destination: self.destination@,
            permissions: opt_view(self.permissions),
        }
    }
}

/// A screen of the installer.
#[derive(Clone, Debug, PartialEq, Eq)]
pub struct InstallerScreen {
    /// One of `welcome`, `license`, `install_location`, `progress`, `finish`.
    pub id: String,
    /// Whether the screen is shown.
    pub enabled: bool,
    /// Position among the screens, starting at 1.
    pub order: usize,
    /// Content of its own, such as the path of a license text.
    pub custom_content: Option<String>,
}

/// The view of `InstallerScreen`: what it holds, as the contracts speak of it.
pub struct ScreenView {
    pub id: Seq<char>,
    pub enabled: bool,
    pub order: usize,
    pub custom_content: Option<Seq<char>>,
}

impl View for InstallerScreen {
    type V = ScreenView;

    open spec fn view(&self) -> ScreenView {
        ScreenView {
            id: self.id@,
            enabled: self.enabled,
            order: self.order,
            custom_content: opt_view(self.custom_content),
        }
    }
}

/// The whole metadata document.
#[derive(Clone, Debug, PartialEq, Eq)]
pub struct Metadata {
    pub package: PackageInfo,
    pub installation: InstallationInfo,
    pub desktop: DesktopInfo,
    pub dependencies: DependenciesInfo,
    pub files: Vec<FileEntry>,
    pub installer_screens: Vec<InstallerScreen>,
}

/// The view of `Metadata`: what it holds, as the contracts speak of it.
pub struct MetadataView {
    pub package: PackageInfoView,
    pub installation: InstallationInfoView,
    pub desktop: DesktopInfoView,
    pub dependencies: DependenciesInfoView,
    pub files: Seq<FileEntryView>,
    pub installer_screens: Seq<ScreenView>,
}

impl View for Metadata {
    type V = MetadataView;

    open spec fn view(&self) -> MetadataView {
        MetadataView {
            package: self.package@,
            installation: self.installation@,
            desktop: self.desktop@,
            dependencies: self.dependencies@,
            files: views(self.files@),
            installer_screens: views(self.installer_screens@),
        }
    }
}

/// Whether `id` belongs to the vocabulary of screen identifiers.
pub open spec fn known_screen(id: Seq<char>) -> bool {
    ||| id == "welcome"@
    ||| id == "license"@
    ||| id == "install_location"@
    ||| id == "progress"@
    ||| id == "finish"@
}

/// Whether `id` belongs to the vocabulary of screen identifiers.
pub fn is_known_screen(id: &str) -> (r: bool)
    ensures
        r == known_screen(id@),
{
    id.eq("welcome") || id.eq("license") || id.eq("install_location") || id.eq("progress")
        || id.eq("finish")
}

impl MetadataView {
    /// The constraints that every metadata document meets: a compression
    /// level from 0 to 9, and screens from the vocabulary only.
    pub open spec fn well_formed(self) -> bool {
        &&& self.package.compression_level <= 9
        &&& forall|i: int|
            0 <= i < self.installer_screens.len() ==> known_screen(
                #[trigger] self.installer_screens[i].id,
            )
    }

    /// What a document must hold besides before a package is built from it.
    pub open spec fn ready_for_build(self) -> bool {
        &&& self.package.app_id.len() > 0
        &&& self.package.name.len() > 0
        &&& self.package.version.len() > 0
    }
}

impl InstallerScreen {
    /// A copy of the screen.
    pub fn duplicate(&self) -> (r: InstallerScreen)
        ensures
            r@ == self@,
    {
        InstallerScreen {
            id: self.id.clone(),
            enabled: self.enabled,
            order: self.order,
            custom_content: clone_opt(&self.custom_content),
        }
    }
}

impl Metadata {
    /// Whether the document meets the constraints on its fields.
    pub fn is_well_formed(&self) -> (r: bool)
        ensures
            r == self@.well_formed(),
    {
        if self.package.compression_level > 9 {
            return false;
        }
        let mut i: usize = 0;
        while i < self.installer_screens.len()
            invariant
                i <= self.installer_screens.len(),
                forall|k: int|
                    0 <= k < i ==> known_screen(#[trigger] self@.installer_screens[k].id),
            decreases self.installer_screens.len() - i,
        {
            if !is_known_screen(self.installer_screens[i].id.as_str()) {
                assert(!known_screen(self@.installer_screens[i as int].id));
                return false;
            }
            i = i + 1;
        }
        true
    }

    /// Whether a package can be built from the document.
    pub fn is_ready_for_build(&self) -> (r: bool)
        ensures
            r == self@.ready_for_build(),
    {
        !self.package.app_id.as_str().is_empty() && !self.package.name.as_str().is_empty()
            && !self.package.version.as_str().is_empty()
    }
}

} // verus!

//! Building a package from a project: the check of the required fields,
//! the metadata document that goes into the package, the places on disk
//! that a build uses, and the order of its steps.

use crate::error::{LisError, LisErrorView, RequiredField};
use crate::metadata::{
    DependenciesInfo, DependenciesInfoView, DesktopInfo, DesktopInfoView, FileEntry, FileEntryView,
    InstallationInfo, InstallationInfoView, InstallerScreen, Metadata, MetadataView, PackageInfo,
    PackageInfoView,
};
use crate::metadata_document::{
    decoded_metadata, encodable, encoded_metadata, lemma_metadata_round_trip,
};
use crate::paths::{file_name, file_name_of, join, joined, lemma_join_is_nested};
use crate::project::{Project, ProjectFile, ProjectFileView, ProjectView};
use crate::text::{
    append_str, blank, clone_opt, decimal, decimal_string, is_blank, lemma_views_push, opt_view,
    slug, slugify, views,
};
use vstd::prelude::*;

verus! {

/// The text that a project holds in a required field.
pub open spec fn field_text(p: ProjectView, f: RequiredField) -> Seq<char> {
    match f {
        RequiredField::Name => p.metadata.name,
        RequiredField::ApplicationName => p.metadata.application_name,
        RequiredField::Version => p.metadata.version,
        RequiredField::Author => p.metadata.author,
        RequiredField::Description => p.metadata.description,
        RequiredField::PackageName => p.package_name,
    }
}

/// A required field is missing when it holds nothing but white space.
pub open spec fn is_missing(p: ProjectView, f: RequiredField) -> bool {
    blank(field_text(p, f))
}

/// The field itself if the project lacks it, nothing otherwise.
pub open spec fn if_missing(p: ProjectView, f: RequiredField) -> Seq<RequiredField> {
    if is_missing(p, f) {
        seq![f]
    } else {
        Seq::empty()
    }
}

/// The required fields that a project lacks, in the order in which the
/// fields are shown.
pub open spec fn missing_fields(p: ProjectView) -> Seq<RequiredField> {
    if_missing(p, RequiredField::Name) + if_missing(p, RequiredField::ApplicationName)
        + if_missing(p, RequiredField::Version) + if_missing(p, RequiredField::Author)
        + if_missing(p, RequiredField::Description) + if_missing(p, RequiredField::PackageName)
}

/// The check of the required fields names each field that is missing, once,
/// and no other: however many are missing, the report is complete.
pub proof fn lemma_validation_is_complete(p: ProjectView)
    ensures
        forall|f: RequiredField| missing_fields(p).contains(f) <==> is_missing(p, f),
        missing_fields(p).no_duplicates(),
{
    let a = if_missing(p, RequiredField::Name);
    let b = if_missing(p, RequiredField::ApplicationName);
    let c = if_missing(p, RequiredField::Version);
    let d = if_missing(p, RequiredField::Author);
    let e = if_missing(p, RequiredField::Description);
    let g = if_missing(p, RequiredField::PackageName);
    let all = missing_fields(p);
    assert(all == a + b + c + d + e + g);
    // Position of each field in the report, counted from the fields before it.
    let ia = 0int;
    let ib = a.len() as int;
    let ic = ib + b.len();
    let id = ic + c.len();
    let ie = id + d.len();
    let ig = ie + e.len();
    assert(all.len() == ig + g.len());
    assert forall|i: int| 0 <= i < all.len() implies (#[trigger] all[i] == (if i < ib {
        RequiredField::Name
    } else if i < ic {
        RequiredField::ApplicationName
    } else if i < id {
        RequiredField::Version
    } else if i < ie {
        RequiredField::Author
    } else if i < ig {
        RequiredField::Description
    } else {
        RequiredField::PackageName
    })) by {
        if i < ib {
            assert(all[i] == a[i]);
        } else if i < ic {
            assert(all[i] == b[i - ib]);
        } else if i < id {
            assert(all[i] == c[i - ic]);
        } else if i < ie {
            assert(all[i] == d[i - id]);
        } else if i < ig {
            assert(all[i] == e[i - ie]);
        } else {
            assert(all[i] == g[i - ig]);
        }
    }
    assert forall|f: RequiredField| is_missing(p, f) implies missing_fields(p).contains(f) by {
        match f {
            RequiredField::Name => {
                assert(all[ia] == f);
            },
            RequiredField::ApplicationName => {
                assert(all[ib] == f);
            },
            RequiredField::Version => {
                assert(all[ic] == f);
            },
            RequiredField::Author => {
                assert(all[id] == f);
            },
            RequiredField::Description => {
                assert(all[ie] == f);
            },
            RequiredField::PackageName => {
                assert(all[ig] == f);
            },
        }
    }
    assert forall|f: RequiredField| missing_fields(p).contains(f) implies is_missing(p, f) by {
        let i = choose|i: int| 0 <= i < all.len() && all[i] == f;
        assert(all[i] == f);
    }
}

/// The number of missing fields is the length of the report.
pub proof fn lemma_validation_counts(p: ProjectView)
    ensures
        missing_fields(p).len() == if_missing(p, RequiredField::Name).len() + if_missing(
            p,
            RequiredField::ApplicationName,
        ).len() + if_missing(p, RequiredField::Version).len() + if_missing(
            p,
            RequiredField::Author,
        ).len() + if_missing(p, RequiredField::Description).len() + if_missing(
            p,
            RequiredField::PackageName,
        ).len(),
        missing_fields(p).len() <= 6,
{
}

/// The required fields that a project lacks.
pub fn missing_required_fields(project: &Project) -> (r: Vec<RequiredField>)
    ensures
        r@ == missing_fields(project@),
{
    let mut r: Vec<RequiredField> = Vec::new();
    if is_blank(project.metadata.name.as_str()) {
        r.push(RequiredField::Name);
    }
    assert(r@ == if_missing(project@, RequiredField::Name));
    if is_blank(project.metadata.application_name.as_str()) {
        r.push(RequiredField::ApplicationName);
    }
    assert(r@ == if_missing(project@, RequiredField::Name) + if_missing(
        project@,
        RequiredField::ApplicationName,
    ));
    if is_blank(project.metadata.version.as_str()) {
        r.push(RequiredField::Version);
    }
    assert(r@ == if_missing(project@, RequiredField::Name) + if_missing(
        project@,
        RequiredField::ApplicationName,
    ) + if_missing(project@, RequiredField::Version));
    if is_blank(project.metadata.author.as_str()) {
        r.push(RequiredField::Author);
    }
    assert(r@ == if_missing(project@, RequiredField::Name) + if_missing(
        project@,
        RequiredField::ApplicationName,
    ) + if_missing(project@, RequiredField::Version) + if_missing(
        project@,
        RequiredField::Author,
    ));
    if is_blank(project.metadata.description.as_str()) {
        r.push(RequiredField::Description);
    }
    assert(r@ == if_missing(project@, RequiredField::Name) + if_missing(
        project@,
        RequiredField::ApplicationName,
    ) + if_missing(project@, RequiredField::Version) + if_missing(
        project@,
        RequiredField::Author,
    ) + if_missing(project@, RequiredField::Description));
    if is_blank(project.package_name.as_str()) {
        r.push(RequiredField::PackageName);
    }
    assert(r@ == missing_fields(project@));
    r
}

/// Checks that a project has what a build needs: it passes if no required
/// field is missing, and reports all the missing ones together otherwise.
pub fn validate(project: &Project) -> (r: Result<(), LisError>)
    ensures
        missing_fields(project@).len() == 0 ==> r is Ok,
        missing_fields(project@).len() > 0 ==> (r matches Err(e) && e@
            == LisErrorView::Validation { missing: missing_fields(project@) }),
{
    let missing = missing_required_fields(project);
    if missing.len() == 0 {
        Ok(())
    } else {
        Err(LisError::Validation { missing })
    }
}

/// The entry of the metadata document for a file of the project. Inside
/// the package the file lies where it is going to be installed, so its
/// source there is its destination.
pub open spec fn packaged_file(f: ProjectFileView) -> FileEntryView {
    FileEntryView { source: f.destination, destination: f.destination, permissions: f.permissions }
}

/// The metadata document of the package that is built from a project.
pub open spec fn package_metadata(p: ProjectView) -> MetadataView {
    MetadataView {
        package: PackageInfoView {
            name: p.metadata.name,
            version: p.metadata.version,
            app_id: "com.example."@ + slug(p.metadata.name),
            description: p.metadata.description,
            author: p.metadata.author,
            application_name: p.metadata.application_name,
            package_name: p.package_name,
            compression_level: p.compression_level,
        },
        installation: InstallationInfoView {
            prefix_system: "/usr/local"@,
            prefix_user: "~/.local"@,
        },
        desktop: DesktopInfoView {
            name: p.metadata.application_name,
            executable: slug(p.metadata.name),
            icon: Seq::empty(),
            categories: seq!["Utility"@],
        },
        dependencies: DependenciesInfoView { bundled: Seq::empty() },
        files: Seq::new(p.files.len(), |i: int| packaged_file(p.files[i])),
        installer_screens: p.installer_screens,
    }
}

/// The metadata document lists every file of the project, in the project's
/// order and under the project's destinations, whether or not the file
/// could be copied into the package.
pub proof fn lemma_metadata_lists_every_file(p: ProjectView)
    ensures
        package_metadata(p).files.len() == p.files.len(),
        forall|i: int|
            0 <= i < p.files.len() ==> {
                &&& (#[trigger] package_metadata(p).files[i]).destination == p.files[i].destination
                &&& package_metadata(p).files[i].source == p.files[i].destination
                &&& package_metadata(p).files[i].permissions == p.files[i].permissions
            },
{
}

fn packaged_files(files: &Vec<ProjectFile>) -> (r: Vec<FileEntry>)
    ensures
        views(r@) == Seq::new(views(files@).len(), |i: int| packaged_file(views(files@)[i])),
{
    let ghost want = Seq::new(views(files@).len(), |i: int| packaged_file(views(files@)[i]));
    let mut r: Vec<FileEntry> = Vec::new();
    let mut i: usize = 0;
    assert(views(r@) =~= want.take(0));
    while i < files.len()
        invariant
            i <= files.len(),
            want == Seq::new(views(files@).len(), |k: int| packaged_file(views(files@)[k])),
            views(r@) == want.take(i as int),
        decreases files.len() - i,
    {
        let f = &files[i];
        let entry = FileEntry {
            source: f.destination.clone(),
            destination: f.destination.clone(),
            permissions: clone_opt(&f.permissions),
        };
        proof {
            lemma_views_push(r@, entry);
            assert(entry@ == packaged_file(views(files@)[i as int]));
            assert(want.take(i + 1) =~= want.take(i as int).push(want[i as int]));
        }
        r.push(entry);
        i = i + 1;
    }
    assert(want.take(want.len() as int) == want);
    r
}

fn packaged_screens(screens: &Vec<crate::project::InstallerScreen>) -> (r: Vec<InstallerScreen>)
    ensures
        views(r@) == views(screens@),
{
    let mut r: Vec<InstallerScreen> = Vec::new();
    let mut i: usize = 0;
    assert(views(r@) =~= views(screens@).take(0));
    while i < screens.len()
        invariant
            i <= screens.len(),
            views(r@) == views(screens@).take(i as int),
        decreases screens.len() - i,
    {
        let s = &screens[i];
        let screen = InstallerScreen {
            id: s.id.clone(),
            enabled: s.enabled,
            order: s.order,
            custom_content: clone_opt(&s.custom_content),
        };
        proof {
            lemma_views_push(r@, screen);
            assert(views(screens@).take(i + 1) =~= views(screens@).take(i as int).push(
                views(screens@)[i as int],
            ));
        }
        r.push(screen);
        i = i + 1;
    }
    assert(views(screens@).take(views(screens@).len() as int) == views(screens@));
    r
}

/// The metadata document of the package that is built from `project`,
/// given the identifier form of the project's name.
pub fn metadata_with_slug(project: &Project, name_slug: &str) -> (r: Metadata)
    ensures
        r@ == (MetadataView {
            package: PackageInfoView {
                app_id: "com.example."@ + name_slug@,
                ..package_metadata(project@).package
            },
            desktop: DesktopInfoView {
                executable: name_slug@,
                ..package_metadata(project@).desktop
            },
            ..package_metadata(project@)
        }),
{
    let mut categories: Vec<String> = Vec::new();
    categories.push("Utility".to_owned());
    assert(views(categories@) =~= seq!["Utility"@]);
    let bundled: Vec<String> = Vec::new();
    assert(views(bundled@) =~= Seq::<Seq<char>>::empty());
    Metadata {
        package: PackageInfo {
            name: project.metadata.name.clone(),
            version: project.metadata.version.clone(),
            app_id: append_str("com.example.", name_slug),
            description: project.metadata.description.clone(),
            author: project.metadata.author.clone(),
            application_name: project.metadata.application_name.clone(),
            package_name: project.package_name.clone(),
            compression_level: project.compression_level,
        },
        installation: InstallationInfo {
            prefix_system: "/usr/local".to_owned(),
            prefix_user: "~/.local".to_owned(),
        },
        desktop: DesktopInfo {
            name: project.metadata.application_name.clone(),
            executable: name_slug.to_owned(),
            icon: String::new(),
            categories,
        },
        dependencies: DependenciesInfo { bundled },
        files: packaged_files(&project.files),
        installer_screens: packaged_screens(&project.installer_screens),
    }
}

/// The metadata document of the package that is built from `project`.
pub fn build_metadata(project: &Project) -> (r: Metadata)
    ensures
        r@ == package_metadata(project@),
{
    let name_slug = slugify(project.metadata.name.as_str());
    metadata_with_slug(project, name_slug.as_str())
}

/// The path of a file of the project inside a package, from the package's
/// root.
pub open spec fn member_path_of(f: ProjectFileView) -> Seq<char> {
    joined("application"@, f.destination)
}

/// What a build puts into a package is what an installation looks for in
/// it. The metadata document that the build writes is read back as it was
/// written; and each file of the project is put, in the directory where the
/// package is put together, at the path from the package's root at which the
/// installation looks for it in the directory where the package is
/// unpacked: under the application's tree, at its destination.
pub proof fn lemma_package_is_read_as_built(
    p: ProjectView,
    staging: Seq<char>,
    unpacked: Seq<char>,
    i: int,
)
    requires
        encodable(package_metadata(p)),
        0 <= i < p.files.len(),
    ensures
        decoded_metadata(encoded_metadata(package_metadata(p))) == Some(package_metadata(p)),
        staged_file_of(staging, p.files[i]) == joined(staging, member_path_of(p.files[i])),
        crate::installer::staged_source_of(unpacked, package_metadata(p).files[i]) == joined(
            unpacked,
            member_path_of(p.files[i]),
        ),
{
    reveal_strlit("application");
    assert("application"@.len() == 11);
    assert("application"@.last() == 'n');
    lemma_metadata_round_trip(package_metadata(p));
    lemma_join_is_nested(staging, "application"@, p.files[i].destination);
    lemma_join_is_nested(unpacked, "application"@, p.files[i].destination);
}

/// The file that a build of the project writes.
pub open spec fn output_path_of(p: ProjectView) -> Seq<char> {
    joined(p.metadata.output_directory, p.package_name)
}

/// The directory in which the process `process_id` puts a package
/// together, under the directory for temporary files.
pub open spec fn staging_dir_of(temp_root: Seq<char>, process_id: u32) -> Seq<char> {
    joined(temp_root, "obision-build-"@ + decimal(process_id as nat))
}

/// Where the desktop entry of the project goes during a build, if the
/// project has one whose path ends in a file name.
pub open spec fn staged_desktop_entry_of(staging: Seq<char>, p: ProjectView) -> Option<Seq<char>> {
    match p.metadata.desktop_file {
        Some(path) => match file_name_of(path) {
            Some(n) => Some(joined(joined(staging, "install"@), n)),
            None => None,
        },
        None => None,
    }
}

/// Where a file of the project goes during a build.
pub open spec fn staged_file_of(staging: Seq<char>, f: ProjectFileView) -> Seq<char> {
    joined(joined(staging, "application"@), f.destination)
}

/// A project that passes the check of the required fields gives a metadata
/// document with a name, a version and an identifier of the application:
/// none of the three is empty.
pub proof fn lemma_checked_project_gives_complete_metadata(p: ProjectView)
    requires
        missing_fields(p).len() == 0,
    ensures
        package_metadata(p).ready_for_build(),
{
    lemma_validation_is_complete(p);
    reveal_strlit("com.example.");
    assert(!missing_fields(p).contains(RequiredField::Name));
    assert(!missing_fields(p).contains(RequiredField::Version));
    assert(!is_missing(p, RequiredField::Name));
    assert(!is_missing(p, RequiredField::Version));
    assert(("com.example."@ + slug(p.metadata.name)).len() >= 12);
}

/// Build and installation agree on where a file lies inside a package: the
/// build puts each file of the project under the application's tree at its
/// destination, and that is where the metadata document says the file is.
pub proof fn lemma_files_lie_where_the_metadata_says(p: ProjectView, staging: Seq<char>, i: int)
    requires
        0 <= i < p.files.len(),
    ensures
        crate::installer::staged_source_of(staging, package_metadata(p).files[i])
            == staged_file_of(staging, p.files[i]),
        package_metadata(p).files[i].destination == p.files[i].destination,
{
}

/// The file that a build of the project writes.
pub fn output_path(project: &Project) -> (r: String)
    ensures
        r@ == output_path_of(project@),
{
    join(project.metadata.output_directory.as_str(), project.package_name.as_str())
}

/// The directory in which a build puts a package together.
pub fn staging_dir(temp_root: &str, process_id: u32) -> (r: String)
    ensures
        r@ == staging_dir_of(temp_root@, process_id),
{
    let name = append_str("obision-build-", decimal_string(process_id as u64).as_str());
    join(temp_root, name.as_str())
}

/// The directory of a build that receives the desktop entry.
pub fn install_dir(staging: &str) -> (r: String)
    ensures
        r@ == joined(staging@, "install"@),
{
    join(staging, "install")
}

/// The directory of a build that receives the files of the project.
pub fn application_dir(staging: &str) -> (r: String)
    ensures
        r@ == joined(staging@, "application"@),
{
    join(staging, "application")
}

/// Where the desktop entry of the project goes during a build.
pub fn staged_desktop_entry(staging: &str, project: &Project) -> (r: Option<String>)
    ensures
        opt_view(r) == staged_desktop_entry_of(staging@, project@),
{
    match &project.metadata.desktop_file {
        Some(path) => match file_name(path.as_str()) {
            Some(n) => Some(join(install_dir(staging).as_str(), n.as_str())),
            None => None,
        },
        None => None,
    }
}

/// Where a file of the project goes during a build.
pub fn staged_file(staging: &str, file: &ProjectFile) -> (r: String)
    ensures
        r@ == staged_file_of(staging@, file@),
{
    join(application_dir(staging).as_str(), file.destination.as_str())
}

} // verus!

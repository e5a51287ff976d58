//! The metadata document as a document: which sections and fields it is
//! written with, and how it is read back from them.

use crate::document::{
    Document, EntryView, FieldView, Record, Scalar, ScalarView, Section, SectionView, find_entry,
    find_field, flag_at, integer_at, optional_text_at, optional_text_field, record_at, records_at,
    section_at, text_at, text_field, texts_at,
};
use crate::error::{LisError, LisErrorView};
use crate::metadata::{
    DependenciesInfo, DependenciesInfoView, DesktopInfo, DesktopInfoView, FileEntry, FileEntryView,
    InstallationInfo, InstallationInfoView, InstallerScreen, Metadata, MetadataView, PackageInfo,
    PackageInfoView, ScreenView,
};
use crate::text::{append_str, clone_strings, lemma_views_push, views};
use vstd::prelude::*;

verus! {

/// The fields that the package section is written with.
pub open spec fn encoded_package(p: PackageInfoView) -> Seq<FieldView> {
    seq![
        text_field("name"@, p.name),
        text_field("version"@, p.version),
        text_field("app_id"@, p.app_id),
        text_field("description"@, p.description),
        text_field("author"@, p.author),
        text_field("application_name"@, p.application_name),
        text_field("package_name"@, p.package_name),
        FieldView {
            key: "compression_level"@,
            value: ScalarView::Integer(p.compression_level as i64),
        },
    ]
}

/// The package section that is read from a record: each of its fields must
/// be there and hold what it is to hold, the compression level a number
/// from 0 to 255.
pub open spec fn decoded_package(r: Seq<FieldView>) -> Option<PackageInfoView> {
    if text_at(r, "name"@) is Some && text_at(r, "version"@) is Some && text_at(r, "app_id"@)
        is Some && text_at(r, "description"@) is Some && text_at(r, "author"@) is Some && text_at(
        r,
        "application_name"@,
    ) is Some && text_at(r, "package_name"@) is Some && integer_at(r, "compression_level"@)
        is Some && 0 <= integer_at(r, "compression_level"@)->0 <= 255 {
        Some(
            PackageInfoView {
                name: text_at(r, "name"@)->0,
                version: text_at(r, "version"@)->0,
                app_id: text_at(r, "app_id"@)->0,
                description: text_at(r, "description"@)->0,
                author: text_at(r, "author"@)->0,
                application_name: text_at(r, "application_name"@)->0,
                package_name: text_at(r, "package_name"@)->0,
                compression_level: integer_at(r, "compression_level"@)->0 as u8,
            },
        )
    } else {
        None
    }
}

/// The fields that the installation section is written with.
pub open spec fn encoded_installation(i: InstallationInfoView) -> Seq<FieldView> {
    seq![
        text_field("prefix_system"@, i.prefix_system),
        text_field("prefix_user"@, i.prefix_user),
    ]
}

/// The installation section that is read from a record.
pub open spec fn decoded_installation(r: Seq<FieldView>) -> Option<InstallationInfoView> {
    if text_at(r, "prefix_system"@) is Some && text_at(r, "prefix_user"@) is Some {
        Some(
            InstallationInfoView {
                prefix_system: text_at(r, "prefix_system"@)->0,
                prefix_user: text_at(r, "prefix_user"@)->0,
            },
        )
    } else {
        None
    }
}

/// The fields that the desktop section is written with.
pub open spec fn encoded_desktop(d: DesktopInfoView) -> Seq<FieldView> {
    seq![
        text_field("name"@, d.name),
        text_field("exec"@, d.executable),
        text_field("icon"@, d.icon),
        FieldView { key: "categories"@, value: ScalarView::Texts(d.categories) },
    ]
}

/// The desktop section that is read from a record.
pub open spec fn decoded_desktop(r: Seq<FieldView>) -> Option<DesktopInfoView> {
    if text_at(r, "name"@) is Some && text_at(r, "exec"@) is Some && text_at(r, "icon"@) is Some
        && texts_at(r, "categories"@) is Some {
        Some(
            DesktopInfoView {
                name: text_at(r, "name"@)->0,
                executable: text_at(r, "exec"@)->0,
                icon: text_at(r, "icon"@)->0,
                categories: texts_at(r, "categories"@)->0,
            },
        )
    } else {
        None
    }
}

/// The fields that the dependencies section is written with.
pub open spec fn encoded_dependencies(d: DependenciesInfoView) -> Seq<FieldView> {
    seq![FieldView { key: "bundled"@, value: ScalarView::Texts(d.bundled) }]
}

/// The dependencies section that is read from a record.
pub open spec fn decoded_dependencies(r: Seq<FieldView>) -> Option<DependenciesInfoView> {
    match texts_at(r, "bundled"@) {
        Some(bundled) => Some(DependenciesInfoView { bundled }),
        None => None,
    }
}

/// The fields that a file entry is written with; permissions that it does
/// not have are left out.
pub open spec fn encoded_file(f: FileEntryView) -> Seq<FieldView> {
    seq![text_field("source"@, f.source), text_field("destination"@, f.destination)]
        + optional_text_field("permissions"@, f.permissions)
}

/// The file entry that is read from a record.
pub open spec fn decoded_file(r: Seq<FieldView>) -> Option<FileEntryView> {
    if text_at(r, "source"@) is Some && text_at(r, "destination"@) is Some && optional_text_at(
        r,
        "permissions"@,
    ) is Some {
        Some(
            FileEntryView {
                source: text_at(r, "source"@)->0,
                destination: text_at(r, "destination"@)->0,
                permissions: optional_text_at(r, "permissions"@)->0,
            },
        )
    } else {
        None
    }
}

/// The fields that a screen is written with; content of its own that it
/// does not have is left out.
pub open spec fn encoded_screen(s: ScreenView) -> Seq<FieldView> {
    seq![
        text_field("id"@, s.id),
        FieldView { key: "enabled"@, value: ScalarView::Flag(s.enabled) },
        FieldView { key: "order"@, value: ScalarView::Integer(s.order as i64) },
    ] + optional_text_field("custom_content"@, s.custom_content)
}

/// The screen that is read from a record; its order must be a number that
/// counts something.
pub open spec fn decoded_screen(r: Seq<FieldView>) -> Option<ScreenView> {
    if text_at(r, "id"@) is Some && flag_at(r, "enabled"@) is Some && integer_at(r, "order"@)
        is Some && 0 <= integer_at(r, "order"@)->0 <= usize::MAX && optional_text_at(
        r,
        "custom_content"@,
    ) is Some {
        Some(
            ScreenView {
                id: text_at(r, "id"@)->0,
                enabled: flag_at(r, "enabled"@)->0,
                order: integer_at(r, "order"@)->0 as usize,
                custom_content: optional_text_at(r, "custom_content"@)->0,
            },
        )
    } else {
        None
    }
}

/// The file entries that are read from a list of records, if each record
/// gives one.
pub open spec fn decoded_files(list: Seq<Seq<FieldView>>) -> Option<Seq<FileEntryView>> {
    if forall|i: int| 0 <= i < list.len() ==> (#[trigger] decoded_file(list[i])) is Some {
        Some(Seq::new(list.len(), |i: int| decoded_file(list[i])->0))
    } else {
        None
    }
}

/// The screens that are read from a list of records, if each record gives
/// one.
pub open spec fn decoded_screens(list: Seq<Seq<FieldView>>) -> Option<Seq<ScreenView>> {
    if forall|i: int| 0 <= i < list.len() ==> (#[trigger] decoded_screen(list[i])) is Some {
        Some(Seq::new(list.len(), |i: int| decoded_screen(list[i])->0))
    } else {
        None
    }
}

/// Whether `key` names a section of the metadata document.
pub open spec fn is_section(key: Seq<char>) -> bool {
    ||| key == "package"@
    ||| key == "installation"@
    ||| key == "desktop"@
    ||| key == "dependencies"@
    ||| key == "files"@
    ||| key == "installer_screens"@
}

/// The package section of a document.
pub open spec fn package_of(d: Seq<EntryView>) -> Option<PackageInfoView> {
    match record_at(d, "package"@) {
        Some(r) => decoded_package(r),
        None => None,
    }
}

/// The installation section of a document.
pub open spec fn installation_of(d: Seq<EntryView>) -> Option<InstallationInfoView> {
    match record_at(d, "installation"@) {
        Some(r) => decoded_installation(r),
        None => None,
    }
}

/// The desktop section of a document.
pub open spec fn desktop_of(d: Seq<EntryView>) -> Option<DesktopInfoView> {
    match record_at(d, "desktop"@) {
        Some(r) => decoded_desktop(r),
        None => None,
    }
}

/// The dependencies section of a document.
pub open spec fn dependencies_of(d: Seq<EntryView>) -> Option<DependenciesInfoView> {
    match record_at(d, "dependencies"@) {
        Some(r) => decoded_dependencies(r),
        None => None,
    }
}

/// The file entries of a document; none where the section is left out.
pub open spec fn files_of(d: Seq<EntryView>) -> Option<Seq<FileEntryView>> {
    match records_at(d, "files"@) {
        Some(list) => decoded_files(list),
        None => None,
    }
}

/// The screens of a document; none where the section is left out.
pub open spec fn screens_of(d: Seq<EntryView>) -> Option<Seq<ScreenView>> {
    match records_at(d, "installer_screens"@) {
        Some(list) => decoded_screens(list),
        None => None,
    }
}

/// What is wrong with a document that is to be read as a metadata
/// document: a section that the metadata document does not have, or the
/// first of its sections that is missing or malformed. Nothing where the
/// document can be read.
pub open spec fn metadata_problem(d: Seq<EntryView>) -> Option<Seq<char>> {
    if !(forall|i: int| 0 <= i < d.len() ==> is_section(#[trigger] d[i].key)) {
        Some("unknown section"@)
    } else if package_of(d) is None {
        Some("package"@)
    } else if installation_of(d) is None {
        Some("installation"@)
    } else if desktop_of(d) is None {
        Some("desktop"@)
    } else if dependencies_of(d) is None {
        Some("dependencies"@)
    } else if files_of(d) is None {
        Some("files"@)
    } else if screens_of(d) is None {
        Some("installer_screens"@)
    } else {
        None
    }
}

/// The metadata document that is read from a document. The four sections
/// that describe the package must be there; the files and the screens may
/// be left out and are then empty. A section of another name is not
/// accepted.
pub open spec fn decoded_metadata(d: Seq<EntryView>) -> Option<MetadataView> {
    if metadata_problem(d) is Some {
        None
    } else {
        Some(
            MetadataView {
                package: package_of(d)->0,
                installation: installation_of(d)->0,
                desktop: desktop_of(d)->0,
                dependencies: dependencies_of(d)->0,
                files: files_of(d)->0,
                installer_screens: screens_of(d)->0,
            },
        )
    }
}

/// The document that a metadata document is written as.
pub open spec fn encoded_metadata(m: MetadataView) -> Seq<EntryView> {
    seq![
        EntryView { key: "package"@, section: SectionView::One(encoded_package(m.package)) },
        EntryView {
            key: "installation"@,
            section: SectionView::One(encoded_installation(m.installation)),
        },
        EntryView { key: "desktop"@, section: SectionView::One(encoded_desktop(m.desktop)) },
        EntryView {
            key: "dependencies"@,
            section: SectionView::One(encoded_dependencies(m.dependencies)),
        },
        EntryView {
            key: "files"@,
            section: SectionView::Many(Seq::new(m.files.len(), |i: int| encoded_file(m.files[i]))),
        },
        EntryView {
            key: "installer_screens"@,
            section: SectionView::Many(
                Seq::new(m.installer_screens.len(), |i: int| encoded_screen(m.installer_screens[i])),
            ),
        },
    ]
}

/// Whether a metadata document can be written: the order of each screen
/// must fit the integers of a document.
pub open spec fn encodable(m: MetadataView) -> bool {
    forall|i: int|
        0 <= i < m.installer_screens.len() ==> (#[trigger] m.installer_screens[i]).order
            <= i64::MAX
}

/// What is reported for a document that cannot be read as a metadata
/// document.
pub open spec fn invalid_metadata(problem: Seq<char>) -> LisErrorView {
    LisErrorView::Format { detail: "Invalid metadata document: "@ + problem }
}

/// What is reported for a metadata document that cannot be written.
pub open spec fn unwritable_metadata() -> LisErrorView {
    LisErrorView::Format { detail: "Screen order out of range"@ }
}

/// The names of the fields of the package section differ from one another.
proof fn lemma_package_keys()
    ensures
        "name"@ != "version"@,
        "name"@ != "app_id"@,
        "name"@ != "description"@,
        "name"@ != "author"@,
        "name"@ != "application_name"@,
        "name"@ != "package_name"@,
        "name"@ != "compression_level"@,
        "version"@ != "app_id"@,
        "version"@ != "description"@,
        "version"@ != "author"@,
        "version"@ != "application_name"@,
        "version"@ != "package_name"@,
        "version"@ != "compression_level"@,
        "app_id"@ != "description"@,
        "app_id"@ != "author"@,
        "app_id"@ != "application_name"@,
        "app_id"@ != "package_name"@,
        "app_id"@ != "compression_level"@,
        "description"@ != "author"@,
        "description"@ != "application_name"@,
        "description"@ != "package_name"@,
        "description"@ != "compression_level"@,
        "author"@ != "application_name"@,
        "author"@ != "package_name"@,
        "author"@ != "compression_level"@,
        "application_name"@ != "package_name"@,
        "application_name"@ != "compression_level"@,
        "package_name"@ != "compression_level"@,
{
    reveal_strlit("name");
    reveal_strlit("version");
    reveal_strlit("app_id");
    reveal_strlit("description");
    reveal_strlit("author");
    reveal_strlit("application_name");
    reveal_strlit("package_name");
    reveal_strlit("compression_level");
    assert("name"@.len() == 4);
    assert("version"@.len() == 7);
    assert("app_id"@.len() == 6);
    assert("description"@.len() == 11);
    assert("author"@.len() == 6);
    assert("application_name"@.len() == 16);
    assert("package_name"@.len() == 12);
    assert("compression_level"@.len() == 17);
    assert("app_id"@[1] == 'p');
    assert("author"@[1] == 'u');
}

/// The names of the fields of the installation section differ.
proof fn lemma_installation_keys()
    ensures
        "prefix_system"@ != "prefix_user"@,
{
    reveal_strlit("prefix_system");
    reveal_strlit("prefix_user");
    assert("prefix_system"@.len() == 13);
    assert("prefix_user"@.len() == 11);
}

/// The names of the fields of the desktop section differ from one another.
proof fn lemma_desktop_keys()
    ensures
        "name"@ != "exec"@,
        "name"@ != "icon"@,
        "name"@ != "categories"@,
        "exec"@ != "icon"@,
        "exec"@ != "categories"@,
        "icon"@ != "categories"@,
{
    reveal_strlit("name");
    reveal_strlit("exec");
    reveal_strlit("icon");
    reveal_strlit("categories");
    assert("name"@.len() == 4);
    assert("exec"@.len() == 4);
    assert("icon"@.len() == 4);
    assert("categories"@.len() == 10);
    assert("exec"@[0] == 'e');
    assert("icon"@[0] == 'i');
    assert("name"@[0] == 'n');
}

/// The names of the fields of a file entry differ from one another.
proof fn lemma_file_keys()
    ensures
        "source"@ != "destination"@,
        "source"@ != "permissions"@,
        "destination"@ != "permissions"@,
{
    reveal_strlit("source");
    reveal_strlit("destination");
    reveal_strlit("permissions");
    assert("source"@.len() == 6);
    assert("destination"@.len() == 11);
    assert("permissions"@.len() == 11);
    assert("destination"@[0] == 'd');
    assert("permissions"@[0] == 'p');
}

/// The names of the fields of a screen differ from one another.
proof fn lemma_screen_keys()
    ensures
        "id"@ != "enabled"@,
        "id"@ != "order"@,
        "id"@ != "custom_content"@,
        "enabled"@ != "order"@,
        "enabled"@ != "custom_content"@,
        "order"@ != "custom_content"@,
{
    reveal_strlit("id");
    reveal_strlit("enabled");
    reveal_strlit("order");
    reveal_strlit("custom_content");
    assert("id"@.len() == 2);
    assert("enabled"@.len() == 7);
    assert("order"@.len() == 5);
    assert("custom_content"@.len() == 14);
}

/// The names of the sections differ from one another.
proof fn lemma_section_keys()
    ensures
        "package"@ != "installation"@,
        "package"@ != "desktop"@,
        "package"@ != "dependencies"@,
        "package"@ != "files"@,
        "package"@ != "installer_screens"@,
        "installation"@ != "desktop"@,
        "installation"@ != "dependencies"@,
        "installation"@ != "files"@,
        "installation"@ != "installer_screens"@,
        "desktop"@ != "dependencies"@,
        "desktop"@ != "files"@,
        "desktop"@ != "installer_screens"@,
        "dependencies"@ != "files"@,
        "dependencies"@ != "installer_screens"@,
        "files"@ != "installer_screens"@,
{
    reveal_strlit("package");
    reveal_strlit("installation");
    reveal_strlit("desktop");
    reveal_strlit("dependencies");
    reveal_strlit("files");
    reveal_strlit("installer_screens");
    assert("package"@.len() == 7);
    assert("installation"@.len() == 12);
    assert("desktop"@.len() == 7);
    assert("dependencies"@.len() == 12);
    assert("files"@.len() == 5);
    assert("installer_screens"@.len() == 17);
    assert("dependencies"@[0] == 'd');
    assert("desktop"@[0] == 'd');
    assert("installation"@[0] == 'i');
    assert("package"@[0] == 'p');
}

/// A package section that is written and read again is the same.
pub proof fn lemma_package_round_trip(p: PackageInfoView)
    ensures
        decoded_package(encoded_package(p)) == Some(p),
{
    lemma_package_keys();
    reveal_with_fuel(find_field, 9);
}

/// An installation section that is written and read again is the same.
pub proof fn lemma_installation_round_trip(i: InstallationInfoView)
    ensures
        decoded_installation(encoded_installation(i)) == Some(i),
{
    lemma_installation_keys();
    reveal_with_fuel(find_field, 3);
}

/// A desktop section that is written and read again is the same.
pub proof fn lemma_desktop_round_trip(d: DesktopInfoView)
    ensures
        decoded_desktop(encoded_desktop(d)) == Some(d),
{
    lemma_desktop_keys();
    reveal_with_fuel(find_field, 5);
}

/// A dependencies section that is written and read again is the same.
pub proof fn lemma_dependencies_round_trip(d: DependenciesInfoView)
    ensures
        decoded_dependencies(encoded_dependencies(d)) == Some(d),
{
    reveal_with_fuel(find_field, 2);
}

/// A file entry that is written and read again is the same.
pub proof fn lemma_file_round_trip(f: FileEntryView)
    ensures
        decoded_file(encoded_file(f)) == Some(f),
{
    lemma_file_keys();
    reveal_with_fuel(find_field, 4);
    let r = encoded_file(f);
    assert(r[0] == text_field("source"@, f.source));
    assert(r[1] == text_field("destination"@, f.destination));
    if f.permissions is Some {
        assert(r.len() == 3);
        assert(r[2] == text_field("permissions"@, f.permissions->0));
    } else {
        assert(r.len() == 2);
    }
}

/// A screen that is written and read again is the same, provided that its
/// order fits the integers of a document.
pub proof fn lemma_screen_round_trip(s: ScreenView)
    requires
        s.order <= i64::MAX,
    ensures
        decoded_screen(encoded_screen(s)) == Some(s),
{
    lemma_screen_keys();
    reveal_with_fuel(find_field, 5);
    let r = encoded_screen(s);
    assert(r[0] == text_field("id"@, s.id));
    assert(r[1] == FieldView { key: "enabled"@, value: ScalarView::Flag(s.enabled) });
    assert(r[2] == FieldView { key: "order"@, value: ScalarView::Integer(s.order as i64) });
    if s.custom_content is Some {
        assert(r.len() == 4);
        assert(r[3] == text_field("custom_content"@, s.custom_content->0));
    } else {
        assert(r.len() == 3);
    }
}

/// A metadata document that is written as a document and read again is the
/// same: nothing is lost and nothing is added, whatever the document holds,
/// provided that it can be written.
pub proof fn lemma_metadata_round_trip(m: MetadataView)
    requires
        encodable(m),
    ensures
        decoded_metadata(encoded_metadata(m)) == Some(m),
{
    let d = encoded_metadata(m);
    lemma_section_keys();
    reveal_with_fuel(find_entry, 7);
    lemma_package_round_trip(m.package);
    lemma_installation_round_trip(m.installation);
    lemma_desktop_round_trip(m.desktop);
    lemma_dependencies_round_trip(m.dependencies);
    assert(d[0].key == "package"@);
    assert(d[1].key == "installation"@);
    assert(d[2].key == "desktop"@);
    assert(d[3].key == "dependencies"@);
    assert(d[4].key == "files"@);
    assert(d[5].key == "installer_screens"@);
    assert(section_at(d, "package"@) == Some(d[0].section));
    assert(section_at(d, "installation"@) == Some(d[1].section));
    assert(section_at(d, "desktop"@) == Some(d[2].section));
    assert(section_at(d, "dependencies"@) == Some(d[3].section));
    assert(section_at(d, "files"@) == Some(d[4].section));
    assert(section_at(d, "installer_screens"@) == Some(d[5].section));
    let files = Seq::new(m.files.len(), |i: int| encoded_file(m.files[i]));
    assert forall|i: int| 0 <= i < files.len() implies (#[trigger] decoded_file(files[i]))
        == Some(m.files[i]) by {
        lemma_file_round_trip(m.files[i]);
    }
    assert(decoded_files(files) is Some);
    assert(decoded_files(files)->0 =~= m.files);
    let screens = Seq::new(
        m.installer_screens.len(),
        |i: int| encoded_screen(m.installer_screens[i]),
    );
    assert forall|i: int| 0 <= i < screens.len() implies (#[trigger] decoded_screen(screens[i]))
        == Some(m.installer_screens[i]) by {
        lemma_screen_round_trip(m.installer_screens[i]);
    }
    assert(decoded_screens(screens) is Some);
    assert(decoded_screens(screens)->0 =~= m.installer_screens);
    assert(metadata_problem(d) is None);
}

fn encode_package(p: &PackageInfo) -> (r: Record)
    ensures
        r@ == encoded_package(p@),
{
    let mut r = Record::new();
    r.put_text("name", p.name.as_str());
    r.put_text("version", p.version.as_str());
    r.put_text("app_id", p.app_id.as_str());
    r.put_text("description", p.description.as_str());
    r.put_text("author", p.author.as_str());
    r.put_text("application_name", p.application_name.as_str());
    r.put_text("package_name", p.package_name.as_str());
    r.put("compression_level", Scalar::Integer(p.compression_level as i64));
    assert(r@ =~= encoded_package(p@));
    r
}

fn decode_package(r: &Record) -> (out: Option<PackageInfo>)
    ensures
        match decoded_package(r@) {
            Some(v) => out matches Some(p) && p@ == v,
            None => out is None,
        },
{
    let name = r.text("name")?;
    let version = r.text("version")?;
    let app_id = r.text("app_id")?;
    let description = r.text("description")?;
    let author = r.text("author")?;
    let application_name = r.text("application_name")?;
    let package_name = r.text("package_name")?;
    let level = r.integer("compression_level")?;
    if level < 0 || level > 255 {
        return None;
    }
    Some(
        PackageInfo {
            name,
            version,
            app_id,
            description,
            author,
            application_name,
            package_name,
            compression_level: level as u8,
        },
    )
}

fn encode_installation(i: &InstallationInfo) -> (r: Record)
    ensures
        r@ == encoded_installation(i@),
{
    let mut r = Record::new();
    r.put_text("prefix_system", i.prefix_system.as_str());
    r.put_text("prefix_user", i.prefix_user.as_str());
    assert(r@ =~= encoded_installation(i@));
    r
}

fn decode_installation(r: &Record) -> (out: Option<InstallationInfo>)
    ensures
        match decoded_installation(r@) {
            Some(v) => out matches Some(i) && i@ == v,
            None => out is None,
        },
{
    let prefix_system = r.text("prefix_system")?;
    let prefix_user = r.text("prefix_user")?;
    Some(InstallationInfo { prefix_system, prefix_user })
}

fn encode_desktop(d: &DesktopInfo) -> (r: Record)
    ensures
        r@ == encoded_desktop(d@),
{
    let mut r = Record::new();
    r.put_text("name", d.name.as_str());
    r.put_text("exec", d.executable.as_str());
    r.put_text("icon", d.icon.as_str());
    r.put("categories", Scalar::Texts(clone_strings(&d.categories)));
    assert(r@ =~= encoded_desktop(d@));
    r
}

fn decode_desktop(r: &Record) -> (out: Option<DesktopInfo>)
    ensures
        match decoded_desktop(r@) {
            Some(v) => out matches Some(d) && d@ == v,
            None => out is None,
        },
{
    let name = r.text("name")?;
    let executable = r.text("exec")?;
    let icon = r.text("icon")?;
    let categories = r.texts("categories")?;
    Some(DesktopInfo { name, executable, icon, categories })
}

fn encode_dependencies(d: &DependenciesInfo) -> (r: Record)
    ensures
        r@ == encoded_dependencies(d@),
{
    let mut r = Record::new();
    r.put("bundled", Scalar::Texts(clone_strings(&d.bundled)));
    assert(r@ =~= encoded_dependencies(d@));
    r
}

fn decode_dependencies(r: &Record) -> (out: Option<DependenciesInfo>)
    ensures
        match decoded_dependencies(r@) {
            Some(v) => out matches Some(d) && d@ == v,
            None => out is None,
        },
{
    let bundled = r.texts("bundled")?;
    Some(DependenciesInfo { bundled })
}

fn encode_file(f: &FileEntry) -> (r: Record)
    ensures
        r@ == encoded_file(f@),
{
    let mut r = Record::new();
    r.put_text("source", f.source.as_str());
    r.put_text("destination", f.destination.as_str());
    assert(r@ =~= seq![
        text_field("source"@, f@.source),
        text_field("destination"@, f@.destination),
    ]);
    r.put_optional_text("permissions", &f.permissions);
    r
}

fn decode_file(r: &Record) -> (out: Option<FileEntry>)
    ensures
        match decoded_file(r@) {
            Some(v) => out matches Some(f) && f@ == v,
            None => out is None,
        },
{
    let source = r.text("source")?;
    let destination = r.text("destination")?;
    let permissions = r.optional_text("permissions")?;
    Some(FileEntry { source, destination, permissions })
}

fn encode_screen(s: &InstallerScreen) -> (r: Option<Record>)
    ensures
        s@.order <= i64::MAX ==> (r matches Some(record) && record@ == encoded_screen(s@)),
        s@.order > i64::MAX ==> r is None,
{
    if s.order as u64 > i64::MAX as u64 {
        return None;
    }
    let mut r = Record::new();
    r.put_text("id", s.id.as_str());
    r.put("enabled", Scalar::Flag(s.enabled));
    r.put("order", Scalar::Integer(s.order as i64));
    assert(r@ =~= seq![
        text_field("id"@, s@.id),
        FieldView { key: "enabled"@, value: ScalarView::Flag(s@.enabled) },
        FieldView { key: "order"@, value: ScalarView::Integer(s@.order as i64) },
    ]);
    r.put_optional_text("custom_content", &s.custom_content);
    Some(r)
}

fn decode_screen(r: &Record) -> (out: Option<InstallerScreen>)
    ensures
        match decoded_screen(r@) {
            Some(v) => out matches Some(s) && s@ == v,
            None => out is None,
        },
{
    let id = r.text("id")?;
    let enabled = r.flag("enabled")?;
    let order = r.integer("order")?;
    if order < 0 || order as u64 > usize::MAX as u64 {
        return None;
    }
    let custom_content = r.optional_text("custom_content")?;
    Some(InstallerScreen { id, enabled, order: order as usize, custom_content })
}

fn decode_files(list: &Vec<Record>) -> (out: Option<Vec<FileEntry>>)
    ensures
        match decoded_files(views(list@)) {
            Some(v) => out matches Some(files) && views(files@) == v,
            None => out is None,
        },
{
    let mut files: Vec<FileEntry> = Vec::new();
    let mut i: usize = 0;
    assert(views(files@) =~= Seq::<FileEntryView>::empty());
    while i < list.len()
        invariant
            i <= list.len(),
            views(files@).len() == i,
            forall|k: int|
                0 <= k < i ==> (#[trigger] decoded_file(views(list@)[k])) == Some(
                    views(files@)[k],
                ),
        decreases list.len() - i,
    {
        match decode_file(&list[i]) {
            Some(f) => {
                proof {
                    lemma_views_push(files@, f);
                }
                files.push(f);
            },
            None => {
                assert(decoded_file(views(list@)[i as int]) is None);
                return None;
            },
        }
        i = i + 1;
    }
    assert(decoded_files(views(list@))->0 =~= views(files@));
    Some(files)
}

fn decode_screens(list: &Vec<Record>) -> (out: Option<Vec<InstallerScreen>>)
    ensures
        match decoded_screens(views(list@)) {
            Some(v) => out matches Some(screens) && views(screens@) == v,
            None => out is None,
        },
{
    let mut screens: Vec<InstallerScreen> = Vec::new();
    let mut i: usize = 0;
    assert(views(screens@) =~= Seq::<ScreenView>::empty());
    while i < list.len()
        invariant
            i <= list.len(),
            views(screens@).len() == i,
            forall|k: int|
                0 <= k < i ==> (#[trigger] decoded_screen(views(list@)[k])) == Some(
                    views(screens@)[k],
                ),
        decreases list.len() - i,
    {
        match decode_screen(&list[i]) {
            Some(s) => {
                proof {
                    lemma_views_push(screens@, s);
                }
                screens.push(s);
            },
            None => {
                assert(decoded_screen(views(list@)[i as int]) is None);
                return None;
            },
        }
        i = i + 1;
    }
    assert(decoded_screens(views(list@))->0 =~= views(screens@));
    Some(screens)
}

fn is_section_name(key: &str) -> (r: bool)
    ensures
        r == is_section(key@),
{
    key.eq("package") || key.eq("installation") || key.eq("desktop") || key.eq("dependencies")
        || key.eq("files") || key.eq("installer_screens")
}

fn invalid(problem: &str) -> (e: LisError)
    ensures
        e@ == invalid_metadata(problem@),
{
    LisError::Format { detail: append_str("Invalid metadata document: ", problem) }
}

impl Metadata {
    /// Writes the metadata document as a document. This fails only where
    /// the order of a screen does not fit the integers of a document.
    pub fn to_document(&self) -> (r: Result<Document, LisError>)
        ensures
            encodable(self@) ==> (r matches Ok(d) && d@ == encoded_metadata(self@)),
            !encodable(self@) ==> (r matches Err(e) && e@ == unwritable_metadata()),
    {
        let ghost want_files = Seq::new(self@.files.len(), |i: int| encoded_file(self@.files[i]));
        let mut files: Vec<Record> = Vec::new();
        let mut i: usize = 0;
        assert(views(files@) =~= want_files.take(0));
        while i < self.files.len()
            invariant
                i <= self.files.len(),
                want_files == Seq::new(self@.files.len(), |k: int| encoded_file(self@.files[k])),
                views(files@) == want_files.take(i as int),
            decreases self.files.len() - i,
        {
            let record = encode_file(&self.files[i]);
            proof {
                lemma_views_push(files@, record);
                assert(want_files.take(i + 1) =~= want_files.take(i as int).push(
                    want_files[i as int],
                ));
            }
            files.push(record);
            i = i + 1;
        }
        assert(want_files.take(want_files.len() as int) == want_files);
        let ghost want_screens = Seq::new(
            self@.installer_screens.len(),
            |i: int| encoded_screen(self@.installer_screens[i]),
        );
        let mut screens: Vec<Record> = Vec::new();
        let mut j: usize = 0;
        assert(views(screens@) =~= want_screens.take(0));
        while j < self.installer_screens.len()
            invariant
                j <= self.installer_screens.len(),
                want_screens == Seq::new(
                    self@.installer_screens.len(),
                    |k: int| encoded_screen(self@.installer_screens[k]),
                ),
                views(screens@) == want_screens.take(j as int),
                forall|k: int| 0 <= k < j ==> (#[trigger] self@.installer_screens[k]).order
                    <= i64::MAX,
            decreases self.installer_screens.len() - j,
        {
            match encode_screen(&self.installer_screens[j]) {
                Some(record) => {
                    proof {
                        lemma_views_push(screens@, record);
                        assert(want_screens.take(j + 1) =~= want_screens.take(j as int).push(
                            want_screens[j as int],
                        ));
                    }
                    screens.push(record);
                },
                None => {
                    assert(self@.installer_screens[j as int].order > i64::MAX);
                    return Err(
                        LisError::Format { detail: "Screen order out of range".to_owned() },
                    );
                },
            }
            j = j + 1;
        }
        assert(want_screens.take(want_screens.len() as int) == want_screens);
        let mut d = Document::new();
        d.put("package", Section::One(encode_package(&self.package)));
        d.put("installation", Section::One(encode_installation(&self.installation)));
        d.put("desktop", Section::One(encode_desktop(&self.desktop)));
        d.put("dependencies", Section::One(encode_dependencies(&self.dependencies)));
        d.put("files", Section::Many(files));
        d.put("installer_screens", Section::Many(screens));
        assert(d@ =~= encoded_metadata(self@));
        Ok(d)
    }

    /// Reads a metadata document from a document.
    pub fn from_document(doc: &Document) -> (r: Result<Metadata, LisError>)
        ensures
            match metadata_problem(doc@) {
                None => r matches Ok(m) && Some(m@) == decoded_metadata(doc@),
                Some(problem) => r matches Err(e) && e@ == invalid_metadata(problem),
            },
    {
        let mut i: usize = 0;
        while i < doc.entries.len()
            invariant
                i <= doc.entries.len(),
                forall|k: int| 0 <= k < i ==> is_section(#[trigger] doc@[k].key),
            decreases doc.entries.len() - i,
        {
            if !is_section_name(doc.entries[i].key.as_str()) {
                assert(!is_section(doc@[i as int].key));
                return Err(invalid("unknown section"));
            }
            i = i + 1;
        }
        let package = match doc.get("package") {
            Some(Section::One(r)) => decode_package(r),
            _ => None,
        };
        let package = match package {
            Some(p) => p,
            None => {
                return Err(invalid("package"));
            },
        };
        let installation = match doc.get("installation") {
            Some(Section::One(r)) => decode_installation(r),
            _ => None,
        };
        let installation = match installation {
            Some(p) => p,
            None => {
                return Err(invalid("installation"));
            },
        };
        let desktop = match doc.get("desktop") {
            Some(Section::One(r)) => decode_desktop(r),
            _ => None,
        };
        let desktop = match desktop {
            Some(p) => p,
            None => {
                return Err(invalid("desktop"));
            },
        };
        let dependencies = match doc.get("dependencies") {
            Some(Section::One(r)) => decode_dependencies(r),
            _ => None,
        };
        let dependencies = match dependencies {
            Some(p) => p,
            None => {
                return Err(invalid("dependencies"));
            },
        };
        let files = match doc.get("files") {
            None => {
                let empty: Vec<FileEntry> = Vec::new();
                assert(views(empty@) =~= Seq::<FileEntryView>::empty());
                assert(decoded_files(Seq::empty())->0 =~= Seq::<FileEntryView>::empty());
                Some(empty)
            },
            Some(Section::Many(list)) => decode_files(list),
            Some(_) => None,
        };
        let files = match files {
            Some(p) => p,
            None => {
                return Err(invalid("files"));
            },
        };
        let installer_screens = match doc.get("installer_screens") {
            None => {
                let empty: Vec<InstallerScreen> = Vec::new();
                assert(views(empty@) =~= Seq::<ScreenView>::empty());
                assert(decoded_screens(Seq::empty())->0 =~= Seq::<ScreenView>::empty());
                Some(empty)
            },
            Some(Section::Many(list)) => decode_screens(list),
            Some(_) => None,
        };
        let installer_screens = match installer_screens {
            Some(p) => p,
            None => {
                return Err(invalid("installer_screens"));
            },
        };
        Ok(Metadata { package, installation, desktop, dependencies, files, installer_screens })
    }
}

} // verus!

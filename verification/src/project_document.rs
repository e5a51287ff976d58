//! The project as a document: which sections and fields it is written
//! with, and how it is read back from them. In a project file every value
//! is a text, numbers and flags too.

use crate::document::{
    Document, EntryView, FieldView, Record, Scalar, ScalarView, Section, SectionView, find_entry,
    find_field, optional_text_at, optional_text_field, records_at, section_at, text_at, text_field,
};
use crate::error::{LisError, LisErrorView};
use crate::metadata::ScreenView;
use crate::project::{
    InstallerScreen, Project, ProjectFile, ProjectFileView, ProjectMetadata, ProjectMetadataView,
    ProjectView,
};
use crate::text::{
    append_str, decimal, decimal_string, lemma_decimal_is_read_back, lemma_views_push,
    parse_unsigned, unsigned_of, views,
};
use crate::xml::{
    XmlToken, document_of, document_of_tokens, document_tokens, lemma_written_tokens_are_read_back,
    malformed, textual, textual_record, textual_section, tokens_of,
};
use vstd::prelude::*;

verus! {

/// The text that a flag is written as.
pub open spec fn flag_text(b: bool) -> Seq<char> {
    if b {
        "true"@
    } else {
        "false"@
    }
}

/// The flag that a text stands for.
pub open spec fn flag_of(s: Seq<char>) -> Option<bool> {
    if s == "true"@ || s == "1"@ {
        Some(true)
    } else if s == "false"@ || s == "0"@ {
        Some(false)
    } else {
        None
    }
}

/// The number that the field `key` holds as a text, if it holds one.
pub open spec fn number_at(r: Seq<FieldView>, key: Seq<char>) -> Option<nat> {
    match text_at(r, key) {
        Some(t) => unsigned_of(t),
        None => None,
    }
}

/// The flag that the field `key` holds as a text, if it holds one.
pub open spec fn flag_text_at(r: Seq<FieldView>, key: Seq<char>) -> Option<bool> {
    match text_at(r, key) {
        Some(t) => flag_of(t),
        None => None,
    }
}

/// The fields that the descriptive part of a project is written with; a
/// desktop entry that it does not have is left out.
pub open spec fn encoded_project_metadata(m: ProjectMetadataView) -> Seq<FieldView> {
    seq![
        text_field("name"@, m.name),
        text_field("version"@, m.version),
        text_field("author"@, m.author),
        text_field("description"@, m.description),
        text_field("application_name"@, m.application_name),
        text_field("output_directory"@, m.output_directory),
    ] + optional_text_field("desktop_file"@, m.desktop_file)
}

/// The descriptive part that is read from a record.
pub open spec fn decoded_project_metadata(r: Seq<FieldView>) -> Option<ProjectMetadataView> {
    if text_at(r, "name"@) is Some && text_at(r, "version"@) is Some && text_at(r, "author"@)
        is Some && text_at(r, "description"@) is Some && text_at(r, "application_name"@) is Some
        && text_at(r, "output_directory"@) is Some && optional_text_at(r, "desktop_file"@)
        is Some {
        Some(
            ProjectMetadataView {
                name: text_at(r, "name"@)->0,
                version: text_at(r, "version"@)->0,
                author: text_at(r, "author"@)->0,
                description: text_at(r, "description"@)->0,
                application_name: text_at(r, "application_name"@)->0,
                output_directory: text_at(r, "output_directory"@)->0,
                desktop_file: optional_text_at(r, "desktop_file"@)->0,
            },
        )
    } else {
        None
    }
}

/// The fields that a file of a project is written with; permissions that
/// it does not have are left out.
pub open spec fn encoded_project_file(f: ProjectFileView) -> Seq<FieldView> {
    seq![text_field("source"@, f.source), text_field("destination"@, f.destination)]
        + optional_text_field("permissions"@, f.permissions)
}

/// The file that is read from a record.
pub open spec fn decoded_project_file(r: Seq<FieldView>) -> Option<ProjectFileView> {
    if text_at(r, "source"@) is Some && text_at(r, "destination"@) is Some && optional_text_at(
        r,
        "permissions"@,
    ) is Some {
        Some(
            ProjectFileView {
                source: text_at(r, "source"@)->0,
                destination: text_at(r, "destination"@)->0,
                permissions: optional_text_at(r, "permissions"@)->0,
            },
        )
    } else {
        None
    }
}

/// The fields that a screen of a project is written with.
pub open spec fn encoded_project_screen(s: ScreenView) -> Seq<FieldView> {
    seq![
        text_field("id"@, s.id),
        text_field("enabled"@, flag_text(s.enabled)),
        text_field("order"@, decimal(s.order as nat)),
    ] + optional_text_field("custom_content"@, s.custom_content)
}

/// The screen that is read from a record.
pub open spec fn decoded_project_screen(r: Seq<FieldView>) -> Option<ScreenView> {
    if text_at(r, "id"@) is Some && flag_text_at(r, "enabled"@) is Some && number_at(r, "order"@)
        is Some && number_at(r, "order"@)->0 <= usize::MAX && optional_text_at(
        r,
        "custom_content"@,
    ) is Some {
        Some(
            ScreenView {
                id: text_at(r, "id"@)->0,
                enabled: flag_text_at(r, "enabled"@)->0,
                order: number_at(r, "order"@)->0 as usize,
                custom_content: optional_text_at(r, "custom_content"@)->0,
            },
        )
    } else {
        None
    }
}

/// The files that are read from a list of records, if each record gives
/// one.
pub open spec fn decoded_project_files(list: Seq<Seq<FieldView>>) -> Option<Seq<ProjectFileView>> {
    if forall|i: int| 0 <= i < list.len() ==> (#[trigger] decoded_project_file(list[i])) is Some {
        Some(Seq::new(list.len(), |i: int| decoded_project_file(list[i])->0))
    } else {
        None
    }
}

/// The screens that are read from a list of records, if each record gives
/// one.
pub open spec fn decoded_project_screens(list: Seq<Seq<FieldView>>) -> Option<Seq<ScreenView>> {
    if forall|i: int| 0 <= i < list.len() ==> (#[trigger] decoded_project_screen(list[i])) is Some {
        Some(Seq::new(list.len(), |i: int| decoded_project_screen(list[i])->0))
    } else {
        None
    }
}

/// The section for a list of records. A list without records is not
/// written at all: a project file has no way to hold it.
pub open spec fn list_entry(key: Seq<char>, list: Seq<Seq<FieldView>>) -> Seq<EntryView> {
    if list.len() == 0 {
        Seq::empty()
    } else {
        seq![EntryView { key, section: SectionView::Many(list) }]
    }
}

/// The text that the section `key` holds, if it holds one.
pub open spec fn section_text_at(d: Seq<EntryView>, key: Seq<char>) -> Option<Seq<char>> {
    match section_at(d, key) {
        Some(SectionView::Value(ScalarView::Text(t))) => Some(t),
        _ => None,
    }
}

/// The descriptive part of a project document: its section holds exactly
/// one record.
pub open spec fn project_metadata_of(d: Seq<EntryView>) -> Option<ProjectMetadataView> {
    match section_at(d, "metadata"@) {
        Some(SectionView::Many(list)) => if list.len() == 1 {
            decoded_project_metadata(list[0])
        } else {
            None
        },
        _ => None,
    }
}

/// The files of a project document; none where the section is left out.
pub open spec fn project_files_of(d: Seq<EntryView>) -> Option<Seq<ProjectFileView>> {
    match records_at(d, "files"@) {
        Some(list) => decoded_project_files(list),
        None => None,
    }
}

/// The screens of a project document; none where the section is left out.
pub open spec fn project_screens_of(d: Seq<EntryView>) -> Option<Seq<ScreenView>> {
    match records_at(d, "installer_screens"@) {
        Some(list) => decoded_project_screens(list),
        None => None,
    }
}

/// The compression level of a project document: a number up to 255.
pub open spec fn project_level_of(d: Seq<EntryView>) -> Option<u8> {
    match section_text_at(d, "compression_level"@) {
        Some(t) => match unsigned_of(t) {
            Some(n) => if n <= 255 {
                Some(n as u8)
            } else {
                None
            },
            None => None,
        },
        None => None,
    }
}

/// What is wrong with a document that is to be read as a project: the
/// first of its sections that is missing or malformed. Nothing where the
/// document can be read.
pub open spec fn project_problem(d: Seq<EntryView>) -> Option<Seq<char>> {
    if project_metadata_of(d) is None {
        Some("metadata"@)
    } else if project_files_of(d) is None {
        Some("files"@)
    } else if project_screens_of(d) is None {
        Some("installer_screens"@)
    } else if section_text_at(d, "package_name"@) is None {
        Some("package_name"@)
    } else if project_level_of(d) is None {
        Some("compression_level"@)
    } else {
        None
    }
}

/// The project that is read from a document. The descriptive part, the
/// name of the package and the compression level must be there; the files
/// and the screens may be left out and are then empty. Sections of other
/// names are passed over.
pub open spec fn decoded_project(d: Seq<EntryView>) -> Option<ProjectView> {
    if project_problem(d) is Some {
        None
    } else {
        Some(
            ProjectView {
                metadata: project_metadata_of(d)->0,
                files: project_files_of(d)->0,
                installer_screens: project_screens_of(d)->0,
                package_name: section_text_at(d, "package_name"@)->0,
                compression_level: project_level_of(d)->0,
            },
        )
    }
}

/// The document that a project is written as.
pub open spec fn encoded_project(p: ProjectView) -> Seq<EntryView> {
    seq![
        EntryView {
            key: "metadata"@,
            section: SectionView::Many(seq![encoded_project_metadata(p.metadata)]),
        },
    ] + list_entry("files"@, Seq::new(p.files.len(), |i: int| encoded_project_file(p.files[i])))
        + list_entry(
        "installer_screens"@,
        Seq::new(p.installer_screens.len(), |i: int| encoded_project_screen(p.installer_screens[i])),
    ) + seq![
        EntryView {
            key: "package_name"@,
            section: SectionView::Value(ScalarView::Text(p.package_name)),
        },
        EntryView {
            key: "compression_level"@,
            section: SectionView::Value(ScalarView::Text(decimal(p.compression_level as nat))),
        },
    ]
}

/// What is reported for a document that cannot be read as a project.
pub open spec fn invalid_project(problem: Seq<char>) -> LisErrorView {
    LisErrorView::Format { detail: "Invalid project document: "@ + problem }
}

/// The names of the fields of the descriptive part differ from one another.
proof fn lemma_metadata_keys()
    ensures
        "name"@ != "version"@,
        "name"@ != "author"@,
        "name"@ != "description"@,
        "name"@ != "application_name"@,
        "name"@ != "output_directory"@,
        "name"@ != "desktop_file"@,
        "version"@ != "author"@,
        "version"@ != "description"@,
        "version"@ != "application_name"@,
        "version"@ != "output_directory"@,
        "version"@ != "desktop_file"@,
        "author"@ != "description"@,
        "author"@ != "application_name"@,
        "author"@ != "output_directory"@,
        "author"@ != "desktop_file"@,
        "description"@ != "application_name"@,
        "description"@ != "output_directory"@,
        "description"@ != "desktop_file"@,
        "application_name"@ != "output_directory"@,
        "application_name"@ != "desktop_file"@,
        "output_directory"@ != "desktop_file"@,
{
    reveal_strlit("name");
    reveal_strlit("version");
    reveal_strlit("author");
    reveal_strlit("description");
    reveal_strlit("application_name");
    reveal_strlit("output_directory");
    reveal_strlit("desktop_file");
    assert("name"@.len() == 4);
    assert("version"@.len() == 7);
    assert("author"@.len() == 6);
    assert("description"@.len() == 11);
    assert("application_name"@.len() == 16);
    assert("output_directory"@.len() == 16);
    assert("desktop_file"@.len() == 12);
    assert("application_name"@[0] == 'a');
    assert("output_directory"@[0] == 'o');
}

/// The names of the fields of a file differ from one another.
proof fn lemma_file_keys()
    ensures
        "source"@ != "destination"@,
        "source"@ != "permissions"@,
        "destination"@ != "permissions"@,
{
    reveal_strlit("source");
    reveal_strlit("destination");
    reveal_strlit("permissions");
    assert("source"@.len() == 6);
    assert("destination"@.len() == 11);
    assert("permissions"@.len() == 11);
    assert("destination"@[0] == 'd');
    assert("permissions"@[0] == 'p');
}

/// The names of the fields of a screen differ from one another.
proof fn lemma_screen_keys()
    ensures
        "id"@ != "enabled"@,
        "id"@ != "order"@,
        "id"@ != "custom_content"@,
        "enabled"@ != "order"@,
        "enabled"@ != "custom_content"@,
        "order"@ != "custom_content"@,
{
    reveal_strlit("id");
    reveal_strlit("enabled");
    reveal_strlit("order");
    reveal_strlit("custom_content");
    assert("id"@.len() == 2);
    assert("enabled"@.len() == 7);
    assert("order"@.len() == 5);
    assert("custom_content"@.len() == 14);
}

/// The names of the sections differ from one another.
proof fn lemma_section_keys()
    ensures
        "metadata"@ != "files"@,
        "metadata"@ != "installer_screens"@,
        "metadata"@ != "package_name"@,
        "metadata"@ != "compression_level"@,
        "files"@ != "installer_screens"@,
        "files"@ != "package_name"@,
        "files"@ != "compression_level"@,
        "installer_screens"@ != "package_name"@,
        "installer_screens"@ != "compression_level"@,
        "package_name"@ != "compression_level"@,
{
    reveal_strlit("metadata");
    reveal_strlit("files");
    reveal_strlit("installer_screens");
    reveal_strlit("package_name");
    reveal_strlit("compression_level");
    assert("metadata"@.len() == 8);
    assert("files"@.len() == 5);
    assert("installer_screens"@.len() == 17);
    assert("package_name"@.len() == 12);
    assert("compression_level"@.len() == 17);
    assert("compression_level"@[0] == 'c');
    assert("installer_screens"@[0] == 'i');
}

/// The texts that stand for flags differ from one another.
proof fn lemma_flag_texts()
    ensures
        "true"@ != "false"@,
        "true"@ != "1"@,
        "true"@ != "0"@,
        "false"@ != "1"@,
        "false"@ != "0"@,
        "1"@ != "0"@,
{
    reveal_strlit("true");
    reveal_strlit("false");
    reveal_strlit("1");
    reveal_strlit("0");
    assert("true"@.len() == 4);
    assert("false"@.len() == 5);
    assert("1"@.len() == 1);
    assert("0"@.len() == 1);
    assert("0"@[0] == '0');
    assert("1"@[0] == '1');
}

/// A flag that is written and read again is the same.
pub proof fn lemma_flag_round_trip(b: bool)
    ensures
        flag_of(flag_text(b)) == Some(b),
{
    lemma_flag_texts();
}

/// The descriptive part of a project that is written and read again is the
/// same.
pub proof fn lemma_project_metadata_round_trip(m: ProjectMetadataView)
    ensures
        decoded_project_metadata(encoded_project_metadata(m)) == Some(m),
{
    lemma_metadata_keys();
    reveal_with_fuel(find_field, 8);
    let r = encoded_project_metadata(m);
    assert(r[0] == text_field("name"@, m.name));
    assert(r[1] == text_field("version"@, m.version));
    assert(r[2] == text_field("author"@, m.author));
    assert(r[3] == text_field("description"@, m.description));
    assert(r[4] == text_field("application_name"@, m.application_name));
    assert(r[5] == text_field("output_directory"@, m.output_directory));
    if m.desktop_file is Some {
        assert(r.len() == 7);
        assert(r[6] == text_field("desktop_file"@, m.desktop_file->0));
    } else {
        assert(r.len() == 6);
    }
}

/// A file of a project that is written and read again is the same.
pub proof fn lemma_project_file_round_trip(f: ProjectFileView)
    ensures
        decoded_project_file(encoded_project_file(f)) == Some(f),
{
    lemma_file_keys();
    reveal_with_fuel(find_field, 4);
    let r = encoded_project_file(f);
    assert(r[0] == text_field("source"@, f.source));
    assert(r[1] == text_field("destination"@, f.destination));
    if f.permissions is Some {
        assert(r.len() == 3);
        assert(r[2] == text_field("permissions"@, f.permissions->0));
    } else {
        assert(r.len() == 2);
    }
}

/// A screen of a project that is written and read again is the same.
pub proof fn lemma_project_screen_round_trip(s: ScreenView)
    ensures
        decoded_project_screen(encoded_project_screen(s)) == Some(s),
{
    lemma_screen_keys();
    lemma_flag_round_trip(s.enabled);
    lemma_decimal_is_read_back(s.order as nat);
    reveal_with_fuel(find_field, 5);
    let r = encoded_project_screen(s);
    assert(r[0] == text_field("id"@, s.id));
    assert(r[1] == text_field("enabled"@, flag_text(s.enabled)));
    assert(r[2] == text_field("order"@, decimal(s.order as nat)));
    if s.custom_content is Some {
        assert(r.len() == 4);
        assert(r[3] == text_field("custom_content"@, s.custom_content->0));
    } else {
        assert(r.len() == 3);
    }
}

/// A project that is written as a document and read again is the same:
/// nothing is lost and nothing is added, whatever the project holds.
pub proof fn lemma_project_round_trip(p: ProjectView)
    ensures
        decoded_project(encoded_project(p)) == Some(p),
{
    let d = encoded_project(p);
    lemma_section_keys();
    reveal_with_fuel(find_entry, 6);
    lemma_project_metadata_round_trip(p.metadata);
    lemma_decimal_is_read_back(p.compression_level as nat);
    let files = Seq::new(p.files.len(), |i: int| encoded_project_file(p.files[i]));
    let screens = Seq::new(
        p.installer_screens.len(),
        |i: int| encoded_project_screen(p.installer_screens[i]),
    );
    let head = EntryView {
        key: "metadata"@,
        section: SectionView::Many(seq![encoded_project_metadata(p.metadata)]),
    };
    let name = EntryView {
        key: "package_name"@,
        section: SectionView::Value(ScalarView::Text(p.package_name)),
    };
    let level = EntryView {
        key: "compression_level"@,
        section: SectionView::Value(ScalarView::Text(decimal(p.compression_level as nat))),
    };
    let files_entry = EntryView { key: "files"@, section: SectionView::Many(files) };
    let screens_entry = EntryView {
        key: "installer_screens"@,
        section: SectionView::Many(screens),
    };
    if files.len() == 0 && screens.len() == 0 {
        assert(d =~= seq![head, name, level]);
    } else if files.len() == 0 {
        assert(d =~= seq![head, screens_entry, name, level]);
    } else if screens.len() == 0 {
        assert(d =~= seq![head, files_entry, name, level]);
    } else {
        assert(d =~= seq![head, files_entry, screens_entry, name, level]);
    }
    assert(section_at(d, "metadata"@) == Some(head.section));
    assert(section_at(d, "package_name"@) == Some(name.section));
    assert(section_at(d, "compression_level"@) == Some(level.section));
    assert(records_at(d, "files"@) == Some(files));
    assert(records_at(d, "installer_screens"@) == Some(screens));
    assert forall|i: int| 0 <= i < files.len() implies (#[trigger] decoded_project_file(
        files[i],
    )) == Some(p.files[i]) by {
        lemma_project_file_round_trip(p.files[i]);
    }
    assert(decoded_project_files(files) is Some);
    assert(decoded_project_files(files)->0 =~= p.files);
    assert forall|i: int| 0 <= i < screens.len() implies (#[trigger] decoded_project_screen(
        screens[i],
    )) == Some(p.installer_screens[i]) by {
        lemma_project_screen_round_trip(p.installer_screens[i]);
    }
    assert(decoded_project_screens(screens) is Some);
    assert(decoded_project_screens(screens)->0 =~= p.installer_screens);
    assert(project_problem(d) is None);
}

/// The name of the element under which a project is written.
pub open spec fn project_root() -> Seq<char> {
    "Project"@
}

/// The document that a project is written as is made of texts, and no two
/// of its sections have the same name.
pub proof fn lemma_project_document_is_textual(p: ProjectView)
    ensures
        textual(encoded_project(p)),
{
    let d = encoded_project(p);
    lemma_section_keys();
    let files = Seq::new(p.files.len(), |i: int| encoded_project_file(p.files[i]));
    let screens = Seq::new(
        p.installer_screens.len(),
        |i: int| encoded_project_screen(p.installer_screens[i]),
    );
    let one = seq![encoded_project_metadata(p.metadata)];
    let head = EntryView { key: "metadata"@, section: SectionView::Many(one) };
    let name = EntryView {
        key: "package_name"@,
        section: SectionView::Value(ScalarView::Text(p.package_name)),
    };
    let level = EntryView {
        key: "compression_level"@,
        section: SectionView::Value(ScalarView::Text(decimal(p.compression_level as nat))),
    };
    let files_entry = EntryView { key: "files"@, section: SectionView::Many(files) };
    let screens_entry = EntryView {
        key: "installer_screens"@,
        section: SectionView::Many(screens),
    };
    assert forall|i: int| 0 <= i < one.len() implies textual_record(#[trigger] one[i]) by {
        let r = one[i];
        assert(r.len() >= 6);
        assert forall|k: int| 0 <= k < r.len() implies (#[trigger] r[k]).value is Text by {
            if k >= 6 {
                assert(r[k] == optional_text_field("desktop_file"@, p.metadata.desktop_file)[k - 6]);
            }
        }
    }
    assert forall|i: int| 0 <= i < files.len() implies textual_record(#[trigger] files[i]) by {
        let r = files[i];
        assert(r == encoded_project_file(p.files[i]));
        assert(r.len() >= 2);
        assert forall|k: int| 0 <= k < r.len() implies (#[trigger] r[k]).value is Text by {
            if k >= 2 {
                assert(r[k] == optional_text_field("permissions"@, p.files[i].permissions)[k - 2]);
            }
        }
    }
    assert forall|i: int| 0 <= i < screens.len() implies textual_record(#[trigger] screens[i]) by {
        let r = screens[i];
        assert(r == encoded_project_screen(p.installer_screens[i]));
        assert(r.len() >= 3);
        assert forall|k: int| 0 <= k < r.len() implies (#[trigger] r[k]).value is Text by {
            if k >= 3 {
                assert(r[k] == optional_text_field(
                    "custom_content"@,
                    p.installer_screens[i].custom_content,
                )[k - 3]);
            }
        }
    }
    assert(textual_section(head));
    assert(textual_section(name));
    assert(textual_section(level));
    if files.len() == 0 && screens.len() == 0 {
        assert(d =~= seq![head, name, level]);
    } else if files.len() == 0 {
        assert(textual_section(screens_entry));
        assert(d =~= seq![head, screens_entry, name, level]);
    } else if screens.len() == 0 {
        assert(textual_section(files_entry));
        assert(d =~= seq![head, files_entry, name, level]);
    } else {
        assert(textual_section(files_entry));
        assert(textual_section(screens_entry));
        assert(d =~= seq![head, files_entry, screens_entry, name, level]);
    }
}

/// A project that is written as XML and read again is the same, as far as
/// the elements go: the tokens that it is written as are read back as the
/// document that holds it, and that document as the project.
pub proof fn lemma_project_survives_xml(p: ProjectView)
    ensures
        document_of(project_root(), tokens_of(project_root(), encoded_project(p))) == Ok::<
            Seq<EntryView>,
            Seq<char>,
        >(encoded_project(p)),
        decoded_project(encoded_project(p)) == Some(p),
{
    lemma_project_document_is_textual(p);
    lemma_written_tokens_are_read_back(project_root(), encoded_project(p));
    lemma_project_round_trip(p);
}

fn flag_string(b: bool) -> (r: String)
    ensures
        r@ == flag_text(b),
{
    if b {
        "true".to_owned()
    } else {
        "false".to_owned()
    }
}

fn parse_flag(text: &str) -> (r: Option<bool>)
    ensures
        r == flag_of(text@),
{
    if text.eq("true") || text.eq("1") {
        Some(true)
    } else if text.eq("false") || text.eq("0") {
        Some(false)
    } else {
        None
    }
}

fn encode_metadata(m: &ProjectMetadata) -> (r: Record)
    ensures
        r@ == encoded_project_metadata(m@),
{
    let mut r = Record::new();
    r.put_text("name", m.name.as_str());
    r.put_text("version", m.version.as_str());
    r.put_text("author", m.author.as_str());
    r.put_text("description", m.description.as_str());
    r.put_text("application_name", m.application_name.as_str());
    r.put_text("output_directory", m.output_directory.as_str());
    assert(r@ =~= seq![
        text_field("name"@, m@.name),
        text_field("version"@, m@.version),
        text_field("author"@, m@.author),
        text_field("description"@, m@.description),
        text_field("application_name"@, m@.application_name),
        text_field("output_directory"@, m@.output_directory),
    ]);
    r.put_optional_text("desktop_file", &m.desktop_file);
    r
}

fn decode_metadata(r: &Record) -> (out: Option<ProjectMetadata>)
    ensures
        match decoded_project_metadata(r@) {
            Some(v) => out matches Some(m) && m@ == v,
            None => out is None,
        },
{
    let name = r.text("name")?;
    let version = r.text("version")?;
    let author = r.text("author")?;
    let description = r.text("description")?;
    let application_name = r.text("application_name")?;
    let output_directory = r.text("output_directory")?;
    let desktop_file = r.optional_text("desktop_file")?;
    Some(
        ProjectMetadata {
            name,
            version,
            author,
            description,
            application_name,
            output_directory,
            desktop_file,
        },
    )
}

fn encode_file(f: &ProjectFile) -> (r: Record)
    ensures
        r@ == encoded_project_file(f@),
{
    let mut r = Record::new();
    r.put_text("source", f.source.as_str());
    r.put_text("destination", f.destination.as_str());
    assert(r@ =~= seq![
        text_field("source"@, f@.source),
        text_field("destination"@, f@.destination),
    ]);
    r.put_optional_text("permissions", &f.permissions);
    r
}

fn decode_file(r: &Record) -> (out: Option<ProjectFile>)
    ensures
        match decoded_project_file(r@) {
            Some(v) => out matches Some(f) && f@ == v,
            None => out is None,
        },
{
    let source = r.text("source")?;
    let destination = r.text("destination")?;
    let permissions = r.optional_text("permissions")?;
    Some(ProjectFile { source, destination, permissions })
}

fn encode_screen(s: &InstallerScreen) -> (r: Record)
    ensures
        r@ == encoded_project_screen(s@),
{
    let mut r = Record::new();
    r.put_text("id", s.id.as_str());
    r.put_text("enabled", flag_string(s.enabled).as_str());
    r.put_text("order", decimal_string(s.order as u64).as_str());
    assert(r@ =~= seq![
        text_field("id"@, s@.id),
        text_field("enabled"@, flag_text(s@.enabled)),
        text_field("order"@, decimal(s@.order as nat)),
    ]);
    r.put_optional_text("custom_content", &s.custom_content);
    r
}

fn decode_screen(r: &Record) -> (out: Option<InstallerScreen>)
    ensures
        match decoded_project_screen(r@) {
            Some(v) => out matches Some(s) && s@ == v,
            None => out is None,
        },
{
    let id = r.text("id")?;
    let enabled = parse_flag(r.text("enabled")?.as_str())?;
    let order = parse_unsigned(r.text("order")?.as_str())?;
    if order > usize::MAX as u64 {
        return None;
    }
    let custom_content = r.optional_text("custom_content")?;
    Some(InstallerScreen { id, enabled, order: order as usize, custom_content })
}

fn decode_files(list: &Vec<Record>) -> (out: Option<Vec<ProjectFile>>)
    ensures
        match decoded_project_files(views(list@)) {
            Some(v) => out matches Some(files) && views(files@) == v,
            None => out is None,
        },
{
    let mut files: Vec<ProjectFile> = Vec::new();
    let mut i: usize = 0;
    assert(views(files@) =~= Seq::<ProjectFileView>::empty());
    while i < list.len()
        invariant
            i <= list.len(),
            views(files@).len() == i,
            forall|k: int|
                0 <= k < i ==> (#[trigger] decoded_project_file(views(list@)[k])) == Some(
                    views(files@)[k],
                ),
        decreases list.len() - i,
    {
        match decode_file(&list[i]) {
            Some(f) => {
                proof {
                    lemma_views_push(files@, f);
                }
                files.push(f);
            },
            None => {
                assert(decoded_project_file(views(list@)[i as int]) is None);
                return None;
            },
        }
        i = i + 1;
    }
    assert(decoded_project_files(views(list@))->0 =~= views(files@));
    Some(files)
}

fn decode_screens(list: &Vec<Record>) -> (out: Option<Vec<InstallerScreen>>)
    ensures
        match decoded_project_screens(views(list@)) {
            Some(v) => out matches Some(screens) && views(screens@) == v,
            None => out is None,
        },
{
    let mut screens: Vec<InstallerScreen> = Vec::new();
    let mut i: usize = 0;
    assert(views(screens@) =~= Seq::<ScreenView>::empty());
    while i < list.len()
        invariant
            i <= list.len(),
            views(screens@).len() == i,
            forall|k: int|
                0 <= k < i ==> (#[trigger] decoded_project_screen(views(list@)[k])) == Some(
                    views(screens@)[k],
                ),
        decreases list.len() - i,
    {
        match decode_screen(&list[i]) {
            Some(s) => {
                proof {
                    lemma_views_push(screens@, s);
                }
                screens.push(s);
            },
            None => {
                assert(decoded_project_screen(views(list@)[i as int]) is None);
                return None;
            },
        }
        i = i + 1;
    }
    assert(decoded_project_screens(views(list@))->0 =~= views(screens@));
    Some(screens)
}

fn invalid(problem: &str) -> (e: LisError)
    ensures
        e@ == invalid_project(problem@),
{
    LisError::Format { detail: append_str("Invalid project document: ", problem) }
}

fn put_list(d: &mut Document, key: &str, list: Vec<Record>)
    ensures
        final(d)@ == old(d)@ + list_entry(key@, views(list@)),
{
    if list.len() > 0 {
        let ghost records = views(list@);
        d.put(key, Section::Many(list));
        assert(d@ =~= old(d)@ + list_entry(key@, records));
    } else {
        assert(old(d)@ + Seq::<EntryView>::empty() =~= old(d)@);
    }
}

impl Project {
    /// Writes the project as a document.
    pub fn to_document(&self) -> (d: Document)
        ensures
            d@ == encoded_project(self@),
    {
        let ghost want_files = Seq::new(
            self@.files.len(),
            |i: int| encoded_project_file(self@.files[i]),
        );
        let mut files: Vec<Record> = Vec::new();
        let mut i: usize = 0;
        assert(views(files@) =~= want_files.take(0));
        while i < self.files.len()
            invariant
                i <= self.files.len(),
                want_files == Seq::new(
                    self@.files.len(),
                    |k: int| encoded_project_file(self@.files[k]),
                ),
                views(files@) == want_files.take(i as int),
            decreases self.files.len() - i,
        {
            let record = encode_file(&self.files[i]);
            proof {
                lemma_views_push(files@, record);
                assert(want_files.take(i + 1) =~= want_files.take(i as int).push(
                    want_files[i as int],
                ));
            }
            files.push(record);
            i = i + 1;
        }
        assert(want_files.take(want_files.len() as int) == want_files);
        let ghost want_screens = Seq::new(
            self@.installer_screens.len(),
            |i: int| encoded_project_screen(self@.installer_screens[i]),
        );
        let mut screens: Vec<Record> = Vec::new();
        let mut j: usize = 0;
        assert(views(screens@) =~= want_screens.take(0));
        while j < self.installer_screens.len()
            invariant
                j <= self.installer_screens.len(),
                want_screens == Seq::new(
                    self@.installer_screens.len(),
                    |k: int| encoded_project_screen(self@.installer_screens[k]),
                ),
                views(screens@) == want_screens.take(j as int),
            decreases self.installer_screens.len() - j,
        {
            let record = encode_screen(&self.installer_screens[j]);
            proof {
                lemma_views_push(screens@, record);
                assert(want_screens.take(j + 1) =~= want_screens.take(j as int).push(
                    want_screens[j as int],
                ));
            }
            screens.push(record);
            j = j + 1;
        }
        assert(want_screens.take(want_screens.len() as int) == want_screens);
        let mut metadata: Vec<Record> = Vec::new();
        metadata.push(encode_metadata(&self.metadata));
        assert(views(metadata@) =~= seq![encoded_project_metadata(self@.metadata)]);
        let mut d = Document::new();
        d.put("metadata", Section::Many(metadata));
        put_list(&mut d, "files", files);
        put_list(&mut d, "installer_screens", screens);
        d.put("package_name", Section::Value(Scalar::Text(self.package_name.clone())));
        d.put(
            "compression_level",
            Section::Value(Scalar::Text(decimal_string(self.compression_level as u64))),
        );
        assert(d@ =~= encoded_project(self@));
        d
    }

    /// Reads a project from a document.
    pub fn from_document(doc: &Document) -> (r: Result<Project, LisError>)
        ensures
            match project_problem(doc@) {
                None => r matches Ok(p) && Some(p@) == decoded_project(doc@),
                Some(problem) => r matches Err(e) && e@ == invalid_project(problem),
            },
    {
        let metadata = match doc.get("metadata") {
            Some(Section::Many(list)) => {
                if list.len() == 1 {
                    decode_metadata(&list[0])
                } else {
                    None
                }
            },
            _ => None,
        };
        let metadata = match metadata {
            Some(m) => m,
            None => {
                return Err(invalid("metadata"));
            },
        };
        let files = match doc.get("files") {
            None => {
                let empty: Vec<ProjectFile> = Vec::new();
                assert(views(empty@) =~= Seq::<ProjectFileView>::empty());
                assert(decoded_project_files(Seq::empty())->0 =~= Seq::<
                    ProjectFileView,
                >::empty());
                Some(empty)
            },
            Some(Section::Many(list)) => decode_files(list),
            Some(_) => None,
        };
        let files = match files {
            Some(f) => f,
            None => {
                return Err(invalid("files"));
            },
        };
        let installer_screens = match doc.get("installer_screens") {
            None => {
                let empty: Vec<InstallerScreen> = Vec::new();
                assert(views(empty@) =~= Seq::<ScreenView>::empty());
                assert(decoded_project_screens(Seq::empty())->0 =~= Seq::<ScreenView>::empty());
                Some(empty)
            },
            Some(Section::Many(list)) => decode_screens(list),
            Some(_) => None,
        };
        let installer_screens = match installer_screens {
            Some(s) => s,
            None => {
                return Err(invalid("installer_screens"));
            },
        };
        let package_name = match doc.get("package_name") {
            Some(Section::Value(Scalar::Text(t))) => t.clone(),
            _ => {
                return Err(invalid("package_name"));
            },
        };
        let level = match doc.get("compression_level") {
            Some(Section::Value(Scalar::Text(t))) => parse_unsigned(t.as_str()),
            _ => None,
        };
        let compression_level = match level {
            Some(n) => {
                if n > 255 {
                    return Err(invalid("compression_level"));
                }
                n as u8
            },
            None => {
                return Err(invalid("compression_level"));
            },
        };
        Ok(Project { metadata, files, installer_screens, package_name, compression_level })
    }

    /// Writes the project as the tokens of an XML text.
    pub fn to_xml(&self) -> (r: Vec<XmlToken>)
        ensures
            views(r@) == tokens_of(project_root(), encoded_project(self@)),
    {
        document_tokens("Project", &self.to_document())
    }

    /// Reads a project from the tokens of an XML text.
    pub fn from_xml(tokens: &Vec<XmlToken>) -> (r: Result<Project, LisError>)
        ensures
            match document_of(project_root(), views(tokens@)) {
                Ok(d) => match project_problem(d) {
                    None => r matches Ok(p) && Some(p@) == decoded_project(d),
                    Some(problem) => r matches Err(e) && e@ == invalid_project(problem),
                },
                Err(problem) => r matches Err(e) && e@ == malformed(problem),
            },
    {
        match document_of_tokens("Project", tokens) {
            Ok(document) => Project::from_document(&document),
            Err(e) => Err(e),
        }
    }
}

} // verus!

//! Finding what a package is built from: the libraries a binary needs, the
//! resources of a project, and the binary itself.

use crate::error::{LisError, LisErrorView};
use crate::paths::{join, joined};
use crate::text::{
    append_str, find_char, from_chars, index_from, lemma_index_from_bounds, lemma_views_push,
    opt_view, scan_spaces, scan_word, skip_spaces, skip_word, slice_chars, starts_with, to_chars,
    views,
};
use vstd::prelude::*;

verus! {

/// Whether a library of this name is bundled with a package: the toolkit
/// libraries are, whatever their version suffix.
pub open spec fn bundled_library(name: Seq<char>) -> bool {
    ||| "libgtk-4"@.is_prefix_of(name)
    ||| "libadwaita-1"@.is_prefix_of(name)
    ||| "libgio-2"@.is_prefix_of(name)
    ||| "libglib-2"@.is_prefix_of(name)
    ||| "libgobject-2"@.is_prefix_of(name)
    ||| "libpango"@.is_prefix_of(name)
    ||| "libcairo"@.is_prefix_of(name)
    ||| "libgdk_pixbuf"@.is_prefix_of(name)
}

/// The path that one line of the loader's listing gives for a library to
/// bundle. Such a line reads `name => path`, possibly with more behind it,
/// and `name` is that of a bundled library.
pub open spec fn listed_library(line: Seq<char>) -> Option<Seq<char>> {
    let a0 = skip_spaces(line, 0);
    let b0 = skip_word(line, a0);
    let a1 = skip_spaces(line, b0);
    let b1 = skip_word(line, a1);
    let a2 = skip_spaces(line, b1);
    let b2 = skip_word(line, a2);
    if a2 < b2 && line.subrange(a1, b1) == "=>"@ && bundled_library(line.subrange(a0, b0)) {
        Some(line.subrange(a2, b2))
    } else {
        None
    }
}

/// The paths that the lines of `s` starting at or after `from` give, in the
/// order of the lines.
pub open spec fn listed_libraries(s: Seq<char>, from: int) -> Seq<Seq<char>>
    decreases s.len() - from,
{
    if from < 0 || from >= s.len() {
        Seq::empty()
    } else {
        let e = index_from(s, '\n', from);
        let rest = if e >= s.len() {
            Seq::empty()
        } else {
            proof {
                lemma_index_from_bounds(s, '\n', from);
            }
            listed_libraries(s, e + 1)
        };
        match listed_library(s.subrange(from, e)) {
            Some(p) => seq![p] + rest,
            None => rest,
        }
    }
}

/// What is reported when the loader could not list the libraries.
pub open spec fn listing_failed() -> LisErrorView {
    LisErrorView::Format { detail: "ldd command failed"@ }
}

/// Whether a library of this name is bundled with a package.
pub fn is_bundled_library(name: &Vec<char>) -> (r: bool)
    ensures
        r == bundled_library(name@),
{
    starts_with(name, &to_chars("libgtk-4")) || starts_with(name, &to_chars("libadwaita-1"))
        || starts_with(name, &to_chars("libgio-2")) || starts_with(name, &to_chars("libglib-2"))
        || starts_with(name, &to_chars("libgobject-2")) || starts_with(
        name,
        &to_chars("libpango"),
    ) || starts_with(name, &to_chars("libcairo")) || starts_with(
        name,
        &to_chars("libgdk_pixbuf"),
    )
}

/// The path that one line of the loader's listing gives, if it gives one.
pub fn parse_listing_line(line: &Vec<char>) -> (r: Option<String>)
    ensures
        opt_view(r) == listed_library(line@),
{
    let a0 = scan_spaces(line, 0);
    let b0 = scan_word(line, a0);
    let a1 = scan_spaces(line, b0);
    let b1 = scan_word(line, a1);
    let a2 = scan_spaces(line, b1);
    let b2 = scan_word(line, a2);
    if a2 == b2 {
        return None;
    }
    let arrow = slice_chars(line, a1, b1);
    let is_arrow = arrow.len() == 2 && arrow[0] == '=' && arrow[1] == '>';
    proof {
        reveal_strlit("=>");
        if is_arrow {
            assert(arrow@ =~= "=>"@);
        } else {
            if arrow@ == "=>"@ {
                assert(arrow@[0] == '=' && arrow@[1] == '>');
            }
        }
    }
    if !is_arrow {
        return None;
    }
    let name = slice_chars(line, a0, b0);
    if !is_bundled_library(&name) {
        return None;
    }
    let path = slice_chars(line, a2, b2);
    Some(from_chars(&path))
}

/// The libraries to bundle with a binary, out of what the loader listed for
/// it: their paths as listed, in the order of the listing. `succeeded` says
/// whether the loader ran to its end.
pub fn detect_dependencies(succeeded: bool, listing: &str) -> (r: Result<Vec<String>, LisError>)
    ensures
        succeeded ==> (r matches Ok(paths) && views(paths@) == listed_libraries(listing@, 0)),
        !succeeded ==> (r matches Err(e) && e@ == listing_failed()),
{
    if !succeeded {
        return Err(LisError::Format { detail: "ldd command failed".to_owned() });
    }
    let v = to_chars(listing);
    let mut out: Vec<String> = Vec::new();
    let mut pos: usize = 0;
    assert(views(out@) =~= Seq::<Seq<char>>::empty());
    while pos < v.len()
        invariant
            pos <= v.len(),
            succeeded,
            v@ == listing@,
            listed_libraries(v@, 0) == views(out@) + listed_libraries(v@, pos as int),
        decreases v.len() - pos,
    {
        let e = find_char(&v, '\n', pos);
        let line = slice_chars(&v, pos, e);
        let ghost before = views(out@);
        match parse_listing_line(&line) {
            Some(p) => {
                proof {
                    lemma_views_push(out@, p);
                }
                out.push(p);
            },
            None => {},
        }
        proof {
            let rest = if e >= v@.len() {
                Seq::<Seq<char>>::empty()
            } else {
                listed_libraries(v@, e + 1)
            };
            assert(listed_libraries(v@, pos as int) == views(out@).skip(before.len() as int)
                + rest);
            assert(before + (views(out@).skip(before.len() as int) + rest) == views(out@) + rest);
        }
        if e == v.len() {
            return Ok(out);
        }
        pos = e + 1;
    }
    Ok(out)
}

/// The directory of a project that holds its resources: `data`, directly
/// under the project's directory, where that is a directory.
pub open spec fn resources_of(project_dir: Seq<char>, data_is_directory: bool) -> Option<
    Seq<char>,
> {
    if data_is_directory {
        Some(joined(project_dir, "data"@))
    } else {
        None
    }
}

/// Where the resources of the project in `project_dir` would lie.
pub fn resources_dir(project_dir: &str) -> (r: String)
    ensures
        r@ == joined(project_dir@, "data"@),
{
    join(project_dir, "data")
}

/// The resources of a project, if it has any. `data_is_directory` says
/// whether the place where they would lie exists and is a directory.
pub fn find_resources(project_dir: &str, data_is_directory: bool) -> (r: Result<
    Option<String>,
    LisError,
>)
    ensures
        r matches Ok(found) && opt_view(found) == resources_of(project_dir@, data_is_directory),
{
    if data_is_directory {
        Ok(Some(resources_dir(project_dir)))
    } else {
        Ok(None)
    }
}

/// What a walk through a directory found in one place.
#[derive(Clone, Debug, PartialEq, Eq)]
pub struct WalkEntry {
    /// The path of what was found.
    pub path: String,
    /// Its name, where the name is text.
    pub file_name: Option<String>,
    /// Whether it is a file.
    pub is_file: bool,
}

/// The view of `WalkEntry`: what it holds, as the contracts speak of it.
pub struct WalkEntryView {
    pub path: Seq<char>,
    pub file_name: Option<Seq<char>>,
    pub is_file: bool,
}

impl View for WalkEntry {
    type V = WalkEntryView;

    open spec fn view(&self) -> WalkEntryView {
        WalkEntryView {
            path: self.path@,
            file_name: opt_view(self.file_name),
            is_file: self.is_file,
        }
    }
}

/// Whether an entry is the binary called `name`.
pub open spec fn is_binary(e: WalkEntryView, name: Seq<char>) -> bool {
    e.is_file && e.file_name == Some(name)
}

impl WalkEntry {
    /// Whether the entry is the binary called `name`.
    pub fn names_binary(&self, name: &str) -> (r: bool)
        ensures
            r == is_binary(self@, name@),
    {
        self.is_file && match &self.file_name {
            Some(n) => n.as_str().eq(name),
            None => false,
        }
    }
}

/// The first position at or after `from` of an entry that is the binary
/// called `name`, or the number of entries when there is none.
pub open spec fn find_entry(entries: Seq<WalkEntryView>, name: Seq<char>, from: int) -> int
    decreases entries.len() - from,
{
    if 0 <= from < entries.len() && !is_binary(entries[from], name) {
        find_entry(entries, name, from + 1)
    } else {
        from
    }
}

/// What is reported when the build directory holds no binary called `name`.
pub open spec fn binary_not_found(build_dir: Seq<char>, name: Seq<char>) -> LisErrorView {
    LisErrorView::Io {
        context: "Binary '"@ + name + "' not found in builddir"@,
        path: build_dir,
        cause: "no such file"@,
    }
}

/// The directory in which a project leaves what it builds.
pub fn build_dir(project_dir: &str) -> (r: String)
    ensures
        r@ == joined(project_dir@, "builddir"@),
{
    join(project_dir, "builddir")
}

/// How many levels below the build directory the binary is looked for.
pub const BINARY_SEARCH_DEPTH: usize = 2;

/// The binary called `binary_name` among what a walk through the build
/// directory of the project in `project_dir` found: the first file of that
/// name, in the order of the walk.
pub fn find_binary(project_dir: &str, entries: &Vec<WalkEntry>, binary_name: &str) -> (r: Result<
    String,
    LisError,
>)
    ensures
        ({
            let k = find_entry(views(entries@), binary_name@, 0);
            if k < entries@.len() {
                r matches Ok(path) && path@ == entries@[k].path@
            } else {
                r matches Err(e) && e@ == binary_not_found(
                    joined(project_dir@, "builddir"@),
                    binary_name@,
                )
            }
        }),
{
    let mut k: usize = 0;
    while k < entries.len() && !entries[k].names_binary(binary_name)
        invariant
            k <= entries.len(),
            find_entry(views(entries@), binary_name@, 0) == find_entry(
                views(entries@),
                binary_name@,
                k as int,
            ),
        decreases entries.len() - k,
    {
        k = k + 1;
    }
    if k < entries.len() {
        Ok(entries[k].path.clone())
    } else {
        let a = append_str("Binary '", binary_name);
        let context = append_str(a.as_str(), "' not found in builddir");
        Err(
            LisError::Io {
                context,
                path: build_dir(project_dir),
                cause: "no such file".to_owned(),
            },
        )
    }
}

} // verus!

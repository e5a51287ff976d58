//! The layout of a `.lis` archive: a compressed tar stream that holds the
//! metadata document, the application's files, and what they need.

use crate::error::{LisError, LisErrorView};
use crate::metadata::{Metadata, MetadataView};
use crate::paths::{file_name, file_name_of, join, joined};
use crate::text::{append_str, lemma_views_push, opt_view, views};
use vstd::prelude::*;

verus! {

/// Permission bits of the metadata document inside the archive.
pub const METADATA_MODE: u32 = 0o644;

/// Name of the metadata document inside the archive.
pub open spec fn metadata_member() -> Seq<char> {
    "metadata.toml"@
}

/// Name of the tree inside the archive that holds the application's files.
pub open spec fn application_tree() -> Seq<char> {
    "application"@
}

/// Name of the tree inside the archive that holds the desktop entry.
pub open spec fn install_tree() -> Seq<char> {
    "install"@
}

/// Name of the tree inside the archive that holds the bundled libraries.
pub open spec fn dependencies_tree() -> Seq<char> {
    "dependencies"@
}

/// Name of the tree inside the archive that holds the resources.
pub open spec fn resources_tree() -> Seq<char> {
    "resources"@
}

/// The header block of an entry of a tar archive, as the `tar` crate holds
/// it.
#[verifier::external_type_specification]
#[verifier::external_body]
pub struct ExHeader(tar::Header);

/// The size of its entry that a header holds: what
/// `tar::Header::entry_size` reads from its size field, where it reads a
/// size.
pub uninterp spec fn header_size(h: tar::Header) -> u64;

/// The permission bits that a header holds: what `tar::Header::mode` reads
/// from it, where it reads them.
pub uninterp spec fn header_mode(h: tar::Header) -> u32;

/// Whether the checksum that a header holds agrees with its other fields:
/// whether `tar::Header::cksum` reads from it the sum over its block that a
/// reader of the archive computes.
pub uninterp spec fn header_sealed(h: tar::Header) -> bool;

/// The largest permission bits that the mode field of a header can take.
pub const HEADER_MODE_MAX: u32 = 0o7777777;

/// `tar::Header::new_gnu`: a blank header in the GNU format. Neither a size
/// nor a mode can be read from it yet.
#[verifier::external_body]
fn blank_header() -> (h: tar::Header) {
    tar::Header::new_gnu()
}

/// `tar::Header::set_size` writes the size field, from which the same size
/// is read again, and leaves the mode field as it is.
#[verifier::external_body]
fn set_header_size(h: &mut tar::Header, size: u64)
    ensures
        header_size(*final(h)) == size,
        header_mode(*final(h)) == header_mode(*old(h)),
{
    h.set_size(size)
}

/// `tar::Header::set_mode` writes the mode field in seven octal digits, from
/// which the same mode is read again, and leaves the size field as it is.
#[verifier::external_body]
fn set_header_mode(h: &mut tar::Header, mode: u32)
    requires
        mode <= HEADER_MODE_MAX,
    ensures
        header_mode(*final(h)) == mode,
        header_size(*final(h)) == header_size(*old(h)),
{
    h.set_mode(mode)
}

/// `tar::Header::set_cksum` computes the checksum over the block and writes
/// it to the checksum field; the other fields stay as they are.
#[verifier::external_body]
fn set_header_checksum(h: &mut tar::Header)
    ensures
        header_sealed(*final(h)),
        header_size(*final(h)) == header_size(*old(h)),
        header_mode(*final(h)) == header_mode(*old(h)),
{
    h.set_cksum()
}

/// The header under which a metadata document of `len` bytes is put into an
/// archive: it gives the document's size and the mode of a file that all
/// may read and its owner may write, and carries its checksum.
pub fn metadata_header(len: u64) -> (h: tar::Header)
    ensures
        header_size(h) == len,
        header_mode(h) == METADATA_MODE,
        header_sealed(h),
{
    let mut h = blank_header();
    set_header_size(&mut h, len);
    set_header_mode(&mut h, METADATA_MODE);
    set_header_checksum(&mut h);
    h
}

/// Where a member of an archive comes from.
#[derive(Clone, Copy, Debug, PartialEq, Eq, Structural)]
pub enum MemberKind {
    /// The metadata document, written from memory.
    Metadata,
    /// One file on disk.
    File,
    /// A directory on disk, with all that is below it.
    Tree,
}

/// A member of an archive that is about to be written.
#[derive(Clone, Debug, PartialEq, Eq)]
pub struct Member {
    /// Its path inside the archive.
    pub name: String,
    pub kind: MemberKind,
    /// Its path on disk; empty for the metadata document.
    pub source: String,
}

/// The view of `Member`: what it holds, as the contracts speak of it.
pub struct MemberView {
    pub name: Seq<char>,
    pub kind: MemberKind,
    pub source: Seq<char>,
}

impl View for Member {
    type V = MemberView;

    open spec fn view(&self) -> MemberView {
        MemberView { name: self.name@, kind: self.kind, source: self.source@ }
    }
}

/// A package that is put together from a binary, its resources and the
/// libraries it needs.
#[derive(Clone, Debug, PartialEq, Eq)]
pub struct LisPackage {
    pub metadata: Metadata,
    pub binary_path: String,
    pub resources_dir: Option<String>,
    pub dependencies: Vec<String>,
}

/// The view of `LisPackage`: what it holds, as the contracts speak of it.
pub struct LisPackageView {
    pub metadata: MetadataView,
    pub binary_path: Seq<char>,
    pub resources_dir: Option<Seq<char>>,
    pub dependencies: Seq<Seq<char>>,
}

impl View for LisPackage {
    type V = LisPackageView;

    open spec fn view(&self) -> LisPackageView {
        LisPackageView {
            metadata: self.metadata@,
            binary_path: self.binary_path@,
            resources_dir: opt_view(self.resources_dir),
            dependencies: views(self.dependencies@),
        }
    }
}

/// The member that holds the metadata document.
pub open spec fn metadata_entry() -> MemberView {
    MemberView { name: metadata_member(), kind: MemberKind::Metadata, source: Seq::empty() }
}

/// The member that holds the file at `source` under the tree `tree`, under
/// its own name.
pub open spec fn file_entry(tree: Seq<char>, source: Seq<char>) -> Option<MemberView> {
    match file_name_of(source) {
        Some(n) => Some(MemberView { name: joined(tree, n), kind: MemberKind::File, source }),
        None => None,
    }
}

/// The members for the libraries in `deps[..n]`, as far as each has a name.
pub open spec fn dependency_entries(deps: Seq<Seq<char>>, n: int) -> Seq<MemberView>
    decreases n,
{
    if n <= 0 || n > deps.len() {
        Seq::empty()
    } else {
        match file_entry(dependencies_tree(), deps[n - 1]) {
            Some(m) => dependency_entries(deps, n - 1).push(m),
            None => dependency_entries(deps, n - 1),
        }
    }
}

/// The first position at or after `from` of a path without a file name, or
/// the number of paths when each has one.
pub open spec fn first_nameless(paths: Seq<Seq<char>>, from: int) -> int
    decreases paths.len() - from,
{
    if 0 <= from < paths.len() && file_name_of(paths[from]) is Some {
        first_nameless(paths, from + 1)
    } else {
        from
    }
}

/// The members of the archive of a package, in the order in which they are
/// written: the metadata document, the binary among the application's
/// files, the resources where there are any, then the libraries.
/// `resources_exist` says whether the directory of the resources exists.
/// None where the binary or a library has no file name.
pub open spec fn members_of(p: LisPackageView, resources_exist: bool) -> Option<Seq<MemberView>> {
    match file_entry(application_tree(), p.binary_path) {
        None => None,
        Some(binary) => if first_nameless(p.dependencies, 0) < p.dependencies.len() {
            None
        } else {
            let head = seq![metadata_entry(), binary];
            let resources = match p.resources_dir {
                Some(dir) => if resources_exist {
                    seq![MemberView { name: resources_tree(), kind: MemberKind::Tree, source: dir }]
                } else {
                    Seq::empty()
                },
                None => Seq::empty(),
            };
            Some(
                head + resources + dependency_entries(p.dependencies, p.dependencies.len() as int),
            )
        },
    }
}

/// What is reported for a path that has no file name.
pub open spec fn nameless(context: Seq<char>, path: Seq<char>) -> LisErrorView {
    LisErrorView::Io { context, path, cause: "the path has no file name"@ }
}

/// What goes wrong, if anything, when the members are listed.
pub open spec fn members_error(p: LisPackageView) -> Option<LisErrorView> {
    if file_name_of(p.binary_path) is None {
        Some(nameless("Invalid binary path"@, p.binary_path))
    } else {
        let k = first_nameless(p.dependencies, 0);
        if k < p.dependencies.len() {
            Some(nameless("Invalid dependency path"@, p.dependencies[k]))
        } else {
            None
        }
    }
}

/// A stage of reading a package.
#[derive(Clone, Copy, Debug, PartialEq, Eq, Structural)]
pub enum ExtractStage {
    /// Opening the package file.
    Open,
    /// Unpacking the archive.
    Unpack,
    /// Reading the metadata document that was unpacked.
    ReadMetadata,
    /// Making sense of the metadata document.
    ParseMetadata,
}

/// What is reported when reading the package at `lis_path` fails at `stage`
/// for the reason `cause`.
pub open spec fn extract_failure(
    stage: ExtractStage,
    lis_path: Seq<char>,
    output_dir: Seq<char>,
    cause: Seq<char>,
) -> LisErrorView {
    match stage {
        ExtractStage::Open => LisErrorView::Io {
            context: "Failed to open .lis file"@,
            path: lis_path,
            cause,
        },
        ExtractStage::Unpack => LisErrorView::Extraction {
            detail: "Failed to extract .lis file: "@ + cause,
        },
        ExtractStage::ReadMetadata => LisErrorView::Extraction {
            detail: "No metadata document at "@ + joined(output_dir, metadata_member()) + ": "@
                + cause,
        },
        ExtractStage::ParseMetadata => LisErrorView::Format {
            detail: "Malformed metadata document: "@ + cause,
        },
    }
}

/// Where the metadata document lies once a package is unpacked.
pub fn metadata_path(output_dir: &str) -> (r: String)
    ensures
        r@ == joined(output_dir@, metadata_member()),
{
    join(output_dir, "metadata.toml")
}

/// The error for a failure at one stage of reading a package.
pub fn extract_error(stage: ExtractStage, lis_path: &str, output_dir: &str, cause: &str) -> (r:
    LisError)
    ensures
        r@ == extract_failure(stage, lis_path@, output_dir@, cause@),
{
    match stage {
        ExtractStage::Open => LisError::Io {
            context: "Failed to open .lis file".to_owned(),
            path: lis_path.to_owned(),
            cause: cause.to_owned(),
        },
        ExtractStage::Unpack => LisError::Extraction {
            detail: append_str("Failed to extract .lis file: ", cause),
        },
        ExtractStage::ReadMetadata => {
            let a = append_str("No metadata document at ", metadata_path(output_dir).as_str());
            let b = append_str(a.as_str(), ": ");
            LisError::Extraction { detail: append_str(b.as_str(), cause) }
        },
        ExtractStage::ParseMetadata => LisError::Format {
            detail: append_str("Malformed metadata document: ", cause),
        },
    }
}

fn member_for(tree: &str, source: &str) -> (r: Option<Member>)
    ensures
        match file_entry(tree@, source@) {
            Some(m) => r matches Some(member) && member@ == m,
            None => r is None,
        },
{
    match file_name(source) {
        Some(n) => Some(
            Member { name: join(tree, n.as_str()), kind: MemberKind::File, source: source.to_owned() },
        ),
        None => None,
    }
}

fn nameless_error(context: &str, path: &str) -> (r: LisError)
    ensures
        r@ == nameless(context@, path@),
{
    LisError::Io {
        context: context.to_owned(),
        path: path.to_owned(),
        cause: "the path has no file name".to_owned(),
    }
}

impl LisPackage {
    /// Puts a package together.
    pub fn new(
        metadata: Metadata,
        binary_path: String,
        resources_dir: Option<String>,
        dependencies: Vec<String>,
    ) -> (r: LisPackage)
        ensures
            r.metadata == metadata,
            r.binary_path == binary_path,
            r.resources_dir == resources_dir,
            r.dependencies == dependencies,
    {
        LisPackage { metadata, binary_path, resources_dir, dependencies }
    }

    /// The members of the package's archive, in the order in which they are
    /// written. `resources_exist` says whether the directory of the
    /// resources exists on disk.
    pub fn members(&self, resources_exist: bool) -> (r: Result<Vec<Member>, LisError>)
        ensures
            match members_of(self@, resources_exist) {
                Some(list) => r matches Ok(members) && views(members@) == list,
                None => r matches Err(e) && Some(e@) == members_error(self@),
            },
    {
        let mut out: Vec<Member> = Vec::new();
        let first = Member {
            name: "metadata.toml".to_owned(),
            kind: MemberKind::Metadata,
            source: String::new(),
        };
        out.push(first);
        match member_for("application", self.binary_path.as_str()) {
            Some(m) => {
                out.push(m);
            },
            None => {
                return Err(nameless_error("Invalid binary path", self.binary_path.as_str()));
            },
        }
        match &self.resources_dir {
            Some(dir) => {
                if resources_exist {
                    out.push(
                        Member {
                            name: "resources".to_owned(),
                            kind: MemberKind::Tree,
                            source: dir.clone(),
                        },
                    );
                }
            },
            None => {},
        }
        let ghost head = views(out@);
        assert(head =~= seq![
            metadata_entry(),
            file_entry(application_tree(), self@.binary_path)->0,
        ] + match self@.resources_dir {
            Some(dir) => if resources_exist {
                seq![MemberView { name: resources_tree(), kind: MemberKind::Tree, source: dir }]
            } else {
                Seq::empty()
            },
            None => Seq::empty(),
        });
        let mut i: usize = 0;
        while i < self.dependencies.len()
            invariant
                i <= self.dependencies.len(),
                first_nameless(self@.dependencies, 0) == first_nameless(
                    self@.dependencies,
                    i as int,
                ),
                views(out@) == head + dependency_entries(self@.dependencies, i as int),
                file_entry(application_tree(), self@.binary_path) is Some,
            decreases self.dependencies.len() - i,
        {
            match member_for("dependencies", self.dependencies[i].as_str()) {
                Some(m) => {
                    proof {
                        lemma_views_push(out@, m);
                        assert(head + dependency_entries(self@.dependencies, i as int).push(m@)
                            =~= (head + dependency_entries(self@.dependencies, i as int)).push(
                            m@,
                        ));
                    }
                    out.push(m);
                },
                None => {
                    return Err(
                        nameless_error("Invalid dependency path", self.dependencies[i].as_str()),
                    );
                },
            }
            i = i + 1;
        }
        Ok(out)
    }
}

} // verus!

//! Where an installation puts things: the directories under a prefix.

use crate::paths::{is_absolute, join, joined};
use crate::text::{extend_chars, from_chars, slice_chars, to_chars, views};
use vstd::prelude::*;

verus! {

/// The directory for executables under `prefix`.
pub open spec fn bin_dir_of(prefix: Seq<char>) -> Seq<char> {
    joined(prefix, "bin"@)
}

/// The directory for shared data under `prefix`.
pub open spec fn share_dir_of(prefix: Seq<char>) -> Seq<char> {
    joined(prefix, "share"@)
}

/// The directory for desktop entries under `prefix`.
pub open spec fn applications_dir_of(prefix: Seq<char>) -> Seq<char> {
    joined(share_dir_of(prefix), "applications"@)
}

/// The directory for the data of the application `app_id` under `prefix`.
pub open spec fn app_data_dir_of(prefix: Seq<char>, app_id: Seq<char>) -> Seq<char> {
    joined(share_dir_of(prefix), app_id)
}

/// The directory for icons under `prefix`.
pub open spec fn icons_dir_of(prefix: Seq<char>) -> Seq<char> {
    joined(joined(share_dir_of(prefix), "icons"@), "hicolor"@)
}

/// The directory for application descriptions under `prefix`.
pub open spec fn metainfo_dir_of(prefix: Seq<char>) -> Seq<char> {
    joined(share_dir_of(prefix), "metainfo"@)
}

/// Whether `path` starts with the placeholder for the home directory.
pub open spec fn names_home(path: Seq<char>) -> bool {
    path.len() >= 2 && path[0] == '~' && path[1] == '/'
}

/// `path` with the placeholder at its start, if it has one, replaced by
/// the home directory, if one is known.
pub open spec fn expanded(path: Seq<char>, home: Option<Seq<char>>) -> Seq<char> {
    match home {
        Some(h) => if names_home(path) {
            h + path.skip(1)
        } else {
            path
        },
        None => path,
    }
}

/// The directories that every installation needs under `prefix`, in the
/// order in which they are made. The directory for application descriptions
/// is not among them: it is made only for a file that goes there.
pub open spec fn required_directories_of(prefix: Seq<char>, app_id: Seq<char>) -> Seq<Seq<char>> {
    seq![
        bin_dir_of(prefix),
        share_dir_of(prefix),
        app_data_dir_of(prefix, app_id),
        applications_dir_of(prefix),
        icons_dir_of(prefix),
    ]
}

/// The directory for executables under `prefix`.
pub fn bin_dir(prefix: &str) -> (r: String)
    ensures
        r@ == bin_dir_of(prefix@),
{
    join(prefix, "bin")
}

/// The directory for shared data under `prefix`.
pub fn share_dir(prefix: &str) -> (r: String)
    ensures
        r@ == share_dir_of(prefix@),
{
    join(prefix, "share")
}

/// The directory for desktop entries under `prefix`.
pub fn applications_dir(prefix: &str) -> (r: String)
    ensures
        r@ == applications_dir_of(prefix@),
{
    join(share_dir(prefix).as_str(), "applications")
}

/// The directory for the data of the application `app_id` under `prefix`.
pub fn app_data_dir(prefix: &str, app_id: &str) -> (r: String)
    ensures
        r@ == app_data_dir_of(prefix@, app_id@),
{
    join(share_dir(prefix).as_str(), app_id)
}

/// The directory for icons under `prefix`.
pub fn icons_dir(prefix: &str) -> (r: String)
    ensures
        r@ == icons_dir_of(prefix@),
{
    let icons = join(share_dir(prefix).as_str(), "icons");
    join(icons.as_str(), "hicolor")
}

/// The directory for application descriptions under `prefix`.
pub fn metainfo_dir(prefix: &str) -> (r: String)
    ensures
        r@ == metainfo_dir_of(prefix@),
{
    join(share_dir(prefix).as_str(), "metainfo")
}

/// Replaces a `~/` at the start of `path` by the home directory. Without a
/// known home directory, and for any other path, the path stands as it is.
pub fn expand_home(path: &str, home: Option<&str>) -> (r: String)
    ensures
        r@ == expanded(
            path@,
            match home {
                Some(h) => Some(h@),
                None => None,
            },
        ),
{
    let p = to_chars(path);
    match home {
        Some(h) => {
            if p.len() >= 2 && p[0] == '~' && p[1] == '/' {
                let mut out = to_chars(h);
                let rest = slice_chars(&p, 1, p.len());
                assert(rest@ == path@.skip(1));
                extend_chars(&mut out, &rest);
                from_chars(&out)
            } else {
                path.to_owned()
            }
        },
        None => path.to_owned(),
    }
}

/// The directories that an installation of `app_id` needs under `prefix`.
pub fn required_directories(prefix: &str, app_id: &str) -> (r: Vec<String>)
    ensures
        views(r@) == required_directories_of(prefix@, app_id@),
{
    let mut r: Vec<String> = Vec::new();
    r.push(bin_dir(prefix));
    r.push(share_dir(prefix));
    r.push(app_data_dir(prefix, app_id));
    r.push(applications_dir(prefix));
    r.push(icons_dir(prefix));
    assert(views(r@) =~= required_directories_of(prefix@, app_id@));
    r
}

/// Whether `home` itself begins with the placeholder as a whole component,
/// as a home directory that was never resolved does.
pub open spec fn home_is_unresolved(home: Seq<char>) -> bool {
    home.len() >= 1 && home[0] == '~' && (home.len() == 1 || home[1] == '/')
}

/// Whether `path` lies under `prefix` as text: whether it begins with it.
pub open spec fn begins_with(path: Seq<char>, prefix: Seq<char>) -> bool {
    prefix.len() <= path.len() && path.subrange(0, prefix.len() as int) == prefix
}

/// Once a home directory is known that is itself resolved, no expanded path
/// begins with the placeholder.
pub proof fn lemma_expansion_leaves_no_placeholder(path: Seq<char>, home: Seq<char>)
    requires
        !home_is_unresolved(home),
    ensures
        !names_home(expanded(path, Some(home))),
{
    if names_home(path) {
        let r = home + path.skip(1);
        assert(r == expanded(path, Some(home)));
        if home.len() == 0 {
            assert(r[0] == path[1]);
        } else if home.len() == 1 {
            assert(r[0] == home[0]);
            assert(r[1] == path[1]);
        } else {
            assert(r[0] == home[0]);
            assert(r[1] == home[1]);
        }
    }
}

/// What is put behind a base lies under it.
pub proof fn lemma_joined_lies_under(base: Seq<char>, rel: Seq<char>)
    requires
        !is_absolute(rel),
    ensures
        begins_with(joined(base, rel), base),
        joined(base, rel).len() >= base.len() + rel.len(),
{
    let j = joined(base, rel);
    assert(j.subrange(0, base.len() as int) =~= base);
}

/// Lying under is transitive.
pub proof fn lemma_begins_with_is_transitive(a: Seq<char>, b: Seq<char>, c: Seq<char>)
    requires
        begins_with(a, b),
        begins_with(b, c),
    ensures
        begins_with(a, c),
{
    assert(a.subrange(0, c.len() as int) =~= a.subrange(0, b.len() as int).subrange(
        0,
        c.len() as int,
    ));
}

/// Every directory that an installation needs lies under its prefix, as
/// long as the application's identifier is no absolute path.
pub proof fn lemma_directories_lie_under_the_prefix(
    prefix: Seq<char>,
    app_id: Seq<char>,
    i: int,
)
    requires
        !is_absolute(app_id),
        0 <= i < required_directories_of(prefix, app_id).len(),
    ensures
        begins_with(required_directories_of(prefix, app_id)[i], prefix),
{
    reveal_strlit("bin");
    reveal_strlit("share");
    reveal_strlit("applications");
    reveal_strlit("icons");
    reveal_strlit("hicolor");
    let share = share_dir_of(prefix);
    lemma_joined_lies_under(prefix, "bin"@);
    lemma_joined_lies_under(prefix, "share"@);
    lemma_joined_lies_under(share, app_id);
    lemma_joined_lies_under(share, "applications"@);
    lemma_joined_lies_under(share, "icons"@);
    lemma_joined_lies_under(joined(share, "icons"@), "hicolor"@);
    lemma_begins_with_is_transitive(app_data_dir_of(prefix, app_id), share, prefix);
    lemma_begins_with_is_transitive(applications_dir_of(prefix), share, prefix);
    lemma_begins_with_is_transitive(joined(share, "icons"@), share, prefix);
    lemma_begins_with_is_transitive(icons_dir_of(prefix), joined(share, "icons"@), prefix);
}

/// A path that carries no placeholder is the same whatever the home
/// directory: an installation for all users, whose prefix is absolute, does
/// not depend on who installs.
pub proof fn lemma_absolute_prefix_needs_no_home(path: Seq<char>, home: Option<Seq<char>>)
    requires
        !names_home(path),
    ensures
        expanded(path, home) == path,
{
}

} // verus!

//! Installing an unpacked package: where each file goes, and the steps of
//! an installation, one after the other.
//!
//! As with a build, the work on disk is the caller's. It performs the
//! action it is handed and reports how that went; what was made and copied
//! is recorded here, in the order in which it happened.

use crate::install_paths::{
    app_data_dir, app_data_dir_of, bin_dir, bin_dir_of, expand_home, expanded,
};
use crate::metadata::{FileEntry, FileEntryView, Metadata, MetadataView};
use crate::paths::{join, joined};
use crate::text::to_chars;
use vstd::prelude::*;

verus! {

/// The largest value that permission bits can have.
pub const MODE_MAX: u32 = 0o7777;

/// The bits that let someone execute a file.
pub const EXECUTE_BITS: u32 = 0o111;

/// Whether `c` is an octal digit.
pub open spec fn is_octal_digit(c: char) -> bool {
    '0' <= c <= '7'
}

/// The value of the octal digit `c`.
pub open spec fn octal_digit_value(c: char) -> nat {
    (c as u32 - '0' as u32) as nat
}

/// The number that `s` stands for, read as octal digits.
pub open spec fn octal_value(s: Seq<char>) -> nat
    decreases s.len(),
{
    if s.len() == 0 {
        0
    } else {
        octal_value(s.drop_last()) * 8 + octal_digit_value(s.last())
    }
}

/// The permission bits that a text stands for: it must be made of octal
/// digits, at least one, and stand for no more than `7777`.
pub open spec fn mode_of(s: Seq<char>) -> Option<u32> {
    if s.len() > 0 && (forall|i: int| 0 <= i < s.len() ==> is_octal_digit(#[trigger] s[i]))
        && octal_value(s) <= MODE_MAX {
        Some(octal_value(s) as u32)
    } else {
        None
    }
}

/// The permission bits that a file entry asks for, if it asks for any that
/// make sense.
pub open spec fn entry_mode(f: FileEntryView) -> Option<u32> {
    match f.permissions {
        Some(text) => mode_of(text),
        None => None,
    }
}

/// Whether a file entry is for something to execute.
pub open spec fn is_executable(f: FileEntryView) -> bool {
    match entry_mode(f) {
        Some(mode) => mode & EXECUTE_BITS != 0,
        None => false,
    }
}

/// Where a file entry is installed: what can be executed goes to the
/// directory for executables, anything else to the application's own
/// directory.
pub open spec fn target_of(prefix: Seq<char>, app_id: Seq<char>, f: FileEntryView) -> Seq<char> {
    if is_executable(f) {
        joined(bin_dir_of(prefix), f.destination)
    } else {
        joined(app_data_dir_of(prefix, app_id), f.destination)
    }
}

/// Where a file entry lies in a package that was unpacked to `staging`.
pub open spec fn staged_source_of(staging: Seq<char>, f: FileEntryView) -> Seq<char> {
    joined(joined(staging, "application"@), f.source)
}

/// The prefix of an installation: that for all users or that for one,
/// with the home directory in the place of its placeholder.
pub open spec fn prefix_of(m: MetadataView, for_all_users: bool, home: Option<Seq<char>>) -> Seq<
    char,
> {
    if for_all_users {
        expanded(m.installation.prefix_system, home)
    } else {
        expanded(m.installation.prefix_user, home)
    }
}

proof fn lemma_octal_grows(s: Seq<char>, n: int)
    requires
        0 <= n <= s.len(),
    ensures
        octal_value(s.take(n)) <= octal_value(s),
    decreases s.len() - n,
{
    if n < s.len() {
        lemma_octal_grows(s, n + 1);
        assert(s.take(n + 1).drop_last() == s.take(n));
    } else {
        assert(s.take(n) == s);
    }
}

/// The permission bits that a text stands for.
pub fn parse_mode(text: &str) -> (r: Option<u32>)
    ensures
        r == mode_of(text@),
{
    let v = to_chars(text);
    if v.len() == 0 {
        return None;
    }
    let mut value: u32 = 0;
    let mut i: usize = 0;
    while i < v.len()
        invariant
            i <= v.len(),
            v@ == text@,
            value == octal_value(v@.take(i as int)),
            value <= MODE_MAX,
            forall|k: int| 0 <= k < i ==> is_octal_digit(#[trigger] v@[k]),
        decreases v.len() - i,
    {
        let c = v[i];
        if !('0' <= c && c <= '7') {
            return None;
        }
        let d: u32 = c as u32 - '0' as u32;
        proof {
            assert(v@.take(i + 1).drop_last() == v@.take(i as int));
            assert(octal_value(v@.take(i + 1)) == value * 8 + d);
        }
        let next: u32 = value * 8 + d;
        if next > MODE_MAX {
            proof {
                lemma_octal_grows(v@, i + 1);
            }
            return None;
        }
        value = next;
        i = i + 1;
    }
    assert(v@.take(v@.len() as int) == v@);
    Some(value)
}

/// The permission bits that a file entry asks for.
pub fn mode_for(entry: &FileEntry) -> (r: Option<u32>)
    ensures
        r == entry_mode(entry@),
{
    match &entry.permissions {
        Some(text) => parse_mode(text.as_str()),
        None => None,
    }
}

/// Where a file entry is installed.
pub fn target_path(prefix: &str, app_id: &str, entry: &FileEntry) -> (r: String)
    ensures
        r@ == target_of(prefix@, app_id@, entry@),
{
    let executable = match mode_for(entry) {
        Some(mode) => mode & EXECUTE_BITS != 0,
        None => false,
    };
    if executable {
        join(bin_dir(prefix).as_str(), entry.destination.as_str())
    } else {
        join(app_data_dir(prefix, app_id).as_str(), entry.destination.as_str())
    }
}

/// Where a file entry lies in a package that was unpacked to `staging`.
pub fn staged_source(staging: &str, entry: &FileEntry) -> (r: String)
    ensures
        r@ == staged_source_of(staging@, entry@),
{
    join(join(staging, "application").as_str(), entry.source.as_str())
}

/// The prefix of an installation.
pub fn resolve_prefix(metadata: &Metadata, for_all_users: bool, home: Option<&str>) -> (r: String)
    ensures
        r@ == prefix_of(
            metadata@,
            for_all_users,
            match home {
                Some(h) => Some(h@),
                None => None,
            },
        ),
{
    if for_all_users {
        expand_home(metadata.installation.prefix_system.as_str(), home)
    } else {
        expand_home(metadata.installation.prefix_user.as_str(), home)
    }
}

} // verus!

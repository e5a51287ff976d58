//! Reading the two fields of a desktop entry that seed a project.

use crate::error::{LisError, LisErrorView};
use crate::text::{
    find_char, from_chars, index_from, lemma_index_from_bounds, slice_chars, starts_with, to_chars,
    trim_chars, trimmed,
};
use vstd::prelude::*;

verus! {

/// The value of the first line of `s`, among those that start at or after
/// `from`, that begins with `key` once the white space around it is dropped:
/// what stands behind `key` on that line.
pub open spec fn entry_value(s: Seq<char>, key: Seq<char>, from: int) -> Option<Seq<char>>
    decreases s.len() - from,
{
    if from < 0 || from >= s.len() {
        None
    } else {
        let e = index_from(s, '\n', from);
        let line = trimmed(s.subrange(from, e));
        if key.is_prefix_of(line) {
            Some(line.skip(key.len() as int))
        } else if e >= s.len() {
            None
        } else {
            proof {
                lemma_index_from_bounds(s, '\n', from);
            }
            entry_value(s, key, e + 1)
        }
    }
}

/// The name and the comment that a desktop entry gives. The first `Name=`
/// line and the first `Comment=` line count. An entry without a name, or
/// with an empty one, gives nothing; one without a comment has the empty
/// comment.
pub open spec fn desktop_fields(content: Seq<char>) -> Option<(Seq<char>, Seq<char>)> {
    match entry_value(content, "Name="@, 0) {
        Some(name) => if name.len() > 0 {
            Some(
                (
                    name,
                    match entry_value(content, "Comment="@, 0) {
                        Some(c) => c,
                        None => Seq::empty(),
                    },
                ),
            )
        } else {
            None
        },
        None => None,
    }
}

/// What is reported for a desktop entry without a name.
pub open spec fn missing_name() -> LisErrorView {
    LisErrorView::Format { detail: "No Name field found in .desktop file"@ }
}

fn find_entry(v: &Vec<char>, key: &Vec<char>) -> (r: Option<Vec<char>>)
    ensures
        match entry_value(v@, key@, 0) {
            Some(value) => r matches Some(found) && found@ == value,
            None => r is None,
        },
{
    let mut pos: usize = 0;
    while pos < v.len()
        invariant
            pos <= v.len(),
            entry_value(v@, key@, 0) == entry_value(v@, key@, pos as int),
        decreases v.len() - pos,
    {
        let e = find_char(v, '\n', pos);
        let raw = slice_chars(v, pos, e);
        let line = trim_chars(&raw);
        if starts_with(&line, key) {
            let value = slice_chars(&line, key.len(), line.len());
            assert(line@.subrange(key@.len() as int, line@.len() as int) == line@.skip(
                key@.len() as int,
            ));
            return Some(value);
        }
        if e == v.len() {
            return None;
        }
        pos = e + 1;
    }
    None
}

/// Reads the name and the comment out of the text of a desktop entry.
pub fn parse_desktop_file(content: &str) -> (r: Result<(String, String), LisError>)
    ensures
        match desktop_fields(content@) {
            Some((name, comment)) => r matches Ok(pair) && pair.0@ == name && pair.1@ == comment,
            None => r matches Err(e) && e@ == missing_name(),
        },
{
    let v = to_chars(content);
    let name_key = to_chars("Name=");
    let comment_key = to_chars("Comment=");
    let name = match find_entry(&v, &name_key) {
        Some(n) => n,
        None => Vec::new(),
    };
    if name.len() == 0 {
        return Err(LisError::Format { detail: "No Name field found in .desktop file".to_owned() });
    }
    let comment = match find_entry(&v, &comment_key) {
        Some(c) => c,
        None => Vec::new(),
    };
    Ok((from_chars(&name), from_chars(&comment)))
}

} // verus!

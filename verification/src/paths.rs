//! POSIX paths as text.
//!
//! A path is a string whose components are separated by `/`. Empty
//! components and `.` components carry no meaning, except that a leading
//! `/` marks the path as absolute.

use crate::text::{extend_chars, from_chars, opt_view, slice_chars, to_chars};
use vstd::prelude::*;

verus! {

/// A path is absolute when it starts at the root.
pub open spec fn is_absolute(p: Seq<char>) -> bool {
    p.len() > 0 && p[0] == '/'
}

/// `rel` resolved against `base`: an absolute `rel` stands for itself,
/// any other is put behind `base`, with one separator between them unless
/// `base` is empty or brings its own.
pub open spec fn joined(base: Seq<char>, rel: Seq<char>) -> Seq<char> {
    if is_absolute(rel) {
        rel
    } else if base.len() == 0 || base.last() == '/' {
        base + rel
    } else {
        base.push('/') + rel
    }
}

/// Length of the root marker at the start of `s`.
pub open spec fn root_len(s: Seq<char>) -> int {
    if is_absolute(s) {
        1
    } else {
        0
    }
}

/// The end of `s[..end]` once trailing separators and trailing `.`
/// components are dropped; the root marker is never dropped.
pub open spec fn significant_end(s: Seq<char>, end: int) -> int
    decreases end,
{
    if root_len(s) < end <= s.len() && s[end - 1] == '/' {
        significant_end(s, end - 1)
    } else if root_len(s) < end <= s.len() && end >= 2 && s[end - 1] == '.' && s[end - 2] == '/' {
        significant_end(s, end - 1)
    } else {
        end
    }
}

/// The start of the component of `s` that ends at `end`.
pub open spec fn component_start(s: Seq<char>, end: int) -> int
    decreases end,
{
    if 0 < end <= s.len() && s[end - 1] != '/' {
        component_start(s, end - 1)
    } else {
        end
    }
}

/// The last component of `s` as written, which may be `.` or `..`, or
/// empty when `s` names the root or nothing.
pub open spec fn last_component(s: Seq<char>) -> Seq<char> {
    let e = significant_end(s, s.len() as int);
    s.subrange(component_start(s, e), e)
}

/// Whether a component is one of the two relative markers.
pub open spec fn is_dots(c: Seq<char>) -> bool {
    c == seq!['.'] || c == seq!['.', '.']
}

/// The name of the file or directory that `s` ends in, if it ends in one.
pub open spec fn file_name_of(s: Seq<char>) -> Option<Seq<char>> {
    let c = last_component(s);
    if c.len() == 0 || is_dots(c) {
        None
    } else {
        Some(c)
    }
}

/// The path of the directory that holds the last component of `s`; none
/// for the root and for the empty path.
pub open spec fn parent_of(s: Seq<char>) -> Option<Seq<char>> {
    let e = significant_end(s, s.len() as int);
    let b = component_start(s, e);
    if b == e {
        None
    } else {
        Some(s.take(significant_end(s, b)))
    }
}

/// Whether the file name of `s` ends in `.lis` behind at least one other
/// character.
pub open spec fn names_package(s: Seq<char>) -> bool {
    match file_name_of(s) {
        Some(n) => n.len() >= 5 && n.subrange(n.len() - 4, n.len() as int) == seq![
            '.',
            'l',
            'i',
            's',
        ],
        None => false,
    }
}

/// Resolves `rel` against `base`.
pub fn join(base: &str, rel: &str) -> (r: String)
    ensures
        r@ == joined(base@, rel@),
{
    let b = to_chars(base);
    let t = to_chars(rel);
    if t.len() > 0 && t[0] == '/' {
        return from_chars(&t);
    }
    let mut out = b;
    if out.len() > 0 && out[out.len() - 1] != '/' {
        out.push('/');
    }
    extend_chars(&mut out, &t);
    from_chars(&out)
}

fn scan_significant_end(v: &Vec<char>, end: usize) -> (r: usize)
    requires
        end <= v.len(),
    ensures
        r == significant_end(v@, end as int),
        r <= end,
{
    let root: usize = if v.len() > 0 && v[0] == '/' {
        1
    } else {
        0
    };
    let mut e: usize = end;
    while root < e && (v[e - 1] == '/' || (e >= 2 && v[e - 1] == '.' && v[e - 2] == '/'))
        invariant
            e <= end <= v.len(),
            root == root_len(v@),
            significant_end(v@, end as int) == significant_end(v@, e as int),
        decreases e,
    {
        e = e - 1;
    }
    e
}

fn scan_component_start(v: &Vec<char>, end: usize) -> (r: usize)
    requires
        end <= v.len(),
    ensures
        r == component_start(v@, end as int),
        r <= end,
{
    let mut b: usize = end;
    while 0 < b && v[b - 1] != '/'
        invariant
            b <= end <= v.len(),
            component_start(v@, end as int) == component_start(v@, b as int),
        decreases b,
    {
        b = b - 1;
    }
    b
}

/// The name of the file or directory that `path` ends in.
pub fn file_name(path: &str) -> (r: Option<String>)
    ensures
        opt_view(r) == file_name_of(path@),
{
    let v = to_chars(path);
    let e = scan_significant_end(&v, v.len());
    let b = scan_component_start(&v, e);
    let c = slice_chars(&v, b, e);
    if c.len() == 0 {
        None
    } else if c.len() == 1 && c[0] == '.' {
        assert(c@ == seq!['.']);
        None
    } else if c.len() == 2 && c[0] == '.' && c[1] == '.' {
        assert(c@ == seq!['.', '.']);
        None
    } else {
        proof {
            if c@ == seq!['.'] {
                assert(c@.len() == 1 && c@[0] == '.');
            }
            if c@ == seq!['.', '.'] {
                assert(c@.len() == 2 && c@[0] == '.' && c@[1] == '.');
            }
        }
        Some(from_chars(&c))
    }
}

/// The directory that holds what `path` ends in.
pub fn parent(path: &str) -> (r: Option<String>)
    ensures
        opt_view(r) == parent_of(path@),
{
    let v = to_chars(path);
    let e = scan_significant_end(&v, v.len());
    let b = scan_component_start(&v, e);
    if b == e {
        None
    } else {
        let p = scan_significant_end(&v, b);
        let head = slice_chars(&v, 0, p);
        assert(v@.subrange(0, p as int) == v@.take(p as int));
        Some(from_chars(&head))
    }
}

/// Whether `path` names a package file.
pub fn is_package_path(path: &str) -> (r: bool)
    ensures
        r == names_package(path@),
{
    match file_name(path) {
        Some(name) => {
            let n = to_chars(name.as_str());
            if n.len() < 5 {
                false
            } else {
                let k: usize = n.len() - 4;
                let hit = n[k] == '.' && n[k + 1] == 'l' && n[k + 2] == 'i' && n[k + 3] == 's';
                proof {
                    let tail = n@.subrange(n@.len() - 4, n@.len() as int);
                    let want = seq!['.', 'l', 'i', 's'];
                    if hit {
                        assert(tail == want);
                    } else {
                        if tail == want {
                            assert(tail[0] == want[0]);
                            assert(tail[1] == want[1]);
                            assert(tail[2] == want[2]);
                            assert(tail[3] == want[3]);
                        }
                    }
                }
                hit
            }
        },
        None => false,
    }
}

/// Resolving a path against a base in two steps is resolving it in one:
/// what is put behind `middle` and then behind `base` lies where it lies
/// when `middle` is put behind `base` first, for a `middle` that names
/// something and ends in no separator.
pub proof fn lemma_join_is_nested(base: Seq<char>, middle: Seq<char>, rel: Seq<char>)
    requires
        middle.len() > 0,
        middle.last() != '/',
    ensures
        joined(joined(base, middle), rel) == joined(base, joined(middle, rel)),
{
    let inner = joined(base, middle);
    if !is_absolute(rel) {
        let tail = middle.push('/') + rel;
        assert(joined(middle, rel) == tail);
        assert(tail[0] == middle[0]);
        if is_absolute(middle) {
            assert(inner == middle);
        } else {
            assert(inner.len() > 0);
            assert(inner.last() == middle.last());
            assert(joined(inner, rel) =~= joined(base, tail));
        }
    }
}

} // verus!

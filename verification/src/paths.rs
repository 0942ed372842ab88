//! Relative file paths held as text with `/` separators.

use vstd::prelude::*;
use crate::text::{append, chars_eq, rfind, rfind_str, slice, to_chars};

verus! {

/// `base` joined with `rel` as `Path::join` does it on Unix: an absolute `rel`
/// replaces `base`; otherwise a `/` is put between them unless `base` is empty
/// or already ends with one.
pub open spec fn path_join(base: Seq<char>, rel: Seq<char>) -> Seq<char> {
    if rel.len() > 0 && rel[0] == '/' {
        rel
    } else if base.len() == 0 || base.last() == '/' {
        base + rel
    } else {
        base + seq!['/'] + rel
    }
}

pub fn path_join_chars(base: &Vec<char>, rel: &Vec<char>) -> (r: Vec<char>)
    ensures
        r@ == path_join(base@, rel@),
{
    if rel.len() > 0 && rel[0] == '/' {
        return rel.clone();
    }
    let mut r = base.clone();
    if !(base.len() == 0 || base[base.len() - 1] == '/') {
        r.push('/');
    }
    append(&mut r, rel);
    r
}

/// The directory part of a path: the text before its last `/`, or empty.
pub open spec fn parent_dir(p: Seq<char>) -> Seq<char> {
    match rfind(p, "/"@) {
        Some(j) => p.take(j),
        None => Seq::empty(),
    }
}

/// The file name of a path: the text after its last `/`.
pub open spec fn file_name(p: Seq<char>) -> Seq<char> {
    match rfind(p, "/"@) {
        Some(j) => p.skip(j + 1),
        None => p,
    }
}

/// The file name without its extension, as `Path::file_stem` gives it: the
/// text before the last `.`, unless that `.` starts the name or the name is `..`.
pub open spec fn file_stem(p: Seq<char>) -> Seq<char> {
    let name = file_name(p);
    if name == ".."@ {
        name
    } else {
        match rfind(name, "."@) {
            Some(d) => if d == 0 {
                name
            } else {
                name.take(d)
            },
            None => name,
        }
    }
}

/// The extension of a path's file name, as `Path::extension` gives it.
pub open spec fn extension(p: Seq<char>) -> Option<Seq<char>> {
    let name = file_name(p);
    if name == ".."@ {
        None
    } else {
        match rfind(name, "."@) {
            Some(d) => if d == 0 {
                None
            } else {
                Some(name.skip(d + 1))
            },
            None => None,
        }
    }
}

pub fn parent_dir_chars(p: &Vec<char>) -> (r: Vec<char>)
    ensures
        r@ == parent_dir(p@),
{
    match rfind_str(p, "/") {
        Some(j) => slice(p, 0, j),
        None => Vec::new(),
    }
}

pub fn file_name_chars(p: &Vec<char>) -> (r: Vec<char>)
    ensures
        r@ == file_name(p@),
{
    let plen = p.len();
    match rfind_str(p, "/") {
        Some(j) => {
            proof {
                reveal_strlit("/");
            }
            slice(p, j + 1, plen)
        },
        None => p.clone(),
    }
}

pub fn file_stem_chars(p: &Vec<char>) -> (r: Vec<char>)
    ensures
        r@ == file_stem(p@),
{
    let name = file_name_chars(p);
    let dots = to_chars("..");
    if chars_eq(&name, &dots) {
        return name;
    }
    match rfind_str(&name, ".") {
        Some(d) => if d == 0 {
            name
        } else {
            slice(&name, 0, d)
        },
        None => name,
    }
}

pub fn extension_chars(p: &Vec<char>) -> (r: Option<Vec<char>>)
    ensures
        r matches Some(v) ==> extension(p@) == Some(v@),
        r is None ==> extension(p@) is None,
{
    let name = file_name_chars(p);
    let dots = to_chars("..");
    if chars_eq(&name, &dots) {
        return None;
    }
    let nlen = name.len();
    match rfind_str(&name, ".") {
        Some(d) => if d == 0 {
            None
        } else {
            proof {
                reveal_strlit(".");
            }
            Some(slice(&name, d + 1, nlen))
        },
        None => None,
    }
}

} // verus!

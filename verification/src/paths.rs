//! Path text: the last component of a path and its extension, with both `/`
//! and `\` taken as separators (paths come from Windows and Unix alike).

use vstd::prelude::*;

use crate::text::{chars_of, string_of};

verus! {

/// A path separator.
pub open spec fn is_sep(c: char) -> bool {
    c == '/' || c == '\\'
}

/// Going back from `j` over separators: the end of the path without its
/// trailing separators.
pub open spec fn trimmed_end(s: Seq<char>, j: int) -> int
    decreases j,
{
    if 0 < j <= s.len() && is_sep(s[j - 1]) {
        trimmed_end(s, j - 1)
    } else {
        j
    }
}

/// Going back from `j` over non-separators: the start of the component that ends at `j`.
pub open spec fn component_start(s: Seq<char>, j: int) -> int
    decreases j,
{
    if 0 < j <= s.len() && !is_sep(s[j - 1]) {
        component_start(s, j - 1)
    } else {
        j
    }
}

/// The last component of a path (trailing separators ignored).
pub open spec fn file_name(s: Seq<char>) -> Seq<char> {
    let e = trimmed_end(s, s.len() as int);
    s.subrange(component_start(s, e), e)
}

/// Position of the last `.` before `j`, or -1.
pub open spec fn last_dot(n: Seq<char>, j: int) -> int
    decreases j,
{
    if j <= 0 || j > n.len() {
        -1
    } else if n[j - 1] == '.' {
        j - 1
    } else {
        last_dot(n, j - 1)
    }
}

/// The extension of a file name: what follows its last `.`, unless that dot
/// is the first character (hidden files such as `.profile` have none).
pub open spec fn name_extension(n: Seq<char>) -> Option<Seq<char>> {
    let d = last_dot(n, n.len() as int);
    if d > 0 {
        Some(n.subrange(d + 1, n.len() as int))
    } else {
        None
    }
}

/// The extension of the last component of a path.
pub open spec fn path_extension(s: Seq<char>) -> Option<Seq<char>> {
    name_extension(file_name(s))
}

/// The characters of the last component of `path`.
pub fn file_name_chars(path: &str) -> (r: Vec<char>)
    ensures
        r@ == file_name(path@),
{
    let v = chars_of(path);
    let mut e = v.len();
    while e > 0 && (v[e - 1] == '/' || v[e - 1] == '\\')
        invariant
            e <= v.len(),
            trimmed_end(v@, e as int) == trimmed_end(v@, v@.len() as int),
        decreases e,
    {
        e = e - 1;
    }
    let mut b = e;
    while b > 0 && !(v[b - 1] == '/' || v[b - 1] == '\\')
        invariant
            b <= e <= v.len(),
            e == trimmed_end(v@, v@.len() as int),
            component_start(v@, b as int) == component_start(v@, e as int),
        decreases b,
    {
        b = b - 1;
    }
    let mut out: Vec<char> = Vec::new();
    let mut i = b;
    while i < e
        invariant
            b <= i <= e <= v.len(),
            out@ == v@.subrange(b as int, i as int),
        decreases e - i,
    {
        out.push(v[i]);
        i = i + 1;
    }
    out
}

/// The extension of the last component of `path` (see [`path_extension`]).
pub fn extension_chars(path: &str) -> (r: Option<Vec<char>>)
    ensures
        r is Some <==> path_extension(path@) is Some,
        r matches Some(e) ==> path_extension(path@) == Some(e@),
{
    let n = file_name_chars(path);
    let mut j = n.len();
    while j > 0 && n[j - 1] != '.'
        invariant
            j <= n.len(),
            last_dot(n@, j as int) == last_dot(n@, n@.len() as int),
        decreases j,
    {
        j = j - 1;
    }
    if j <= 1 {
        return None;
    }
    let mut out: Vec<char> = Vec::new();
    let mut i = j;
    while i < n.len()
        invariant
            j <= i <= n.len(),
            out@ == n@.subrange(j as int, i as int),
        decreases n.len() - i,
    {
        out.push(n[i]);
        i = i + 1;
    }
    Some(out)
}

/// A path that does not hang off a directory: it starts with a separator or
/// with a drive (`C:`).
pub open spec fn is_rooted(p: Seq<char>) -> bool {
    (p.len() > 0 && is_sep(p[0])) || (p.len() >= 2 && p[1] == ':' && (('a' <= p[0] && p[0] <= 'z') || ('A' <= p[0]
        && p[0] <= 'Z')))
}

/// `name` resolved against the directory `dir`: a rooted name stands alone,
/// as it does against an empty directory; otherwise `name` follows `dir`,
/// with `sep` between them unless `dir` already ends with a separator.
pub open spec fn joined(dir: Seq<char>, name: Seq<char>, sep: char) -> Seq<char> {
    if is_rooted(name) || dir.len() == 0 {
        name
    } else if is_sep(dir.last()) {
        dir + name
    } else {
        dir.push(sep) + name
    }
}

/// Resolves `name` against the directory `dir` (see [`joined`]); `sep` is the
/// separator put between them.
pub fn join_path(dir: &str, name: &str, sep: char) -> (r: String)
    ensures
        r@ == joined(dir@, name@, sep),
{
    let d = chars_of(dir);
    let n = chars_of(name);
    let rooted = (n.len() > 0 && (n[0] == '/' || n[0] == '\\')) || (n.len() >= 2 && n[1] == ':' && (('a' <= n[0]
        && n[0] <= 'z') || ('A' <= n[0] && n[0] <= 'Z')));
    if rooted || d.len() == 0 {
        return string_of(&n, 0, n.len());
    }
    let mut out = d;
    let last = out[out.len() - 1];
    if !(last == '/' || last == '\\') {
        out.push(sep);
    }
    let mut tail = n;
    out.append(&mut tail);
    string_of(&out, 0, out.len())
}

} // verus!

//! Recognising media files by name: video extensions, CUE sheets, and the
//! Unicode lower-casing used to compare names.

use vstd::prelude::*;

use crate::paths::{extension_chars, path_extension};
use crate::text::{chars_eq, chars_of, lower_chars, lower_seq};

verus! {

/// What `str::to_lowercase` returns for a text (the full Unicode mapping).
pub uninterp spec fn unicode_lower(s: Seq<char>) -> Seq<char>;

/// Calls `str::to_lowercase`; the result is named [`unicode_lower`].
#[verifier::external_body]
pub(crate) fn to_lowercase(s: &str) -> (r: String)
    ensures
        r@ == unicode_lower(s@),
{
    s.to_lowercase()
}

/// Video extensions, compared after Unicode lower-casing.
pub open spec fn is_video_ext(e: Seq<char>) -> bool {
    let l = unicode_lower(e);
    ||| l == seq!['m', 'p', '4']
    ||| l == seq!['m', 'k', 'v']
    ||| l == seq!['a', 'v', 'i']
    ||| l == seq!['m', 'o', 'v']
    ||| l == seq!['w', 'e', 'b', 'm']
    ||| l == seq!['f', 'l', 'v']
    ||| l == seq!['t', 's']
    ||| l == seq!['w', 'm', 'v']
    ||| l == seq!['r', 'm', 'v', 'b']
    ||| l == seq!['m', '4', 'v']
    ||| l == seq!['m', 'p', 'g']
    ||| l == seq!['m', 'p', 'e', 'g']
    ||| l == seq!['3', 'g', 'p']
}

/// A path whose extension is a video extension.
pub open spec fn is_video(p: Seq<char>) -> bool {
    match path_extension(p) {
        Some(e) => is_video_ext(e),
        None => false,
    }
}

/// A path whose extension is `cue` in any ASCII letter case.
pub open spec fn is_cue_path(p: Seq<char>) -> bool {
    match path_extension(p) {
        Some(e) => lower_seq(e) == seq!['c', 'u', 'e'],
        None => false,
    }
}

/// Whether the characters of `e` name a video extension.
fn video_extension(e: &Vec<char>) -> (r: bool)
    ensures
        r == is_video_ext(e@),
{
    let mut s = String::new();
    let mut i: usize = 0;
    while i < e.len()
        invariant
            i <= e.len(),
            s@ == e@.subrange(0, i as int),
        decreases e.len() - i,
    {
        crate::text::push_char(&mut s, e[i]);
        i = i + 1;
    }
    assert(e@.subrange(0, e@.len() as int) =~= e@);
    let l = chars_of(to_lowercase(s.as_str()).as_str());
    chars_eq(&l, &['m', 'p', '4']) || chars_eq(&l, &['m', 'k', 'v']) || chars_eq(&l, &['a', 'v', 'i'])
        || chars_eq(&l, &['m', 'o', 'v']) || chars_eq(&l, &['w', 'e', 'b', 'm']) || chars_eq(&l, &['f', 'l', 'v'])
        || chars_eq(&l, &['t', 's']) || chars_eq(&l, &['w', 'm', 'v']) || chars_eq(&l, &['r', 'm', 'v', 'b'])
        || chars_eq(&l, &['m', '4', 'v']) || chars_eq(&l, &['m', 'p', 'g']) || chars_eq(&l, &['m', 'p', 'e', 'g'])
        || chars_eq(&l, &['3', 'g', 'p'])
}

/// Whether `path` names a video file (by extension).
pub fn is_video_file(path: &str) -> (r: bool)
    ensures
        r == is_video(path@),
{
    match extension_chars(path) {
        Some(e) => video_extension(&e),
        None => false,
    }
}

/// Whether an opened path is a video (the same test as [`is_video_file`]).
pub fn is_video_path(path: &str) -> (r: bool)
    ensures
        r == is_video(path@),
{
    is_video_file(path)
}

/// Whether `path` is a CUE sheet.
pub fn is_cue(path: &str) -> (r: bool)
    ensures
        r == is_cue_path(path@),
{
    match extension_chars(path) {
        Some(e) => chars_eq(&lower_chars(&e), &['c', 'u', 'e']),
        None => false,
    }
}

} // verus!

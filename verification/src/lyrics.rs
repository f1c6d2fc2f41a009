//! Lyrics: a sibling `.lrc` file comes first, embedded lyrics second; blank
//! text counts as none. Lyric files are decoded as UTF-8 (a byte-order mark
//! dropped), else as GBK, else as UTF-8 with replacement characters.

use vstd::prelude::*;
use vstd::utf8::{decode_utf8, valid_utf8};

use crate::text::{chars_of, trim, trim_chars};

verus! {

/// Where lyrics came from.
#[derive(Debug, Clone, Copy, PartialEq, Eq, Structural)]
pub enum LyricsSource {
    LrcFile,
    Embedded,
}

/// Lyrics text and its source.
#[derive(Debug, Clone, PartialEq, Eq)]
pub struct LyricsData {
    pub source: LyricsSource,
    pub text: String,
}

/// What GBK decoding (`encoding_rs::GBK.decode`) gives for some bytes: the
/// text, and whether malformed sequences were replaced.
pub uninterp spec fn gbk_decode(bytes: Seq<u8>) -> (Seq<char>, bool);

/// What `String::from_utf8_lossy` gives for some bytes.
pub uninterp spec fn utf8_lossy(bytes: Seq<u8>) -> Seq<char>;

/// Calls `std::str::from_utf8`: the text when the bytes are valid UTF-8.
#[verifier::external_body]
fn utf8_text(bytes: &[u8]) -> (r: Option<String>)
    ensures
        r is Some <==> valid_utf8(bytes@),
        r matches Some(s) ==> s@ == decode_utf8(bytes@),
{
    match std::str::from_utf8(bytes) {
        Ok(s) => Some(s.to_string()),
        Err(_) => None,
    }
}

/// Calls `encoding_rs::Encoding::decode` on `encoding_rs::GBK`; the result
/// is named [`gbk_decode`] (nothing more is claimed of it).
#[verifier::external_body]
fn gbk_text(bytes: &[u8]) -> (r: (String, bool))
    ensures
        (r.0@, r.1) == gbk_decode(bytes@),
{
    let (text, _, had_errors) = encoding_rs::GBK.decode(bytes);
    (text.into_owned(), had_errors)
}

/// Calls `String::from_utf8_lossy`; the result is named [`utf8_lossy`].
#[verifier::external_body]
fn lossy_text(bytes: &[u8]) -> (r: String)
    ensures
        r@ == utf8_lossy(bytes@),
{
    String::from_utf8_lossy(bytes).into_owned()
}

/// The bytes without a leading UTF-8 byte-order mark.
pub open spec fn without_bom(b: Seq<u8>) -> Seq<u8> {
    if b.len() >= 3 && b[0] == 0xEFu8 && b[1] == 0xBBu8 && b[2] == 0xBFu8 {
        b.subrange(3, b.len() as int)
    } else {
        b
    }
}

/// The text of lyric (or CUE) file bytes: UTF-8 when valid, else GBK when it
/// decodes cleanly, else lossy UTF-8 — after dropping a UTF-8 byte-order mark.
pub open spec fn decoded_text(b: Seq<u8>) -> Seq<char> {
    let s = without_bom(b);
    if valid_utf8(s) {
        decode_utf8(s)
    } else if !gbk_decode(s).1 {
        gbk_decode(s).0
    } else {
        utf8_lossy(s)
    }
}

/// The bytes without a leading UTF-8 byte-order mark.
pub fn strip_bom(bytes: &[u8]) -> (r: Vec<u8>)
    ensures
        r@ == without_bom(bytes@),
{
    let start: usize = if bytes.len() >= 3 && bytes[0] == 0xEFu8 && bytes[1] == 0xBBu8 && bytes[2] == 0xBFu8 {
        3
    } else {
        0
    };
    let mut out: Vec<u8> = Vec::new();
    let mut i = start;
    while i < bytes.len()
        invariant
            start <= i <= bytes.len(),
            out@ == bytes@.subrange(start as int, i as int),
        decreases bytes.len() - i,
    {
        out.push(bytes[i]);
        i = i + 1;
    }
    assert(bytes@.subrange(0, bytes@.len() as int) =~= bytes@);
    out
}

/// A GBK decoding is used only when it had no malformed sequences.
pub fn clean_decoding(text: String, had_errors: bool) -> (r: Option<String>)
    ensures
        r == (if had_errors { None } else { Some(text) }),
{
    if had_errors {
        None
    } else {
        Some(text)
    }
}

/// Decodes lyric (or CUE) file bytes (see [`decoded_text`]).
pub fn decode_text(bytes: &[u8]) -> (r: String)
    ensures
        r@ == decoded_text(bytes@),
{
    let stripped = strip_bom(bytes);
    match utf8_text(stripped.as_slice()) {
        Some(s) => s,
        None => {
            let (text, had_errors) = gbk_text(stripped.as_slice());
            match clean_decoding(text, had_errors) {
                Some(t) => t,
                None => lossy_text(stripped.as_slice()),
            }
        },
    }
}

/// Text that is blank (empty or white space only) counts as no text.
pub fn non_blank(text: String) -> (r: Option<String>)
    ensures
        r is None <==> trim(text@).len() == 0,
        r matches Some(t) ==> t == text,
{
    if trim_chars(&chars_of(text.as_str())).len() == 0 {
        None
    } else {
        Some(text)
    }
}

/// The lyrics to show: a non-blank `.lrc` text first, else non-blank
/// embedded lyrics, else none.
pub open spec fn lyrics_choice(lrc: Option<String>, embedded: Option<String>) -> Option<LyricsData> {
    match lrc {
        Some(t) if trim(t@).len() > 0 => Some(LyricsData { source: LyricsSource::LrcFile, text: t }),
        _ => match embedded {
            Some(t) if trim(t@).len() > 0 => Some(LyricsData { source: LyricsSource::Embedded, text: t }),
            _ => None,
        },
    }
}

/// Chooses between `.lrc` text and embedded lyrics (see [`lyrics_choice`]).
pub fn pick_lyrics(lrc: Option<String>, embedded: Option<String>) -> (r: Option<LyricsData>)
    ensures
        r == lyrics_choice(lrc, embedded),
{
    match lrc {
        Some(t) => match non_blank(t) {
            Some(text) => {
                return Some(LyricsData { source: LyricsSource::LrcFile, text });
            },
            None => {},
        },
        None => {},
    }
    match embedded {
        Some(t) => match non_blank(t) {
            Some(text) => Some(LyricsData { source: LyricsSource::Embedded, text }),
            None => None,
        },
        None => None,
    }
}

} // verus!

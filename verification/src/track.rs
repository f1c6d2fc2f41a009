//! Library entries: the media format of a file, the CUE window of a virtual
//! track, and the track record itself.

use vstd::prelude::*;

use crate::paths::{extension_chars, path_extension};
use crate::text::{chars_eq, chars_of, lower_chars, lower_seq};

verus! {

/// Media format, stored and exchanged as a lower-case name.
#[derive(Debug, Clone, Copy, PartialEq, Eq, Hash, Structural)]
pub enum MediaFormat {
    Flac,
    Mp3,
    M4a,
    Aac,
    Ogg,
    Opus,
    Wav,
    Aiff,
    Ape,
    Wv,
    Wma,
    Dsf,
    Dff,
    Other,
}

/// The lower-case name of a format.
pub open spec fn format_name(f: MediaFormat) -> Seq<char> {
    match f {
        MediaFormat::Flac => seq!['f', 'l', 'a', 'c'],
        MediaFormat::Mp3 => seq!['m', 'p', '3'],
        MediaFormat::M4a => seq!['m', '4', 'a'],
        MediaFormat::Aac => seq!['a', 'a', 'c'],
        MediaFormat::Ogg => seq!['o', 'g', 'g'],
        MediaFormat::Opus => seq!['o', 'p', 'u', 's'],
        MediaFormat::Wav => seq!['w', 'a', 'v'],
        MediaFormat::Aiff => seq!['a', 'i', 'f', 'f'],
        MediaFormat::Ape => seq!['a', 'p', 'e'],
        MediaFormat::Wv => seq!['w', 'v'],
        MediaFormat::Wma => seq!['w', 'm', 'a'],
        MediaFormat::Dsf => seq!['d', 's', 'f'],
        MediaFormat::Dff => seq!['d', 'f', 'f'],
        MediaFormat::Other => seq!['o', 't', 'h', 'e', 'r'],
    }
}

/// The format a stored name stands for; unknown names are `Other`.
pub open spec fn format_of_name(t: Seq<char>) -> MediaFormat {
    if t == format_name(MediaFormat::Flac) {
        MediaFormat::Flac
    } else if t == format_name(MediaFormat::Mp3) {
        MediaFormat::Mp3
    } else if t == format_name(MediaFormat::M4a) {
        MediaFormat::M4a
    } else if t == format_name(MediaFormat::Aac) {
        MediaFormat::Aac
    } else if t == format_name(MediaFormat::Ogg) {
        MediaFormat::Ogg
    } else if t == format_name(MediaFormat::Opus) {
        MediaFormat::Opus
    } else if t == format_name(MediaFormat::Wav) {
        MediaFormat::Wav
    } else if t == format_name(MediaFormat::Aiff) {
        MediaFormat::Aiff
    } else if t == format_name(MediaFormat::Ape) {
        MediaFormat::Ape
    } else if t == format_name(MediaFormat::Wv) {
        MediaFormat::Wv
    } else if t == format_name(MediaFormat::Wma) {
        MediaFormat::Wma
    } else if t == format_name(MediaFormat::Dsf) {
        MediaFormat::Dsf
    } else if t == format_name(MediaFormat::Dff) {
        MediaFormat::Dff
    } else {
        MediaFormat::Other
    }
}

/// The format of a lower-case file extension: the format names themselves
/// plus the aliases `oga`, `wave` and `aif`; anything else is unsupported.
pub open spec fn format_of_extension(e: Seq<char>) -> Option<MediaFormat> {
    if e == seq!['o', 'g', 'a'] {
        Some(MediaFormat::Ogg)
    } else if e == seq!['w', 'a', 'v', 'e'] {
        Some(MediaFormat::Wav)
    } else if e == seq!['a', 'i', 'f'] {
        Some(MediaFormat::Aiff)
    } else if format_of_name(e) != MediaFormat::Other {
        Some(format_of_name(e))
    } else {
        None
    }
}

/// The format of a path, by its extension in any letter case.
pub open spec fn format_of_path(p: Seq<char>) -> Option<MediaFormat> {
    match path_extension(p) {
        Some(e) => format_of_extension(lower_seq(e)),
        None => None,
    }
}

/// Lossless codecs; `m4a` may hold ALAC or AAC and counts as lossy.
pub open spec fn lossless(f: MediaFormat) -> bool {
    match f {
        MediaFormat::Flac | MediaFormat::Wav | MediaFormat::Aiff | MediaFormat::Ape | MediaFormat::Wv
        | MediaFormat::Dsf | MediaFormat::Dff => true,
        _ => false,
    }
}

/// The format named by `v` (see [`format_of_name`]).
fn format_named(v: &Vec<char>) -> (r: MediaFormat)
    ensures
        r == format_of_name(v@),
{
    if chars_eq(v, &['f', 'l', 'a', 'c']) {
        MediaFormat::Flac
    } else if chars_eq(v, &['m', 'p', '3']) {
        MediaFormat::Mp3
    } else if chars_eq(v, &['m', '4', 'a']) {
        MediaFormat::M4a
    } else if chars_eq(v, &['a', 'a', 'c']) {
        MediaFormat::Aac
    } else if chars_eq(v, &['o', 'g', 'g']) {
        MediaFormat::Ogg
    } else if chars_eq(v, &['o', 'p', 'u', 's']) {
        MediaFormat::Opus
    } else if chars_eq(v, &['w', 'a', 'v']) {
        MediaFormat::Wav
    } else if chars_eq(v, &['a', 'i', 'f', 'f']) {
        MediaFormat::Aiff
    } else if chars_eq(v, &['a', 'p', 'e']) {
        MediaFormat::Ape
    } else if chars_eq(v, &['w', 'v']) {
        MediaFormat::Wv
    } else if chars_eq(v, &['w', 'm', 'a']) {
        MediaFormat::Wma
    } else if chars_eq(v, &['d', 's', 'f']) {
        MediaFormat::Dsf
    } else if chars_eq(v, &['d', 'f', 'f']) {
        MediaFormat::Dff
    } else {
        MediaFormat::Other
    }
}

/// The format of a lower-case extension (see [`format_of_extension`]).
fn format_of_lower_extension(v: &Vec<char>) -> (r: Option<MediaFormat>)
    ensures
        r == format_of_extension(v@),
{
    if chars_eq(v, &['o', 'g', 'a']) {
        Some(MediaFormat::Ogg)
    } else if chars_eq(v, &['w', 'a', 'v', 'e']) {
        Some(MediaFormat::Wav)
    } else if chars_eq(v, &['a', 'i', 'f']) {
        Some(MediaFormat::Aiff)
    } else {
        let f = format_named(v);
        if f == MediaFormat::Other {
            None
        } else {
            Some(f)
        }
    }
}

impl MediaFormat {
    /// The lower-case name used in storage and messages.
    pub fn as_str(&self) -> (r: &'static str)
        ensures
            r@ == format_name(*self),
    {
        match self {
            MediaFormat::Flac => {
                proof { reveal_strlit("flac"); }
                "flac"
            },
            MediaFormat::Mp3 => {
                proof { reveal_strlit("mp3"); }
                "mp3"
            },
            MediaFormat::M4a => {
                proof { reveal_strlit("m4a"); }
                "m4a"
            },
            MediaFormat::Aac => {
                proof { reveal_strlit("aac"); }
                "aac"
            },
            MediaFormat::Ogg => {
                proof { reveal_strlit("ogg"); }
                "ogg"
            },
            MediaFormat::Opus => {
                proof { reveal_strlit("opus"); }
                "opus"
            },
            MediaFormat::Wav => {
                proof { reveal_strlit("wav"); }
                "wav"
            },
            MediaFormat::Aiff => {
                proof { reveal_strlit("aiff"); }
                "aiff"
            },
            MediaFormat::Ape => {
                proof { reveal_strlit("ape"); }
                "ape"
            },
            MediaFormat::Wv => {
                proof { reveal_strlit("wv"); }
                "wv"
            },
            MediaFormat::Wma => {
                proof { reveal_strlit("wma"); }
                "wma"
            },
            MediaFormat::Dsf => {
                proof { reveal_strlit("dsf"); }
                "dsf"
            },
            MediaFormat::Dff => {
                proof { reveal_strlit("dff"); }
                "dff"
            },
            MediaFormat::Other => {
                proof { reveal_strlit("other"); }
                "other"
            },
        }
    }

    /// Reads back a name produced by [`MediaFormat::as_str`]; unknown names give `Other`.
    pub fn from_str_lossy(s: &str) -> (r: Self)
        ensures
            r == format_of_name(s@),
    {
        let v = chars_of(s);
        format_named(&v)
    }

    /// The format of a file extension, in any ASCII letter case; `None` when unsupported.
    pub fn from_extension(ext: &str) -> (r: Option<Self>)
        ensures
            r == format_of_extension(lower_seq(ext@)),
    {
        let v = lower_chars(&chars_of(ext));
        format_of_lower_extension(&v)
    }

    /// The format of a path by the extension of its last component; `None`
    /// without an extension or when it is unsupported.
    pub fn from_path(path: &str) -> (r: Option<Self>)
        ensures
            r == format_of_path(path@),
    {
        match extension_chars(path) {
            Some(e) => format_of_lower_extension(&lower_chars(&e)),
            None => None,
        }
    }

    /// Whether the codec is lossless.
    pub fn is_lossless(&self) -> (r: bool)
        ensures
            r == lossless(*self),
    {
        match self {
            MediaFormat::Flac | MediaFormat::Wav | MediaFormat::Aiff | MediaFormat::Ape | MediaFormat::Wv
            | MediaFormat::Dsf | MediaFormat::Dff => true,
            _ => false,
        }
    }
}

/// Reading back the name of a format gives the format again, and distinct
/// formats have distinct names.
pub proof fn lemma_format_name_round_trip(f: MediaFormat, g: MediaFormat)
    ensures
        format_of_name(format_name(f)) == f,
        f != g ==> format_name(f) != format_name(g),
{
}

/// Every supported extension names a real format: `from_extension` never
/// yields `Other`.
pub proof fn lemma_extension_never_other(e: Seq<char>)
    ensures
        format_of_extension(e) != Some(MediaFormat::Other),
{
}

/// Where a virtual track lies inside a whole-album audio file described by a CUE sheet.
#[derive(Debug, Clone, PartialEq, Eq)]
pub struct CueSource {
    /// The CUE sheet's path.
    pub cue_path: String,
    /// TRACK number within the sheet (from 01).
    pub cue_index: u32,
    /// Track start (INDEX 01).
    pub start_ms: u64,
    /// Track end (the next track's start); `None` for the last track of a file.
    pub end_ms: Option<u64>,
}

/// A library track. Times are RFC 3339 text in UTC.
#[derive(Debug, Clone, PartialEq, Eq)]
pub struct Track {
    pub id: String,
    /// The audio file (for a CUE virtual track, the whole-album file).
    pub path: String,
    pub title: String,
    pub artist: Option<String>,
    pub album_artist: Option<String>,
    pub album: Option<String>,
    pub track_number: Option<u32>,
    pub disc_number: Option<u32>,
    pub year: Option<u32>,
    pub genre: Option<String>,
    pub duration_ms: u64,
    pub format: MediaFormat,
    /// kbps, 0 when unknown.
    pub bitrate: u32,
    /// Hz, 0 when unknown.
    pub sample_rate: u32,
    pub bit_depth: Option<u8>,
    pub channels: Option<u8>,
    pub is_lossless: bool,
    pub has_embedded_cover: bool,
    pub play_count: u32,
    pub last_played: Option<String>,
    pub date_added: String,
    pub file_modified: String,
    /// Set for CUE virtual tracks.
    pub cue_source: Option<CueSource>,
}

/// Calls `uuid::Uuid::new_v4` and formats it (hyphenated, 36 characters).
#[verifier::external_body]
pub(crate) fn new_id() -> (r: String)
    ensures
        r@.len() == 36,
{
    uuid::Uuid::new_v4().to_string()
}

/// Calls `chrono::Utc::now` and formats the time as RFC 3339 (nothing is
/// claimed of which time it is).
#[verifier::external_body]
pub(crate) fn now_text() -> (r: String) {
    chrono::Utc::now().to_rfc3339()
}

/// A copy of an optional text.
pub(crate) fn copy_text(o: &Option<String>) -> (r: Option<String>)
    ensures
        r == *o,
{
    match o {
        Some(s) => Some(s.clone()),
        None => None,
    }
}

} // verus!

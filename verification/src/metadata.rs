//! Building a library [`Track`] from what a tag reader found in an audio
//! file: tag fields fall back to nothing (the title to the file name), stream
//! properties come from the decoder probe.

use vstd::prelude::*;

use crate::error::AppError;
use crate::paths::{file_name, file_name_chars, last_dot};
use crate::text::{chars_of, concat_str, parse_u32, parse_u32_spec, string_of, trim, trim_chars};
use crate::track::{format_of_path, lossless, new_id, now_text, MediaFormat, Track};

verus! {

/// Tag fields as read from the file's primary (or first) tag.
#[derive(Debug, Clone, PartialEq, Eq)]
pub struct TagFields {
    pub title: Option<String>,
    pub artist: Option<String>,
    pub album_artist: Option<String>,
    pub album: Option<String>,
    pub track_number: Option<u32>,
    pub disc_number: Option<u32>,
    /// The raw year text.
    pub year: Option<String>,
    pub genre: Option<String>,
    pub has_cover: bool,
}

/// Stream properties from the decoder probe.
#[derive(Debug, Clone, Copy, PartialEq, Eq)]
pub struct StreamProps {
    pub duration_ms: u64,
    pub overall_bitrate: Option<u32>,
    pub audio_bitrate: Option<u32>,
    pub sample_rate: Option<u32>,
    pub bit_depth: Option<u8>,
    pub channels: Option<u8>,
}

/// A file name without its extension (`Path::file_stem`).
pub open spec fn name_stem(n: Seq<char>) -> Seq<char> {
    let d = last_dot(n, n.len() as int);
    if d > 0 {
        n.subrange(0, d)
    } else {
        n
    }
}

/// The title of a track: a tag title that is not blank, else the file name
/// without extension, else `Unknown`.
pub open spec fn track_title(tag_title: Option<String>, path: Seq<char>) -> Seq<char> {
    match tag_title {
        Some(t) if trim(t@).len() > 0 => t@,
        _ => if file_name(path).len() > 0 {
            name_stem(file_name(path))
        } else {
            seq!['U', 'n', 'k', 'n', 'o', 'w', 'n']
        },
    }
}

/// The year a tag's year text stands for (a plain decimal number).
pub open spec fn tag_year(text: Option<String>) -> Option<u32> {
    match text {
        Some(t) => parse_u32_spec(t@),
        None => None,
    }
}

/// The bitrate: the overall one, else the audio stream's, else 0.
pub open spec fn track_bitrate(p: StreamProps) -> u32 {
    match p.overall_bitrate {
        Some(b) => b,
        None => match p.audio_bitrate {
            Some(b) => b,
            None => 0,
        },
    }
}

/// The track read from a file at `path` with the given tags and properties:
/// a fresh record (no plays, no CUE source).
pub open spec fn track_read(
    t: Track,
    path: Seq<char>,
    format: MediaFormat,
    tags: TagFields,
    props: StreamProps,
    id: Seq<char>,
    date_added: Seq<char>,
    file_modified: Seq<char>,
) -> bool {
    &&& t.id@ == id
    &&& t.path@ == path
    &&& t.title@ == track_title(tags.title, path)
    &&& t.artist == tags.artist
    &&& t.album_artist == tags.album_artist
    &&& t.album == tags.album
    &&& t.track_number == tags.track_number
    &&& t.disc_number == tags.disc_number
    &&& t.year == tag_year(tags.year)
    &&& t.genre == tags.genre
    &&& t.duration_ms == props.duration_ms
    &&& t.format == format
    &&& t.bitrate == track_bitrate(props)
    &&& t.sample_rate == (match props.sample_rate {
        Some(r) => r,
        None => 0,
    })
    &&& t.bit_depth == props.bit_depth
    &&& t.channels == props.channels
    &&& t.is_lossless == lossless(format)
    &&& t.has_embedded_cover == tags.has_cover
    &&& t.play_count == 0
    &&& t.last_played is None
    &&& t.date_added@ == date_added
    &&& t.file_modified@ == file_modified
    &&& t.cue_source is None
}

/// The text `Unknown`.
fn unknown_text() -> (r: String)
    ensures
        r@ == seq!['U', 'n', 'k', 'n', 'o', 'w', 'n'],
{
    let v: Vec<char> = vec!['U', 'n', 'k', 'n', 'o', 'w', 'n'];
    string_of(&v, 0, 7)
}

/// The title of a track (see [`track_title`]).
pub fn title_for(tag_title: Option<String>, path: &str) -> (r: String)
    ensures
        r@ == track_title(tag_title, path@),
{
    match tag_title {
        Some(t) => {
            let v = chars_of(t.as_str());
            if trim_chars(&v).len() > 0 {
                return t;
            }
        },
        None => {},
    }
    let n = file_name_chars(path);
    if n.len() == 0 {
        return unknown_text();
    }
    let mut j = n.len();
    while j > 0 && n[j - 1] != '.'
        invariant
            j <= n.len(),
            last_dot(n@, j as int) == last_dot(n@, n@.len() as int),
        decreases j,
    {
        j = j - 1;
    }
    if j > 1 {
        string_of(&n, 0, j - 1)
    } else {
        assert(n@.subrange(0, n@.len() as int) =~= n@);
        string_of(&n, 0, n.len())
    }
}

/// The format of `path`, or the error for an unsupported one.
pub fn track_format(path: &str) -> (r: Result<MediaFormat, AppError>)
    ensures
        r matches Ok(f) ==> format_of_path(path@) == Some(f),
        r is Err <==> format_of_path(path@) is None,
        r matches Err(e) ==> e matches AppError::InvalidArgument(m) && m@ == "unsupported format: "@ + path@,
{
    match MediaFormat::from_path(path) {
        Some(f) => Ok(f),
        None => Err(AppError::InvalidArgument(concat_str("unsupported format: ", path))),
    }
}

/// Assembles the track record for a file (see [`track_read`]).
pub fn track_from_tags(
    path: String,
    format: MediaFormat,
    tags: TagFields,
    props: StreamProps,
    id: String,
    date_added: String,
    file_modified: String,
) -> (r: Track)
    ensures
        track_read(r, path@, format, tags, props, id@, date_added@, file_modified@),
{
    let title = title_for(tags.title.clone(), path.as_str());
    let year = match &tags.year {
        Some(t) => {
            let v = chars_of(t.as_str());
            assert(v@.subrange(0, v@.len() as int) =~= v@);
            parse_u32(&v, 0, v.len())
        },
        None => None,
    };
    let bitrate = match props.overall_bitrate {
        Some(b) => b,
        None => match props.audio_bitrate {
            Some(b) => b,
            None => 0,
        },
    };
    let sample_rate = match props.sample_rate {
        Some(r) => r,
        None => 0,
    };
    Track {
        id,
        path,
        title,
        artist: tags.artist,
        album_artist: tags.album_artist,
        album: tags.album,
        track_number: tags.track_number,
        disc_number: tags.disc_number,
        year,
        genre: tags.genre,
        duration_ms: props.duration_ms,
        format,
        bitrate,
        sample_rate,
        bit_depth: props.bit_depth,
        channels: props.channels,
        is_lossless: format.is_lossless(),
        has_embedded_cover: tags.has_cover,
        play_count: 0,
        last_played: None,
        date_added,
        file_modified,
        cue_source: None,
    }
}

/// A fresh track record for a file: a new id, added now (see [`track_read`]).
pub fn new_track(path: String, format: MediaFormat, tags: TagFields, props: StreamProps, file_modified: String) -> (r:
    Track)
    ensures
        track_read(r, path@, format, tags, props, r.id@, r.date_added@, file_modified@),
        r.id@.len() == 36,
{
    let id = new_id();
    let now = now_text();
    track_from_tags(path, format, tags, props, id, now, file_modified)
}


/// A track's artist is its ARTIST tag and its album artist its ALBUMARTIST
/// tag: changing the album-artist tag changes the album artist only.
pub proof fn lemma_artist_is_artist_tag(
    t: Track,
    u: Track,
    path: Seq<char>,
    format: MediaFormat,
    tags: TagFields,
    other_album_artist: Option<String>,
    props: StreamProps,
    id: Seq<char>,
    date_added: Seq<char>,
    file_modified: Seq<char>,
)
    requires
        track_read(t, path, format, tags, props, id, date_added, file_modified),
        track_read(
            u,
            path,
            format,
            TagFields { album_artist: other_album_artist, ..tags },
            props,
            id,
            date_added,
            file_modified,
        ),
    ensures
        t.artist == tags.artist,
        u.artist == tags.artist,
        t.album_artist == tags.album_artist,
        u.album_artist == other_album_artist,
{
}
} // verus!

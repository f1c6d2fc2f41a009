//! Replies of the application's commands that carry library data.

use vstd::prelude::*;

use crate::cover::CoverData;
use crate::lyrics::{LyricsData, LyricsSource};
use crate::online::{base64_standard, encode_base64};

verus! {

/// A cover as sent to the UI: MIME type and base64 image data.
#[derive(Debug, Clone, PartialEq, Eq)]
pub struct CoverPayload {
    pub mime_type: String,
    pub data_base64: String,
}

/// Lyrics as sent to the UI (the LRC time tags are read by the UI).
#[derive(Debug, Clone, PartialEq, Eq)]
pub struct LyricsPayload {
    pub source: LyricsSource,
    pub text: String,
}

/// The answer to a connectivity check.
#[derive(Debug, Clone, PartialEq, Eq)]
pub struct Pong {
    pub message: String,
    pub version: String,
}

/// The cover payload: the MIME type and the image as base64.
pub fn cover_payload(cover: CoverData) -> (r: CoverPayload)
    requires
        cover.data@.len() <= usize::MAX / 2,
    ensures
        r.mime_type == cover.mime_type,
        r.data_base64@ == base64_standard(cover.data@),
{
    let data_base64 = encode_base64(cover.data.as_slice());
    CoverPayload { mime_type: cover.mime_type, data_base64 }
}

/// The lyrics payload: source and text as they are.
pub fn lyrics_payload(lyrics: LyricsData) -> (r: LyricsPayload)
    ensures
        r.source == lyrics.source,
        r.text == lyrics.text,
{
    LyricsPayload { source: lyrics.source, text: lyrics.text }
}

/// The answer to a connectivity check: `pong` and the application version.
pub fn pong(version: String) -> (r: Pong)
    ensures
        r.message@ == "pong"@,
        r.version == version,
{
    Pong { message: "pong".to_owned(), version }
}

} // verus!

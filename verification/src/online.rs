//! Online lookups, apart from the network: the lyrics query (lrclib.net),
//! the release search and cover address (MusicBrainz, Cover Art Archive),
//! how reply statuses become errors, and what the replies become.

use vstd::prelude::*;

use crate::error::AppError;
use crate::lyrics::non_blank;
use crate::text::{concat_str, trim};

verus! {

/// Lyrics found online.
#[derive(Debug, Clone, PartialEq, Eq)]
pub struct OnlineLyrics {
    /// Time-synced lyrics (LRC), if any.
    pub synced_lyrics: Option<String>,
    /// Plain-text lyrics, if any.
    pub plain_lyrics: Option<String>,
}

/// A cover found online.
#[derive(Debug, Clone, PartialEq, Eq)]
pub struct OnlineCover {
    pub mime_type: String,
    /// The image, base64-encoded.
    pub data_base64: String,
}

/// A six-bit value as a character of the standard base64 alphabet
/// (`A`-`Z`, `a`-`z`, `0`-`9`, `+`, `/`).
pub open spec fn base64_digit(v: int) -> char {
    if v < 26 {
        (65 + v) as char
    } else if v < 52 {
        (97 + v - 26) as char
    } else if v < 62 {
        (48 + v - 52) as char
    } else if v == 62 {
        '+'
    } else {
        '/'
    }
}

/// Standard base64 with padding: every three bytes, read as a 24-bit number,
/// become four digits of six bits each, most significant first; a final one
/// or two bytes become two or three digits followed by `=` padding.
pub open spec fn base64_standard(b: Seq<u8>) -> Seq<char>
    decreases b.len(),
{
    if b.len() == 0 {
        Seq::empty()
    } else if b.len() == 1 {
        let n = b[0] as int * 65536;
        seq![base64_digit(n / 262144), base64_digit(n / 4096 % 64), '=', '=']
    } else if b.len() == 2 {
        let n = b[0] as int * 65536 + b[1] as int * 256;
        seq![base64_digit(n / 262144), base64_digit(n / 4096 % 64), base64_digit(n / 64 % 64), '=']
    } else {
        let n = b[0] as int * 65536 + b[1] as int * 256 + b[2] as int;
        seq![base64_digit(n / 262144), base64_digit(n / 4096 % 64), base64_digit(n / 64 % 64), base64_digit(n % 64)]
            + base64_standard(b.subrange(3, b.len() as int))
    }
}

/// Calls `base64::Engine::encode` on the standard engine (standard alphabet,
/// with padding), whose result is [`base64_standard`]. The encoder panics
/// when the encoded length overflows `usize`, which the bound on the input
/// rules out.
#[verifier::external_body]
pub(crate) fn encode_base64(bytes: &[u8]) -> (r: String)
    requires
        bytes@.len() <= usize::MAX / 2,
    ensures
        r@ == base64_standard(bytes@),
{
    base64::Engine::encode(&base64::engine::general_purpose::STANDARD, bytes)
}

/// The query parameters of a lyrics lookup: the title, then the artist and
/// the album when given and not empty.
pub open spec fn lyrics_params(title: Seq<char>, artist: Option<Seq<char>>, album: Option<Seq<char>>) -> Seq<
    (Seq<char>, Seq<char>),
> {
    let base = seq![("track_name"@, title)];
    let with_artist = match artist {
        Some(a) if a.len() > 0 => base.push(("artist_name"@, a)),
        _ => base,
    };
    match album {
        Some(b) if b.len() > 0 => with_artist.push(("album_name"@, b)),
        _ => with_artist,
    }
}

/// The views of a list of parameter pairs.
pub open spec fn param_views(v: Seq<(String, String)>) -> Seq<(Seq<char>, Seq<char>)> {
    v.map_values(|p: (String, String)| (p.0@, p.1@))
}

/// The query parameters of a lyrics lookup (see [`lyrics_params`]).
pub fn lyrics_query(title: &str, artist: Option<&str>, album: Option<&str>) -> (r: Vec<(String, String)>)
    ensures
        param_views(r@) == lyrics_params(
            title@,
            match artist {
                Some(a) => Some(a@),
                None => None,
            },
            match album {
                Some(b) => Some(b@),
                None => None,
            },
        ),
{
    let mut out: Vec<(String, String)> = Vec::new();
    out.push(("track_name".to_owned(), title.to_owned()));
    let ghost base = param_views(out@);
    assert(base =~= seq![("track_name"@, title@)]);
    match artist {
        Some(a) => if !a.is_empty() {
            out.push(("artist_name".to_owned(), a.to_owned()));
        },
        None => {},
    }
    let ghost mid = param_views(out@);
    assert(mid =~= (match artist {
        Some(a) if a@.len() > 0 => base.push(("artist_name"@, a@)),
        _ => base,
    }));
    match album {
        Some(b) => if !b.is_empty() {
            out.push(("album_name".to_owned(), b.to_owned()));
        },
        None => {},
    }
    assert(param_views(out@) =~= (match album {
        Some(b) if b@.len() > 0 => mid.push(("album_name"@, b@)),
        _ => mid,
    }));
    out
}

/// Judges a reply status: 404 with a not-found message is that not-found
/// error; 2xx is success; anything else fails with `<service> returned
/// status <status>`.
pub fn check_status(code: u16, status_text: &str, not_found: Option<&str>, service: &str) -> (r: Result<(), AppError>)
    ensures
        code == 404 && not_found is Some ==> (r matches Err(AppError::NotFound(m)) && m@ == not_found->0@),
        !(code == 404 && not_found is Some) && 200 <= code < 300 ==> r is Ok,
        !(code == 404 && not_found is Some) && !(200 <= code < 300) ==> (r matches Err(AppError::Other(m)) && m@
            == service@ + " returned status "@ + status_text@),
{
    if code == 404 {
        match not_found {
            Some(m) => {
                return Err(AppError::NotFound(m.to_owned()));
            },
            None => {},
        }
    }
    if 200 <= code && code < 300 {
        Ok(())
    } else {
        let head = concat_str(service, " returned status ");
        Err(AppError::Other(concat_str(head.as_str(), status_text)))
    }
}

/// What a lyrics reply becomes: an error when it has neither kind of lyrics,
/// else both kinds with blank ones dropped.
pub fn lyrics_outcome(synced: Option<String>, plain: Option<String>) -> (r: Result<OnlineLyrics, AppError>)
    ensures
        synced is None && plain is None ==> (r matches Err(AppError::NotFound(m)) && m@
            == "no lyrics content in response"@),
        !(synced is None && plain is None) ==> (r matches Ok(l) && l.synced_lyrics == (match synced {
            Some(s) if trim(s@).len() > 0 => Some(s),
            _ => None,
        }) && l.plain_lyrics == (match plain {
            Some(s) if trim(s@).len() > 0 => Some(s),
            _ => None,
        })),
{
    if synced.is_none() && plain.is_none() {
        return Err(AppError::NotFound("no lyrics content in response".to_owned()));
    }
    let synced_lyrics = match synced {
        Some(s) => non_blank(s),
        None => None,
    };
    let plain_lyrics = match plain {
        Some(s) => non_blank(s),
        None => None,
    };
    Ok(OnlineLyrics { synced_lyrics, plain_lyrics })
}

/// The MusicBrainz release search for an artist and album.
pub fn release_query(artist: &str, album: &str) -> (r: String)
    ensures
        r@ == "artist:\""@ + artist@ + "\" AND release:\""@ + album@ + "\""@,
{
    let a = concat_str("artist:\"", artist);
    let b = concat_str(a.as_str(), "\" AND release:\"");
    let c = concat_str(b.as_str(), album);
    concat_str(c.as_str(), "\"")
}

/// The first release found, or the error when there is none.
pub fn first_release(ids: Vec<String>) -> (r: Result<String, AppError>)
    ensures
        ids@.len() > 0 ==> r == Ok::<String, AppError>(ids@[0]),
        ids@.len() == 0 ==> (r matches Err(AppError::NotFound(m)) && m@ == "no matching release on MusicBrainz"@),
{
    if ids.len() == 0 {
        return Err(AppError::NotFound("no matching release on MusicBrainz".to_owned()));
    }
    let mut ids = ids;
    Ok(ids.swap_remove(0))
}

/// The address of a release's front cover (500 px) at the Cover Art Archive.
pub fn cover_art_url(release_id: &str) -> (r: String)
    ensures
        r@ == "https://coverartarchive.org/release/"@ + release_id@ + "/front-500"@,
{
    let a = concat_str("https://coverartarchive.org/release/", release_id);
    concat_str(a.as_str(), "/front-500")
}

/// A downloaded cover: the reply's content type (`image/jpeg` when absent) and
/// the image encoded as base64.
pub fn online_cover(content_type: Option<String>, bytes: &[u8]) -> (r: OnlineCover)
    requires
        bytes@.len() <= usize::MAX / 2,
    ensures
        r.mime_type@ == (match content_type {
            Some(t) => t@,
            None => "image/jpeg"@,
        }),
        r.data_base64@ == base64_standard(bytes@),
{
    let mime_type = match content_type {
        Some(t) => t,
        None => "image/jpeg".to_owned(),
    };
    OnlineCover { mime_type, data_base64: encode_base64(bytes) }
}

} // verus!

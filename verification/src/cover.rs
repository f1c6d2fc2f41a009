//! Cover art: an embedded picture comes first, then a local image file next
//! to the audio file (`cover`, `folder`, `front` × `jpg`, `jpeg`, `png`,
//! `webp`, in that order); empty images count as none.

use vstd::prelude::*;

verus! {

/// Cover image bytes and their MIME type.
#[derive(Debug, Clone, PartialEq, Eq)]
pub struct CoverData {
    pub mime_type: String,
    pub data: Vec<u8>,
}

/// A representative cover colour (sRGB).
#[derive(Debug, Clone, Copy, PartialEq, Eq, Structural)]
pub struct CoverColor {
    pub r: u8,
    pub g: u8,
    pub b: u8,
}

/// The local cover file names, in the order they are tried, with their MIME types.
pub open spec fn local_candidates() -> Seq<(Seq<char>, Seq<char>)> {
    seq![
        ("cover.jpg"@, "image/jpeg"@),
        ("cover.jpeg"@, "image/jpeg"@),
        ("cover.png"@, "image/png"@),
        ("cover.webp"@, "image/webp"@),
        ("folder.jpg"@, "image/jpeg"@),
        ("folder.jpeg"@, "image/jpeg"@),
        ("folder.png"@, "image/png"@),
        ("folder.webp"@, "image/webp"@),
        ("front.jpg"@, "image/jpeg"@),
        ("front.jpeg"@, "image/jpeg"@),
        ("front.png"@, "image/png"@),
        ("front.webp"@, "image/webp"@),
    ]
}

/// The views of a list of name/MIME pairs.
pub open spec fn pair_views(v: Seq<(String, String)>) -> Seq<(Seq<char>, Seq<char>)> {
    v.map_values(|p: (String, String)| (p.0@, p.1@))
}

/// The local cover file names to try, in order, with their MIME types.
pub fn local_cover_candidates() -> (r: Vec<(String, String)>)
    ensures
        pair_views(r@) == local_candidates(),
{
    let mut out: Vec<(String, String)> = Vec::new();
    out.push(("cover.jpg".to_owned(), "image/jpeg".to_owned()));
    out.push(("cover.jpeg".to_owned(), "image/jpeg".to_owned()));
    out.push(("cover.png".to_owned(), "image/png".to_owned()));
    out.push(("cover.webp".to_owned(), "image/webp".to_owned()));
    out.push(("folder.jpg".to_owned(), "image/jpeg".to_owned()));
    out.push(("folder.jpeg".to_owned(), "image/jpeg".to_owned()));
    out.push(("folder.png".to_owned(), "image/png".to_owned()));
    out.push(("folder.webp".to_owned(), "image/webp".to_owned()));
    out.push(("front.jpg".to_owned(), "image/jpeg".to_owned()));
    out.push(("front.jpeg".to_owned(), "image/jpeg".to_owned()));
    out.push(("front.png".to_owned(), "image/png".to_owned()));
    out.push(("front.webp".to_owned(), "image/webp".to_owned()));
    assert(pair_views(out@) =~= local_candidates());
    out
}

/// A cover from image bytes: none when the bytes are empty.
pub fn cover_from(mime_type: String, data: Vec<u8>) -> (r: Option<CoverData>)
    ensures
        data@.len() == 0 ==> r is None,
        data@.len() > 0 ==> r == Some(CoverData { mime_type, data }),
{
    if data.len() == 0 {
        None
    } else {
        Some(CoverData { mime_type, data })
    }
}

/// An embedded picture as a cover: its MIME type, `image/jpeg` when the tag
/// names none; none when the picture is empty.
pub fn embedded_cover(mime_type: Option<String>, data: Vec<u8>) -> (r: Option<CoverData>)
    ensures
        data@.len() == 0 ==> r is None,
        data@.len() > 0 ==> (r matches Some(c) && c.data == data && c.mime_type@ == (match mime_type {
            Some(m) => m@,
            None => "image/jpeg"@,
        })),
{
    let mime = match mime_type {
        Some(m) => m,
        None => "image/jpeg".to_owned(),
    };
    cover_from(mime, data)
}

/// The file extension for a cover written to disk under its MIME type.
pub fn cover_file_ext(mime_type: &str) -> (r: &'static str)
    ensures
        r@ == (if mime_type@ == "image/png"@ {
            "png"@
        } else if mime_type@ == "image/webp"@ {
            "webp"@
        } else {
            "jpg"@
        }),
{
    let v = crate::text::chars_of(mime_type);
    if crate::text::chars_eq(&v, crate::text::chars_of("image/png").as_slice()) {
        "png"
    } else if crate::text::chars_eq(&v, crate::text::chars_of("image/webp").as_slice()) {
        "webp"
    } else {
        "jpg"
    }
}

} // verus!

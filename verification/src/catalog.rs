//! The library catalogue's rules, apart from the database that stores it:
//! list-query planning (whitelisted sorting, clamped page sizes, phrase or
//! pattern search), stable album identifiers, playlist names and edits, and
//! the result records the queries return.

use vstd::prelude::*;

use crate::error::AppError;
use crate::text::{chars_of, concat_str, push_char, string_of, trim, trim_chars};

verus! {

/// Parameters of a track list query.
#[derive(Debug, Clone, PartialEq, Eq)]
pub struct ListQuery {
    pub offset: u32,
    pub limit: u32,
    pub sort_by: Option<String>,
    pub sort_dir: Option<String>,
    pub search: Option<String>,
}

impl Default for ListQuery {
    fn default() -> (r: Self)
        ensures
            r.offset == 0,
            r.limit == 0,
            r.sort_by is None,
            r.sort_dir is None,
            r.search is None,
    {
        ListQuery { offset: 0, limit: 0, sort_by: None, sort_dir: None, search: None }
    }
}

/// One page of a track list and the number of matching tracks.
#[derive(Debug, Clone, PartialEq, Eq)]
pub struct TrackPage {
    pub tracks: Vec<crate::track::Track>,
    pub total: u64,
}

/// Library totals.
#[derive(Debug, Clone, Copy, PartialEq, Eq)]
pub struct LibraryStats {
    pub track_count: u64,
    pub total_duration_ms: u64,
    pub lossless_count: u64,
}

/// One album: tracks grouped by album name and album artist (`None` for unknown).
#[derive(Debug, Clone, PartialEq, Eq)]
pub struct AlbumSummary {
    /// Stable identifier (see [`album_id`]).
    pub id: String,
    pub name: Option<String>,
    pub album_artist: Option<String>,
    pub year: Option<u32>,
    pub track_count: u64,
    pub total_duration_ms: u64,
    /// The album's first track, whose cover stands for the album.
    pub cover_track_id: String,
}

/// One artist (`None` for unknown).
#[derive(Debug, Clone, PartialEq, Eq)]
pub struct ArtistSummary {
    pub name: Option<String>,
    pub album_count: u64,
    pub track_count: u64,
    pub total_duration_ms: u64,
}

/// A playlist with its size; times are RFC 3339 text.
#[derive(Debug, Clone, PartialEq, Eq)]
pub struct PlaylistSummary {
    pub id: String,
    pub name: String,
    pub description: Option<String>,
    pub track_count: u64,
    pub created_at: String,
    pub updated_at: String,
}

/// Listening statistics.
#[derive(Debug, Clone, PartialEq, Eq)]
pub struct StatsSummary {
    pub track_count: u64,
    pub total_duration_ms: u64,
    pub lossless_count: u64,
    /// Sum of all play counts.
    pub total_plays: u64,
    /// Tracks played at least once.
    pub played_count: u64,
    /// Tracks per format.
    pub formats: Vec<FormatCount>,
}

/// The number of tracks of one format.
#[derive(Debug, Clone, PartialEq, Eq)]
pub struct FormatCount {
    pub format: String,
    pub count: u64,
}

/// Columns a track list can be sorted by.
#[derive(Debug, Clone, Copy, PartialEq, Eq, Structural)]
pub enum SortColumn {
    Title,
    Artist,
    Album,
    Duration,
    PlayCount,
    DateAdded,
}

/// Sort direction.
#[derive(Debug, Clone, Copy, PartialEq, Eq, Structural)]
pub enum SortDir {
    Asc,
    Desc,
}

/// How a list query searches.
#[derive(Debug, Clone, PartialEq, Eq)]
pub enum SearchPlan {
    /// No search: all tracks.
    All,
    /// Full-text phrase match (the quoted phrase).
    Phrase(String),
    /// Substring match on title, artist and album (the escaped `LIKE` pattern).
    Like(String),
}

/// A checked list query.
#[derive(Debug, Clone, PartialEq, Eq)]
pub struct ListPlan {
    pub column: SortColumn,
    pub dir: SortDir,
    pub search: SearchPlan,
    pub limit: u32,
    pub offset: u32,
}

/// The column a `sortBy` name selects (`dateAdded` when absent).
pub open spec fn column_named(name: Option<String>) -> Option<SortColumn> {
    match name {
        None => Some(SortColumn::DateAdded),
        Some(n) => if n@ == "title"@ {
            Some(SortColumn::Title)
        } else if n@ == "artist"@ {
            Some(SortColumn::Artist)
        } else if n@ == "album"@ {
            Some(SortColumn::Album)
        } else if n@ == "durationMs"@ {
            Some(SortColumn::Duration)
        } else if n@ == "playCount"@ {
            Some(SortColumn::PlayCount)
        } else if n@ == "dateAdded"@ {
            Some(SortColumn::DateAdded)
        } else {
            None
        },
    }
}

/// The direction a `sortDir` name selects (`desc` when absent).
pub open spec fn dir_named(name: Option<String>) -> Option<SortDir> {
    match name {
        None => Some(SortDir::Desc),
        Some(n) => if n@ == "asc"@ {
            Some(SortDir::Asc)
        } else if n@ == "desc"@ {
            Some(SortDir::Desc)
        } else {
            None
        },
    }
}

/// The `LIKE` escape of one character: `\`, `%` and `_` get a backslash.
pub open spec fn like_char(c: char) -> Seq<char> {
    if c == '\\' || c == '%' || c == '_' {
        seq!['\\', c]
    } else {
        seq![c]
    }
}

/// `s` with every `LIKE` wildcard and the escape character escaped.
pub open spec fn like_escaped(s: Seq<char>) -> Seq<char>
    decreases s.len(),
{
    if s.len() == 0 {
        s
    } else {
        like_escaped(s.drop_last()) + like_char(s.last())
    }
}

/// `s` with each `"` doubled.
pub open spec fn quotes_doubled(s: Seq<char>) -> Seq<char>
    decreases s.len(),
{
    if s.len() == 0 {
        s
    } else {
        quotes_doubled(s.drop_last()) + (if s.last() == '"' { seq!['"', '"'] } else { seq![s.last()] })
    }
}

/// The search text of a query, trimmed, when not blank.
pub open spec fn search_text(search: Option<String>) -> Option<Seq<char>> {
    match search {
        Some(s) if trim(s@).len() > 0 => Some(trim(s@)),
        _ => None,
    }
}

/// The search a query text asks for: nothing when blank; a full-text phrase
/// for three or more characters (the trigram index needs three); else a
/// substring pattern.
pub open spec fn search_planned(search: Option<String>, p: SearchPlan) -> bool {
    match search_text(search) {
        None => p == SearchPlan::All,
        Some(t) => if t.len() >= 3 {
            p matches SearchPlan::Phrase(q) && q@ == seq!['"'] + quotes_doubled(t) + seq!['"']
        } else {
            p matches SearchPlan::Like(q) && q@ == seq!['%'] + like_escaped(t) + seq!['%']
        },
    }
}

/// `v` clamped into `lo..=hi`.
pub open spec fn clamped(v: u32, lo: u32, hi: u32) -> u32 {
    if v < lo {
        lo
    } else if v > hi {
        hi
    } else {
        v
    }
}

/// `LIKE` escaping (see [`like_escaped`]).
pub fn like_escape(s: &str) -> (r: String)
    ensures
        r@ == like_escaped(s@),
{
    let v = chars_of(s);
    let mut out = String::new();
    let mut i: usize = 0;
    while i < v.len()
        invariant
            i <= v.len(),
            out@ == like_escaped(v@.take(i as int)),
        decreases v.len() - i,
    {
        let c = v[i];
        assert(v@.take(i + 1).drop_last() =~= v@.take(i as int));
        if c == '\\' || c == '%' || c == '_' {
            push_char(&mut out, '\\');
        }
        push_char(&mut out, c);
        assert(out@ =~= like_escaped(v@.take(i + 1)));
        i = i + 1;
    }
    assert(v@.take(v@.len() as int) =~= v@);
    out
}

/// Text from characters `v`, quoted as a full-text phrase.
fn phrase_of(v: &Vec<char>) -> (r: String)
    ensures
        r@ == seq!['"'] + quotes_doubled(v@) + seq!['"'],
{
    let mut out = String::new();
    push_char(&mut out, '"');
    let mut i: usize = 0;
    while i < v.len()
        invariant
            i <= v.len(),
            out@ == seq!['"'] + quotes_doubled(v@.take(i as int)),
        decreases v.len() - i,
    {
        let c = v[i];
        assert(v@.take(i + 1).drop_last() =~= v@.take(i as int));
        if c == '"' {
            push_char(&mut out, '"');
        }
        push_char(&mut out, c);
        assert(out@ =~= seq!['"'] + quotes_doubled(v@.take(i + 1)));
        i = i + 1;
    }
    assert(v@.take(v@.len() as int) =~= v@);
    push_char(&mut out, '"');
    out
}

/// The search part of a list query .
pub fn plan_search(search: &Option<String>) -> (r: SearchPlan)
    ensures
        search_planned(*search, r),
{
    match search {
        None => SearchPlan::All,
        Some(s) => {
            let t = trim_chars(&chars_of(s.as_str()));
            if t.len() == 0 {
                SearchPlan::All
            } else if t.len() >= 3 {
                SearchPlan::Phrase(phrase_of(&t))
            } else {
                let text = string_of(&t, 0, t.len());
                assert(t@.subrange(0, t@.len() as int) =~= t@);
                let mut out = String::new();
                push_char(&mut out, '%');
                let esc = like_escape(text.as_str());
                let mut both = concat_str(out.as_str(), esc.as_str());
                push_char(&mut both, '%');
                assert(out@ =~= seq!['%']);
                assert(both@ =~= seq!['%'] + like_escaped(t@) + seq!['%']);
                SearchPlan::Like(both)
            }
        },
    }
}

/// The sort column of a query, or the error for an unknown name.
pub fn sort_column(sort_by: &Option<String>) -> (r: Result<SortColumn, AppError>)
    ensures
        r matches Ok(c) ==> column_named(*sort_by) == Some(c),
        r is Err <==> column_named(*sort_by) is None,
        r matches Err(e) ==> e matches AppError::InvalidArgument(m) && m@ == "unsupported sortBy: "@ + sort_by->0@,
{
    match sort_by {
        None => Ok(SortColumn::DateAdded),
        Some(n) => {
            let v = chars_of(n.as_str());
            if crate::text::chars_eq(&v, chars_of("title").as_slice()) {
                Ok(SortColumn::Title)
            } else if crate::text::chars_eq(&v, chars_of("artist").as_slice()) {
                Ok(SortColumn::Artist)
            } else if crate::text::chars_eq(&v, chars_of("album").as_slice()) {
                Ok(SortColumn::Album)
            } else if crate::text::chars_eq(&v, chars_of("durationMs").as_slice()) {
                Ok(SortColumn::Duration)
            } else if crate::text::chars_eq(&v, chars_of("playCount").as_slice()) {
                Ok(SortColumn::PlayCount)
            } else if crate::text::chars_eq(&v, chars_of("dateAdded").as_slice()) {
                Ok(SortColumn::DateAdded)
            } else {
                Err(AppError::InvalidArgument(concat_str("unsupported sortBy: ", n.as_str())))
            }
        },
    }
}

/// The sort direction of a query, or the error for an unknown name.
pub fn sort_direction(sort_dir: &Option<String>) -> (r: Result<SortDir, AppError>)
    ensures
        r matches Ok(d) ==> dir_named(*sort_dir) == Some(d),
        r is Err <==> dir_named(*sort_dir) is None,
        r matches Err(e) ==> e matches AppError::InvalidArgument(m) && m@ == "unsupported sortDir: "@ + sort_dir->0@,
{
    match sort_dir {
        None => Ok(SortDir::Desc),
        Some(n) => {
            let v = chars_of(n.as_str());
            if crate::text::chars_eq(&v, chars_of("asc").as_slice()) {
                Ok(SortDir::Asc)
            } else if crate::text::chars_eq(&v, chars_of("desc").as_slice()) {
                Ok(SortDir::Desc)
            } else {
                Err(AppError::InvalidArgument(concat_str("unsupported sortDir: ", n.as_str())))
            }
        },
    }
}

impl SortColumn {
    /// The SQL ordering term of the column (text columns ignore letter case).
    pub fn sql(&self) -> (r: &'static str)
        ensures
            r@ == (match *self {
                SortColumn::Title => "title COLLATE NOCASE"@,
                SortColumn::Artist => "artist COLLATE NOCASE"@,
                SortColumn::Album => "album COLLATE NOCASE"@,
                SortColumn::Duration => "duration_ms"@,
                SortColumn::PlayCount => "play_count"@,
                SortColumn::DateAdded => "date_added"@,
            }),
    {
        match self {
            SortColumn::Title => "title COLLATE NOCASE",
            SortColumn::Artist => "artist COLLATE NOCASE",
            SortColumn::Album => "album COLLATE NOCASE",
            SortColumn::Duration => "duration_ms",
            SortColumn::PlayCount => "play_count",
            SortColumn::DateAdded => "date_added",
        }
    }
}

impl SortDir {
    /// The SQL keyword of the direction.
    pub fn sql(&self) -> (r: &'static str)
        ensures
            r@ == (match *self {
                SortDir::Asc => "ASC"@,
                SortDir::Desc => "DESC"@,
            }),
    {
        match self {
            SortDir::Asc => "ASC",
            SortDir::Desc => "DESC",
        }
    }
}

/// A page size: at least 1, at most 1000.
pub fn page_limit(limit: u32) -> (r: u32)
    ensures
        r == clamped(limit, 1, 1000),
{
    if limit < 1 {
        1
    } else if limit > 1000 {
        1000
    } else {
        limit
    }
}

/// The size of a recently/most played list: at least 1, at most 500.
pub fn played_limit(limit: u32) -> (r: u32)
    ensures
        r == clamped(limit, 1, 500),
{
    if limit < 1 {
        1
    } else if limit > 500 {
        500
    } else {
        limit
    }
}

/// Checks a list query: sort column and direction must be known names
/// (the column is checked first); the page size is clamped; the search is planned.
pub fn plan_list(q: &ListQuery) -> (r: Result<ListPlan, AppError>)
    ensures
        r is Ok <==> column_named(q.sort_by) is Some && dir_named(q.sort_dir) is Some,
        r matches Ok(p) ==> Some(p.column) == column_named(q.sort_by) && Some(p.dir) == dir_named(q.sort_dir)
            && search_planned(q.search, p.search) && p.limit == clamped(q.limit, 1, 1000) && p.offset == q.offset,
        column_named(q.sort_by) is None ==> (r matches Err(e) && e matches AppError::InvalidArgument(m) && m@
            == "unsupported sortBy: "@ + q.sort_by->0@),
        column_named(q.sort_by) is Some && dir_named(q.sort_dir) is None ==> (r matches Err(e)
            && e matches AppError::InvalidArgument(m) && m@ == "unsupported sortDir: "@ + q.sort_dir->0@),
{
    let column = match sort_column(&q.sort_by) {
        Ok(c) => c,
        Err(e) => return Err(e),
    };
    let dir = match sort_direction(&q.sort_dir) {
        Ok(d) => d,
        Err(e) => return Err(e),
    };
    Ok(ListPlan { column, dir, search: plan_search(&q.search), limit: page_limit(q.limit), offset: q.offset })
}

/// The `LIKE` prefix pattern of the paths under a directory (trailing
/// separators dropped, then `%`).
pub open spec fn under_pattern(dir: Seq<char>) -> Seq<char> {
    dir.subrange(0, crate::paths::trimmed_end(dir, dir.len() as int)) + seq!['%']
}

/// The pattern matching every path under `dir` (see [`under_pattern`]).
pub fn paths_under_pattern(dir: &str) -> (r: String)
    ensures
        r@ == under_pattern(dir@),
{
    let v = chars_of(dir);
    let mut e = v.len();
    while e > 0 && (v[e - 1] == '/' || v[e - 1] == '\\')
        invariant
            e <= v.len(),
            crate::paths::trimmed_end(v@, e as int) == crate::paths::trimmed_end(v@, v@.len() as int),
        decreases e,
    {
        e = e - 1;
    }
    let mut out = string_of(&v, 0, e);
    push_char(&mut out, '%');
    out
}

/// The settings key under which a video's resume position is kept.
pub fn video_position_key(path: &str) -> (r: String)
    ensures
        r@ == "vpos:"@ + path@,
{
    concat_str("vpos:", path)
}

/// A playlist name: trimmed, and refused when blank.
pub fn playlist_name(name: &str) -> (r: Result<String, AppError>)
    ensures
        r is Ok <==> trim(name@).len() > 0,
        r matches Ok(n) ==> n@ == trim(name@),
        r matches Err(e) ==> e matches AppError::InvalidArgument(m) && m@ == "playlist name is empty"@,
{
    let t = trim_chars(&chars_of(name));
    if t.len() == 0 {
        return Err(AppError::InvalidArgument("playlist name is empty".to_owned()));
    }
    assert(t@.subrange(0, t@.len() as int) =~= t@);
    Ok(string_of(&t, 0, t.len()))
}

/// A playlist description: trimmed, and dropped when blank.
pub fn playlist_description(description: Option<&str>) -> (r: Option<String>)
    ensures
        r == (match description {
            Some(d) if trim(d@).len() > 0 => Some(r->0),
            _ => None::<String>,
        }),
        r matches Some(d) ==> d@ == trim(description->0@),
{
    match description {
        None => None,
        Some(d) => {
            let t = trim_chars(&chars_of(d));
            if t.len() == 0 {
                None
            } else {
                assert(t@.subrange(0, t@.len() as int) =~= t@);
                Some(string_of(&t, 0, t.len()))
            }
        },
    }
}

/// A playlist without the entry at `index`; `None` (nothing to do) outside the list.
pub fn playlist_without(ids: Vec<String>, index: usize) -> (r: Option<Vec<String>>)
    ensures
        index >= ids@.len() ==> r is None,
        index < ids@.len() ==> (r matches Some(v) && v@ == ids@.remove(index as int)),
{
    if index >= ids.len() {
        return None;
    }
    let mut ids = ids;
    ids.remove(index);
    Some(ids)
}

/// A playlist with the entry at `from` moved to `to`; `None` (nothing to do)
/// when either is outside the list or they are equal.
pub fn playlist_moved(ids: Vec<String>, from: usize, to: usize) -> (r: Option<Vec<String>>)
    ensures
        (from >= ids@.len() || to >= ids@.len() || from == to) ==> r is None,
        !(from >= ids@.len() || to >= ids@.len() || from == to) ==> (r matches Some(v) && v@ == ids@.remove(
            from as int,
        ).insert(to as int, ids@[from as int])),
{
    if from >= ids.len() || to >= ids.len() || from == to {
        return None;
    }
    let mut ids = ids;
    let item = ids.remove(from);
    ids.insert(to, item);
    Some(ids)
}

/// The ids whose flag in `known` is set, in order, repeats kept.
pub open spec fn kept(ids: Seq<String>, known: Seq<bool>) -> Seq<String>
    decreases ids.len(),
{
    if ids.len() == 0 || known.len() < ids.len() {
        Seq::empty()
    } else if known[ids.len() - 1] {
        kept(ids.drop_last(), known.subrange(0, ids.len() - 1)).push(ids.last())
    } else {
        kept(ids.drop_last(), known.subrange(0, ids.len() - 1))
    }
}

/// The error for a playlist that does not exist.
pub open spec fn playlist_missing(id: Seq<char>) -> Seq<char> {
    "playlist "@ + id
}

/// The rows that appending `ids` to playlist `id` writes: the ids whose flag
/// in `known` is set (those in the library), in order, repeats kept, numbered
/// from `start` (the end of the playlist). A playlist that does not exist is
/// `NotFound`.
pub fn playlist_appended(id: &str, exists: bool, ids: Vec<String>, known: Vec<bool>, start: i64) -> (r: Result<
    Vec<(String, i64)>,
    AppError,
>)
    requires
        known@.len() == ids@.len(),
        0 <= start,
        start + ids@.len() <= i64::MAX,
    ensures
        !exists ==> (r matches Err(AppError::NotFound(m)) && m@ == playlist_missing(id@)),
        exists ==> (r matches Ok(v) && v@.len() == kept(ids@, known@).len() && forall|k: int|
            0 <= k < v@.len() ==> #[trigger] v@[k].0 == kept(ids@, known@)[k] && v@[k].1 == start + k),
{
    if !exists {
        return Err(AppError::NotFound(concat_str("playlist ", id)));
    }
    let ghost g_ids = ids@;
    let ghost g_known = known@;
    let mut rest = ids;
    let mut out: Vec<(String, i64)> = Vec::new();
    let mut i: usize = 0;
    while rest.len() > 0
        invariant
            i + rest@.len() == g_ids.len(),
            rest@ == g_ids.skip(i as int),
            g_known == known@,
            g_known.len() == g_ids.len(),
            0 <= start,
            start + g_ids.len() <= i64::MAX,
            out@.len() == kept(g_ids.take(i as int), g_known.take(i as int)).len(),
            out@.len() <= i,
            forall|k: int|
                0 <= k < out@.len() ==> #[trigger] out@[k].0 == kept(g_ids.take(i as int), g_known.take(i as int))[k]
                    && out@[k].1 == start + k,
        decreases rest.len(),
    {
        let t = rest.remove(0);
        proof {
            assert(t == g_ids[i as int]);
            assert(rest@ =~= g_ids.skip(i + 1));
            assert(g_ids.take(i + 1).drop_last() =~= g_ids.take(i as int));
            assert(g_known.take(i + 1).subrange(0, i as int) =~= g_known.take(i as int));
            assert(g_ids.take(i + 1).last() == t);
            assert(g_known.take(i + 1)[i as int] == g_known[i as int]);
        }
        let ghost prev = kept(g_ids.take(i as int), g_known.take(i as int));
        let ghost next = kept(g_ids.take(i + 1), g_known.take(i + 1));
        if known[i] {
            assert(next == prev.push(t));
            let pos = start + out.len() as i64;
            out.push((t, pos));
        } else {
            assert(next == prev);
        }
        i = i + 1;
    }
    proof {
        assert(g_ids.take(i as int) =~= g_ids);
        assert(g_known.take(i as int) =~= g_known);
    }
    Ok(out)
}

/// FNV-1a 64-bit offset basis.
pub const FNV_OFFSET: u64 = 0xcbf2_9ce4_8422_2325;

/// FNV-1a 64-bit prime.
pub const FNV_PRIME: u64 = 0x0000_0100_0000_01b3;

/// One FNV-1a step: xor the byte in, multiply by the prime modulo 2^64.
pub open spec fn fnv_step(h: u64, b: u8) -> u64 {
    vstd::wrapping::u64_specs::wrapping_mul(h ^ (b as u64), FNV_PRIME)
}

/// FNV-1a of `bytes` from the state `h`.
pub open spec fn fnv1a(h: u64, bytes: Seq<u8>) -> u64
    decreases bytes.len(),
{
    if bytes.len() == 0 {
        h
    } else {
        fnv_step(fnv1a(h, bytes.drop_last()), bytes.last())
    }
}

/// The bytes standing for an optional field: its UTF-8, or a single 0 byte
/// for a missing field (so that a missing field and an empty one differ).
pub open spec fn field_bytes(f: Option<Seq<char>>) -> Seq<u8> {
    match f {
        Some(s) => vstd::utf8::encode_utf8(s),
        None => seq![0u8],
    }
}

/// The bytes an album identifier hashes: name, a unit separator (0x1f), album artist.
pub open spec fn album_key_bytes(name: Option<Seq<char>>, artist: Option<Seq<char>>) -> Seq<u8> {
    field_bytes(name) + seq![0x1fu8] + field_bytes(artist)
}

/// A lower-case hexadecimal digit.
pub open spec fn hex_digit(d: int) -> char {
    if d < 10 {
        (48 + d) as char
    } else {
        (87 + d) as char
    }
}

/// The last `n` hexadecimal digits of `h` (zero-padded).
pub open spec fn hex_fixed(h: nat, n: nat) -> Seq<char>
    decreases n,
{
    if n == 0 {
        Seq::empty()
    } else {
        hex_fixed(h / 16, (n - 1) as nat).push(hex_digit((h % 16) as int))
    }
}

/// The identifier of an album: 16 hex digits of the FNV-1a hash of its key bytes.
pub open spec fn album_id_of(name: Option<Seq<char>>, artist: Option<Seq<char>>) -> Seq<char> {
    hex_fixed(fnv1a(FNV_OFFSET, album_key_bytes(name, artist)) as nat, 16)
}

/// Continues FNV-1a over `bytes`.
fn fnv_extend(h: u64, bytes: &[u8]) -> (r: u64)
    ensures
        r == fnv1a(h, bytes@),
{
    let mut acc = h;
    let mut i: usize = 0;
    while i < bytes.len()
        invariant
            i <= bytes.len(),
            acc == fnv1a(h, bytes@.take(i as int)),
        decreases bytes.len() - i,
    {
        assert(bytes@.take(i + 1).drop_last() =~= bytes@.take(i as int));
        acc = (acc ^ (bytes[i] as u64)).wrapping_mul(FNV_PRIME);
        i = i + 1;
    }
    assert(bytes@.take(bytes@.len() as int) =~= bytes@);
    acc
}

/// 16 lower-case hex digits of `h`.
fn hex16(h: u64) -> (r: String)
    ensures
        r@ == hex_fixed(h as nat, 16),
{
    let mut v = h;
    let mut digits: Vec<char> = Vec::new();
    let mut m: usize = 0;
    while m < 16
        invariant
            m <= 16,
            digits@.len() == m,
            hex_fixed(h as nat, 16) == hex_fixed(v as nat, (16 - m) as nat) + digits@,
        decreases 16 - m,
    {
        let d = v % 16;
        let c = if d < 10 {
            crate::text::char_from_ascii((48 + d) as u32)
        } else {
            crate::text::char_from_ascii((87 + d) as u32)
        };
        let ghost before = digits@;
        assert(hex_fixed(v as nat, (16 - m) as nat) == hex_fixed((v / 16) as nat, (15 - m) as nat).push(
            hex_digit((v % 16) as int),
        ));
        digits.insert(0, c);
        assert(hex_fixed(v as nat, (16 - m) as nat) + before =~= hex_fixed((v / 16) as nat, (15 - m) as nat)
            + digits@);
        v = v / 16;
        m = m + 1;
    }
    assert(hex_fixed(v as nat, 0) + digits@ =~= digits@);
    assert(digits@.subrange(0, 16) =~= digits@);
    string_of(&digits, 0, 16)
}

/// The stable identifier of an album (see [`album_id_of`]). Only for telling
/// albums apart in the UI; tracks are filtered by the fields themselves.
pub fn album_id(name: Option<&str>, album_artist: Option<&str>) -> (r: String)
    ensures
        r@ == album_id_of(
            match name {
                Some(n) => Some(n@),
                None => None,
            },
            match album_artist {
                Some(a) => Some(a@),
                None => None,
            },
        ),
{
    let zero: [u8; 1] = [0u8];
    let sep: [u8; 1] = [0x1fu8];
    let ghost nb = field_bytes(match name {
        Some(n) => Some(n@),
        None => None,
    });
    let ghost ab = field_bytes(match album_artist {
        Some(a) => Some(a@),
        None => None,
    });
    let h = match name {
        Some(n) => fnv_extend(FNV_OFFSET, n.as_bytes()),
        None => fnv_extend(FNV_OFFSET, &zero),
    };
    assert(zero@ =~= seq![0u8]);
    assert(h == fnv1a(FNV_OFFSET, nb));
    let h2 = fnv_extend(h, &sep);
    let h3 = match album_artist {
        Some(a) => fnv_extend(h2, a.as_bytes()),
        None => fnv_extend(h2, &zero),
    };
    proof {
        lemma_fnv1a_concat(FNV_OFFSET, nb, sep@);
        lemma_fnv1a_concat(FNV_OFFSET, nb + sep@, ab);
        assert(sep@ =~= seq![0x1fu8]);
    }
    hex16(h3)
}

/// A missing field and an empty one give different key bytes.
pub proof fn lemma_missing_differs_from_empty(other: Option<Seq<char>>)
    ensures
        album_key_bytes(None, other) != album_key_bytes(Some(Seq::empty()), other),
        album_key_bytes(other, None) != album_key_bytes(other, Some(Seq::empty())),
{
    assert(vstd::utf8::encode_utf8(Seq::<char>::empty()) =~= Seq::<u8>::empty());
    assert(album_key_bytes(None, other).len() != album_key_bytes(Some(Seq::empty()), other).len());
    assert(album_key_bytes(other, None).len() != album_key_bytes(other, Some(Seq::empty())).len());
}

/// Hashing a concatenation continues from the hash of the first part.
pub proof fn lemma_fnv1a_concat(h: u64, a: Seq<u8>, b: Seq<u8>)
    ensures
        fnv1a(h, a + b) == fnv1a(fnv1a(h, a), b),
    decreases b.len(),
{
    if b.len() > 0 {
        assert((a + b).drop_last() =~= a + b.drop_last());
        lemma_fnv1a_concat(h, a, b.drop_last());
    } else {
        assert(a + b =~= a);
    }
}

} // verus!

//! CUE sheet parsing: the subset needed to split a whole-album audio file into
//! tracks — FILE, TRACK .. AUDIO, INDEX 00/01, TITLE, PERFORMER, REM GENRE and
//! REM DATE. Times are `mm:ss:ff` with 75 frames per second. Unknown lines are
//! ignored, tracks without an INDEX are dropped and non-audio tracks skipped.

use vstd::prelude::*;

use crate::text::{
    chars_eq, chars_of, is_whitespace, is_ws, lemma_skip_word_bounds,
    lemma_skip_ws_bounds, lower_chars, lower_seq, parse_u32, parse_u32_spec, parse_u64, parse_u64_spec,
    skip_word, skip_word_exec, skip_ws, skip_ws_exec, slice_chars, string_of, trim, trim_chars,
    upper_chars, upper_seq,
};

verus! {

/// A TRACK of type AUDIO.
#[derive(Debug, Clone, PartialEq)]
pub struct CueTrack {
    /// Track number (from 01).
    pub number: u32,
    pub title: Option<String>,
    pub performer: Option<String>,
    /// Track start (INDEX 01, falling back to INDEX 00).
    pub start_ms: u64,
}

/// A FILE section: one audio file and its tracks.
#[derive(Debug, Clone, PartialEq)]
pub struct CueFile {
    /// Audio file name as written on the FILE line (relative to the sheet or absolute).
    pub audio: String,
    pub tracks: Vec<CueTrack>,
}

/// A parsed sheet: album-level fields and the FILE sections.
#[derive(Debug, Clone, PartialEq)]
pub struct CueSheet {
    pub album_title: Option<String>,
    pub album_performer: Option<String>,
    pub genre: Option<String>,
    pub year: Option<u32>,
    pub files: Vec<CueFile>,
}

/// An optional string read as text.
pub open spec fn opt_text(o: Option<String>) -> Option<Seq<char>> {
    match o {
        Some(s) => Some(s@),
        None => None,
    }
}

/// Mathematical picture of a [`CueTrack`].
pub struct TrackView {
    pub number: u32,
    pub title: Option<Seq<char>>,
    pub performer: Option<Seq<char>>,
    pub start_ms: u64,
}

/// Mathematical picture of a [`CueFile`].
pub struct FileView {
    pub audio: Seq<char>,
    pub tracks: Seq<TrackView>,
}

/// Mathematical picture of a [`CueSheet`].
pub struct SheetView {
    pub album_title: Option<Seq<char>>,
    pub album_performer: Option<Seq<char>>,
    pub genre: Option<Seq<char>>,
    pub year: Option<u32>,
    pub files: Seq<FileView>,
}

impl View for CueTrack {
    type V = TrackView;

    open spec fn view(&self) -> TrackView {
        TrackView {
            number: self.number,
            title: opt_text(self.title),
            performer: opt_text(self.performer),
            start_ms: self.start_ms,
        }
    }
}

/// The tracks of a vector, as views.
pub open spec fn track_views(v: Seq<CueTrack>) -> Seq<TrackView> {
    v.map_values(|t: CueTrack| t@)
}

impl View for CueFile {
    type V = FileView;

    open spec fn view(&self) -> FileView {
        FileView { audio: self.audio@, tracks: track_views(self.tracks@) }
    }
}

/// The files of a vector, as views.
pub open spec fn file_views(v: Seq<CueFile>) -> Seq<FileView> {
    v.map_values(|f: CueFile| f@)
}

impl View for CueSheet {
    type V = SheetView;

    open spec fn view(&self) -> SheetView {
        SheetView {
            album_title: opt_text(self.album_title),
            album_performer: opt_text(self.album_performer),
            genre: opt_text(self.genre),
            year: self.year,
            files: file_views(self.files@),
        }
    }
}

/// A TRACK whose INDEX lines may still follow.
pub struct PendingView {
    pub number: u32,
    pub is_audio: bool,
    pub title: Option<Seq<char>>,
    pub performer: Option<Seq<char>>,
    pub index00_ms: Option<u64>,
    pub index01_ms: Option<u64>,
}

/// Parser state after a prefix of the lines.
pub struct ParseView {
    pub sheet: SheetView,
    pub pending: Option<PendingView>,
}

/// Outcome of reading an `mm:ss:ff` time.
pub enum Msf {
    Invalid,
    TooLarge,
    Valid(u64),
}

/// First position at or after `i` holding `c` (or the end).
pub open spec fn find_char(s: Seq<char>, c: char, i: int) -> int
    decreases s.len() - i,
{
    if 0 <= i < s.len() && s[i] != c {
        find_char(s, c, i + 1)
    } else {
        i
    }
}

/// Milliseconds of `mm:ss:ff`, frames rounded to the nearest millisecond.
pub open spec fn msf_millis(mm: int, ss: int, ff: int) -> int {
    (mm * 60 + ss) * 1000 + (ff * 1000 + 37) / 75
}

/// `mm:ss:ff` with exactly three decimal fields, seconds below 60 and frames below 75.
pub open spec fn msf_spec(s: Seq<char>) -> Msf {
    let p1 = find_char(s, ':', 0);
    let p2 = find_char(s, ':', p1 + 1);
    let p3 = find_char(s, ':', p2 + 1);
    if p1 >= s.len() || p2 >= s.len() || p3 < s.len() {
        Msf::Invalid
    } else {
        match (
            parse_u64_spec(s.subrange(0, p1)),
            parse_u64_spec(s.subrange(p1 + 1, p2)),
            parse_u64_spec(s.subrange(p2 + 1, s.len() as int)),
        ) {
            (Some(mm), Some(ss), Some(ff)) => if ss >= 60 || ff >= 75 {
                Msf::Invalid
            } else if msf_millis(mm as int, ss as int, ff as int) > u64::MAX {
                Msf::TooLarge
            } else {
                Msf::Valid(msf_millis(mm as int, ss as int, ff as int) as u64)
            },
            _ => Msf::Invalid,
        }
    }
}

/// `str::trim` then remove one pair of surrounding double quotes.
pub open spec fn unquote(s: Seq<char>) -> Seq<char> {
    let t = trim(s);
    if t.len() >= 2 && t[0] == '"' && t[t.len() - 1] == '"' {
        t.subrange(1, t.len() - 1)
    } else {
        t
    }
}

/// `None` for blank text.
pub open spec fn non_empty(s: Seq<char>) -> Option<Seq<char>> {
    if trim(s).len() == 0 {
        None
    } else {
        Some(s)
    }
}

/// Last white-space position below `j`, or -1.
pub open spec fn last_ws(s: Seq<char>, j: int) -> int
    decreases j,
{
    if j <= 0 || j > s.len() {
        -1
    } else if is_ws(s[j - 1]) {
        j - 1
    } else {
        last_ws(s, j - 1)
    }
}

/// The first white-space-separated word of `s[i..]`: `(start, end)`.
pub open spec fn word_at(s: Seq<char>, i: int) -> (int, int) {
    let a = skip_ws(s, i);
    (a, skip_word(s, a))
}

/// The first word of `s`.
pub open spec fn first_word(s: Seq<char>) -> Option<Seq<char>> {
    let (a, b) = word_at(s, 0);
    if a < s.len() {
        Some(s.subrange(a, b))
    } else {
        None
    }
}

/// The second word of `s`.
pub open spec fn second_word(s: Seq<char>) -> Option<Seq<char>> {
    let (a, b) = word_at(s, 0);
    let (c, d) = word_at(s, b);
    if c < s.len() {
        Some(s.subrange(c, d))
    } else {
        None
    }
}

pub open spec fn kw_rem() -> Seq<char> { seq!['R', 'E', 'M'] }
pub open spec fn kw_file() -> Seq<char> { seq!['F', 'I', 'L', 'E'] }
pub open spec fn kw_track() -> Seq<char> { seq!['T', 'R', 'A', 'C', 'K'] }
pub open spec fn kw_index() -> Seq<char> { seq!['I', 'N', 'D', 'E', 'X'] }
pub open spec fn kw_title() -> Seq<char> { seq!['T', 'I', 'T', 'L', 'E'] }
pub open spec fn kw_performer() -> Seq<char> { seq!['P', 'E', 'R', 'F', 'O', 'R', 'M', 'E', 'R'] }
pub open spec fn kw_genre() -> Seq<char> { seq!['G', 'E', 'N', 'R', 'E'] }
pub open spec fn kw_date() -> Seq<char> { seq!['D', 'A', 'T', 'E'] }
pub open spec fn kw_audio_lower() -> Seq<char> { seq!['a', 'u', 'd', 'i', 'o'] }

/// Lands the pending track in the last FILE section. It is dropped when no
/// FILE came before, when it is not AUDIO, or when it has no INDEX.
pub open spec fn flush(st: ParseView) -> ParseView {
    match st.pending {
        None => st,
        Some(t) => {
            let st2 = ParseView { pending: None, ..st };
            let files = st.sheet.files;
            if files.len() == 0 || !t.is_audio {
                st2
            } else {
                let start = match t.index01_ms {
                    Some(ms) => Some(ms),
                    None => t.index00_ms,
                };
                match start {
                    None => st2,
                    Some(ms) => {
                        let last = files.last();
                        let track = TrackView { number: t.number, title: t.title, performer: t.performer, start_ms: ms };
                        let f2 = FileView { tracks: last.tracks.push(track), ..last };
                        ParseView {
                            sheet: SheetView { files: files.update(files.len() - 1, f2), ..st.sheet },
                            ..st2
                        }
                    },
                }
            }
        },
    }
}

/// A `REM` line: `REM GENRE value` and `REM DATE year`; other remarks are ignored.
pub open spec fn rem_step(st: ParseView, rest: Seq<char>) -> ParseView {
    let j = skip_word(rest, 0);
    if j >= rest.len() {
        st
    } else {
        let sub = upper_seq(rest.subrange(0, j));
        let value = unquote(trim(rest.subrange(j + 1, rest.len() as int)));
        if sub == kw_genre() && value.len() > 0 {
            ParseView { sheet: SheetView { genre: Some(value), ..st.sheet }, ..st }
        } else if sub == kw_date() {
            ParseView { sheet: SheetView { year: parse_u32_spec(value), ..st.sheet }, ..st }
        } else {
            st
        }
    }
}

/// A `FILE "name" TYPE` line (after the pending track has landed): starts a section.
pub open spec fn file_step(st: ParseView, rest: Seq<char>) -> ParseView {
    let j = last_ws(rest, rest.len() as int);
    let name = if j >= 0 { trim(rest.subrange(0, j)) } else { rest };
    let f = FileView { audio: unquote(name), tracks: Seq::empty() };
    ParseView { sheet: SheetView { files: st.sheet.files.push(f), ..st.sheet }, ..st }
}

/// A `TRACK nn TYPE` line (after the pending track has landed): a new pending track.
pub open spec fn track_step(st: ParseView, rest: Seq<char>) -> ParseView {
    let number: u32 = match first_word(rest) {
        Some(w) => match parse_u32_spec(w) {
            Some(n) => n,
            None => 0,
        },
        None => 0,
    };
    let is_audio = match second_word(rest) {
        Some(w) => lower_seq(w) == kw_audio_lower(),
        None => true,
    };
    ParseView {
        pending: Some(
            PendingView { number, is_audio, title: None, performer: None, index00_ms: None, index01_ms: None },
        ),
        ..st
    }
}

/// An `INDEX nn mm:ss:ff` line: sets INDEX 00 or 01 of the pending track.
pub open spec fn index_step(st: ParseView, rest: Seq<char>) -> ParseView {
    match st.pending {
        None => st,
        Some(t) => {
            let idx = match first_word(rest) {
                Some(w) => parse_u32_spec(w),
                None => None,
            };
            let time = match second_word(rest) {
                Some(w) => msf_spec(w),
                None => Msf::Invalid,
            };
            match time {
                Msf::TooLarge | Msf::Invalid => st,
                Msf::Valid(ms) => if idx == Some(0u32) {
                    ParseView { pending: Some(PendingView { index00_ms: Some(ms), ..t }), ..st }
                } else if idx == Some(1u32) {
                    ParseView { pending: Some(PendingView { index01_ms: Some(ms), ..t }), ..st }
                } else {
                    st
                },
            }
        },
    }
}

/// A `TITLE` line: the pending track's title, or the album title before any TRACK.
pub open spec fn title_step(st: ParseView, rest: Seq<char>) -> ParseView {
    let value = non_empty(unquote(rest));
    match st.pending {
        Some(t) => ParseView { pending: Some(PendingView { title: value, ..t }), ..st },
        None => ParseView { sheet: SheetView { album_title: value, ..st.sheet }, ..st },
    }
}

/// A `PERFORMER` line: the pending track's performer, or the album performer.
pub open spec fn performer_step(st: ParseView, rest: Seq<char>) -> ParseView {
    let value = non_empty(unquote(rest));
    match st.pending {
        Some(t) => ParseView { pending: Some(PendingView { performer: value, ..t }), ..st },
        None => ParseView { sheet: SheetView { album_performer: value, ..st.sheet }, ..st },
    }
}

/// One line: trimmed, blank lines skipped, the keyword (up to the first white
/// space, ASCII case-insensitive) selects the rule; the rest is trimmed.
pub open spec fn step(st: ParseView, raw: Seq<char>) -> ParseView {
    let line = trim(raw);
    if line.len() == 0 {
        st
    } else {
        let k = skip_word(line, 0);
        let kw = upper_seq(line.subrange(0, k));
        let rest = if k < line.len() { trim(line.subrange(k + 1, line.len() as int)) } else { Seq::empty() };
        if kw == kw_rem() {
            rem_step(st, rest)
        } else if kw == kw_file() {
            file_step(flush(st), rest)
        } else if kw == kw_track() {
            track_step(flush(st), rest)
        } else if kw == kw_index() {
            index_step(st, rest)
        } else if kw == kw_title() {
            title_step(st, rest)
        } else if kw == kw_performer() {
            performer_step(st, rest)
        } else {
            st
        }
    }
}

/// End of the line starting at `i`: the next `\n` or the end of the text.
pub open spec fn line_end(s: Seq<char>, i: int) -> int {
    find_char(s, '\n', i)
}

pub proof fn lemma_find_char_bounds(s: Seq<char>, c: char, i: int)
    requires
        0 <= i <= s.len(),
    ensures
        i <= find_char(s, c, i) <= s.len(),
        find_char(s, c, i) < s.len() ==> s[find_char(s, c, i)] == c,
        forall|k: int| i <= k < find_char(s, c, i) ==> s[k] != c,
    decreases s.len() - i,
{
    if i < s.len() && s[i] != c {
        lemma_find_char_bounds(s, c, i + 1);
    }
}

/// The lines from position `pos` on, applied to `st` in order.
pub open spec fn lines_from(s: Seq<char>, pos: int, st: ParseView) -> ParseView
    decreases s.len() + 1 - pos,
{
    if pos < 0 || pos > s.len() {
        st
    } else {
        let e = line_end(s, pos);
        proof {
            lemma_find_char_bounds(s, '\n', pos);
        }
        lines_from(s, e + 1, step(st, s.subrange(pos, e)))
    }
}

/// The empty starting state.
pub open spec fn start_state() -> ParseView {
    ParseView {
        sheet: SheetView { album_title: None, album_performer: None, genre: None, year: None, files: Seq::empty() },
        pending: None,
    }
}

/// First position of `s` whose track number exceeds `n` (or the end).
pub open spec fn first_greater(s: Seq<TrackView>, n: u32) -> int
    decreases s.len(),
{
    if s.len() == 0 {
        0
    } else if s[0].number > n {
        0
    } else {
        1 + first_greater(s.drop_first(), n)
    }
}

/// Stable sort by track number: each track in turn is inserted after every
/// track already placed whose number is not greater.
pub open spec fn sort_by_number(s: Seq<TrackView>) -> Seq<TrackView>
    decreases s.len(),
{
    if s.len() == 0 {
        s
    } else {
        let sorted = sort_by_number(s.drop_last());
        sorted.insert(first_greater(sorted, s.last().number), s.last())
    }
}

/// Every FILE section with its tracks sorted by number.
pub open spec fn sort_files(files: Seq<FileView>) -> Seq<FileView> {
    files.map_values(|f: FileView| FileView { tracks: sort_by_number(f.tracks), ..f })
}

/// All lines read, the last pending track landed.
pub open spec fn parsed(text: Seq<char>) -> ParseView {
    flush(lines_from(text, 0, start_state()))
}

/// The sheet a CUE text describes: see the rules above; tracks are ordered by
/// number within each FILE (stable).
pub open spec fn cue_sheet_of(text: Seq<char>) -> SheetView {
    let st = parsed(text);
    SheetView { files: sort_files(st.sheet.files), ..st.sheet }
}



/// Parser-internal pending TRACK.
struct PendingTrack {
    number: u32,
    is_audio: bool,
    title: Option<String>,
    performer: Option<String>,
    index00_ms: Option<u64>,
    index01_ms: Option<u64>,
}

impl View for PendingTrack {
    type V = PendingView;

    closed spec fn view(&self) -> PendingView {
        PendingView {
            number: self.number,
            is_audio: self.is_audio,
            title: opt_text(self.title),
            performer: opt_text(self.performer),
            index00_ms: self.index00_ms,
            index01_ms: self.index01_ms,
        }
    }
}

/// Parser-internal state.
struct ParseState {
    sheet: CueSheet,
    pending: Option<PendingTrack>,
}

impl View for ParseState {
    type V = ParseView;

    closed spec fn view(&self) -> ParseView {
        ParseView {
            sheet: self.sheet@,
            pending: match self.pending {
                Some(t) => Some(t@),
                None => None,
            },
        }
    }
}

/// First position at or after `i` holding `c` (or the end).
fn find_char_exec(v: &Vec<char>, c: char, i: usize) -> (r: usize)
    requires
        i <= v.len(),
    ensures
        r as int == find_char(v@, c, i as int),
        i <= r <= v.len(),
{
    proof {
        lemma_find_char_bounds(v@, c, i as int);
    }
    let mut k = i;
    while k < v.len() && v[k] != c
        invariant
            i <= k <= v.len(),
            find_char(v@, c, k as int) == find_char(v@, c, i as int),
        decreases v.len() - k,
    {
        k = k + 1;
    }
    k
}

/// `unquote` on a character vector.
fn unquote_exec(v: &Vec<char>) -> (r: Vec<char>)
    ensures
        r@ == unquote(v@),
{
    let t = trim_chars(v);
    if t.len() >= 2 && t[0] == '"' && t[t.len() - 1] == '"' {
        slice_chars(&t, 1, t.len() - 1)
    } else {
        t
    }
}

/// `non_empty`, producing a string.
fn non_empty_exec(v: &Vec<char>) -> (r: Option<String>)
    ensures
        opt_text(r) == non_empty(v@),
{
    let t = trim_chars(v);
    if t.len() == 0 {
        None
    } else {
        Some(string_of(v, 0, v.len()))
    }
}

proof fn lemma_last_ws_bounds(s: Seq<char>, j: int)
    requires
        0 <= j <= s.len(),
    ensures
        -1 <= last_ws(s, j) < j,
    decreases j,
{
    if j > 0 && !is_ws(s[j - 1]) {
        lemma_last_ws_bounds(s, j - 1);
    }
}

/// Last white-space position below `j`.
fn last_ws_exec(v: &Vec<char>, j: usize) -> (r: Option<usize>)
    requires
        j <= v.len(),
    ensures
        match r {
            Some(k) => k as int == last_ws(v@, j as int),
            None => last_ws(v@, j as int) == -1,
        },
{
    let mut k = j;
    while k > 0 && !is_whitespace(v[k - 1])
        invariant
            k <= j <= v.len(),
            last_ws(v@, k as int) == last_ws(v@, j as int),
        decreases k,
    {
        k = k - 1;
    }
    if k == 0 {
        None
    } else {
        Some(k - 1)
    }
}

/// Start and end of the first word at or after `i`.
fn word_at_exec(v: &Vec<char>, i: usize) -> (r: (usize, usize))
    requires
        i <= v.len(),
    ensures
        (r.0 as int, r.1 as int) == word_at(v@, i as int),
        i <= r.0 <= r.1 <= v.len(),
{
    let a = skip_ws_exec(v, i);
    proof {
        lemma_skip_ws_bounds(v@, i as int);
    }
    let b = skip_word_exec(v, a);
    proof {
        lemma_skip_word_bounds(v@, a as int);
    }
    (a, b)
}

/// `mm:ss:ff` to milliseconds.
fn msf_exec(v: &Vec<char>) -> (r: Msf)
    ensures
        r == msf_spec(v@),
{
    let p1 = find_char_exec(v, ':', 0);
    if p1 >= v.len() {
        return Msf::Invalid;
    }
    let p2 = find_char_exec(v, ':', p1 + 1);
    if p2 >= v.len() {
        return Msf::Invalid;
    }
    let p3 = find_char_exec(v, ':', p2 + 1);
    if p3 < v.len() {
        return Msf::Invalid;
    }
    let mm = parse_u64(v, 0, p1);
    let ss = parse_u64(v, p1 + 1, p2);
    let ff = parse_u64(v, p2 + 1, v.len());
    match (mm, ss, ff) {
        (Some(mm), Some(ss), Some(ff)) => {
            if ss >= 60 || ff >= 75 {
                return Msf::Invalid;
            }
            let a: u128 = mm as u128 * 60 + ss as u128;
            let b: u128 = a * 1000;
            let frac: u128 = (ff as u128 * 1000 + 37) / 75;
            let total: u128 = b + frac;
            if total > u64::MAX as u128 {
                Msf::TooLarge
            } else {
                Msf::Valid(total as u64)
            }
        },
        _ => Msf::Invalid,
    }
}

/// A vector copy of `v[lo..hi]` when the range is a word.
fn word_chars(v: &Vec<char>, r: (usize, usize)) -> (w: Option<Vec<char>>)
    requires
        r.0 <= r.1 <= v.len(),
    ensures
        r.0 < v.len() ==> (w matches Some(x) && x@ == v@.subrange(r.0 as int, r.1 as int)),
        r.0 >= v.len() ==> w is None,
{
    if r.0 < v.len() {
        Some(slice_chars(v, r.0, r.1))
    } else {
        None
    }
}

/// First and second words.
fn two_words(v: &Vec<char>) -> (r: (Option<Vec<char>>, Option<Vec<char>>))
    ensures
        match (r.0, first_word(v@)) {
            (Some(x), Some(y)) => x@ == y,
            (None, None) => true,
            _ => false,
        },
        match (r.1, second_word(v@)) {
            (Some(x), Some(y)) => x@ == y,
            (None, None) => true,
            _ => false,
        },
{
    let w1 = word_at_exec(v, 0);
    let w2 = word_at_exec(v, w1.1);
    (word_chars(v, w1), word_chars(v, w2))
}

impl ParseState {
    /// Lands the pending track (see [`flush`]).
    fn flush(&mut self)
        ensures
            final(self)@ == flush(old(self)@),
    {
        let t = match self.pending.take() {
            Some(t) => t,
            None => return,
        };
        if self.sheet.files.len() == 0 || !t.is_audio {
            return;
        }
        let start = match t.index01_ms {
            Some(ms) => Some(ms),
            None => t.index00_ms,
        };
        match start {
            None => {},
            Some(ms) => {
                let ghost files0 = self.sheet.files@;
                let mut last = self.sheet.files.pop().unwrap();
                let track = CueTrack { number: t.number, title: t.title, performer: t.performer, start_ms: ms };
                last.tracks.push(track);
                self.sheet.files.push(last);
                proof {
                    let fv = file_views(files0);
                    let lastv = fv.last();
                    assert(track_views(last.tracks@) =~= lastv.tracks.push(track@));
                    assert(file_views(self.sheet.files@) =~= fv.update(fv.len() - 1, FileView { tracks: lastv.tracks.push(track@), ..lastv }));
                }
            },
        }
    }

    /// A REM line.
    fn rem(&mut self, rest: &Vec<char>)
        ensures
            final(self)@ == rem_step(old(self)@, rest@),
    {
        let j = skip_word_exec(rest, 0);
        proof {
            lemma_skip_word_bounds(rest@, 0);
        }
        if j >= rest.len() {
            return;
        }
        let sub = upper_chars(&slice_chars(rest, 0, j));
        let tail = slice_chars(rest, j + 1, rest.len());
        let value = unquote_exec(&trim_chars(&tail));
        if chars_eq(&sub, &['G', 'E', 'N', 'R', 'E']) && value.len() > 0 {
            self.sheet.genre = Some(string_of(&value, 0, value.len()));
            assert(value@.subrange(0, value@.len() as int) =~= value@);
        } else if chars_eq(&sub, &['D', 'A', 'T', 'E']) {
            self.sheet.year = parse_u32(&value, 0, value.len());
            assert(value@.subrange(0, value@.len() as int) =~= value@);
        }
    }

    /// A FILE line.
    fn file(&mut self, rest: &Vec<char>)
        ensures
            final(self)@ == file_step(flush(old(self)@), rest@),
    {
        self.flush();
        let name = match last_ws_exec(rest, rest.len()) {
            Some(j) => {
                proof {
                    lemma_last_ws_bounds(rest@, rest@.len() as int);
                }
                trim_chars(&slice_chars(rest, 0, j))
            },
            None => slice_chars(rest, 0, rest.len()),
        };
        assert(rest@.subrange(0, rest@.len() as int) =~= rest@);
        let audio = unquote_exec(&name);
        let ghost files0 = self.sheet.files@;
        self.sheet.files.push(CueFile { audio: string_of(&audio, 0, audio.len()), tracks: Vec::new() });
        proof {
            assert(audio@.subrange(0, audio@.len() as int) =~= audio@);
            assert(track_views(Seq::<CueTrack>::empty()) =~= Seq::<TrackView>::empty());
            assert(file_views(self.sheet.files@) =~= file_views(files0).push(FileView { audio: audio@, tracks: Seq::empty() }));
        }
    }

    /// A TRACK line.
    fn track(&mut self, rest: &Vec<char>)
        ensures
            final(self)@ == track_step(flush(old(self)@), rest@),
    {
        self.flush();
        let (w1, w2) = two_words(rest);
        let number: u32 = match &w1 {
            Some(w) => match parse_u32(w, 0, w.len()) {
                Some(n) => n,
                None => 0,
            },
            None => 0,
        };
        proof {
            if let Some(w) = w1 {
                assert(w@.subrange(0, w@.len() as int) =~= w@);
            }
        }
        let is_audio = match &w2 {
            Some(w) => chars_eq(&lower_chars(w), &['a', 'u', 'd', 'i', 'o']),
            None => true,
        };
        self.pending = Some(
            PendingTrack { number, is_audio, title: None, performer: None, index00_ms: None, index01_ms: None },
        );
    }

    /// An INDEX line.
    fn index(&mut self, rest: &Vec<char>)
        ensures
            final(self)@ == index_step(old(self)@, rest@),
    {
        if self.pending.is_none() {
            return;
        }
        let (w1, w2) = two_words(rest);
        let idx = match &w1 {
            Some(w) => parse_u32(w, 0, w.len()),
            None => None,
        };
        proof {
            if let Some(w) = w1 {
                assert(w@.subrange(0, w@.len() as int) =~= w@);
            }
        }
        let time = match &w2 {
            Some(w) => msf_exec(w),
            None => Msf::Invalid,
        };
        match time {
            Msf::TooLarge | Msf::Invalid => {},
            Msf::Valid(ms) => {
                let mut t = self.pending.take().unwrap();
                match idx {
                    Some(0) => {
                        t.index00_ms = Some(ms);
                    },
                    Some(1) => {
                        t.index01_ms = Some(ms);
                    },
                    _ => {},
                }
                self.pending = Some(t);
            },
        }
    }

    /// A TITLE line.
    fn title(&mut self, rest: &Vec<char>)
        ensures
            final(self)@ == title_step(old(self)@, rest@),
    {
        let value = non_empty_exec(&unquote_exec(rest));
        match self.pending.take() {
            Some(t) => {
                let mut t = t;
                t.title = value;
                self.pending = Some(t);
            },
            None => {
                self.sheet.album_title = value;
            },
        }
    }

    /// A PERFORMER line.
    fn performer(&mut self, rest: &Vec<char>)
        ensures
            final(self)@ == performer_step(old(self)@, rest@),
    {
        let value = non_empty_exec(&unquote_exec(rest));
        match self.pending.take() {
            Some(t) => {
                let mut t = t;
                t.performer = value;
                self.pending = Some(t);
            },
            None => {
                self.sheet.album_performer = value;
            },
        }
    }

    /// One line of text.
    fn line(&mut self, raw: &Vec<char>)
        ensures
            final(self)@ == step(old(self)@, raw@),
    {
        let line = trim_chars(raw);
        if line.len() == 0 {
            return;
        }
        let k = skip_word_exec(&line, 0);
        proof {
            lemma_skip_word_bounds(line@, 0);
        }
        let kw = upper_chars(&slice_chars(&line, 0, k));
        let rest = if k < line.len() {
            trim_chars(&slice_chars(&line, k + 1, line.len()))
        } else {
            Vec::new()
        };
        if chars_eq(&kw, &['R', 'E', 'M']) {
            self.rem(&rest);
        } else if chars_eq(&kw, &['F', 'I', 'L', 'E']) {
            self.file(&rest);
        } else if chars_eq(&kw, &['T', 'R', 'A', 'C', 'K']) {
            self.track(&rest);
        } else if chars_eq(&kw, &['I', 'N', 'D', 'E', 'X']) {
            self.index(&rest);
        } else if chars_eq(&kw, &['T', 'I', 'T', 'L', 'E']) {
            self.title(&rest);
        } else if chars_eq(&kw, &['P', 'E', 'R', 'F', 'O', 'R', 'M', 'E', 'R']) {
            self.performer(&rest);
        }
    }
}

/// `first_greater` after a prefix of tracks that are all not greater.
proof fn lemma_first_greater_skip(s: Seq<TrackView>, n: u32, i: int)
    requires
        0 <= i <= s.len(),
        forall|k: int| 0 <= k < i ==> s[k].number <= n,
    ensures
        first_greater(s, n) == i + first_greater(s.subrange(i, s.len() as int), n),
    decreases i,
{
    if i > 0 {
        assert(s[0].number <= n);
        let t = s.drop_first();
        assert forall|k: int| 0 <= k < i - 1 implies t[k].number <= n by {
            assert(t[k] == s[k + 1]);
        }
        lemma_first_greater_skip(t, n, i - 1);
        assert(t.subrange(i - 1, t.len() as int) =~= s.subrange(i, s.len() as int));
    } else {
        assert(s.subrange(0, s.len() as int) =~= s);
    }
}

proof fn lemma_first_greater_bounds(s: Seq<TrackView>, n: u32)
    ensures
        0 <= first_greater(s, n) <= s.len(),
    decreases s.len(),
{
    if s.len() > 0 && s[0].number <= n {
        lemma_first_greater_bounds(s.drop_first(), n);
    }
}

/// Position at which a track numbered `n` is inserted.
fn first_greater_exec(out: &Vec<CueTrack>, n: u32) -> (r: usize)
    ensures
        r as int == first_greater(track_views(out@), n),
        r <= out.len(),
{
    let ghost tv = track_views(out@);
    let mut i: usize = 0;
    while i < out.len() && out[i].number <= n
        invariant
            i <= out.len(),
            tv == track_views(out@),
            forall|k: int| 0 <= k < i ==> tv[k].number <= n,
        decreases out.len() - i,
    {
        i = i + 1;
    }
    proof {
        lemma_first_greater_skip(tv, n, i as int);
        let rest = tv.subrange(i as int, tv.len() as int);
        if i < out.len() {
            assert(rest[0] == tv[i as int]);
        }
    }
    i
}

/// Tracks in stable order of their numbers.
fn sort_tracks(tracks: Vec<CueTrack>) -> (r: Vec<CueTrack>)
    ensures
        track_views(r@) == sort_by_number(track_views(tracks@)),
{
    let ghost orig = track_views(tracks@);
    let n_exec = tracks.len();
    let ghost n = n_exec as nat;
    let mut rest = tracks;
    let mut out: Vec<CueTrack> = Vec::new();
    let mut i: usize = 0;
    while rest.len() > 0
        invariant
            i + rest@.len() == n,
            n == n_exec,
            orig.len() == n,
            track_views(rest@) == orig.subrange(i as int, n as int),
            track_views(out@) == sort_by_number(orig.subrange(0, i as int)),
        decreases rest@.len(),
    {
        let ghost rv = rest@;
        let t = rest.remove(0);
        proof {
            assert(track_views(rv)[0] == rv[0]@);
            assert(orig.subrange(i as int, n as int)[0] == orig[i as int]);
            assert(t@ == orig[i as int]);
            assert(track_views(rest@) =~= track_views(rv).subrange(1, track_views(rv).len() as int));
            assert(track_views(rest@) =~= orig.subrange(i + 1, n as int));
        }
        let p = first_greater_exec(&out, t.number);
        let ghost before = track_views(out@);
        out.insert(p, t);
        proof {
            assert(track_views(out@) =~= before.insert(p as int, t@));
            let pre = orig.subrange(0, i + 1);
            assert(pre.drop_last() =~= orig.subrange(0, i as int));
            assert(pre.last() == t@);
        }
        i = i + 1;
    }
    assert(orig.subrange(0, n as int) =~= orig);
    out
}

/// Every FILE section with its tracks sorted.
fn sort_all(files: Vec<CueFile>) -> (r: Vec<CueFile>)
    ensures
        file_views(r@) == sort_files(file_views(files@)),
{
    let ghost orig = file_views(files@);
    let n_exec = files.len();
    let ghost n = n_exec as nat;
    let mut rest = files;
    let mut out: Vec<CueFile> = Vec::new();
    let mut i: usize = 0;
    while rest.len() > 0
        invariant
            i + rest@.len() == n,
            n == n_exec,
            orig.len() == n,
            file_views(rest@) == orig.subrange(i as int, n as int),
            file_views(out@) == sort_files(orig.subrange(0, i as int)),
        decreases rest@.len(),
    {
        let ghost rv = rest@;
        let f = rest.remove(0);
        proof {
            assert(file_views(rv)[0] == rv[0]@);
            assert(orig.subrange(i as int, n as int)[0] == orig[i as int]);
            assert(f@ == orig[i as int]);
            assert(file_views(rest@) =~= file_views(rv).subrange(1, file_views(rv).len() as int));
            assert(file_views(rest@) =~= orig.subrange(i + 1, n as int));
        }
        let CueFile { audio, tracks } = f;
        let sorted = sort_tracks(tracks);
        let ghost before = file_views(out@);
        out.push(CueFile { audio, tracks: sorted });
        proof {
            let fv = orig[i as int];
            let nf = FileView { tracks: sort_by_number(fv.tracks), ..fv };
            assert(file_views(out@) =~= before.push(nf));
            assert(sort_files(orig.subrange(0, i + 1)) =~= sort_files(orig.subrange(0, i as int)).push(nf));
        }
        i = i + 1;
    }
    assert(orig.subrange(0, n as int) =~= orig);
    out
}

/// Parses CUE text (see [`cue_sheet_of`]). Any text parses: unrecognised
/// lines are ignored, an INDEX whose time is malformed or does not fit in
/// 64-bit milliseconds is not used, tracks without a usable INDEX are dropped,
/// non-AUDIO tracks are skipped and tracks are ordered by number within each
/// FILE.
pub fn parse(text: &str) -> (r: CueSheet)
    ensures
        r@ == cue_sheet_of(text@),
{
    let v = chars_of(text);
    let mut st = ParseState {
        sheet: CueSheet { album_title: None, album_performer: None, genre: None, year: None, files: Vec::new() },
        pending: None,
    };
    assert(file_views(Seq::<CueFile>::empty()) =~= Seq::<FileView>::empty());
    assert(st@ == start_state());
    let mut pos: usize = 0;
    let mut done = false;
    while !done
        invariant
            pos <= v.len(),
            done ==> st@ == lines_from(v@, 0, start_state()),
            !done ==> lines_from(v@, pos as int, st@) == lines_from(v@, 0, start_state()),
        decreases v.len() - pos + (if done { 0int } else { 1int }),
    {
        let e = find_char_exec(&v, '\n', pos);
        let raw = slice_chars(&v, pos, e);
        let ghost before = st@;
        st.line(&raw);
        assert(lines_from(v@, pos as int, before) == lines_from(v@, e + 1, st@));
        if e >= v.len() {
            done = true;
        } else {
            pos = e + 1;
        }
    }
    st.flush();
    let ParseState { sheet, pending: _ } = st;
    let CueSheet { album_title, album_performer, genre, year, files } = sheet;
    let files = sort_all(files);
    CueSheet { album_title, album_performer, genre, year, files }
}

/// Reads an `mm:ss:ff` time (75 frames per second) as milliseconds, frames
/// rounded to the nearest millisecond; `None` unless there are exactly three
/// decimal fields with seconds below 60 and frames below 75, and the time
/// fits in 64-bit milliseconds.
pub fn parse_msf(s: &str) -> (r: Option<u64>)
    ensures
        r == (match msf_spec(s@) {
            Msf::Valid(ms) => Some(ms),
            _ => None,
        }),
{
    match msf_exec(&chars_of(s)) {
        Msf::Valid(ms) => Some(ms),
        _ => None,
    }
}

/// Parses the bytes of a CUE file: decoded like lyric files (UTF-8, else
/// GBK, else lossy), then parsed.
pub fn parse_cue_bytes(bytes: &[u8]) -> (r: CueSheet)
    ensures
        r@ == cue_sheet_of(crate::lyrics::decoded_text(bytes@)),
{
    let text = crate::lyrics::decode_text(bytes);
    parse(text.as_str())
}

/// Track numbers are non-decreasing.
pub open spec fn numbers_sorted(s: Seq<TrackView>) -> bool {
    forall|i: int, j: int| 0 <= i <= j < s.len() ==> #[trigger] s[i].number <= #[trigger] s[j].number
}

/// In a sorted sequence, the insertion point of `n` splits the tracks
/// numbered at most `n` from those numbered above it.
proof fn lemma_first_greater_splits(s: Seq<TrackView>, n: u32)
    requires
        numbers_sorted(s),
    ensures
        forall|k: int| 0 <= k < first_greater(s, n) ==> #[trigger] s[k].number <= n,
        forall|k: int| first_greater(s, n) <= k < s.len() ==> #[trigger] s[k].number > n,
    decreases s.len(),
{
    lemma_first_greater_bounds(s, n);
    if s.len() > 0 && s[0].number <= n {
        let t = s.drop_first();
        assert(numbers_sorted(t)) by {
            assert forall|i: int, j: int| 0 <= i <= j < t.len() implies #[trigger] t[i].number <= #[trigger] t[j].number by {
                assert(t[i] == s[i + 1] && t[j] == s[j + 1]);
            }
        }
        lemma_first_greater_splits(t, n);
        assert(first_greater(s, n) == 1 + first_greater(t, n));
        assert forall|k: int| 0 <= k < first_greater(s, n) implies #[trigger] s[k].number <= n by {
            if k > 0 {
                assert(s[k] == t[k - 1]);
            }
        }
        assert forall|k: int| first_greater(s, n) <= k < s.len() implies #[trigger] s[k].number > n by {
            assert(s[k] == t[k - 1]);
        }
    } else if s.len() > 0 {
        assert forall|k: int| 0 <= k < s.len() implies #[trigger] s[k].number > n by {
            assert(s[0].number <= s[k].number);
        }
    }
}

/// Sorting by number orders the tracks by number and keeps every track
/// (the same tracks, as many times each).
pub proof fn lemma_sort_by_number_sorted(s: Seq<TrackView>)
    ensures
        numbers_sorted(sort_by_number(s)),
        sort_by_number(s).to_multiset() == s.to_multiset(),
    decreases s.len(),
{
    broadcast use vstd::seq_lib::group_to_multiset_ensures;
    if s.len() > 0 {
        let prev = sort_by_number(s.drop_last());
        lemma_sort_by_number_sorted(s.drop_last());
        let x = s.last();
        let p = first_greater(prev, x.number);
        lemma_first_greater_bounds(prev, x.number);
        lemma_first_greater_splits(prev, x.number);
        let r = prev.insert(p, x);
        assert forall|i: int, j: int| 0 <= i <= j < r.len() implies #[trigger] r[i].number <= #[trigger] r[j].number by {
            if i < p && j < p {
                assert(r[i] == prev[i] && r[j] == prev[j]);
            } else if i < p && j == p {
                assert(r[i] == prev[i]);
            } else if i < p && j > p {
                assert(r[i] == prev[i] && r[j] == prev[j - 1]);
            } else if i == p && j > p {
                assert(r[j] == prev[j - 1]);
            } else if i > p {
                assert(r[i] == prev[i - 1] && r[j] == prev[j - 1]);
            }
        }
        assert(s =~= s.drop_last().push(x));
        vstd::seq_lib::to_multiset_insert(prev, p, x);
    }
}

/// In every FILE section of a parsed sheet the tracks are ordered by number,
/// and sorting lost or added no track.
pub proof fn lemma_sheet_tracks_sorted(text: Seq<char>)
    ensures
        forall|f: int|
            0 <= f < cue_sheet_of(text).files.len() ==> numbers_sorted(#[trigger] cue_sheet_of(text).files[f].tracks)
                && cue_sheet_of(text).files[f].tracks.to_multiset() == parsed(text).sheet.files[f].tracks.to_multiset(),
{
    let files = parsed(text).sheet.files;
    assert forall|f: int| 0 <= f < cue_sheet_of(text).files.len() implies numbers_sorted(
        #[trigger] cue_sheet_of(text).files[f].tracks,
    ) && cue_sheet_of(text).files[f].tracks.to_multiset() == files[f].tracks.to_multiset() by {
        lemma_sort_by_number_sorted(files[f].tracks);
    }
}


/// The line is a FILE line: its first word, ASCII upper-cased, is `FILE`.
pub open spec fn is_file_line(raw: Seq<char>) -> bool {
    let line = trim(raw);
    line.len() > 0 && upper_seq(line.subrange(0, skip_word(line, 0))) == kw_file()
}

/// The number of FILE lines from position `pos` on.
pub open spec fn file_lines_from(s: Seq<char>, pos: int) -> nat
    decreases s.len() + 1 - pos,
{
    if pos < 0 || pos > s.len() {
        0
    } else {
        let e = line_end(s, pos);
        proof {
            lemma_find_char_bounds(s, '\n', pos);
        }
        (if is_file_line(s.subrange(pos, e)) { 1nat } else { 0nat }) + file_lines_from(s, e + 1)
    }
}

/// One line adds a FILE section exactly when it is a FILE line.
proof fn lemma_step_file_count(st: ParseView, raw: Seq<char>)
    ensures
        step(st, raw).sheet.files.len() == st.sheet.files.len() + (if is_file_line(raw) { 1int } else { 0int }),
{
}

/// Reading the lines from `pos` adds one FILE section per FILE line.
proof fn lemma_lines_file_count(s: Seq<char>, pos: int, st: ParseView)
    ensures
        lines_from(s, pos, st).sheet.files.len() == st.sheet.files.len() + file_lines_from(s, pos),
    decreases s.len() + 1 - pos,
{
    if 0 <= pos <= s.len() {
        let e = line_end(s, pos);
        lemma_find_char_bounds(s, '\n', pos);
        lemma_step_file_count(st, s.subrange(pos, e));
        lemma_lines_file_count(s, e + 1, step(st, s.subrange(pos, e)));
    }
}

/// A parsed sheet has one FILE section per FILE line of the text, whatever
/// else the text holds.
pub proof fn lemma_one_section_per_file_line(text: Seq<char>)
    ensures
        cue_sheet_of(text).files.len() == file_lines_from(text, 0),
{
    lemma_lines_file_count(text, 0, start_state());
}


/// The number of tracks over all FILE sections.
pub open spec fn track_total(files: Seq<FileView>) -> nat
    decreases files.len(),
{
    if files.len() == 0 {
        0
    } else {
        track_total(files.drop_last()) + files.last().tracks.len()
    }
}

/// The line is a TRACK line of type AUDIO (in any case) or of no type.
pub open spec fn is_audio_track_line(raw: Seq<char>) -> bool {
    let line = trim(raw);
    let k = skip_word(line, 0);
    let rest = if k < line.len() { trim(line.subrange(k + 1, line.len() as int)) } else { Seq::empty() };
    &&& line.len() > 0
    &&& upper_seq(line.subrange(0, k)) == kw_track()
    &&& match second_word(rest) {
        Some(w) => lower_seq(w) == kw_audio_lower(),
        None => true,
    }
}

/// The number of audio TRACK lines from position `pos` on.
pub open spec fn audio_track_lines_from(s: Seq<char>, pos: int) -> nat
    decreases s.len() + 1 - pos,
{
    if pos < 0 || pos > s.len() {
        0
    } else {
        let e = line_end(s, pos);
        proof {
            lemma_find_char_bounds(s, '\n', pos);
        }
        (if is_audio_track_line(s.subrange(pos, e)) { 1nat } else { 0nat }) + audio_track_lines_from(s, e + 1)
    }
}

/// One if an audio track is pending.
pub open spec fn pending_audio(st: ParseView) -> nat {
    match st.pending {
        Some(t) => if t.is_audio { 1nat } else { 0nat },
        None => 0nat,
    }
}

/// Appending a section adds its tracks to the total.
proof fn lemma_track_total_push(files: Seq<FileView>, f: FileView)
    ensures
        track_total(files.push(f)) == track_total(files) + f.tracks.len(),
{
    assert(files.push(f).drop_last() =~= files);
}

/// Landing the pending track adds at most that track, and only an audio one.
proof fn lemma_flush_total(st: ParseView)
    ensures
        track_total(flush(st).sheet.files) + pending_audio(flush(st)) <= track_total(st.sheet.files) + pending_audio(st),
        flush(st).pending is None,
{
    if let Some(t) = st.pending {
        let files = st.sheet.files;
        if files.len() > 0 && t.is_audio {
            let n = files.len() - 1;
            let f2 = flush(st).sheet.files[n];
            if flush(st).sheet.files.len() == files.len() && f2 != files[n] {
                assert(flush(st).sheet.files.drop_last() =~= files.drop_last());
            }
        }
    }
}

/// One line adds at most one track, and only an audio TRACK line can.
proof fn lemma_step_total(st: ParseView, raw: Seq<char>)
    ensures
        track_total(step(st, raw).sheet.files) + pending_audio(step(st, raw)) <= track_total(st.sheet.files)
            + pending_audio(st) + (if is_audio_track_line(raw) { 1int } else { 0int }),
{
    let line = trim(raw);
    if line.len() > 0 {
        let k = skip_word(line, 0);
        let kw = upper_seq(line.subrange(0, k));
        let rest = if k < line.len() { trim(line.subrange(k + 1, line.len() as int)) } else { Seq::empty() };
        if kw == kw_file() {
            lemma_flush_total(st);
            let f = FileView { audio: unquote(if last_ws(rest, rest.len() as int) >= 0 { trim(rest.subrange(0, last_ws(rest, rest.len() as int))) } else { rest }), tracks: Seq::empty() };
            lemma_track_total_push(flush(st).sheet.files, f);
        } else if kw == kw_track() {
            lemma_flush_total(st);
        }
    }
}

/// Reading the lines from `pos` adds at most one track per audio TRACK line.
proof fn lemma_lines_total(s: Seq<char>, pos: int, st: ParseView)
    ensures
        track_total(lines_from(s, pos, st).sheet.files) + pending_audio(lines_from(s, pos, st)) <= track_total(
            st.sheet.files,
        ) + pending_audio(st) + audio_track_lines_from(s, pos),
    decreases s.len() + 1 - pos,
{
    if 0 <= pos <= s.len() {
        let e = line_end(s, pos);
        lemma_find_char_bounds(s, '\n', pos);
        lemma_step_total(st, s.subrange(pos, e));
        lemma_lines_total(s, e + 1, step(st, s.subrange(pos, e)));
    }
}

/// Sorting each section keeps the total.
proof fn lemma_sort_files_total(files: Seq<FileView>)
    ensures
        track_total(sort_files(files)) == track_total(files),
    decreases files.len(),
{
    broadcast use vstd::seq_lib::group_to_multiset_ensures;
    if files.len() > 0 {
        assert(sort_files(files).drop_last() =~= sort_files(files.drop_last()));
        lemma_sort_files_total(files.drop_last());
        let t = files.last().tracks;
        lemma_sort_by_number_sorted(t);
        assert(sort_by_number(t).to_multiset().len() == sort_by_number(t).len());
        assert(t.to_multiset().len() == t.len());
        assert(sort_files(files).last().tracks == sort_by_number(t));
    }
}

/// A parsed sheet holds at most one track per TRACK line of type AUDIO (or
/// of no type), whatever else the text holds.
pub proof fn lemma_tracks_come_from_audio_track_lines(text: Seq<char>)
    ensures
        track_total(cue_sheet_of(text).files) <= audio_track_lines_from(text, 0),
{
    lemma_lines_total(text, 0, start_state());
    lemma_flush_total(lines_from(text, 0, start_state()));
    lemma_sort_files_total(parsed(text).sheet.files);
}

/// The shape of any parsed sheet: one FILE section per FILE line, the
/// tracks of every section ordered by number, and no more tracks in all than
/// TRACK lines of type AUDIO (or of no type).
pub proof fn lemma_sheet_structure(text: Seq<char>)
    ensures
        cue_sheet_of(text).files.len() == file_lines_from(text, 0),
        forall|f: int| 0 <= f < cue_sheet_of(text).files.len() ==> numbers_sorted(#[trigger] cue_sheet_of(text).files[f].tracks),
        track_total(cue_sheet_of(text).files) <= audio_track_lines_from(text, 0),
{
    lemma_one_section_per_file_line(text);
    lemma_sheet_tracks_sorted(text);
    lemma_tracks_come_from_audio_track_lines(text);
}

/// The `:`-separated fields of `s`, as `str::split(':')` gives them.
pub open spec fn split_colon(s: Seq<char>) -> Seq<Seq<char>>
    decreases s.len(),
{
    let p = find_char(s, ':', 0);
    proof {
        lemma_find_char_bounds(s, ':', 0);
    }
    if p >= s.len() {
        seq![s]
    } else {
        seq![s.subrange(0, p)] + split_colon(s.subrange(p + 1, s.len() as int))
    }
}

/// The milliseconds of a time given as fields: exactly three fields
/// `mm`, `ss`, `ff` that read as numbers, with `ss` below 60 and `ff` below 75.
pub open spec fn msf_fields(f: Seq<Seq<char>>) -> Option<int> {
    if f.len() != 3 {
        None
    } else {
        match (parse_u64_spec(f[0]), parse_u64_spec(f[1]), parse_u64_spec(f[2])) {
            (Some(mm), Some(ss), Some(ff)) => if ss < 60 && ff < 75 {
                Some(msf_millis(mm as int, ss as int, ff as int))
            } else {
                None
            },
            _ => None,
        }
    }
}

/// Searching a suffix is searching the whole from the suffix's start.
proof fn lemma_find_char_suffix(s: Seq<char>, c: char, j: int, k: int)
    requires
        0 <= j <= s.len(),
        0 <= k,
        j + k <= s.len(),
    ensures
        find_char(s.subrange(j, s.len() as int), c, k) == find_char(s, c, j + k) - j,
    decreases s.len() - (j + k),
{
    let t = s.subrange(j, s.len() as int);
    if j + k < s.len() && s[j + k] != c {
        assert(t[k] == s[j + k]);
        lemma_find_char_suffix(s, c, j, k + 1);
    } else if j + k < s.len() {
        assert(t[k] == s[j + k]);
    }
}

/// `mm:ss:ff` as read by [`msf_spec`] is the same as splitting on `:` into
/// exactly three fields: a valid time is their value, a time too large for
/// 64 bits has a value beyond it, and an invalid text has no such fields.
pub proof fn lemma_msf_is_three_fields(s: Seq<char>)
    ensures
        match msf_spec(s) {
            Msf::Valid(ms) => msf_fields(split_colon(s)) == Some(ms as int),
            Msf::TooLarge => msf_fields(split_colon(s)) matches Some(v) && v > u64::MAX,
            Msf::Invalid => msf_fields(split_colon(s)) is None,
        },
{
    let n = s.len() as int;
    let p1 = find_char(s, ':', 0);
    lemma_find_char_bounds(s, ':', 0);
    if p1 < n {
        let t1 = s.subrange(p1 + 1, n);
        let p2 = find_char(s, ':', p1 + 1);
        lemma_find_char_bounds(s, ':', p1 + 1);
        lemma_find_char_suffix(s, ':', p1 + 1, 0);
        lemma_find_char_bounds(t1, ':', 0);
        let q1 = find_char(t1, ':', 0);
        assert(q1 == p2 - (p1 + 1));
        if p2 < n {
            let t2 = t1.subrange(q1 + 1, t1.len() as int);
            assert(t2 =~= s.subrange(p2 + 1, n));
            let p3 = find_char(s, ':', p2 + 1);
            lemma_find_char_bounds(s, ':', p2 + 1);
            lemma_find_char_suffix(s, ':', p2 + 1, 0);
            lemma_find_char_bounds(t2, ':', 0);
            let q2 = find_char(t2, ':', 0);
            assert(q2 == p3 - (p2 + 1));
            assert(t1.subrange(0, q1) =~= s.subrange(p1 + 1, p2));
            assert(split_colon(s) == seq![s.subrange(0, p1)] + split_colon(t1));
            assert(split_colon(t1) == seq![t1.subrange(0, q1)] + split_colon(t2));
            if p3 < n {
                let t3 = t2.subrange(q2 + 1, t2.len() as int);
                assert(split_colon(t2) == seq![t2.subrange(0, q2)] + split_colon(t3));
                assert(split_colon(t2).len() >= 1);
                assert(split_colon(s).len() >= 4);
            } else {
                assert(split_colon(t2) == seq![t2]);
                assert(split_colon(s) =~= seq![s.subrange(0, p1), s.subrange(p1 + 1, p2), s.subrange(p2 + 1, n)]);
            }
        } else {
            assert(split_colon(t1) == seq![t1]);
            assert(split_colon(s).len() == 2);
        }
    } else {
        assert(split_colon(s) == seq![s]);
    }
}


/// Going back from `j` over non-white-space characters stops at the white
/// space at `p`.
proof fn lemma_last_ws_stops(s: Seq<char>, p: int, j: int)
    requires
        0 <= p < j <= s.len(),
        is_ws(s[p]),
        forall|k: int| p < k < j ==> !is_ws(#[trigger] s[k]),
    ensures
        last_ws(s, j) == p,
    decreases j,
{
    if j - 1 > p {
        lemma_last_ws_stops(s, p, j - 1);
    }
}

/// A text that neither starts nor ends with white space is its own trim.
proof fn lemma_trim_keeps(s: Seq<char>)
    requires
        s.len() > 0,
        !is_ws(s[0]),
        !is_ws(s[s.len() - 1]),
    ensures
        trim(s) == s,
{
    assert(skip_ws(s, 0) == 0);
    assert(crate::text::back_ws(s, 0, s.len() as int) == s.len());
    assert(s.subrange(0, s.len() as int) =~= s);
}

/// A FILE line naming its file in double quotes followed by a type word
/// opens a section whose audio file is exactly the quoted name, white space
/// inside it included: only the last word (the type) is dropped.
pub proof fn lemma_file_name_is_quoted_text(st: ParseView, name: Seq<char>, sep: char, kind: Seq<char>)
    requires
        is_ws(sep),
        kind.len() > 0,
        forall|k: int| 0 <= k < kind.len() ==> !is_ws(#[trigger] kind[k]),
    ensures
        ({
            let post = file_step(st, seq!['"'] + name + seq!['"', sep] + kind);
            &&& post.sheet.files.len() == st.sheet.files.len() + 1
            &&& post.sheet.files.last().audio == name
            &&& post.sheet.files.last().tracks.len() == 0
            &&& post.pending == st.pending
        }),
{
    let q = seq!['"'] + name + seq!['"'];
    let rest = q + seq![sep] + kind;
    assert(seq!['"'] + name + seq!['"', sep] + kind =~= rest);
    let p = q.len() as int;
    assert(rest[p] == sep);
    assert forall|k: int| p < k < rest.len() implies !is_ws(#[trigger] rest[k]) by {
        assert(rest[k] == kind[k - p - 1]);
    }
    lemma_last_ws_stops(rest, p, rest.len() as int);
    assert(rest.subrange(0, p) =~= q);
    assert(q[0] == '"' && q[q.len() - 1] == '"');
    lemma_trim_keeps(q);
    assert(q.subrange(1, q.len() - 1) =~= name);
}

} // verus!

//! Library scanning, apart from the file system and the database: progress
//! events, the scan's totals, and the virtual tracks a CUE sheet makes of a
//! whole-album audio file.

use vstd::prelude::*;

use crate::cue::{opt_text, CueSheet, SheetView, TrackView};
use crate::error::AppError;
use crate::settings::texts;
use crate::engine::sat_sub;
use crate::text::{concat_str, string_of};
use crate::track::{copy_text, new_id, now_text, CueSource, Track};

verus! {

/// A scan progress event.
#[derive(Debug, Clone, PartialEq, Eq)]
pub struct ScanEvent {
    pub scanned_files: u64,
    /// Known once the scan is done.
    pub total_files: Option<u64>,
    pub current_path: String,
    pub done: bool,
    pub error: Option<String>,
}

impl ScanEvent {
    /// Progress while scanning: files so far and the current one.
    pub fn progress(scanned: u64, path: &str) -> (r: Self)
        ensures
            r.scanned_files == scanned,
            r.total_files is None,
            r.current_path@ == path@,
            !r.done,
            r.error is None,
    {
        ScanEvent { scanned_files: scanned, total_files: None, current_path: path.to_owned(), done: false, error: None }
    }

    /// The final event: the total is the number scanned.
    pub fn finished(scanned: u64) -> (r: Self)
        ensures
            r.scanned_files == scanned,
            r.total_files == Some(scanned),
            r.current_path@.len() == 0,
            r.done,
            r.error is None,
    {
        ScanEvent { scanned_files: scanned, total_files: Some(scanned), current_path: String::new(), done: true, error: None }
    }
}

/// Totals of a scan.
#[derive(Debug, Clone, Copy, PartialEq, Eq, Structural)]
pub struct ScanOutcome {
    pub indexed: u64,
    pub skipped_errors: u64,
    pub pruned: u64,
    pub cancelled: bool,
}

impl Default for ScanOutcome {
    fn default() -> (r: Self)
        ensures
            r == (ScanOutcome { indexed: 0, skipped_errors: 0, pruned: 0, cancelled: false }),
    {
        ScanOutcome { indexed: 0, skipped_errors: 0, pruned: 0, cancelled: false }
    }
}

/// Progress is reported every this many audio files.
pub const SCAN_PROGRESS_EVERY: u64 = 50;

/// Scanned tracks are written in batches of this size.
pub const SCAN_BATCH: usize = 200;

/// Whether the scan reports progress after `scanned` files.
pub fn progress_due_at(scanned: u64) -> (r: bool)
    ensures
        r == (scanned % SCAN_PROGRESS_EVERY == 0),
{
    scanned % SCAN_PROGRESS_EVERY == 0
}

/// Decimal digits of `n`.
pub open spec fn decimal(n: nat) -> Seq<char>
    decreases n,
{
    if n < 10 {
        seq![(48 + n) as char]
    } else {
        decimal(n / 10).push((48 + n % 10) as char)
    }
}

/// `n` in decimal, at least two digits (zero-padded).
pub open spec fn two_digits(n: nat) -> Seq<char> {
    if n < 10 {
        seq!['0', (48 + n) as char]
    } else {
        decimal(n)
    }
}

/// The first of two optional texts that is present.
pub open spec fn or_else(a: Option<Seq<char>>, b: Option<Seq<char>>) -> Option<Seq<char>> {
    match a {
        Some(x) => Some(x),
        None => b,
    }
}

/// Where track `i` of a FILE ends: where the next one starts (none for the last).
pub open spec fn track_end(tracks: Seq<TrackView>, i: int) -> Option<u64> {
    if i + 1 < tracks.len() {
        Some(tracks[i + 1].start_ms)
    } else {
        None
    }
}

/// `r` is the virtual track for track `i` of a FILE section of `sheet`,
/// inside the audio file `audio` read as `base`: sheet fields first, then the
/// file's own tags; stream properties from the file; the window from the
/// track's start to the next track's start.
pub open spec fn is_virtual_track(
    r: Track,
    sheet: SheetView,
    tracks: Seq<TrackView>,
    i: int,
    base: Track,
    audio: Seq<char>,
    cue_path: Seq<char>,
    id: Seq<char>,
    now: Seq<char>,
) -> bool {
    let t = tracks[i];
    let end = track_end(tracks, i);
    &&& r.id@ == id
    &&& r.path@ == audio
    &&& r.title@ == (match t.title {
        Some(s) => s,
        None => "Track "@ + two_digits(t.number as nat),
    })
    &&& opt_text(r.artist) == or_else(t.performer, or_else(sheet.album_performer, opt_text(base.artist)))
    &&& opt_text(r.album_artist) == or_else(sheet.album_performer, opt_text(base.album_artist))
    &&& opt_text(r.album) == or_else(sheet.album_title, opt_text(base.album))
    &&& r.track_number == Some(t.number)
    &&& r.disc_number == base.disc_number
    &&& r.year == (match sheet.year {
        Some(y) => Some(y),
        None => base.year,
    })
    &&& opt_text(r.genre) == or_else(sheet.genre, opt_text(base.genre))
    &&& r.duration_ms == sat_sub(
        match end {
            Some(e) => e,
            None => base.duration_ms,
        },
        t.start_ms,
    )
    &&& r.format == base.format
    &&& r.bitrate == base.bitrate
    &&& r.sample_rate == base.sample_rate
    &&& r.bit_depth == base.bit_depth
    &&& r.channels == base.channels
    &&& r.is_lossless == base.is_lossless
    &&& r.has_embedded_cover == base.has_embedded_cover
    &&& r.play_count == 0
    &&& r.last_played is None
    &&& r.date_added@ == now
    &&& r.file_modified == base.file_modified
    &&& r.cue_source matches Some(c) && c.cue_path@ == cue_path && c.cue_index == t.number && c.start_ms
        == t.start_ms && c.end_ms == end
}

/// The decimal digits of `n`.
fn decimal_chars(n: u32) -> (r: Vec<char>)
    ensures
        r@ == decimal(n as nat),
    decreases n,
{
    if n < 10 {
        let c = crate::text::char_from_ascii(48 + n);
        vec![c]
    } else {
        let mut v = decimal_chars(n / 10);
        let c = crate::text::char_from_ascii(48 + n % 10);
        v.push(c);
        v
    }
}

/// The title of a track without one: `Track` and its number, two digits at least.
fn default_title(number: u32) -> (r: String)
    ensures
        r@ == "Track "@ + two_digits(number as nat),
{
    let mut digits: Vec<char> = Vec::new();
    if number < 10 {
        digits.push('0');
        digits.push(crate::text::char_from_ascii(48 + number));
        assert(digits@ =~= two_digits(number as nat));
    } else {
        digits = decimal_chars(number);
    }
    let d = string_of(&digits, 0, digits.len());
    assert(digits@.subrange(0, digits@.len() as int) =~= digits@);
    concat_str("Track ", d.as_str())
}

/// The first present one of two optional texts.
fn first_text(a: &Option<String>, b: &Option<String>) -> (r: Option<String>)
    ensures
        opt_text(r) == or_else(opt_text(*a), opt_text(*b)),
{
    match a {
        Some(s) => Some(s.clone()),
        None => copy_text(b),
    }
}

/// The virtual tracks of FILE section `file_index` of `sheet` (see
/// [`is_virtual_track`]), one per track, with the given ids and time added.
pub fn cue_file_tracks(
    sheet: &CueSheet,
    file_index: usize,
    base: &Track,
    audio: &str,
    cue_path: &str,
    ids: &Vec<String>,
    now: &String,
) -> (r: Vec<Track>)
    requires
        file_index < sheet@.files.len(),
        ids@.len() == sheet@.files[file_index as int].tracks.len(),
    ensures
        r@.len() == sheet@.files[file_index as int].tracks.len(),
        forall|i: int|
            0 <= i < r@.len() ==> is_virtual_track(
                #[trigger] r@[i],
                sheet@,
                sheet@.files[file_index as int].tracks,
                i,
                *base,
                audio@,
                cue_path@,
                ids@[i]@,
                now@,
            ),
{
    let file = &sheet.files[file_index];
    let ghost tv = sheet@.files[file_index as int].tracks;
    assert(tv == crate::cue::track_views(file.tracks@));
    let n = file.tracks.len();
    let mut out: Vec<Track> = Vec::new();
    let mut i: usize = 0;
    while i < n
        invariant
            i <= n,
            n == file.tracks@.len(),
            file == &sheet.files[file_index as int],
            tv == crate::cue::track_views(file.tracks@),
            tv == sheet@.files[file_index as int].tracks,
            ids@.len() == n,
            out@.len() == i,
            forall|k: int|
                0 <= k < i ==> is_virtual_track(
                    #[trigger] out@[k],
                    sheet@,
                    tv,
                    k,
                    *base,
                    audio@,
                    cue_path@,
                    ids@[k]@,
                    now@,
                ),
        decreases n - i,
    {
        let t = &file.tracks[i];
        assert(tv[i as int] == t@);
        let end_ms = if i + 1 < n {
            assert(tv[i + 1] == file.tracks@[i + 1]@);
            Some(file.tracks[i + 1].start_ms)
        } else {
            None
        };
        let end = match end_ms {
            Some(e) => e,
            None => base.duration_ms,
        };
        let duration_ms = if end >= t.start_ms {
            end - t.start_ms
        } else {
            0
        };
        let title = match &t.title {
            Some(s) => s.clone(),
            None => default_title(t.number),
        };
        let performer_or_album = first_text(&sheet.album_performer, &base.artist);
        let artist = first_text(&t.performer, &performer_or_album);
        let year = match sheet.year {
            Some(y) => Some(y),
            None => base.year,
        };
        let track = Track {
            id: ids[i].clone(),
            path: audio.to_owned(),
            title,
            artist,
            album_artist: first_text(&sheet.album_performer, &base.album_artist),
            album: first_text(&sheet.album_title, &base.album),
            track_number: Some(t.number),
            disc_number: base.disc_number,
            year,
            genre: first_text(&sheet.genre, &base.genre),
            duration_ms,
            format: base.format,
            bitrate: base.bitrate,
            sample_rate: base.sample_rate,
            bit_depth: base.bit_depth,
            channels: base.channels,
            is_lossless: base.is_lossless,
            has_embedded_cover: base.has_embedded_cover,
            play_count: 0,
            last_played: None,
            date_added: now.clone(),
            file_modified: base.file_modified.clone(),
            cue_source: Some(
                CueSource { cue_path: cue_path.to_owned(), cue_index: t.number, start_ms: t.start_ms, end_ms },
            ),
        };
        out.push(track);
        i = i + 1;
    }
    out
}

/// The virtual tracks of FILE section `file_index`, each with a fresh id and
/// the current time as its time added (see [`cue_file_tracks`]).
pub fn cue_virtual_tracks(sheet: &CueSheet, file_index: usize, base: &Track, audio: &str, cue_path: &str) -> (r: Vec<
    Track,
>)
    requires
        file_index < sheet@.files.len(),
    ensures
        r@.len() == sheet@.files[file_index as int].tracks.len(),
        forall|i: int|
            0 <= i < r@.len() ==> is_virtual_track(
                #[trigger] r@[i],
                sheet@,
                sheet@.files[file_index as int].tracks,
                i,
                *base,
                audio@,
                cue_path@,
                r@[i].id@,
                r@[i].date_added@,
            ) && r@[i].id@.len() == 36,
{
    let n = sheet.files[file_index].tracks.len();
    assert(sheet@.files[file_index as int].tracks.len() == n);
    let mut ids: Vec<String> = Vec::new();
    let mut i: usize = 0;
    while i < n
        invariant
            i <= n,
            ids@.len() == i,
            forall|k: int| 0 <= k < i ==> (#[trigger] ids@[k])@.len() == 36,
        decreases n - i,
    {
        ids.push(new_id());
        i = i + 1;
    }
    let now = now_text();
    cue_file_tracks(sheet, file_index, base, audio, cue_path, &ids, &now)
}

/// The CUE track numbers of some tracks (tracks without a CUE source are skipped).
pub open spec fn cue_numbers(tracks: Seq<Track>) -> Seq<u32>
    decreases tracks.len(),
{
    if tracks.len() == 0 {
        Seq::empty()
    } else {
        match tracks.last().cue_source {
            Some(c) => cue_numbers(tracks.drop_last()).push(c.cue_index),
            None => cue_numbers(tracks.drop_last()),
        }
    }
}

/// The CUE track numbers still present in a sheet's virtual tracks (the
/// stored ones with other numbers are pruned).
pub fn cue_indexes(tracks: &Vec<Track>) -> (r: Vec<u32>)
    ensures
        r@ == cue_numbers(tracks@),
{
    let mut out: Vec<u32> = Vec::new();
    let mut i: usize = 0;
    while i < tracks.len()
        invariant
            i <= tracks.len(),
            out@ == cue_numbers(tracks@.take(i as int)),
        decreases tracks.len() - i,
    {
        assert(tracks@.take(i + 1).drop_last() =~= tracks@.take(i as int));
        match &tracks[i].cue_source {
            Some(c) => out.push(c.cue_index),
            None => {},
        }
        i = i + 1;
    }
    assert(tracks@.take(tracks@.len() as int) =~= tracks@);
    out
}

/// The texts of `stored` that do not occur among `seen`, in order.
pub open spec fn unseen(stored: Seq<String>, seen: Seq<String>) -> Seq<String>
    decreases stored.len(),
{
    if stored.len() == 0 {
        stored
    } else if crate::settings::texts(seen).contains(stored.last()@) {
        unseen(stored.drop_last(), seen)
    } else {
        unseen(stored.drop_last(), seen).push(stored.last())
    }
}

/// Whether `t` reads like one of `seen`.
fn seen_text(seen: &Vec<String>, t: &String) -> (r: bool)
    ensures
        r == crate::settings::texts(seen@).contains(t@),
{
    let ghost ts = crate::settings::texts(seen@);
    let mut j: usize = 0;
    while j < seen.len()
        invariant
            j <= seen.len(),
            ts == crate::settings::texts(seen@),
            forall|k: int| 0 <= k < j ==> ts[k] != t@,
        decreases seen.len() - j,
    {
        if seen[j] == *t {
            assert(ts[j as int] == t@);
            return true;
        }
        j = j + 1;
    }
    false
}

/// Stored entries a scan no longer saw (files gone, CUE sheets gone or
/// unplayable): those of `stored` not among `seen`.
pub fn stale_entries(stored: Vec<String>, seen: &Vec<String>) -> (r: Vec<String>)
    ensures
        r@ == unseen(stored@, seen@),
{
    let mut out: Vec<String> = Vec::new();
    let mut i: usize = 0;
    while i < stored.len()
        invariant
            i <= stored.len(),
            out@ == unseen(stored@.take(i as int), seen@),
        decreases stored.len() - i,
    {
        assert(stored@.take(i + 1).drop_last() =~= stored@.take(i as int));
        if !seen_text(seen, &stored[i]) {
            out.push(stored[i].clone());
        }
        i = i + 1;
    }
    assert(stored@.take(stored@.len() as int) =~= stored@);
    out
}

/// How an opened file is imported.
#[derive(Debug, Clone, Copy, PartialEq, Eq, Structural)]
pub enum ImportKind {
    /// A CUE sheet: its virtual tracks.
    Sheet,
    /// A supported audio file.
    Audio,
    /// Anything else is skipped.
    Skip,
}

/// How a file is imported: CUE sheets first, then supported audio formats.
pub fn import_kind(path: &str) -> (r: ImportKind)
    ensures
        r == (if crate::media::is_cue_path(path@) {
            ImportKind::Sheet
        } else if crate::track::format_of_path(path@) is Some {
            ImportKind::Audio
        } else {
            ImportKind::Skip
        }),
{
    if crate::media::is_cue(path) {
        ImportKind::Sheet
    } else if crate::track::MediaFormat::from_path(path).is_some() {
        ImportKind::Audio
    } else {
        ImportKind::Skip
    }
}


/// A scan in progress: the totals so far, the tracks waiting to be written,
/// and, for the directory being scanned, the paths seen, the whole audio files
/// covered by a CUE sheet and the sheets that still yield tracks.
pub struct ScanState {
    pub outcome: ScanOutcome,
    pub scanned: u64,
    pub batch: Vec<Track>,
    pub seen: Vec<String>,
    pub covered: Vec<String>,
    pub live_sheets: Vec<String>,
}

/// What the scan is told next.
pub enum ScanInput {
    /// A new directory begins: its seen, covered and live-sheet lists start empty.
    StartDir,
    /// A walked entry, in the CUE pass (`cue_pass`) or in the audio pass;
    /// `cancel` is the cancellation flag read at this entry.
    Entry { path: String, is_file: bool, cue_pass: bool, cancel: bool },
    /// The sheet at `path` was read: its (audio path, virtual tracks) groups.
    Sheet { path: String, groups: Vec<(String, Vec<Track>)> },
    /// A sheet could not be read.
    SheetFailed,
    /// The audio file's track was read.
    TrackRead(Track),
    /// The audio file could not be read.
    TrackFailed,
    /// This many stale rows were deleted.
    Pruned(u64),
    /// All directories are done, or the scan stopped.
    Finish,
}

/// What the scan asks for next.
pub enum ScanAction {
    /// Cancelled: stop walking.
    Stop,
    /// Pass over this entry.
    Skip,
    /// Read the CUE sheet at this entry.
    ReadSheet,
    /// For each group of the sheet: drop the whole-file row of the audio path
    /// and prune the sheet's stored tracks to these CUE numbers.
    ApplySheet(Vec<(String, Vec<u32>)>),
    /// Read this audio file's tags; `progress` asks for a progress event.
    ReadTrack { progress: bool },
    /// Write these tracks.
    Flush(Vec<Track>),
    /// Nothing to do.
    Continue,
}

/// The audio paths of a sheet's groups, as text.
pub open spec fn group_audio(g: Seq<(String, Vec<Track>)>) -> Seq<Seq<char>> {
    g.map_values(|p: (String, Vec<Track>)| p.0@)
}

/// All virtual tracks of a sheet's groups, in order.
pub open spec fn group_tracks(g: Seq<(String, Vec<Track>)>) -> Seq<Track>
    decreases g.len(),
{
    if g.len() == 0 {
        Seq::empty()
    } else {
        group_tracks(g.drop_last()) + g.last().1@
    }
}

/// For each group: its audio path and the CUE numbers of its tracks.
pub open spec fn group_keeps(g: Seq<(String, Vec<Track>)>) -> Seq<(Seq<char>, Seq<u32>)> {
    g.map_values(|p: (String, Vec<Track>)| (p.0@, cue_numbers(p.1@)))
}

/// The texts of the (audio path, CUE numbers) pairs handed out.
pub open spec fn keep_views(v: Seq<(String, Vec<u32>)>) -> Seq<(Seq<char>, Seq<u32>)> {
    v.map_values(|p: (String, Vec<u32>)| (p.0@, p.1@))
}

/// The state with the totals replaced.
pub open spec fn with_outcome(s: ScanState, o: ScanOutcome) -> ScanState {
    ScanState { outcome: o, ..s }
}

/// No total of the scan overflows on this input.
pub open spec fn scan_fits(s: ScanState, input: ScanInput) -> bool {
    match input {
        ScanInput::Entry { path, is_file, cue_pass, cancel } => !cancel && !cue_pass ==> s.scanned < u64::MAX,
        ScanInput::SheetFailed | ScanInput::TrackFailed => s.outcome.skipped_errors < u64::MAX,
        ScanInput::TrackRead(t) => s.outcome.indexed + s.batch@.len() + 1 <= u64::MAX,
        ScanInput::Pruned(n) => s.outcome.pruned + n <= u64::MAX,
        ScanInput::Finish => s.outcome.indexed + s.batch@.len() <= u64::MAX,
        _ => true,
    }
}

/// Whether `path` is one of `list`, by text.
pub open spec fn listed(list: Vec<String>, path: Seq<char>) -> bool {
    texts(list@).contains(path)
}

/// Effect of one scan step on the state and the action asked for.
pub open spec fn scan_step_post(pre: ScanState, input: ScanInput, post: ScanState, a: ScanAction) -> bool {
    match input {
        ScanInput::StartDir => {
            &&& texts(post.seen@) == Seq::<Seq<char>>::empty()
            &&& texts(post.covered@) == Seq::<Seq<char>>::empty()
            &&& texts(post.live_sheets@) == Seq::<Seq<char>>::empty()
            &&& post.outcome == pre.outcome
            &&& post.scanned == pre.scanned
            &&& post.batch@ == pre.batch@
            &&& a is Continue
        },
        ScanInput::Entry { path, is_file, cue_pass, cancel } => {
            if cancel {
                post == with_outcome(pre, ScanOutcome { cancelled: true, ..pre.outcome }) && a is Stop
            } else if cue_pass {
                post == pre && if is_file && crate::media::is_cue_path(path@) {
                    a is ReadSheet
                } else {
                    a is Skip
                }
            } else if !is_file || crate::track::format_of_path(path@) is None || listed(pre.covered, path@) {
                post == pre && a is Skip
            } else {
                &&& texts(post.seen@) == texts(pre.seen@).push(path@)
                &&& post.scanned == pre.scanned + 1
                &&& post.outcome == pre.outcome
                &&& post.batch@ == pre.batch@
                &&& post.covered == pre.covered
                &&& post.live_sheets == pre.live_sheets
                &&& a == (ScanAction::ReadTrack { progress: (pre.scanned + 1) % (SCAN_PROGRESS_EVERY as int) == 0 })
            }
        },
        ScanInput::Sheet { path, groups } => {
            if groups@.len() == 0 {
                post == pre && a is Continue
            } else {
                &&& texts(post.live_sheets@) == texts(pre.live_sheets@).push(path@)
                &&& texts(post.covered@) == texts(pre.covered@) + group_audio(groups@)
                &&& texts(post.seen@) == texts(pre.seen@) + group_audio(groups@)
                &&& post.batch@ == pre.batch@ + group_tracks(groups@)
                &&& post.outcome == pre.outcome
                &&& post.scanned == pre.scanned
                &&& a matches ScanAction::ApplySheet(v) && keep_views(v@) == group_keeps(groups@)
            }
        },
        ScanInput::SheetFailed | ScanInput::TrackFailed => {
            post == with_outcome(pre, ScanOutcome { skipped_errors: (pre.outcome.skipped_errors + 1) as u64, ..pre.outcome })
                && a is Continue
        },
        ScanInput::TrackRead(t) => {
            let b = pre.batch@.push(t);
            if b.len() >= SCAN_BATCH {
                &&& post.batch@ == Seq::<Track>::empty()
                &&& post.outcome == ScanOutcome { indexed: (pre.outcome.indexed + b.len()) as u64, ..pre.outcome }
                &&& a matches ScanAction::Flush(v) && v@ == b
                &&& post.scanned == pre.scanned && post.seen == pre.seen && post.covered == pre.covered
                &&& post.live_sheets == pre.live_sheets
            } else {
                post == ScanState { batch: post.batch, ..pre } && post.batch@ == b && a is Continue
            }
        },
        ScanInput::Pruned(n) => {
            post == with_outcome(pre, ScanOutcome { pruned: (pre.outcome.pruned + n) as u64, ..pre.outcome })
                && a is Continue
        },
        ScanInput::Finish => {
            if pre.batch@.len() > 0 {
                &&& post.batch@ == Seq::<Track>::empty()
                &&& post.outcome == ScanOutcome {
                    indexed: (pre.outcome.indexed + pre.batch@.len()) as u64,
                    ..pre.outcome
                }
                &&& a matches ScanAction::Flush(v) && v@ == pre.batch@
                &&& post.scanned == pre.scanned && post.seen == pre.seen && post.covered == pre.covered
                &&& post.live_sheets == pre.live_sheets
            } else {
                post == pre && a is Continue
            }
        },
    }
}

impl ScanState {
    /// A scan that has done nothing yet.
    pub fn new() -> (r: Self)
        ensures
            r.outcome == (ScanOutcome { indexed: 0, skipped_errors: 0, pruned: 0, cancelled: false }),
            r.scanned == 0,
            r.batch@.len() == 0,
            r.seen@.len() == 0,
            r.covered@.len() == 0,
            r.live_sheets@.len() == 0,
    {
        ScanState {
            outcome: ScanOutcome { indexed: 0, skipped_errors: 0, pruned: 0, cancelled: false },
            scanned: 0,
            batch: Vec::new(),
            seen: Vec::new(),
            covered: Vec::new(),
            live_sheets: Vec::new(),
        }
    }

    /// Whether [`scan_step`] can take `input`: no total would overflow.
    pub fn can_step(&self, input: &ScanInput) -> (r: bool)
        ensures
            r == scan_fits(*self, *input),
    {
        match input {
            ScanInput::Entry { path: _, is_file: _, cue_pass, cancel } => *cancel || *cue_pass || self.scanned < u64::MAX,
            ScanInput::SheetFailed | ScanInput::TrackFailed => self.outcome.skipped_errors < u64::MAX,
            ScanInput::TrackRead(_) => self.batch.len() as u64 <= u64::MAX - 1 && self.outcome.indexed <= u64::MAX - 1
                - self.batch.len() as u64,
            ScanInput::Pruned(n) => self.outcome.pruned <= u64::MAX - *n,
            ScanInput::Finish => self.batch.len() as u64 <= u64::MAX && self.outcome.indexed <= u64::MAX
                - self.batch.len() as u64,
            _ => true,
        }
    }
}

/// Hands out the pending tracks, counting them as indexed.
fn take_batch(state: &mut ScanState) -> (r: Vec<Track>)
    requires
        old(state).outcome.indexed + old(state).batch@.len() <= u64::MAX,
    ensures
        r@ == old(state).batch@,
        final(state).batch@ == Seq::<Track>::empty(),
        final(state).outcome == (ScanOutcome {
            indexed: (old(state).outcome.indexed + old(state).batch@.len()) as u64,
            ..old(state).outcome
        }),
        final(state).scanned == old(state).scanned,
        final(state).seen == old(state).seen,
        final(state).covered == old(state).covered,
        final(state).live_sheets == old(state).live_sheets,
{
    let n = state.batch.len() as u64;
    state.outcome.indexed = state.outcome.indexed + n;
    let mut out: Vec<Track> = Vec::new();
    out.append(&mut state.batch);
    out
}

/// Takes in a sheet's groups: its audio files become covered and seen, its
/// virtual tracks join the batch.
fn add_sheet_groups(state: &mut ScanState, groups: Vec<(String, Vec<Track>)>) -> (r: Vec<(String, Vec<u32>)>)
    ensures
        texts(final(state).covered@) == texts(old(state).covered@) + group_audio(groups@),
        texts(final(state).seen@) == texts(old(state).seen@) + group_audio(groups@),
        final(state).batch@ == old(state).batch@ + group_tracks(groups@),
        final(state).outcome == old(state).outcome,
        final(state).scanned == old(state).scanned,
        final(state).live_sheets == old(state).live_sheets,
        keep_views(r@) == group_keeps(groups@),
{
    let ghost g0 = groups@;
    let mut rest = groups;
    let mut keeps: Vec<(String, Vec<u32>)> = Vec::new();
    while rest.len() > 0
        invariant
            g0.len() >= rest@.len(),
            rest@ == g0.skip(g0.len() - rest@.len()),
            texts(state.covered@) == texts(old(state).covered@) + group_audio(g0.take(g0.len() - rest@.len())),
            texts(state.seen@) == texts(old(state).seen@) + group_audio(g0.take(g0.len() - rest@.len())),
            state.batch@ == old(state).batch@ + group_tracks(g0.take(g0.len() - rest@.len())),
            keep_views(keeps@) == group_keeps(g0.take(g0.len() - rest@.len())),
            state.outcome == old(state).outcome,
            state.scanned == old(state).scanned,
            state.live_sheets == old(state).live_sheets,
        decreases rest.len(),
    {
        let ghost k = g0.len() - rest@.len();
        let ghost pre_cov = state.covered@;
        let ghost pre_seen = state.seen@;
        let ghost pre_keeps = keeps@;
        let (audio, tracks) = rest.remove(0);
        proof {
            assert(g0[k] == (audio, tracks));
            assert(rest@ =~= g0.skip(k + 1));
            assert(g0.take(k + 1).drop_last() =~= g0.take(k));
            assert(group_audio(g0.take(k + 1)) =~= group_audio(g0.take(k)).push(audio@));
            assert(group_keeps(g0.take(k + 1)) =~= group_keeps(g0.take(k)).push((audio@, cue_numbers(tracks@))));
        }
        let mut tracks = tracks;
        let keep = cue_indexes(&tracks);
        state.covered.push(audio.clone());
        state.seen.push(audio.clone());
        state.batch.append(&mut tracks);
        keeps.push((audio, keep));
        proof {
            assert(texts(state.covered@) =~= texts(pre_cov).push(audio@));
            assert(texts(state.seen@) =~= texts(pre_seen).push(audio@));
            assert(keep_views(keeps@) =~= keep_views(pre_keeps).push((audio@, cue_numbers(g0[k].1@))));
        }
    }
    assert(g0.take(g0.len() as int) =~= g0);
    keeps
}

/// One decision of a library scan. The caller walks each directory twice
/// (CUE sheets first, then audio files), reads sheets and tags, writes
/// batches, prunes stale rows, and tells the scan what happened; the scan
/// keeps the totals and says what to do: a raised cancellation flag stops the
/// walk and marks the scan cancelled; entries that are not files, not of the
/// pass's kind, or audio files covered by a sheet are skipped; every
/// [`SCAN_BATCH`] read tracks are flushed; progress is asked for every
/// [`SCAN_PROGRESS_EVERY`] audio files.
pub fn scan_step(state: &mut ScanState, input: ScanInput) -> (a: ScanAction)
    requires
        scan_fits(*old(state), input),
    ensures
        scan_step_post(*old(state), input, *final(state), a),
{
    match input {
        ScanInput::StartDir => {
            state.seen = Vec::new();
            state.covered = Vec::new();
            state.live_sheets = Vec::new();
            proof {
                assert(texts(state.seen@) =~= Seq::<Seq<char>>::empty());
                assert(texts(state.covered@) =~= Seq::<Seq<char>>::empty());
                assert(texts(state.live_sheets@) =~= Seq::<Seq<char>>::empty());
            }
            ScanAction::Continue
        },
        ScanInput::Entry { path, is_file, cue_pass, cancel } => {
            if cancel {
                state.outcome.cancelled = true;
                ScanAction::Stop
            } else if cue_pass {
                if is_file && crate::media::is_cue(&path) {
                    ScanAction::ReadSheet
                } else {
                    ScanAction::Skip
                }
            } else if !is_file || crate::track::MediaFormat::from_path(&path).is_none() || seen_text(
                &state.covered,
                &path,
            ) {
                ScanAction::Skip
            } else {
                let ghost pre_seen = state.seen@;
                state.seen.push(path);
                proof {
                    assert(texts(state.seen@) =~= texts(pre_seen).push(path@));
                }
                state.scanned = state.scanned + 1;
                ScanAction::ReadTrack { progress: progress_due_at(state.scanned) }
            }
        },
        ScanInput::Sheet { path, groups } => {
            if groups.len() == 0 {
                return ScanAction::Continue;
            }
            let ghost pre_live = state.live_sheets@;
            state.live_sheets.push(path);
            proof {
                assert(texts(state.live_sheets@) =~= texts(pre_live).push(path@));
            }
            let keeps = add_sheet_groups(state, groups);
            ScanAction::ApplySheet(keeps)
        },
        ScanInput::SheetFailed | ScanInput::TrackFailed => {
            state.outcome.skipped_errors = state.outcome.skipped_errors + 1;
            ScanAction::Continue
        },
        ScanInput::TrackRead(t) => {
            state.batch.push(t);
            if state.batch.len() >= SCAN_BATCH {
                ScanAction::Flush(take_batch(state))
            } else {
                ScanAction::Continue
            }
        },
        ScanInput::Pruned(n) => {
            state.outcome.pruned = state.outcome.pruned + n;
            ScanAction::Continue
        },
        ScanInput::Finish => {
            if state.batch.len() > 0 {
                ScanAction::Flush(take_batch(state))
            } else {
                ScanAction::Continue
            }
        },
    }
}


/// The tracks of a sheet's audio file that are its virtual tracks.
pub open spec fn sheet_tracks(v: Seq<Track>) -> Seq<Track> {
    v.filter(|t: Track| has_cue(t))
}

/// The track is a CUE virtual track.
pub open spec fn has_cue(t: Track) -> bool {
    t.cue_source is Some
}

/// Files opened from outside (command line, a second instance) being
/// imported: the tracks to hand back so far.
pub struct ImportState {
    pub out: Vec<Track>,
}

/// What the import is told next.
pub enum ImportEvent {
    /// The next path (made absolute), and whether it is a file.
    Path { path: String, is_file: bool },
    /// The stored rows of the audio file being looked up.
    Stored(Vec<Track>),
    /// The stored rows of an audio file of the sheet being expanded, after
    /// its virtual tracks were written.
    SheetRows(Vec<Track>),
    /// The audio file's tags, or why they could not be read.
    Read(Result<Track, AppError>),
}

/// What the import asks for next.
pub enum ImportAction {
    /// Pass over this path.
    Skip,
    /// Expand this CUE sheet: write its virtual tracks and report each audio
    /// file's stored rows.
    ExpandSheet(String),
    /// Look up the stored rows of this audio file.
    LookUp(String),
    /// The file is in the library already; its rows are handed back.
    Reuse,
    /// The file is new: read its tags.
    ReadTags,
    /// Write the track just handed back (the last one).
    Insert,
    /// Nothing to do.
    Continue,
}

/// Effect of one import step.
pub open spec fn import_step_post(pre: Seq<Track>, ev: ImportEvent, post: Seq<Track>, a: ImportAction) -> bool {
    match ev {
        ImportEvent::Path { path, is_file } => post == pre && if !is_file {
            a is Skip
        } else if crate::media::is_cue_path(path@) {
            a matches ImportAction::ExpandSheet(p) && p@ == path@
        } else if crate::track::format_of_path(path@) is Some {
            a matches ImportAction::LookUp(p) && p@ == path@
        } else {
            a is Skip
        },
        ImportEvent::Stored(v) => if v@.len() > 0 {
            post == pre + v@ && a is Reuse
        } else {
            post == pre && a is ReadTags
        },
        ImportEvent::SheetRows(v) => post == pre + sheet_tracks(v@) && a is Continue,
        ImportEvent::Read(r) => match r {
            Ok(t) => post == pre.push(t) && a is Insert,
            Err(_) => post == pre && a is Skip,
        },
    }
}

/// Keeps the virtual tracks among a sheet audio file's rows.
fn take_sheet_tracks(out: &mut Vec<Track>, rows: Vec<Track>)
    ensures
        final(out)@ == old(out)@ + sheet_tracks(rows@),
{
    let ghost g = rows@;
    let n = rows.len();
    let mut rest = rows;
    let mut i: usize = 0;
    while rest.len() > 0
        invariant
            g.len() == n,
            i + rest@.len() == g.len(),
            rest@ == g.skip(i as int),
            out@ == old(out)@ + sheet_tracks(g.take(i as int)),
        decreases rest.len(),
    {
        let t = rest.remove(0);
        proof {
            assert(t == g[i as int]);
            assert(rest@ =~= g.skip(i + 1));
            assert(g.take(i + 1).drop_last() =~= g.take(i as int));
            assert(g.take(i + 1).last() == t);
            reveal(Seq::filter);
            assert(g.take(i + 1).len() > 0);
        }
        let ghost f0 = sheet_tracks(g.take(i as int));
        if t.cue_source.is_some() {
            assert(sheet_tracks(g.take(i + 1)) == f0.push(t)) by {
                reveal(Seq::filter);
            }
            out.push(t);
            assert(out@ =~= old(out)@ + sheet_tracks(g.take(i + 1)));
        } else {
            assert(sheet_tracks(g.take(i + 1)) == f0) by {
                reveal(Seq::filter);
            }
            assert(out@ =~= old(out)@ + sheet_tracks(g.take(i + 1)));
        }
        i = i + 1;
    }
    assert(g.take(i as int) =~= g);
}

/// One decision of importing opened files. The caller makes each path
/// absolute, reads the file system and the store, and tells the import what
/// it found: paths that are not files, and files neither CUE sheets nor
/// supported audio, are skipped; a sheet is expanded and only its virtual
/// tracks are handed back; an audio file already in the library hands back
/// its stored rows (all virtual tracks of a file a sheet covers), otherwise
/// its tags are read and the new track is written and handed back; a file
/// that cannot be read is skipped without stopping the batch.
pub fn import_step(state: &mut ImportState, ev: ImportEvent) -> (a: ImportAction)
    ensures
        import_step_post(old(state).out@, ev, final(state).out@, a),
{
    match ev {
        ImportEvent::Path { path, is_file } => {
            if !is_file {
                ImportAction::Skip
            } else {
                match import_kind(&path) {
                    ImportKind::Sheet => ImportAction::ExpandSheet(path),
                    ImportKind::Audio => ImportAction::LookUp(path),
                    ImportKind::Skip => ImportAction::Skip,
                }
            }
        },
        ImportEvent::Stored(v) => {
            if v.len() > 0 {
                let mut v = v;
                state.out.append(&mut v);
                ImportAction::Reuse
            } else {
                ImportAction::ReadTags
            }
        },
        ImportEvent::SheetRows(v) => {
            take_sheet_tracks(&mut state.out, v);
            ImportAction::Continue
        },
        ImportEvent::Read(r) => match r {
            Ok(t) => {
                state.out.push(t);
                ImportAction::Insert
            },
            Err(_) => ImportAction::Skip,
        },
    }
}


/// The artist of a virtual track is the CUE track's own PERFORMER when it
/// has one, whatever the album PERFORMER says; without one, the album
/// PERFORMER; without either, the audio file's artist tag. The album artist
/// is the album PERFORMER, else the file's album-artist tag.
pub proof fn lemma_virtual_track_artist(
    r: Track,
    sheet: SheetView,
    tracks: Seq<TrackView>,
    i: int,
    base: Track,
    audio: Seq<char>,
    cue_path: Seq<char>,
    id: Seq<char>,
    now: Seq<char>,
)
    requires
        is_virtual_track(r, sheet, tracks, i, base, audio, cue_path, id, now),
    ensures
        tracks[i].performer is Some ==> opt_text(r.artist) == tracks[i].performer,
        tracks[i].performer is None && sheet.album_performer is Some ==> opt_text(r.artist) == sheet.album_performer,
        tracks[i].performer is None && sheet.album_performer is None ==> opt_text(r.artist) == opt_text(base.artist),
        sheet.album_performer is Some ==> opt_text(r.album_artist) == sheet.album_performer,
        sheet.album_performer is None ==> opt_text(r.album_artist) == opt_text(base.album_artist),
{
}
} // verus!

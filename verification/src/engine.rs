//! The bridge between the player state machine and the playback engine:
//! engine events update the player (for a CUE track, whole-file times become
//! track times), engine commands become engine payloads (a seek's track time
//! becomes a whole-file time again), and audio output settings become
//! engine options.

use vstd::prelude::*;

use crate::error::AppError;
use crate::media::is_video;
use crate::player::{
    end_file_post, end_file_ready, file_loaded, load_cmd, loaded, at_index, pause_changed, play_queue_post,
    progressed, CoreView, EngineCmd, PlayerCore,
};
use crate::settings::{AudioBackend, AudioOutputConfig, ReplayGainMode};
use crate::shuffle::{first_match, has_match, lemma_first_match, position_of};
use crate::text::{chars_eq, chars_of};
use crate::track::Track;

verus! {

/// The CUE window of the current track: its span inside the whole-album file.
#[derive(Debug, Clone, Copy, PartialEq, Eq, Structural)]
pub struct CueWindow {
    pub start_ms: u64,
    pub end_ms: Option<u64>,
}

/// What a player watcher receives.
#[derive(Debug, Clone)]
pub enum WatchPayload {
    Progress { position_ms: u64, duration_ms: u64 },
    State { state: crate::models::PlayerState },
}

/// An instruction for the engine.
#[derive(Debug, Clone, PartialEq, Eq)]
pub enum EngineCmdPayload {
    /// `start_ms`/`end_ms`: the CUE window inside the file (absolute times), if any.
    Load { path: String, start_ms: Option<u64>, end_ms: Option<u64> },
    Pause,
    Resume,
    Stop,
    Seek { position_ms: u64 },
    SetVolume { volume: u32 },
    /// Output options: exclusive mode, device (`auto` for the default),
    /// gapless, ReplayGain mode (`no`, `track`, `album`), loudness fallback.
    SetAudioOptions { exclusive: bool, device: String, gapless: bool, replay_gain: String, loudnorm_fallback: bool },
}

/// What an engine event asks the caller to push to watchers.
#[derive(Debug, Clone, Copy, PartialEq, Eq, Structural)]
pub enum EnginePush {
    /// Nothing to push.
    Silent,
    /// Position/duration only.
    Progress,
    /// The whole state.
    State,
}

/// `a - b`, or 0 when `b` is larger.
pub open spec fn sat_sub(a: u64, b: u64) -> u64 {
    if a >= b {
        (a - b) as u64
    } else {
        0
    }
}

/// Where the window starts inside the file (0 without a window).
pub open spec fn window_offset(w: Option<CueWindow>) -> u64 {
    match w {
        Some(w) => w.start_ms,
        None => 0,
    }
}

/// A whole-file time as a time within the track (clamped at the track start).
pub open spec fn relative_ms(abs_ms: u64, w: Option<CueWindow>) -> u64 {
    sat_sub(abs_ms, window_offset(w))
}

/// The track's duration from the whole file's: the window's span (up to the
/// end of the file for a last track); the file's own without a window.
pub open spec fn track_duration_of(full_ms: u64, w: Option<CueWindow>) -> u64 {
    match w {
        Some(w) => sat_sub(
            match w.end_ms {
                Some(e) => e,
                None => full_ms,
            },
            w.start_ms,
        ),
        None => full_ms,
    }
}

/// Effect of an engine event. `ms` is the event value as milliseconds when it
/// is a number of seconds, `flag` the value when it is a boolean.
pub open spec fn engine_event_post(
    pre: CoreView,
    event: Seq<char>,
    ms: Option<u64>,
    flag: Option<bool>,
    w: Option<CueWindow>,
    post: CoreView,
    cmd: Option<EngineCmd>,
    push: EnginePush,
) -> bool {
    if event == "time-pos"@ {
        match ms {
            Some(m) => post == progressed(pre, relative_ms(m, w), pre.state.duration_ms) && cmd is None && push
                == EnginePush::Progress,
            None => post == pre && cmd is None && push == EnginePush::Silent,
        }
    } else if event == "duration"@ {
        match ms {
            Some(m) => post == progressed(pre, pre.state.position_ms, track_duration_of(m, w)) && cmd is None
                && push == EnginePush::Progress,
            None => post == pre && cmd is None && push == EnginePush::Silent,
        }
    } else if event == "pause"@ {
        match flag {
            Some(b) => post == pause_changed(pre, b) && cmd is None && push == EnginePush::State,
            None => post == pre && cmd is None && push == EnginePush::Silent,
        }
    } else if event == "end-file"@ {
        end_file_post(pre, post, cmd) && push == EnginePush::State
    } else if event == "file-loaded"@ {
        post == file_loaded(
            pre,
            track_duration_of(
                match ms {
                    Some(m) => m,
                    None => 0,
                },
                w,
            ),
        ) && cmd is None && push == EnginePush::State
    } else {
        post == pre && cmd is None && push == EnginePush::Silent
    }
}

/// Effect of playing track `id`: a jump within the queue when it is there,
/// else the queue becomes just that track.
pub open spec fn play_track_post(pre: CoreView, id: String, post: CoreView, r: Option<EngineCmd>) -> bool {
    match first_match(pre.state.queue, id@) {
        Some(p) => post == loaded(at_index(pre, p as usize)) && r == Some(load_cmd(at_index(pre, p as usize))),
        None => play_queue_post(pre, seq![id], 0, post, r),
    }
}

/// The track's duration from the whole file's (see [`track_duration_of`]).
pub fn track_duration(full_ms: u64, window: Option<&CueWindow>) -> (r: u64)
    ensures
        r == track_duration_of(
            full_ms,
            match window {
                Some(w) => Some(*w),
                None => None,
            },
        ),
{
    match window {
        Some(w) => {
            let end = match w.end_ms {
                Some(e) => e,
                None => full_ms,
            };
            if end >= w.start_ms {
                end - w.start_ms
            } else {
                0
            }
        },
        None => full_ms,
    }
}

/// Plays track `id`: jumps to its first occurrence in the queue, otherwise
/// replaces the queue with it.
pub fn apply_play_track(player: &mut PlayerCore, id: String) -> (r: Option<EngineCmd>)
    ensures
        play_track_post(old(player)@, id, final(player)@, r),
        r matches Some(EngineCmd::Load { track_id }) && track_id@ == id@,
        final(player)@.state.queue == (if has_match(old(player)@.state.queue, id@) {
            old(player)@.state.queue
        } else {
            seq![id]
        }),
{
    let ghost pre = player@;
    proof {
        lemma_first_match(pre.state.queue, id@);
    }
    let idx = position_of(&player.state().queue, &id);
    match idx {
        Some(i) => {
            assert(first_match(pre.state.queue, id@) == Some(i as int));
            player.play_at(i)
        },
        None => {
            let ghost single = seq![id];
            let q = vec![id];
            assert(q@ == single);
            let r = player.play_queue(q, 0);
            r
        },
    }
}

/// Applies an engine event to the player (see [`engine_event_post`]). The
/// engine reports times in seconds; `ms` carries them converted to
/// milliseconds. With a CUE window the whole-file times become track times.
pub fn apply_engine_event(
    player: &mut PlayerCore,
    event: &str,
    ms: Option<u64>,
    flag: Option<bool>,
    window: Option<&CueWindow>,
) -> (r: (Option<EngineCmd>, EnginePush))
    requires
        event@ == "end-file"@ ==> end_file_ready(old(player)@),
    ensures
        engine_event_post(
            old(player)@,
            event@,
            ms,
            flag,
            match window {
                Some(w) => Some(*w),
                None => None,
            },
            final(player)@,
            r.0,
            r.1,
        ),
{
    let e = chars_of(event);
    let w = match window {
        Some(w) => Some(*w),
        None => None,
    };
    if chars_eq(&e, chars_of("time-pos").as_slice()) {
        match ms {
            Some(abs_ms) => {
                let offset = match window {
                    Some(w) => w.start_ms,
                    None => 0,
                };
                let rel_ms = if abs_ms >= offset {
                    abs_ms - offset
                } else {
                    0
                };
                let duration = player.state().duration_ms;
                player.on_progress(rel_ms, duration);
                (None, EnginePush::Progress)
            },
            None => (None, EnginePush::Silent),
        }
    } else if chars_eq(&e, chars_of("duration").as_slice()) {
        match ms {
            Some(full_ms) => {
                let position = player.state().position_ms;
                player.on_progress(position, track_duration(full_ms, window));
                (None, EnginePush::Progress)
            },
            None => (None, EnginePush::Silent),
        }
    } else if chars_eq(&e, chars_of("pause").as_slice()) {
        match flag {
            Some(paused) => {
                player.on_pause_changed(paused);
                (None, EnginePush::State)
            },
            None => (None, EnginePush::Silent),
        }
    } else if chars_eq(&e, chars_of("end-file").as_slice()) {
        let cmd = player.on_end_file();
        (cmd, EnginePush::State)
    } else if chars_eq(&e, chars_of("file-loaded").as_slice()) {
        let full_ms = match ms {
            Some(m) => m,
            None => 0,
        };
        let _ = player.on_file_loaded(track_duration(full_ms, window));
        (None, EnginePush::State)
    } else {
        (None, EnginePush::Silent)
    }
}

/// What to do with an engine command: look the track up first (to load it),
/// or send a payload and keep the given CUE window.
#[derive(Debug, Clone, PartialEq, Eq)]
pub enum Dispatch {
    Lookup { track_id: String },
    Send { payload: EngineCmdPayload, window: Option<CueWindow> },
}

/// Plans the dispatch of an engine command given the current CUE window:
/// a load needs the track; a stop clears the window; a seek moves from track
/// time back to whole-file time; the rest pass through.
pub fn plan_dispatch(cmd: EngineCmd, window: Option<CueWindow>) -> (r: Dispatch)
    requires
        cmd matches EngineCmd::Seek { position_ms } ==> window_offset(window) + position_ms <= u64::MAX,
    ensures
        r == (match cmd {
            EngineCmd::Load { track_id } => Dispatch::Lookup { track_id },
            EngineCmd::Pause => Dispatch::Send { payload: EngineCmdPayload::Pause, window },
            EngineCmd::Resume => Dispatch::Send { payload: EngineCmdPayload::Resume, window },
            EngineCmd::Stop => Dispatch::Send { payload: EngineCmdPayload::Stop, window: None },
            EngineCmd::Seek { position_ms } => Dispatch::Send {
                payload: EngineCmdPayload::Seek { position_ms: (window_offset(window) + position_ms) as u64 },
                window,
            },
            EngineCmd::SetVolume { volume } => Dispatch::Send {
                payload: EngineCmdPayload::SetVolume { volume },
                window,
            },
        }),
{
    match cmd {
        EngineCmd::Load { track_id } => Dispatch::Lookup { track_id },
        EngineCmd::Pause => Dispatch::Send { payload: EngineCmdPayload::Pause, window },
        EngineCmd::Resume => Dispatch::Send { payload: EngineCmdPayload::Resume, window },
        EngineCmd::Stop => Dispatch::Send { payload: EngineCmdPayload::Stop, window: None },
        EngineCmd::Seek { position_ms } => {
            let offset = match window {
                Some(w) => w.start_ms,
                None => 0,
            };
            Dispatch::Send { payload: EngineCmdPayload::Seek { position_ms: offset + position_ms }, window }
        },
        EngineCmd::SetVolume { volume } => Dispatch::Send {
            payload: EngineCmdPayload::SetVolume { volume },
            window,
        },
    }
}

/// The CUE window of a track (none for an ordinary file).
pub open spec fn window_of(t: Track) -> Option<CueWindow> {
    match t.cue_source {
        Some(c) => Some(CueWindow { start_ms: c.start_ms, end_ms: c.end_ms }),
        None => None,
    }
}

/// The load payload for a track and the CUE window to keep while it plays.
pub fn load_payload(track: &Track) -> (r: (EngineCmdPayload, Option<CueWindow>))
    ensures
        r.1 == window_of(*track),
        r.0 matches EngineCmdPayload::Load { path, start_ms, end_ms } && path@ == track.path@ && start_ms == (
        match window_of(*track) {
            Some(w) => Some(w.start_ms),
            None => None,
        }) && end_ms == (match window_of(*track) {
            Some(w) => w.end_ms,
            None => None,
        }),
{
    let window = match &track.cue_source {
        Some(c) => Some(CueWindow { start_ms: c.start_ms, end_ms: c.end_ms }),
        None => None,
    };
    let (start_ms, end_ms) = match window {
        Some(w) => (Some(w.start_ms), w.end_ms),
        None => (None, None),
    };
    (EngineCmdPayload::Load { path: track.path.clone(), start_ms, end_ms }, window)
}

/// The engine's ReplayGain option for a mode.
pub open spec fn replay_gain_name(m: ReplayGainMode) -> Seq<char> {
    match m {
        ReplayGainMode::Off => "no"@,
        ReplayGainMode::Track => "track"@,
        ReplayGainMode::Album => "album"@,
    }
}

/// The engine's device option: the configured device, or `auto` when none
/// (or an empty name) is set.
pub open spec fn device_name(d: Option<String>) -> Seq<char> {
    match d {
        Some(s) if s@.len() > 0 => s@,
        _ => "auto"@,
    }
}

/// The output-options payload for an audio configuration.
pub fn audio_options_payload(cfg: &AudioOutputConfig) -> (r: EngineCmdPayload)
    ensures
        r matches EngineCmdPayload::SetAudioOptions { exclusive, device, gapless, replay_gain, loudnorm_fallback }
            && exclusive == (cfg.backend == AudioBackend::WasapiExclusive) && device@ == device_name(cfg.device)
            && gapless == cfg.gapless && replay_gain@ == replay_gain_name(cfg.replay_gain) && loudnorm_fallback
            == cfg.loudnorm_fallback,
{
    let exclusive = cfg.backend == AudioBackend::WasapiExclusive;
    let device = match &cfg.device {
        Some(d) => if !d.as_str().is_empty() {
            d.clone()
        } else {
            "auto".to_owned()
        },
        None => "auto".to_owned(),
    };
    let replay_gain = match cfg.replay_gain {
        ReplayGainMode::Off => "no".to_owned(),
        ReplayGainMode::Track => "track".to_owned(),
        ReplayGainMode::Album => "album".to_owned(),
    };
    EngineCmdPayload::SetAudioOptions {
        exclusive,
        device,
        gapless: cfg.gapless,
        replay_gain,
        loudnorm_fallback: cfg.loudnorm_fallback,
    }
}

/// An argument that is an option (starts with `-`).
pub open spec fn is_option_arg(a: Seq<char>) -> bool {
    a.len() > 0 && a[0] == '-'
}

/// The arguments of `s` that are not options, in order.
pub open spec fn non_options(s: Seq<String>) -> Seq<String>
    decreases s.len(),
{
    if s.len() == 0 {
        s
    } else if is_option_arg(s.last()@) {
        non_options(s.drop_last())
    } else {
        non_options(s.drop_last()).push(s.last())
    }
}

/// Command-line arguments that name files: all but the program path, without options.
pub open spec fn file_args_of(argv: Seq<String>) -> Seq<String> {
    non_options(argv.drop_first())
}

/// The paths of `s` that are (or, with `want` false, are not) videos, in order.
pub open spec fn video_split(s: Seq<String>, want: bool) -> Seq<String>
    decreases s.len(),
{
    if s.len() == 0 {
        s
    } else if is_video(s.last()@) == want {
        video_split(s.drop_last(), want).push(s.last())
    } else {
        video_split(s.drop_last(), want)
    }
}

/// The file arguments of a command line (see [`file_args_of`]).
pub fn file_args(argv: Vec<String>) -> (r: Vec<String>)
    ensures
        argv@.len() == 0 ==> r@.len() == 0,
        argv@.len() > 0 ==> r@ == file_args_of(argv@),
{
    let mut out: Vec<String> = Vec::new();
    if argv.len() == 0 {
        return out;
    }
    let ghost rest = argv@.drop_first();
    let mut i: usize = 1;
    while i < argv.len()
        invariant
            1 <= i <= argv.len(),
            rest == argv@.drop_first(),
            out@ == non_options(rest.take(i - 1)),
        decreases argv.len() - i,
    {
        let a = &argv[i];
        let v = chars_of(a.as_str());
        assert(rest.take(i as int) == rest.take(i - 1).push(argv@[i as int])) by {
            assert(rest.take(i as int) =~= rest.take(i - 1).push(argv@[i as int]));
        }
        assert(rest.take(i as int).drop_last() =~= rest.take(i - 1));
        if !(v.len() > 0 && v[0] == '-') {
            out.push(a.clone());
        }
        i = i + 1;
    }
    assert(rest.take(argv@.len() - 1) =~= rest);
    out
}

/// Opened paths split into videos and the rest (kept in order).
pub fn split_videos(files: Vec<String>) -> (r: (Vec<String>, Vec<String>))
    ensures
        r.0@ == video_split(files@, true),
        r.1@ == video_split(files@, false),
{
    let mut videos: Vec<String> = Vec::new();
    let mut others: Vec<String> = Vec::new();
    let mut i: usize = 0;
    while i < files.len()
        invariant
            i <= files.len(),
            videos@ == video_split(files@.take(i as int), true),
            others@ == video_split(files@.take(i as int), false),
        decreases files.len() - i,
    {
        assert(files@.take(i + 1) =~= files@.take(i as int).push(files@[i as int]));
        assert(files@.take(i + 1).drop_last() =~= files@.take(i as int));
        if crate::media::is_video_path(files[i].as_str()) {
            videos.push(files[i].clone());
        } else {
            others.push(files[i].clone());
        }
        i = i + 1;
    }
    assert(files@.take(files@.len() as int) =~= files@);
    (videos, others)
}

/// A whole-file time inside the window, taken to track time and back for a
/// seek, is the same time again; and a track time seeks to the window start
/// plus that time.
pub proof fn lemma_window_round_trip(abs_ms: u64, w: Option<CueWindow>)
    requires
        abs_ms >= window_offset(w),
    ensures
        window_offset(w) + relative_ms(abs_ms, w) == abs_ms,
        relative_ms(abs_ms, w) <= abs_ms,
{
}

/// Checks a request to play a queue: it must be non-empty and start inside it.
pub fn check_play_queue(ids: &Vec<String>, start_index: usize) -> (r: Result<(), AppError>)
    ensures
        r is Ok <==> ids@.len() > 0 && start_index < ids@.len(),
        r matches Err(e) ==> (e matches AppError::InvalidArgument(m) && m@
            == "empty queue or startIndex out of range"@),
{
    if ids.len() == 0 || start_index >= ids.len() {
        Err(AppError::InvalidArgument("empty queue or startIndex out of range".to_owned()))
    } else {
        Ok(())
    }
}

/// Checks the tracks to add to the queue (those found in the library): at
/// least one is needed.
pub fn check_queue_add(valid: &Vec<String>) -> (r: Result<(), AppError>)
    ensures
        r is Ok <==> valid@.len() > 0,
        r matches Err(e) ==> (e matches AppError::InvalidArgument(m) && m@ == "no valid track ids"@),
{
    if valid.len() == 0 {
        Err(AppError::InvalidArgument("no valid track ids".to_owned()))
    } else {
        Ok(())
    }
}

/// Minimum time between two progress pushes, in milliseconds (at most 4 per second).
pub const PROGRESS_INTERVAL_MS: u64 = 250;

/// Whether a progress push is due: none was made yet, or the last was at
/// least [`PROGRESS_INTERVAL_MS`] ago.
pub fn progress_due(since_last_ms: Option<u64>) -> (r: bool)
    ensures
        r == (match since_last_ms {
            Some(e) => e >= PROGRESS_INTERVAL_MS,
            None => true,
        }),
{
    match since_last_ms {
        Some(e) => e >= PROGRESS_INTERVAL_MS,
        None => true,
    }
}

} // verus!

use porrima::engine::{
    apply_engine_event, apply_play_track, audio_options_payload, check_play_queue, check_queue_add, file_args,
    load_payload, plan_dispatch, progress_due, split_videos, track_duration, CueWindow, Dispatch, EngineCmdPayload,
    EnginePush,
};
use porrima::error::AppError;
use porrima::models::PlayStatus;
use porrima::player::{EngineCmd, PlayerCore};
use porrima::settings::{AudioBackend, AudioOutputConfig, ReplayGainMode};
use porrima::track::{CueSource, MediaFormat, Track};

fn core_with_queue(ids: &[&str], start: usize) -> PlayerCore {
    let mut core = PlayerCore::new();
    core.play_queue(ids.iter().map(|s| s.to_string()).collect(), start);
    core
}

#[test]
fn play_track_jumps_in_queue_or_replaces() {
    let mut core = core_with_queue(&["a", "b", "c"], 0);
    let cmd = apply_play_track(&mut core, "c".into());
    assert_eq!(cmd, Some(EngineCmd::Load { track_id: "c".into() }));
    assert_eq!(core.state().queue, vec!["a", "b", "c"]);
    assert_eq!(core.state().queue_index, 2);

    let cmd = apply_play_track(&mut core, "x".into());
    assert_eq!(cmd, Some(EngineCmd::Load { track_id: "x".into() }));
    assert_eq!(core.state().queue, vec!["x"]);
    assert_eq!(core.state().queue_index, 0);
}

#[test]
fn engine_events_advance_state_machine() {
    let mut core = core_with_queue(&["a", "b"], 0);

    // file-loaded: 180.5 s
    let (cmd, push) = apply_engine_event(&mut core, "file-loaded", Some(180_500), None, None);
    assert!(cmd.is_none());
    assert_eq!(push, EnginePush::State);
    assert_eq!(core.state().duration_ms, 180_500);

    // time-pos: 12.34 s; the duration is not overwritten
    let (_, push) = apply_engine_event(&mut core, "time-pos", Some(12_340), None, None);
    assert_eq!(push, EnginePush::Progress);
    assert_eq!(core.state().position_ms, 12_340);
    assert_eq!(core.state().duration_ms, 180_500);

    let (_, push) = apply_engine_event(&mut core, "pause", None, Some(true), None);
    assert_eq!(push, EnginePush::State);
    assert_eq!(core.state().status, PlayStatus::Paused);

    let (cmd, push) = apply_engine_event(&mut core, "end-file", None, None, None);
    assert_eq!(cmd, Some(EngineCmd::Load { track_id: "b".into() }));
    assert_eq!(push, EnginePush::State);

    let (cmd, _) = apply_engine_event(&mut core, "end-file", None, None, None);
    assert!(cmd.is_none());
    assert_eq!(core.state().status, PlayStatus::Stopped);

    let (cmd, push) = apply_engine_event(&mut core, "whatever", None, None, None);
    assert!(cmd.is_none());
    assert_eq!(push, EnginePush::Silent);
    let (_, push) = apply_engine_event(&mut core, "time-pos", None, None, None);
    assert_eq!(push, EnginePush::Silent);
}

#[test]
fn cue_window_translates_time_and_duration() {
    let mut core = core_with_queue(&["a"], 0);
    let window = CueWindow { start_ms: 60_000, end_ms: Some(200_000) };

    apply_engine_event(&mut core, "file-loaded", Some(3_600_000), None, Some(&window));
    assert_eq!(core.state().duration_ms, 140_000);

    apply_engine_event(&mut core, "time-pos", Some(61_500), None, Some(&window));
    assert_eq!(core.state().position_ms, 1_500);
    apply_engine_event(&mut core, "time-pos", Some(10_000), None, Some(&window));
    assert_eq!(core.state().position_ms, 0);

    let last = CueWindow { start_ms: 60_000, end_ms: None };
    apply_engine_event(&mut core, "duration", Some(100_000), None, Some(&last));
    assert_eq!(core.state().duration_ms, 40_000);
}

#[test]
fn file_loaded_event_drops_the_resume_seek() {
    let mut source = core_with_queue(&["a"], 0);
    source.on_progress(5_000, 0);
    let mut core = PlayerCore::new();
    core.restore(source.state().clone());
    core.toggle();
    let (cmd, push) = apply_engine_event(&mut core, "file-loaded", Some(60_000), None, None);
    assert!(cmd.is_none());
    assert_eq!(push, EnginePush::State);
    assert_eq!(core.state().position_ms, 5_000);
}

#[test]
fn pause_event_without_flag_is_ignored() {
    let mut core = core_with_queue(&["a"], 0);
    let (cmd, push) = apply_engine_event(&mut core, "pause", Some(1), None, None);
    assert!(cmd.is_none());
    assert_eq!(push, EnginePush::Silent);
    assert_eq!(core.state().status, PlayStatus::Playing);
}

#[test]
fn track_duration_uses_window() {
    assert_eq!(track_duration(3_600_000, None), 3_600_000);
    let w = CueWindow { start_ms: 60_000, end_ms: Some(200_000) };
    assert_eq!(track_duration(3_600_000, Some(&w)), 140_000);
    let last = CueWindow { start_ms: 60_000, end_ms: None };
    assert_eq!(track_duration(100_000, Some(&last)), 40_000);
    assert_eq!(track_duration(50_000, Some(&last)), 0);
}

#[test]
fn dispatch_shifts_seek_and_clears_window_on_stop() {
    let w = Some(CueWindow { start_ms: 60_000, end_ms: Some(200_000) });
    assert_eq!(
        plan_dispatch(EngineCmd::Seek { position_ms: 1_500 }, w),
        Dispatch::Send { payload: EngineCmdPayload::Seek { position_ms: 61_500 }, window: w }
    );
    assert_eq!(
        plan_dispatch(EngineCmd::Seek { position_ms: 1_500 }, None),
        Dispatch::Send { payload: EngineCmdPayload::Seek { position_ms: 1_500 }, window: None }
    );
    assert_eq!(plan_dispatch(EngineCmd::Stop, w), Dispatch::Send { payload: EngineCmdPayload::Stop, window: None });
    assert_eq!(plan_dispatch(EngineCmd::Pause, w), Dispatch::Send { payload: EngineCmdPayload::Pause, window: w });
    assert_eq!(plan_dispatch(EngineCmd::Resume, w), Dispatch::Send { payload: EngineCmdPayload::Resume, window: w });
    assert_eq!(
        plan_dispatch(EngineCmd::SetVolume { volume: 75 }, w),
        Dispatch::Send { payload: EngineCmdPayload::SetVolume { volume: 75 }, window: w }
    );
    assert_eq!(
        plan_dispatch(EngineCmd::Load { track_id: "t".into() }, w),
        Dispatch::Lookup { track_id: "t".into() }
    );
}

fn sample_track(path: &str, cue: Option<CueSource>) -> Track {
    Track {
        id: "uuid-1".into(),
        path: path.into(),
        title: "t".into(),
        artist: None,
        album_artist: None,
        album: None,
        track_number: None,
        disc_number: None,
        year: None,
        genre: None,
        duration_ms: 0,
        format: MediaFormat::Flac,
        bitrate: 0,
        sample_rate: 0,
        bit_depth: None,
        channels: None,
        is_lossless: true,
        has_embedded_cover: false,
        play_count: 0,
        last_played: None,
        date_added: "2026-07-28T13:52:21.845+00:00".into(),
        file_modified: "2026-07-01T00:00:00+00:00".into(),
        cue_source: cue,
    }
}

#[test]
fn load_payload_carries_cue_window() {
    let plain = sample_track("C:/a.flac", None);
    let (payload, window) = load_payload(&plain);
    assert_eq!(payload, EngineCmdPayload::Load { path: "C:/a.flac".into(), start_ms: None, end_ms: None });
    assert_eq!(window, None);

    let cue = CueSource { cue_path: "C:/整轨.cue".into(), cue_index: 2, start_ms: 60_000, end_ms: Some(200_000) };
    let virt = sample_track("C:/整轨.ape", Some(cue));
    let (payload, window) = load_payload(&virt);
    assert_eq!(
        payload,
        EngineCmdPayload::Load { path: "C:/整轨.ape".into(), start_ms: Some(60_000), end_ms: Some(200_000) }
    );
    assert_eq!(window, Some(CueWindow { start_ms: 60_000, end_ms: Some(200_000) }));
}

#[test]
fn audio_options_map_settings_to_engine_values() {
    let cfg = AudioOutputConfig::default();
    assert_eq!(
        audio_options_payload(&cfg),
        EngineCmdPayload::SetAudioOptions {
            exclusive: false,
            device: "auto".into(),
            gapless: true,
            replay_gain: "no".into(),
            loudnorm_fallback: false,
        }
    );
    let cfg = AudioOutputConfig {
        backend: AudioBackend::WasapiExclusive,
        device: Some("DAC-1".into()),
        gapless: false,
        replay_gain: ReplayGainMode::Album,
        loudnorm_fallback: true,
    };
    assert_eq!(
        audio_options_payload(&cfg),
        EngineCmdPayload::SetAudioOptions {
            exclusive: true,
            device: "DAC-1".into(),
            gapless: false,
            replay_gain: "album".into(),
            loudnorm_fallback: true,
        }
    );
    let cfg = AudioOutputConfig {
        backend: AudioBackend::WasapiShared,
        device: Some(String::new()),
        replay_gain: ReplayGainMode::Track,
        ..AudioOutputConfig::default()
    };
    match audio_options_payload(&cfg) {
        EngineCmdPayload::SetAudioOptions { exclusive, device, replay_gain, .. } => {
            assert!(!exclusive);
            assert_eq!(device, "auto");
            assert_eq!(replay_gain, "track");
        }
        other => panic!("unexpected payload {other:?}"),
    }
}

#[test]
fn command_line_keeps_file_arguments() {
    let argv: Vec<String> = vec!["porrima.exe".into(), "--flag".into(), "D:/a.flac".into(), "-x".into(), "b.mp4".into()];
    assert_eq!(file_args(argv), vec!["D:/a.flac", "b.mp4"]);
    assert!(file_args(vec![]).is_empty());
    assert!(file_args(vec!["only-program".into()]).is_empty());
}

#[test]
fn opened_files_split_into_videos_and_audio() {
    let files: Vec<String> = vec!["a.flac".into(), "b.MP4".into(), "c.mkv".into(), "d.mp3".into()];
    let (videos, audios) = split_videos(files);
    assert_eq!(videos, vec!["b.MP4", "c.mkv"]);
    assert_eq!(audios, vec!["a.flac", "d.mp3"]);
}

#[test]
fn progress_push_is_throttled() {
    assert!(progress_due(None));
    assert!(!progress_due(Some(249)));
    assert!(progress_due(Some(250)));
}

#[test]
fn queue_requests_are_checked() {
    assert_eq!(check_play_queue(&vec!["a".into()], 0), Ok(()));
    assert_eq!(
        check_play_queue(&vec!["a".into()], 1),
        Err(AppError::InvalidArgument("empty queue or startIndex out of range".into()))
    );
    assert!(check_play_queue(&vec![], 0).is_err());
    assert_eq!(check_queue_add(&vec!["a".into()]), Ok(()));
    assert_eq!(check_queue_add(&vec![]), Err(AppError::InvalidArgument("no valid track ids".into())));
}

use porrima::error::AppError;
use porrima::metadata::{new_track, title_for, track_format, track_from_tags, StreamProps, TagFields};
use porrima::settings::{default_true, sanitize, AudioBackend, AudioOutputConfig, ReplayGainMode, Settings, Theme};
use porrima::track::MediaFormat;

#[test]
fn format_from_extension_is_case_insensitive() {
    assert_eq!(MediaFormat::from_extension("FLAC"), Some(MediaFormat::Flac));
    assert_eq!(MediaFormat::from_extension("Mp3"), Some(MediaFormat::Mp3));
    assert_eq!(MediaFormat::from_extension("aif"), Some(MediaFormat::Aiff));
    assert_eq!(MediaFormat::from_extension("wave"), Some(MediaFormat::Wav));
    assert_eq!(MediaFormat::from_extension("txt"), None);
    assert_eq!(MediaFormat::from_extension("mkv"), None);
}

#[test]
fn format_from_path() {
    assert_eq!(MediaFormat::from_path("a/b/歌.Flac"), Some(MediaFormat::Flac));
    assert_eq!(MediaFormat::from_path("noext"), None);
}

#[test]
fn format_from_path_edge_cases() {
    assert_eq!(MediaFormat::from_path("C:\\Music\\song.OGA"), Some(MediaFormat::Ogg));
    assert_eq!(MediaFormat::from_path("/music/.flac"), None);
    assert_eq!(MediaFormat::from_path("/music/album.flac/"), Some(MediaFormat::Flac));
    assert_eq!(MediaFormat::from_path("/music.flac/readme"), None);
    assert_eq!(MediaFormat::from_path("a.tar.mp3"), Some(MediaFormat::Mp3));
    assert_eq!(MediaFormat::from_path("other"), None);
}

#[test]
fn lossless_classification() {
    for f in [
        MediaFormat::Flac,
        MediaFormat::Wav,
        MediaFormat::Aiff,
        MediaFormat::Ape,
        MediaFormat::Wv,
        MediaFormat::Dsf,
        MediaFormat::Dff,
    ] {
        assert!(f.is_lossless(), "{f:?} should be lossless");
    }
    for f in [
        MediaFormat::Mp3,
        MediaFormat::M4a,
        MediaFormat::Aac,
        MediaFormat::Ogg,
        MediaFormat::Opus,
        MediaFormat::Wma,
        MediaFormat::Other,
    ] {
        assert!(!f.is_lossless(), "{f:?} should be lossy");
    }
}

#[test]
fn format_names_round_trip() {
    let cases = [
        (MediaFormat::Flac, "flac"),
        (MediaFormat::Mp3, "mp3"),
        (MediaFormat::M4a, "m4a"),
        (MediaFormat::Aac, "aac"),
        (MediaFormat::Ogg, "ogg"),
        (MediaFormat::Opus, "opus"),
        (MediaFormat::Wav, "wav"),
        (MediaFormat::Aiff, "aiff"),
        (MediaFormat::Ape, "ape"),
        (MediaFormat::Wv, "wv"),
        (MediaFormat::Wma, "wma"),
        (MediaFormat::Dsf, "dsf"),
        (MediaFormat::Dff, "dff"),
        (MediaFormat::Other, "other"),
    ];
    for (fmt, s) in cases {
        assert_eq!(MediaFormat::from_str_lossy(s), fmt);
        assert_eq!(fmt.as_str(), s);
    }
    assert_eq!(MediaFormat::from_str_lossy("FLAC"), MediaFormat::Other);
    assert_eq!(MediaFormat::from_str_lossy(""), MediaFormat::Other);
}

#[test]
fn sanitize_dedupes_and_trims() {
    let s = Settings {
        theme: Theme::Dark,
        scan_dirs: vec![" D:/Music ".into(), "".into(), "   ".into(), "D:/Music".into(), "E:/Video".into()],
        ..Default::default()
    };
    let out = sanitize(s);
    assert_eq!(out.scan_dirs, vec!["D:/Music", "E:/Video"]);
}

#[test]
fn sanitize_is_idempotent_and_keeps_other_fields() {
    let cfg = AudioOutputConfig {
        backend: AudioBackend::WasapiShared,
        device: Some("DAC".into()),
        gapless: false,
        replay_gain: ReplayGainMode::Track,
        loudnorm_fallback: true,
    };
    let s = Settings {
        theme: Theme::Light,
        scan_dirs: vec!["\tB\n".into(), "A".into(), "B".into(), " A ".into()],
        audio_output: cfg.clone(),
    };
    let once = sanitize(s);
    assert_eq!(once.scan_dirs, vec!["B", "A"]);
    assert_eq!(once.theme, Theme::Light);
    assert_eq!(once.audio_output, cfg);
    let twice = sanitize(once.clone());
    assert_eq!(twice, once);
}

#[test]
fn settings_defaults() {
    let s = Settings::default();
    assert_eq!(s.theme, Theme::Dark);
    assert!(s.scan_dirs.is_empty());
    assert_eq!(s.audio_output.backend, AudioBackend::System);
    assert!(s.audio_output.gapless);
    assert_eq!(s.audio_output.replay_gain, ReplayGainMode::Off);
    assert_eq!(s.audio_output.device, None);
    assert!(!s.audio_output.loudnorm_fallback);
    assert_eq!(Theme::default(), Theme::Dark);
    assert_eq!(AudioBackend::default(), AudioBackend::System);
    assert_eq!(ReplayGainMode::default(), ReplayGainMode::Off);
    assert!(default_true());
}

#[test]
fn error_kinds_and_messages() {
    let err = AppError::NotFound("track 42".to_string());
    assert_eq!(err.kind(), "not_found");
    assert_eq!(err.message(), "not found: track 42");
    assert_eq!(AppError::Io("denied".into()).kind(), "io");
    assert!(AppError::Io("denied".into()).message().contains("denied"));
    assert_eq!(AppError::Json("x".into()).message(), "json error: x");
    assert_eq!(AppError::Db("x".into()).message(), "database error: x");
    assert_eq!(AppError::Db("x".into()).kind(), "db");
    assert_eq!(AppError::Player("x".into()).message(), "player error: x");
    assert_eq!(AppError::InvalidArgument("x".into()).message(), "invalid argument: x");
    assert_eq!(AppError::InvalidArgument("x".into()).kind(), "invalid_argument");
    assert_eq!(AppError::Other("plain".into()).message(), "plain");
    assert_eq!(AppError::Other("plain".into()).kind(), "other");
}

fn wav_props() -> StreamProps {
    StreamProps {
        duration_ms: 1_000,
        overall_bitrate: None,
        audio_bitrate: Some(705),
        sample_rate: Some(44_100),
        bit_depth: Some(16),
        channels: Some(1),
    }
}

fn no_tags() -> TagFields {
    TagFields {
        title: None,
        artist: None,
        album_artist: None,
        album: None,
        track_number: None,
        disc_number: None,
        year: None,
        genre: None,
        has_cover: false,
    }
}

#[test]
fn untagged_file_falls_back_to_filename() {
    let t = track_from_tags(
        "/tmp/测试曲目.wav".into(),
        MediaFormat::Wav,
        no_tags(),
        wav_props(),
        "id".into(),
        "now".into(),
        "mtime".into(),
    );
    assert_eq!(t.title, "测试曲目");
    assert_eq!(t.format, MediaFormat::Wav);
    assert!(t.is_lossless);
    assert_eq!(t.bitrate, 705);
    assert_eq!(t.sample_rate, 44_100);
    assert_eq!(t.bit_depth, Some(16));
    assert_eq!(t.channels, Some(1));
    assert_eq!(t.play_count, 0);
    assert_eq!(t.cue_source, None);
    assert_eq!(t.date_added, "now");
    assert_eq!(t.file_modified, "mtime");
}

#[test]
fn tags_fill_the_record() {
    let tags = TagFields {
        title: Some("晴天".into()),
        artist: Some("周杰伦".into()),
        album_artist: None,
        album: Some("叶惠美".into()),
        track_number: Some(3),
        disc_number: Some(1),
        year: Some("2003".into()),
        genre: Some("Pop".into()),
        has_cover: true,
    };
    let props = StreamProps { overall_bitrate: Some(900), ..wav_props() };
    let t = track_from_tags("a.flac".into(), MediaFormat::Flac, tags, props, "id".into(), "n".into(), "m".into());
    assert_eq!(t.title, "晴天");
    assert_eq!(t.year, Some(2003));
    assert_eq!(t.bitrate, 900);
    assert!(t.has_embedded_cover);
    assert_eq!(t.track_number, Some(3));
}

#[test]
fn blank_title_and_bad_year_fall_back() {
    let tags = TagFields { title: Some("  ".into()), year: Some("2003-05-01".into()), ..no_tags() };
    let props = StreamProps { audio_bitrate: None, sample_rate: None, ..wav_props() };
    let t = track_from_tags("x/.hidden".into(), MediaFormat::Other, tags, props, "i".into(), "n".into(), "m".into());
    assert_eq!(t.title, ".hidden");
    assert_eq!(t.year, None);
    assert_eq!(t.bitrate, 0);
    assert_eq!(t.sample_rate, 0);
    assert_eq!(title_for(None, "dir/"), "dir");
    assert_eq!(title_for(None, "/"), "Unknown");
    assert_eq!(title_for(None, "a/b.c.d"), "b.c");
}

#[test]
fn rejects_unsupported_extension() {
    assert_eq!(
        track_format("notes.txt"),
        Err(AppError::InvalidArgument("unsupported format: notes.txt".into()))
    );
    assert_eq!(track_format("x.wave"), Ok(MediaFormat::Wav));
}

#[test]
fn fresh_tracks_get_uuid_ids() {
    let a = new_track("a.wav".into(), MediaFormat::Wav, no_tags(), wav_props(), "m".into());
    let b = new_track("a.wav".into(), MediaFormat::Wav, no_tags(), wav_props(), "m".into());
    assert_eq!(a.id.len(), 36);
    assert_ne!(a.id, b.id);
    assert_eq!(a.title, "a");
    assert!(!a.date_added.is_empty());
}

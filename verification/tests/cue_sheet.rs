use porrima::cue::{parse, parse_cue_bytes, parse_msf};

const SAMPLE: &str = r#"
REM GENRE "Pop"
REM DATE 2003
REM COMMENT "ExactAudioCopy v1.0"
PERFORMER "周杰伦"
TITLE "叶惠美"
FILE "叶惠美.flac" WAVE
  TRACK 01 AUDIO
    TITLE "以父之名"
    PERFORMER "周杰伦"
    INDEX 00 00:00:00
    INDEX 01 00:00:33
  TRACK 02 AUDIO
    TITLE "懦夫"
    INDEX 01 05:42:50
"#;

#[test]
fn parses_album_and_tracks() {
    let sheet = parse(SAMPLE);
    assert_eq!(sheet.album_title.as_deref(), Some("叶惠美"));
    assert_eq!(sheet.album_performer.as_deref(), Some("周杰伦"));
    assert_eq!(sheet.genre.as_deref(), Some("Pop"));
    assert_eq!(sheet.year, Some(2003));
    assert_eq!(sheet.files.len(), 1);

    let file = &sheet.files[0];
    assert_eq!(file.audio, "叶惠美.flac");
    assert_eq!(file.tracks.len(), 2);
    assert_eq!(file.tracks[0].start_ms, 440);
    assert_eq!(file.tracks[0].title.as_deref(), Some("以父之名"));
    assert_eq!(file.tracks[1].start_ms, 342_667);
    assert_eq!(file.tracks[1].performer, None);
}

#[test]
fn falls_back_to_index00_and_skips_trackless() {
    let text = r#"
FILE "a.ape" WAVE
  TRACK 01 AUDIO
    INDEX 00 00:10:00
  TRACK 02 AUDIO
    TITLE "无 INDEX 的轨被丢弃"
"#;
    let sheet = parse(text);
    assert_eq!(sheet.files[0].tracks.len(), 1);
    assert_eq!(sheet.files[0].tracks[0].start_ms, 10_000);
}

#[test]
fn skips_non_audio_tracks_and_supports_multi_file() {
    let text = r#"
FILE "cd1.wav" WAVE
  TRACK 01 MODE1/2352
    INDEX 01 00:00:00
  TRACK 02 AUDIO
    INDEX 01 00:30:00
FILE "cd2.wav" WAVE
  TRACK 03 AUDIO
    INDEX 01 00:00:00
"#;
    let sheet = parse(text);
    assert_eq!(sheet.files.len(), 2);
    assert_eq!(sheet.files[0].tracks.len(), 1);
    assert_eq!(sheet.files[0].tracks[0].number, 2);
    assert_eq!(sheet.files[1].tracks[0].number, 3);
}

#[test]
fn msf_time_conversion_and_validation() {
    assert_eq!(parse_msf("00:00:00"), Some(0));
    assert_eq!(parse_msf("01:00:00"), Some(60_000));
    assert_eq!(parse_msf("00:01:74"), Some(1_000 + 987));
    assert_eq!(parse_msf("100:00:00"), Some(6_000_000));
    assert_eq!(parse_msf("00:60:00"), None);
    assert_eq!(parse_msf("00:00:75"), None);
    assert_eq!(parse_msf("bad"), None);
}

#[test]
fn msf_rejects_extra_and_missing_fields() {
    assert_eq!(parse_msf("00:00:00:00"), None);
    assert_eq!(parse_msf("00:00"), None);
    assert_eq!(parse_msf("+01:02:03"), Some(62_000 + 40));
    assert_eq!(parse_msf("00::00"), None);
}

#[test]
fn tracks_are_sorted_by_number_stably() {
    let text = r#"
FILE "a.wav" WAVE
  TRACK 03 AUDIO
    TITLE "c"
    INDEX 01 00:30:00
  TRACK 01 AUDIO
    TITLE "a"
    INDEX 01 00:00:00
  TRACK 02 AUDIO
    TITLE "b1"
    INDEX 01 00:10:00
  TRACK 02 AUDIO
    TITLE "b2"
    INDEX 01 00:20:00
"#;
    let sheet = parse(text);
    let titles: Vec<&str> = sheet.files[0].tracks.iter().map(|t| t.title.as_deref().unwrap()).collect();
    assert_eq!(titles, vec!["a", "b1", "b2", "c"]);
}

#[test]
fn keywords_ignore_case_and_blank_titles_are_none() {
    let text = "title \"   \"\nperformer \"Band\"\nfile \"x.flac\" wave\ntrack 1 audio\nindex 1 00:00:01\n";
    let sheet = parse(text);
    assert_eq!(sheet.album_title, None);
    assert_eq!(sheet.album_performer.as_deref(), Some("Band"));
    assert_eq!(sheet.files[0].audio, "x.flac");
    assert_eq!(sheet.files[0].tracks[0].number, 1);
    assert_eq!(sheet.files[0].tracks[0].start_ms, 13);
}

#[test]
fn track_before_any_file_is_dropped() {
    let text = "TRACK 01 AUDIO\nINDEX 01 00:00:00\nFILE \"a.wav\" WAVE\n";
    let sheet = parse(text);
    assert_eq!(sheet.files.len(), 1);
    assert!(sheet.files[0].tracks.is_empty());
}

#[test]
fn overlong_times_are_not_used() {
    let text = "FILE \"a.wav\" WAVE\nTRACK 01 AUDIO\nINDEX 01 999999999999999999:00:00\nTRACK 02 AUDIO\nINDEX 00 999999999999999999:00:00\nINDEX 01 00:10:00\n";
    let sheet = parse(text);
    assert_eq!(sheet.files.len(), 1);
    assert_eq!(sheet.files[0].tracks.len(), 1);
    assert_eq!(sheet.files[0].tracks[0].number, 2);
    assert_eq!(sheet.files[0].tracks[0].start_ms, 10_000);
    assert_eq!(parse_msf("999999999999999999:00:00"), None);
}

#[test]
fn cue_bytes_decode_bom_and_gbk() {
    let mut bytes = b"\xEF\xBB\xBF".to_vec();
    bytes.extend_from_slice("TITLE \"专辑\"\n".as_bytes());
    let sheet = parse_cue_bytes(&bytes);
    assert_eq!(sheet.album_title.as_deref(), Some("专辑"));

    let (gbk, _, _) = encoding_rs::GBK.encode("TITLE \"中文专辑\"\nFILE \"整轨.ape\" WAVE\n  TRACK 01 AUDIO\n    INDEX 01 00:00:00\n");
    let sheet = parse_cue_bytes(&gbk);
    assert_eq!(sheet.album_title.as_deref(), Some("中文专辑"));
    assert_eq!(sheet.files[0].audio, "整轨.ape");
}

#[test]
fn one_section_per_file_line_and_audio_tracks_only() {
    let text = "file \"a.wav\" WAVE\n  TRACK 01 AUDIO\n    INDEX 01 00:00:00\n  track 02 video\n    INDEX 01 00:01:00\n  TRACK 03\n    INDEX 00 00:02:00\nFILE \"b.wav\" WAVE\nREM junk\n  TRACK 01 AUDIO\n";
    let sheet = parse(text);
    assert_eq!(sheet.files.len(), 2);
    let numbers: Vec<u32> = sheet.files[0].tracks.iter().map(|t| t.number).collect();
    assert_eq!(numbers, vec![1, 3]);
    assert_eq!(sheet.files[0].tracks[1].start_ms, 2_000);
    assert!(sheet.files[1].tracks.is_empty());
}

#[test]
fn msf_needs_exactly_three_fields() {
    assert_eq!(parse_msf("01:02:03:04"), None);
    assert_eq!(parse_msf("01:02"), None);
    assert_eq!(parse_msf("1:2:3"), Some(62_040));
    assert_eq!(parse_msf("1::3"), None);
}

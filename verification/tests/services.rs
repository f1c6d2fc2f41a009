use porrima::browse::{build_listing, name_listed, sort_by_name, DirEntry};
use porrima::catalog::{
    album_id, like_escape, playlist_appended, page_limit, paths_under_pattern, plan_list, plan_search, played_limit, playlist_description,
    playlist_moved, playlist_name, playlist_without, video_position_key, ListQuery, SearchPlan, SortColumn, SortDir,
};
use porrima::controls::{playback_of, seek_target, to_file_uri, track_changed, Playback, SEEK_STEP_MS};
use porrima::cover::{cover_file_ext, cover_from, embedded_cover, local_cover_candidates};
use porrima::cue::parse;
use porrima::error::AppError;
use porrima::library::{
    cue_file_tracks, cue_indexes, cue_virtual_tracks, import_kind, import_step, ImportAction, ImportEvent, ImportState, progress_due_at, scan_step, stale_entries, ImportKind,
    ScanAction, ScanEvent, ScanInput, ScanOutcome, ScanState, SCAN_BATCH,
};
use porrima::clock::{clock_seed, seed_from};
use porrima::paths::join_path;
use porrima::shuffle::FALLBACK_SEED;
use porrima::lyrics::{decode_text, non_blank, pick_lyrics, strip_bom, LyricsSource};
use porrima::media::{is_cue, is_video_file, is_video_path};
use porrima::models::{PlayStatus, PlayerState};
use porrima::online::{
    check_status, cover_art_url, first_release, lyrics_outcome, lyrics_query, online_cover, release_query,
};
use porrima::payloads::{cover_payload, lyrics_payload, pong};
use porrima::track::{MediaFormat, Track};

#[test]
fn video_ext_detection() {
    assert!(is_video_file("D:/movie.mp4"));
    assert!(is_video_file("D:/movie.MKV"));
    assert!(is_video_file("D:/clip.webm"));
    assert!(!is_video_file("D:/song.flac"));
    assert!(!is_video_file("D:/readme.txt"));
    assert!(!is_video_file("D:/noext"));
}

#[test]
fn video_paths_and_cue_sheets() {
    assert!(is_video_path("C:\\v\\a.3GP"));
    assert!(is_video_path("a.rmvb"));
    assert!(!is_video_path(".mp4"));
    assert!(is_cue("album.CUE"));
    assert!(!is_cue("album.cue.bak"));
}

fn entry(name: &str, is_dir: bool) -> DirEntry {
    DirEntry { name: name.into(), path: format!("/root/{name}"), is_dir, size: if is_dir { 0 } else { 10 } }
}

#[test]
fn listing_filters_hidden_and_sorts_by_name() {
    let entries = vec![
        entry("b.mp4", false),
        entry(".hidden", true),
        entry("Zeta", true),
        entry("$RECYCLE.BIN", true),
        entry("alpha", true),
        entry("notes.txt", false),
        entry("A.mkv", false),
        entry("System Volume Information", true),
    ];
    let r = build_listing("/root".into(), Some("/".into()), entries);
    assert_eq!(r.current, "/root");
    assert_eq!(r.parent.as_deref(), Some("/"));
    let dirs: Vec<&str> = r.dirs.iter().map(|e| e.name.as_str()).collect();
    let files: Vec<&str> = r.files.iter().map(|e| e.name.as_str()).collect();
    assert_eq!(dirs, vec!["alpha", "Zeta"]);
    assert_eq!(files, vec!["A.mkv", "b.mp4"]);
    assert!(name_listed("movie.mp4"));
    assert!(!name_listed(".git"));
}

#[test]
fn sorting_by_name_is_stable() {
    let sorted = sort_by_name(vec![entry("b", false), entry("B", true), entry("a", false)]);
    let names: Vec<(&str, bool)> = sorted.iter().map(|e| (e.name.as_str(), e.is_dir)).collect();
    assert_eq!(names, vec![("a", false), ("b", false), ("B", true)]);
}

#[test]
fn list_query_is_whitelisted_and_clamped() {
    let q = ListQuery { limit: 0, ..Default::default() };
    let p = plan_list(&q).unwrap();
    assert_eq!(p.column, SortColumn::DateAdded);
    assert_eq!(p.dir, SortDir::Desc);
    assert_eq!(p.limit, 1);
    assert_eq!(p.search, SearchPlan::All);

    let q = ListQuery { limit: 5000, offset: 7, sort_by: Some("title".into()), sort_dir: Some("asc".into()), search: None };
    let p = plan_list(&q).unwrap();
    assert_eq!((p.column, p.dir, p.limit, p.offset), (SortColumn::Title, SortDir::Asc, 1000, 7));
    assert_eq!(p.column.sql(), "title COLLATE NOCASE");
    assert_eq!(p.dir.sql(), "ASC");

    let bad = ListQuery { limit: 10, sort_by: Some("title; DROP TABLE tracks".into()), ..Default::default() };
    assert_eq!(
        plan_list(&bad),
        Err(AppError::InvalidArgument("unsupported sortBy: title; DROP TABLE tracks".into()))
    );
    let bad_dir = ListQuery { limit: 10, sort_dir: Some("up".into()), ..Default::default() };
    assert_eq!(plan_list(&bad_dir), Err(AppError::InvalidArgument("unsupported sortDir: up".into())));
    assert_eq!(SortColumn::Duration.sql(), "duration_ms");
    assert_eq!(SortColumn::PlayCount.sql(), "play_count");
    assert_eq!(played_limit(0), 1);
    assert_eq!(played_limit(501), 500);
    assert_eq!(page_limit(20), 20);
}

#[test]
fn search_uses_phrase_or_escaped_pattern() {
    assert_eq!(plan_search(&None), SearchPlan::All);
    assert_eq!(plan_search(&Some("   ".into())), SearchPlan::All);
    assert_eq!(plan_search(&Some(" 的电影 ".into())), SearchPlan::Phrase("\"的电影\"".into()));
    assert_eq!(plan_search(&Some("a\"bc".into())), SearchPlan::Phrase("\"a\"\"bc\"".into()));
    assert_eq!(plan_search(&Some("周杰".into())), SearchPlan::Like("%周杰%".into()));
    assert_eq!(plan_search(&Some("%_".into())), SearchPlan::Like("%\\%\\_%".into()));
    assert_eq!(like_escape("a\\b%c_d"), "a\\\\b\\%c\\_d");
}

#[test]
fn album_ids_are_fnv1a_hex() {
    assert_eq!(album_id(Some(""), Some("")), format!("{:016x}", fnv(&[0x1f])));
    assert_eq!(album_id(None, None), format!("{:016x}", fnv(&[0, 0x1f, 0])));
    assert_eq!(album_id(Some("ab"), Some("c")), format!("{:016x}", fnv(b"ab\x1fc")));
    assert_ne!(album_id(Some("ab"), Some("c")), album_id(Some("a"), Some("bc")));
    assert_ne!(album_id(None, Some("x")), album_id(Some(""), Some("x")));
    assert_eq!(album_id(Some("叶惠美"), Some("周杰伦")).len(), 16);
}

fn fnv(bytes: &[u8]) -> u64 {
    let mut h: u64 = 0xcbf2_9ce4_8422_2325;
    for b in bytes {
        h ^= *b as u64;
        h = h.wrapping_mul(0x0000_0100_0000_01b3);
    }
    h
}

#[test]
fn playlist_names_and_edits() {
    assert_eq!(playlist_name("  我的歌单 "), Ok("我的歌单".to_string()));
    assert_eq!(playlist_name("   "), Err(AppError::InvalidArgument("playlist name is empty".into())));
    assert_eq!(playlist_description(Some(" desc ")), Some("desc".to_string()));
    assert_eq!(playlist_description(Some("  ")), None);
    assert_eq!(playlist_description(None), None);
    let ids: Vec<String> = vec!["1".into(), "2".into(), "3".into()];
    assert_eq!(playlist_without(ids.clone(), 1), Some(vec!["1".to_string(), "3".to_string()]));
    assert_eq!(playlist_without(ids.clone(), 3), None);
    assert_eq!(playlist_moved(ids.clone(), 0, 2), Some(vec!["2".to_string(), "3".to_string(), "1".to_string()]));
    assert_eq!(playlist_moved(ids.clone(), 1, 1), None);
    assert_eq!(playlist_moved(ids, 5, 0), None);
    assert_eq!(paths_under_pattern("D:/Music/"), "D:/Music%");
    assert_eq!(paths_under_pattern("D:\\Music\\\\"), "D:\\Music%");
    assert_eq!(video_position_key("C:/v.mp4"), "vpos:C:/v.mp4");
}

#[test]
fn strips_utf8_bom() {
    let mut bytes = b"\xEF\xBB\xBF".to_vec();
    bytes.extend_from_slice("[00:00.00]hi".as_bytes());
    assert_eq!(decode_text(&bytes), "[00:00.00]hi");
}

#[test]
fn decodes_gbk_and_falls_back_to_lossy() {
    let (gbk_bytes, _, _) = encoding_rs::GBK.encode("[00:01.00]中文歌词");
    assert!(decode_text(&gbk_bytes).contains("中文歌词"));
    let text = decode_text(&[0x61, 0xFF, 0x62]);
    assert!(text.starts_with('a'));
    assert_eq!(strip_bom(b"\xEF\xBBx"), b"\xEF\xBBx".to_vec());
    assert_eq!(strip_bom(b"\xEF\xBB\xBFx"), b"x".to_vec());
}

#[test]
fn lyrics_prefer_lrc_and_ignore_blank() {
    let l = pick_lyrics(Some("[00:01.00]a".into()), Some("emb".into())).unwrap();
    assert_eq!(l.source, LyricsSource::LrcFile);
    let l = pick_lyrics(Some("  \n ".into()), Some("emb".into())).unwrap();
    assert_eq!(l.source, LyricsSource::Embedded);
    assert_eq!(l.text, "emb");
    assert!(pick_lyrics(None, Some(" ".into())).is_none());
    assert!(pick_lyrics(None, None).is_none());
    assert_eq!(non_blank(" x ".into()), Some(" x ".to_string()));
    let p = lyrics_payload(l);
    assert_eq!(p.text, "emb");
}

#[test]
fn covers_prefer_order_and_skip_empty() {
    let c = local_cover_candidates();
    assert_eq!(c.len(), 12);
    assert_eq!(c[0], ("cover.jpg".to_string(), "image/jpeg".to_string()));
    assert_eq!(c[2], ("cover.png".to_string(), "image/png".to_string()));
    assert_eq!(c[4].0, "folder.jpg");
    assert_eq!(c[11], ("front.webp".to_string(), "image/webp".to_string()));
    assert!(cover_from("image/jpeg".into(), vec![]).is_none());
    assert_eq!(cover_from("image/png".into(), vec![1]).unwrap().mime_type, "image/png");
    assert_eq!(embedded_cover(None, vec![1, 2]).unwrap().mime_type, "image/jpeg");
    assert!(embedded_cover(Some("image/png".into()), vec![]).is_none());
    assert_eq!(cover_file_ext("image/png"), "png");
    assert_eq!(cover_file_ext("image/webp"), "webp");
    assert_eq!(cover_file_ext("image/gif"), "jpg");
    let payload = cover_payload(cover_from("image/png".into(), b"hello".to_vec()).unwrap());
    assert_eq!(payload.data_base64, "aGVsbG8=");
    assert_eq!(payload.mime_type, "image/png");
}

#[test]
fn media_controls_helpers() {
    assert_eq!(to_file_uri("C:\\Music\\a b.flac"), "file:///C:/Music/a%20b.flac");
    assert_eq!(to_file_uri("/m/歌.mp3"), "file:////m/%E6%AD%8C.mp3");
    assert_eq!(to_file_uri("x~_-.Z9"), "file:///x~_-.Z9");
    assert_eq!(seek_target(5_000, 60_000, SEEK_STEP_MS, true), 15_000);
    assert_eq!(seek_target(55_000, 60_000, SEEK_STEP_MS, true), 60_000);
    assert_eq!(seek_target(5_000, 0, SEEK_STEP_MS, true), 5_000);
    assert_eq!(seek_target(5_000, 60_000, SEEK_STEP_MS, false), 0);
    assert_eq!(seek_target(u64::MAX - 1, u64::MAX, SEEK_STEP_MS, true), u64::MAX);
    let mut s = PlayerState::default();
    assert_eq!(playback_of(&s), Playback::Stopped);
    s.current_track_id = Some("t".into());
    s.status = PlayStatus::Playing;
    s.position_ms = 7;
    assert_eq!(playback_of(&s), Playback::Playing { progress_ms: 7 });
    s.status = PlayStatus::Paused;
    assert_eq!(playback_of(&s), Playback::Paused { progress_ms: 7 });
    assert!(track_changed(&None, &Some("a".into())));
    assert!(!track_changed(&Some("a".into()), &Some("a".into())));
    assert!(!track_changed(&None, &None));
}

#[test]
fn online_lookups_build_queries_and_judge_replies() {
    let q = lyrics_query("晴天", Some("周杰伦"), Some(""));
    assert_eq!(q, vec![("track_name".to_string(), "晴天".to_string()), ("artist_name".to_string(), "周杰伦".to_string())]);
    assert_eq!(lyrics_query("t", None, Some("a")).len(), 2);
    assert_eq!(check_status(200, "200 OK", Some("nf"), "svc"), Ok(()));
    assert_eq!(check_status(404, "404 Not Found", Some("nf"), "svc"), Err(AppError::NotFound("nf".into())));
    assert_eq!(
        check_status(404, "404 Not Found", None, "MusicBrainz"),
        Err(AppError::Other("MusicBrainz returned status 404 Not Found".into()))
    );
    assert_eq!(
        check_status(500, "500 Internal Server Error", Some("nf"), "lrclib.net"),
        Err(AppError::Other("lrclib.net returned status 500 Internal Server Error".into()))
    );
    assert_eq!(lyrics_outcome(None, None), Err(AppError::NotFound("no lyrics content in response".into())));
    let l = lyrics_outcome(Some(" ".into()), Some("plain".into())).unwrap();
    assert_eq!(l.synced_lyrics, None);
    assert_eq!(l.plain_lyrics.as_deref(), Some("plain"));
    assert_eq!(release_query("A", "B"), "artist:\"A\" AND release:\"B\"");
    assert_eq!(first_release(vec!["r1".into(), "r2".into()]), Ok("r1".to_string()));
    assert_eq!(first_release(vec![]), Err(AppError::NotFound("no matching release on MusicBrainz".into())));
    assert_eq!(cover_art_url("abc"), "https://coverartarchive.org/release/abc/front-500");
    let c = online_cover(None, b"hi");
    assert_eq!(c.mime_type, "image/jpeg");
    assert_eq!(c.data_base64, "aGk=");
}

fn base_track() -> Track {
    Track {
        id: "base".into(),
        path: "/m/整轨.wav".into(),
        title: "整轨".into(),
        artist: Some("Tag Artist".into()),
        album_artist: Some("Tag AA".into()),
        album: Some("Tag Album".into()),
        track_number: None,
        disc_number: Some(1),
        year: Some(1999),
        genre: Some("Tag Genre".into()),
        duration_ms: 8_000,
        format: MediaFormat::Wav,
        bitrate: 705,
        sample_rate: 44_100,
        bit_depth: Some(16),
        channels: Some(1),
        is_lossless: true,
        has_embedded_cover: false,
        play_count: 5,
        last_played: Some("x".into()),
        date_added: "old".into(),
        file_modified: "mtime".into(),
        cue_source: None,
    }
}

#[test]
fn cue_virtual_tracks_split_the_file() {
    let sheet = parse("PERFORMER \"周杰伦\"\nTITLE \"叶惠美\"\nFILE \"整轨.wav\" WAVE\n  TRACK 01 AUDIO\n    TITLE \"以父之名\"\n    INDEX 01 00:00:00\n  TRACK 02 AUDIO\n    INDEX 01 00:05:00\n");
    let ids: Vec<String> = vec!["i1".into(), "i2".into()];
    let base = base_track();
    let tracks = cue_file_tracks(&sheet, 0, &base, "/m/整轨.wav", "/m/整轨.cue", &ids, &"now".to_string());
    assert_eq!(tracks.len(), 2);
    let t1 = &tracks[0];
    assert_eq!(t1.id, "i1");
    assert_eq!(t1.title, "以父之名");
    assert_eq!(t1.artist.as_deref(), Some("周杰伦"));
    assert_eq!(t1.album.as_deref(), Some("叶惠美"));
    assert_eq!(t1.album_artist.as_deref(), Some("周杰伦"));
    assert_eq!(t1.genre.as_deref(), Some("Tag Genre"));
    assert_eq!(t1.year, Some(1999));
    assert_eq!(t1.duration_ms, 5_000);
    assert_eq!(t1.play_count, 0);
    assert_eq!(t1.last_played, None);
    assert_eq!(t1.date_added, "now");
    let c1 = t1.cue_source.as_ref().unwrap();
    assert_eq!((c1.cue_index, c1.start_ms, c1.end_ms), (1, 0, Some(5_000)));
    assert_eq!(c1.cue_path, "/m/整轨.cue");
    let t2 = &tracks[1];
    assert_eq!(t2.title, "Track 02");
    assert_eq!(t2.duration_ms, 3_000);
    assert_eq!(t2.cue_source.as_ref().unwrap().end_ms, None);

    let fresh = cue_virtual_tracks(&sheet, 0, &base, "/m/整轨.wav", "/m/整轨.cue");
    assert_eq!(fresh.len(), 2);
    assert_eq!(fresh[0].id.len(), 36);
    assert_ne!(fresh[0].id, fresh[1].id);
    assert_eq!(fresh[1].title, "Track 02");
}

#[test]
fn cue_tracks_fall_back_to_file_tags() {
    let sheet = parse("FILE \"a.wav\" WAVE\nTRACK 12 AUDIO\nINDEX 01 00:09:00\n");
    let tracks = cue_file_tracks(&sheet, 0, &base_track(), "a.wav", "a.cue", &vec!["x".into()], &"n".to_string());
    assert_eq!(tracks[0].title, "Track 12");
    assert_eq!(tracks[0].artist.as_deref(), Some("Tag Artist"));
    assert_eq!(tracks[0].album_artist.as_deref(), Some("Tag AA"));
    assert_eq!(tracks[0].album.as_deref(), Some("Tag Album"));
    assert_eq!(tracks[0].duration_ms, 0);
}

#[test]
fn scan_events_and_totals() {
    let e = ScanEvent::progress(50, "/m/a.flac");
    assert_eq!((e.scanned_files, e.total_files, e.done), (50, None, false));
    assert_eq!(e.current_path, "/m/a.flac");
    let f = ScanEvent::finished(7);
    assert_eq!((f.scanned_files, f.total_files, f.done), (7, Some(7), true));
    assert!(f.current_path.is_empty());
    assert_eq!(ScanOutcome::default(), ScanOutcome { indexed: 0, skipped_errors: 0, pruned: 0, cancelled: false });
    assert!(progress_due_at(50));
    assert!(!progress_due_at(49));
}

#[test]
fn ping_answers_pong() {
    let p = pong("0.1.0".into());
    assert_eq!(p.message, "pong");
    assert_eq!(p.version, "0.1.0");
}

#[test]
fn stale_entries_and_cue_indexes() {
    let stored: Vec<String> = vec!["a".into(), "b".into(), "c".into(), "b".into()];
    let seen: Vec<String> = vec!["b".into()];
    assert_eq!(stale_entries(stored, &seen), vec!["a", "c"]);
    assert!(stale_entries(vec![], &seen).is_empty());
    let sheet = parse("FILE \"a.wav\" WAVE\nTRACK 01 AUDIO\nINDEX 01 00:00:00\nTRACK 03 AUDIO\nINDEX 01 00:01:00\n");
    let tracks = cue_file_tracks(&sheet, 0, &base_track(), "a.wav", "a.cue", &vec!["x".into(), "y".into()], &"n".to_string());
    assert_eq!(cue_indexes(&tracks), vec![1, 3]);
    assert!(cue_indexes(&vec![base_track()]).is_empty());
    assert_eq!(import_kind("/m/a.CUE"), ImportKind::Sheet);
    assert_eq!(import_kind("/m/a.flac"), ImportKind::Audio);
    assert_eq!(import_kind("/m/a.txt"), ImportKind::Skip);
}

#[test]
fn seed_from_mixes_seconds_and_nanos() {
    assert_eq!(seed_from(Some((0b1100, 0b1010))), 0b0110);
    assert_eq!(seed_from(Some((1_700_000_000, 0))), 1_700_000_000);
    assert_eq!(seed_from(None), FALLBACK_SEED);
    let _ = clock_seed();
}

fn walked(path: &str, is_file: bool, cue_pass: bool, cancel: bool) -> ScanInput {
    ScanInput::Entry { path: path.into(), is_file, cue_pass, cancel }
}

#[test]
fn scan_step_cancel_stops_and_marks() {
    let mut st = ScanState::new();
    assert!(matches!(scan_step(&mut st, walked("/m/a.flac", true, false, true)), ScanAction::Stop));
    assert!(st.outcome.cancelled);
    assert_eq!(st.scanned, 0);
}

#[test]
fn scan_step_sheets_cover_their_audio() {
    let mut st = ScanState::new();
    scan_step(&mut st, ScanInput::StartDir);
    assert!(matches!(scan_step(&mut st, walked("/m/a.cue", true, true, false)), ScanAction::ReadSheet));
    assert!(matches!(scan_step(&mut st, walked("/m/a.flac", true, true, false)), ScanAction::Skip));
    assert!(matches!(scan_step(&mut st, walked("/m/b.CUE", false, true, false)), ScanAction::Skip));
    let mut t = base_track();
    t.cue_source = Some(porrima::track::CueSource { cue_path: "/m/a.cue".into(), cue_index: 3, start_ms: 0, end_ms: None });
    let groups = vec![("/m/a.wav".to_string(), vec![t])];
    match scan_step(&mut st, ScanInput::Sheet { path: "/m/a.cue".into(), groups }) {
        ScanAction::ApplySheet(keeps) => {
            assert_eq!(keeps.len(), 1);
            assert_eq!(keeps[0].0, "/m/a.wav");
            assert_eq!(keeps[0].1, vec![3]);
        }
        _ => panic!("expected ApplySheet"),
    }
    assert_eq!(st.live_sheets, vec!["/m/a.cue"]);
    assert_eq!(st.covered, vec!["/m/a.wav"]);
    assert_eq!(st.seen, vec!["/m/a.wav"]);
    assert_eq!(st.batch.len(), 1);
    assert!(matches!(
        scan_step(&mut st, ScanInput::Sheet { path: "/m/empty.cue".into(), groups: vec![] }),
        ScanAction::Continue
    ));
    assert_eq!(st.live_sheets.len(), 1);
    // audio pass: covered, unsupported and non-file entries are skipped
    assert!(matches!(scan_step(&mut st, walked("/m/a.wav", true, false, false)), ScanAction::Skip));
    assert!(matches!(scan_step(&mut st, walked("/m/notes.txt", true, false, false)), ScanAction::Skip));
    assert!(matches!(scan_step(&mut st, walked("/m/dir.mp3", false, false, false)), ScanAction::Skip));
    assert!(matches!(
        scan_step(&mut st, walked("/m/b.mp3", true, false, false)),
        ScanAction::ReadTrack { progress: false }
    ));
    assert_eq!(st.scanned, 1);
    assert_eq!(st.seen, vec!["/m/a.wav", "/m/b.mp3"]);
    scan_step(&mut st, ScanInput::StartDir);
    assert!(st.seen.is_empty() && st.covered.is_empty() && st.live_sheets.is_empty());
    assert_eq!(st.batch.len(), 1);
}

#[test]
fn scan_step_counts_and_flushes() {
    let mut st = ScanState::new();
    for i in 0..(SCAN_BATCH - 1) {
        let mut t = base_track();
        t.id = format!("t{i}");
        assert!(matches!(scan_step(&mut st, ScanInput::TrackRead(t)), ScanAction::Continue));
    }
    match scan_step(&mut st, ScanInput::TrackRead(base_track())) {
        ScanAction::Flush(v) => assert_eq!(v.len(), SCAN_BATCH),
        _ => panic!("expected Flush"),
    }
    assert!(st.batch.is_empty());
    assert_eq!(st.outcome.indexed, SCAN_BATCH as u64);
    scan_step(&mut st, ScanInput::TrackFailed);
    scan_step(&mut st, ScanInput::SheetFailed);
    assert_eq!(st.outcome.skipped_errors, 2);
    scan_step(&mut st, ScanInput::Pruned(4));
    scan_step(&mut st, ScanInput::Pruned(1));
    assert_eq!(st.outcome.pruned, 5);
    assert!(matches!(scan_step(&mut st, ScanInput::Finish), ScanAction::Continue));
    scan_step(&mut st, ScanInput::TrackRead(base_track()));
    match scan_step(&mut st, ScanInput::Finish) {
        ScanAction::Flush(v) => assert_eq!(v.len(), 1),
        _ => panic!("expected Flush"),
    }
    assert_eq!(
        st.outcome,
        ScanOutcome { indexed: SCAN_BATCH as u64 + 1, skipped_errors: 2, pruned: 5, cancelled: false }
    );
    for _ in 0..49 {
        scan_step(&mut st, walked("/m/x.flac", true, false, false));
    }
    assert!(matches!(
        scan_step(&mut st, walked("/m/y.flac", true, false, false)),
        ScanAction::ReadTrack { progress: true }
    ));
    assert_eq!(st.scanned, 50);
}

#[test]
fn playlist_append_keeps_known_ids_in_order() {
    let ids: Vec<String> = vec!["a".into(), "zz".into(), "b".into(), "a".into()];
    let rows = playlist_appended("p1", true, ids.clone(), vec![true, false, true, true], 3).unwrap();
    assert_eq!(rows, vec![("a".to_string(), 3), ("b".to_string(), 4), ("a".to_string(), 5)]);
    assert_eq!(playlist_appended("p1", true, ids.clone(), vec![false; 4], 0).unwrap(), vec![]);
    assert_eq!(
        playlist_appended("p1", false, ids, vec![true; 4], 0),
        Err(AppError::NotFound("playlist p1".into()))
    );
}

#[test]
fn join_path_resolves_sheet_audio() {
    assert_eq!(join_path("/m/album", "a.wav", '/'), "/m/album/a.wav");
    assert_eq!(join_path("/m/album/", "a.wav", '/'), "/m/album/a.wav");
    assert_eq!(join_path("", "a.wav", '/'), "a.wav");
    assert_eq!(join_path("/m", "/abs/a.wav", '/'), "/abs/a.wav");
    assert_eq!(join_path("D:\\m", "C:\\x\\a.wav", '\\'), "C:\\x\\a.wav");
    assert_eq!(join_path("D:\\m", "sub\\a.wav", '\\'), "D:\\m\\sub\\a.wav");
}

/// Runs the import decisions over paths against an in-memory store of
/// tracks; `files` are the paths that exist, `readable` those whose tags read.
fn import_with(store: &mut Vec<Track>, paths: &[&str], files: &[&str], readable: &[&str]) -> Vec<Track> {
    let mut state = ImportState { out: Vec::new() };
    for p in paths {
        let ev = ImportEvent::Path { path: p.to_string(), is_file: files.contains(p) };
        match import_step(&mut state, ev) {
            ImportAction::LookUp(audio) => {
                let stored: Vec<Track> = store.iter().filter(|t| t.path == audio).cloned().collect();
                if let ImportAction::ReadTags = import_step(&mut state, ImportEvent::Stored(stored)) {
                    let read = if readable.contains(&audio.as_str()) {
                        let mut t = base_track();
                        t.id = format!("new-{audio}");
                        t.path = audio.clone();
                        Ok(t)
                    } else {
                        Err(AppError::Other("unreadable".into()))
                    };
                    if let ImportAction::Insert = import_step(&mut state, ImportEvent::Read(read)) {
                        store.push(state.out.last().unwrap().clone());
                    }
                }
            }
            ImportAction::ExpandSheet(_) => panic!("no sheets here"),
            _ => {}
        }
    }
    state.out
}

#[test]
fn import_files_reuses_existing_and_skips_unsupported() {
    let mut existing = base_track();
    existing.id = "existing-a".into();
    existing.path = "/t/music/a.wav".into();
    let mut store = vec![existing.clone()];
    let paths = ["/t/music/a.wav", "/t/b.wav", "/t/c.txt", "/t/missing.flac"];
    let files = ["/t/music/a.wav", "/t/b.wav", "/t/c.txt"];
    let imported = import_with(&mut store, &paths, &files, &["/t/music/a.wav", "/t/b.wav"]);
    assert_eq!(imported.len(), 2);
    assert_eq!(imported[0].id, existing.id);
    assert_eq!(store.len(), 2);
    assert_eq!(imported[1].path, "/t/b.wav");
}

#[test]
fn import_skips_unreadable_files_and_keeps_going() {
    let mut store = Vec::new();
    let paths = ["/t/bad.flac", "/t/good.mp3"];
    let imported = import_with(&mut store, &paths, &paths, &["/t/good.mp3"]);
    assert_eq!(imported.len(), 1);
    assert_eq!(imported[0].path, "/t/good.mp3");
    assert_eq!(store.len(), 1);
}

#[test]
fn import_sheet_hands_back_only_virtual_tracks() {
    let mut state = ImportState { out: Vec::new() };
    match import_step(&mut state, ImportEvent::Path { path: "/t/a.CUE".into(), is_file: true }) {
        ImportAction::ExpandSheet(p) => assert_eq!(p, "/t/a.CUE"),
        _ => panic!("expected ExpandSheet"),
    }
    let whole = base_track();
    let mut v1 = base_track();
    v1.id = "v1".into();
    v1.cue_source = Some(porrima::track::CueSource { cue_path: "/t/a.CUE".into(), cue_index: 1, start_ms: 0, end_ms: Some(5) });
    let mut v2 = v1.clone();
    v2.id = "v2".into();
    assert!(matches!(import_step(&mut state, ImportEvent::SheetRows(vec![v1, whole, v2])), ImportAction::Continue));
    let ids: Vec<&str> = state.out.iter().map(|t| t.id.as_str()).collect();
    assert_eq!(ids, vec!["v1", "v2"]);
}

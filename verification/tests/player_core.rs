use porrima::models::{PlayMode, PlayStatus};
use porrima::player::{EngineCmd, PlayerCore};

fn core_with_queue(n: usize, start: usize) -> PlayerCore {
    let mut core = PlayerCore::new();
    let ids: Vec<String> = (0..n).map(|i| format!("t{i}")).collect();
    core.play_queue(ids, start);
    core
}

fn load_id(cmd: &EngineCmd) -> &str {
    match cmd {
        EngineCmd::Load { track_id } => track_id,
        other => panic!("expected Load, got {other:?}"),
    }
}

#[test]
fn play_queue_sets_current_and_plays() {
    let core = core_with_queue(3, 1);
    assert_eq!(core.state().current_track_id.as_deref(), Some("t1"));
    assert_eq!(core.state().status, PlayStatus::Playing);
    assert_eq!(core.state().queue_index, 1);
}

#[test]
fn play_queue_rejects_out_of_range() {
    let mut core = PlayerCore::new();
    assert!(core.play_queue(vec!["t0".into()], 5).is_none());
    assert!(core.play_queue(vec![], 0).is_none());
}

#[test]
fn play_at_jumps_within_queue() {
    let mut core = core_with_queue(3, 0);
    assert_eq!(load_id(&core.play_at(2).unwrap()), "t2");
    assert_eq!(core.state().queue_index, 2);
    assert_eq!(core.state().status, PlayStatus::Playing);
    assert!(core.play_at(9).is_none());
    assert_eq!(core.state().queue_index, 2);
}

#[test]
fn toggle_pause_resume() {
    let mut core = core_with_queue(2, 0);
    assert_eq!(core.toggle(), Some(EngineCmd::Pause));
    assert_eq!(core.state().status, PlayStatus::Paused);
    assert_eq!(core.toggle(), Some(EngineCmd::Resume));
    assert_eq!(core.state().status, PlayStatus::Playing);

    let mut idle = PlayerCore::new();
    assert_eq!(idle.toggle(), None);
}

#[test]
fn sequential_advances_and_stops_at_end() {
    let mut core = core_with_queue(2, 0);
    assert_eq!(load_id(&core.next().unwrap()), "t1");
    assert_eq!(core.next(), None);
    let mut core = core_with_queue(2, 0);
    assert_eq!(load_id(&core.on_end_file().unwrap()), "t1");
    assert_eq!(core.on_end_file(), None);
    assert_eq!(core.state().status, PlayStatus::Stopped);
}

#[test]
fn repeat_all_wraps_around() {
    let mut core = core_with_queue(2, 1);
    core.set_mode(PlayMode::RepeatAll);
    assert_eq!(load_id(&core.next().unwrap()), "t0");
    let mut core = core_with_queue(2, 1);
    core.set_mode(PlayMode::RepeatAll);
    assert_eq!(load_id(&core.on_end_file().unwrap()), "t0");
}

#[test]
fn repeat_one_replays_on_endfile_but_next_advances() {
    let mut core = core_with_queue(2, 0);
    core.set_mode(PlayMode::RepeatOne);
    assert_eq!(load_id(&core.on_end_file().unwrap()), "t0");
    assert_eq!(core.state().queue_index, 0);
    assert_eq!(load_id(&core.next().unwrap()), "t1");
    assert_eq!(core.next(), None);
}

#[test]
fn previous_at_start_restarts_current() {
    let mut core = core_with_queue(3, 0);
    assert_eq!(core.previous(), Some(EngineCmd::Seek { position_ms: 0 }));
    let mut core = core_with_queue(3, 2);
    assert_eq!(load_id(&core.previous().unwrap()), "t1");
}

#[test]
fn shuffle_keeps_membership_and_restores_order() {
    let mut core = core_with_queue(10, 4);
    core.set_mode(PlayMode::Shuffle);
    let mut sorted = core.state().queue.clone();
    sorted.sort();
    assert_eq!(sorted, (0..10).map(|i| format!("t{i}")).collect::<Vec<_>>());
    assert_eq!(core.state().queue[core.state().queue_index], "t4");
    core.set_mode(PlayMode::Sequential);
    assert_eq!(core.state().queue, (0..10).map(|i| format!("t{i}")).collect::<Vec<_>>());
    assert_eq!(core.state().queue_index, 4);
}

#[test]
fn volume_clamped_and_mute_uses_zero_volume() {
    let mut core = core_with_queue(1, 0);
    assert_eq!(core.set_volume(150), EngineCmd::SetVolume { volume: 100 });
    assert_eq!(core.state().volume, 100);
    assert_eq!(core.set_volume(60), EngineCmd::SetVolume { volume: 60 });
    assert_eq!(core.set_muted(true), EngineCmd::SetVolume { volume: 0 });
    assert!(core.state().muted);
    assert_eq!(core.set_muted(false), EngineCmd::SetVolume { volume: 60 });
    assert!(!core.state().muted);
}

#[test]
fn progress_and_file_loaded_events() {
    let mut core = core_with_queue(1, 0);
    core.on_file_loaded(180_000);
    assert_eq!(core.state().duration_ms, 180_000);
    assert_eq!(core.state().position_ms, 0);
    core.on_progress(5_000, 180_000);
    assert_eq!(core.state().position_ms, 5_000);
    core.on_progress(6_000, 0);
    assert_eq!(core.state().duration_ms, 180_000);
    core.on_pause_changed(true);
    assert_eq!(core.state().status, PlayStatus::Paused);
}

#[test]
fn play_count_records_once_after_threshold() {
    let mut core = core_with_queue(2, 0);
    core.on_file_loaded(180_000);
    assert!(core.take_stats_pending().is_none());
    core.on_progress(10_000, 180_000);
    assert!(core.take_stats_pending().is_none());
    core.on_progress(30_000, 180_000);
    assert_eq!(core.take_stats_pending().as_deref(), Some("t0"));
    core.on_progress(90_000, 180_000);
    assert!(core.take_stats_pending().is_none());

    core.on_end_file();
    core.on_file_loaded(10_000);
    core.on_progress(6_000, 10_000);
    assert_eq!(core.take_stats_pending().as_deref(), Some("t1"));
}

#[test]
fn queue_add_appends_or_inserts_after_current() {
    let mut core = core_with_queue(3, 1);
    core.queue_add(vec!["x".into()], false);
    assert_eq!(core.state().queue, vec!["t0", "t1", "t2", "x"]);
    core.queue_add(vec!["y".into(), "z".into()], true);
    assert_eq!(core.state().queue, vec!["t0", "t1", "y", "z", "t2", "x"]);
    assert_eq!(core.state().current_track_id.as_deref(), Some("t1"));
    assert_eq!(core.state().queue_index, 1);

    let mut idle = PlayerCore::new();
    idle.queue_add(vec!["a".into()], true);
    assert_eq!(idle.state().queue, vec!["a"]);
    assert_eq!(idle.state().status, PlayStatus::Stopped);
    assert_eq!(idle.state().current_track_id, None);
}

#[test]
fn queue_remove_adjusts_index_and_handles_current() {
    let mut core = core_with_queue(3, 1);
    assert_eq!(core.queue_remove(0), None);
    assert_eq!(core.state().queue, vec!["t1", "t2"]);
    assert_eq!(core.state().queue_index, 0);

    let mut core = core_with_queue(3, 1);
    let cmd = core.queue_remove(1).unwrap();
    assert_eq!(load_id(&cmd), "t2");
    assert_eq!(core.state().queue, vec!["t0", "t2"]);
    assert_eq!(core.state().queue_index, 1);

    let mut core = core_with_queue(2, 1);
    let cmd = core.queue_remove(1).unwrap();
    assert_eq!(load_id(&cmd), "t0");
    assert_eq!(core.state().queue_index, 0);

    let mut core = core_with_queue(1, 0);
    assert_eq!(core.queue_remove(0), Some(EngineCmd::Stop));
    assert_eq!(core.state().status, PlayStatus::Stopped);
    assert_eq!(core.state().current_track_id, None);
    assert!(core.state().queue.is_empty());

    let mut core = core_with_queue(2, 0);
    assert_eq!(core.queue_remove(5), None);
    assert_eq!(core.state().queue.len(), 2);
}

#[test]
fn queue_move_keeps_current_index_tracking() {
    let mut core = core_with_queue(4, 1);
    core.queue_move(1, 3);
    assert_eq!(core.state().queue, vec!["t0", "t2", "t3", "t1"]);
    assert_eq!(core.state().queue_index, 3);
    assert_eq!(core.state().current_track_id.as_deref(), Some("t1"));

    let mut core = core_with_queue(4, 2);
    core.queue_move(0, 3);
    assert_eq!(core.state().queue, vec!["t1", "t2", "t3", "t0"]);
    assert_eq!(core.state().queue_index, 1);

    let mut core = core_with_queue(4, 1);
    core.queue_move(3, 0);
    assert_eq!(core.state().queue, vec!["t3", "t0", "t1", "t2"]);
    assert_eq!(core.state().queue_index, 2);

    let mut core = core_with_queue(2, 0);
    core.queue_move(0, 0);
    core.queue_move(5, 1);
    assert_eq!(core.state().queue, vec!["t0", "t1"]);
}

#[test]
fn queue_clear_keeps_playing_track() {
    let mut core = core_with_queue(3, 1);
    core.queue_clear();
    assert_eq!(core.state().queue, vec!["t1"]);
    assert_eq!(core.state().queue_index, 0);
    assert_eq!(core.state().status, PlayStatus::Playing);

    let mut core = core_with_queue(3, 1);
    core.stop();
    core.queue_clear();
    assert!(core.state().queue.is_empty());
    assert_eq!(core.state().current_track_id, None);
}

#[test]
fn queue_edits_sync_with_shuffle_original_queue() {
    let mut core = core_with_queue(5, 2);
    core.set_mode(PlayMode::Shuffle);
    core.queue_add(vec!["x".into()], false);
    let victim_idx = if core.state().queue_index == 0 { 1 } else { 0 };
    let victim = core.state().queue[victim_idx].clone();
    core.queue_remove(victim_idx);
    core.set_mode(PlayMode::Sequential);
    let mut members = core.state().queue.clone();
    members.sort();
    let mut expected: Vec<String> = (0..5)
        .map(|i| format!("t{i}"))
        .filter(|t| *t != victim)
        .chain(std::iter::once("x".to_string()))
        .collect();
    expected.sort();
    assert_eq!(members, expected);
}

#[test]
fn mode_cycles_in_ui_order() {
    let mut m = PlayMode::Sequential;
    m = m.next();
    assert_eq!(m, PlayMode::RepeatAll);
    m = m.next();
    assert_eq!(m, PlayMode::RepeatOne);
    m = m.next();
    assert_eq!(m, PlayMode::Shuffle);
    m = m.next();
    assert_eq!(m, PlayMode::Sequential);
}

#[test]
fn mode_cycle_returns_after_four_steps() {
    for m in [PlayMode::Sequential, PlayMode::Shuffle, PlayMode::RepeatOne, PlayMode::RepeatAll] {
        assert_ne!(m.next(), m);
        assert_eq!(m.next().next().next().next(), m);
    }
}

#[test]
fn shuffle_round_trip_restores_order_and_index() {
    let mut core = core_with_queue(6, 3);
    core.set_mode(PlayMode::Shuffle);
    assert_eq!(core.state().queue[core.state().queue_index], "t3");
    core.set_mode(PlayMode::RepeatAll);
    assert_eq!(core.state().queue, vec!["t0", "t1", "t2", "t3", "t4", "t5"]);
    assert_eq!(core.state().queue_index, 3);
    assert_eq!(core.state().play_mode, PlayMode::RepeatAll);
}

#[test]
fn shuffle_of_two_tracks_keeps_order() {
    let mut core = core_with_queue(2, 1);
    core.set_mode(PlayMode::Shuffle);
    assert_eq!(core.state().queue, vec!["t0", "t1"]);
}

#[test]
fn restore_pauses_and_resumes_at_saved_position() {
    let mut source = core_with_queue(3, 2);
    source.on_progress(42_000, 200_000);
    let mut snapshot = source.state().clone();
    snapshot.status = PlayStatus::Playing;

    let mut core = PlayerCore::new();
    core.restore(snapshot);
    assert_eq!(core.state().status, PlayStatus::Paused);
    assert_eq!(core.state().queue_index, 2);
    assert_eq!(core.toggle(), Some(EngineCmd::Load { track_id: "t2".into() }));
    assert_eq!(core.on_file_loaded(200_000), Some(EngineCmd::Seek { position_ms: 42_000 }));
    assert_eq!(core.state().position_ms, 42_000);
}

#[test]
fn restore_caps_resume_at_known_duration() {
    let mut source = core_with_queue(1, 0);
    source.on_progress(90_000, 0);
    let mut core = PlayerCore::new();
    core.restore(source.state().clone());
    core.toggle();
    assert_eq!(core.on_file_loaded(60_000), Some(EngineCmd::Seek { position_ms: 60_000 }));
}

#[test]
fn restore_without_current_track_clears_queue() {
    let mut snapshot = core_with_queue(3, 1).state().clone();
    snapshot.current_track_id = None;
    let mut core = PlayerCore::new();
    core.restore(snapshot);
    assert!(core.state().queue.is_empty());
    assert_eq!(core.state().status, PlayStatus::Stopped);
    assert_eq!(core.toggle(), None);
}

#[test]
fn stop_and_seek_commands() {
    let mut core = core_with_queue(2, 0);
    assert_eq!(core.seek(12_345), EngineCmd::Seek { position_ms: 12_345 });
    assert_eq!(core.state().position_ms, 12_345);
    assert_eq!(core.stop(), EngineCmd::Stop);
    assert_eq!(core.state().status, PlayStatus::Stopped);
}

#[test]
fn pause_change_without_track_is_ignored() {
    let mut core = PlayerCore::new();
    core.on_pause_changed(true);
    assert_eq!(core.state().status, PlayStatus::Stopped);
}

#[test]
fn half_duration_counts_as_a_play() {
    let mut core = core_with_queue(1, 0);
    core.on_file_loaded(20_000);
    core.on_progress(9_999, 20_000);
    assert!(core.take_stats_pending().is_none());
    core.on_progress(10_000, 20_000);
    assert_eq!(core.take_stats_pending().as_deref(), Some("t0"));
}

#[test]
fn queue_remove_current_while_stopped_keeps_stopped() {
    let mut core = core_with_queue(3, 1);
    core.stop();
    assert_eq!(core.queue_remove(1), None);
    assert_eq!(core.state().current_track_id, None);
    assert_eq!(core.state().queue, vec!["t0", "t2"]);
}

#[test]
fn readiness_checks_for_the_caller() {
    let core = core_with_queue(3, 1);
    assert!(core.can_toggle());
    assert!(core.can_end_file());
    assert!(core.can_set_mode(PlayMode::Shuffle));
    assert!(core.can_set_mode(PlayMode::RepeatOne));
    let idle = PlayerCore::new();
    assert!(idle.can_toggle());
    assert!(idle.can_end_file());
    assert!(idle.can_set_mode(PlayMode::Shuffle));
}

#[test]
fn default_player_is_stopped_and_empty() {
    let core = PlayerCore::default();
    assert_eq!(core.state().status, PlayStatus::Stopped);
    assert!(core.state().queue.is_empty());
    assert_eq!(core.state().volume, 80);
    assert_eq!(core.state().play_mode, PlayMode::Sequential);
}

#[test]
fn new_queue_while_shuffling_restores_its_own_order() {
    let mut core = PlayerCore::new();
    core.play_queue(vec!["a".into()], 0);
    core.set_mode(PlayMode::Shuffle);
    core.play_queue(vec!["x".into(), "y".into()], 1);
    core.set_mode(PlayMode::Sequential);
    assert_eq!(core.state().queue, vec!["x", "y"]);
    assert_eq!(core.state().queue_index, 1);
    assert_eq!(core.state().current_track_id.as_deref(), Some("y"));
}

#[test]
fn play_queue_while_shuffling_starts_at_the_chosen_track() {
    let mut core = core_with_queue(2, 0);
    core.set_mode(PlayMode::Shuffle);
    let ids: Vec<String> = (0..8).map(|i| format!("s{i}")).collect();
    let cmd = core.play_queue(ids.clone(), 5).unwrap();
    assert_eq!(load_id(&cmd), "s5");
    assert_eq!(core.state().queue_index, 5);
    assert_eq!(core.state().queue[5], "s5");
    assert_eq!(core.state().current_track_id.as_deref(), Some("s5"));
    assert_eq!(core.state().status, PlayStatus::Playing);
    let mut sorted = core.state().queue.clone();
    sorted.sort();
    assert_eq!(sorted, ids);
    core.set_mode(PlayMode::RepeatAll);
    assert_eq!(core.state().queue, ids);
    assert_eq!(core.state().queue_index, 5);
}

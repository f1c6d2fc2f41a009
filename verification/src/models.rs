use vstd::prelude::*;

verus! {

/// Playback status.
#[derive(Debug, Clone, Copy, PartialEq, Eq, Structural)]
pub enum PlayStatus {
    Playing,
    Paused,
    Stopped,
}

/// Play mode, in the order the UI cycles through.
#[derive(Debug, Clone, Copy, PartialEq, Eq, Structural)]
pub enum PlayMode {
    Sequential,
    Shuffle,
    RepeatOne,
    RepeatAll,
}

/// The mode that follows `m` in the settings page / player bar cycle.
pub open spec fn next_mode(m: PlayMode) -> PlayMode {
    match m {
        PlayMode::Sequential => PlayMode::RepeatAll,
        PlayMode::RepeatAll => PlayMode::RepeatOne,
        PlayMode::RepeatOne => PlayMode::Shuffle,
        PlayMode::Shuffle => PlayMode::Sequential,
    }
}

impl PlayMode {
    /// Cycle order of the UI: sequential → repeat-all → repeat-one → shuffle → sequential.
    pub fn next(self) -> (r: Self)
        ensures
            r == next_mode(self),
    {
        match self {
            PlayMode::Sequential => PlayMode::RepeatAll,
            PlayMode::RepeatAll => PlayMode::RepeatOne,
            PlayMode::RepeatOne => PlayMode::Shuffle,
            PlayMode::Shuffle => PlayMode::Sequential,
        }
    }
}

/// Cycling through the modes four times returns to the starting mode.
pub proof fn lemma_mode_cycle_has_period_four(m: PlayMode)
    ensures
        next_mode(next_mode(next_mode(next_mode(m)))) == m,
        next_mode(m) != m,
{
}

} // verus!

verus! {

/// Full player state as shown to the UI.
#[derive(Debug, Clone)]
pub struct PlayerState {
    pub current_track_id: Option<String>,
    pub status: PlayStatus,
    pub position_ms: u64,
    pub duration_ms: u64,
    /// Integer volume in 0..=100.
    pub volume: u32,
    pub muted: bool,
    pub play_mode: PlayMode,
    /// Ordered track ids (the shuffled order while shuffling).
    pub queue: Vec<String>,
    pub queue_index: usize,
}

/// Mathematical picture of a [`PlayerState`]: the queue as a sequence.
#[verifier::ext_equal]
pub struct StateView {
    pub current_track_id: Option<String>,
    pub status: PlayStatus,
    pub position_ms: u64,
    pub duration_ms: u64,
    pub volume: u32,
    pub muted: bool,
    pub play_mode: PlayMode,
    pub queue: Seq<String>,
    pub queue_index: usize,
}

impl View for PlayerState {
    type V = StateView;

    open spec fn view(&self) -> StateView {
        StateView {
            current_track_id: self.current_track_id,
            status: self.status,
            position_ms: self.position_ms,
            duration_ms: self.duration_ms,
            volume: self.volume,
            muted: self.muted,
            play_mode: self.play_mode,
            queue: self.queue@,
            queue_index: self.queue_index,
        }
    }
}

/// The state of a fresh player: stopped, volume 80, sequential, empty queue.
pub open spec fn default_state_view() -> StateView {
    StateView {
        current_track_id: None,
        status: PlayStatus::Stopped,
        position_ms: 0,
        duration_ms: 0,
        volume: 80,
        muted: false,
        play_mode: PlayMode::Sequential,
        queue: Seq::empty(),
        queue_index: 0,
    }
}

impl Default for PlayerState {
    fn default() -> (r: Self)
        ensures
            r@ == default_state_view(),
    {
        PlayerState {
            current_track_id: None,
            status: PlayStatus::Stopped,
            position_ms: 0,
            duration_ms: 0,
            volume: 80,
            muted: false,
            play_mode: PlayMode::Sequential,
            queue: Vec::new(),
            queue_index: 0,
        }
    }
}

} // verus!

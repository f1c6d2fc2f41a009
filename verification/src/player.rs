//! Playback state machine: queue, play mode and status. It keeps state and
//! decides; the caller turns each returned [`EngineCmd`] into an engine action.
//!
//! Mode semantics:
//! - Sequential: plays through the queue and stops after the last track;
//! - RepeatAll: wraps around at the end (explicit next as well);
//! - RepeatOne: a natural end replays the current track, explicit next/previous move on;
//! - Shuffle: the queue is shuffled on entry (current track keeps its position),
//!   the natural end of the last track stops; leaving shuffle restores the order.

use vstd::prelude::*;

use crate::clock::clock_seed;
use crate::models::{default_state_view, PlayMode, PlayStatus, PlayerState, StateView};
use crate::shuffle::{
    first_match, has_match, id_texts, lemma_first_match, lemma_shuffle_keeps_members, position_of,
    shuffle_allowed, shuffle_with_seed, shuffled,
};

verus! {

/// An action for the playback engine. `Load` carries a track id; the caller
/// resolves its path.
#[derive(Debug, Clone, PartialEq, Eq)]
pub enum EngineCmd {
    Load { track_id: String },
    Pause,
    Resume,
    Stop,
    Seek { position_ms: u64 },
    SetVolume { volume: u32 },
}

/// Minimum played time that counts as one play (or half the duration, whichever comes first).
pub const PLAY_COUNT_MIN_MS: u64 = 30_000;

/// The player: state plus the bookkeeping behind shuffle, play statistics and
/// session restore.
pub struct PlayerCore {
    state: PlayerState,
    /// Queue order before shuffling (restored when leaving shuffle).
    original_queue: Option<Vec<String>>,
    /// Whether the current load has already been counted as a play.
    stats_recorded: bool,
    /// Track id whose play is to be recorded by the caller.
    stats_pending: Option<String>,
    /// Restored session: the current track is not loaded into the engine yet.
    awaiting_load: bool,
    /// Position to seek to once the restored track has loaded.
    resume_position_ms: u64,
}

/// Mathematical picture of a [`PlayerCore`].
#[verifier::ext_equal]
pub struct CoreView {
    pub state: StateView,
    pub original_queue: Option<Seq<String>>,
    pub stats_recorded: bool,
    pub stats_pending: Option<String>,
    pub awaiting_load: bool,
    pub resume_position_ms: u64,
}

impl View for PlayerCore {
    type V = CoreView;

    closed spec fn view(&self) -> CoreView {
        CoreView {
            state: self.state@,
            original_queue: match self.original_queue {
                Some(v) => Some(v@),
                None => None,
            },
            stats_recorded: self.stats_recorded,
            stats_pending: self.stats_pending,
            awaiting_load: self.awaiting_load,
            resume_position_ms: self.resume_position_ms,
        }
    }
}

/// A fresh player.
pub open spec fn initial_core() -> CoreView {
    CoreView {
        state: default_state_view(),
        original_queue: None,
        stats_recorded: false,
        stats_pending: None,
        awaiting_load: false,
        resume_position_ms: 0,
    }
}

/// `c` with a new state.
pub open spec fn with_state(c: CoreView, s: StateView) -> CoreView {
    CoreView { state: s, ..c }
}

/// `c` with the queue index moved to `i`.
pub open spec fn at_index(c: CoreView, i: usize) -> CoreView {
    with_state(c, StateView { queue_index: i, ..c.state })
}

/// `c` with the status changed.
pub open spec fn with_status(c: CoreView, st: PlayStatus) -> CoreView {
    with_state(c, StateView { status: st, ..c.state })
}

/// Loading the track at the queue index: it becomes current and plays from
/// the start; a pending session restore is dropped.
pub open spec fn loaded(c: CoreView) -> CoreView {
    CoreView {
        state: StateView {
            current_track_id: Some(c.state.queue[c.state.queue_index as int]),
            status: PlayStatus::Playing,
            position_ms: 0,
            ..c.state
        },
        awaiting_load: false,
        resume_position_ms: 0,
        ..c
    }
}

/// The engine command that loads the track at the queue index.
pub open spec fn load_cmd(c: CoreView) -> EngineCmd {
    EngineCmd::Load { track_id: c.state.queue[c.state.queue_index as int] }
}

/// The queue index points into the queue, or is 0 for an empty queue.
pub open spec fn well_indexed(s: StateView) -> bool {
    s.queue_index < s.queue.len() || (s.queue.len() == 0 && s.queue_index == 0)
}

/// While shuffling, the saved order holds the same track ids as the queue.
pub open spec fn in_sync(c: CoreView) -> bool {
    match c.original_queue {
        Some(o) => id_texts(o).to_multiset() == id_texts(c.state.queue).to_multiset(),
        None => true,
    }
}

/// Restoring a saved snapshot: with a valid current track the player is paused
/// and waits to load it (then seeks to the saved position); otherwise it is
/// cleared and stopped.
pub open spec fn restored(s: StateView) -> CoreView {
    if s.current_track_id is Some && s.queue.len() > 0 && s.queue_index < s.queue.len() {
        CoreView {
            state: StateView { status: PlayStatus::Paused, ..s },
            original_queue: None,
            stats_recorded: false,
            stats_pending: None,
            awaiting_load: true,
            resume_position_ms: s.position_ms,
        }
    } else {
        CoreView {
            state: StateView {
                current_track_id: None,
                queue: Seq::empty(),
                queue_index: 0,
                position_ms: 0,
                duration_ms: 0,
                status: PlayStatus::Stopped,
                ..s
            },
            original_queue: None,
            stats_recorded: false,
            stats_pending: None,
            awaiting_load: false,
            resume_position_ms: 0,
        }
    }
}

/// The queue `play_queue` installs: in shuffle mode the new ids shuffled (for
/// some clock seed) with the starting track kept at the start index.
pub open spec fn installed_queue(pre: CoreView, ids: Seq<String>, start: usize, seed: u64) -> Seq<String> {
    if pre.state.play_mode == PlayMode::Shuffle {
        shuffled(ids, start as int, Some(ids[start as int]), seed)
    } else {
        ids
    }
}

/// The order saved for leaving shuffle once `ids` replace the queue: the new
/// ids themselves while shuffling, nothing otherwise.
pub open spec fn installed_original(pre: CoreView, ids: Seq<String>) -> Option<Seq<String>> {
    if pre.state.play_mode == PlayMode::Shuffle {
        Some(ids)
    } else {
        None
    }
}

/// Effect of `play_queue(ids, start)`.
pub open spec fn play_queue_post(
    pre: CoreView,
    ids: Seq<String>,
    start: usize,
    post: CoreView,
    r: Option<EngineCmd>,
) -> bool {
    if ids.len() == 0 || start >= ids.len() {
        post == pre && r is None
    } else {
        exists|seed: u64|
            #![trigger installed_queue(pre, ids, start, seed)]
            {
                let mid = CoreView {
                    state: StateView { queue: installed_queue(pre, ids, start, seed), queue_index: start, ..pre.state },
                    original_queue: installed_original(pre, ids),
                    ..pre
                };
                post == loaded(mid) && r == Some(load_cmd(mid))
            }
    }
}

/// Effect of `toggle`.
pub open spec fn toggle_post(pre: CoreView, post: CoreView, r: Option<EngineCmd>) -> bool {
    match pre.state.status {
        PlayStatus::Playing => post == with_status(pre, PlayStatus::Paused) && r == Some(EngineCmd::Pause),
        PlayStatus::Paused => if pre.awaiting_load {
            let id = pre.state.queue[pre.state.queue_index as int];
            post == CoreView {
                state: StateView { status: PlayStatus::Playing, current_track_id: Some(id), ..pre.state },
                awaiting_load: false,
                ..pre
            } && r == Some(EngineCmd::Load { track_id: id })
        } else {
            post == with_status(pre, PlayStatus::Playing) && r == Some(EngineCmd::Resume)
        },
        PlayStatus::Stopped => post == pre && r is None,
    }
}

/// Effect of an explicit `next`.
pub open spec fn next_post(pre: CoreView, post: CoreView, r: Option<EngineCmd>) -> bool {
    let len = pre.state.queue.len();
    let i = pre.state.queue_index;
    if len == 0 {
        post == pre && r is None
    } else if i < len - 1 {
        post == loaded(at_index(pre, (i + 1) as usize)) && r == Some(load_cmd(at_index(pre, (i + 1) as usize)))
    } else if pre.state.play_mode == PlayMode::RepeatAll {
        post == loaded(at_index(pre, 0)) && r == Some(load_cmd(at_index(pre, 0)))
    } else {
        post == pre && r is None
    }
}

/// Effect of an explicit `previous`.
pub open spec fn previous_post(pre: CoreView, post: CoreView, r: Option<EngineCmd>) -> bool {
    let i = pre.state.queue_index;
    if pre.state.queue.len() == 0 {
        post == pre && r is None
    } else if i > 0 {
        post == loaded(at_index(pre, (i - 1) as usize)) && r == Some(load_cmd(at_index(pre, (i - 1) as usize)))
    } else {
        post == pre && r == Some(EngineCmd::Seek { position_ms: 0 })
    }
}

/// Effect of a natural end of file.
pub open spec fn end_file_post(pre: CoreView, post: CoreView, r: Option<EngineCmd>) -> bool {
    let len = pre.state.queue.len();
    let i = pre.state.queue_index;
    if len == 0 {
        post == with_status(pre, PlayStatus::Stopped) && r is None
    } else {
        match pre.state.play_mode {
            PlayMode::RepeatOne => post == loaded(pre) && r == Some(load_cmd(pre)),
            PlayMode::RepeatAll => {
                let j: usize = if i >= len - 1 { 0 } else { (i + 1) as usize };
                post == loaded(at_index(pre, j)) && r == Some(load_cmd(at_index(pre, j)))
            },
            _ => if i >= len - 1 {
                post == with_state(pre, StateView { status: PlayStatus::Stopped, position_ms: 0, ..pre.state })
                    && r is None
            } else {
                post == loaded(at_index(pre, (i + 1) as usize)) && r == Some(load_cmd(at_index(pre, (i + 1) as usize)))
            },
        }
    }
}

/// Effect of `set_mode(mode)`: entering shuffle saves the order and shuffles
/// (for some clock seed); leaving shuffle restores the saved order and finds
/// the current track (the id at the queue index) in it.
pub open spec fn set_mode_post(pre: CoreView, mode: PlayMode, post: CoreView) -> bool {
    let s = pre.state;
    if mode == s.play_mode {
        post == pre
    } else if mode == PlayMode::Shuffle {
        exists|seed: u64|
            #![trigger shuffled(s.queue, s.queue_index as int, s.current_track_id, seed)]
            post == CoreView {
                state: StateView {
                    play_mode: mode,
                    queue: shuffled(s.queue, s.queue_index as int, s.current_track_id, seed),
                    ..s
                },
                original_queue: Some(s.queue),
                ..pre
            }
    } else {
        match pre.original_queue {
            Some(o) => {
                let idx: usize = if s.queue_index < s.queue.len() {
                    match first_match(o, s.queue[s.queue_index as int]@) {
                        Some(p) => p as usize,
                        None => s.queue_index,
                    }
                } else {
                    s.queue_index
                };
                post == CoreView {
                    state: StateView { play_mode: mode, queue: o, queue_index: idx, ..s },
                    original_queue: None,
                    ..pre
                }
            },
            None => post == with_state(pre, StateView { play_mode: mode, ..s }),
        }
    }
}

/// The play-count threshold: 30 s played, or at least half of a known duration.
pub open spec fn threshold_crossed(position_ms: u64, duration_ms: u64) -> bool {
    position_ms >= PLAY_COUNT_MIN_MS || (duration_ms > 0 && 2 * position_ms >= duration_ms)
}

/// Marks the current track for one recorded play once the threshold is crossed
/// (once per load).
pub open spec fn noted(c: CoreView) -> CoreView {
    if !c.stats_recorded && c.state.current_track_id is Some && threshold_crossed(
        c.state.position_ms,
        c.state.duration_ms,
    ) {
        CoreView { stats_pending: c.state.current_track_id, stats_recorded: true, ..c }
    } else {
        c
    }
}

/// Effect of a progress event: the position moves, a non-zero duration
/// replaces the known one, and the play threshold is checked.
pub open spec fn progressed(c: CoreView, position_ms: u64, duration_ms: u64) -> CoreView {
    noted(
        with_state(
            c,
            StateView {
                position_ms: position_ms,
                duration_ms: if duration_ms > 0 { duration_ms } else { c.state.duration_ms },
                ..c.state
            },
        ),
    )
}

/// Effect of an outside pause change: ignored without a current track.
pub open spec fn pause_changed(c: CoreView, paused: bool) -> CoreView {
    if c.state.current_track_id is None {
        c
    } else {
        with_status(c, if paused { PlayStatus::Paused } else { PlayStatus::Playing })
    }
}

/// The player after a file-loaded event with the given duration: playing,
/// counting afresh, at the start or (after a session restore) at the saved
/// position, capped by a known duration.
pub open spec fn file_loaded(pre: CoreView, duration_ms: u64) -> CoreView {
    let base = CoreView {
        state: StateView { duration_ms: duration_ms, status: PlayStatus::Playing, ..pre.state },
        stats_recorded: false,
        stats_pending: None,
        ..pre
    };
    if pre.resume_position_ms > 0 {
        CoreView {
            state: StateView { position_ms: resume_target(pre, duration_ms), ..base.state },
            resume_position_ms: 0,
            ..base
        }
    } else {
        with_state(base, StateView { position_ms: 0, ..base.state })
    }
}

/// Where a restored session resumes: the saved position, capped by a known duration.
pub open spec fn resume_target(pre: CoreView, duration_ms: u64) -> u64 {
    if duration_ms > 0 && duration_ms < pre.resume_position_ms {
        duration_ms
    } else {
        pre.resume_position_ms
    }
}

/// The engine command of a file-loaded event: the seek of a restored session.
pub open spec fn file_loaded_cmd(pre: CoreView, duration_ms: u64) -> Option<EngineCmd> {
    if pre.resume_position_ms > 0 {
        Some(EngineCmd::Seek { position_ms: resume_target(pre, duration_ms) })
    } else {
        None
    }
}

/// A natural end of file can be handled: replaying the current track needs
/// the queue index inside the queue.
pub open spec fn end_file_ready(c: CoreView) -> bool {
    c.state.play_mode == PlayMode::RepeatOne && c.state.queue.len() > 0 ==> c.state.queue_index < c.state.queue.len()
}

/// The queue with `ids` inserted right after the current track (`next`), or appended.
pub open spec fn queue_with_added(s: StateView, ids: Seq<String>, next: bool) -> Seq<String> {
    if next && s.queue.len() > 0 {
        let at: int = if s.queue_index < s.queue.len() { s.queue_index + 1 } else { s.queue.len() as int };
        s.queue.subrange(0, at) + ids + s.queue.subrange(at, s.queue.len() as int)
    } else {
        s.queue + ids
    }
}

/// Effect of `queue_add(ids, next)`: playback is not touched.
pub open spec fn queue_add_post(pre: CoreView, ids: Seq<String>, next: bool, post: CoreView) -> bool {
    if ids.len() == 0 {
        post == pre
    } else {
        post == CoreView {
            state: StateView { queue: queue_with_added(pre.state, ids, next), ..pre.state },
            original_queue: match pre.original_queue {
                Some(o) => Some(o + ids),
                None => None,
            },
            ..pre
        }
    }
}

/// `o` without the first id that reads like `v`.
pub open spec fn without_first(o: Seq<String>, v: Seq<char>) -> Seq<String> {
    match first_match(o, v) {
        Some(p) => o.remove(p),
        None => o,
    }
}

/// Effect of `queue_remove(index)`.
pub open spec fn queue_remove_post(pre: CoreView, index: usize, post: CoreView, r: Option<EngineCmd>) -> bool {
    let s = pre.state;
    if index >= s.queue.len() {
        post == pre && r is None
    } else {
        let removed = s.queue[index as int];
        let q = s.queue.remove(index as int);
        let orig = match pre.original_queue {
            Some(o) => Some(without_first(o, removed@)),
            None => None,
        };
        let mid = CoreView { state: StateView { queue: q, ..s }, original_queue: orig, ..pre };
        if q.len() == 0 {
            post == CoreView {
                state: StateView {
                    queue_index: 0,
                    current_track_id: None,
                    status: PlayStatus::Stopped,
                    position_ms: 0,
                    duration_ms: 0,
                    ..mid.state
                },
                ..mid
            } && r == (if s.status != PlayStatus::Stopped { Some(EngineCmd::Stop) } else { None })
        } else if index < s.queue_index {
            post == at_index(mid, (s.queue_index - 1) as usize) && r is None
        } else if index > s.queue_index {
            post == mid && r is None
        } else {
            let j: usize = if s.queue_index >= q.len() { (q.len() - 1) as usize } else { s.queue_index };
            let m2 = at_index(mid, j);
            if s.status == PlayStatus::Stopped {
                post == with_state(m2, StateView { current_track_id: None, ..m2.state }) && r is None
            } else {
                post == loaded(m2) && r == Some(load_cmd(m2))
            }
        }
    }
}

/// New queue index after moving `from` to `to`: the current track is followed.
pub open spec fn moved_index(idx: usize, from: usize, to: usize) -> usize {
    if idx == from {
        to
    } else if from < idx && to >= idx {
        (idx - 1) as usize
    } else if from > idx && to <= idx {
        (idx + 1) as usize
    } else {
        idx
    }
}

/// Effect of `queue_move(from, to)`.
pub open spec fn queue_move_post(pre: CoreView, from: usize, to: usize, post: CoreView) -> bool {
    let s = pre.state;
    let len = s.queue.len();
    if from >= len || to >= len || from == to {
        post == pre
    } else {
        post == with_state(
            pre,
            StateView {
                queue: s.queue.remove(from as int).insert(to as int, s.queue[from as int]),
                queue_index: moved_index(s.queue_index, from, to),
                ..s
            },
        )
    }
}

/// Effect of `queue_clear`: a playing or paused current track stays as the
/// only entry; otherwise everything is cleared.
pub open spec fn queue_clear_post(pre: CoreView, post: CoreView) -> bool {
    let s = pre.state;
    match s.current_track_id {
        Some(id) => if s.status != PlayStatus::Stopped {
            post == CoreView {
                state: StateView { queue: seq![id], queue_index: 0, ..s },
                original_queue: None,
                ..pre
            }
        } else {
            post == CoreView {
                state: StateView { queue: Seq::empty(), queue_index: 0, current_track_id: None, ..s },
                original_queue: None,
                ..pre
            }
        },
        None => post == CoreView {
            state: StateView { queue: Seq::empty(), queue_index: 0, current_track_id: None, ..s },
            original_queue: None,
            ..pre
        },
    }
}

/// A copy of the id list.
fn copy_ids(v: &Vec<String>) -> (r: Vec<String>)
    ensures
        r@ == v@,
{
    let mut out: Vec<String> = Vec::new();
    let mut i: usize = 0;
    while i < v.len()
        invariant
            i <= v.len(),
            out@ == v@.subrange(0, i as int),
        decreases v.len() - i,
    {
        out.push(v[i].clone());
        i = i + 1;
    }
    assert(out@ =~= v@);
    out
}

impl Default for PlayerCore {
    fn default() -> (r: Self)
        ensures
            r@ == initial_core(),
    {
        PlayerCore::new()
    }
}

impl PlayerCore {
    /// A stopped player with an empty queue.
    pub fn new() -> (r: Self)
        ensures
            r@ == initial_core(),
    {
        PlayerCore {
            state: PlayerState::default(),
            original_queue: None,
            stats_recorded: false,
            stats_pending: None,
            awaiting_load: false,
            resume_position_ms: 0,
        }
    }

    /// The current state.
    pub fn state(&self) -> (r: &PlayerState)
        ensures
            r@ == self@.state,
    {
        &self.state
    }

    /// Whether [`PlayerCore::toggle`] can run: a restored track waiting to be
    /// loaded lies inside the queue.
    pub fn can_toggle(&self) -> (r: bool)
        ensures
            r == (self@.state.status == PlayStatus::Paused && self@.awaiting_load ==> self@.state.queue_index
                < self@.state.queue.len()),
    {
        !(self.state.status == PlayStatus::Paused && self.awaiting_load) || self.state.queue_index
            < self.state.queue.len()
    }

    /// Whether [`PlayerCore::on_end_file`] can run (see [`end_file_ready`]).
    pub fn can_end_file(&self) -> (r: bool)
        ensures
            r == end_file_ready(self@),
    {
        !(self.state.play_mode == PlayMode::RepeatOne && self.state.queue.len() > 0) || self.state.queue_index
            < self.state.queue.len()
    }

    /// Whether [`PlayerCore::set_mode`] can run: entering shuffle keeps the
    /// current track at the queue index, which must lie inside the queue.
    pub fn can_set_mode(&self, mode: PlayMode) -> (r: bool)
        ensures
            r == (mode == PlayMode::Shuffle && self@.state.play_mode != PlayMode::Shuffle ==> shuffle_allowed(
                self@.state.queue,
                self@.state.queue_index as int,
                self@.state.current_track_id,
            )),
    {
        if !(mode == PlayMode::Shuffle && self.state.play_mode != PlayMode::Shuffle) {
            return true;
        }
        let found = match &self.state.current_track_id {
            Some(c) => position_of(&self.state.queue, c).is_some(),
            None => false,
        };
        !(self.state.queue.len() > 2 && found) || self.state.queue_index < self.state.queue.len()
    }

    /// Takes (and clears) the track id whose play should now be recorded.
    pub fn take_stats_pending(&mut self) -> (r: Option<String>)
        ensures
            r == old(self)@.stats_pending,
            final(self)@ == (CoreView { stats_pending: None, ..old(self)@ }),
    {
        self.stats_pending.take()
    }

    /// Restores a saved snapshot without starting playback. The caller checks
    /// beforehand that the current track still exists.
    pub fn restore(&mut self, snapshot: PlayerState)
        ensures
            final(self)@ == restored(snapshot@),
            well_indexed(final(self)@.state),
    {
        let has_track = snapshot.current_track_id.is_some() && snapshot.queue.len() > 0
            && snapshot.queue_index < snapshot.queue.len();
        self.state = snapshot;
        self.original_queue = None;
        self.stats_recorded = false;
        self.stats_pending = None;
        if has_track {
            self.resume_position_ms = self.state.position_ms;
            self.awaiting_load = true;
            self.state.status = PlayStatus::Paused;
        } else {
            self.state.current_track_id = None;
            self.state.queue.clear();
            self.state.queue_index = 0;
            self.state.position_ms = 0;
            self.state.duration_ms = 0;
            self.state.status = PlayStatus::Stopped;
            self.awaiting_load = false;
            self.resume_position_ms = 0;
        }
    }

    /// Loads the track at the queue index.
    fn load_current(&mut self) -> (r: EngineCmd)
        requires
            old(self)@.state.queue_index < old(self)@.state.queue.len(),
        ensures
            final(self)@ == loaded(old(self)@),
            r == load_cmd(old(self)@),
    {
        let track_id = self.state.queue[self.state.queue_index].clone();
        self.state.current_track_id = Some(track_id.clone());
        self.state.status = PlayStatus::Playing;
        self.state.position_ms = 0;
        self.awaiting_load = false;
        self.resume_position_ms = 0;
        EngineCmd::Load { track_id }
    }

    /// Shuffles the queue with a clock seed, keeping the track `current` (its
    /// first occurrence) at the queue index.
    fn shuffle_queue_keep(&mut self, current: &Option<String>)
        requires
            shuffle_allowed(old(self)@.state.queue, old(self)@.state.queue_index as int, *current),
        ensures
            exists|seed: u64|
                #![trigger shuffled(old(self)@.state.queue, old(self)@.state.queue_index as int, *current, seed)]
                final(self)@ == with_state(
                    old(self)@,
                    StateView {
                        queue: shuffled(old(self)@.state.queue, old(self)@.state.queue_index as int, *current, seed),
                        ..old(self)@.state
                    },
                ),
    {
        let seed = clock_seed();
        let idx = self.state.queue_index;
        shuffle_with_seed(&mut self.state.queue, idx, current, seed);
        assert(final(self)@ =~= with_state(
            old(self)@,
            StateView {
                queue: shuffled(old(self)@.state.queue, old(self)@.state.queue_index as int, *current, seed),
                ..old(self)@.state
            },
        ));
    }

    /// Replaces the queue and plays from `start_index`. In shuffle mode the new
    /// queue is shuffled with the starting track kept at `start_index`, and the
    /// given order is saved for leaving shuffle. An empty queue or an index
    /// outside it is refused (`None`, nothing changes).
    pub fn play_queue(&mut self, ids: Vec<String>, start_index: usize) -> (r: Option<EngineCmd>)
        ensures
            play_queue_post(old(self)@, ids@, start_index, final(self)@, r),
            ids@.len() > 0 && start_index < ids@.len() ==> {
                &&& r matches Some(EngineCmd::Load { track_id }) && track_id@ == ids@[start_index as int]@
                &&& final(self)@.state.queue_index == start_index
                &&& final(self)@.state.queue_index < final(self)@.state.queue.len()
                &&& final(self)@.state.queue[start_index as int]@ == ids@[start_index as int]@
                &&& final(self)@.state.queue.to_multiset() == ids@.to_multiset()
                &&& in_sync(final(self)@)
            },
            well_indexed(old(self)@.state) ==> well_indexed(final(self)@.state),
            r is Some <==> ids@.len() > 0 && start_index < ids@.len(),
    {
        if ids.len() == 0 || start_index >= ids.len() {
            return None;
        }
        let ghost pre = self@;
        let ghost ids_v = ids@;
        let shuffling = self.state.play_mode == PlayMode::Shuffle;
        let keep = Some(ids[start_index].clone());
        self.original_queue = if shuffling { Some(copy_ids(&ids)) } else { None };
        self.state.queue = ids;
        self.state.queue_index = start_index;
        proof {
            assert(has_match(ids_v, ids_v[start_index as int]@));
        }
        if shuffling {
            self.shuffle_queue_keep(&keep);
        }
        let ghost mid = self@;
        proof {
            broadcast use vstd::seq_lib::group_to_multiset_ensures;
            let base = CoreView {
                state: StateView { queue: ids_v, queue_index: start_index, ..pre.state },
                original_queue: installed_original(pre, ids_v),
                ..pre
            };
            if shuffling {
                let seed = choose|seed: u64| #![trigger shuffled(ids_v, start_index as int, keep, seed)] mid == with_state(
                    base,
                    StateView { queue: shuffled(ids_v, start_index as int, keep, seed), ..base.state },
                );
                lemma_shuffle_keeps_members(ids_v, start_index as int, keep, seed);
                let sq = shuffled(ids_v, start_index as int, keep, seed);
                lemma_views_multiset(sq, ids_v);
                assert(mid == CoreView {
                    state: StateView { queue: installed_queue(pre, ids_v, start_index, seed), queue_index: start_index, ..pre.state },
                    original_queue: installed_original(pre, ids_v),
                    ..pre
                });
            } else {
                assert(mid == CoreView {
                    state: StateView { queue: installed_queue(pre, ids_v, start_index, 0), queue_index: start_index, ..pre.state },
                    original_queue: installed_original(pre, ids_v),
                    ..pre
                });
            }
        }
        let cmd = self.load_current();
        Some(cmd)
    }

    /// Jumps to `index` within the queue; `None` (nothing changes) outside it.
    pub fn play_at(&mut self, index: usize) -> (r: Option<EngineCmd>)
        ensures
            index >= old(self)@.state.queue.len() ==> final(self)@ == old(self)@ && r is None,
            index < old(self)@.state.queue.len() ==> final(self)@ == loaded(at_index(old(self)@, index))
                && r == Some(load_cmd(at_index(old(self)@, index))),
            well_indexed(old(self)@.state) ==> well_indexed(final(self)@.state),
    {
        if index >= self.state.queue.len() {
            return None;
        }
        self.state.queue_index = index;
        Some(self.load_current())
    }

    /// Play/pause. Without a current track (stopped) nothing happens. The first
    /// play after a session restore loads the restored track.
    pub fn toggle(&mut self) -> (r: Option<EngineCmd>)
        requires
            old(self)@.state.status == PlayStatus::Paused && old(self)@.awaiting_load
                ==> old(self)@.state.queue_index < old(self)@.state.queue.len(),
        ensures
            toggle_post(old(self)@, final(self)@, r),
            well_indexed(old(self)@.state) ==> well_indexed(final(self)@.state),
    {
        match self.state.status {
            PlayStatus::Playing => {
                self.state.status = PlayStatus::Paused;
                Some(EngineCmd::Pause)
            },
            PlayStatus::Paused => {
                if self.awaiting_load {
                    self.awaiting_load = false;
                    self.state.status = PlayStatus::Playing;
                    let track_id = self.state.queue[self.state.queue_index].clone();
                    self.state.current_track_id = Some(track_id.clone());
                    return Some(EngineCmd::Load { track_id });
                }
                self.state.status = PlayStatus::Playing;
                Some(EngineCmd::Resume)
            },
            PlayStatus::Stopped => None,
        }
    }

    /// Stops playback and rewinds.
    pub fn stop(&mut self) -> (r: EngineCmd)
        ensures
            final(self)@ == with_state(old(self)@, StateView { status: PlayStatus::Stopped, position_ms: 0, ..old(self)@.state }),
            r == EngineCmd::Stop,
    {
        self.state.status = PlayStatus::Stopped;
        self.state.position_ms = 0;
        EngineCmd::Stop
    }

    /// Explicit next track. At the end only RepeatAll wraps; otherwise `None`.
    pub fn next(&mut self) -> (r: Option<EngineCmd>)
        ensures
            next_post(old(self)@, final(self)@, r),
            well_indexed(old(self)@.state) ==> well_indexed(final(self)@.state),
    {
        if self.state.queue.len() == 0 {
            return None;
        }
        let last = self.state.queue.len() - 1;
        let i = self.state.queue_index;
        if i < last {
            self.state.queue_index = i + 1;
            Some(self.load_current())
        } else if self.state.play_mode == PlayMode::RepeatAll {
            self.state.queue_index = 0;
            Some(self.load_current())
        } else {
            None
        }
    }

    /// Explicit previous track. At the head of the queue the current track restarts.
    pub fn previous(&mut self) -> (r: Option<EngineCmd>)
        requires
            old(self)@.state.queue.len() > 0 && old(self)@.state.queue_index > 0
                ==> old(self)@.state.queue_index <= old(self)@.state.queue.len(),
        ensures
            previous_post(old(self)@, final(self)@, r),
            well_indexed(old(self)@.state) ==> well_indexed(final(self)@.state),
    {
        if self.state.queue.len() == 0 {
            return None;
        }
        if self.state.queue_index > 0 {
            self.state.queue_index = self.state.queue_index - 1;
            return Some(self.load_current());
        }
        Some(EngineCmd::Seek { position_ms: 0 })
    }

    /// Natural end of the current file: advance according to the play mode.
    pub fn on_end_file(&mut self) -> (r: Option<EngineCmd>)
        requires
            end_file_ready(old(self)@),
        ensures
            end_file_post(old(self)@, final(self)@, r),
            well_indexed(old(self)@.state) ==> well_indexed(final(self)@.state),
    {
        if self.state.queue.len() == 0 {
            self.state.status = PlayStatus::Stopped;
            return None;
        }
        match self.state.play_mode {
            PlayMode::RepeatOne => Some(self.load_current()),
            PlayMode::RepeatAll => {
                let last = self.state.queue.len() - 1;
                self.state.queue_index = if self.state.queue_index >= last {
                    0
                } else {
                    self.state.queue_index + 1
                };
                Some(self.load_current())
            },
            PlayMode::Sequential | PlayMode::Shuffle => {
                let last = self.state.queue.len() - 1;
                if self.state.queue_index >= last {
                    self.state.status = PlayStatus::Stopped;
                    self.state.position_ms = 0;
                    None
                } else {
                    self.state.queue_index = self.state.queue_index + 1;
                    Some(self.load_current())
                }
            },
        }
    }

    /// Seeks within the current track.
    pub fn seek(&mut self, position_ms: u64) -> (r: EngineCmd)
        ensures
            final(self)@ == with_state(old(self)@, StateView { position_ms: position_ms, ..old(self)@.state }),
            r == (EngineCmd::Seek { position_ms }),
    {
        self.state.position_ms = position_ms;
        EngineCmd::Seek { position_ms }
    }

    /// Sets the volume, clamped to 100.
    pub fn set_volume(&mut self, volume: u32) -> (r: EngineCmd)
        ensures
            final(self)@ == with_state(
                old(self)@,
                StateView { volume: if volume > 100 { 100 } else { volume }, ..old(self)@.state },
            ),
            r == (EngineCmd::SetVolume { volume: if volume > 100 { 100 } else { volume } }),
    {
        let volume = if volume > 100 { 100 } else { volume };
        self.state.volume = volume;
        EngineCmd::SetVolume { volume }
    }

    /// Mutes or unmutes; muting is volume 0 at the engine, unmuting restores the volume.
    pub fn set_muted(&mut self, muted: bool) -> (r: EngineCmd)
        ensures
            final(self)@ == with_state(old(self)@, StateView { muted: muted, ..old(self)@.state }),
            r == (EngineCmd::SetVolume { volume: if muted { 0 } else { old(self)@.state.volume } }),
    {
        self.state.muted = muted;
        EngineCmd::SetVolume { volume: if muted { 0 } else { self.state.volume } }
    }

    /// Switches the play mode (see [`set_mode_post`]).
    pub fn set_mode(&mut self, mode: PlayMode)
        requires
            mode == PlayMode::Shuffle && old(self)@.state.play_mode != PlayMode::Shuffle ==> shuffle_allowed(
                old(self)@.state.queue,
                old(self)@.state.queue_index as int,
                old(self)@.state.current_track_id,
            ),
        ensures
            set_mode_post(old(self)@, mode, final(self)@),
            mode == PlayMode::Shuffle && old(self)@.state.play_mode != PlayMode::Shuffle ==> in_sync(final(self)@),
            mode == PlayMode::Shuffle && well_indexed(old(self)@.state) ==> well_indexed(final(self)@.state),
            in_sync(old(self)@) && well_indexed(old(self)@.state) ==> well_indexed(final(self)@.state),
    {
        if self.state.play_mode == mode {
            return;
        }
        self.state.play_mode = mode;
        match mode {
            PlayMode::Shuffle => {
                let ghost pre = self@;
                self.original_queue = Some(copy_ids(&self.state.queue));
                let current = self.state.current_track_id.clone();
                self.shuffle_queue_keep(&current);
                proof {
                    let seed = choose|seed: u64| #![trigger shuffled(pre.state.queue, pre.state.queue_index as int, pre.state.current_track_id, seed)] self@ == with_state(
                        CoreView { original_queue: Some(pre.state.queue), ..pre },
                        StateView {
                            queue: shuffled(pre.state.queue, pre.state.queue_index as int, pre.state.current_track_id, seed),
                            ..pre.state
                        },
                    );
                    lemma_shuffle_keeps_members(pre.state.queue, pre.state.queue_index as int, pre.state.current_track_id, seed);
                    let sq = shuffled(pre.state.queue, pre.state.queue_index as int, pre.state.current_track_id, seed);
                    assert(id_texts(sq).to_multiset() == id_texts(pre.state.queue).to_multiset()) by {
                        lemma_views_multiset(sq, pre.state.queue);
                    }
                }
            },
            _ => {
                match self.original_queue.take() {
                    Some(original) => {
                        let ghost pre_q = self.state.queue@;
                        proof {
                            broadcast use vstd::seq_lib::group_to_multiset_ensures;
                            if id_texts(original@).to_multiset() == id_texts(pre_q).to_multiset() {
                                assert(id_texts(original@).to_multiset().len() == id_texts(original@).len());
                                assert(id_texts(pre_q).to_multiset().len() == id_texts(pre_q).len());
                                assert(original@.len() == pre_q.len());
                            }
                        }
                        let current_id = if self.state.queue_index < self.state.queue.len() {
                            Some(self.state.queue[self.state.queue_index].clone())
                        } else {
                            None
                        };
                        self.state.queue = original;
                        match current_id {
                            Some(id) => {
                                let found = position_of(&self.state.queue, &id);
                                proof {
                                    lemma_first_match(self.state.queue@, id@);
                                }
                                match found {
                                    Some(pos) => {
                                        self.state.queue_index = pos;
                                    },
                                    None => {},
                                }
                            },
                            None => {},
                        }
                    },
                    None => {},
                }
            },
        }
    }

    /// Engine event: playback progress. A zero duration leaves the known duration.
    pub fn on_progress(&mut self, position_ms: u64, duration_ms: u64)
        ensures
            final(self)@ == progressed(old(self)@, position_ms, duration_ms),
    {
        self.state.position_ms = position_ms;
        if duration_ms > 0 {
            self.state.duration_ms = duration_ms;
        }
        self.note_play_progress();
    }

    /// Marks the current track for recording once the play threshold is
    /// crossed (at most once per load).
    fn note_play_progress(&mut self)
        ensures
            final(self)@ == noted(old(self)@),
    {
        if self.stats_recorded {
            return;
        }
        match &self.state.current_track_id {
            Some(id) => {
                let pos = self.state.position_ms;
                let dur = self.state.duration_ms;
                let crossed = pos >= PLAY_COUNT_MIN_MS || (dur > 0 && (pos >= dur || pos >= dur - pos));
                if crossed {
                    self.stats_pending = Some(id.clone());
                    self.stats_recorded = true;
                }
            },
            None => {},
        }
    }

    /// Engine event: pause state changed from outside (media keys). Ignored
    /// without a current track.
    pub fn on_pause_changed(&mut self, paused: bool)
        ensures
            final(self)@ == pause_changed(old(self)@, paused),
    {
        if self.state.current_track_id.is_none() {
            return;
        }
        self.state.status = if paused {
            PlayStatus::Paused
        } else {
            PlayStatus::Playing
        };
    }

    /// Adds tracks to the queue: right after the current track when `next`,
    /// otherwise at the end. Playback is not touched; while shuffling the saved
    /// order receives the same ids at its end.
    pub fn queue_add(&mut self, ids: Vec<String>, next: bool)
        ensures
            queue_add_post(old(self)@, ids@, next, final(self)@),
            well_indexed(old(self)@.state) ==> well_indexed(final(self)@.state),
            in_sync(old(self)@) ==> in_sync(final(self)@),
    {
        if ids.len() == 0 {
            return;
        }
        let ghost pre = self@;
        let ghost ids_v = ids@;
        match self.original_queue.take() {
            Some(orig) => {
                let mut orig = orig;
                let mut extra = copy_ids(&ids);
                orig.append(&mut extra);
                self.original_queue = Some(orig);
            },
            None => {},
        }
        let mut ids = ids;
        if next && self.state.queue.len() > 0 {
            let len = self.state.queue.len();
            let at = if self.state.queue_index < len {
                self.state.queue_index + 1
            } else {
                len
            };
            let mut tail = self.state.queue.split_off(at);
            self.state.queue.append(&mut ids);
            self.state.queue.append(&mut tail);
        } else {
            self.state.queue.append(&mut ids);
        }
        proof {
            assert(self@.state.queue =~= queue_with_added(pre.state, ids_v, next));
            lemma_added_multiset(pre.state, ids_v, next);
            match pre.original_queue {
                Some(o) => {
                    lemma_ids_concat(o, ids_v);
                    vstd::seq_lib::lemma_multiset_commutative(id_texts(o), id_texts(ids_v));
                },
                None => {},
            }
        }
    }

    /// Removes the queue entry at `index`. Removing the current track plays the
    /// next one (or the new last one) unless stopped; emptying the queue stops.
    /// Outside the queue nothing happens.
    pub fn queue_remove(&mut self, index: usize) -> (r: Option<EngineCmd>)
        ensures
            queue_remove_post(old(self)@, index, final(self)@, r),
            well_indexed(old(self)@.state) ==> well_indexed(final(self)@.state),
            in_sync(old(self)@) ==> in_sync(final(self)@),
    {
        if index >= self.state.queue.len() {
            return None;
        }
        let ghost pre = self@;
        let removed = self.state.queue.remove(index);
        match self.original_queue.take() {
            Some(orig) => {
                let mut orig = orig;
                let found = position_of(&orig, &removed);
                proof {
                    lemma_first_match(orig@, removed@);
                }
                match found {
                    Some(pos) => {
                        orig.remove(pos);
                    },
                    None => {},
                }
                self.original_queue = Some(orig);
            },
            None => {},
        }
        proof {
            if in_sync(pre) {
                lemma_remove_keeps_sync(pre, index);
            }
        }
        if self.state.queue.len() == 0 {
            let was_active = self.state.status != PlayStatus::Stopped;
            self.state.queue_index = 0;
            self.state.current_track_id = None;
            self.state.status = PlayStatus::Stopped;
            self.state.position_ms = 0;
            self.state.duration_ms = 0;
            return if was_active {
                Some(EngineCmd::Stop)
            } else {
                None
            };
        }
        if index < self.state.queue_index {
            self.state.queue_index = self.state.queue_index - 1;
            None
        } else if index > self.state.queue_index {
            None
        } else {
            if self.state.queue_index >= self.state.queue.len() {
                self.state.queue_index = self.state.queue.len() - 1;
            }
            match self.state.status {
                PlayStatus::Stopped => {
                    self.state.current_track_id = None;
                    None
                },
                _ => Some(self.load_current()),
            }
        }
    }

    /// Moves a queue entry (drag and drop); the queue index follows the current
    /// track. Out of range or `from == to`: nothing happens.
    pub fn queue_move(&mut self, from: usize, to: usize)
        ensures
            queue_move_post(old(self)@, from, to, final(self)@),
            well_indexed(old(self)@.state) ==> well_indexed(final(self)@.state),
            in_sync(old(self)@) ==> in_sync(final(self)@),
    {
        let len = self.state.queue.len();
        if from >= len || to >= len || from == to {
            return;
        }
        let ghost pre = self@;
        let item = self.state.queue.remove(from);
        self.state.queue.insert(to, item);
        let idx = self.state.queue_index;
        self.state.queue_index = if idx == from {
            to
        } else if from < idx && to >= idx {
            idx - 1
        } else if from > idx && to <= idx {
            idx + 1
        } else {
            idx
        };
        proof {
            let q = pre.state.queue;
            let q1 = q.remove(from as int);
            let q2 = q1.insert(to as int, q[from as int]);
            assert(id_texts(q1) =~= id_texts(q).remove(from as int));
            assert(id_texts(q2) =~= id_texts(q1).insert(to as int, q[from as int]@));
            vstd::seq_lib::to_multiset_remove(id_texts(q), from as int);
            vstd::seq_lib::to_multiset_insert(id_texts(q1), to as int, q[from as int]@);
            assert(id_texts(q).to_multiset().count(q[from as int]@) > 0) by {
                broadcast use vstd::seq_lib::group_to_multiset_ensures;
                assert(id_texts(q)[from as int] == q[from as int]@);
                assert(id_texts(q).contains(q[from as int]@));
            }
            broadcast use vstd::multiset::group_multiset_axioms;
            assert(id_texts(q2).to_multiset() =~= id_texts(q).to_multiset());
        }
    }

    /// Clears the queue but keeps a playing or paused current track as its
    /// only entry; leaves shuffle's saved order behind.
    pub fn queue_clear(&mut self)
        ensures
            queue_clear_post(old(self)@, final(self)@),
            well_indexed(final(self)@.state),
            in_sync(final(self)@),
    {
        let current = match &self.state.current_track_id {
            Some(id) => if self.state.status != PlayStatus::Stopped {
                Some(id.clone())
            } else {
                None
            },
            None => None,
        };
        match current {
            Some(id) => {
                let mut q: Vec<String> = Vec::new();
                q.push(id);
                self.state.queue = q;
                self.state.queue_index = 0;
            },
            None => {
                self.state.queue.clear();
                self.state.queue_index = 0;
                self.state.current_track_id = None;
            },
        }
        self.original_queue = None;
    }

    /// Engine event: a new file has loaded with its real duration. After a
    /// session restore this returns the seek to the saved position.
    pub fn on_file_loaded(&mut self, duration_ms: u64) -> (r: Option<EngineCmd>)
        ensures
            final(self)@ == file_loaded(old(self)@, duration_ms),
            r == file_loaded_cmd(old(self)@, duration_ms),
    {
        self.stats_recorded = false;
        self.stats_pending = None;
        self.state.duration_ms = duration_ms;
        self.state.status = PlayStatus::Playing;
        if self.resume_position_ms > 0 {
            let pos = if duration_ms > 0 && duration_ms < self.resume_position_ms {
                duration_ms
            } else {
                self.resume_position_ms
            };
            self.resume_position_ms = 0;
            self.state.position_ms = pos;
            Some(EngineCmd::Seek { position_ms: pos })
        } else {
            self.state.position_ms = 0;
            None
        }
    }
}

/// Entering shuffle and then leaving it again restores the queue order and
/// the queue index, when the current track sits at the queue index and is the
/// first entry with its id.
pub proof fn lemma_shuffle_round_trip(a: CoreView, b: CoreView, c: CoreView, m: PlayMode)
    requires
        a.state.play_mode != PlayMode::Shuffle,
        m != PlayMode::Shuffle,
        a.state.queue_index < a.state.queue.len(),
        a.state.current_track_id == Some(a.state.queue[a.state.queue_index as int]),
        crate::shuffle::is_first_match(
            a.state.queue,
            a.state.queue[a.state.queue_index as int]@,
            a.state.queue_index as int,
        ),
        set_mode_post(a, PlayMode::Shuffle, b),
        set_mode_post(b, m, c),
    ensures
        c.state.queue == a.state.queue,
        c.state.queue_index == a.state.queue_index,
        c.state.play_mode == m,
        c.original_queue is None,
{
    let s = a.state;
    let seed = choose|seed: u64|
        #![trigger shuffled(s.queue, s.queue_index as int, s.current_track_id, seed)]
        b == CoreView {
            state: StateView {
                play_mode: PlayMode::Shuffle,
                queue: shuffled(s.queue, s.queue_index as int, s.current_track_id, seed),
                ..s
            },
            original_queue: Some(s.queue),
            ..a
        };
    let cur = s.queue[s.queue_index as int];
    assert(has_match(s.queue, cur@));
    lemma_shuffle_keeps_members(s.queue, s.queue_index as int, s.current_track_id, seed);
    let bq = b.state.queue;
    assert(bq[s.queue_index as int]@ == cur@);
    lemma_first_match(s.queue, cur@);
}

/// A queue started while shuffling comes back in the order it was given when
/// shuffle is left, with the queue index on the track playback started from
/// (when that track is the first entry with its id).
pub proof fn lemma_play_queue_then_leave_shuffle(
    a: CoreView,
    ids: Seq<String>,
    start: usize,
    b: CoreView,
    r: Option<EngineCmd>,
    m: PlayMode,
    c: CoreView,
)
    requires
        a.state.play_mode == PlayMode::Shuffle,
        m != PlayMode::Shuffle,
        start < ids.len(),
        crate::shuffle::is_first_match(ids, ids[start as int]@, start as int),
        play_queue_post(a, ids, start, b, r),
        set_mode_post(b, m, c),
    ensures
        c.state.queue == ids,
        c.state.queue_index == start,
        c.state.play_mode == m,
        c.original_queue is None,
{
    let seed = choose|seed: u64|
        #![trigger installed_queue(a, ids, start, seed)]
        {
            let mid = CoreView {
                state: StateView { queue: installed_queue(a, ids, start, seed), queue_index: start, ..a.state },
                original_queue: installed_original(a, ids),
                ..a
            };
            b == loaded(mid) && r == Some(load_cmd(mid))
        };
    assert(has_match(ids, ids[start as int]@));
    lemma_shuffle_keeps_members(ids, start as int, Some(ids[start as int]), seed);
    lemma_first_match(ids, ids[start as int]@);
}

/// Adding tracks adds their ids to the queue's ids, wherever they go.
proof fn lemma_added_multiset(s: StateView, ids: Seq<String>, next: bool)
    ensures
        id_texts(queue_with_added(s, ids, next)).to_multiset() == id_texts(s.queue).to_multiset().add(
            id_texts(ids).to_multiset(),
        ),
{
    let q = s.queue;
    let nq = queue_with_added(s, ids, next);
    lemma_ids_concat(q, ids);
    if next && q.len() > 0 {
        let at: int = if s.queue_index < q.len() { s.queue_index + 1 } else { q.len() as int };
        lemma_ids_concat(q.subrange(0, at), ids);
        lemma_ids_concat(q.subrange(0, at) + ids, q.subrange(at, q.len() as int));
        lemma_ids_concat(q.subrange(0, at), q.subrange(at, q.len() as int));
        assert(q =~= q.subrange(0, at) + q.subrange(at, q.len() as int));
        vstd::seq_lib::lemma_multiset_commutative(id_texts(q.subrange(0, at)), id_texts(ids));
        vstd::seq_lib::lemma_multiset_commutative(
            id_texts(q.subrange(0, at)) + id_texts(ids),
            id_texts(q.subrange(at, q.len() as int)),
        );
        vstd::seq_lib::lemma_multiset_commutative(id_texts(q.subrange(0, at)), id_texts(q.subrange(at, q.len() as int)));
        vstd::seq_lib::lemma_multiset_commutative(id_texts(q), id_texts(ids));
        assert(id_texts(nq).to_multiset() =~= id_texts(q).to_multiset().add(id_texts(ids).to_multiset()));
    } else {
        vstd::seq_lib::lemma_multiset_commutative(id_texts(q), id_texts(ids));
    }
}

/// Queue edits made while shuffling survive leaving shuffle: after entering
/// shuffle, adding `ids` and removing the entry at `index`, leaving shuffle
/// gives a queue holding the tracks it started with and `ids`, less the
/// removed entry (by id, as many times each).
pub proof fn lemma_shuffled_edits_survive(
    a: CoreView,
    b: CoreView,
    ids: Seq<String>,
    next: bool,
    c: CoreView,
    index: usize,
    d: CoreView,
    r: Option<EngineCmd>,
    m: PlayMode,
    e: CoreView,
)
    requires
        a.state.play_mode != PlayMode::Shuffle,
        shuffle_allowed(a.state.queue, a.state.queue_index as int, a.state.current_track_id),
        set_mode_post(a, PlayMode::Shuffle, b),
        queue_add_post(b, ids, next, c),
        index < c.state.queue.len(),
        queue_remove_post(c, index, d, r),
        m != PlayMode::Shuffle,
        set_mode_post(d, m, e),
    ensures
        id_texts(e.state.queue).to_multiset() == id_texts(a.state.queue).to_multiset().add(
            id_texts(ids).to_multiset(),
        ).remove(c.state.queue[index as int]@),
        e.state.play_mode == m,
{
    broadcast use vstd::seq_lib::group_to_multiset_ensures;

    let s = a.state;
    let seed = choose|seed: u64|
        #![trigger shuffled(s.queue, s.queue_index as int, s.current_track_id, seed)]
        b == CoreView {
            state: StateView {
                play_mode: PlayMode::Shuffle,
                queue: shuffled(s.queue, s.queue_index as int, s.current_track_id, seed),
                ..s
            },
            original_queue: Some(s.queue),
            ..a
        };
    lemma_shuffle_keeps_members(s.queue, s.queue_index as int, s.current_track_id, seed);
    lemma_views_multiset(b.state.queue, s.queue);
    assert(in_sync(b));
    // adding
    if ids.len() > 0 {
        lemma_added_multiset(b.state, ids, next);
        lemma_ids_concat(s.queue, ids);
        vstd::seq_lib::lemma_multiset_commutative(id_texts(s.queue), id_texts(ids));
        assert(in_sync(c));
    } else {
        assert(ids =~= Seq::<String>::empty());
        assert(id_texts(ids).to_multiset() =~= vstd::multiset::Multiset::empty());
        assert(id_texts(s.queue).to_multiset().add(id_texts(ids).to_multiset()) =~= id_texts(s.queue).to_multiset());
    }
    assert(id_texts(c.state.queue).to_multiset() == id_texts(s.queue).to_multiset().add(id_texts(ids).to_multiset()));
    assert(in_sync(c));
    // removing
    let q = c.state.queue;
    let v = q[index as int]@;
    lemma_remove_keeps_sync(c, index);
    assert(id_texts(q.remove(index as int)) =~= id_texts(q).remove(index as int));
    assert(id_texts(q)[index as int] == v);
    let o = c.original_queue->0;
    assert(d.original_queue == Some(without_first(o, v)));
    assert(d.state.play_mode == PlayMode::Shuffle);
    assert(e.state.queue == without_first(o, v));
}

/// A natural end of the last track stops playback in Sequential and Shuffle
/// mode: no command, the player stopped at position 0, the queue and its
/// index unchanged. Only RepeatAll wraps around (and RepeatOne replays).
pub proof fn lemma_end_of_last_track_stops(pre: CoreView, post: CoreView, r: Option<EngineCmd>)
    requires
        pre.state.play_mode == PlayMode::Shuffle || pre.state.play_mode == PlayMode::Sequential,
        pre.state.queue.len() > 0,
        pre.state.queue_index == pre.state.queue.len() - 1,
        end_file_post(pre, post, r),
    ensures
        r is None,
        post.state.status == PlayStatus::Stopped,
        post.state.position_ms == 0,
        post.state.queue == pre.state.queue,
        post.state.queue_index == pre.state.queue_index,
        post.state.current_track_id == pre.state.current_track_id,
{
}

/// A natural end before the last track in Sequential and Shuffle mode loads
/// the next track of the queue.
pub proof fn lemma_end_of_track_moves_on(pre: CoreView, post: CoreView, r: Option<EngineCmd>)
    requires
        pre.state.play_mode == PlayMode::Shuffle || pre.state.play_mode == PlayMode::Sequential,
        pre.state.queue_index + 1 < pre.state.queue.len(),
        pre.state.queue.len() <= usize::MAX,
        end_file_post(pre, post, r),
    ensures
        r == Some(EngineCmd::Load { track_id: pre.state.queue[pre.state.queue_index + 1] }),
        post.state.queue_index == pre.state.queue_index + 1,
        post.state.status == PlayStatus::Playing,
        post.state.queue == pre.state.queue,
{
    assert(((pre.state.queue_index + 1) as usize) as int == pre.state.queue_index + 1);
}

/// Clearing the queue keeps a current track that is playing or paused: the
/// queue becomes just that track, at index 0, and it stays current. With no
/// such track the queue is emptied and nothing is current.
pub proof fn lemma_clear_keeps_active_track(pre: CoreView, post: CoreView)
    requires
        queue_clear_post(pre, post),
    ensures
        pre.state.current_track_id is Some && pre.state.status != PlayStatus::Stopped ==> {
            &&& post.state.queue == seq![pre.state.current_track_id->0]
            &&& post.state.queue_index == 0
            &&& post.state.current_track_id == pre.state.current_track_id
            &&& post.state.status == pre.state.status
        },
        pre.state.current_track_id is None || pre.state.status == PlayStatus::Stopped ==> {
            &&& post.state.queue.len() == 0
            &&& post.state.current_track_id is None
        },
        post.original_queue is None,
{
}

/// Ids of a concatenation.
proof fn lemma_ids_concat(a: Seq<String>, b: Seq<String>)
    ensures
        id_texts(a + b) == id_texts(a) + id_texts(b),
{
    assert(id_texts(a + b) =~= id_texts(a) + id_texts(b));
}

/// Removing an entry from the queue and its first id-twin from the saved
/// order keeps both holding the same ids.
proof fn lemma_remove_keeps_sync(pre: CoreView, index: usize)
    requires
        in_sync(pre),
        index < pre.state.queue.len(),
    ensures
        match pre.original_queue {
            Some(o) => id_texts(without_first(o, pre.state.queue[index as int]@)).to_multiset() == id_texts(
                pre.state.queue.remove(index as int),
            ).to_multiset(),
            None => true,
        },
{
    broadcast use vstd::seq_lib::group_to_multiset_ensures;
    broadcast use vstd::multiset::group_multiset_axioms;

    let q = pre.state.queue;
    let v = q[index as int]@;
    assert(id_texts(q.remove(index as int)) =~= id_texts(q).remove(index as int));
    assert(id_texts(q)[index as int] == v);
    match pre.original_queue {
        Some(o) => {
            assert(id_texts(q).contains(v));
            assert(id_texts(o).to_multiset().count(v) > 0);
            assert(id_texts(o).contains(v));
            let k = choose|k: int| 0 <= k < id_texts(o).len() && id_texts(o)[k] == v;
            assert(has_match(o, v));
            lemma_first_match(o, v);
            let p = first_match(o, v)->0;
            assert(id_texts(o.remove(p)) =~= id_texts(o).remove(p));
            assert(id_texts(o)[p] == v);
        },
        None => {},
    }
}

/// The ids of two sequences with the same tracks agree as multisets.
proof fn lemma_views_multiset(a: Seq<String>, b: Seq<String>)
    requires
        a.to_multiset() == b.to_multiset(),
    ensures
        id_texts(a).to_multiset() == id_texts(b).to_multiset(),
    decreases a.len(),
{
    broadcast use vstd::seq_lib::group_to_multiset_ensures;
    broadcast use vstd::multiset::group_multiset_axioms;

    if a.len() == 0 {
        assert(b.to_multiset().len() == 0);
        assert(b.len() == 0);
        assert(id_texts(a) =~= Seq::<Seq<char>>::empty());
        assert(id_texts(b) =~= Seq::<Seq<char>>::empty());
    } else {
        let x = a.last();
        let a2 = a.drop_last();
        assert(a =~= a2.push(x));
        assert(a.to_multiset() == a2.to_multiset().insert(x));
        assert(b.to_multiset().count(x) > 0);
        assert(b.contains(x));
        let k = choose|k: int| 0 <= k < b.len() && b[k] == x;
        let b2 = b.remove(k);
        assert(b2.to_multiset() == b.to_multiset().remove(x));
        assert(a2.to_multiset() =~= b2.to_multiset());
        lemma_views_multiset(a2, b2);
        assert(id_texts(a) =~= id_texts(a2).push(x@));
        assert(id_texts(b2) =~= id_texts(b).remove(k));
        assert(id_texts(b)[k] == x@);
        assert(id_texts(b2).to_multiset() == id_texts(b).to_multiset().remove(x@));
        assert(id_texts(b).to_multiset().count(x@) > 0) by {
            assert(id_texts(b).contains(x@));
        }
        assert(id_texts(b).to_multiset() =~= id_texts(b2).to_multiset().insert(x@));
    }
}

/// Moving an entry of the queue keeps the queue index on the current track.
pub proof fn lemma_queue_move_follows_current(pre: CoreView, from: usize, to: usize, post: CoreView)
    requires
        queue_move_post(pre, from, to, post),
        pre.state.queue_index < pre.state.queue.len(),
    ensures
        post.state.queue_index < post.state.queue.len(),
        post.state.queue[post.state.queue_index as int] == pre.state.queue[pre.state.queue_index as int],
        post.state.current_track_id == pre.state.current_track_id,
{
    let s = pre.state;
    let len = s.queue.len();
    if !(from >= len || to >= len || from == to) {
        let item = s.queue[from as int];
        let rem = s.queue.remove(from as int);
        let q = rem.insert(to as int, item);
        let i = s.queue_index;
        let j = moved_index(i, from, to);
        if i == from {
            assert(q[to as int] == item);
        } else if from < i && to >= i {
            assert(rem[i - 1] == s.queue[i as int]);
            assert(q[j as int] == rem[i - 1]);
        } else if from > i && to <= i {
            assert(rem[i as int] == s.queue[i as int]);
            assert(q[j as int] == rem[i as int]);
        } else if from < i {
            assert(rem[i - 1] == s.queue[i as int]);
            assert(q[i as int] == s.queue[i as int]);
        } else {
            assert(rem[i as int] == s.queue[i as int]);
            assert(q[i as int] == s.queue[i as int]);
        }
    }
}

/// Removing an entry other than the current one keeps the queue index on
/// the current track and changes nothing else of playback.
pub proof fn lemma_queue_remove_other_keeps_current(pre: CoreView, index: usize, post: CoreView, r: Option<EngineCmd>)
    requires
        queue_remove_post(pre, index, post, r),
        pre.state.queue_index < pre.state.queue.len(),
        index < pre.state.queue.len(),
        index != pre.state.queue_index,
    ensures
        post.state.queue_index < post.state.queue.len(),
        post.state.queue[post.state.queue_index as int] == pre.state.queue[pre.state.queue_index as int],
        post.state.status == pre.state.status,
        post.state.current_track_id == pre.state.current_track_id,
        r is None,
{
    let s = pre.state;
    let q = s.queue.remove(index as int);
    assert(q.len() == s.queue.len() - 1);
    if index < s.queue_index {
        assert(q[s.queue_index - 1] == s.queue[s.queue_index as int]);
    } else {
        assert(q[s.queue_index as int] == s.queue[s.queue_index as int]);
    }
}

/// A play is counted at most once per load: once recorded, further progress
/// marks nothing new.
pub proof fn lemma_play_counted_once(c: CoreView, position_ms: u64, duration_ms: u64)
    requires
        c.stats_recorded,
    ensures
        progressed(c, position_ms, duration_ms).stats_pending == c.stats_pending,
        progressed(c, position_ms, duration_ms).stats_recorded,
{
}

/// Leaving shuffle keeps the same tracks (as many times each) when the saved
/// order was kept in step with the queue.
pub proof fn lemma_leaving_shuffle_keeps_tracks(pre: CoreView, mode: PlayMode, post: CoreView)
    requires
        pre.state.play_mode == PlayMode::Shuffle,
        mode != PlayMode::Shuffle,
        in_sync(pre),
        set_mode_post(pre, mode, post),
    ensures
        id_texts(post.state.queue).to_multiset() == id_texts(pre.state.queue).to_multiset(),
        post.original_queue is None,
        post.state.play_mode == mode,
{
}

} // verus!

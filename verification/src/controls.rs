//! System media controls, apart from the platform: what the player state
//! shows there, how relative seeks land, and the `file://` address of a
//! cover image.

use vstd::prelude::*;

use crate::models::{PlayStatus, PlayerState};
use crate::text::push_char;

verus! {

/// Step of a relative seek from the media keys, in milliseconds.
pub const SEEK_STEP_MS: u64 = 10_000;

/// What the system media controls show.
#[derive(Debug, Clone, Copy, PartialEq, Eq, Structural)]
pub enum Playback {
    Stopped,
    Playing { progress_ms: u64 },
    Paused { progress_ms: u64 },
}

/// The playback the controls show for a player state: stopped without a
/// current track; otherwise playing or paused at the position.
pub fn playback_of(state: &PlayerState) -> (r: Playback)
    ensures
        r == (if state.status == PlayStatus::Stopped || state.current_track_id is None {
            Playback::Stopped
        } else if state.status == PlayStatus::Playing {
            Playback::Playing { progress_ms: state.position_ms }
        } else {
            Playback::Paused { progress_ms: state.position_ms }
        }),
{
    if state.status == PlayStatus::Stopped || state.current_track_id.is_none() {
        Playback::Stopped
    } else if state.status == PlayStatus::Playing {
        Playback::Playing { progress_ms: state.position_ms }
    } else {
        Playback::Paused { progress_ms: state.position_ms }
    }
}

/// Whether the current track differs from the one last shown (the metadata
/// and cover are then shown afresh).
pub fn track_changed(last: &Option<String>, current: &Option<String>) -> (r: bool)
    ensures
        r == (crate::cue::opt_text(*last) != crate::cue::opt_text(*current)),
{
    match (last, current) {
        (Some(a), Some(b)) => !(*a == *b),
        (None, None) => false,
        _ => true,
    }
}

/// Where a relative seek lands: forward by `step_ms` but not past the known
/// duration (nor, when the duration is unknown or shorter, past the current
/// position); backward by `step_ms` but not before 0.
pub open spec fn seek_landing(position_ms: u64, duration_ms: u64, step_ms: u64, forward: bool) -> u64 {
    if forward {
        let ahead: int = if position_ms + step_ms > u64::MAX { u64::MAX as int } else { position_ms + step_ms };
        let limit: int = if duration_ms > position_ms { duration_ms as int } else { position_ms as int };
        (if ahead < limit { ahead } else { limit }) as u64
    } else {
        if position_ms >= step_ms { (position_ms - step_ms) as u64 } else { 0 }
    }
}

/// Where a relative seek lands (see [`seek_landing`]).
pub fn seek_target(position_ms: u64, duration_ms: u64, step_ms: u64, forward: bool) -> (r: u64)
    ensures
        r == seek_landing(position_ms, duration_ms, step_ms, forward),
{
    if forward {
        let ahead = position_ms.saturating_add(step_ms);
        let limit = if duration_ms > position_ms { duration_ms } else { position_ms };
        if ahead < limit { ahead } else { limit }
    } else {
        position_ms.saturating_sub(step_ms)
    }
}

/// An upper-case hexadecimal digit.
pub open spec fn hex_upper(d: int) -> char {
    if d < 10 {
        (48 + d) as char
    } else {
        (55 + d) as char
    }
}

/// How one byte of a path appears in a `file://` address: separators as `/`,
/// `:` and unreserved ASCII as they are, every other byte percent-encoded.
pub open spec fn uri_piece(b: u8) -> Seq<char> {
    if b == 0x2f || b == 0x5c {
        seq!['/']
    } else if b == 0x3a || (0x41 <= b <= 0x5a) || (0x61 <= b <= 0x7a) || (0x30 <= b <= 0x39) || b == 0x2d || b
        == 0x2e || b == 0x5f || b == 0x7e {
        seq![b as char]
    } else {
        seq!['%', hex_upper((b / 16) as int), hex_upper((b % 16) as int)]
    }
}

/// The encoded form of some bytes.
pub open spec fn uri_pieces(bytes: Seq<u8>) -> Seq<char>
    decreases bytes.len(),
{
    if bytes.len() == 0 {
        Seq::empty()
    } else {
        uri_pieces(bytes.drop_last()) + uri_piece(bytes.last())
    }
}

/// The `file:///` address of a path (its UTF-8 bytes, encoded as above).
pub open spec fn file_uri(path: Seq<char>) -> Seq<char> {
    "file:///"@ + uri_pieces(vstd::utf8::encode_utf8(path))
}

/// A hexadecimal digit (upper case) for a value below 16.
fn hex_char(d: u8) -> (r: char)
    requires
        d < 16,
    ensures
        r == hex_upper(d as int),
{
    if d < 10 {
        crate::text::char_from_ascii((48 + d) as u32)
    } else {
        crate::text::char_from_ascii((55 + d) as u32)
    }
}

/// The `file:///` address of a path (see [`file_uri`]).
pub fn to_file_uri(path: &str) -> (r: String)
    ensures
        r@ == file_uri(path@),
{
    let mut out = "file:///".to_owned();
    let bytes = path.as_bytes();
    let ghost head = out@;
    let mut i: usize = 0;
    while i < bytes.len()
        invariant
            i <= bytes.len(),
            head == "file:///"@,
            out@ == head + uri_pieces(bytes@.take(i as int)),
        decreases bytes.len() - i,
    {
        let b = bytes[i];
        assert(bytes@.take(i + 1).drop_last() =~= bytes@.take(i as int));
        let ghost before = out@;
        if b == 0x2f || b == 0x5c {
            push_char(&mut out, '/');
        } else if b == 0x3a || (0x41 <= b && b <= 0x5a) || (0x61 <= b && b <= 0x7a) || (0x30 <= b && b <= 0x39)
            || b == 0x2d || b == 0x2e || b == 0x5f || b == 0x7e {
            push_char(&mut out, crate::text::char_from_ascii(b as u32));
        } else {
            push_char(&mut out, '%');
            push_char(&mut out, hex_char(b / 16));
            push_char(&mut out, hex_char(b % 16));
        }
        assert(out@ =~= before + uri_piece(b));
        i = i + 1;
    }
    assert(bytes@.take(bytes@.len() as int) =~= bytes@);
    out
}

} // verus!

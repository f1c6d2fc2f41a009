//! Application settings and their cleaning before they are stored: scan
//! directories are trimmed, blank ones dropped and duplicates removed, the
//! first occurrence keeping its place.

use vstd::prelude::*;

use crate::text::{chars_eq, chars_of, string_of, trim, trim_chars};

verus! {

/// Colour theme.
#[derive(Debug, Clone, Copy, PartialEq, Eq, Structural)]
pub enum Theme {
    Dark,
    Light,
    System,
}

impl Default for Theme {
    fn default() -> (r: Self)
        ensures
            r == Theme::Dark,
    {
        Theme::Dark
    }
}

/// Audio output back end.
#[derive(Debug, Clone, Copy, PartialEq, Eq, Structural)]
pub enum AudioBackend {
    /// The system default (through the mixer).
    System,
    /// WASAPI shared mode (Windows).
    WasapiShared,
    /// WASAPI exclusive mode (Windows, bypasses the mixer).
    WasapiExclusive,
}

impl Default for AudioBackend {
    fn default() -> (r: Self)
        ensures
            r == AudioBackend::System,
    {
        AudioBackend::System
    }
}

/// ReplayGain mode.
#[derive(Debug, Clone, Copy, PartialEq, Eq, Structural)]
pub enum ReplayGainMode {
    Off,
    Track,
    Album,
}

impl Default for ReplayGainMode {
    fn default() -> (r: Self)
        ensures
            r == ReplayGainMode::Off,
    {
        ReplayGainMode::Off
    }
}

/// Audio output configuration.
#[derive(Debug, Clone, PartialEq, Eq)]
pub struct AudioOutputConfig {
    pub backend: AudioBackend,
    /// Output device name (`None`: the system default device).
    pub device: Option<String>,
    /// Gapless playback.
    pub gapless: bool,
    pub replay_gain: ReplayGainMode,
    /// Loudness normalisation for tracks without ReplayGain tags.
    pub loudnorm_fallback: bool,
}

/// The default for settings fields that are on unless stated otherwise.
pub fn default_true() -> (r: bool)
    ensures
        r,
{
    true
}

impl Default for AudioOutputConfig {
    fn default() -> (r: Self)
        ensures
            r.backend == AudioBackend::System,
            r.device is None,
            r.gapless,
            r.replay_gain == ReplayGainMode::Off,
            !r.loudnorm_fallback,
    {
        AudioOutputConfig {
            backend: AudioBackend::System,
            device: None,
            gapless: true,
            replay_gain: ReplayGainMode::Off,
            loudnorm_fallback: false,
        }
    }
}

/// Application settings (replaced as a whole on update).
#[derive(Debug, Clone, PartialEq, Eq)]
pub struct Settings {
    pub theme: Theme,
    /// Library scan directories (absolute paths).
    pub scan_dirs: Vec<String>,
    pub audio_output: AudioOutputConfig,
}

impl Default for Settings {
    fn default() -> (r: Self)
        ensures
            r.theme == Theme::Dark,
            r.scan_dirs@.len() == 0,
            r.audio_output.backend == AudioBackend::System,
            r.audio_output.device is None,
            r.audio_output.gapless,
            r.audio_output.replay_gain == ReplayGainMode::Off,
            !r.audio_output.loudnorm_fallback,
    {
        Settings { theme: Theme::Dark, scan_dirs: Vec::new(), audio_output: AudioOutputConfig::default() }
    }
}

/// The texts of a list of strings.
pub open spec fn texts(v: Seq<String>) -> Seq<Seq<char>> {
    v.map_values(|s: String| s@)
}

/// The cleaned directory list: each entry trimmed, blank entries dropped, and
/// an entry kept only if no earlier kept entry reads the same.
pub open spec fn clean_dirs(s: Seq<Seq<char>>) -> Seq<Seq<char>>
    decreases s.len(),
{
    if s.len() == 0 {
        Seq::empty()
    } else {
        let prev = clean_dirs(s.drop_last());
        let t = trim(s.last());
        if t.len() > 0 && !prev.contains(t) {
            prev.push(t)
        } else {
            prev
        }
    }
}

/// A list that cleaning leaves as it is: trimmed, non-blank, no repeats.
pub open spec fn is_clean(s: Seq<Seq<char>>) -> bool {
    &&& forall|i: int| 0 <= i < s.len() ==> #[trigger] trim(s[i]) == s[i] && s[i].len() > 0
    &&& forall|i: int, j: int| 0 <= i < j < s.len() ==> #[trigger] s[i] != #[trigger] s[j]
}

/// Whether `t` is among `kept`.
fn contains_text(kept: &Vec<Vec<char>>, t: &Vec<char>) -> (r: bool)
    ensures
        r == kept@.map_values(|k: Vec<char>| k@).contains(t@),
{
    let ghost ks = kept@.map_values(|k: Vec<char>| k@);
    let mut j: usize = 0;
    while j < kept.len()
        invariant
            j <= kept.len(),
            ks == kept@.map_values(|k: Vec<char>| k@),
            forall|k: int| 0 <= k < j ==> ks[k] != t@,
        decreases kept.len() - j,
    {
        if chars_eq(t, kept[j].as_slice()) {
            assert(ks[j as int] == t@);
            return true;
        }
        j = j + 1;
    }
    false
}

/// Cleans settings before they are stored: scan directories are trimmed,
/// blank ones dropped and repeats removed, keeping the first occurrence's place.
pub fn sanitize(settings: Settings) -> (r: Settings)
    ensures
        r.theme == settings.theme,
        r.audio_output == settings.audio_output,
        texts(r.scan_dirs@) == clean_dirs(texts(settings.scan_dirs@)),
        is_clean(texts(r.scan_dirs@)),
{
    let Settings { theme, scan_dirs, audio_output } = settings;
    let ghost src = texts(scan_dirs@);
    let mut kept: Vec<Vec<char>> = Vec::new();
    let mut out: Vec<String> = Vec::new();
    let mut i: usize = 0;
    while i < scan_dirs.len()
        invariant
            i <= scan_dirs.len(),
            src == texts(scan_dirs@),
            kept@.map_values(|k: Vec<char>| k@) == clean_dirs(src.take(i as int)),
            texts(out@) == clean_dirs(src.take(i as int)),
        decreases scan_dirs.len() - i,
    {
        let t = trim_chars(&chars_of(scan_dirs[i].as_str()));
        let ghost prev = clean_dirs(src.take(i as int));
        assert(src.take(i + 1).drop_last() =~= src.take(i as int));
        assert(src.take(i + 1).last() == scan_dirs@[i as int]@);
        if t.len() > 0 && !contains_text(&kept, &t) {
            let s = string_of(&t, 0, t.len());
            assert(t@.subrange(0, t@.len() as int) =~= t@);
            out.push(s);
            kept.push(t);
            assert(texts(out@) =~= prev.push(t@));
            assert(kept@.map_values(|k: Vec<char>| k@) =~= prev.push(t@));
        }
        i = i + 1;
    }
    assert(src.take(scan_dirs@.len() as int) =~= src);
    proof {
        lemma_clean_dirs_clean(src);
    }
    Settings { theme, scan_dirs: out, audio_output }
}

/// The cleaned list is clean.
pub proof fn lemma_clean_dirs_clean(s: Seq<Seq<char>>)
    ensures
        is_clean(clean_dirs(s)),
    decreases s.len(),
{
    if s.len() > 0 {
        lemma_clean_dirs_clean(s.drop_last());
        let prev = clean_dirs(s.drop_last());
        let t = trim(s.last());
        crate::text::lemma_trim_idempotent(s.last());
        if t.len() > 0 && !prev.contains(t) {
            let c = prev.push(t);
            assert forall|i: int, j: int| 0 <= i < j < c.len() implies c[i] != c[j] by {
                if j == c.len() - 1 {
                    assert(prev[i] == c[i]);
                }
            }
        }
    }
}

/// Cleaning a clean list changes nothing.
pub proof fn lemma_clean_dirs_fixed(s: Seq<Seq<char>>)
    requires
        is_clean(s),
    ensures
        clean_dirs(s) == s,
    decreases s.len(),
{
    if s.len() > 0 {
        let p = s.drop_last();
        assert(is_clean(p)) by {
            assert forall|i: int, j: int| 0 <= i < j < p.len() implies p[i] != p[j] by {
                assert(s[i] != s[j]);
            }
            assert forall|i: int| 0 <= i < p.len() implies #[trigger] trim(p[i]) == p[i] && p[i].len() > 0 by {
                assert(trim(s[i]) == s[i]);
            }
        }
        lemma_clean_dirs_fixed(p);
        let last = s.last();
        assert(trim(s[s.len() - 1]) == s[s.len() - 1]);
        assert(!p.contains(last)) by {
            if p.contains(last) {
                let k = choose|k: int| 0 <= k < p.len() && p[k] == last;
                assert(s[k] != s[s.len() - 1]);
            }
        }
        assert(s =~= p.push(last));
    }
}

/// Sanitising is idempotent: cleaning an already cleaned list of scan
/// directories gives the same list.
pub proof fn lemma_sanitize_idempotent(s: Seq<Seq<char>>)
    ensures
        clean_dirs(clean_dirs(s)) == clean_dirs(s),
{
    lemma_clean_dirs_clean(s);
    lemma_clean_dirs_fixed(clean_dirs(s));
}

} // verus!

//! Where the tracks of a parsed CUE sheet come from: each one is read from a
//! TRACK line (AUDIO or of no type) under its FILE line, and starts at the
//! last usable INDEX 01 time of that track's lines, else its INDEX 00 time.

use vstd::prelude::*;

use crate::cue::{
    cue_sheet_of, first_word, flush, index_step, kw_audio_lower, kw_file, kw_index, kw_track, lemma_find_char_bounds,
    lemma_sort_by_number_sorted, line_end, lines_from, msf_spec, parsed, second_word, sort_by_number, start_state, step,
    track_step, Msf, ParseView, PendingView, TrackView,
};
use crate::text::{lower_seq, parse_u32_spec, skip_word, trim, upper_seq};

verus! {

/// The lines of `s` from position `pos` on, as the parser reads them.
pub open spec fn lines_of(s: Seq<char>, pos: int) -> Seq<Seq<char>>
    decreases s.len() + 1 - pos,
{
    if pos < 0 || pos > s.len() {
        Seq::empty()
    } else {
        let e = line_end(s, pos);
        proof {
            lemma_find_char_bounds(s, '\n', pos);
        }
        seq![s.subrange(pos, e)] + lines_of(s, e + 1)
    }
}

/// The keyword of a line: its first word, ASCII upper-cased (empty for a blank line).
pub open spec fn keyword(raw: Seq<char>) -> Seq<char> {
    let line = trim(raw);
    if line.len() == 0 {
        Seq::empty()
    } else {
        upper_seq(line.subrange(0, skip_word(line, 0)))
    }
}

/// What follows the keyword of a line, trimmed.
pub open spec fn rest_of(raw: Seq<char>) -> Seq<char> {
    let line = trim(raw);
    let k = skip_word(line, 0);
    if k < line.len() {
        trim(line.subrange(k + 1, line.len() as int))
    } else {
        Seq::empty()
    }
}

/// A FILE or TRACK line: one that ends the lines of the track before it.
pub open spec fn is_break(raw: Seq<char>) -> bool {
    keyword(raw) == kw_file() || keyword(raw) == kw_track()
}

/// The number of FILE lines among `ls`.
pub open spec fn file_count(ls: Seq<Seq<char>>) -> nat
    decreases ls.len(),
{
    if ls.len() == 0 {
        0
    } else {
        file_count(ls.drop_last()) + (if keyword(ls.last()) == kw_file() { 1nat } else { 0nat })
    }
}

/// The first FILE or TRACK line at or after `j` (or the number of lines).
pub open spec fn next_break(ls: Seq<Seq<char>>, j: int) -> int
    decreases ls.len() - j,
{
    if 0 <= j < ls.len() && !is_break(ls[j]) {
        next_break(ls, j + 1)
    } else {
        j
    }
}

/// The time of an `INDEX w mm:ss:ff` line with a usable time.
pub open spec fn index_value(raw: Seq<char>, w: u32) -> Option<u64> {
    let rest = rest_of(raw);
    if keyword(raw) != kw_index() {
        None
    } else if (match first_word(rest) {
        Some(x) => parse_u32_spec(x),
        None => None,
    }) != Some(w) {
        None
    } else {
        match second_word(rest) {
            Some(x) => match msf_spec(x) {
                Msf::Valid(ms) => Some(ms),
                _ => None,
            },
            None => None,
        }
    }
}

/// The last usable `INDEX w` time among lines `lo..hi`.
pub open spec fn last_index(ls: Seq<Seq<char>>, lo: int, hi: int, w: u32) -> Option<u64>
    decreases hi - lo,
{
    if hi <= lo {
        None
    } else {
        match index_value(ls[hi - 1], w) {
            Some(ms) => Some(ms),
            None => last_index(ls, lo, hi - 1, w),
        }
    }
}

/// The number a TRACK line gives its track (0 when unreadable).
pub open spec fn track_number(raw: Seq<char>) -> u32 {
    match first_word(rest_of(raw)) {
        Some(w) => match parse_u32_spec(w) {
            Some(n) => n,
            None => 0,
        },
        None => 0,
    }
}

/// A TRACK line's type is AUDIO (in any case), or it has none.
pub open spec fn track_is_audio(raw: Seq<char>) -> bool {
    match second_word(rest_of(raw)) {
        Some(w) => lower_seq(w) == kw_audio_lower(),
        None => true,
    }
}

/// The first of two optional times that is present.
pub open spec fn first_of(a: Option<u64>, b: Option<u64>) -> Option<u64> {
    match a {
        Some(x) => Some(x),
        None => b,
    }
}

/// Track `t` of section `f` is read from line `i` of `ls`: an audio TRACK
/// line with the track's number, after the `f`-th FILE line (counting from
/// 0), and the track starts at the last usable INDEX 01 time among its lines
/// (up to the next FILE or TRACK line), else the last usable INDEX 00 time.
pub open spec fn read_from(ls: Seq<Seq<char>>, f: int, t: TrackView, i: int) -> bool {
    let e = next_break(ls, i + 1);
    &&& 0 <= i < ls.len()
    &&& keyword(ls[i]) == kw_track()
    &&& track_is_audio(ls[i])
    &&& track_number(ls[i]) == t.number
    &&& file_count(ls.take(i)) == f + 1
    &&& first_of(last_index(ls, i + 1, e, 1), last_index(ls, i + 1, e, 0)) == Some(t.start_ms)
}

/// Track `t` of section `f` is read from some line of `ls`.
pub open spec fn has_source(ls: Seq<Seq<char>>, f: int, t: TrackView) -> bool {
    exists|i: int| read_from(ls, f, t, i)
}


/// The lines `ls` applied to `st`, last line last.
pub open spec fn run(ls: Seq<Seq<char>>, st: ParseView) -> ParseView
    decreases ls.len(),
{
    if ls.len() == 0 {
        st
    } else {
        step(run(ls.drop_last(), st), ls.last())
    }
}

/// Applying the lines is applying the first, then the others.
proof fn lemma_run_first(ls: Seq<Seq<char>>, st: ParseView)
    requires
        ls.len() > 0,
    ensures
        run(ls, st) == run(ls.drop_first(), step(st, ls[0])),
    decreases ls.len(),
{
    let s1 = step(st, ls[0]);
    if ls.len() > 1 {
        let a = ls.drop_last();
        let b = ls.drop_first();
        lemma_run_first(a, st);
        assert(a.drop_first() =~= b.drop_last());
        assert(a[0] == ls[0]);
        assert(b.last() == ls.last());
        assert(run(a, st) == run(b.drop_last(), s1));
        assert(run(ls, st) == step(run(a, st), ls.last()));
        assert(run(b, s1) == step(run(b.drop_last(), s1), b.last()));
    } else {
        assert(ls.drop_first() =~= Seq::<Seq<char>>::empty());
        assert(ls.drop_last() =~= Seq::<Seq<char>>::empty());
        assert(run(ls, st) == step(run(ls.drop_last(), st), ls.last()));
        assert(ls.last() == ls[0]);
    }
}

/// Reading the text from `pos` is applying its lines from `pos`.
proof fn lemma_lines_run(s: Seq<char>, pos: int, st: ParseView)
    ensures
        lines_from(s, pos, st) == run(lines_of(s, pos), st),
    decreases s.len() + 1 - pos,
{
    if 0 <= pos <= s.len() {
        let e = line_end(s, pos);
        lemma_find_char_bounds(s, '\n', pos);
        lemma_lines_run(s, e + 1, step(st, s.subrange(pos, e)));
        let ls = lines_of(s, pos);
        assert(ls[0] == s.subrange(pos, e));
        assert(ls.drop_first() =~= lines_of(s, e + 1));
        lemma_run_first(ls, st);
    } else {
        assert(lines_of(s, pos) =~= Seq::<Seq<char>>::empty());
    }
}

/// A later line does not move an earlier FILE or TRACK line.
proof fn lemma_next_break_push(ls: Seq<Seq<char>>, x: Seq<char>, j: int)
    requires
        0 <= j <= ls.len() + 1,
    ensures
        j <= next_break(ls, j) <= ls.len() || (j == ls.len() + 1 && next_break(ls, j) == j),
        next_break(ls, j) < ls.len() ==> next_break(ls.push(x), j) == next_break(ls, j),
        next_break(ls, j) >= ls.len() && j <= ls.len() ==> next_break(ls.push(x), j) == (if is_break(x) {
            ls.len() as int
        } else {
            ls.len() as int + 1
        }),
        j == ls.len() + 1 ==> next_break(ls.push(x), j) == j,
    decreases ls.len() - j + 1,
{
    if j < ls.len() {
        assert(ls.push(x)[j] == ls[j]);
        if !is_break(ls[j]) {
            lemma_next_break_push(ls, x, j + 1);
        }
    } else if j == ls.len() {
        assert(ls.push(x)[j] == x);
        if !is_break(x) {
            assert(next_break(ls.push(x), j + 1) == j + 1);
        }
    }
}

/// A later line does not change the INDEX times of earlier lines.
proof fn lemma_last_index_push(ls: Seq<Seq<char>>, x: Seq<char>, lo: int, hi: int, w: u32)
    requires
        0 <= lo,
        hi <= ls.len(),
    ensures
        last_index(ls.push(x), lo, hi, w) == last_index(ls, lo, hi, w),
    decreases hi - lo,
{
    if hi > lo {
        assert(hi - 1 >= 0 ==> ls.push(x)[hi - 1] == ls[hi - 1]);
        lemma_last_index_push(ls, x, lo, hi - 1, w);
    }
}

/// One more line counts one more FILE line exactly when it is one.
proof fn lemma_file_count_push(ls: Seq<Seq<char>>, x: Seq<char>)
    ensures
        file_count(ls.push(x)) == file_count(ls) + (if keyword(x) == kw_file() { 1int } else { 0int }),
{
    assert(ls.push(x).drop_last() =~= ls);
}

/// Track `t` of section `f` is read from a line of `ls` whose lines end
/// before the last line of `ls`.
pub open spec fn closed_source(ls: Seq<Seq<char>>, f: int, t: TrackView) -> bool {
    exists|i: int| read_from(ls, f, t, i) && next_break(ls, i + 1) < ls.len()
}

/// A track read from earlier lines stays read from them.
proof fn lemma_closed_push(ls: Seq<Seq<char>>, x: Seq<char>, f: int, t: TrackView)
    requires
        closed_source(ls, f, t),
    ensures
        closed_source(ls.push(x), f, t),
{
    let i = choose|i: int| read_from(ls, f, t, i) && next_break(ls, i + 1) < ls.len();
    let e = next_break(ls, i + 1);
    lemma_next_break_push(ls, x, i + 1);
    lemma_last_index_push(ls, x, i + 1, e, 1);
    lemma_last_index_push(ls, x, i + 1, e, 0);
    assert(ls.push(x).take(i) =~= ls.take(i));
    assert(ls.push(x)[i] == ls[i]);
    assert(read_from(ls.push(x), f, t, i));
}

/// Every track placed so far is read from earlier lines.
pub open spec fn landed_ok(ls: Seq<Seq<char>>, files: Seq<crate::cue::FileView>) -> bool {
    forall|f: int, k: int|
        0 <= f < files.len() && 0 <= k < files[f].tracks.len() ==> #[trigger] closed_source(ls, f, files[f].tracks[k])
}

/// The pending track is read from line `i`, the last TRACK line of `ls`.
pub open spec fn pending_from(ls: Seq<Seq<char>>, p: PendingView, i: int) -> bool {
    &&& 0 <= i < ls.len()
    &&& keyword(ls[i]) == kw_track()
    &&& track_number(ls[i]) == p.number
    &&& track_is_audio(ls[i]) == p.is_audio
    &&& next_break(ls, i + 1) == ls.len()
    &&& file_count(ls.take(i)) == file_count(ls)
    &&& p.index01_ms == last_index(ls, i + 1, ls.len() as int, 1)
    &&& p.index00_ms == last_index(ls, i + 1, ls.len() as int, 0)
}

/// What holds of the parser state after the lines `ls`.
pub open spec fn lines_inv(ls: Seq<Seq<char>>, st: ParseView) -> bool {
    &&& st.sheet.files.len() == file_count(ls)
    &&& landed_ok(ls, st.sheet.files)
    &&& match st.pending {
        Some(p) => exists|i: int| pending_from(ls, p, i),
        None => true,
    }
}

/// Placed tracks stay read from earlier lines as lines are added.
proof fn lemma_landed_push(ls: Seq<Seq<char>>, x: Seq<char>, files: Seq<crate::cue::FileView>)
    requires
        landed_ok(ls, files),
    ensures
        landed_ok(ls.push(x), files),
{
    assert forall|f: int, k: int| 0 <= f < files.len() && 0 <= k < files[f].tracks.len() implies #[trigger] closed_source(
        ls.push(x),
        f,
        files[f].tracks[k],
    ) by {
        assert(closed_source(ls, f, files[f].tracks[k]));
        lemma_closed_push(ls, x, f, files[f].tracks[k]);
    }
}


/// The pending tracks agree in number, type and INDEX times.
pub open spec fn same_keys(a: Option<PendingView>, b: Option<PendingView>) -> bool {
    match (a, b) {
        (None, None) => true,
        (Some(p), Some(q)) => p.number == q.number && p.is_audio == q.is_audio && p.index00_ms == q.index00_ms
            && p.index01_ms == q.index01_ms,
        _ => false,
    }
}

/// What one line does, by its keyword.
proof fn lemma_step_shape(st: ParseView, x: Seq<char>)
    ensures
        keyword(x) == kw_file() ==> step(st, x) == crate::cue::file_step(flush(st), rest_of(x)),
        keyword(x) == kw_track() ==> step(st, x) == track_step(flush(st), rest_of(x)),
        keyword(x) == kw_index() ==> step(st, x) == index_step(st, rest_of(x)),
        !is_break(x) && keyword(x) != kw_index() ==> step(st, x).sheet.files == st.sheet.files && same_keys(
            st.pending,
            step(st, x).pending,
        ),
{
    let line = trim(x);
    if line.len() == 0 {
        assert(keyword(x) =~= Seq::<char>::empty());
        assert(kw_file().len() == 4 && kw_track().len() == 5 && kw_index().len() == 5);
    }
}

/// Landing the pending track before a FILE or TRACK line keeps every placed
/// track read from earlier lines.
proof fn lemma_flush_lands(ls: Seq<Seq<char>>, x: Seq<char>, st: ParseView)
    requires
        lines_inv(ls, st),
        is_break(x),
    ensures
        landed_ok(ls.push(x), flush(st).sheet.files),
        flush(st).sheet.files.len() == st.sheet.files.len(),
        flush(st).pending is None,
{
    lemma_landed_push(ls, x, st.sheet.files);
    if let Some(p) = st.pending {
        let files = st.sheet.files;
        let start = match p.index01_ms {
            Some(ms) => Some(ms),
            None => p.index00_ms,
        };
        if files.len() > 0 && p.is_audio && start is Some {
            let i = choose|i: int| pending_from(ls, p, i);
            let n = files.len() - 1;
            let t = TrackView { number: p.number, title: p.title, performer: p.performer, start_ms: start->0 };
            lemma_next_break_push(ls, x, i + 1);
            lemma_last_index_push(ls, x, i + 1, ls.len() as int, 1);
            lemma_last_index_push(ls, x, i + 1, ls.len() as int, 0);
            assert(ls.push(x).take(i) =~= ls.take(i));
            assert(ls.push(x)[i] == ls[i]);
            assert(read_from(ls.push(x), n, t, i));
            assert(closed_source(ls.push(x), n, t));
            let nf = flush(st).sheet.files;
            assert forall|f: int, k: int| 0 <= f < nf.len() && 0 <= k < nf[f].tracks.len() implies #[trigger] closed_source(
                ls.push(x),
                f,
                nf[f].tracks[k],
            ) by {
                if f != n || k < files[f].tracks.len() {
                    assert(nf[f].tracks[k] == files[f].tracks[k]);
                } else {
                    assert(nf[f].tracks[k] == t);
                }
            }
        }
    }
}

/// What holds after some lines still holds after one more.
proof fn lemma_step_inv(ls: Seq<Seq<char>>, x: Seq<char>, st: ParseView)
    requires
        lines_inv(ls, st),
    ensures
        lines_inv(ls.push(x), step(st, x)),
{
    lemma_step_shape(st, x);
    lemma_file_count_push(ls, x);
    let n = ls.len() as int;
    let ls2 = ls.push(x);
    let st2 = step(st, x);
    if is_break(x) {
        lemma_flush_lands(ls, x, st);
        let st1 = flush(st);
        if keyword(x) == kw_file() {
            let nf = st2.sheet.files;
            assert forall|f: int, k: int| 0 <= f < nf.len() && 0 <= k < nf[f].tracks.len() implies #[trigger] closed_source(
                ls2,
                f,
                nf[f].tracks[k],
            ) by {
                assert(f < st1.sheet.files.len());
                assert(nf[f] == st1.sheet.files[f]);
            }
        } else {
            let p = st2.pending->0;
            lemma_next_break_push(ls, x, n + 1);
            assert(ls2.take(n) =~= ls);
            assert(ls2[n] == x);
            assert(pending_from(ls2, p, n));
        }
    } else {
        lemma_landed_push(ls, x, st.sheet.files);
        if let Some(p) = st.pending {
            let i = choose|i: int| pending_from(ls, p, i);
            lemma_next_break_push(ls, x, i + 1);
            lemma_last_index_push(ls, x, i + 1, n, 1);
            lemma_last_index_push(ls, x, i + 1, n, 0);
            assert(ls2.take(i) =~= ls.take(i));
            assert(ls2[i] == ls[i]);
            assert(ls2[n] == x);
            let q = st2.pending->0;
            assert(pending_from(ls2, q, i));
        }
    }
}


/// What holds after any lines, read from the start.
proof fn lemma_run_inv(ls: Seq<Seq<char>>)
    ensures
        lines_inv(ls, run(ls, start_state())),
    decreases ls.len(),
{
    if ls.len() == 0 {
        assert(file_count(ls) == 0);
    } else {
        lemma_run_inv(ls.drop_last());
        lemma_step_inv(ls.drop_last(), ls.last(), run(ls.drop_last(), start_state()));
        assert(ls.drop_last().push(ls.last()) =~= ls);
    }
}

/// After the last line, the pending track lands too, read from its line.
proof fn lemma_last_flush(ls: Seq<Seq<char>>, st: ParseView)
    requires
        lines_inv(ls, st),
    ensures
        forall|f: int, k: int|
            0 <= f < flush(st).sheet.files.len() && 0 <= k < flush(st).sheet.files[f].tracks.len() ==> has_source(
                ls,
                f,
                #[trigger] flush(st).sheet.files[f].tracks[k],
            ),
{
    let files = st.sheet.files;
    let nf = flush(st).sheet.files;
    assert forall|f: int, k: int| 0 <= f < nf.len() && 0 <= k < nf[f].tracks.len() implies has_source(
        ls,
        f,
        #[trigger] nf[f].tracks[k],
    ) by {
        let old_track = f < files.len() && k < files[f].tracks.len() && nf[f].tracks[k] == files[f].tracks[k];
        if old_track {
            assert(closed_source(ls, f, files[f].tracks[k]));
            let i = choose|i: int| read_from(ls, f, files[f].tracks[k], i) && next_break(ls, i + 1) < ls.len();
            assert(read_from(ls, f, nf[f].tracks[k], i));
        } else {
            let p = st.pending->0;
            let i = choose|i: int| pending_from(ls, p, i);
            assert(read_from(ls, f, nf[f].tracks[k], i));
        }
    }
}

/// Every track of a parsed sheet is read from a TRACK line of the text
/// (AUDIO or of no type) that follows the FILE line of its section, with that
/// line's number, and starts at the last usable INDEX 01 time among the
/// track's lines (those up to the next FILE or TRACK line), else at the last
/// usable INDEX 00 time.
pub proof fn lemma_tracks_read_from_their_lines(text: Seq<char>)
    ensures
        forall|f: int, k: int|
            0 <= f < cue_sheet_of(text).files.len() && 0 <= k < cue_sheet_of(text).files[f].tracks.len()
                ==> has_source(lines_of(text, 0), f, #[trigger] cue_sheet_of(text).files[f].tracks[k]),
{
    broadcast use vstd::seq_lib::group_to_multiset_ensures;

    let ls = lines_of(text, 0);
    lemma_lines_run(text, 0, start_state());
    lemma_run_inv(ls);
    let st = run(ls, start_state());
    lemma_last_flush(ls, st);
    let pf = parsed(text).sheet.files;
    let sf = cue_sheet_of(text).files;
    assert forall|f: int, k: int| 0 <= f < sf.len() && 0 <= k < sf[f].tracks.len() implies has_source(
        ls,
        f,
        #[trigger] sf[f].tracks[k],
    ) by {
        let t = sf[f].tracks[k];
        assert(sf[f].tracks == sort_by_number(pf[f].tracks));
        lemma_sort_by_number_sorted(pf[f].tracks);
        assert(sf[f].tracks.to_multiset().count(t) > 0);
        assert(pf[f].tracks.to_multiset().count(t) > 0);
        assert(pf[f].tracks.contains(t));
        let j = choose|j: int| 0 <= j < pf[f].tracks.len() && pf[f].tracks[j] == t;
        assert(has_source(ls, f, pf[f].tracks[j]));
    }
}

} // verus!

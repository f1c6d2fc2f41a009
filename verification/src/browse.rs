//! Directory listings for the video browser: hidden and system entries are
//! left out, sub-directories and video files are listed separately, each in
//! order of their lower-cased names.

use vstd::prelude::*;

use crate::media::{is_video, is_video_file, to_lowercase, unicode_lower};
use crate::text::{chars_eq, chars_of};

verus! {

/// A file or directory in a listing.
#[derive(Debug, Clone, PartialEq, Eq)]
pub struct DirEntry {
    /// File or directory name.
    pub name: String,
    /// Absolute path.
    pub path: String,
    pub is_dir: bool,
    /// Size in bytes (0 for directories).
    pub size: u64,
}

/// A listing of one directory.
#[derive(Debug, Clone, PartialEq, Eq)]
pub struct BrowseResult {
    /// The directory listed.
    pub current: String,
    /// Its parent (`None` at a root).
    pub parent: Option<String>,
    /// Sub-directories, by name.
    pub dirs: Vec<DirEntry>,
    /// Video files, by name.
    pub files: Vec<DirEntry>,
}

/// Names that are listed: not hidden (leading `.`) and not a Windows system folder.
pub open spec fn is_listed(name: Seq<char>) -> bool {
    &&& !(name.len() > 0 && name[0] == '.')
    &&& name != "$RECYCLE.BIN"@
    &&& name != "System Volume Information"@
}

/// Lexicographic order of texts (by character code, as `String` compares).
pub open spec fn text_le(a: Seq<char>, b: Seq<char>) -> bool
    decreases a.len(),
{
    if a.len() == 0 {
        true
    } else if b.len() == 0 {
        false
    } else if a[0] != b[0] {
        a[0] < b[0]
    } else {
        text_le(a.drop_first(), b.drop_first())
    }
}

/// The sort key of an entry: its lower-cased name.
pub open spec fn entry_key(e: DirEntry) -> Seq<char> {
    unicode_lower(e.name@)
}

/// First position of `s` whose key comes after `k` (or the end).
pub open spec fn first_after(s: Seq<DirEntry>, k: Seq<char>) -> int
    decreases s.len(),
{
    if s.len() == 0 {
        0
    } else if !text_le(entry_key(s[0]), k) {
        0
    } else {
        1 + first_after(s.drop_first(), k)
    }
}

/// Stable sort by key: each entry in turn goes after every entry already
/// placed whose key is not greater.
pub open spec fn sort_entries(s: Seq<DirEntry>) -> Seq<DirEntry>
    decreases s.len(),
{
    if s.len() == 0 {
        s
    } else {
        let sorted = sort_entries(s.drop_last());
        sorted.insert(first_after(sorted, entry_key(s.last())), s.last())
    }
}

/// The listed sub-directories (`dirs`) or listed video files (`!dirs`) of `s`, in order.
pub open spec fn listed(s: Seq<DirEntry>, dirs: bool) -> Seq<DirEntry>
    decreases s.len(),
{
    if s.len() == 0 {
        s
    } else {
        let e = s.last();
        let keep = is_listed(e.name@) && (if dirs { e.is_dir } else { !e.is_dir && is_video(e.path@) });
        if keep {
            listed(s.drop_last(), dirs).push(e)
        } else {
            listed(s.drop_last(), dirs)
        }
    }
}

/// Whether a name is listed (see [`is_listed`]).
pub fn name_listed(name: &str) -> (r: bool)
    ensures
        r == is_listed(name@),
{
    let v = chars_of(name);
    let recycle = chars_of("$RECYCLE.BIN");
    let sysvol = chars_of("System Volume Information");
    !(v.len() > 0 && v[0] == '.') && !chars_eq(&v, recycle.as_slice()) && !chars_eq(&v, sysvol.as_slice())
}

/// A copy of an entry.
fn copy_entry(e: &DirEntry) -> (r: DirEntry)
    ensures
        r == *e,
{
    DirEntry { name: e.name.clone(), path: e.path.clone(), is_dir: e.is_dir, size: e.size }
}

/// Lexicographic comparison (see [`text_le`]).
fn text_le_exec(a: &Vec<char>, b: &Vec<char>) -> (r: bool)
    ensures
        r == text_le(a@, b@),
{
    let mut i: usize = 0;
    assert(a@.subrange(0, a@.len() as int) =~= a@);
    assert(b@.subrange(0, b@.len() as int) =~= b@);
    while i < a.len() && i < b.len() && a[i] == b[i]
        invariant
            i <= a.len(),
            i <= b.len(),
            text_le(a@.subrange(i as int, a@.len() as int), b@.subrange(i as int, b@.len() as int)) == text_le(
                a@,
                b@,
            ),
        decreases a.len() - i,
    {
        proof {
            let sa = a@.subrange(i as int, a@.len() as int);
            let sb = b@.subrange(i as int, b@.len() as int);
            assert(sa.drop_first() =~= a@.subrange(i + 1, a@.len() as int));
            assert(sb.drop_first() =~= b@.subrange(i + 1, b@.len() as int));
        }
        i = i + 1;
    }
    proof {
        let sa = a@.subrange(i as int, a@.len() as int);
        let sb = b@.subrange(i as int, b@.len() as int);
        if i < a.len() && i < b.len() {
            assert(sa[0] == a@[i as int]);
            assert(sb[0] == b@[i as int]);
        }
    }
    if i == a.len() {
        true
    } else if i == b.len() {
        false
    } else {
        a[i] < b[i]
    }
}

proof fn lemma_first_after_skip(s: Seq<DirEntry>, k: Seq<char>, i: int)
    requires
        0 <= i <= s.len(),
        forall|j: int| 0 <= j < i ==> text_le(#[trigger] entry_key(s[j]), k),
    ensures
        first_after(s, k) == i + first_after(s.subrange(i, s.len() as int), k),
    decreases i,
{
    if i > 0 {
        assert(text_le(entry_key(s[0]), k));
        let t = s.drop_first();
        assert forall|j: int| 0 <= j < i - 1 implies text_le(#[trigger] entry_key(t[j]), k) by {
            assert(t[j] == s[j + 1]);
        }
        lemma_first_after_skip(t, k, i - 1);
        assert(t.subrange(i - 1, t.len() as int) =~= s.subrange(i, s.len() as int));
    } else {
        assert(s.subrange(0, s.len() as int) =~= s);
    }
}

/// Sorts entries by lower-cased name, keeping the order of equal names.
pub fn sort_by_name(entries: Vec<DirEntry>) -> (r: Vec<DirEntry>)
    ensures
        r@ == sort_entries(entries@),
{
    let ghost orig = entries@;
    let n = entries.len();
    let mut out: Vec<DirEntry> = Vec::new();
    let mut keys: Vec<Vec<char>> = Vec::new();
    let mut rest = entries;
    let mut i: usize = 0;
    while rest.len() > 0
        invariant
            i + rest@.len() == n,
            orig.len() == n,
            rest@ == orig.subrange(i as int, n as int),
            out@ == sort_entries(orig.subrange(0, i as int)),
            keys@.len() == out@.len(),
            forall|j: int| 0 <= j < keys@.len() ==> #[trigger] keys@[j]@ == entry_key(out@[j]),
        decreases rest@.len(),
    {
        let ghost rv = rest@;
        let e = rest.remove(0);
        assert(rest@ =~= orig.subrange(i + 1, n as int));
        assert(e == orig[i as int]);
        let key = chars_of(to_lowercase(e.name.as_str()).as_str());
        let mut p: usize = 0;
        while p < out.len() && text_le_exec(&keys[p], &key)
            invariant
                p <= out.len(),
                keys@.len() == out@.len(),
                forall|j: int| 0 <= j < keys@.len() ==> #[trigger] keys@[j]@ == entry_key(out@[j]),
                forall|j: int| 0 <= j < p ==> text_le(#[trigger] entry_key(out@[j]), key@),
            decreases out.len() - p,
        {
            p = p + 1;
        }
        proof {
            lemma_first_after_skip(out@, key@, p as int);
            if p < out.len() {
                assert(out@.subrange(p as int, out@.len() as int)[0] == out@[p as int]);
            }
        }
        let ghost before = out@;
        let ghost kb = keys@;
        out.insert(p, e);
        keys.insert(p, key);
        proof {
            let pre = orig.subrange(0, i + 1);
            assert(pre.drop_last() =~= orig.subrange(0, i as int));
            assert(pre.last() == e);
            assert forall|j: int| 0 <= j < keys@.len() implies #[trigger] keys@[j]@ == entry_key(out@[j]) by {
                if j < p {
                    assert(keys@[j] == kb[j]);
                    assert(out@[j] == before[j]);
                } else if j > p {
                    assert(keys@[j] == kb[j - 1]);
                    assert(out@[j] == before[j - 1]);
                }
            }
        }
        i = i + 1;
    }
    assert(orig.subrange(0, n as int) =~= orig);
    out
}

/// The listing of directory `current` from its raw entries: hidden and
/// system entries left out, sub-directories and video files each sorted by
/// lower-cased name (other files are not listed).
pub fn build_listing(current: String, parent: Option<String>, entries: Vec<DirEntry>) -> (r: BrowseResult)
    ensures
        r.current == current,
        r.parent == parent,
        r.dirs@ == sort_entries(listed(entries@, true)),
        r.files@ == sort_entries(listed(entries@, false)),
{
    let mut dirs: Vec<DirEntry> = Vec::new();
    let mut files: Vec<DirEntry> = Vec::new();
    let mut i: usize = 0;
    while i < entries.len()
        invariant
            i <= entries.len(),
            dirs@ == listed(entries@.take(i as int), true),
            files@ == listed(entries@.take(i as int), false),
        decreases entries.len() - i,
    {
        let e = &entries[i];
        assert(entries@.take(i + 1).drop_last() =~= entries@.take(i as int));
        assert(entries@.take(i + 1).last() == *e);
        if name_listed(e.name.as_str()) {
            if e.is_dir {
                dirs.push(copy_entry(e));
            } else if is_video_file(e.path.as_str()) {
                files.push(copy_entry(e));
            }
        }
        i = i + 1;
    }
    assert(entries@.take(entries@.len() as int) =~= entries@);
    BrowseResult { current, parent, dirs: sort_by_name(dirs), files: sort_by_name(files) }
}

proof fn lemma_text_le_total(a: Seq<char>, b: Seq<char>)
    ensures
        text_le(a, b) || text_le(b, a),
    decreases a.len(),
{
    if a.len() > 0 && b.len() > 0 && a[0] == b[0] {
        lemma_text_le_total(a.drop_first(), b.drop_first());
    }
}

proof fn lemma_text_le_trans(a: Seq<char>, b: Seq<char>, c: Seq<char>)
    requires
        text_le(a, b),
        text_le(b, c),
    ensures
        text_le(a, c),
    decreases a.len(),
{
    if a.len() > 0 && b.len() > 0 && c.len() > 0 && a[0] == b[0] && b[0] == c[0] {
        lemma_text_le_trans(a.drop_first(), b.drop_first(), c.drop_first());
    }
}

/// Entries are in order of their keys.
pub open spec fn keys_sorted(s: Seq<DirEntry>) -> bool {
    forall|i: int, j: int| 0 <= i <= j < s.len() ==> text_le(#[trigger] entry_key(s[i]), #[trigger] entry_key(s[j]))
}

proof fn lemma_first_after_bounds(s: Seq<DirEntry>, k: Seq<char>)
    ensures
        0 <= first_after(s, k) <= s.len(),
    decreases s.len(),
{
    if s.len() > 0 && text_le(entry_key(s[0]), k) {
        lemma_first_after_bounds(s.drop_first(), k);
    }
}

proof fn lemma_first_after_splits(s: Seq<DirEntry>, k: Seq<char>)
    requires
        keys_sorted(s),
    ensures
        forall|j: int| 0 <= j < first_after(s, k) ==> text_le(#[trigger] entry_key(s[j]), k),
        forall|j: int| first_after(s, k) <= j < s.len() ==> !text_le(#[trigger] entry_key(s[j]), k),
    decreases s.len(),
{
    lemma_first_after_bounds(s, k);
    if s.len() > 0 && text_le(entry_key(s[0]), k) {
        let t = s.drop_first();
        assert(keys_sorted(t)) by {
            assert forall|i: int, j: int| 0 <= i <= j < t.len() implies text_le(
                #[trigger] entry_key(t[i]),
                #[trigger] entry_key(t[j]),
            ) by {
                assert(t[i] == s[i + 1] && t[j] == s[j + 1]);
            }
        }
        lemma_first_after_splits(t, k);
        assert(first_after(s, k) == 1 + first_after(t, k));
        assert forall|j: int| 0 <= j < first_after(s, k) implies text_le(#[trigger] entry_key(s[j]), k) by {
            if j > 0 {
                assert(s[j] == t[j - 1]);
            }
        }
        assert forall|j: int| first_after(s, k) <= j < s.len() implies !text_le(#[trigger] entry_key(s[j]), k) by {
            assert(s[j] == t[j - 1]);
        }
    } else if s.len() > 0 {
        assert forall|j: int| 0 <= j < s.len() implies !text_le(#[trigger] entry_key(s[j]), k) by {
            assert(text_le(entry_key(s[0]), entry_key(s[j])));
            if text_le(entry_key(s[j]), k) {
                lemma_text_le_trans(entry_key(s[0]), entry_key(s[j]), k);
            }
        }
    }
}

/// Sorted listings are in order of lower-cased names and hold the same
/// entries as before sorting.
pub proof fn lemma_sort_entries_sorted(s: Seq<DirEntry>)
    ensures
        keys_sorted(sort_entries(s)),
        sort_entries(s).to_multiset() == s.to_multiset(),
    decreases s.len(),
{
    broadcast use vstd::seq_lib::group_to_multiset_ensures;
    if s.len() > 0 {
        let prev = sort_entries(s.drop_last());
        lemma_sort_entries_sorted(s.drop_last());
        let x = s.last();
        let k = entry_key(x);
        let p = first_after(prev, k);
        lemma_first_after_bounds(prev, k);
        lemma_first_after_splits(prev, k);
        let r = prev.insert(p, x);
        assert forall|i: int, j: int| 0 <= i <= j < r.len() implies text_le(
            #[trigger] entry_key(r[i]),
            #[trigger] entry_key(r[j]),
        ) by {
            if i < p && j < p {
                assert(r[i] == prev[i] && r[j] == prev[j]);
            } else if i < p && j == p {
                assert(r[i] == prev[i]);
            } else if i < p && j > p {
                assert(r[i] == prev[i] && r[j] == prev[j - 1]);
                assert(text_le(entry_key(prev[i]), k));
                lemma_text_le_total(entry_key(prev[j - 1]), k);
                lemma_text_le_trans(entry_key(prev[i]), k, entry_key(prev[j - 1]));
            } else if i == p && j == p {
                lemma_text_le_total(k, k);
            } else if i == p && j > p {
                assert(r[j] == prev[j - 1]);
                lemma_text_le_total(entry_key(prev[j - 1]), k);
            } else {
                assert(r[i] == prev[i - 1] && r[j] == prev[j - 1]);
            }
        }
        assert(s =~= s.drop_last().push(x));
        vstd::seq_lib::to_multiset_insert(prev, p, x);
    }
}

} // verus!

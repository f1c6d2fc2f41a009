//! Queue shuffling: Fisher–Yates driven by a 64-bit linear congruential
//! generator, keeping the current track at its queue position.

use vstd::prelude::*;

verus! {

/// Multiplier of the linear congruential generator.
pub const LCG_MUL: u64 = 6364136223846793005;

/// Increment of the linear congruential generator.
pub const LCG_INC: u64 = 1442695040888963407;

/// Seed used when the clock cannot be read.
pub const FALLBACK_SEED: u64 = 0x9e3779b97f4a7c15;

/// One step of the generator: `seed * MUL + INC` modulo 2^64.
pub open spec fn lcg_step(seed: u64) -> u64 {
    vstd::wrapping::u64_specs::wrapping_add(vstd::wrapping::u64_specs::wrapping_mul(seed, LCG_MUL), LCG_INC)
}

/// The sequence with positions `i` and `j` exchanged.
pub open spec fn swap_seq<A>(s: Seq<A>, i: int, j: int) -> Seq<A> {
    s.update(i, s[j]).update(j, s[i])
}

/// Fisher–Yates from position `i` down to 1: each step draws the next
/// generator value and swaps position `i` with `(value >> 33) % (i + 1)`.
pub open spec fn fisher_yates<A>(s: Seq<A>, seed: u64, i: nat) -> Seq<A>
    decreases i,
{
    if i == 0 {
        s
    } else {
        let next = lcg_step(seed);
        let j = (next >> 33u64) as int % (i + 1) as int;
        fisher_yates(swap_seq(s, i as int, j), next, (i - 1) as nat)
    }
}

/// `p` is the first position of `q` whose id reads `v`.
pub open spec fn is_first_match(q: Seq<String>, v: Seq<char>, p: int) -> bool {
    &&& 0 <= p < q.len()
    &&& q[p]@ == v
    &&& forall|k: int| 0 <= k < p ==> q[k]@ != v
}

/// The first position of `q` whose id reads `v`, if any.
pub open spec fn first_match(q: Seq<String>, v: Seq<char>) -> Option<int> {
    if exists|p: int| is_first_match(q, v, p) {
        Some(choose|p: int| is_first_match(q, v, p))
    } else {
        None
    }
}

/// Some id of `q` reads `v`.
pub open spec fn has_match(q: Seq<String>, v: Seq<char>) -> bool {
    exists|p: int| 0 <= p < q.len() && q[p]@ == v
}

/// Moves the first occurrence of `current` (if present) to position `idx`.
pub open spec fn keep_current(q: Seq<String>, idx: int, current: Option<String>) -> Seq<String> {
    match current {
        Some(c) => match first_match(q, c@) {
            Some(p) => if p != idx { swap_seq(q, p, idx) } else { q },
            None => q,
        },
        None => q,
    }
}

/// The shuffled queue for a given generator seed. Queues of at most two
/// tracks are left as they are.
pub open spec fn shuffled(q: Seq<String>, idx: int, current: Option<String>, seed: u64) -> Seq<String> {
    if q.len() <= 2 {
        q
    } else {
        keep_current(fisher_yates(q, seed, (q.len() - 1) as nat), idx, current)
    }
}

/// When shuffling would move the current track to `idx`, `idx` lies in the queue.
pub open spec fn shuffle_allowed(q: Seq<String>, idx: int, current: Option<String>) -> bool {
    (q.len() > 2 && current is Some && has_match(q, current->0@)) ==> idx < q.len()
}

/// The ids of a queue, read as text.
pub open spec fn id_texts(q: Seq<String>) -> Seq<Seq<char>> {
    q.map_values(|s: String| s@)
}

/// A match at `w` implies a first match.
proof fn lemma_first_match_below(q: Seq<String>, v: Seq<char>, w: int)
    requires
        0 <= w < q.len(),
        q[w]@ == v,
    ensures
        exists|p: int| is_first_match(q, v, p),
    decreases w,
{
    if forall|k: int| 0 <= k < w ==> q[k]@ != v {
        assert(is_first_match(q, v, w));
    } else {
        let k = choose|k: int| 0 <= k < w && q[k]@ == v;
        lemma_first_match_below(q, v, k);
    }
}

/// A first match exists exactly when some id matches.
pub proof fn lemma_first_match(q: Seq<String>, v: Seq<char>)
    ensures
        first_match(q, v) is Some <==> has_match(q, v),
        first_match(q, v) matches Some(p) ==> is_first_match(q, v, p),
        forall|p: int| is_first_match(q, v, p) ==> first_match(q, v) == Some(p),
{
    if has_match(q, v) {
        let w = choose|p: int| 0 <= p < q.len() && q[p]@ == v;
        lemma_first_match_below(q, v, w);
    }
    assert forall|p: int| is_first_match(q, v, p) implies first_match(q, v) == Some(p) by {
        let c = choose|p: int| is_first_match(q, v, p);
        assert(is_first_match(q, v, c));
        if c < p {
            assert(q[c]@ != v);
        } else if p < c {
            assert(q[p]@ != v);
        }
    }
}

/// Swapping two positions keeps the same tracks.
pub proof fn lemma_swap_multiset<A>(s: Seq<A>, i: int, j: int)
    requires
        0 <= i < s.len(),
        0 <= j < s.len(),
    ensures
        swap_seq(s, i, j).to_multiset() == s.to_multiset(),
        swap_seq(s, i, j).len() == s.len(),
{
    broadcast use vstd::seq_lib::group_to_multiset_ensures;
    broadcast use vstd::multiset::group_multiset_axioms;

    let a = s[i];
    let b = s[j];
    let s1 = s.update(i, b);
    assert(s1.to_multiset() == s.to_multiset().insert(b).remove(a));
    if i == j {
        assert(swap_seq(s, i, j) =~= s);
    } else {
        assert(s1[j] == b);
        assert(s1.update(j, a).to_multiset() == s1.to_multiset().insert(a).remove(b));
        assert(s.to_multiset().insert(b).remove(a).insert(a).remove(b) =~= s.to_multiset());
    }
}

/// Fisher–Yates only permutes the queue.
pub proof fn lemma_fisher_yates_multiset<A>(s: Seq<A>, seed: u64, i: nat)
    requires
        i < s.len(),
    ensures
        fisher_yates(s, seed, i).to_multiset() == s.to_multiset(),
        fisher_yates(s, seed, i).len() == s.len(),
    decreases i,
{
    if i > 0 {
        let next = lcg_step(seed);
        let j = (next >> 33u64) as int % (i + 1) as int;
        lemma_swap_multiset(s, i as int, j);
        lemma_fisher_yates_multiset(swap_seq(s, i as int, j), next, (i - 1) as nat);
    }
}

/// Shuffling permutes the queue and, when the current track is in it, leaves
/// the current track at `idx`.
pub proof fn lemma_shuffle_keeps_members(q: Seq<String>, idx: int, current: Option<String>, seed: u64)
    requires
        shuffle_allowed(q, idx, current),
        0 <= idx,
    ensures
        shuffled(q, idx, current, seed).to_multiset() == q.to_multiset(),
        shuffled(q, idx, current, seed).len() == q.len(),
        (q.len() > 2 && current is Some && has_match(q, current->0@)) ==> shuffled(q, idx, current, seed)[idx]@
            == current->0@,
{
    broadcast use vstd::seq_lib::group_to_multiset_ensures;

    if q.len() > 2 {
        let f = fisher_yates(q, seed, (q.len() - 1) as nat);
        lemma_fisher_yates_multiset(q, seed, (q.len() - 1) as nat);
        if let Some(c) = current {
            lemma_first_match(f, c@);
            if has_match(q, c@) {
                let w = choose|p: int| 0 <= p < q.len() && q[p]@ == c@;
                assert(q.to_multiset().count(q[w]) > 0);
                assert(f.to_multiset().count(q[w]) > 0);
                assert(f.contains(q[w]));
                let k = choose|k: int| 0 <= k < f.len() && f[k] == q[w];
                assert(has_match(f, c@));
            }
            if let Some(p) = first_match(f, c@) {
                if p != idx {
                    lemma_first_match(q, c@);
                    // has_match(f) implies has_match(q) since the multisets agree
                    assert(f.to_multiset().count(f[p]) > 0);
                    assert(q.to_multiset().count(f[p]) > 0);
                    assert(q.contains(f[p]));
                    let k = choose|k: int| 0 <= k < q.len() && q[k] == f[p];
                    assert(has_match(q, c@));
                    lemma_swap_multiset(f, p, idx);
                }
            }
        }
    }
}

/// Reads the next generator value and returns the drawn position in `0..=i`.
fn draw(seed: u64, i: usize) -> (r: (u64, usize))
    requires
        i < usize::MAX,
    ensures
        r.0 == lcg_step(seed),
        r.1 as int == (lcg_step(seed) >> 33u64) as int % (i + 1) as int,
        r.1 <= i,
{
    let next = seed.wrapping_mul(LCG_MUL).wrapping_add(LCG_INC);
    let high = next >> 33u64;
    assert(high < 0x8000_0000u64) by (bit_vector)
        requires
            high == next >> 33u64,
    ;
    let j = (high as usize) % (i + 1);
    (next, j)
}

/// The position of the first id in `q` that reads like `id`.
pub fn position_of(q: &Vec<String>, id: &String) -> (r: Option<usize>)
    ensures
        match r {
            Some(p) => is_first_match(q@, id@, p as int),
            None => !has_match(q@, id@),
        },
{
    let mut i: usize = 0;
    while i < q.len()
        invariant
            i <= q.len(),
            forall|k: int| 0 <= k < i ==> q@[k]@ != id@,
        decreases q.len() - i,
    {
        if q[i] == *id {
            return Some(i);
        }
        i = i + 1;
    }
    None
}

/// Exchanges two queue positions.
pub fn swap_positions(q: &mut Vec<String>, i: usize, j: usize)
    requires
        i < old(q).len(),
        j < old(q).len(),
    ensures
        final(q)@ == swap_seq(old(q)@, i as int, j as int),
{
    let a = q[i].clone();
    let b = q[j].clone();
    q.set(i, b);
    q.set(j, a);
}

/// Shuffles `queue` with the given generator seed (Fisher–Yates from the back),
/// then moves the first occurrence of `current` back to position `idx`.
/// Queues of at most two tracks are left unchanged.
pub fn shuffle_with_seed(queue: &mut Vec<String>, idx: usize, current: &Option<String>, seed: u64)
    requires
        shuffle_allowed(old(queue)@, idx as int, *current),
    ensures
        final(queue)@ == shuffled(old(queue)@, idx as int, *current, seed),
{
    let len = queue.len();
    if len <= 2 {
        return;
    }
    let ghost start = queue@;
    let mut s = seed;
    let mut i = len - 1;
    while i > 0
        invariant
            i < len,
            queue@.len() == len,
            fisher_yates(queue@, s, i as nat) == fisher_yates(start, seed, (len - 1) as nat),
        decreases i,
    {
        let (next, j) = draw(s, i);
        swap_positions(queue, i, j);
        s = next;
        i = i - 1;
    }
    let ghost f = queue@;
    assert(f == fisher_yates(start, seed, (len - 1) as nat));
    proof {
        lemma_fisher_yates_multiset(start, seed, (len - 1) as nat);
    }
    match current {
        Some(c) => {
            let found = position_of(queue, c);
            proof {
                lemma_first_match(f, c@);
            }
            match found {
                Some(pos) => {
                    if pos != idx {
                        proof {
                            broadcast use vstd::seq_lib::group_to_multiset_ensures;
                            assert(f.to_multiset().count(f[pos as int]) > 0);
                            assert(start.to_multiset().count(f[pos as int]) > 0);
                            assert(start.contains(f[pos as int]));
                            let k = choose|k: int| 0 <= k < start.len() && start[k] == f[pos as int];
                            assert(has_match(start, c@));
                        }
                        swap_positions(queue, pos, idx);
                    }
                },
                None => {},
            }
        },
        None => {},
    }
}

} // verus!

//! The windowed selector and the freshness of its selection.
//!
//! Time is absolute Unix time in whole seconds: window `k` of an interval of
//! `n` seconds covers the seconds `k * n` up to, not including, `(k + 1) * n`.
//! The record of a window is drawn by a ChaCha generator with 8 rounds that
//! is seeded with the window's index and nothing else, so every instance
//! that holds the same catalog answers alike.
use crate::bird::Bird;
use rand::seq::IteratorRandom;
use rand_chacha::rand_core::SeedableRng;
use rand_chacha::ChaCha8Rng;
use vstd::prelude::*;

verus! {

/// The index of the window that the second `now` falls into.
pub open spec fn window_of(now: u64, interval: u64) -> u64
    recommends
        interval > 0,
{
    (now / interval) as u64
}

/// The seconds from `now` to the start of the next window.
pub open spec fn remaining_of(now: u64, interval: u64) -> u64
    recommends
        interval > 0,
{
    (interval - now % interval) as u64
}

/// The index of the window that the second `now` falls into.
pub fn window_index(now: u64, interval: u64) -> (r: u64)
    requires
        interval > 0,
    ensures
        r == window_of(now, interval),
        r as int * interval as int <= now as int,
        (now as int) < (r as int + 1) * interval as int,
{
    proof {
        vstd::arithmetic::div_mod::lemma_fundamental_div_mod(now as int, interval as int);
        vstd::arithmetic::div_mod::lemma_mod_bound(now as int, interval as int);
        assert((now as int / interval as int + 1) * interval as int == (now as int / interval as int) * interval as int
            + interval as int) by (nonlinear_arith);
        assert((now as int / interval as int) * interval as int == interval as int * (now as int / interval as int)) by (nonlinear_arith);
    }
    now / interval
}

/// The seconds for which the selection made at `now` stays current: the
/// distance from `now` to the next window's first second.
pub fn remaining(now: u64, interval: u64) -> (r: u64)
    requires
        interval > 0,
    ensures
        r == remaining_of(now, interval),
        0 < r <= interval,
        (now as int + r as int) % (interval as int) == 0,
        window_of(now, interval) as int * interval as int + interval as int == now as int + r as int,
{
    proof {
        vstd::arithmetic::div_mod::lemma_fundamental_div_mod(now as int, interval as int);
        vstd::arithmetic::div_mod::lemma_mod_bound(now as int, interval as int);
        let q = now as int / interval as int;
        assert(interval as int * q + interval as int == (q + 1) * interval as int) by (nonlinear_arith);
        assert(interval as int * q == q * interval as int) by (nonlinear_arith);
        vstd::arithmetic::div_mod::lemma_mod_multiples_basic(q + 1, interval as int);
    }
    interval - now % interval
}

/// What the generator seeded with `seed` picks out of `n` items: the position
/// of the pick, or nothing where there is no item.
pub uninterp spec fn seeded_choice(seed: u64, n: usize) -> Option<usize>;

/// Seeds a `ChaCha8Rng` by `SeedableRng::seed_from_u64` and lets
/// `IteratorRandom::choose` draw from the positions `0..n`.
///
/// Trusted: the draw depends on `seed` and `n` alone; it is nothing for
/// `n == 0` and a position below `n` otherwise.
#[verifier::external_body]
fn choose_seeded(seed: u64, n: usize) -> (r: Option<usize>)
    ensures
        r == seeded_choice(seed, n),
        r is Some <==> n > 0,
        r is Some ==> r->0 < n,
{
    let mut rng = ChaCha8Rng::seed_from_u64(seed);
    (0..n).choose(&mut rng)
}

/// The views of a list of texts.
pub open spec fn texts(v: Seq<String>) -> Seq<Seq<char>> {
    Seq::new(v.len(), |i: int| v[i]@)
}

/// Whether a record of category `set` passes the filter `allow`: an empty
/// filter lets every record pass.
pub open spec fn eligible(set: Seq<char>, allow: Seq<Seq<char>>) -> bool {
    allow.len() == 0 || allow.contains(set)
}

/// The positions in `pool` of the records that pass `allow`, in rising order.
pub open spec fn candidates_of(pool: Seq<Bird>, allow: Seq<Seq<char>>) -> Seq<usize>
    decreases pool.len(),
{
    if pool.len() == 0 {
        Seq::empty()
    } else {
        let before = candidates_of(pool.drop_last(), allow);
        if eligible(pool.last().master.set@, allow) {
            before.push((pool.len() - 1) as usize)
        } else {
            before
        }
    }
}

/// The position that the draw `choice` among `candidates` stands for in a
/// pool of `size` records: that of the drawn candidate, or none where
/// nothing was drawn, the draw lies beyond the candidates or the candidate
/// beyond the pool.
pub open spec fn resolved(candidates: Seq<usize>, choice: Option<usize>, size: nat) -> Option<usize> {
    match choice {
        Some(k) => if k < candidates.len() && candidates[k as int] < size {
            Some(candidates[k as int])
        } else {
            None
        },
        None => None,
    }
}

/// The position in `pool` of the record of window `window` under the filter
/// `allow`.
pub open spec fn selection(window: u64, pool: Seq<Bird>, allow: Seq<Seq<char>>) -> Option<usize> {
    let candidates = candidates_of(pool, allow);
    resolved(candidates, seeded_choice(window, candidates.len() as usize), pool.len())
}

/// Every candidate is a position in the pool whose record passes the filter,
/// every such position is a candidate, and the candidates rise strictly.
pub proof fn candidates_are_the_eligible(pool: Seq<Bird>, allow: Seq<Seq<char>>)
    requires
        pool.len() <= usize::MAX,
    ensures
        candidates_of(pool, allow).len() <= pool.len(),
        forall|k: int|
            0 <= k < candidates_of(pool, allow).len() ==> {
                &&& (#[trigger] candidates_of(pool, allow)[k]) < pool.len()
                &&& eligible(pool[candidates_of(pool, allow)[k] as int].master.set@, allow)
            },
        forall|j: int, k: int|
            0 <= j < k < candidates_of(pool, allow).len() ==> candidates_of(pool, allow)[j]
                < candidates_of(pool, allow)[k],
        forall|i: int|
            0 <= i < pool.len() && eligible(#[trigger] pool[i].master.set@, allow)
                ==> candidates_of(pool, allow).contains(i as usize),
    decreases pool.len(),
{
    if pool.len() > 0 {
        let head = pool.drop_last();
        candidates_are_the_eligible(head, allow);
        let before = candidates_of(head, allow);
        let all = candidates_of(pool, allow);
        let last = (pool.len() - 1) as usize;
        assert forall|i: int|
            0 <= i < pool.len() && eligible(#[trigger] pool[i].master.set@, allow) implies all.contains(
            i as usize,
        ) by {
            if i < pool.len() - 1 {
                assert(head[i] == pool[i]);
                assert(before.contains(i as usize));
                let k = choose|k: int| 0 <= k < before.len() && before[k] == i as usize;
                assert(all[k] == i as usize);
            } else {
                assert(all[all.len() - 1] == last);
            }
        }
        assert forall|k: int| 0 <= k < all.len() implies {
            &&& (#[trigger] all[k]) < pool.len()
            &&& eligible(pool[all[k] as int].master.set@, allow)
        } by {
            if k < before.len() {
                assert(all[k] == before[k]);
                assert(head[before[k] as int] == pool[before[k] as int]);
            }
        }
    }
}

/// The selection reads nothing of a record but its category: two pools of
/// one length whose records carry the same categories, position by position,
/// give the same selection in every window and under every filter. Two loads
/// of the same data therefore agree.
pub proof fn selection_is_deterministic(
    window: u64,
    pool_a: Seq<Bird>,
    pool_b: Seq<Bird>,
    allow: Seq<Seq<char>>,
)
    requires
        pool_a.len() == pool_b.len(),
        forall|i: int| 0 <= i < pool_a.len() ==> pool_a[i].master.set@ == pool_b[i].master.set@,
    ensures
        candidates_of(pool_a, allow) == candidates_of(pool_b, allow),
        selection(window, pool_a, allow) == selection(window, pool_b, allow),
    decreases pool_a.len(),
{
    if pool_a.len() > 0 {
        selection_is_deterministic(window, pool_a.drop_last(), pool_b.drop_last(), allow);
    }
}

/// Two instants of one window select alike.
pub proof fn same_window_same_selection(
    now_a: u64,
    now_b: u64,
    interval: u64,
    pool: Seq<Bird>,
    allow: Seq<Seq<char>>,
)
    requires
        interval > 0,
        window_of(now_a, interval) == window_of(now_b, interval),
    ensures
        selection(window_of(now_a, interval), pool, allow) == selection(
            window_of(now_b, interval),
            pool,
            allow,
        ),
{
}

/// From a window's first second `start`, every instant less than one interval
/// later lies in the same window, and an instant a whole interval or more
/// after any `start` lies in a later one.
pub proof fn window_boundary(start: u64, later: u64, interval: u64)
    requires
        interval > 0,
        start <= later,
    ensures
        start % interval == 0 && later - start < interval ==> window_of(later, interval)
            == window_of(start, interval),
        later - start >= interval ==> window_of(later, interval) > window_of(start, interval),
{
    let s = start as int;
    let l = later as int;
    let n = interval as int;
    vstd::arithmetic::div_mod::lemma_fundamental_div_mod(s, n);
    vstd::arithmetic::div_mod::lemma_fundamental_div_mod(l, n);
    vstd::arithmetic::div_mod::lemma_mod_bound(s, n);
    vstd::arithmetic::div_mod::lemma_mod_bound(l, n);
    vstd::arithmetic::div_mod::lemma_div_pos_is_pos(s, n);
    vstd::arithmetic::div_mod::lemma_div_pos_is_pos(l, n);
    vstd::arithmetic::div_mod::lemma_div_is_ordered(s, l, n);
    let qs = s / n;
    let ql = l / n;
    assert(qs <= ql);
    assert(ql <= l) by {
        vstd::arithmetic::div_mod::lemma_div_is_ordered_by_denominator(l, 1, n);
    }
    if s % n == 0 && l - s < n {
        if ql > qs {
            assert(n * ql >= n * (qs + 1)) by (nonlinear_arith)
                requires
                    ql >= qs + 1,
                    n > 0,
            ;
            assert(n * (qs + 1) == n * qs + n) by (nonlinear_arith);
        }
    }
    if l - s >= n {
        if ql == qs {
            assert(l - s == l % n - s % n);
        }
    }
}

/// Whatever is drawn among the candidates, the record it stands for lies in
/// the pool and passes the filter; so every selection does, in every window.
pub proof fn every_draw_passes_the_filter(pool: Seq<Bird>, allow: Seq<Seq<char>>, choice: Option<usize>)
    requires
        pool.len() <= usize::MAX,
    ensures
        resolved(candidates_of(pool, allow), choice, pool.len()) is Some ==> {
            let at = resolved(candidates_of(pool, allow), choice, pool.len())->0;
            at < pool.len() && eligible(pool[at as int].master.set@, allow)
        },
        choice is Some && choice->0 < candidates_of(pool, allow).len() ==> resolved(
            candidates_of(pool, allow),
            choice,
            pool.len(),
        ) is Some,
{
    candidates_are_the_eligible(pool, allow);
}

/// Under the empty filter every record of the pool is a candidate.
pub proof fn empty_filter_admits_all(pool: Seq<Bird>)
    requires
        pool.len() <= usize::MAX,
    ensures
        candidates_of(pool, Seq::empty()) == Seq::new(pool.len(), |i: int| i as usize),
    decreases pool.len(),
{
    if pool.len() > 0 {
        empty_filter_admits_all(pool.drop_last());
    }
    assert(candidates_of(pool, Seq::empty()) =~= Seq::new(pool.len(), |i: int| i as usize));
}

/// The freshness lies above zero and at most at the interval, falls second by
/// second while `now` moves on within a window, and is the whole interval
/// again at a window's first second.
pub proof fn freshness_is_monotone(now: u64, later: u64, interval: u64)
    requires
        interval > 0,
        now <= later,
    ensures
        0 < remaining_of(now, interval) <= interval,
        window_of(now, interval) == window_of(later, interval) ==> remaining_of(now, interval)
            - remaining_of(later, interval) == later - now,
        now % interval == 0 ==> remaining_of(now, interval) == interval,
{
    let s = now as int;
    let l = later as int;
    let n = interval as int;
    vstd::arithmetic::div_mod::lemma_fundamental_div_mod(s, n);
    vstd::arithmetic::div_mod::lemma_fundamental_div_mod(l, n);
    vstd::arithmetic::div_mod::lemma_mod_bound(s, n);
    vstd::arithmetic::div_mod::lemma_mod_bound(l, n);
    vstd::arithmetic::div_mod::lemma_div_pos_is_pos(s, n);
    vstd::arithmetic::div_mod::lemma_div_pos_is_pos(l, n);
    assert(s / n <= s) by {
        vstd::arithmetic::div_mod::lemma_div_is_ordered_by_denominator(s, 1, n);
    }
    assert(l / n <= l) by {
        vstd::arithmetic::div_mod::lemma_div_is_ordered_by_denominator(l, 1, n);
    }
}

/// Whether `set` passes the filter `allow`.
pub fn passes(set: &String, allow: &Vec<String>) -> (r: bool)
    ensures
        r == eligible(set@, texts(allow@)),
{
    if allow.len() == 0 {
        return true;
    }
    let mut i: usize = 0;
    while i < allow.len()
        invariant
            i <= allow.len(),
            allow.len() > 0,
            forall|j: int| 0 <= j < i ==> texts(allow@)[j] != set@,
        decreases allow.len() - i,
    {
        if allow[i] == *set {
            assert(texts(allow@)[i as int] == set@);
            return true;
        }
        i += 1;
    }
    false
}

/// The positions in `pool` of the records that pass `allow`, in rising order.
pub fn candidates(pool: &Vec<Bird>, allow: &Vec<String>) -> (r: Vec<usize>)
    ensures
        r@ == candidates_of(pool@, texts(allow@)),
{
    let mut out: Vec<usize> = Vec::new();
    let mut i: usize = 0;
    while i < pool.len()
        invariant
            i <= pool.len(),
            out@ == candidates_of(pool@.take(i as int), texts(allow@)),
        decreases pool.len() - i,
    {
        proof {
            let next = pool@.take(i + 1);
            assert(next.drop_last() =~= pool@.take(i as int));
            assert(next.last() == pool@[i as int]);
        }
        if passes(&pool[i].master.set, allow) {
            out.push(i);
        }
        i += 1;
    }
    assert(pool@.take(pool.len() as int) =~= pool@);
    out
}

/// Turns a draw among the candidates into the record it stands for: the
/// record at the drawn candidate's position, or none where nothing was
/// drawn, the draw lies beyond the candidates or the candidate beyond the
/// pool.
pub fn pick<'a>(pool: &'a Vec<Bird>, candidates: &Vec<usize>, choice: Option<usize>) -> (r: Option<&'a Bird>)
    ensures
        match r {
            Some(b) => {
                let at = resolved(candidates@, choice, pool@.len());
                at is Some && at->0 < pool.len() && *b == pool[at->0 as int]
            },
            None => resolved(candidates@, choice, pool@.len()) is None,
        },
{
    match choice {
        Some(k) => {
            if k < candidates.len() && candidates[k] < pool.len() {
                Some(&pool[candidates[k]])
            } else {
                None
            }
        },
        None => None,
    }
}

/// The record of the window that `now` falls into, among the records of
/// `pool` that pass `allow`.
///
/// The result is the record at `selection(..)`, so it depends on the window,
/// the pool and the filter alone. There is a record exactly when some record
/// of the pool passes the filter, and the record passes it.
pub fn select<'a>(now: u64, interval: u64, pool: &'a Vec<Bird>, allow: &Vec<String>) -> (r: Option<
    &'a Bird,
>)
    requires
        interval > 0,
    ensures
        match r {
            Some(b) => {
                let at = selection(window_of(now, interval), pool@, texts(allow@));
                &&& at is Some
                &&& at->0 < pool.len()
                &&& *b == pool[at->0 as int]
                &&& eligible(b.master.set@, texts(allow@))
            },
            None => selection(window_of(now, interval), pool@, texts(allow@)) is None,
        },
        r is Some <==> exists|i: int|
            0 <= i < pool.len() && eligible(#[trigger] pool[i].master.set@, texts(allow@)),
{
    let window = window_index(now, interval);
    let found = candidates(pool, allow);
    let total = pool.len();
    proof {
        assert(pool@.len() == total);
        candidates_are_the_eligible(pool@, texts(allow@));
        if found.len() > 0 {
            assert(found@[0] < pool.len());
        }
        if exists|i: int|
            0 <= i < pool.len() && eligible(#[trigger] pool[i].master.set@, texts(allow@)) {
            let i = choose|i: int|
                0 <= i < pool.len() && eligible(#[trigger] pool[i].master.set@, texts(allow@));
            assert(found@.contains(i as usize));
        }
    }
    let choice = choose_seeded(window, found.len());
    pick(pool, &found, choice)
}

} // verus!

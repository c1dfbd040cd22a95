//! Deterministic, seed-controlled sampling. The pseudo-random algorithm is
//! fixed once: a 64-bit linear congruential generator folded from the
//! 128-bit seed drives a partial in-place shuffle, and the sample is the
//! shuffled prefix. For a fixed population, count, and seed, the output —
//! elements and order — is the same on every run.

use vstd::prelude::*;

verus! {

pub const LCG_MULTIPLIER: u64 = 6364136223846793005;

pub const LCG_INCREMENT: u64 = 1442695040888963407;

/// One step of the fixed linear congruential generator, modulo 2^64.
pub open spec fn spec_lcg_next(state: u64) -> u64 {
    ((state * LCG_MULTIPLIER + LCG_INCREMENT) % 0x1_0000_0000_0000_0000) as u64
}

/// The generator state a 128-bit seed starts from: the sum of its two
/// 64-bit halves, modulo 2^64.
pub open spec fn spec_seed_state(seed: u128) -> u64 {
    ((seed % 0x1_0000_0000_0000_0000 + seed / 0x1_0000_0000_0000_0000)
        % 0x1_0000_0000_0000_0000) as u64
}

/// Advances the generator.
pub fn lcg_next(state: u64) -> (next: u64)
    ensures
        next == spec_lcg_next(state),
{
    proof {
        assert((state as int) * (LCG_MULTIPLIER as int) + (LCG_INCREMENT as int)
            <= 0xffff_ffff_ffff_ffff * 0xffff_ffff_ffff_ffff + 0xffff_ffff_ffff_ffff)
            by (nonlinear_arith)
            requires
                state <= 0xffff_ffff_ffff_ffff,
        ;
    }
    let wide: u128 = (state as u128) * (LCG_MULTIPLIER as u128) + (LCG_INCREMENT as u128);
    (wide % 0x1_0000_0000_0000_0000u128) as u64
}

/// Folds a 128-bit seed into the initial generator state.
pub fn seed_state(seed: u128) -> (state: u64)
    ensures
        state == spec_seed_state(seed),
{
    let lo = seed % 0x1_0000_0000_0000_0000u128;
    let hi = seed / 0x1_0000_0000_0000_0000u128;
    ((lo + hi) % 0x1_0000_0000_0000_0000u128) as u64
}

/// One shuffle step: swap position `i` with a generator-chosen position in
/// `[i, len)`.
pub open spec fn spec_shuffle_step(ids: Seq<usize>, state: u64, i: int) -> Seq<usize> {
    let j = i + spec_lcg_next(state) as int % (ids.len() - i);
    ids.update(i, ids[j]).update(j, ids[i])
}

/// The partial shuffle: steps `i, i+1, ..., k-1`, each advancing the
/// generator once.
pub open spec fn spec_shuffle(ids: Seq<usize>, state: u64, i: int, k: int) -> Seq<usize>
    decreases k - i,
{
    if i < 0 || k > ids.len() || i >= k {
        ids
    } else {
        spec_shuffle(spec_shuffle_step(ids, state, i), spec_lcg_next(state), i + 1, k)
    }
}

/// How many elements a sample takes: the requested count, capped by the
/// population size.
pub open spec fn spec_sample_count(count: int, n: int) -> int {
    if count <= n {
        count
    } else {
        n
    }
}

/// The index sequence `0, 1, ..., n - 1`.
pub open spec fn spec_identity_indices(n: nat) -> Seq<usize> {
    Seq::new(n, |t: int| t as usize)
}

/// The sample of a population: the first `min(count, len)` positions of the
/// partially shuffled index sequence, mapped back into the population.
pub open spec fn spec_sample_urls(urls: Seq<String>, count: int, seed: u128) -> Seq<String> {
    let n = urls.len() as int;
    let k = spec_sample_count(count, n);
    let ids = spec_shuffle(spec_identity_indices(n as nat), spec_seed_state(seed), 0, k);
    Seq::new(k as nat, |t: int| urls[ids[t] as int])
}

proof fn lemma_shuffle_step_multiset(ids: Seq<usize>, state: u64, i: int)
    requires
        0 <= i < ids.len(),
    ensures
        spec_shuffle_step(ids, state, i).to_multiset() == ids.to_multiset(),
{
    broadcast use vstd::seq_lib::group_to_multiset_ensures;
    broadcast use vstd::seq_lib::to_multiset_update;
    broadcast use vstd::multiset::group_multiset_axioms;
    broadcast use vstd::multiset::group_multiset_properties;

    let j = i + spec_lcg_next(state) as int % (ids.len() - i);
    assert(i <= j < ids.len());
    if i == j {
        assert(spec_shuffle_step(ids, state, i) =~= ids);
    } else {
        let once = ids.update(i, ids[j]);
        assert(ids.contains(ids[i]));
        assert(ids.contains(ids[j]));
        assert(once[j] == ids[j]);
        assert(spec_shuffle_step(ids, state, i).to_multiset() =~= ids.to_multiset());
    }
}

proof fn lemma_shuffle_multiset(ids: Seq<usize>, state: u64, i: int, k: int)
    ensures
        spec_shuffle(ids, state, i, k).to_multiset() == ids.to_multiset(),
    decreases k - i,
{
    if i < 0 || k > ids.len() || i >= k {
    } else {
        lemma_shuffle_step_multiset(ids, state, i);
        lemma_shuffle_multiset(spec_shuffle_step(ids, state, i), spec_lcg_next(state), i + 1, k);
    }
}

proof fn lemma_index_permutation_multiset(s: Seq<String>, p: Seq<usize>)
    requires
        s.len() <= usize::MAX,
        p.to_multiset() == spec_identity_indices(s.len()).to_multiset(),
    ensures
        Seq::new(p.len(), |t: int| s[p[t] as int]).to_multiset() == s.to_multiset(),
    decreases s.len(),
{
    broadcast use vstd::seq_lib::group_to_multiset_ensures;
    broadcast use vstd::multiset::group_multiset_axioms;
    broadcast use vstd::multiset::group_multiset_properties;

    let n = s.len() as int;
    let identity = spec_identity_indices(s.len());
    assert(p.len() == n) by {
        assert(p.to_multiset().len() == identity.to_multiset().len());
    }
    if s.len() == 0 {
        assert(Seq::new(p.len(), |t: int| s[p[t] as int]) =~= Seq::<String>::empty());
        assert(s =~= Seq::<String>::empty());
    } else {
        let last_index = (n - 1) as usize;
        let shorter_identity = spec_identity_indices((s.len() - 1) as nat);
        assert(identity =~= shorter_identity.push(last_index));
        assert(identity.to_multiset() == shorter_identity.to_multiset().insert(last_index));
        assert(identity.contains(last_index)) by {
            assert(identity[n - 1] == last_index);
        }
        assert(p.to_multiset().count(last_index) > 0);
        assert(p.contains(last_index));
        let w = choose|w: int| 0 <= w < p.len() && p[w] == last_index;
        let p_rest = p.remove(w);
        assert(p_rest.to_multiset() == p.to_multiset().remove(last_index));
        assert(p_rest.to_multiset() =~= shorter_identity.to_multiset());
        assert forall|t: int| 0 <= t < p_rest.len() implies p_rest[t] < n - 1 by {
            assert(p_rest.contains(p_rest[t]));
            assert(shorter_identity.to_multiset().count(p_rest[t]) > 0);
            assert(shorter_identity.contains(p_rest[t]));
            let v = choose|v: int| 0 <= v < shorter_identity.len() && shorter_identity[v]
                == p_rest[t];
            assert(shorter_identity[v] == v as usize);
        }
        let mapped = Seq::new(p.len(), |t: int| s[p[t] as int]);
        let mapped_rest = Seq::new(p_rest.len(), |t: int| s.drop_last()[p_rest[t] as int]);
        assert(mapped.remove(w) =~= mapped_rest);
        lemma_index_permutation_multiset(s.drop_last(), p_rest);
        assert(mapped.remove(w).to_multiset() == mapped.to_multiset().remove(mapped[w]));
        assert(mapped[w] == s[n - 1]);
        assert(mapped.contains(mapped[w]));
        assert(mapped.to_multiset() =~= mapped_rest.to_multiset().insert(s[n - 1]));
        assert(s =~= s.drop_last().push(s.last()));
        assert(s.to_multiset() == s.drop_last().to_multiset().insert(s.last()));
    }
}

fn identity_indices(n: usize) -> (ids: Vec<usize>)
    ensures
        ids@.len() == n,
        forall|k: int| 0 <= k < n ==> ids@[k] == k,
{
    let mut ids: Vec<usize> = Vec::new();
    let mut i: usize = 0;
    while i < n
        invariant
            i <= n,
            ids@.len() == i,
            forall|k: int| 0 <= k < i ==> ids@[k] == k,
        decreases n - i,
    {
        ids.push(i);
        i = i + 1;
    }
    ids
}

/// Draws a deterministic sample of `count` URLs from the population. If
/// `count` is not below the population size, the whole population comes
/// back, in a seed-dependent but deterministic order.
pub fn sample_urls(urls: &Vec<String>, count: usize, seed: u128) -> (r: Vec<String>)
    ensures
        r@ == spec_sample_urls(urls@, count as int, seed),
        r@.len() == spec_sample_count(count as int, urls@.len() as int),
        forall|t: int| 0 <= t < r@.len() ==> urls@.contains(r@[t]),
        count >= urls@.len() ==> r@.to_multiset() == urls@.to_multiset(),
{
    let n = urls.len();
    let k = if count <= n {
        count
    } else {
        n
    };
    let mut ids = identity_indices(n);
    let mut state = seed_state(seed);
    let ghost ids0 = ids@;
    let ghost state0 = state;
    let mut i: usize = 0;
    while i < k
        invariant
            k <= n,
            n == urls@.len(),
            i <= k,
            ids@.len() == n,
            forall|m: int| 0 <= m < n ==> ids@[m] < n,
            spec_shuffle(ids0, state0, 0, k as int) == spec_shuffle(ids@, state, i as int, k as int),
        decreases k - i,
    {
        let ghost ids_prev = ids@;
        let ghost state_prev = state;
        let next = lcg_next(state);
        let span = (n - i) as u64;
        let off = next % span;
        let j = i + off as usize;
        let vi = ids[i];
        let vj = ids[j];
        ids[i] = vj;
        ids[j] = vi;
        proof {
            assert(ids@ =~= spec_shuffle_step(ids_prev, state_prev, i as int));
        }
        state = next;
        i = i + 1;
    }
    let ghost final_ids = ids@;
    proof {
        assert(spec_shuffle(final_ids, state, k as int, k as int) == final_ids);
    }
    let mut r: Vec<String> = Vec::new();
    let mut t: usize = 0;
    while t < k
        invariant
            t <= k,
            k <= n,
            n == urls@.len(),
            ids@ == final_ids,
            ids@.len() == n,
            forall|m: int| 0 <= m < n ==> ids@[m] < n,
            r@.len() == t,
            forall|m: int| 0 <= m < t ==> r@[m] == urls@[final_ids[m] as int],
        decreases k - t,
    {
        let idx = ids[t];
        r.push(urls[idx].clone());
        t = t + 1;
    }
    proof {
        assert(ids0 =~= spec_identity_indices(n as nat));
        assert(r@ =~= spec_sample_urls(urls@, count as int, seed));
        assert forall|m: int| 0 <= m < r@.len() implies urls@.contains(r@[m]) by {
            assert(r@[m] == urls@[final_ids[m] as int]);
        }
        if count >= n {
            lemma_shuffle_multiset(ids0, state0, 0, k as int);
            lemma_index_permutation_multiset(urls@, final_ids);
            assert(r@ =~= Seq::new(final_ids.len(), |t: int| urls@[final_ids[t] as int]));
        }
    }
    r
}

/// Determinism of sampling: two draws from the same population with the
/// same count and the same seed are identical — the same elements in the
/// same order.
pub proof fn lemma_sample_deterministic(
    urls: Seq<String>,
    count: int,
    seed: u128,
    r1: Seq<String>,
    r2: Seq<String>,
)
    requires
        r1 == spec_sample_urls(urls, count, seed),
        r2 == spec_sample_urls(urls, count, seed),
    ensures
        r1 == r2,
{
}

} // verus!

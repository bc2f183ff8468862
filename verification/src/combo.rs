//! Bookkeeping of the combo kill-chance simulation: its configuration, the
//! target health model, and the cumulative kill counts of the sampled paths.

use vstd::prelude::*;
use crate::config::HostilepileConfig;

verus! {

/// Number of sampled paths of the kill-chance simulation by default.
pub const DEFAULT_SAMPLES: u32 = 50000;

/// Configuration of the kill-chance simulation.
#[derive(Debug, Clone, Copy)]
pub struct ComboConfig {
    /// Number of sampled paths.
    pub samples: u32,
    /// Fixed seed for reproducible runs; none for a seed from the system.
    pub seed: Option<u64>,
}

impl Default for ComboConfig {
    fn default() -> (r: Self)
        ensures
            r.samples == DEFAULT_SAMPLES,
            r.seed is None,
    {
        ComboConfig { samples: DEFAULT_SAMPLES, seed: None }
    }
}

impl ComboConfig {
    /// The number of paths actually sampled: at least one.
    pub fn effective_samples(&self) -> (r: u32)
        ensures
            r == (if self.samples == 0 { 1 } else { self.samples }),
            r >= 1,
    {
        if self.samples == 0 { 1 } else { self.samples }
    }
}

/// The health model of the target as (starting health, maximum health):
/// with a maximum health, the current health when it is given and not above
/// the maximum, else the maximum; otherwise full target health; none when no
/// health is given (no health tracking, every step kills).
pub open spec fn hp_model(h: HostilepileConfig) -> Option<(u32, u32)> {
    if h.max_hp > 0 {
        if h.current_hp > 0 && h.current_hp <= h.max_hp {
            Some((h.current_hp, h.max_hp))
        } else {
            Some((h.max_hp, h.max_hp))
        }
    } else if h.target_hp > 0 {
        Some((h.target_hp, h.target_hp))
    } else {
        None
    }
}

/// The health model of the target (see `hp_model`).
pub fn hp_preset(hostile: &HostilepileConfig) -> (r: Option<(u32, u32)>)
    ensures
        r == hp_model(*hostile),
        r matches Some((cur, max)) ==> 0 < cur <= max,
{
    if hostile.max_hp > 0 {
        let cur = if hostile.current_hp > 0 && hostile.current_hp <= hostile.max_hp {
            hostile.current_hp
        } else {
            hostile.max_hp
        };
        Some((cur, hostile.max_hp))
    } else if hostile.target_hp > 0 {
        Some((hostile.target_hp, hostile.target_hp))
    } else {
        None
    }
}

/// The sum of a sequence of counts.
pub open spec fn total(s: Seq<u64>) -> int
    decreases s.len(),
{
    if s.len() == 0 {
        0
    } else {
        total(s.drop_last()) + s.last()
    }
}

proof fn lemma_total_prefix(s: Seq<u64>, i: int, j: int)
    requires
        0 <= i <= j <= s.len(),
    ensures
        total(s.take(i)) <= total(s.take(j)),
    decreases j - i,
{
    if i < j {
        lemma_total_prefix(s, i, j - 1);
        assert(s.take(j).drop_last() =~= s.take(j - 1));
    }
}

/// Running totals of the paths killed exactly at each step: entry `i` is
/// the number of paths killed at step `i` or earlier. Every path is killed
/// at most once, so the counts add up to at most the number of paths.
pub fn cumulative_kills(kills_at: &Vec<u64>, samples: u32) -> (r: Vec<u64>)
    requires
        total(kills_at@) <= samples,
    ensures
        r@.len() == kills_at@.len(),
        forall|i: int| 0 <= i < r@.len() ==> #[trigger] r@[i] == total(kills_at@.take(i + 1)),
{
    let mut r: Vec<u64> = Vec::new();
    let mut acc: u64 = 0;
    let mut i: usize = 0;
    assert(kills_at@.take(kills_at@.len() as int) =~= kills_at@);
    while i < kills_at.len()
        invariant
            i <= kills_at@.len(),
            r@.len() == i,
            acc == total(kills_at@.take(i as int)),
            total(kills_at@) <= samples,
            forall|k: int| 0 <= k < i ==> #[trigger] r@[k] == total(kills_at@.take(k + 1)),
        decreases kills_at.len() - i,
    {
        proof {
            assert(kills_at@.take(i + 1).drop_last() =~= kills_at@.take(i as int));
            lemma_total_prefix(kills_at@, i + 1, kills_at@.len() as int);
            assert(total(kills_at@.take(i + 1)) == acc + kills_at@[i as int]);
            assert(kills_at@.take(kills_at@.len() as int) =~= kills_at@);
        }
        acc = acc + kills_at[i];
        r.push(acc);
        i += 1;
    }
    r
}

/// The kill counts never decrease from one step to the next, and never
/// exceed the number of sampled paths: the kill chance curve rises from
/// zero towards at most one.
pub proof fn lemma_cumulative_kills_monotone(kills_at: Seq<u64>, samples: u32, i: int, j: int)
    requires
        total(kills_at) <= samples,
        0 <= i <= j < kills_at.len(),
    ensures
        total(kills_at.take(i + 1)) <= total(kills_at.take(j + 1)) <= samples,
{
    lemma_total_prefix(kills_at, i + 1, j + 1);
    lemma_total_prefix(kills_at, j + 1, kills_at.len() as int);
    assert(kills_at.take(kills_at.len() as int) =~= kills_at);
}

/// With a maximum health the model ends at that maximum and starts at the
/// given current health when it lies in `1..=max`, else at the maximum;
/// without one it is full target health, or no model when no health is
/// given; the start never exceeds the end.
pub proof fn lemma_hp_model(h: HostilepileConfig)
    ensures
        h.max_hp > 0 ==> hp_model(h) is Some && (hp_model(h)->0).1 == h.max_hp,
        h.max_hp > 0 && 0 < h.current_hp <= h.max_hp ==> (hp_model(h)->0).0 == h.current_hp,
        h.max_hp > 0 && !(0 < h.current_hp <= h.max_hp) ==> (hp_model(h)->0).0 == h.max_hp,
        h.max_hp == 0 && h.target_hp > 0 ==> hp_model(h) == Some((h.target_hp, h.target_hp)),
        h.max_hp == 0 && h.target_hp == 0 ==> hp_model(h) is None,
        hp_model(h) matches Some(p) ==> 0 < p.0 <= p.1,
{
}

/// Running totals: the total of no counts is zero, and each further count
/// adds itself; so the first running total is the first count, and each
/// next one is the previous plus the next count.
pub proof fn lemma_total_step(s: Seq<u64>, i: int)
    requires
        0 <= i < s.len(),
    ensures
        total(s.take(0)) == 0,
        total(s.take(i + 1)) == total(s.take(i)) + s[i],
{
    assert(s.take(0) =~= Seq::<u64>::empty());
    assert(s.take(i + 1).drop_last() =~= s.take(i));
}

} // verus!

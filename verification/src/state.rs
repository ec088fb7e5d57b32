//! The per-mode level lens of the one pet: each counting mode keeps its own token-anchored
//! bookkeeping (birth total, last seen total, level) while the pet's identity and care are
//! shared. This module holds that bookkeeping's integer rules.

use vstd::prelude::*;

use crate::card::{opt_text, GraveLine, GraveLineView};
use crate::model::{floor_sqrt, UNIT, lemma_level_bound, lemma_level_monotone, level_for_gen, level_spec, stage_entry, stage_for, stage_index};

verus! {

/// Schema version of the persisted pet state.
pub const STATE_VERSION: u32 = 3;

/// One counting mode's token-anchored bookkeeping.
#[derive(Debug, PartialEq, Eq, Clone, Copy, Structural)]
pub struct Economy {
    /// The pet generation this economy was last (re)born for. If it lags the pet's current
    /// generation the economy is stale and is re-grandfathered on next activation.
    pub gen_stamp: u32,
    /// Mode total at hatch; level = level_for(mode total - birth_sigma).
    pub birth_sigma: u64,
    /// Last observed mode total (activity edge detector).
    pub last_seen_sigma: u64,
    /// Per-generation level (level-up detection).
    pub level: u64,
}

/// The per-generation level at mode total `total` for a pet hatched at `birth`.
pub open spec fn gen_level(total: u64, birth: u64) -> nat {
    level_spec(if total >= birth { (total - birth) as u64 } else { 0 })
}

/// A freshly grandfathered economy for `generation` at mode total `sigma`: generation 1
/// counts from zero, so it shows the pet's honest all-time level in this mode; later
/// generations are fresh eggs counting only from `sigma` on.
pub open spec fn grandfather_spec(sigma: u64, generation: u32) -> Economy {
    let g = if generation < 1 { 1u32 } else { generation };
    let birth = if g <= 1 { 0u64 } else { sigma };
    Economy {
        gen_stamp: g,
        birth_sigma: birth,
        last_seen_sigma: sigma,
        level: gen_level(sigma, birth) as u64,
    }
}

/// Grandfather one mode's economy from its current total (see `grandfather_spec`).
pub fn grandfather_economy(sigma: u64, generation: u32) -> (e: Economy)
    ensures
        e == grandfather_spec(sigma, generation),
{
    let g = if generation < 1 {
        1
    } else {
        generation
    };
    let birth = if g <= 1 {
        0
    } else {
        sigma
    };
    Economy {
        gen_stamp: g,
        birth_sigma: birth,
        last_seen_sigma: sigma,
        level: level_for_gen(sigma, birth),
    }
}

/// Generation 1 shows the honest all-time level; a reborn generation starts at level 1.
pub proof fn lemma_grandfather_levels(sigma: u64, generation: u32)
    ensures
        generation <= 1 ==> grandfather_spec(sigma, generation).level == level_spec(sigma),
        generation > 1 ==> grandfather_spec(sigma, generation).level == 1,
        grandfather_spec(sigma, generation).gen_stamp >= 1,
{
    lemma_level_bound(sigma);
    lemma_level_bound(0);
    assert((sigma - 0) as u64 == sigma);
}

/// Whether a mode's economy must be (re)created: it is missing, or was born for another
/// generation of the pet.
pub fn economy_is_stale(eco: Option<&Economy>, generation: u32) -> (r: bool)
    ensures
        r == match eco {
            Some(e) => e.gen_stamp != generation,
            None => true,
        },
{
    match eco {
        Some(e) => e.gen_stamp != generation,
        None => true,
    }
}

/// The economy lifted from the older single-lineage schema: it keeps that lineage's birth
/// and last seen totals, with generation and level at least 1.
pub fn legacy_economy(generation: u32, birth_sigma: u64, last_seen_sigma: u64, level: u64) -> (e:
    Economy)
    ensures
        e.gen_stamp == (if generation < 1 { 1 } else { generation }),
        e.birth_sigma == birth_sigma,
        e.last_seen_sigma == last_seen_sigma,
        e.level == (if level < 1 { 1 } else { level }),
{
    Economy {
        gen_stamp: if generation < 1 {
            1
        } else {
            generation
        },
        birth_sigma,
        last_seen_sigma,
        level: if level < 1 {
            1
        } else {
            level
        },
    }
}

/// Record an observed mode total: a total above the last seen one marks activity and moves
/// the edge forward.
pub fn observe_total(eco: &mut Economy, total: u64) -> (active: bool)
    ensures
        active == (total > old(eco).last_seen_sigma),
        final(eco).last_seen_sigma == (if active { total } else { old(eco).last_seen_sigma }),
        final(eco).gen_stamp == old(eco).gen_stamp,
        final(eco).birth_sigma == old(eco).birth_sigma,
        final(eco).level == old(eco).level,
{
    if total > eco.last_seen_sigma {
        eco.last_seen_sigma = total;
        true
    } else {
        false
    }
}

/// Recompute the per-generation level at `total`; reports whether it went up.
pub fn relevel(eco: &mut Economy, total: u64) -> (leveled_up: bool)
    ensures
        final(eco).level == gen_level(total, old(eco).birth_sigma),
        leveled_up == (final(eco).level > old(eco).level),
        final(eco).gen_stamp == old(eco).gen_stamp,
        final(eco).birth_sigma == old(eco).birth_sigma,
        final(eco).last_seen_sigma == old(eco).last_seen_sigma,
{
    let lvl = level_for_gen(total, eco.birth_sigma);
    let up = lvl > eco.level;
    eco.level = lvl;
    up
}

/// As the mode total grows, the per-generation level never goes down.
pub proof fn lemma_gen_level_monotone(a: u64, b: u64, birth: u64)
    requires
        a <= b,
    ensures
        gen_level(a, birth) <= gen_level(b, birth),
{
    let x: u64 = if a >= birth { (a - birth) as u64 } else { 0 };
    let y: u64 = if b >= birth { (b - birth) as u64 } else { 0 };
    lemma_level_monotone(x, y);
}

/// A death: the grave of the pet that died (its name, its generation, the stage and the
/// level it reached) and the next generation, hatched as a fresh egg whose economy counts
/// only the tokens from the mode total `sigma` on (it starts at level 1).
pub fn reincarnate(generation: u32, name: &Option<String>, level: u64, sigma: u64) -> (r: (
    GraveLine,
    u32,
    Economy,
))
    requires
        generation < u32::MAX,
    ensures
        r.0@ == (GraveLineView {
            generation,
            name: opt_text(*name),
            stage: stage_entry(stage_index(level)).name@,
            peak_level: level,
        }),
        r.1 == generation + 1,
        r.2 == (Economy { gen_stamp: r.1, birth_sigma: sigma, last_seen_sigma: sigma, level: 1 }),
        r.2.level == gen_level(sigma, r.2.birth_sigma),
{
    proof {
        assert(((sigma - sigma) as u64) == 0u64);
        assert(floor_sqrt((0u64 / UNIT) as nat) == 0);
    }
    let grave = GraveLine {
        generation,
        name: match name {
            Some(n) => Some(n.clone()),
            None => None,
        },
        stage: stage_for(level).name.to_owned(),
        peak_level: level,
    };
    let next = generation + 1;
    (grave, next, Economy { gen_stamp: next, birth_sigma: sigma, last_seen_sigma: sigma, level: 1 })
}

} // verus!

//! Sparkles: short-lived glyphs scattered over the creature band. Each tick ages every
//! sparkle, drops the expired ones and may add one more at a random spot, drawn from
//! `fastrand`'s thread-local generator: a dense gold burst while celebrating, otherwise the
//! stage's own ambient flavor (its glyphs and spawn chance).

use vstd::prelude::*;

verus! {

/// One sparkle: its position inside the card, its glyph, and how many ticks it has lived
/// out of its lifetime.
#[derive(Clone, Copy, PartialEq, Eq, Debug, Structural)]
pub struct Particle {
    pub row: i32,
    pub col: i32,
    pub ch: char,
    pub age: i32,
    pub ttl: i32,
}

/// Most sparkles alive at once during a celebration.
pub const BURST_CAP: usize = 26;

/// The chance, in percent, that a celebrating tick below the cap adds a sparkle.
pub const BURST_CHANCE_PERCENT: u32 = 85;

/// Most ambient sparkles alive at once outside a celebration.
pub const AMBIENT_CAP: usize = 10;

/// Shortest and longest sparkle lifetimes, in ticks.
pub const TTL_MIN: i32 = 10;
pub const TTL_MAX: i32 = 22;

/// Number of sparkle glyphs.
pub const SPARKLE_COUNT: usize = 5;

/// The sparkle glyphs.
pub open spec fn sparkle_glyphs() -> Seq<char> {
    seq!['·', '✦', '✧', '⋆', '✳']
}

/// Sparkle glyph `i`.
pub fn sparkle_glyph(i: usize) -> (c: char)
    requires
        i < SPARKLE_COUNT,
    ensures
        c == sparkle_glyphs()[i as int],
{
    match i {
        0 => '·',
        1 => '✦',
        2 => '✧',
        3 => '⋆',
        _ => '✳',
    }
}

/// A sparkle one tick older.
pub open spec fn aged(p: Particle) -> Particle {
    Particle { age: (p.age + 1) as i32, ..p }
}

/// Every sparkle aged by one tick, in order, keeping those still within their lifetime.
pub open spec fn survivors(ps: Seq<Particle>) -> Seq<Particle>
    decreases ps.len(),
{
    if ps.len() == 0 {
        Seq::empty()
    } else {
        let rest = survivors(ps.drop_last());
        let q = aged(ps.last());
        if q.age < q.ttl {
            rest.push(q)
        } else {
            rest
        }
    }
}

/// No sparkle's age is at the top of its range, so all can grow one older.
pub open spec fn can_age(ps: Seq<Particle>) -> bool {
    forall|i: int| 0 <= i < ps.len() ==> #[trigger] ps[i].age < i32::MAX
}

/// Age every sparkle by one tick and drop those that reached their lifetime, keeping the
/// order of the rest.
pub fn advance_particles(ps: &mut Vec<Particle>)
    requires
        can_age(old(ps)@),
    ensures
        final(ps)@ == survivors(old(ps)@),
{
    let mut out: Vec<Particle> = Vec::new();
    let n = ps.len();
    let mut i: usize = 0;
    while i < n
        invariant
            n == ps@.len(),
            ps@ == old(ps)@,
            can_age(ps@),
            0 <= i <= n,
            out@ == survivors(ps@.take(i as int)),
        decreases n - i,
    {
        let p = ps[i];
        assert(ps@[i as int].age < i32::MAX);
        let q = Particle { age: p.age + 1, ..p };
        proof {
            assert(ps@.take(i as int + 1).drop_last() =~= ps@.take(i as int));
            assert(ps@.take(i as int + 1).last() == p);
        }
        if q.age < q.ttl {
            out.push(q);
        }
        i = i + 1;
    }
    proof {
        assert(ps@.take(n as int) =~= ps@);
    }
    *ps = out;
}

/// The sparkle born at `(row, col)` with glyph `ch` and a lifetime of `ttl` ticks.
pub open spec fn new_sparkle_spec(row: i32, col: i32, ch: char, ttl: i32) -> Particle {
    Particle { row, col, ch, age: 0, ttl }
}

/// A new sparkle at `(row, col)` with glyph `ch` and a lifetime of `ttl` ticks.
pub fn new_sparkle(row: i32, col: i32, ch: char, ttl: i32) -> (p: Particle)
    ensures
        p == new_sparkle_spec(row, col, ch, ttl),
{
    Particle { row, col, ch, age: 0, ttl }
}

/// The most sparkles a tick may leave alive: the burst cap while celebrating, the ambient
/// cap otherwise.
pub open spec fn spawn_cap(celebrating: bool) -> usize {
    if celebrating {
        BURST_CAP
    } else {
        AMBIENT_CAP
    }
}

/// The chance, in percent, that a tick below the cap adds a sparkle.
pub open spec fn spawn_chance(celebrating: bool, ambient_percent: u32) -> u32 {
    if celebrating {
        BURST_CHANCE_PERCENT
    } else {
        ambient_percent
    }
}

/// The glyphs a new sparkle is drawn from.
pub open spec fn spawn_glyphs(celebrating: bool, ambient: Seq<char>) -> Seq<char> {
    if celebrating {
        sparkle_glyphs()
    } else {
        ambient
    }
}

/// A sparkle as one is born: in rows `0..=band_rows` and columns `0..iw`, one of `glyphs`,
/// age zero, with a lifetime between the shortest and the longest.
pub open spec fn fresh_sparkle(p: Particle, band_rows: i32, iw: i32, glyphs: Seq<char>) -> bool {
    &&& 0 <= p.row <= band_rows
    &&& 0 <= p.col < iw
    &&& glyphs.contains(p.ch)
    &&& p.age == 0
    &&& TTL_MIN <= p.ttl <= TTL_MAX
}

/// `fastrand::u32` over `0..n`: a random integer below `n` from the thread-local generator.
/// Its source panics on an empty range, so `n` must be positive; nothing else is promised.
#[verifier::external_body]
fn random_u32_below(n: u32) -> (r: u32)
    requires
        n > 0,
    ensures
        r < n,
{
    fastrand::u32(0..n)
}

/// `fastrand::i32` over `lo..=hi`: a random integer in that range from the thread-local
/// generator. Its source panics when `lo > hi`; nothing else is promised.
#[verifier::external_body]
fn random_i32_between(lo: i32, hi: i32) -> (r: i32)
    requires
        lo <= hi,
    ensures
        lo <= r <= hi,
{
    fastrand::i32(lo..=hi)
}

/// `fastrand::usize` over `0..n`: a random index below `n` from the thread-local generator.
/// Its source panics on an empty range, so `n` must be positive; nothing else is promised.
#[verifier::external_body]
fn random_usize_below(n: usize) -> (r: usize)
    requires
        n > 0,
    ensures
        r < n,
{
    fastrand::usize(0..n)
}

/// How many sparkles survive the next tick (see `survivors`).
pub fn survivor_count(ps: &Vec<Particle>) -> (n: usize)
    requires
        can_age(ps@),
    ensures
        n == survivors(ps@).len(),
{
    let mut count: usize = 0;
    let mut i: usize = 0;
    while i < ps.len()
        invariant
            0 <= i <= ps@.len(),
            can_age(ps@),
            count == survivors(ps@.take(i as int)).len(),
            count <= i,
        decreases ps.len() - i,
    {
        assert(ps@[i as int].age < i32::MAX);
        proof {
            assert(ps@.take(i as int + 1).drop_last() =~= ps@.take(i as int));
            assert(ps@.take(i as int + 1).last() == ps@[i as int]);
        }
        if ps[i].age + 1 < ps[i].ttl {
            count = count + 1;
        }
        i = i + 1;
    }
    proof {
        assert(ps@.take(ps@.len() as int) =~= ps@);
    }
    count
}

/// The sparkles after one tick, given the tick's draws: all age and the expired go; then,
/// with fewer survivors than the cap, a `roll` below the chance and glyphs to draw from,
/// the sparkle at `(row, col)` with glyph number `glyph` and lifetime `ttl` is added after
/// them. Celebrating uses the burst's cap, chance and glyphs; otherwise the ambient ones.
pub open spec fn step_with_spec(
    before: Seq<Particle>,
    celebrating: bool,
    ambient_percent: u32,
    ambient: Seq<char>,
    roll: u32,
    row: i32,
    col: i32,
    glyph: usize,
    ttl: i32,
) -> Seq<Particle> {
    let s = survivors(before);
    let set = spawn_glyphs(celebrating, ambient);
    if s.len() < spawn_cap(celebrating) && roll < spawn_chance(celebrating, ambient_percent)
        && set.len() > 0 {
        s.push(new_sparkle_spec(row, col, set[glyph as int], ttl))
    } else {
        s
    }
}

/// One tick of the sparkles with the tick's random draws given: `roll` (below 100) decides
/// whether a sparkle is added, `row`, `col`, `glyph` (an index into the glyphs in use) and
/// `ttl` are the new sparkle's.
pub fn step_particles_with(
    ps: &mut Vec<Particle>,
    celebrating: bool,
    ambient_percent: u32,
    ambient_glyphs: &Vec<char>,
    roll: u32,
    row: i32,
    col: i32,
    glyph: usize,
    ttl: i32,
)
    requires
        can_age(old(ps)@),
        spawn_glyphs(celebrating, ambient_glyphs@).len() > 0 ==> glyph < spawn_glyphs(
            celebrating,
            ambient_glyphs@,
        ).len(),
    ensures
        final(ps)@ == step_with_spec(
            old(ps)@,
            celebrating,
            ambient_percent,
            ambient_glyphs@,
            roll,
            row,
            col,
            glyph,
            ttl,
        ),
{
    advance_particles(ps);
    let (cap, chance, count) = if celebrating {
        (BURST_CAP, BURST_CHANCE_PERCENT, SPARKLE_COUNT)
    } else {
        (AMBIENT_CAP, ambient_percent, ambient_glyphs.len())
    };
    if ps.len() < cap && roll < chance && count > 0 {
        let ch = if celebrating {
            sparkle_glyph(glyph)
        } else {
            ambient_glyphs[glyph]
        };
        ps.push(new_sparkle(row, col, ch, ttl));
    }
}

/// What one tick may turn `before` into: the survivors alone, or, with fewer survivors
/// than the cap, the survivors followed by one fresh sparkle drawn from the glyphs in use.
pub open spec fn step_outcome(
    before: Seq<Particle>,
    after: Seq<Particle>,
    band_rows: i32,
    iw: i32,
    celebrating: bool,
    ambient: Seq<char>,
) -> bool {
    let s = survivors(before);
    ||| after == s
    ||| {
        &&& s.len() < spawn_cap(celebrating)
        &&& after.len() == s.len() + 1
        &&& after.drop_last() == s
        &&& fresh_sparkle(after.last(), band_rows, iw, spawn_glyphs(celebrating, ambient))
    }
}

/// One animation tick of the sparkles over a band of `band_rows + 1` rows and `iw`
/// columns, drawing from `fastrand`: below the cap a roll below 100 is drawn, and when it is
/// below the chance and there are glyphs to use, the new sparkle's row, column, glyph and
/// lifetime are drawn too; `step_particles_with` does the rest. While celebrating the burst
/// applies (`BURST_CAP`, `BURST_CHANCE_PERCENT`, the sparkle glyphs); otherwise the stage's
/// ambient flavor (`AMBIENT_CAP`, `ambient_percent`, `ambient_glyphs`). Whatever the draws
/// give, the survivors keep their order and at most one fresh sparkle, inside the band,
/// follows.
pub fn step_particles(
    ps: &mut Vec<Particle>,
    band_rows: i32,
    iw: i32,
    celebrating: bool,
    ambient_percent: u32,
    ambient_glyphs: &Vec<char>,
)
    requires
        can_age(old(ps)@),
        survivors(old(ps)@).len() < spawn_cap(celebrating) && spawn_chance(
            celebrating,
            ambient_percent,
        ) > 0 && spawn_glyphs(celebrating, ambient_glyphs@).len() > 0 ==> 0 <= band_rows && 1
            <= iw,
    ensures
        step_outcome(old(ps)@, final(ps)@, band_rows, iw, celebrating, ambient_glyphs@),
{
    let (cap, chance, count) = if celebrating {
        (BURST_CAP, BURST_CHANCE_PERCENT, SPARKLE_COUNT)
    } else {
        (AMBIENT_CAP, ambient_percent, ambient_glyphs.len())
    };
    let mut roll: u32 = 100;
    let mut row: i32 = 0;
    let mut col: i32 = 0;
    let mut glyph: usize = 0;
    let mut ttl: i32 = TTL_MIN;
    if survivor_count(ps) < cap {
        roll = random_u32_below(100);
        if roll < chance && count > 0 {
            row = random_i32_between(0, band_rows);
            col = random_i32_between(0, iw - 1);
            glyph = random_usize_below(count);
            ttl = random_i32_between(TTL_MIN, TTL_MAX);
        }
    }
    let ghost s = survivors(old(ps)@);
    let ghost set = spawn_glyphs(celebrating, ambient_glyphs@);
    step_particles_with(ps, celebrating, ambient_percent, ambient_glyphs, roll, row, col, glyph, ttl);
    proof {
        if ps@ != s {
            assert(ps@.drop_last() =~= s);
            assert(set[glyph as int] == ps@.last().ch);
            assert(set.contains(ps@.last().ch));
        }
    }
}

/// A sparkle inside a band of `band_rows + 1` rows and `iw` columns, with a burst glyph or
/// one of the `ambient` glyphs, a lifetime in range and an age below it.
pub open spec fn in_band(p: Particle, band_rows: i32, iw: i32, ambient: Seq<char>) -> bool {
    &&& 0 <= p.row <= band_rows
    &&& 0 <= p.col < iw
    &&& (sparkle_glyphs().contains(p.ch) || ambient.contains(p.ch))
    &&& TTL_MIN <= p.ttl <= TTL_MAX
    &&& 0 <= p.age < p.ttl
}

proof fn lemma_survivors_in_band(ps: Seq<Particle>, band_rows: i32, iw: i32, ambient: Seq<char>)
    requires
        forall|i: int| 0 <= i < ps.len() ==> in_band(#[trigger] ps[i], band_rows, iw, ambient),
    ensures
        survivors(ps).len() <= ps.len(),
        forall|i: int|
            0 <= i < survivors(ps).len() ==> in_band(#[trigger] survivors(ps)[i], band_rows, iw, ambient),
    decreases ps.len(),
{
    if ps.len() > 0 {
        let rest = ps.drop_last();
        assert forall|i: int| 0 <= i < rest.len() implies in_band(#[trigger] rest[i], band_rows, iw, ambient) by {
            assert(rest[i] == ps[i]);
        }
        lemma_survivors_in_band(rest, band_rows, iw, ambient);
        assert(in_band(ps[ps.len() - 1], band_rows, iw, ambient));
    }
}

/// Sparkles stay well placed from tick to tick: if every sparkle is inside the band, has a
/// burst or ambient glyph, a lifetime in range and an age below it, the same holds after any
/// tick, every sparkle can age once more, and a tick never leaves more sparkles than the cap
/// in force unless it started with more.
pub proof fn lemma_sparkles_stay_in_band(
    before: Seq<Particle>,
    after: Seq<Particle>,
    band_rows: i32,
    iw: i32,
    celebrating: bool,
    ambient: Seq<char>,
)
    requires
        forall|i: int| 0 <= i < before.len() ==> in_band(#[trigger] before[i], band_rows, iw, ambient),
        step_outcome(before, after, band_rows, iw, celebrating, ambient),
    ensures
        forall|i: int| 0 <= i < after.len() ==> in_band(#[trigger] after[i], band_rows, iw, ambient),
        can_age(after),
        after.len() <= before.len() || after.len() <= spawn_cap(celebrating),
{
    lemma_survivors_in_band(before, band_rows, iw, ambient);
    let s = survivors(before);
    if after != s {
        assert forall|i: int| 0 <= i < after.len() implies in_band(#[trigger] after[i], band_rows, iw, ambient) by {
            if i < s.len() {
                assert(after[i] == after.drop_last()[i]);
            }
        }
    }
    assert forall|i: int| 0 <= i < after.len() implies #[trigger] after[i].age < i32::MAX by {
        assert(in_band(after[i], band_rows, iw, ambient));
    }
}

} // verus!

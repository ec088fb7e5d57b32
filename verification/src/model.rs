//! Pure pet model: level curve, per-generation level, level progress and evolution stages.
//! Everything here is a function of the token total.

use vstd::prelude::*;

verus! {

/// One level unit is one million tokens; `level = floor(sqrt(total / UNIT))`, at least 1.
pub const UNIT: u64 = 1_000_000;

/// Background ledger re-scan cadence, in seconds.
pub const AUTO_REFRESH_SECS: u64 = 20;

/// Card geometry and the creature band (bob and particles stay inside the band; the status
/// rows are fixed).
pub const PANEL_W: u16 = 38;
pub const PANEL_H: u16 = 20;
pub const CREATURE_TOP: u16 = 1;
pub const CREATURE_BAND: u16 = 6;

/// UI chrome colors (256-color indices).
/// Clay: title and card border.
pub const ACCENT: u8 = 173;
/// Level number.
pub const CREAM: u8 = 223;
/// Secondary text and footer.
pub const MUTED: u8 = 244;
/// Empty xp track.
pub const FAINT: u8 = 239;
/// Filled xp.
pub const BAR: u8 = 173;
/// Pale gold: celebration sparkles.
pub const SPARK: u8 = 230;

/// Integer square root, rounded down: the unique `r` with `r² <= n < (r + 1)²`.
pub open spec fn floor_sqrt(n: nat) -> nat
    decreases n,
{
    if n == 0 {
        0
    } else {
        let r = floor_sqrt((n - 1) as nat);
        if (r + 1) * (r + 1) <= n {
            r + 1
        } else {
            r
        }
    }
}

/// The level reached with `total` tokens: `max(1, floor_sqrt(total / UNIT))`.
pub open spec fn level_spec(total: u64) -> nat {
    let r = floor_sqrt((total / UNIT) as nat);
    if r == 0 {
        1
    } else {
        r
    }
}

proof fn lemma_square_step(r: nat)
    ensures
        (r + 1) * (r + 1) == r * r + 2 * r + 1,
        (r + 2) * (r + 2) == (r + 1) * (r + 1) + 2 * r + 3,
{
    assert((r + 1) * (r + 1) == r * r + 2 * r + 1) by (nonlinear_arith);
    assert((r + 2) * (r + 2) == (r + 1) * (r + 1) + 2 * r + 3) by (nonlinear_arith);
}

/// `floor_sqrt(n)` squared is at most `n`, and its successor squared exceeds `n`.
pub proof fn lemma_floor_sqrt(n: nat)
    ensures
        floor_sqrt(n) * floor_sqrt(n) <= n,
        n < (floor_sqrt(n) + 1) * (floor_sqrt(n) + 1),
    decreases n,
{
    if n == 0 {
        assert(floor_sqrt(0) == 0);
        assert((0nat + 1) * (0nat + 1) == 1) by (nonlinear_arith);
        assert(0nat * 0nat == 0) by (nonlinear_arith);
    } else {
        lemma_floor_sqrt((n - 1) as nat);
        let r = floor_sqrt((n - 1) as nat);
        lemma_square_step(r);
        assert(floor_sqrt(n) == if (r + 1) * (r + 1) <= n { r + 1 } else { r });
    }
}

/// Squares are monotone on naturals.
pub proof fn lemma_square_monotone(a: nat, b: nat)
    requires
        a <= b,
    ensures
        a * a <= b * b,
{
    assert(a * a <= b * b) by (nonlinear_arith)
        requires
            a <= b,
    ;
}

/// The integer square root is unique: any `r` with `r² <= n < (r + 1)²` is `floor_sqrt(n)`.
pub proof fn lemma_floor_sqrt_unique(n: nat, r: nat)
    requires
        r * r <= n,
        n < (r + 1) * (r + 1),
    ensures
        floor_sqrt(n) == r,
{
    lemma_floor_sqrt(n);
    let s = floor_sqrt(n);
    if s < r {
        lemma_square_monotone(s + 1, r);
    } else if r < s {
        lemma_square_monotone(r + 1, s);
    }
}

/// `floor_sqrt` never decreases as its argument grows.
pub proof fn lemma_floor_sqrt_monotone(a: nat, b: nat)
    requires
        a <= b,
    ensures
        floor_sqrt(a) <= floor_sqrt(b),
{
    lemma_floor_sqrt(a);
    lemma_floor_sqrt(b);
    if floor_sqrt(b) < floor_sqrt(a) {
        lemma_square_monotone(floor_sqrt(b) + 1, floor_sqrt(a));
    }
}

/// Integer square root of a `u64`, by bisection.
fn isqrt(n: u64) -> (r: u64)
    ensures
        r as nat == floor_sqrt(n as nat),
{
    let mut lo: u64 = 0;
    let mut hi: u64 = 0x1_0000_0000;
    assert(n < hi * hi) by (nonlinear_arith)
        requires
            hi == 0x1_0000_0000u64,
    ;
    while hi - lo > 1
        invariant
            lo < hi,
            hi <= 0x1_0000_0000u64,
            lo * lo <= n,
            n < hi * hi,
        decreases hi - lo,
    {
        let mid = lo + (hi - lo) / 2;
        assert(mid * mid <= 0xffff_ffff * 0xffff_ffffu64) by (nonlinear_arith)
            requires
                mid < 0x1_0000_0000u64,
        ;
        if mid * mid <= n {
            lo = mid;
        } else {
            hi = mid;
        }
    }
    proof {
        lemma_floor_sqrt_unique(n as nat, lo as nat);
    }
    lo
}

/// The level for an all-time token total: `floor(sqrt(total / UNIT))`, never below 1.
pub fn level_for(total: u64) -> (level: u64)
    ensures
        level == level_spec(total),
        level >= 1,
        level * level <= total / UNIT || total < UNIT,
        total / UNIT < (level + 1) * (level + 1),
{
    let r = isqrt(total / UNIT);
    proof {
        lemma_floor_sqrt((total / UNIT) as nat);
        assert((1u64 + 1) * (1u64 + 1) == 4) by (nonlinear_arith);
        assert(1u64 * 1u64 == 1) by (nonlinear_arith);
    }
    if r < 1 {
        1
    } else {
        r
    }
}

/// Per-generation level: only tokens accrued since this pet hatched count.
pub fn level_for_gen(current_sigma: u64, birth_sigma: u64) -> (level: u64)
    ensures
        level == level_spec(if current_sigma >= birth_sigma { (current_sigma - birth_sigma) as u64 } else { 0 }),
{
    level_for(current_sigma.saturating_sub(birth_sigma))
}

/// Every level is below 2³², so it fits a `u64`.
pub proof fn lemma_level_bound(total: u64)
    ensures
        1 <= level_spec(total) < 0x1_0000_0000,
{
    let n = (total / UNIT) as nat;
    lemma_floor_sqrt(n);
    let r = floor_sqrt(n);
    if r >= 0x1_0000_0000 {
        lemma_square_monotone(0x1_0000_0000, r);
        assert(0x1_0000_0000nat * 0x1_0000_0000nat > u64::MAX) by (nonlinear_arith);
    }
}

/// Monotonicity: more tokens never lower the level.
pub proof fn lemma_level_monotone(a: u64, b: u64)
    requires
        a <= b,
    ensures
        level_spec(a) <= level_spec(b),
{
    assert(a / UNIT <= b / UNIT) by (nonlinear_arith)
        requires
            a <= b,
    ;
    lemma_floor_sqrt_monotone((a / UNIT) as nat, (b / UNIT) as nat);
}

/// The first token total that reaches `level`: `level² · UNIT` (for levels of at least 2).
pub proof fn lemma_level_threshold(level: nat, total: u64)
    requires
        level >= 2,
    ensures
        level_spec(total) >= level <==> total >= level * level * UNIT,
{
    let n = (total / UNIT) as nat;
    lemma_floor_sqrt(n);
    let r = floor_sqrt(n);
    assert(level * level * UNIT == (level * level) * UNIT) by (nonlinear_arith);
    if total >= level * level * UNIT {
        assert(n >= level * level) by (nonlinear_arith)
            requires
                total >= (level * level) * UNIT,
                n == total / UNIT,
        ;
        if r < level {
            lemma_square_monotone(r + 1, level);
        }
    } else {
        assert(n < level * level) by (nonlinear_arith)
            requires
                total < (level * level) * UNIT,
                n == total / UNIT,
        ;
        if r >= level {
            lemma_square_monotone(level, r);
        }
    }
}

/// The largest total for which the next level's threshold still fits in a `u64`.
pub const PROGRESS_LIMIT: u64 = 18_446_741_064_088_999_999;

/// Progress within the current level, in tokens: `(into, span)`, where `span` is the number
/// of tokens between this level's threshold and the next one and `into` how far `total` is
/// past this level's threshold (0 below it).
pub fn progress_tokens(total: u64) -> (r: (u64, u64))
    requires
        total <= PROGRESS_LIMIT,
    ensures
        ({
            let l = level_spec(total);
            &&& r.1 == (l + 1) * (l + 1) * UNIT - l * l * UNIT
            &&& r.1 == (2 * l + 1) * UNIT
            &&& r.0 == if total >= l * l * UNIT { total - l * l * UNIT } else { 0 }
            &&& r.0 < r.1
        }),
{
    let lvl = level_for(total);
    assert(lvl < 4_294_967) by {
        if lvl >= 4_294_967 {
            assert(lvl * lvl >= 4_294_967u64 * 4_294_967u64) by (nonlinear_arith)
                requires
                    lvl >= 4_294_967,
            ;
        }
    }
    assert((lvl + 1) * (lvl + 1) * UNIT <= 4_294_967u64 * 4_294_967u64 * UNIT) by (nonlinear_arith)
        requires
            lvl < 4_294_967,
    ;
    assert(lvl * lvl * UNIT <= (lvl + 1) * (lvl + 1) * UNIT) by (nonlinear_arith);
    assert((lvl + 1) * (lvl + 1) * UNIT - lvl * lvl * UNIT == (2 * lvl + 1) * UNIT) by (nonlinear_arith);
    let floor_t = lvl * lvl * UNIT;
    let next_t = (lvl + 1) * (lvl + 1) * UNIT;
    let span = next_t - floor_t;
    let into = total.saturating_sub(floor_t);
    (into, span)
}

/// One evolution stage. `frames` = [base, blink, sad]; all five lines, with matching per-line
/// widths so blinking or a mood change never reflows the art.
pub struct Stage {
    pub min_level: u64,
    pub name: &'static str,
    pub emoji: &'static str,
    /// 256-color index; stages ramp warmer as they grow.
    pub color: u8,
    pub frames: [[&'static str; 5]; 3],
}

/// Number of evolution stages.
pub const STAGE_COUNT: usize = 6;

/// The level at which stage `i` begins (egg, blob, sprout, critter, beast, elder).
pub open spec fn stage_min_level(i: int) -> u64 {
    if i <= 0 {
        1
    } else if i == 1 {
        5
    } else if i == 2 {
        15
    } else if i == 3 {
        30
    } else if i == 4 {
        60
    } else {
        100
    }
}

/// The stage a level falls in: the last stage whose minimum level it has reached.
pub open spec fn stage_index(level: u64) -> usize {
    if level >= 100 {
        5
    } else if level >= 60 {
        4
    } else if level >= 30 {
        3
    } else if level >= 15 {
        2
    } else if level >= 5 {
        1
    } else {
        0
    }
}

/// The stage table, in evolution order (pale cream → tan → gold → clay → coral → bright clay).
pub open spec fn stage_entry(i: usize) -> Stage {
    match i {
        0 => Stage {
            min_level: 1,
            name: "Egg",
            emoji: "🥚",
            color: 223,
            frames: [
                ["  ___ ", " /   \\", "|     |", "|     |", " \\___/"],
                ["  ___ ", " /   \\", "| . . |", "|     |", " \\___/"],
                ["  ___ ", " /   \\", "| u u |", "|     |", " \\___/"],
            ],
        },
        1 => Stage {
            min_level: 5,
            name: "Blob",
            emoji: "👾",
            color: 180,
            frames: [
                [" _____ ", "/     \\", "| o o |", "|  ω  |", "\\_____/"],
                [" _____ ", "/     \\", "| - - |", "|  ω  |", "\\_____/"],
                [" _____ ", "/     \\", "| u u |", "|  ω  |", "\\_____/"],
            ],
        },
        2 => Stage {
            min_level: 15,
            name: "Sprout",
            emoji: "🌱",
            color: 179,
            frames: [
                ["   ,   ", "  (|)  ", " /o o\\ ", "( \\_/ )", " \\___/ "],
                ["   ,   ", "  (|)  ", " /- -\\ ", "( \\_/ )", " \\___/ "],
                ["   ,   ", "  (|)  ", " /u u\\ ", "( \\_/ )", " \\___/ "],
            ],
        },
        3 => Stage {
            min_level: 30,
            name: "Critter",
            emoji: "🐱",
            color: 173,
            frames: [
                [" /\\_/\\ ", "( o.o )", " > ^ < ", "/|   |\\", " |___| "],
                [" /\\_/\\ ", "( -.- )", " > ^ < ", "/|   |\\", " |___| "],
                [" /\\_/\\ ", "( ;.; )", " > _ < ", "/|   |\\", " |___| "],
            ],
        },
        4 => Stage {
            min_level: 60,
            name: "Beast",
            emoji: "🐉",
            color: 209,
            frames: [
                ["  __/\\__  ", " ( o  o ) ", "<   VV   >", " \\ ~~~~ / ", " /|    |\\ "],
                ["  __/\\__  ", " ( -  - ) ", "<   VV   >", " \\ ~~~~ / ", " /|    |\\ "],
                ["  __/\\__  ", " ( u  u ) ", "<   ~~   >", " \\ ~~~~ / ", " /|    |\\ "],
            ],
        },
        _ => Stage {
            min_level: 100,
            name: "Elder",
            emoji: "👑",
            color: 215,
            frames: [
                ["✦  __/\\__  ✦", "  ( ◕  ◕ )  ", " <   WW   > ", "✦ \\ ~~~~ / ✦", "  /|    |\\  "],
                ["✦  __/\\__  ✦", "  ( ─  ─ )  ", " <   WW   > ", "✦ \\ ~~~~ / ✦", "  /|    |\\  "],
                ["✦  __/\\__  ✦", "  ( u  u )  ", " <   ~~   > ", "✦ \\ ~~~~ / ✦", "  /|    |\\  "],
            ],
        },
    }
}

/// Stage `i` of the evolution ramp (`i` past the end reads as the last stage).
pub fn stage_at(i: usize) -> (st: Stage)
    ensures
        st == stage_entry(i),
        st.min_level == stage_min_level(i as int),
{
    match i {
        0 => Stage {
            min_level: 1,
            name: "Egg",
            emoji: "🥚",
            color: 223,
            frames: [
                ["  ___ ", " /   \\", "|     |", "|     |", " \\___/"],
                ["  ___ ", " /   \\", "| . . |", "|     |", " \\___/"],
                ["  ___ ", " /   \\", "| u u |", "|     |", " \\___/"],
            ],
        },
        1 => Stage {
            min_level: 5,
            name: "Blob",
            emoji: "👾",
            color: 180,
            frames: [
                [" _____ ", "/     \\", "| o o |", "|  ω  |", "\\_____/"],
                [" _____ ", "/     \\", "| - - |", "|  ω  |", "\\_____/"],
                [" _____ ", "/     \\", "| u u |", "|  ω  |", "\\_____/"],
            ],
        },
        2 => Stage {
            min_level: 15,
            name: "Sprout",
            emoji: "🌱",
            color: 179,
            frames: [
                ["   ,   ", "  (|)  ", " /o o\\ ", "( \\_/ )", " \\___/ "],
                ["   ,   ", "  (|)  ", " /- -\\ ", "( \\_/ )", " \\___/ "],
                ["   ,   ", "  (|)  ", " /u u\\ ", "( \\_/ )", " \\___/ "],
            ],
        },
        3 => Stage {
            min_level: 30,
            name: "Critter",
            emoji: "🐱",
            color: 173,
            frames: [
                [" /\\_/\\ ", "( o.o )", " > ^ < ", "/|   |\\", " |___| "],
                [" /\\_/\\ ", "( -.- )", " > ^ < ", "/|   |\\", " |___| "],
                [" /\\_/\\ ", "( ;.; )", " > _ < ", "/|   |\\", " |___| "],
            ],
        },
        4 => Stage {
            min_level: 60,
            name: "Beast",
            emoji: "🐉",
            color: 209,
            frames: [
                ["  __/\\__  ", " ( o  o ) ", "<   VV   >", " \\ ~~~~ / ", " /|    |\\ "],
                ["  __/\\__  ", " ( -  - ) ", "<   VV   >", " \\ ~~~~ / ", " /|    |\\ "],
                ["  __/\\__  ", " ( u  u ) ", "<   ~~   >", " \\ ~~~~ / ", " /|    |\\ "],
            ],
        },
        _ => Stage {
            min_level: 100,
            name: "Elder",
            emoji: "👑",
            color: 215,
            frames: [
                ["✦  __/\\__  ✦", "  ( ◕  ◕ )  ", " <   WW   > ", "✦ \\ ~~~~ / ✦", "  /|    |\\  "],
                ["✦  __/\\__  ✦", "  ( ─  ─ )  ", " <   WW   > ", "✦ \\ ~~~~ / ✦", "  /|    |\\  "],
                ["✦  __/\\__  ✦", "  ( u  u )  ", " <   ~~   > ", "✦ \\ ~~~~ / ✦", "  /|    |\\  "],
            ],
        },
    }
}

/// The position of `level`'s stage: the last stage whose `min_level` it has reached.
pub(crate) fn stage_position(level: u64) -> (i: usize)
    ensures
        i == stage_index(level),
        i < STAGE_COUNT,
{
    let mut chosen: usize = 0;
    let mut i: usize = 0;
    while i < STAGE_COUNT
        invariant
            0 <= i <= STAGE_COUNT,
            chosen as int == stage_index_below(level, i as int),
            chosen < STAGE_COUNT,
        decreases STAGE_COUNT - i,
    {
        let st = stage_at(i);
        if level >= st.min_level {
            chosen = i;
        }
        i = i + 1;
    }
    assert(stage_index_below(level, 6) == stage_index(level) as int) by {
        reveal_with_fuel(stage_index_below, 7);
    }
    chosen
}

/// The evolution stage for `level`: the last stage whose `min_level` it has reached (the
/// egg for any level below 5).
pub fn stage_for(level: u64) -> (st: Stage)
    ensures
        st == stage_entry(stage_index(level)),
{
    stage_at(stage_position(level))
}

/// The last stage among the first `k` whose minimum level `level` has reached (0 if none).
pub open spec fn stage_index_below(level: u64, k: int) -> int
    decreases k,
{
    if k <= 0 {
        0
    } else if level >= stage_min_level(k - 1) {
        k - 1
    } else {
        stage_index_below(level, k - 1)
    }
}

/// Step from `level`'s stage to the entry level of the stage `dir` steps away, clamped to
/// the first and last stages.
pub fn stage_step(level: u64, dir: i32) -> (l: u64)
    requires
        stage_index(level) as int + dir as int <= i32::MAX,
    ensures
        ({
            let t = stage_index(level) as int + dir as int;
            let next = if t < 0 {
                0
            } else if t > STAGE_COUNT - 1 {
                STAGE_COUNT - 1
            } else {
                t
            };
            l == stage_min_level(next)
        }),
{
    let cur = stage_position(level) as i32;
    let t = cur + dir;
    let next: usize = if t < 0 {
        0
    } else if t > (STAGE_COUNT - 1) as i32 {
        STAGE_COUNT - 1
    } else {
        t as usize
    };
    stage_at(next).min_level
}

/// Blinking or turning sad never reflows the art: every line of the blink (1) and sad (2)
/// frames has as many characters as the same line of the base frame (0).
pub proof fn lemma_frames_align(i: usize, alt: int, line: int)
    requires
        i < STAGE_COUNT,
        1 <= alt < 3,
        0 <= line < 5,
    ensures
        stage_entry(i).frames@[alt]@[line]@.len() == stage_entry(i).frames@[0]@[line]@.len(),
{
    reveal_strlit("   ,   ");
    reveal_strlit("  ( u  u )  ");
    reveal_strlit("  ( ─  ─ )  ");
    reveal_strlit("  ( ◕  ◕ )  ");
    reveal_strlit("  (|)  ");
    reveal_strlit("  /|    |\\  ");
    reveal_strlit("  __/\\__  ");
    reveal_strlit("  ___ ");
    reveal_strlit(" ( -  - ) ");
    reveal_strlit(" ( o  o ) ");
    reveal_strlit(" ( u  u ) ");
    reveal_strlit(" /   \\");
    reveal_strlit(" /- -\\ ");
    reveal_strlit(" /\\_/\\ ");
    reveal_strlit(" /o o\\ ");
    reveal_strlit(" /u u\\ ");
    reveal_strlit(" /|    |\\ ");
    reveal_strlit(" <   WW   > ");
    reveal_strlit(" <   ~~   > ");
    reveal_strlit(" > ^ < ");
    reveal_strlit(" > _ < ");
    reveal_strlit(" \\ ~~~~ / ");
    reveal_strlit(" \\___/");
    reveal_strlit(" \\___/ ");
    reveal_strlit(" _____ ");
    reveal_strlit(" |___| ");
    reveal_strlit("( -.- )");
    reveal_strlit("( ;.; )");
    reveal_strlit("( \\_/ )");
    reveal_strlit("( o.o )");
    reveal_strlit("/     \\");
    reveal_strlit("/|   |\\");
    reveal_strlit("<   VV   >");
    reveal_strlit("<   ~~   >");
    reveal_strlit("Beast");
    reveal_strlit("Blob");
    reveal_strlit("Critter");
    reveal_strlit("Egg");
    reveal_strlit("Elder");
    reveal_strlit("Sprout");
    reveal_strlit("\\_____/");
    reveal_strlit("|     |");
    reveal_strlit("|  ω  |");
    reveal_strlit("| - - |");
    reveal_strlit("| . . |");
    reveal_strlit("| o o |");
    reveal_strlit("| u u |");
    reveal_strlit("✦  __/\\__  ✦");
    reveal_strlit("✦ \\ ~~~~ / ✦");
    reveal_strlit("🌱");
    reveal_strlit("🐉");
    reveal_strlit("🐱");
    reveal_strlit("👑");
    reveal_strlit("👾");
    reveal_strlit("🥚");
}

} // verus!

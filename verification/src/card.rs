//! The pet card as text in a screen buffer: the rounded frame, the title, the sparkles,
//! the creature, the status rows (name, level, hearts or a passing message, the xp bar and
//! its numbers, generation and streak, the total) and the key hints; the graveyard view;
//! and the one-line fallback for a terminal too small for the card. Every value that is
//! measured on the wall clock or shown rounded comes in ready-made.

use vstd::prelude::*;

use crate::anim::{Frame, FrameView};
use crate::care::{mood_word, Mood};
use crate::mode::{label_spec, CountMode};
use crate::model::{
    stage_entry, stage_for, stage_index, ACCENT, BAR, CREAM, CREATURE_BAND, CREATURE_TOP, FAINT,
    MUTED, PANEL_H, PANEL_W, SPARK,
};
use crate::particles::{Particle, TTL_MAX, TTL_MIN};
use crate::scene::{
    art_origin, border_label_col, card_origin, card_origin_spec, centered_col, creature_pose,
    pose_spec, Pose,
};
use crate::screen::{box_cells, lemma_paint_push, paint_spec, Buffer, Cell, Stroke};
use crate::text::{decimal, push_decimal, push_repeat, push_str, string_from_chars};

verus! {

/// Width of the card's inside.
pub const INNER_W: u16 = 36;

/// The first status row, just below the creature band (rows count from the card's inside).
pub const STATUS_ROW: u16 = 8;

/// Width of the xp bar.
pub const BAR_W: u16 = 30;

/// Most graves listed at once.
pub const GRAVE_ROWS: usize = 16;

/// One past pet as the graveyard lists it.
pub struct GraveLine {
    pub generation: u32,
    pub name: Option<String>,
    pub stage: String,
    pub peak_level: u64,
}

/// A grave line with its text as characters.
pub struct GraveLineView {
    pub generation: u32,
    pub name: Option<Seq<char>>,
    pub stage: Seq<char>,
    pub peak_level: u64,
}

impl View for GraveLine {
    type V = GraveLineView;

    open spec fn view(&self) -> GraveLineView {
        GraveLineView {
            generation: self.generation,
            name: match self.name {
                Some(n) => Some(n@),
                None => None,
            },
            stage: self.stage@,
            peak_level: self.peak_level,
        }
    }
}

/// Everything the card shows, computed beforehand.
pub struct CardInfo {
    /// The level shown (a dev preview, or the pet's own).
    pub level: u64,
    /// The pet's own level, for the one-line fallback.
    pub real_level: u64,
    pub name: Option<String>,
    /// The naming prompt's text, while it is open.
    pub naming: Option<String>,
    pub celebrating: bool,
    /// The happy reaction after an interaction is playing.
    pub happy: bool,
    /// The animation tick.
    pub tick: u64,
    pub mood: Mood,
    pub hearts: u32,
    /// A passing message shown in place of the hearts.
    pub toast: Option<String>,
    /// Filled cells of the xp bar.
    pub filled: u16,
    /// Tokens into the current level, as shown.
    pub into_text: String,
    /// Tokens the current level spans, as shown.
    pub span_text: String,
    /// The generation's token total, as shown.
    pub sigma_text: String,
    pub generation: u32,
    pub streak_days: u32,
    /// The dev panel is open.
    pub dev: bool,
    /// The active counting mode (named in the dev title).
    pub mode: CountMode,
    pub sparkles: Vec<Particle>,
    /// The stage's sparkle color outside a celebration.
    pub accent: u8,
    /// The creature's frame for this tick.
    pub art: Frame,
    /// The graveyard, when that view is open.
    pub graves: Option<Vec<GraveLine>>,
}

/// A card description with its text as characters.
pub struct CardView {
    pub level: u64,
    pub real_level: u64,
    pub name: Option<Seq<char>>,
    pub naming: Option<Seq<char>>,
    pub celebrating: bool,
    pub happy: bool,
    pub tick: u64,
    pub mood: Mood,
    pub hearts: u32,
    pub toast: Option<Seq<char>>,
    pub filled: u16,
    pub into_text: Seq<char>,
    pub span_text: Seq<char>,
    pub sigma_text: Seq<char>,
    pub generation: u32,
    pub streak_days: u32,
    pub dev: bool,
    pub mode: CountMode,
    pub sparkles: Seq<Particle>,
    pub accent: u8,
    pub art: FrameView,
    pub graves: Option<Seq<GraveLineView>>,
}

/// The characters of an optional text.
pub open spec fn opt_text(s: Option<String>) -> Option<Seq<char>> {
    match s {
        Some(t) => Some(t@),
        None => None,
    }
}

impl View for CardInfo {
    type V = CardView;

    open spec fn view(&self) -> CardView {
        CardView {
            level: self.level,
            real_level: self.real_level,
            name: opt_text(self.name),
            naming: opt_text(self.naming),
            celebrating: self.celebrating,
            happy: self.happy,
            tick: self.tick,
            mood: self.mood,
            hearts: self.hearts,
            toast: opt_text(self.toast),
            filled: self.filled,
            into_text: self.into_text@,
            span_text: self.span_text@,
            sigma_text: self.sigma_text@,
            generation: self.generation,
            streak_days: self.streak_days,
            dev: self.dev,
            mode: self.mode,
            sparkles: self.sparkles@,
            accent: self.accent,
            art: self.art@,
            graves: match self.graves {
                Some(g) => Some(g@.map_values(|x: GraveLine| x@)),
                None => None,
            },
        }
    }
}

/// `n` copies of `c`.
pub open spec fn repeat(c: char, n: nat) -> Seq<char> {
    Seq::new(n, |_i: int| c)
}

/// The left padding that centers `len` characters in the card's inside (none when wider).
pub open spec fn pad_for(len: u16) -> int {
    if len <= INNER_W {
        (INNER_W - len) as int / 2
    } else {
        0
    }
}

/// `text` centered on row `r` of the inside of the card at `(top, left)`.
pub open spec fn panel_stroke(
    top: u16,
    left: u16,
    r: int,
    text: Seq<char>,
    fg: u8,
    bold: bool,
    dim: bool,
) -> Stroke {
    Stroke {
        row: (top + 1 + r) as u16,
        col: (left + 1 + pad_for(text.len() as u16)) as u16,
        text,
        fg,
        bold,
        dim,
    }
}

/// `text` centered on the card's border at row `row`.
pub open spec fn label_stroke(row: u16, left: u16, text: Seq<char>, fg: u8, bold: bool) -> Stroke {
    Stroke {
        row,
        col: (left + (PANEL_W - (text.len() as u16)) as int / 2) as u16,
        text,
        fg,
        bold,
        dim: false,
    }
}

/// The card's title: the dev panel names the counting mode.
pub open spec fn title_text(dev: bool, mode: CountMode) -> Seq<char> {
    if dev {
        " ⚙ DEV·"@ + label_spec(mode)@ + " ⚙ "@
    } else {
        " ❋ TOKOTCHI ❋ "@
    }
}

/// A sparkle is drawn bright in the middle third of its life (age from 33% to 66% of its
/// lifetime), faint otherwise.
pub open spec fn sparkle_bright(p: Particle) -> bool {
    33 * p.ttl <= 100 * p.age && 100 * p.age <= 66 * p.ttl
}

/// Sparkles are pale gold in a celebration and the stage's accent otherwise.
pub open spec fn sparkle_color(celebrating: bool, accent: u8) -> u8 {
    if celebrating {
        SPARK
    } else {
        accent
    }
}

/// The sparkles, each on its spot in the card's inside, in color `fg`.
pub open spec fn sparkle_strokes(top: u16, left: u16, ps: Seq<Particle>, fg: u8) -> Seq<Stroke> {
    Seq::new(
        ps.len(),
        |i: int|
            Stroke {
                row: (top + 1 + ps[i].row) as u16,
                col: (left + 1 + ps[i].col) as u16,
                text: seq![ps[i].ch],
                fg,
                bold: sparkle_bright(ps[i]),
                dim: !sparkle_bright(ps[i]),
            },
    )
}

/// The creature's top row in the card's inside: standing on the band's floor, raised by
/// the bob.
pub open spec fn art_top(fh: u16, bob: u16) -> int {
    CREATURE_TOP + (if fh + bob <= CREATURE_BAND {
        CREATURE_BAND - fh - bob
    } else {
        0
    })
}

/// The creature's lines in the pose's color and weight, centered in the inside.
pub open spec fn art_strokes(top: u16, left: u16, art: FrameView, pose: Pose) -> Seq<Stroke> {
    Seq::new(
        art.lines.len(),
        |i: int|
            Stroke {
                row: (top + 1 + art_top(art.h, pose.bob) + i) as u16,
                col: (left + 1 + pad_for(art.w)) as u16,
                text: art.lines[i],
                fg: pose.fg,
                bold: pose.glow,
                dim: false,
            },
    )
}

/// The level row: the stage follows when the pet has a name (the name takes the title row).
pub open spec fn level_text(level: u64, named: bool) -> Seq<char> {
    "Lv "@ + decimal(level as nat) + (if named {
        " · "@ + stage_entry(stage_index(level)).name@
    } else {
        Seq::empty()
    })
}

/// Up to five hearts, filled ones first, then the mood's word.
pub open spec fn hearts_text(hearts: u32, mood: Mood) -> Seq<char> {
    let full: nat = if hearts < 5 {
        hearts as nat
    } else {
        5
    };
    repeat('♥', full) + repeat('♡', (5 - full) as nat) + "  "@ + mood_word(mood)@
}

/// Tokens into the level, the level's span, and the level they lead to.
pub open spec fn progress_text(into: Seq<char>, span: Seq<char>, level: u64) -> Seq<char> {
    into + " / "@ + span + " → Lv "@ + decimal((level + 1) as nat)
}

/// The generation, and the care streak when there is one.
pub open spec fn meta_text(generation: u32, streak_days: u32) -> Seq<char> {
    "Gen "@ + decimal(generation as nat) + (if streak_days > 0 {
        "   ·   "@ + decimal(streak_days as nat) + "d streak"@
    } else {
        Seq::empty()
    })
}

/// The row under the creature: the level-up banner, the naming prompt, the name, or the
/// stage's name.
pub open spec fn title_row_stroke(c: CardView, top: u16, left: u16, pose: Pose) -> Stroke {
    if c.celebrating {
        panel_stroke(top, left, STATUS_ROW as int, "✦ LEVEL UP! ✦"@, SPARK, pose.pulse, !pose.pulse)
    } else if c.naming is Some {
        panel_stroke(top, left, STATUS_ROW as int, "name: "@ + c.naming->0 + "▏"@, CREAM, true, false)
    } else if c.name is Some {
        panel_stroke(top, left, STATUS_ROW as int, c.name->0, pose.fg, true, false)
    } else {
        panel_stroke(top, left, STATUS_ROW as int, stage_entry(stage_index(c.level)).name@, pose.fg, true, false)
    }
}

/// The hearts row, or the passing message in its place.
pub open spec fn mood_row_stroke(c: CardView, top: u16, left: u16) -> Stroke {
    match c.toast {
        Some(m) => panel_stroke(top, left, STATUS_ROW + 2, m, SPARK, true, false),
        None => panel_stroke(
            top,
            left,
            STATUS_ROW + 2,
            hearts_text(c.hearts, c.mood),
            if c.mood == Mood::Hungry || c.mood == Mood::Grumpy || c.mood == Mood::Sick {
                stage_entry(stage_index(c.level)).color
            } else {
                MUTED
            },
            false,
            c.mood == Mood::Sick,
        ),
    }
}

/// The status rows below the creature, in drawing order.
pub open spec fn status_strokes(c: CardView, top: u16, left: u16, pose: Pose) -> Seq<Stroke> {
    seq![
        title_row_stroke(c, top, left, pose),
        panel_stroke(top, left, STATUS_ROW + 1, level_text(c.level, c.name is Some), CREAM, true, false),
        mood_row_stroke(c, top, left),
        Stroke {
            row: (top + 1 + STATUS_ROW + 4) as u16,
            col: (left + 4) as u16,
            text: repeat('━', c.filled as nat),
            fg: BAR,
            bold: true,
            dim: false,
        },
        Stroke {
            row: (top + 1 + STATUS_ROW + 4) as u16,
            col: (left + 4 + c.filled) as u16,
            text: repeat('━', (BAR_W - c.filled) as nat),
            fg: FAINT,
            bold: false,
            dim: false,
        },
        panel_stroke(top, left, STATUS_ROW + 5, progress_text(c.into_text, c.span_text, c.level), MUTED, false, false),
        panel_stroke(top, left, STATUS_ROW + 7, meta_text(c.generation, c.streak_days), MUTED, false, false),
        panel_stroke(top, left, STATUS_ROW + 8, "Σ "@ + c.sigma_text, pose.fg, false, false),
    ]
}

/// The key hints: the dev panel adds a hint row at the top and has its own footer.
pub open spec fn footer_strokes(dev: bool, top: u16, left: u16) -> Seq<Stroke> {
    if dev {
        seq![
            panel_stroke(top, left, 0, "1-5 mood  [ ]stage  +/-lvl  m mode"@, MUTED, false, true),
            label_stroke((top + PANEL_H - 1) as u16, left, " k kill · c fx · r reset · d exit "@, MUTED, false),
        ]
    } else {
        seq![label_stroke((top + PANEL_H - 1) as u16, left, " [f]eed [p]et [n]ame [g]rave [q]uit "@, MUTED, false)]
    }
}

/// Everything written inside the card's frame, in drawing order.
pub open spec fn card_strokes(c: CardView, top: u16, left: u16) -> Seq<Stroke> {
    let pose = pose_spec(c.tick, c.level, c.mood, c.celebrating, c.happy);
    seq![label_stroke(top, left, title_text(c.dev, c.mode), ACCENT, true)] + sparkle_strokes(
        top,
        left,
        c.sparkles,
        sparkle_color(c.celebrating, c.accent),
    ) + art_strokes(top, left, c.art, pose) + status_strokes(c, top, left, pose) + footer_strokes(
        c.dev,
        top,
        left,
    )
}

/// One grave: generation, name (the stage when it had none) and the level it reached.
pub open spec fn grave_text(g: GraveLineView) -> Seq<char> {
    "† Gen "@ + decimal(g.generation as nat) + "  "@ + (match g.name {
        Some(n) => n,
        None => g.stage,
    }) + "  Lv "@ + decimal(g.peak_level as nat)
}

/// The graveyard's rows: the newest grave first, at most `GRAVE_ROWS` of them, or a note
/// when there are none.
pub open spec fn grave_rows(top: u16, left: u16, graves: Seq<GraveLineView>) -> Seq<Stroke> {
    if graves.len() == 0 {
        seq![
            panel_stroke(top, left, PANEL_H / 2 - 2, "no graves yet —"@, MUTED, false, false),
            panel_stroke(top, left, PANEL_H / 2 - 1, "take good care of it."@, MUTED, false, false),
        ]
    } else {
        let n = if graves.len() < GRAVE_ROWS {
            graves.len()
        } else {
            GRAVE_ROWS as nat
        };
        Seq::new(
            n,
            |i: int| panel_stroke(top, left, 1 + i, grave_text(graves[graves.len() - 1 - i]), CREAM, false, false),
        )
    }
}

/// Everything written inside the frame in the graveyard view.
pub open spec fn graveyard_strokes(top: u16, left: u16, graves: Seq<GraveLineView>) -> Seq<Stroke> {
    seq![label_stroke(top, left, " ❋ GRAVEYARD ❋ "@, ACCENT, true)] + grave_rows(top, left, graves)
        + seq![label_stroke((top + PANEL_H - 1) as u16, left, " [g]/[q] back "@, MUTED, false)]
}

/// The buffer after drawing the graveyard inside the frame at `(top, left)`.
pub open spec fn graveyard_cells_spec(
    cells: Seq<Cell>,
    w: u16,
    h: u16,
    top: u16,
    left: u16,
    graves: Seq<GraveLineView>,
) -> Seq<Cell> {
    paint_spec(cells, w, h, graveyard_strokes(top, left, graves))
}

/// The one-line fallback for a terminal too small for the card.
pub open spec fn compact_text(real_level: u64, sigma: Seq<char>) -> Seq<char> {
    "Tokotchi · Lv "@ + decimal(real_level as nat) + " · Σ "@ + sigma + "  (resize)"@
}

/// The buffer after composing the card (or the graveyard, or the fallback line).
pub open spec fn card_cells_spec(cells: Seq<Cell>, w: u16, h: u16, c: CardView) -> Seq<Cell> {
    match card_origin_spec(w, h) {
        None => paint_spec(
            cells,
            w,
            h,
            seq![Stroke { row: 0, col: 0, text: compact_text(c.real_level, c.sigma_text), fg: ACCENT, bold: false, dim: false }],
        ),
        Some((top, left)) => {
            let framed = box_cells(cells, w, top as int, left as int, PANEL_H as int, PANEL_W as int, ACCENT);
            match c.graves {
                Some(g) => graveyard_cells_spec(framed, w, h, top, left, g),
                None => paint_spec(framed, w, h, card_strokes(c, top, left)),
            }
        }
    }
}

/// What drawing the card needs of its inputs: the level can be followed by one more, the
/// xp bar fills at most its width, the sparkles sit in the creature band with lifetimes in
/// range, and the creature's rows stay within 16-bit row numbers.
pub open spec fn card_drawable(c: CardView, h: u16) -> bool {
    let top = (h - PANEL_H) / 2;
    let pose = pose_spec(c.tick, c.level, c.mood, c.celebrating, c.happy);
    &&& c.level < u64::MAX
    &&& c.filled <= BAR_W
    &&& forall|i: int|
        0 <= i < c.sparkles.len() ==> {
            let p = #[trigger] c.sparkles[i];
            &&& 0 <= p.row <= CREATURE_TOP + CREATURE_BAND
            &&& 0 <= p.col < INNER_W
            &&& TTL_MIN <= p.ttl <= TTL_MAX
            &&& 0 <= p.age <= p.ttl
        }
    &&& top + 1 + art_top(c.art.h, pose.bob) + c.art.lines.len() <= u16::MAX + 1
}


/// Write one stroke, recording it after the ones already written.
fn stroke(
    buf: &mut Buffer,
    Ghost(c0): Ghost<Seq<Cell>>,
    Ghost(done): Ghost<Seq<Stroke>>,
    row: u16,
    col: u16,
    text: &str,
    fg: u8,
    bold: bool,
    dim: bool,
) -> (next: Ghost<Seq<Stroke>>)
    requires
        old(buf).wf(),
        old(buf).cells@ == paint_spec(c0, old(buf).w, old(buf).h, done),
    ensures
        final(buf).wf(),
        final(buf).w == old(buf).w,
        final(buf).h == old(buf).h,
        next@ == done.push(Stroke { row, col, text: text@, fg, bold, dim }),
        final(buf).cells@ == paint_spec(c0, old(buf).w, old(buf).h, next@),
{
    buf.put_stroke(row, col, text, fg, bold, dim);
    proof {
        lemma_paint_push(c0, buf.w, buf.h, done, Stroke { row, col, text: text@, fg, bold, dim });
    }
    Ghost(done.push(Stroke { row, col, text: text@, fg, bold, dim }))
}

/// Write `text` centered on row `r` of the card's inside.
fn panel(
    buf: &mut Buffer,
    Ghost(c0): Ghost<Seq<Cell>>,
    done: Ghost<Seq<Stroke>>,
    top: u16,
    left: u16,
    r: u16,
    text: &str,
    fg: u8,
    bold: bool,
    dim: bool,
) -> (next: Ghost<Seq<Stroke>>)
    requires
        old(buf).wf(),
        old(buf).cells@ == paint_spec(c0, old(buf).w, old(buf).h, done@),
        top + 1 + r <= u16::MAX,
        left + 1 + INNER_W / 2 <= u16::MAX,
    ensures
        final(buf).wf(),
        final(buf).w == old(buf).w,
        final(buf).h == old(buf).h,
        next@ == done@.push(panel_stroke(top, left, r as int, text@, fg, bold, dim)),
        final(buf).cells@ == paint_spec(c0, old(buf).w, old(buf).h, next@),
{
    let col = centered_col(left, INNER_W, crate::screen::char_len(text));
    stroke(buf, Ghost(c0), done, top + 1 + r, col, text, fg, bold, dim)
}

/// Write `text` centered on the card's border at row `row`.
fn label(
    buf: &mut Buffer,
    Ghost(c0): Ghost<Seq<Cell>>,
    done: Ghost<Seq<Stroke>>,
    row: u16,
    left: u16,
    text: &str,
    fg: u8,
    bold: bool,
) -> (next: Ghost<Seq<Stroke>>)
    requires
        old(buf).wf(),
        old(buf).cells@ == paint_spec(c0, old(buf).w, old(buf).h, done@),
        text@.len() <= PANEL_W,
        left + PANEL_W / 2 <= u16::MAX,
    ensures
        final(buf).wf(),
        final(buf).w == old(buf).w,
        final(buf).h == old(buf).h,
        next@ == done@.push(label_stroke(row, left, text@, fg, bold)),
        final(buf).cells@ == paint_spec(c0, old(buf).w, old(buf).h, next@),
{
    let col = border_label_col(left, crate::screen::char_len(text));
    stroke(buf, Ghost(c0), done, row, col, text, fg, bold, false)
}

fn text_of(v: Vec<char>) -> (s: String)
    ensures
        s@ == v@,
{
    string_from_chars(v.as_slice())
}

fn title_string(dev: bool, mode: CountMode) -> (s: String)
    ensures
        s@ == title_text(dev, mode),
{
    let mut v: Vec<char> = Vec::new();
    if dev {
        push_str(&mut v, " ⚙ DEV·");
        push_str(&mut v, mode.label());
        push_str(&mut v, " ⚙ ");
    } else {
        push_str(&mut v, " ❋ TOKOTCHI ❋ ");
    }
    text_of(v)
}

fn level_string(level: u64, named: bool) -> (s: String)
    ensures
        s@ == level_text(level, named),
{
    let mut v: Vec<char> = Vec::new();
    push_str(&mut v, "Lv ");
    push_decimal(&mut v, level);
    if named {
        push_str(&mut v, " · ");
        push_str(&mut v, stage_for(level).name);
    }
    proof {
        if !named {
            assert(v@ =~= level_text(level, named));
        }
    }
    text_of(v)
}

fn hearts_string(hearts: u32, mood: Mood) -> (s: String)
    ensures
        s@ == hearts_text(hearts, mood),
{
    let full: usize = if hearts < 5 {
        hearts as usize
    } else {
        5
    };
    let mut v: Vec<char> = Vec::new();
    push_repeat(&mut v, '♥', full);
    push_repeat(&mut v, '♡', 5 - full);
    push_str(&mut v, "  ");
    push_str(&mut v, mood.as_str());
    text_of(v)
}

fn progress_string(into: &String, span: &String, level: u64) -> (s: String)
    requires
        level < u64::MAX,
    ensures
        s@ == progress_text(into@, span@, level),
{
    let mut v: Vec<char> = Vec::new();
    push_str(&mut v, into.as_str());
    push_str(&mut v, " / ");
    push_str(&mut v, span.as_str());
    push_str(&mut v, " → Lv ");
    push_decimal(&mut v, level + 1);
    text_of(v)
}

fn meta_string(generation: u32, streak_days: u32) -> (s: String)
    ensures
        s@ == meta_text(generation, streak_days),
{
    let mut v: Vec<char> = Vec::new();
    push_str(&mut v, "Gen ");
    push_decimal(&mut v, generation as u64);
    if streak_days > 0 {
        push_str(&mut v, "   ·   ");
        push_decimal(&mut v, streak_days as u64);
        push_str(&mut v, "d streak");
    }
    proof {
        if streak_days == 0 {
            assert(v@ =~= meta_text(generation, streak_days));
        }
    }
    text_of(v)
}

/// `prefix`, then `s`, then `suffix`.
fn framed_string(prefix: &str, s: &String, suffix: &str) -> (r: String)
    ensures
        r@ == prefix@ + s@ + suffix@,
{
    let mut v: Vec<char> = Vec::new();
    push_str(&mut v, prefix);
    push_str(&mut v, s.as_str());
    push_str(&mut v, suffix);
    text_of(v)
}

fn grave_string(g: &GraveLine) -> (s: String)
    ensures
        s@ == grave_text(g@),
{
    let mut v: Vec<char> = Vec::new();
    push_str(&mut v, "† Gen ");
    push_decimal(&mut v, g.generation as u64);
    push_str(&mut v, "  ");
    match &g.name {
        Some(n) => push_str(&mut v, n.as_str()),
        None => push_str(&mut v, g.stage.as_str()),
    }
    push_str(&mut v, "  Lv ");
    push_decimal(&mut v, g.peak_level);
    text_of(v)
}

fn compact_string(real_level: u64, sigma: &String) -> (s: String)
    ensures
        s@ == compact_text(real_level, sigma@),
{
    let mut v: Vec<char> = Vec::new();
    push_str(&mut v, "Tokotchi · Lv ");
    push_decimal(&mut v, real_level);
    push_str(&mut v, " · Σ ");
    push_str(&mut v, sigma.as_str());
    push_str(&mut v, "  (resize)");
    text_of(v)
}


fn draw_sparkles(
    buf: &mut Buffer,
    Ghost(c0): Ghost<Seq<Cell>>,
    done: Ghost<Seq<Stroke>>,
    top: u16,
    left: u16,
    ps: &Vec<Particle>,
    fg: u8,
) -> (next: Ghost<Seq<Stroke>>)
    requires
        old(buf).wf(),
        old(buf).cells@ == paint_spec(c0, old(buf).w, old(buf).h, done@),
        top + 1 + CREATURE_TOP + CREATURE_BAND <= u16::MAX,
        left + 1 + INNER_W <= u16::MAX,
        forall|i: int|
            0 <= i < ps@.len() ==> {
                let p = #[trigger] ps@[i];
                &&& 0 <= p.row <= CREATURE_TOP + CREATURE_BAND
                &&& 0 <= p.col < INNER_W
                &&& TTL_MIN <= p.ttl <= TTL_MAX
                &&& 0 <= p.age <= p.ttl
            },
    ensures
        final(buf).wf(),
        final(buf).w == old(buf).w,
        final(buf).h == old(buf).h,
        next@ == done@ + sparkle_strokes(top, left, ps@, fg),
        final(buf).cells@ == paint_spec(c0, old(buf).w, old(buf).h, next@),
{
    let mut d = done;
    let mut i: usize = 0;
    assert(done@ + sparkle_strokes(top, left, ps@.take(0), fg) =~= done@);
    while i < ps.len()
        invariant
            0 <= i <= ps@.len(),
            buf.wf(),
            buf.w == old(buf).w,
            buf.h == old(buf).h,
            top + 1 + CREATURE_TOP + CREATURE_BAND <= u16::MAX,
            left + 1 + INNER_W <= u16::MAX,
            forall|k: int|
                0 <= k < ps@.len() ==> {
                    let p = #[trigger] ps@[k];
                    &&& 0 <= p.row <= CREATURE_TOP + CREATURE_BAND
                    &&& 0 <= p.col < INNER_W
                    &&& TTL_MIN <= p.ttl <= TTL_MAX
                    &&& 0 <= p.age <= p.ttl
                },
            d@ == done@ + sparkle_strokes(top, left, ps@.take(i as int), fg),
            buf.cells@ == paint_spec(c0, buf.w, buf.h, d@),
        decreases ps.len() - i,
    {
        let p = ps[i];
        assert(ps@[i as int] == p);
        let bright = 33 * (p.ttl as i64) <= 100 * (p.age as i64) && 100 * (p.age as i64) <= 66 * (
        p.ttl as i64);
        let text = text_of(vec![p.ch]);
        let ghost before = d@;
        d = stroke(buf, Ghost(c0), d, top + 1 + (p.row as u16), left + 1 + (p.col as u16), text.as_str(), fg, bright, !bright);
        proof {
            assert(text@ =~= seq![p.ch]);
            assert(d@ =~= done@ + sparkle_strokes(top, left, ps@.take(i as int + 1), fg)) by {
                assert(sparkle_strokes(top, left, ps@.take(i as int + 1), fg) =~= sparkle_strokes(
                    top,
                    left,
                    ps@.take(i as int),
                    fg,
                ).push(sparkle_strokes(top, left, ps@.take(i as int + 1), fg)[i as int]));
            }
        }
        i = i + 1;
    }
    assert(ps@.take(ps@.len() as int) =~= ps@);
    d
}

fn draw_art(
    buf: &mut Buffer,
    Ghost(c0): Ghost<Seq<Cell>>,
    done: Ghost<Seq<Stroke>>,
    top: u16,
    left: u16,
    art: &Frame,
    pose: Pose,
) -> (next: Ghost<Seq<Stroke>>)
    requires
        old(buf).wf(),
        old(buf).cells@ == paint_spec(c0, old(buf).w, old(buf).h, done@),
        left + 1 + INNER_W / 2 <= u16::MAX,
        top + 1 + art_top(art.h, pose.bob) + art.lines@.len() <= u16::MAX + 1,
    ensures
        final(buf).wf(),
        final(buf).w == old(buf).w,
        final(buf).h == old(buf).h,
        next@ == done@ + art_strokes(top, left, art@, pose),
        final(buf).cells@ == paint_spec(c0, old(buf).w, old(buf).h, next@),
{
    let (at, al) = art_origin(left, INNER_W, art.w, art.h, pose.bob);
    let ghost lines = art@.lines;
    let mut d = done;
    let mut i: usize = 0;
    assert(art_strokes(top, left, FrameView { lines: lines.take(0), ..art@ }, pose) =~= Seq::<Stroke>::empty());
    assert(done@ + Seq::<Stroke>::empty() =~= done@);
    while i < art.lines.len()
        invariant
            0 <= i <= art.lines@.len(),
            lines == art@.lines,
            lines.len() == art.lines@.len(),
            at as int == art_top(art.h, pose.bob),
            al as int == left + 1 + pad_for(art.w),
            buf.wf(),
            buf.w == old(buf).w,
            buf.h == old(buf).h,
            top + 1 + art_top(art.h, pose.bob) + art.lines@.len() <= u16::MAX + 1,
            d@ == done@ + art_strokes(top, left, FrameView { lines: lines.take(i as int), ..art@ }, pose),
            buf.cells@ == paint_spec(c0, buf.w, buf.h, d@),
        decreases art.lines.len() - i,
    {
        let line = &art.lines[i];
        assert(lines[i as int] == line@);
        d = stroke(buf, Ghost(c0), d, top + 1 + at + (i as u16), al, line.as_str(), pose.fg, pose.glow, false);
        proof {
            let a0 = art_strokes(top, left, FrameView { lines: lines.take(i as int), ..art@ }, pose);
            let a1 = art_strokes(top, left, FrameView { lines: lines.take(i as int + 1), ..art@ }, pose);
            assert(a1 =~= a0.push(a1[i as int]));
            assert(d@ =~= done@ + a1);
        }
        i = i + 1;
    }
    assert(lines.take(lines.len() as int) =~= lines);
    d
}


fn draw_status(
    buf: &mut Buffer,
    Ghost(c0): Ghost<Seq<Cell>>,
    done: Ghost<Seq<Stroke>>,
    top: u16,
    left: u16,
    info: &CardInfo,
    pose: Pose,
) -> (next: Ghost<Seq<Stroke>>)
    requires
        old(buf).wf(),
        old(buf).cells@ == paint_spec(c0, old(buf).w, old(buf).h, done@),
        top + PANEL_H <= u16::MAX,
        left + PANEL_W <= u16::MAX,
        info.level < u64::MAX,
        info.filled <= BAR_W,
        pose == pose_spec(info.tick, info.level, info.mood, info.celebrating, info.happy),
    ensures
        final(buf).wf(),
        final(buf).w == old(buf).w,
        final(buf).h == old(buf).h,
        next@ == done@ + status_strokes(info@, top, left, pose),
        final(buf).cells@ == paint_spec(c0, old(buf).w, old(buf).h, next@),
{
    let stage = stage_for(info.level);
    let mut d = done;
    if info.celebrating {
        d = panel(buf, Ghost(c0), d, top, left, STATUS_ROW, "✦ LEVEL UP! ✦", SPARK, pose.pulse, !pose.pulse);
    } else {
        match &info.naming {
            Some(b) => {
                let t = framed_string("name: ", b, "▏");
                d = panel(buf, Ghost(c0), d, top, left, STATUS_ROW, t.as_str(), CREAM, true, false);
            },
            None => match &info.name {
                Some(n) => {
                    d = panel(buf, Ghost(c0), d, top, left, STATUS_ROW, n.as_str(), pose.fg, true, false);
                },
                None => {
                    d = panel(buf, Ghost(c0), d, top, left, STATUS_ROW, stage.name, pose.fg, true, false);
                },
            },
        }
    }
    let lv = level_string(info.level, info.name.is_some());
    d = panel(buf, Ghost(c0), d, top, left, STATUS_ROW + 1, lv.as_str(), CREAM, true, false);
    match &info.toast {
        Some(m) => {
            d = panel(buf, Ghost(c0), d, top, left, STATUS_ROW + 2, m.as_str(), SPARK, true, false);
        },
        None => {
            let hs = hearts_string(info.hearts, info.mood);
            let fg = if info.mood.is_needy() {
                stage.color
            } else {
                MUTED
            };
            d = panel(buf, Ghost(c0), d, top, left, STATUS_ROW + 2, hs.as_str(), fg, false, info.mood == Mood::Sick);
        },
    }
    let mut filled_v: Vec<char> = Vec::new();
    push_repeat(&mut filled_v, '━', info.filled as usize);
    let filled_t = text_of(filled_v);
    d = stroke(buf, Ghost(c0), d, top + 1 + STATUS_ROW + 4, left + 4, filled_t.as_str(), BAR, true, false);
    let mut rest_v: Vec<char> = Vec::new();
    push_repeat(&mut rest_v, '━', (BAR_W - info.filled) as usize);
    let rest_t = text_of(rest_v);
    d = stroke(buf, Ghost(c0), d, top + 1 + STATUS_ROW + 4, left + 4 + info.filled, rest_t.as_str(), FAINT, false, false);
    let pg = progress_string(&info.into_text, &info.span_text, info.level);
    d = panel(buf, Ghost(c0), d, top, left, STATUS_ROW + 5, pg.as_str(), MUTED, false, false);
    let mt = meta_string(info.generation, info.streak_days);
    d = panel(buf, Ghost(c0), d, top, left, STATUS_ROW + 7, mt.as_str(), MUTED, false, false);
    let sg = framed_string("Σ ", &info.sigma_text, "");
    proof {
        reveal_strlit("");
        assert("Σ "@ + info.sigma_text@ + ""@ =~= "Σ "@ + info.sigma_text@);
    }
    d = panel(buf, Ghost(c0), d, top, left, STATUS_ROW + 8, sg.as_str(), pose.fg, false, false);
    proof {
        assert(d@ =~= done@ + status_strokes(info@, top, left, pose));
    }
    d
}

fn draw_footer(
    buf: &mut Buffer,
    Ghost(c0): Ghost<Seq<Cell>>,
    done: Ghost<Seq<Stroke>>,
    top: u16,
    left: u16,
    dev: bool,
) -> (next: Ghost<Seq<Stroke>>)
    requires
        old(buf).wf(),
        old(buf).cells@ == paint_spec(c0, old(buf).w, old(buf).h, done@),
        top + PANEL_H <= u16::MAX,
        left + PANEL_W <= u16::MAX,
    ensures
        final(buf).wf(),
        final(buf).w == old(buf).w,
        final(buf).h == old(buf).h,
        next@ == done@ + footer_strokes(dev, top, left),
        final(buf).cells@ == paint_spec(c0, old(buf).w, old(buf).h, next@),
{
    let mut d = done;
    if dev {
        d = panel(buf, Ghost(c0), d, top, left, 0, "1-5 mood  [ ]stage  +/-lvl  m mode", MUTED, false, true);
        proof {
            reveal_strlit(" k kill · c fx · r reset · d exit ");
        }
        d = label(buf, Ghost(c0), d, top + PANEL_H - 1, left, " k kill · c fx · r reset · d exit ", MUTED, false);
    } else {
        proof {
            reveal_strlit(" [f]eed [p]et [n]ame [g]rave [q]uit ");
        }
        d = label(buf, Ghost(c0), d, top + PANEL_H - 1, left, " [f]eed [p]et [n]ame [g]rave [q]uit ", MUTED, false);
    }
    proof {
        assert(d@ =~= done@ + footer_strokes(dev, top, left));
    }
    d
}


/// Draw the graveyard inside the card frame at `(top, left)`: its title, the newest graves
/// first (at most `GRAVE_ROWS`, each with its generation, its name or else its stage, and
/// the level it reached) or a note when there are none, and the key hint.
pub fn compose_graveyard(buf: &mut Buffer, top: u16, left: u16, graves: &Vec<GraveLine>)
    requires
        old(buf).wf(),
        top + PANEL_H <= old(buf).h,
        left + PANEL_W <= old(buf).w,
    ensures
        final(buf).wf(),
        final(buf).w == old(buf).w,
        final(buf).h == old(buf).h,
        final(buf).cells@ == graveyard_cells_spec(
            old(buf).cells@,
            old(buf).w,
            old(buf).h,
            top,
            left,
            graves@.map_values(|x: GraveLine| x@),
        ),
{
    let ghost c0 = buf.cells@;
    let ghost gv = graves@.map_values(|x: GraveLine| x@);
    proof {
        reveal_strlit(" ❋ GRAVEYARD ❋ ");
        reveal_strlit(" [g]/[q] back ");
    }
    let d0: Ghost<Seq<Stroke>> = Ghost(Seq::empty());
    let mut d = label(buf, Ghost(c0), d0, top, left, " ❋ GRAVEYARD ❋ ", ACCENT, true);
    let ghost head = d@;
    let n = graves.len();
    if n == 0 {
        d = panel(buf, Ghost(c0), d, top, left, PANEL_H / 2 - 2, "no graves yet —", MUTED, false, false);
        d = panel(buf, Ghost(c0), d, top, left, PANEL_H / 2 - 1, "take good care of it.", MUTED, false, false);
        proof {
            assert(d@ =~= head + grave_rows(top, left, gv));
        }
    } else {
        let rows: usize = if n < GRAVE_ROWS {
            n
        } else {
            GRAVE_ROWS
        };
        let mut i: usize = 0;
        while i < rows
            invariant
                0 <= i <= rows,
                rows <= GRAVE_ROWS,
                rows <= n,
                n == graves@.len(),
                n > 0,
                gv == graves@.map_values(|x: GraveLine| x@),
                rows == (if n < GRAVE_ROWS { n } else { GRAVE_ROWS }),
                buf.wf(),
                buf.w == old(buf).w,
                buf.h == old(buf).h,
                top + PANEL_H <= buf.h,
                left + PANEL_W <= buf.w,
                d@ == head + grave_rows(top, left, gv).take(i as int),
                buf.cells@ == paint_spec(c0, buf.w, buf.h, d@),
            decreases rows - i,
        {
            let g = &graves[n - 1 - i];
            assert(gv[n - 1 - i] == g@);
            let t = grave_string(g);
            d = panel(buf, Ghost(c0), d, top, left, 1 + i as u16, t.as_str(), CREAM, false, false);
            proof {
                let gr = grave_rows(top, left, gv);
                assert(gr.take(i as int + 1) =~= gr.take(i as int).push(gr[i as int]));
                assert(d@ =~= head + gr.take(i as int + 1));
            }
            i = i + 1;
        }
        proof {
            let gr = grave_rows(top, left, gv);
            assert(gr.take(rows as int) =~= gr);
        }
    }
    d = label(buf, Ghost(c0), d, top + PANEL_H - 1, left, " [g]/[q] back ", MUTED, false);
    proof {
        assert(d@ =~= graveyard_strokes(top, left, gv));
    }
}

/// Draw the card's inside (everything but the frame) at `(top, left)`.
fn compose_body(buf: &mut Buffer, top: u16, left: u16, info: &CardInfo)
    requires
        old(buf).wf(),
        card_origin_spec(old(buf).w, old(buf).h) == Some((top, left)),
        card_drawable(info@, old(buf).h),
    ensures
        final(buf).wf(),
        final(buf).w == old(buf).w,
        final(buf).h == old(buf).h,
        final(buf).cells@ == paint_spec(old(buf).cells@, old(buf).w, old(buf).h, card_strokes(info@, top, left)),
{
    let ghost c0 = buf.cells@;
    let pose = creature_pose(info.tick, info.level, info.mood, info.celebrating, info.happy);
    let title = title_string(info.dev, info.mode);
    proof {
        reveal_strlit(" ⚙ DEV·");
        reveal_strlit(" ⚙ ");
        reveal_strlit(" ❋ TOKOTCHI ❋ ");
        reveal_strlit("raw");
        reveal_strlit("sub");
        reveal_strlit("api");
        assert(label_spec(info.mode)@.len() <= 3);
        assert(title@.len() <= PANEL_W);
    }
    let d0: Ghost<Seq<Stroke>> = Ghost(Seq::empty());
    let d = label(buf, Ghost(c0), d0, top, left, title.as_str(), ACCENT, true);
    proof {
        assert forall|i: int| 0 <= i < info.sparkles@.len() implies {
            let p = #[trigger] info.sparkles@[i];
            &&& 0 <= p.row <= CREATURE_TOP + CREATURE_BAND
            &&& 0 <= p.col < INNER_W
            &&& TTL_MIN <= p.ttl <= TTL_MAX
            &&& 0 <= p.age <= p.ttl
        } by {
            assert(info@.sparkles[i] == info.sparkles@[i]);
        }
    }
    let spark_fg = if info.celebrating {
        SPARK
    } else {
        info.accent
    };
    let d = draw_sparkles(buf, Ghost(c0), d, top, left, &info.sparkles, spark_fg);
    let d = draw_art(buf, Ghost(c0), d, top, left, &info.art, pose);
    let d = draw_status(buf, Ghost(c0), d, top, left, info, pose);
    let d = draw_footer(buf, Ghost(c0), d, top, left, info.dev);
    proof {
        assert(d@ =~= card_strokes(info@, top, left));
    }
}

/// Compose one frame of the pet card into `buf`: in a terminal too small for the card, the
/// one-line fallback; otherwise the rounded frame, centered, with either the graveyard or
/// the card's inside (see `card_strokes`).
pub fn compose_card(buf: &mut Buffer, info: &CardInfo)
    requires
        old(buf).wf(),
        card_origin_spec(old(buf).w, old(buf).h) is Some && info.graves is None ==> card_drawable(
            info@,
            old(buf).h,
        ),
    ensures
        final(buf).wf(),
        final(buf).w == old(buf).w,
        final(buf).h == old(buf).h,
        final(buf).cells@ == card_cells_spec(old(buf).cells@, old(buf).w, old(buf).h, info@),
{
    let ghost c0 = buf.cells@;
    match card_origin(buf.w, buf.h) {
        None => {
            let line = compact_string(info.real_level, &info.sigma_text);
            let d0: Ghost<Seq<Stroke>> = Ghost(Seq::empty());
            let _d = stroke(buf, Ghost(c0), d0, 0, 0, line.as_str(), ACCENT, false, false);
            proof {
                assert(_d@ =~= seq![Stroke { row: 0, col: 0, text: compact_text(info.real_level, info.sigma_text@), fg: ACCENT, bold: false, dim: false }]);
            }
        },
        Some((top, left)) => {
            buf.draw_box(top, left, PANEL_H, PANEL_W, ACCENT);
            match &info.graves {
                Some(g) => compose_graveyard(buf, top, left, g),
                None => compose_body(buf, top, left, info),
            }
        },
    }
}

/// The hearts row shows five hearts, the first `hearts` of them filled (all five when
/// `hearts` is 5 or more) and the rest empty, then two spaces and the mood's word.
pub proof fn lemma_hearts_row(hearts: u32, mood: Mood)
    ensures
        hearts_text(hearts, mood).len() == 7 + mood_word(mood)@.len(),
        forall|i: int|
            0 <= i < 5 ==> #[trigger] hearts_text(hearts, mood)[i] == (if i < hearts {
                '♥'
            } else {
                '♡'
            }),
        hearts_text(hearts, mood)[5] == ' ',
        hearts_text(hearts, mood)[6] == ' ',
        hearts_text(hearts, mood).skip(7) == mood_word(mood)@,
{
    reveal_strlit("  ");
    let t = hearts_text(hearts, mood);
    let full: nat = if hearts < 5 {
        hearts as nat
    } else {
        5
    };
    let head = repeat('♥', full) + repeat('♡', (5 - full) as nat);
    assert(t == head + "  "@ + mood_word(mood)@);
    assert forall|i: int| 0 <= i < 5 implies #[trigger] t[i] == (if i < hearts { '♥' } else { '♡' }) by {
        assert(t[i] == head[i]);
        if i < full {
            assert(head[i] == repeat('♥', full)[i]);
        } else {
            assert(head[i] == repeat('♡', (5 - full) as nat)[i - full]);
        }
    }
    assert(t[5] == ("  "@)[0]);
    assert(t[6] == ("  "@)[1]);
    assert(t.skip(7) =~= mood_word(mood)@);
}

} // verus!

//! Layout and look of the pet card: where the card sits in the terminal, where centered
//! text and the creature art go, and which clip, color and weight the creature is drawn in.

use vstd::prelude::*;

use crate::anim::ClipKind;
use crate::care::Mood;
use crate::model::{
    stage_entry, stage_index, stage_position, stage_at, CREATURE_BAND, CREATURE_TOP, MUTED,
    PANEL_H, PANEL_W, STAGE_COUNT,
};

verus! {

/// The card's top-left corner in a `w` by `h` terminal: centered, or `None` when the
/// terminal is too small for the card plus a margin (the compact one-line view is shown).
pub open spec fn card_origin_spec(w: u16, h: u16) -> Option<(u16, u16)> {
    if h < PANEL_H + 1 || w < PANEL_W + 1 {
        None
    } else {
        Some((((h - PANEL_H) / 2) as u16, ((w - PANEL_W) / 2) as u16))
    }
}

/// Where the card goes in a `w` by `h` terminal.
pub fn card_origin(w: u16, h: u16) -> (o: Option<(u16, u16)>)
    ensures
        o == card_origin_spec(w, h),
{
    if h < PANEL_H + 1 || w < PANEL_W + 1 {
        None
    } else {
        Some(((h - PANEL_H) / 2, (w - PANEL_W) / 2))
    }
}

/// The card always fits the terminal it is placed in, with its margins above and below
/// (and left and right) differing by at most one.
pub proof fn lemma_card_fits(w: u16, h: u16)
    ensures
        card_origin_spec(w, h) matches Some((top, left)) ==> {
            &&& top + PANEL_H <= h
            &&& left + PANEL_W <= w
            &&& 0 <= (h - PANEL_H - top) - top <= 1
            &&& 0 <= (w - PANEL_W - left) - left <= 1
        },
{
}

/// The column at which `len` characters sit centered in the `iw`-wide inside of a card whose
/// left border is at column `left` (flush left when the text is wider than the inside).
pub fn centered_col(left: u16, iw: u16, len: u16) -> (c: u16)
    requires
        left as int + 1 + (if len <= iw { (iw - len) as int / 2 } else { 0 }) <= u16::MAX,
    ensures
        c as int == left as int + 1 + (if len <= iw { (iw - len) as int / 2 } else { 0 }),
{
    let pad: u16 = if len <= iw {
        (iw - len) / 2
    } else {
        0
    };
    left + 1 + pad
}

/// The column at which a `len`-character label sits centered on the card's border row.
pub fn border_label_col(left: u16, len: u16) -> (c: u16)
    requires
        len <= PANEL_W,
        left as int + (PANEL_W - len) as int / 2 <= u16::MAX,
    ensures
        c as int == left as int + (PANEL_W - len) as int / 2,
{
    left + (PANEL_W - len) / 2
}

/// How the creature is drawn on a given animation tick.
#[derive(Clone, Copy, PartialEq, Eq, Debug, Structural)]
pub struct Pose {
    /// The clip to play.
    pub kind: ClipKind,
    /// Rows the creature hops up by on this tick (0 or 1).
    pub bob: u16,
    /// Bold rendering: an elder that is not sick, or any pet mid-celebration.
    pub glow: bool,
    /// Foreground color: muted when sick, the stage's own color otherwise.
    pub fg: u8,
    /// Whether the level-up banner is on the bright half of its pulse.
    pub pulse: bool,
}

/// The clip for a tick: celebration first, then the happy reaction, then the sad frame
/// for a down mood, then a blink on two ticks of every 36, else idle.
pub open spec fn clip_kind_spec(celebrating: bool, happy: bool, mood: Mood, tick: u64) -> ClipKind {
    if celebrating {
        ClipKind::Celebrate
    } else if happy {
        ClipKind::Happy
    } else if mood == Mood::Grumpy || mood == Mood::Sick {
        ClipKind::Sad
    } else if tick % 36 < 2 {
        ClipKind::Blink
    } else {
        ClipKind::Idle
    }
}

/// The pose for a tick, level, mood and the two transient states.
pub open spec fn pose_spec(tick: u64, level: u64, mood: Mood, celebrating: bool, happy: bool) -> Pose {
    let stage = stage_index(level);
    Pose {
        kind: clip_kind_spec(celebrating, happy, mood, tick),
        bob: if (tick / 7) % 2 == 0 { 1 } else { 0 },
        glow: (stage == STAGE_COUNT - 1 && mood != Mood::Sick) || celebrating,
        fg: if mood == Mood::Sick { MUTED } else { stage_entry(stage).color },
        pulse: (tick / 4) % 2 == 0,
    }
}

/// How to draw the creature on animation tick `tick` at `level` in `mood`.
pub fn creature_pose(tick: u64, level: u64, mood: Mood, celebrating: bool, happy: bool) -> (p: Pose)
    ensures
        p == pose_spec(tick, level, mood, celebrating, happy),
{
    let stage = stage_position(level);
    let kind = if celebrating {
        ClipKind::Celebrate
    } else if happy {
        ClipKind::Happy
    } else if mood.is_down() {
        ClipKind::Sad
    } else if tick % 36 < 2 {
        ClipKind::Blink
    } else {
        ClipKind::Idle
    };
    let bob: u16 = if (tick / 7) % 2 == 0 {
        1
    } else {
        0
    };
    let glow = (stage == STAGE_COUNT - 1 && mood != Mood::Sick) || celebrating;
    let fg = if mood == Mood::Sick {
        MUTED
    } else {
        stage_at(stage).color
    };
    Pose { kind, bob, glow, fg, pulse: (tick / 4) % 2 == 0 }
}

/// Where a `fw` by `fh` frame of art goes, relative to the card's inside: standing on the
/// bottom of the creature band (raised by `bob`), horizontally centered in `iw` columns.
pub fn art_origin(left: u16, iw: u16, fw: u16, fh: u16, bob: u16) -> (o: (u16, u16))
    requires
        left as int + 1 + (if fw <= iw { (iw - fw) as int / 2 } else { 0 }) <= u16::MAX,
    ensures
        o.0 as int == CREATURE_TOP as int + (if fh + bob <= CREATURE_BAND {
            CREATURE_BAND - fh - bob
        } else {
            0
        }),
        o.1 as int == left as int + 1 + (if fw <= iw { (iw - fw) as int / 2 } else { 0 }),
{
    let down: u16 = if fh <= CREATURE_BAND {
        CREATURE_BAND - fh
    } else {
        0
    };
    let down: u16 = if bob <= down {
        down - bob
    } else {
        0
    };
    (CREATURE_TOP + down, centered_col(left, iw, fw))
}

} // verus!

use tokotchi::anim::ClipKind;
use tokotchi::care::Mood;
use tokotchi::model::{stage_for, MUTED, PANEL_H, PANEL_W};
use tokotchi::scene::{art_origin, border_label_col, card_origin, centered_col, creature_pose};

#[test]
fn card_is_centered_or_compact() {
    assert_eq!(card_origin(80, 24), Some((2, 21)));
    assert_eq!(card_origin(PANEL_W + 1, PANEL_H + 1), Some((0, 0)));
    assert_eq!(card_origin(PANEL_W, 40), None);
    assert_eq!(card_origin(120, PANEL_H), None);
}

#[test]
fn text_is_centered_inside_and_on_the_border() {
    assert_eq!(centered_col(10, 36, 6), 26);
    assert_eq!(centered_col(10, 36, 7), 25);
    // wider than the inside: flush left
    assert_eq!(centered_col(10, 36, 50), 11);
    assert_eq!(border_label_col(10, 14), 22);
}

#[test]
fn pose_follows_events_then_mood_then_blink() {
    let p = creature_pose(5, 1, Mood::Happy, true, true);
    assert_eq!(p.kind, ClipKind::Celebrate);
    assert!(p.glow);
    assert_eq!(creature_pose(5, 1, Mood::Sick, false, true).kind, ClipKind::Happy);
    assert_eq!(creature_pose(5, 1, Mood::Grumpy, false, false).kind, ClipKind::Sad);
    assert_eq!(creature_pose(37, 1, Mood::Content, false, false).kind, ClipKind::Blink);
    assert_eq!(creature_pose(38, 1, Mood::Content, false, false).kind, ClipKind::Idle);
}

#[test]
fn pose_color_glow_bob_and_pulse() {
    let sick = creature_pose(0, 150, Mood::Sick, false, false);
    assert_eq!(sick.fg, MUTED);
    assert!(!sick.glow);
    let elder = creature_pose(0, 150, Mood::Content, false, false);
    assert_eq!(elder.fg, stage_for(150).color);
    assert!(elder.glow);
    assert!(!creature_pose(0, 20, Mood::Content, false, false).glow);
    assert_eq!(creature_pose(6, 1, Mood::Content, false, false).bob, 1);
    assert_eq!(creature_pose(7, 1, Mood::Content, false, false).bob, 0);
    assert!(creature_pose(3, 1, Mood::Content, false, false).pulse);
    assert!(!creature_pose(4, 1, Mood::Content, false, false).pulse);
}

#[test]
fn art_stands_on_the_band_floor() {
    // a 4-row frame in the 6-row band starting at row 1, lifted one row by the bob
    assert_eq!(art_origin(10, 36, 12, 4, 1), (2, 23));
    assert_eq!(art_origin(10, 36, 12, 4, 0), (3, 23));
    // too tall: pinned to the band's top
    assert_eq!(art_origin(10, 36, 40, 9, 1), (1, 11));
}

#[test]
fn card_fits_with_balanced_margins() {
    for (w, h) in [(39u16, 21u16), (80, 24), (81, 25), (200, 60)] {
        let (top, left) = card_origin(w, h).unwrap();
        let (bottom, right) = (h - PANEL_H - top, w - PANEL_W - left);
        assert!(bottom >= top && bottom - top <= 1);
        assert!(right >= left && right - left <= 1);
    }
}

#[test]
fn centering_near_the_right_edge_of_the_coordinates() {
    assert_eq!(centered_col(65534, 4, 4), 65535);
    assert_eq!(border_label_col(65516, 38), 65516);
    assert_eq!(art_origin(65534, 4, 4, 2, 0), (5, 65535));
}

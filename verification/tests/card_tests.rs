use tokotchi::anim::Frame;
use tokotchi::card::{compose_card, compose_graveyard, CardInfo, GraveLine};
use tokotchi::care::Mood;
use tokotchi::mode::CountMode;
use tokotchi::model::{ACCENT, BAR, CREAM, FAINT, MUTED, SPARK};
use tokotchi::particles::Particle;
use tokotchi::screen::Buffer;

fn row_text(b: &Buffer, row: usize) -> String {
    let w = b.w as usize;
    b.cells[row * w..(row + 1) * w].iter().map(|c| c.ch).collect()
}

fn info() -> CardInfo {
    CardInfo {
        level: 3,
        real_level: 3,
        name: Some("Bo".to_string()),
        naming: None,
        celebrating: false,
        happy: false,
        tick: 10,
        mood: Mood::Content,
        hearts: 3,
        toast: None,
        filled: 10,
        into_text: "1.0M".to_string(),
        span_text: "7.0M".to_string(),
        sigma_text: "4.0M".to_string(),
        generation: 2,
        streak_days: 5,
        dev: false,
        mode: CountMode::Raw,
        sparkles: Vec::new(),
        accent: 208,
        art: Frame { lines: vec!["ab".to_string(), "cd".to_string()], w: 2, h: 2 },
        graves: None,
    }
}

#[test]
fn card_rows_show_name_level_hearts_bar_and_counts() {
    let mut b = Buffer::new(40, 22);
    compose_card(&mut b, &info());
    // frame at (1, 1), 20 rows by 38 columns, title centered on the top border
    assert_eq!(b.cells[1 * 40 + 1].ch, '╭');
    assert_eq!(b.cells[1 * 40 + 38].ch, '╮');
    assert!(row_text(&b, 1).contains(" ❋ TOKOTCHI ❋ "));
    assert_eq!(b.cells[1 * 40 + 13].ch, ' ');
    assert_eq!(b.cells[1 * 40 + 14].ch, '❋');
    // creature rows stand on the band's floor, centered
    assert_eq!(&row_text(&b, 7)[..], " │                 ab                 │ ");
    assert_eq!(&row_text(&b, 8)[..], " │                 cd                 │ ");
    // status rows
    assert_eq!(row_text(&b, 10).trim_matches(|c| c == ' ' || c == '│'), "Bo");
    assert_eq!(b.cells[10 * 40 + 19].ch, 'B');
    assert_eq!(row_text(&b, 11).trim_matches(|c| c == ' ' || c == '│'), "Lv 3 · Egg");
    assert_eq!(b.cells[11 * 40 + 15].fg, CREAM);
    assert_eq!(row_text(&b, 12).trim_matches(|c| c == ' ' || c == '│'), "♥♥♥♡♡  content");
    assert_eq!(b.cells[12 * 40 + 14].fg, MUTED);
    let bar: String = row_text(&b, 14).chars().skip(5).take(30).collect();
    assert_eq!(bar, "━".repeat(30));
    assert_eq!(b.cells[14 * 40 + 5].fg, BAR);
    assert_eq!(b.cells[14 * 40 + 14].fg, BAR);
    assert_eq!(b.cells[14 * 40 + 15].fg, FAINT);
    assert_eq!(row_text(&b, 15).trim_matches(|c| c == ' ' || c == '│'), "1.0M / 7.0M → Lv 4");
    assert_eq!(row_text(&b, 17).trim_matches(|c| c == ' ' || c == '│'), "Gen 2   ·   5d streak");
    assert_eq!(row_text(&b, 18).trim_matches(|c| c == ' ' || c == '│'), "Σ 4.0M");
    assert!(row_text(&b, 20).contains(" [f]eed [p]et [n]ame [g]rave [q]uit "));
    assert!(row_text(&b, 20).starts_with(" ╰"));
    assert_eq!(row_text(&b, 21), " ".repeat(40));
}

#[test]
fn title_row_prefers_banner_then_prompt_then_name_then_stage() {
    let mut i = info();
    i.naming = Some("Re".to_string());
    let mut b = Buffer::new(40, 22);
    compose_card(&mut b, &i);
    assert_eq!(row_text(&b, 10).trim_matches(|c| c == ' ' || c == '│'), "name: Re▏");
    i.celebrating = true;
    let mut b = Buffer::new(40, 22);
    compose_card(&mut b, &i);
    assert_eq!(row_text(&b, 10).trim_matches(|c| c == ' ' || c == '│'), "✦ LEVEL UP! ✦");
    assert_eq!(b.cells[10 * 40 + 13].fg, SPARK);
    let mut i = info();
    i.name = None;
    let mut b = Buffer::new(40, 22);
    compose_card(&mut b, &i);
    assert_eq!(row_text(&b, 10).trim_matches(|c| c == ' ' || c == '│'), "Egg");
    assert_eq!(row_text(&b, 11).trim_matches(|c| c == ' ' || c == '│'), "Lv 3");
}

#[test]
fn toast_replaces_hearts_and_dev_panel_changes_title_and_footer() {
    let mut i = info();
    i.toast = Some("*nom*  ♥".to_string());
    i.dev = true;
    i.mode = CountMode::Api;
    let mut b = Buffer::new(40, 22);
    compose_card(&mut b, &i);
    assert_eq!(row_text(&b, 12).trim_matches(|c| c == ' ' || c == '│'), "*nom*  ♥");
    assert!(row_text(&b, 1).contains(" ⚙ DEV·api ⚙ "));
    assert!(row_text(&b, 2).contains("1-5 mood  [ ]stage  +/-lvl  m mode"));
    assert!(row_text(&b, 20).contains(" k kill · c fx · r reset · d exit "));
}

#[test]
fn sick_pet_is_muted_and_hearts_dim() {
    let mut i = info();
    i.mood = Mood::Sick;
    i.hearts = 9;
    let mut b = Buffer::new(40, 22);
    compose_card(&mut b, &i);
    assert_eq!(row_text(&b, 12).trim_matches(|c| c == ' ' || c == '│'), "♥♥♥♥♥  sick");
    let c = b.cells[12 * 40 + 14];
    assert!(c.dim);
    assert_ne!(c.fg, MUTED);
    assert_eq!(b.cells[7 * 40 + 19].fg, MUTED);
}

#[test]
fn sparkles_are_bright_in_the_middle_of_their_life() {
    let mut i = info();
    i.sparkles = vec![
        Particle { row: 0, col: 0, ch: '✦', age: 5, ttl: 12 },
        Particle { row: 0, col: 1, ch: '·', age: 1, ttl: 12 },
    ];
    let mut b = Buffer::new(40, 22);
    compose_card(&mut b, &i);
    let bright = b.cells[2 * 40 + 2];
    assert_eq!((bright.ch, bright.bold, bright.dim, bright.fg), ('✦', true, false, 208));
    let faint = b.cells[2 * 40 + 3];
    assert_eq!((faint.ch, faint.bold, faint.dim), ('·', false, true));
}

#[test]
fn too_small_terminal_gets_the_one_line_fallback() {
    let mut b = Buffer::new(60, 10);
    compose_card(&mut b, &info());
    assert!(row_text(&b, 0).starts_with("Tokotchi · Lv 3 · Σ 4.0M  (resize)"));
    assert_eq!(b.cells[0].fg, ACCENT);
    assert_eq!(row_text(&b, 1), " ".repeat(60));
}

fn grave(g: u32, name: Option<&str>, stage: &str, lvl: u64) -> GraveLine {
    GraveLine { generation: g, name: name.map(String::from), stage: stage.to_string(), peak_level: lvl }
}

#[test]
fn graveyard_lists_newest_first_with_stage_for_unnamed() {
    let mut i = info();
    i.graves = Some(vec![grave(1, Some("Rex"), "Critter", 49), grave(2, None, "Egg", 1)]);
    let mut b = Buffer::new(40, 22);
    compose_card(&mut b, &i);
    assert!(row_text(&b, 1).contains(" ❋ GRAVEYARD ❋ "));
    assert_eq!(row_text(&b, 3).trim_matches(|c| c == ' ' || c == '│'), "† Gen 2  Egg  Lv 1");
    assert_eq!(row_text(&b, 4).trim_matches(|c| c == ' ' || c == '│'), "† Gen 1  Rex  Lv 49");
    assert!(row_text(&b, 20).contains(" [g]/[q] back "));
}

#[test]
fn graveyard_shows_at_most_sixteen_and_a_note_when_empty() {
    let graves: Vec<GraveLine> = (1..=20).map(|g| grave(g, None, "Egg", 1)).collect();
    let mut b = Buffer::new(40, 22);
    compose_graveyard(&mut b, 1, 1, &graves);
    assert_eq!(row_text(&b, 3).trim_matches(|c| c == ' '), "† Gen 20  Egg  Lv 1");
    assert_eq!(row_text(&b, 18).trim_matches(|c| c == ' '), "† Gen 5  Egg  Lv 1");
    assert_eq!(row_text(&b, 19).trim_matches(|c| c == ' '), "");
    let mut b = Buffer::new(40, 22);
    compose_graveyard(&mut b, 1, 1, &Vec::new());
    assert_eq!(row_text(&b, 10).trim(), "no graves yet —");
    assert_eq!(row_text(&b, 11).trim(), "take good care of it.");
}

#[test]
fn celebration_sparkles_are_pale_gold() {
    let mut i = info();
    i.celebrating = true;
    i.sparkles = vec![Particle { row: 0, col: 0, ch: '✦', age: 5, ttl: 12 }];
    let mut b = Buffer::new(40, 22);
    compose_card(&mut b, &i);
    assert_eq!(b.cells[2 * 40 + 2].fg, SPARK);
}

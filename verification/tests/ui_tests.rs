use tokotchi::care::Mood;
use tokotchi::ui::{handle_key, Key, KeyAction, UiMode, NAME_MAX};

fn naming_text(m: &UiMode) -> Option<String> {
    match m {
        UiMode::Naming(s) => Some(s.clone()),
        _ => None,
    }
}

#[test]
fn naming_prompt_starts_from_the_current_name_and_stores_it_trimmed() {
    let mut ui = UiMode::Normal;
    let a = handle_key(Key::Char('n'), &mut ui, &Some("Bo".to_string()), false, 1);
    assert!(matches!(a, KeyAction::Nothing));
    assert_eq!(naming_text(&ui).as_deref(), Some("Bo"));
    handle_key(Key::Backspace, &mut ui, &None, false, 1);
    for c in "b  ".chars() {
        handle_key(Key::Char(c), &mut ui, &None, false, 1);
    }
    assert_eq!(naming_text(&ui).as_deref(), Some("Bb  "));
    match handle_key(Key::Enter, &mut ui, &None, false, 1) {
        KeyAction::SetName(Some(n)) => assert_eq!(n, "Bb"),
        _ => panic!("expected a name"),
    }
    assert!(matches!(ui, UiMode::Normal));
}

#[test]
fn naming_prompt_caps_length_and_ignores_control_characters() {
    let mut ui = UiMode::Naming(String::new());
    for _ in 0..NAME_MAX + 5 {
        handle_key(Key::Char('x'), &mut ui, &None, false, 1);
    }
    handle_key(Key::Char('\u{7}'), &mut ui, &None, false, 1);
    assert_eq!(naming_text(&ui).map(|s| s.chars().count()), Some(NAME_MAX));
}

#[test]
fn blank_name_clears_and_escape_cancels() {
    let mut ui = UiMode::Naming("   ".to_string());
    assert!(matches!(handle_key(Key::Enter, &mut ui, &None, false, 1), KeyAction::SetName(None)));
    let mut ui = UiMode::Naming("Rex".to_string());
    assert!(matches!(handle_key(Key::Esc, &mut ui, &None, false, 1), KeyAction::Nothing));
    assert!(matches!(ui, UiMode::Normal));
}

#[test]
fn card_keys_feed_pet_quit_and_graveyard() {
    let mut ui = UiMode::Normal;
    assert!(matches!(handle_key(Key::Char('f'), &mut ui, &None, false, 1), KeyAction::Feed));
    assert!(matches!(handle_key(Key::Char('p'), &mut ui, &None, false, 1), KeyAction::Pet));
    assert!(matches!(handle_key(Key::Char('Q'), &mut ui, &None, false, 1), KeyAction::Quit));
    handle_key(Key::Char('g'), &mut ui, &None, false, 1);
    assert!(matches!(ui, UiMode::Graveyard));
    assert!(matches!(handle_key(Key::Char('q'), &mut ui, &None, false, 1), KeyAction::Nothing));
    assert!(matches!(ui, UiMode::Normal));
}

#[test]
fn dev_panel_needs_the_flag() {
    let mut ui = UiMode::Normal;
    handle_key(Key::Char('d'), &mut ui, &None, false, 1);
    assert!(matches!(ui, UiMode::Normal));
    assert!(matches!(handle_key(Key::Char('k'), &mut ui, &None, false, 1), KeyAction::Nothing));
    handle_key(Key::Char('d'), &mut ui, &None, true, 1);
    assert!(matches!(ui, UiMode::Dev));
    assert!(matches!(handle_key(Key::Char('k'), &mut ui, &None, true, 1), KeyAction::Kill));
}

#[test]
fn dev_panel_previews() {
    let mut ui = UiMode::Dev;
    assert!(matches!(
        handle_key(Key::Char('5'), &mut ui, &None, true, 1),
        KeyAction::PreviewMood(Mood::Sick)
    ));
    assert!(matches!(handle_key(Key::Char(']'), &mut ui, &None, true, 7), KeyAction::PreviewLevel(15)));
    assert!(matches!(handle_key(Key::Char('['), &mut ui, &None, true, 7), KeyAction::PreviewLevel(1)));
    assert!(matches!(handle_key(Key::Char('-'), &mut ui, &None, true, 1), KeyAction::PreviewLevel(1)));
    assert!(matches!(
        handle_key(Key::Char('+'), &mut ui, &None, true, u64::MAX),
        KeyAction::PreviewLevel(u64::MAX)
    ));
    handle_key(Key::Esc, &mut ui, &None, true, 1);
    assert!(matches!(ui, UiMode::Normal));
}

#[test]
fn r_refreshes_the_ledger_from_the_card() {
    let mut ui = UiMode::Normal;
    assert!(matches!(handle_key(Key::Char('r'), &mut ui, &None, false, 1), KeyAction::Refresh));
    assert!(matches!(ui, UiMode::Normal));
    // in the dev panel, r drops the previews
    let mut ui = UiMode::Dev;
    assert!(matches!(handle_key(Key::Char('r'), &mut ui, &None, true, 1), KeyAction::ResetPreviews));
}

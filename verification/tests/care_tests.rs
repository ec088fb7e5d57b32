use tokotchi::care::{credit_streak_day, CareResult, Mood, Streak};

#[test]
fn mood_words_and_flags() {
    let all = [Mood::Newborn, Mood::Happy, Mood::Content, Mood::Hungry, Mood::Grumpy, Mood::Sick];
    let words: Vec<&str> = all.iter().map(|m| m.as_str()).collect();
    assert_eq!(words, vec!["newborn", "happy", "content", "hungry", "grumpy", "sick"]);
    let needy: Vec<bool> = all.iter().map(|m| m.is_needy()).collect();
    assert_eq!(needy, vec![false, false, false, true, true, true]);
    let down: Vec<bool> = all.iter().map(|m| m.is_down()).collect();
    assert_eq!(down, vec![false, false, false, false, true, true]);
    assert_ne!(CareResult::Done, CareResult::Cooldown);
}

#[test]
fn streak_grows_restarts_and_breaks() {
    let s = Streak { days: 3, last_day: 100 };
    // already credited today: nothing changes
    assert_eq!(credit_streak_day(s, 100, true, false), s);
    // good day right after: +1
    assert_eq!(credit_streak_day(s, 101, true, false), Streak { days: 4, last_day: 101 });
    // good day after a gap: restart at 1
    assert_eq!(credit_streak_day(s, 103, true, false), Streak { days: 1, last_day: 103 });
    // sick or inactive the very next day: unchanged
    assert_eq!(credit_streak_day(s, 101, true, true), s);
    assert_eq!(credit_streak_day(s, 101, false, false), s);
    // a bad day after a full missed day breaks it
    assert_eq!(credit_streak_day(s, 102, false, false), Streak { days: 0, last_day: 100 });
}

#[test]
fn streak_credit_is_idempotent_within_a_day() {
    let s = Streak { days: 9, last_day: 40 };
    for (today, active, sick) in [(41, true, false), (45, false, false), (41, false, true), (39, true, false)] {
        let once = credit_streak_day(s, today, active, sick);
        assert_eq!(credit_streak_day(once, today, active, sick), once);
    }
}

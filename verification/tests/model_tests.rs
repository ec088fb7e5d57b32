use tokotchi::model::{level_for, level_for_gen, progress_tokens, stage_at, stage_for, stage_step, STAGE_COUNT, UNIT};

#[test]
fn level_curve() {
    assert_eq!(level_for(0), 1); // floor is 1, never 0
    assert_eq!(level_for(999_999), 1);
    assert_eq!(level_for(1_000_000), 1);
    assert_eq!(level_for(4_000_000), 2);
    assert_eq!(level_for(2_401_000_000), 49); // ~current real total
    assert_eq!(level_for(2_500_000_000), 50);
}

#[test]
fn stages() {
    assert_eq!(stage_for(1).name, "Egg");
    assert_eq!(stage_for(4).name, "Egg");
    assert_eq!(stage_for(5).name, "Blob");
    assert_eq!(stage_for(49).name, "Critter");
    assert_eq!(stage_for(250).name, "Elder");
}

#[test]
fn alt_frames_match_base_per_line() {
    // Art lines are ragged-width (each is centered independently), but the blink (1) and
    // sad (2) frames must match base (0) line-for-line so nothing reflows.
    for i in 0..STAGE_COUNT {
        let st = stage_at(i);
        for alt in [1usize, 2] {
            for (a, b) in st.frames[0].iter().zip(st.frames[alt].iter()) {
                assert_eq!(a.chars().count(), b.chars().count(), "stage {} frame {alt} reflows", st.name);
            }
        }
    }
}

#[test]
fn per_generation_level() {
    assert_eq!(level_for_gen(2_401_000_000, 0), 49); // grandfathered gen 1
    assert_eq!(level_for_gen(2_401_000_000, 2_400_000_000), 1); // reborn: ~1M since birth
    assert_eq!(level_for_gen(2_400_000_000, 2_500_000_000), 1); // birth after current → floor 1
}

#[test]
fn progress_tokens_bounds() {
    // exactly on a level floor -> 0 tokens into the level
    let (into, span) = progress_tokens(49 * 49 * UNIT);
    assert_eq!(into, 0);
    assert_eq!(span, (50 * 50 - 49 * 49) * UNIT);
    // total below the level-1 floor clamps to 0 and never underflows
    let (into, span) = progress_tokens(0);
    assert_eq!(into, 0);
    assert_eq!(span, (4 - 1) * UNIT);
    // partway into a level
    let (into, span) = progress_tokens(5_000_000);
    assert_eq!(into, 1_000_000);
    assert_eq!(span, 5 * UNIT);
}

#[test]
fn readme_evolution_table_thresholds() {
    // README: level = floor(sqrt(Σ / 1,000,000)); Blob ~25M, Sprout ~225M, Critter ~900M,
    // Beast ~3.6B, Elder ~10B.
    assert_eq!(stage_for(level_for(25_000_000)).name, "Blob");
    assert_eq!(stage_for(level_for(24_999_999)).name, "Egg");
    assert_eq!(stage_for(level_for(225_000_000)).name, "Sprout");
    assert_eq!(stage_for(level_for(900_000_000)).name, "Critter");
    assert_eq!(stage_for(level_for(3_600_000_000)).name, "Beast");
    assert_eq!(stage_for(level_for(10_000_000_000)).name, "Elder");
    assert_eq!(stage_for(level_for(9_999_999_999)).name, "Beast");
}

#[test]
fn level_is_monotone_on_samples() {
    let mut prev = level_for(0);
    let mut t: u64 = 0;
    while t < 50_000_000_000 {
        let l = level_for(t);
        assert!(l >= prev);
        prev = l;
        t += 7_777_777;
    }
    assert_eq!(level_for(u64::MAX), 4_294_967);
}

#[test]
fn stage_step_moves_between_entry_levels() {
    assert_eq!(stage_step(49, 1), 60); // critter -> beast
    assert_eq!(stage_step(49, -1), 15); // critter -> sprout
    assert_eq!(stage_step(1, -1), 1); // clamps at egg
    assert_eq!(stage_step(250, 1), 100); // clamps at elder
    assert_eq!(stage_step(0, 0), 1);
}

#[test]
fn stage_table_colors_and_emoji() {
    let st = stage_for(30);
    assert_eq!(st.min_level, 30);
    assert_eq!(st.emoji, "🐱");
    assert_eq!(st.color, 173);
    assert_eq!(stage_for(100).color, 215);
}

use tokotchi::model::level_for;
use tokotchi::state::{economy_is_stale, grandfather_economy, legacy_economy, observe_total, reincarnate, relevel, Economy};

#[test]
fn grandfathered_gen1_shows_honest_level() {
    let e = grandfather_economy(21_500_000, 1);
    assert_eq!(e, Economy { gen_stamp: 1, birth_sigma: 0, last_seen_sigma: 21_500_000, level: level_for(21_500_000) });
    assert_eq!(e.level, 4);
    let api = grandfather_economy(4_000_000, 0); // generation 0 reads as 1
    assert_eq!(api.gen_stamp, 1);
    assert_eq!(api.level, 2);
}

#[test]
fn reborn_generation_starts_a_fresh_egg() {
    let e = grandfather_economy(2_400_000_000, 2);
    assert_eq!(e, Economy { gen_stamp: 2, birth_sigma: 2_400_000_000, last_seen_sigma: 2_400_000_000, level: 1 });
}

#[test]
fn staleness_follows_generation() {
    let e = grandfather_economy(10, 3);
    assert!(!economy_is_stale(Some(&e), 3));
    assert!(economy_is_stale(Some(&e), 4));
    assert!(economy_is_stale(None, 1));
}

#[test]
fn legacy_lineage_keeps_its_level() {
    let e = legacy_economy(1, 0, 2_718_174_087, 52);
    assert_eq!(e, Economy { gen_stamp: 1, birth_sigma: 0, last_seen_sigma: 2_718_174_087, level: 52 });
    let z = legacy_economy(0, 5, 6, 0);
    assert_eq!((z.gen_stamp, z.level), (1, 1));
}

#[test]
fn observing_tokens_and_leveling_up() {
    let mut e = grandfather_economy(3_999_999, 1);
    assert_eq!(e.level, 1);
    assert!(!observe_total(&mut e, 3_999_999));
    assert!(observe_total(&mut e, 4_000_000));
    assert_eq!(e.last_seen_sigma, 4_000_000);
    assert!(relevel(&mut e, 4_000_000));
    assert_eq!(e.level, 2);
    assert!(!relevel(&mut e, 8_999_999));
    assert!(relevel(&mut e, 9_000_000));
    assert_eq!(e.level, 3);
    // a lower total is not activity and does not move the edge
    assert!(!observe_total(&mut e, 1));
    assert_eq!(e.last_seen_sigma, 4_000_000);
}

#[test]
fn reincarnation_buries_the_pet_and_hatches_an_egg() {
    let (grave, next, eco) = reincarnate(3, &Some("Rex".to_string()), 49, 2_400_000_000);
    assert_eq!(grave.generation, 3);
    assert_eq!(grave.name.as_deref(), Some("Rex"));
    assert_eq!(grave.stage, "Critter");
    assert_eq!(grave.peak_level, 49);
    assert_eq!(next, 4);
    assert_eq!(eco, Economy { gen_stamp: 4, birth_sigma: 2_400_000_000, last_seen_sigma: 2_400_000_000, level: 1 });
    let (grave, _, _) = reincarnate(1, &None, 2, 0);
    assert_eq!((grave.name, grave.stage.as_str()), (None, "Egg"));
}

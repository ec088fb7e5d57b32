use tokotchi::particles::{
    advance_particles, new_sparkle, sparkle_glyph, step_particles, step_particles_with, Particle, BURST_CAP, SPARKLE_COUNT,
    TTL_MAX, TTL_MIN,
};

fn p(age: i32, ttl: i32) -> Particle {
    Particle { row: 1, col: 2, ch: '·', age, ttl }
}

#[test]
fn advancing_ages_and_drops_the_expired_in_order() {
    let mut ps = vec![p(0, 3), p(2, 3), p(5, 9), p(8, 9)];
    advance_particles(&mut ps);
    assert_eq!(ps, vec![p(1, 3), p(6, 9)]);
}

#[test]
fn no_sparkles_are_added_outside_a_celebration() {
    let mut ps = vec![p(0, 12)];
    for _ in 0..50 {
        step_particles(&mut ps, 7, 36, false, 0, &Vec::new());
    }
    assert!(ps.is_empty());
}

#[test]
fn celebration_sparkles_land_in_the_band() {
    let mut ps: Vec<Particle> = Vec::new();
    let glyphs: Vec<char> = (0..SPARKLE_COUNT).map(sparkle_glyph).collect();
    for _ in 0..400 {
        let before = ps.len();
        step_particles(&mut ps, 7, 36, true, 0, &Vec::new());
        assert!(ps.len() <= BURST_CAP);
        assert!(ps.len() <= before + 1);
        for q in &ps {
            assert!((0..=7).contains(&q.row));
            assert!((0..36).contains(&q.col));
            assert!(glyphs.contains(&q.ch));
            assert!((TTL_MIN..=TTL_MAX).contains(&q.ttl));
            assert!(q.age < q.ttl);
        }
    }
    assert!(!ps.is_empty());
}

#[test]
fn a_new_sparkle_starts_at_age_zero() {
    assert_eq!(new_sparkle(3, 4, '✦', 15), Particle { row: 3, col: 4, ch: '✦', age: 0, ttl: 15 });
}

#[test]
fn sparkles_stay_in_band_over_many_ticks() {
    let mut ps: Vec<Particle> = Vec::new();
    for tick in 0..300 {
        step_particles(&mut ps, 3, 5, tick % 50 < 40, 30, &vec!['*', '+']);
        for q in &ps {
            assert!((0..=3).contains(&q.row) && (0..5).contains(&q.col));
            assert!(0 <= q.age && q.age < q.ttl);
        }
    }
}

#[test]
fn the_roll_decides_whether_a_sparkle_is_added() {
    let mut ps = vec![p(0, 12)];
    step_particles_with(&mut ps, true, 0, &Vec::new(), 84, 3, 4, 1, 15);
    assert_eq!(ps, vec![p(1, 12), Particle { row: 3, col: 4, ch: '✦', age: 0, ttl: 15 }]);
    let mut ps = vec![p(0, 12)];
    step_particles_with(&mut ps, true, 0, &Vec::new(), 85, 3, 4, 1, 15);
    assert_eq!(ps, vec![p(1, 12)]);
    let mut ps = vec![p(0, 12)];
    step_particles_with(&mut ps, false, 0, &Vec::new(), 0, 3, 4, 1, 15);
    assert_eq!(ps, vec![p(1, 12)]);
    let mut ps: Vec<Particle> = (0..BURST_CAP).map(|_| p(0, 12)).collect();
    step_particles_with(&mut ps, true, 0, &Vec::new(), 0, 3, 4, 1, 15);
    assert_eq!(ps.len(), BURST_CAP);
}

#[test]
fn ambient_sparkles_follow_the_stage_flavor() {
    let glyphs = vec!['*', '+'];
    // below the ambient chance: a sparkle with the stage's glyph
    let mut ps = vec![p(0, 12)];
    step_particles_with(&mut ps, false, 30, &glyphs, 29, 2, 3, 1, 11);
    assert_eq!(ps, vec![p(1, 12), Particle { row: 2, col: 3, ch: '+', age: 0, ttl: 11 }]);
    // at the chance: none
    let mut ps = vec![p(0, 12)];
    step_particles_with(&mut ps, false, 30, &glyphs, 30, 2, 3, 1, 11);
    assert_eq!(ps, vec![p(1, 12)]);
    // the ambient cap is 10
    let mut ps: Vec<Particle> = (0..10).map(|_| p(0, 12)).collect();
    step_particles_with(&mut ps, false, 100, &glyphs, 0, 2, 3, 1, 11);
    assert_eq!(ps.len(), 10);
    // no glyphs: none
    let mut ps = Vec::new();
    step_particles_with(&mut ps, false, 100, &Vec::new(), 0, 2, 3, 0, 11);
    assert!(ps.is_empty());
    // many ambient ticks stay within the cap and the glyph set
    let mut ps: Vec<Particle> = Vec::new();
    for _ in 0..300 {
        step_particles(&mut ps, 7, 36, false, 100, &glyphs);
        assert!(ps.len() <= 10);
        assert!(ps.iter().all(|q| glyphs.contains(&q.ch)));
    }
}

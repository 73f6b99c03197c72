use embed_core::cadence::{ReseedClock, RECOMPUTE_EVERY};

#[test]
fn reseeds_every_sixteen_windows() {
    assert_eq!(RECOMPUTE_EVERY, 16);
    let mut clock = ReseedClock::new(3);
    assert_eq!(clock.every(), 48);
    for k in 1..=200usize {
        assert_eq!(clock.tick(), k % 48 == 0, "tick {k}");
    }
}

#[test]
fn sma20_reseeds_after_320_updates() {
    let mut clock = ReseedClock::new(20);
    let due: Vec<usize> = (1..=1000usize).filter(|_| clock.tick()).collect();
    assert_eq!(due, vec![320, 640, 960]);
}

#[test]
fn empty_window_reseeds_on_every_tick() {
    let mut clock = ReseedClock::new(0);
    for _ in 0..10 {
        assert!(clock.tick());
    }
}

#[test]
fn clone_keeps_the_count() {
    let mut clock = ReseedClock::new(1);
    for _ in 0..15 {
        assert!(!clock.tick());
    }
    let mut copy = clock.clone();
    assert!(copy.tick());
    assert!(clock.tick());
}

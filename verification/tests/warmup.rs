use embed_core::warmup::{Phase, Warmup};

fn run(w: &mut Warmup, n: usize) -> Vec<Phase> {
    (0..n).map(|_| w.step()).collect()
}

#[test]
fn ema_lifecycle_matches_wickra_core() {
    let mut e = Warmup::new(20);
    assert_eq!(e.warmup_period(), 20, "ema warmup");
    let warmup = e.warmup_period();
    run(&mut e, warmup - 1);
    assert!(!e.is_ready());
    run(&mut e, 1);
    assert!(e.is_ready());
    e.reset();
    assert!(!e.is_ready());
    assert_eq!(e.period(), 20);
}

#[test]
fn rsi_lifecycle_matches_wickra_core() {
    let mut e = Warmup::with_baseline(14);
    assert_eq!(e.warmup_period(), 15, "rsi warmup");
    let warmup = e.warmup_period();
    run(&mut e, warmup - 1);
    assert!(!e.is_ready());
    run(&mut e, 1);
    assert!(e.is_ready());
    e.reset();
    assert!(!e.is_ready());
}

#[test]
fn atr_lifecycle_matches_wickra_core() {
    let mut e = Warmup::new(14);
    assert_eq!(e.warmup_period(), 14, "atr warmup");
    let warmup = e.warmup_period();
    run(&mut e, warmup - 1);
    assert!(!e.is_ready(), "not ready one short of warmup");
    run(&mut e, 1);
    assert!(e.is_ready(), "ready at warmup");
    e.reset();
    assert!(!e.is_ready(), "reset clears readiness");
}

#[test]
fn phases_with_a_baseline() {
    let mut w = Warmup::with_baseline(3);
    assert_eq!(
        run(&mut w, 6),
        vec![
            Phase::Baseline,
            Phase::Accumulate,
            Phase::Accumulate,
            Phase::Seed,
            Phase::Steady,
            Phase::Steady
        ]
    );
    w.reset();
    assert_eq!(w.step(), Phase::Baseline);
}

#[test]
fn phases_without_a_baseline() {
    let mut w = Warmup::new(3);
    assert_eq!(
        run(&mut w, 5),
        vec![
            Phase::Accumulate,
            Phase::Accumulate,
            Phase::Seed,
            Phase::Steady,
            Phase::Steady
        ]
    );
}

#[test]
fn period_one_seeds_on_the_first_input() {
    let mut w = Warmup::new(1);
    assert_eq!(w.step(), Phase::Seed);
    assert!(w.is_ready());
    assert_eq!(w.step(), Phase::Steady);
}

#[test]
fn empty_seed_never_gets_ready() {
    let mut w = Warmup::new(0);
    assert_eq!(w.warmup_period(), 0);
    for _ in 0..100 {
        assert_eq!(w.step(), Phase::Accumulate);
        assert!(!w.is_ready());
    }
    let mut b = Warmup::with_baseline(0);
    assert_eq!(b.step(), Phase::Baseline);
    assert_eq!(b.step(), Phase::Accumulate);
    assert!(!b.is_ready());
}

#[test]
fn readiness_never_flips_back() {
    let mut w = Warmup::with_baseline(5);
    let mut was_ready = false;
    for k in 1..=200usize {
        w.step();
        let ready = w.is_ready();
        if was_ready {
            assert!(ready);
        }
        assert_eq!(ready, k >= 6);
        was_ready = ready;
    }
}

#[test]
fn clone_keeps_the_lifecycle() {
    let mut w = Warmup::new(2);
    w.step();
    let mut c = w.clone();
    assert_eq!(c.step(), Phase::Seed);
    assert_eq!(w.step(), Phase::Seed);
}

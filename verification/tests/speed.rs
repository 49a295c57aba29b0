use accelepong::scale::MAX_SPEED;
use accelepong::speed::{Escalation, SpeedState, SPEED_LIMIT, UNIT};

fn state(current: u32, increment: u32) -> SpeedState {
    SpeedState::from_units(current, increment).unwrap()
}

fn in_units(parts: u128) -> f64 {
    parts as f64 / UNIT as f64
}

#[test]
fn one_unit_has_two_to_the_sixty_four_parts() {
    assert_eq!(UNIT, 1u128 << 64);
    assert_eq!(SPEED_LIMIT, MAX_SPEED as u128 * UNIT);
    assert_eq!(state(500, 10), SpeedState { current: 500 * UNIT, increment: 10 * UNIT });
    assert_eq!(state(500, 10).whole_units(), 500);
    assert_eq!(SpeedState { current: 501 * UNIT - 1, increment: 0 }.whole_units(), 500);
}

#[test]
fn compounding_adds_the_step_and_grows_it_by_a_tenth() {
    let mut speed = state(5000, 1000);
    speed = speed.escalate(Escalation::Compounding);
    assert_eq!(speed, state(6000, 1100));
    speed = speed.escalate(Escalation::Compounding);
    assert_eq!(speed, state(7100, 1210));
    speed = speed.escalate(Escalation::Compounding);
    assert_eq!(speed, state(8310, 1331));
    speed = speed.escalate(Escalation::Compounding);
    assert_eq!(
        speed,
        SpeedState { current: 9641 * UNIT, increment: 27_007_877_998_318_154_520_985 }
    );
    assert_eq!(speed.increment, 1464 * UNIT + UNIT / 10);
}

#[test]
fn compounding_follows_the_geometric_series_for_fifty_bounces() {
    let start = 5000u32;
    let step = 800u32;
    let mut speed = state(start, step);
    let mut series = start as f64;
    for k in 0..50 {
        series += step as f64 * 1.1f64.powi(k);
        let grown = step as f64 * 1.1f64.powi(k + 1);
        speed = speed.escalate(Escalation::Compounding);
        assert!((in_units(speed.current) - series).abs() <= series * 1e-12, "{k}");
        assert!((in_units(speed.increment) - grown).abs() <= grown * 1e-12, "{k}");
    }
    assert_eq!(
        speed,
        SpeedState {
            current: 17_268_491_925_108_706_794_584_380,
            increment: 1_732_383_215_732_983_544_943_214,
        }
    );
    assert_eq!(speed.whole_units(), 936_126);
}

#[test]
fn rounding_of_the_step_stays_far_below_one_unit() {
    let mut speed = state(20_000, 10_005);
    let mut after = Vec::new();
    for _ in 0..8 {
        speed = speed.escalate(Escalation::Compounding);
        after.push(speed);
    }
    assert!((in_units(after[2].increment) - 13_316.655).abs() < 1e-6);
    assert!((in_units(after[2].current) - 53_116.55).abs() < 1e-6);
    assert!((in_units(after[7].current) - 134_416.060_440_5).abs() < 1e-6);
    assert!((in_units(after[7].increment) - 21_446.606_044_05).abs() < 1e-6);
    assert_eq!(after[7].current, 2_479_538_666_342_178_277_058_395);
    // In parts the series is missed by a handful of parts.
    let exact = 10_005u128 * UNIT * 11u128.pow(8);
    let held = after[7].increment * 10u128.pow(8);
    assert!(held <= exact);
    assert!(exact - held < 9 * (11u128.pow(8) - 10u128.pow(8)));
}

#[test]
fn small_steps_grow_too() {
    let mut speed = state(0, 9);
    speed = speed.escalate(Escalation::Compounding);
    assert_eq!(speed.current, 9 * UNIT);
    assert!((in_units(speed.increment) - 9.9).abs() < 1e-12);
    speed = speed.escalate(Escalation::Compounding);
    assert!((in_units(speed.current) - 18.9).abs() < 1e-12);
    assert!((in_units(speed.increment) - 10.89).abs() < 1e-12);
    let mut tiny = SpeedState { current: 0, increment: 9 };
    tiny = tiny.escalate(Escalation::Compounding);
    assert_eq!(tiny, SpeedState { current: 9, increment: 9 });
}

#[test]
fn flat_adds_the_same_step_every_time() {
    let mut speed = state(50, 1);
    for n in 1..=50u32 {
        speed = speed.escalate(Escalation::Flat);
        assert_eq!(speed, state(50 + n, 1));
    }
}

#[test]
fn bounce_beyond_the_limit_is_reported_and_not_cut_off() {
    let fast = state(1_000_000, 100_000);
    assert!(fast.is_valid());
    assert!(!fast.can_escalate(Escalation::Flat));
    assert!(!fast.can_escalate(Escalation::Compounding));
    assert_eq!(fast.try_escalate(Escalation::Flat), None);
    assert_eq!(fast.try_escalate(Escalation::Compounding), None);
    // The speed may reach the limit, and the grown step may.
    assert_eq!(state(1_000_000, 48_576).try_escalate(Escalation::Flat), Some(state(MAX_SPEED, 48_576)));
    assert_eq!(state(1_000_000, 48_577).try_escalate(Escalation::Flat), None);
    assert!(state(0, 953_250).can_escalate(Escalation::Compounding));
    assert!(!state(0, 953_251).can_escalate(Escalation::Compounding));
    assert!(state(0, 953_251).can_escalate(Escalation::Flat));
    assert!(state(0, MAX_SPEED).can_escalate(Escalation::Flat));
    assert!(!state(0, MAX_SPEED).can_escalate(Escalation::Compounding));
    assert_eq!(
        state(500, 10).try_escalate(Escalation::Compounding),
        Some(state(500, 10).escalate(Escalation::Compounding))
    );
}

#[test]
fn speed_state_above_the_limit_is_rejected() {
    assert_eq!(SpeedState::from_units(MAX_SPEED + 1, 0), None);
    assert_eq!(SpeedState::from_units(0, MAX_SPEED + 1), None);
    assert_eq!(
        SpeedState::from_units(MAX_SPEED, MAX_SPEED),
        Some(SpeedState { current: SPEED_LIMIT, increment: SPEED_LIMIT })
    );
    assert_eq!(SpeedState::new(SPEED_LIMIT + 1, 0), None);
    assert_eq!(SpeedState::new(0, SPEED_LIMIT + 1), None);
    assert_eq!(SpeedState::new(7, 3), Some(SpeedState { current: 7, increment: 3 }));
    let beyond = SpeedState { current: SPEED_LIMIT + 1, increment: 0 };
    assert!(!beyond.is_valid());
    assert!(!beyond.can_escalate(Escalation::Flat));
    assert_eq!(beyond.try_escalate(Escalation::Flat), None);
}

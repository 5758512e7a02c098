use dcqcn::controller::Dcqcn;
use dcqcn::dyadic::Dyadic;
use dcqcn::error::SimError;

fn default_controller() -> Dcqcn {
    // g = 1/256, bandwidth = 102400, timers = 55, threshold = 5,
    // additive increment = 40, hyper increment = 100
    Dcqcn::try_new(
        Dyadic { num: 1, exp: 8 },
        55,
        55,
        5,
        Dyadic::from_int(40),
        Dyadic::from_int(100),
        Dyadic::from_int(102400),
    )
    .unwrap()
}

#[test]
fn new_starts_at_full_rate() {
    let c = default_controller();
    assert_eq!(c.alpha, Dyadic { num: 1, exp: 0 });
    assert_eq!(c.current_rate, Dyadic::from_int(102400));
    assert_eq!(c.target_rate, Dyadic::from_int(0));
    assert_eq!(c.alpha_time_counter, 0);
    assert_eq!(c.increase_time_counter, 0);
    assert_eq!(c.recovery_stage, 0);
}

#[test]
fn try_new_rejects_bad_configuration() {
    let ai = Dyadic::from_int(40);
    let hai = Dyadic::from_int(100);
    let bw = Dyadic::from_int(102400);
    // g == 1 is not in (0, 1)
    assert!(Dcqcn::try_new(Dyadic { num: 256, exp: 8 }, 55, 55, 5, ai, hai, bw).is_none());
    // g == 0 is not in (0, 1)
    assert!(Dcqcn::try_new(Dyadic { num: 0, exp: 8 }, 55, 55, 5, ai, hai, bw).is_none());
    // bandwidth must be positive
    assert!(
        Dcqcn::try_new(Dyadic { num: 1, exp: 8 }, 55, 55, 5, ai, hai, Dyadic::from_int(0))
            .is_none()
    );
    // an exponent beyond 63 is not representable
    assert!(Dcqcn::try_new(Dyadic { num: 1, exp: 64 }, 55, 55, 5, ai, hai, bw).is_none());
    assert!(Dcqcn::try_new(Dyadic { num: 1, exp: 8 }, 55, 55, 5, ai, hai, bw).is_some());
}

#[test]
fn cut_follows_the_cut_law() {
    // with alpha == 1: target <- R, rate <- R/2, alpha <- (1-g)*1 + g == 1
    let mut c = default_controller();
    c.alpha_time_counter = 7;
    c.increase_time_counter = 9;
    assert_eq!(c.on_congestion_notification(), Ok(()));
    assert_eq!(c.target_rate, Dyadic::from_int(102400));
    assert_eq!(c.current_rate, Dyadic { num: 102400, exp: 1 });
    assert!(c.current_rate.eq_value(&Dyadic::from_int(51200)));
    assert_eq!(c.alpha, Dyadic { num: 256, exp: 8 });
    assert!(c.alpha.eq_value(&Dyadic::from_int(1)));
    assert_eq!(c.alpha_time_counter, 0);
    assert_eq!(c.increase_time_counter, 0);
}

#[test]
fn cut_never_resets_the_recovery_stage() {
    let mut c = default_controller();
    c.recovery_stage = 9;
    assert_eq!(c.on_congestion_notification(), Ok(()));
    assert_eq!(c.recovery_stage, 9);
}

#[test]
fn decay_multiplies_alpha_by_one_minus_g() {
    // (1 - 1/256)^k applied k times: numerators 255^k over exponent 8k
    let mut c = default_controller();
    assert_eq!(c.decay_alpha(), Ok(()));
    assert_eq!(c.alpha, Dyadic { num: 255, exp: 8 });
    assert_eq!(c.decay_alpha(), Ok(()));
    assert_eq!(c.alpha, Dyadic { num: 65025, exp: 16 });
    assert_eq!(c.decay_alpha(), Ok(()));
    assert_eq!(c.alpha, Dyadic { num: 16581375, exp: 24 });
}

#[test]
fn decay_reports_overflow_past_the_representable_range() {
    // g = 1/2^60: a second decay would need exponent 120
    let mut c = Dcqcn::try_new(
        Dyadic { num: 1, exp: 60 },
        55,
        55,
        5,
        Dyadic::from_int(40),
        Dyadic::from_int(100),
        Dyadic::from_int(102400),
    )
    .unwrap();
    assert_eq!(c.decay_alpha(), Ok(()));
    let before = c;
    assert_eq!(c.decay_alpha(), Err(SimError::Overflow));
    assert_eq!(c, before);
}

#[test]
fn fast_recovery_moves_halfway_to_target() {
    let mut c = default_controller();
    c.current_rate = Dyadic::from_int(100);
    c.target_rate = Dyadic::from_int(1000);
    c.bandwidth = Dyadic::from_int(10000);
    assert_eq!(c.fast_recovery(), Ok(()));
    assert_eq!(c.current_rate, Dyadic::from_int(550));
    assert_eq!(c.target_rate, Dyadic::from_int(1000));
}

#[test]
fn fast_recovery_halves_odd_sums_exactly() {
    let mut c = default_controller();
    c.current_rate = Dyadic::from_int(3);
    c.target_rate = Dyadic::from_int(2);
    assert_eq!(c.fast_recovery(), Ok(()));
    assert_eq!(c.current_rate, Dyadic { num: 5, exp: 1 });
}

#[test]
fn increases_clamp_to_bandwidth() {
    // overshooting inputs leave current_rate exactly at the bandwidth
    let mut c = default_controller();
    c.current_rate = Dyadic::from_int(102400);
    c.target_rate = Dyadic::from_int(1000000);
    assert_eq!(c.fast_recovery(), Ok(()));
    assert_eq!(c.current_rate, Dyadic::from_int(102400));

    let mut c2 = default_controller();
    c2.current_rate = Dyadic::from_int(102400);
    c2.target_rate = Dyadic::from_int(1000000);
    assert_eq!(c2.additive_increase(), Ok(()));
    assert_eq!(c2.current_rate, Dyadic::from_int(102400));

    let mut c3 = default_controller();
    c3.current_rate = Dyadic::from_int(102400);
    c3.target_rate = Dyadic::from_int(1000000);
    assert_eq!(c3.hyper_increase(), Ok(()));
    assert_eq!(c3.current_rate, Dyadic::from_int(102400));
}

#[test]
fn additive_increase_grows_target_first() {
    let mut c = default_controller();
    c.current_rate = Dyadic::from_int(100);
    c.target_rate = Dyadic::from_int(1000);
    c.bandwidth = Dyadic::from_int(10000);
    assert_eq!(c.additive_increase(), Ok(()));
    assert_eq!(c.target_rate, Dyadic::from_int(1040));
    assert_eq!(c.current_rate, Dyadic::from_int(570));
}

#[test]
fn hyper_increase_grows_target_first() {
    let mut c = default_controller();
    c.current_rate = Dyadic::from_int(100);
    c.target_rate = Dyadic::from_int(1000);
    c.bandwidth = Dyadic::from_int(10000);
    assert_eq!(c.hyper_increase(), Ok(()));
    assert_eq!(c.target_rate, Dyadic::from_int(1100));
    assert_eq!(c.current_rate, Dyadic::from_int(600));
}

#[test]
fn advance_recovery_dispatches_on_the_new_stage() {
    // below threshold: fast recovery, target untouched
    let mut c = default_controller();
    c.current_rate = Dyadic::from_int(100);
    c.target_rate = Dyadic::from_int(1000);
    c.bandwidth = Dyadic::from_int(10000);
    assert_eq!(c.advance_recovery(), Ok(()));
    assert_eq!(c.recovery_stage, 1);
    assert_eq!(c.target_rate, Dyadic::from_int(1000));
    assert_eq!(c.current_rate, Dyadic::from_int(550));

    // at threshold: additive increase
    let mut c2 = default_controller();
    c2.recovery_stage = 4;
    c2.current_rate = Dyadic::from_int(100);
    c2.target_rate = Dyadic::from_int(1000);
    c2.bandwidth = Dyadic::from_int(10000);
    assert_eq!(c2.advance_recovery(), Ok(()));
    assert_eq!(c2.recovery_stage, 5);
    assert_eq!(c2.target_rate, Dyadic::from_int(1040));
    assert_eq!(c2.current_rate, Dyadic::from_int(570));

    // past threshold: hyper increase
    let mut c3 = default_controller();
    c3.recovery_stage = 5;
    c3.current_rate = Dyadic::from_int(100);
    c3.target_rate = Dyadic::from_int(1000);
    c3.bandwidth = Dyadic::from_int(10000);
    assert_eq!(c3.advance_recovery(), Ok(()));
    assert_eq!(c3.recovery_stage, 6);
    assert_eq!(c3.target_rate, Dyadic::from_int(1100));
    assert_eq!(c3.current_rate, Dyadic::from_int(600));
}

#[test]
fn stage_only_grows() {
    let mut c = default_controller();
    let mut last = c.recovery_stage;
    assert_eq!(c.advance_recovery(), Ok(()));
    assert!(c.recovery_stage >= last);
    last = c.recovery_stage;
    assert_eq!(c.on_congestion_notification(), Ok(()));
    assert!(c.recovery_stage >= last);
    last = c.recovery_stage;
    assert_eq!(c.decay_alpha(), Ok(()));
    assert!(c.recovery_stage >= last);
    last = c.recovery_stage;
    assert_eq!(c.advance_recovery(), Ok(()));
    assert_eq!(c.recovery_stage, last + 1);
}

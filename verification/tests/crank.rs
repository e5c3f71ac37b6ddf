use openefi::config::get_default_efi_cfg;
use openefi::config::Engine;
use openefi::config::InjectionMode;
use openefi::decoder::classify_interval;
use openefi::decoder::CrankDecoder;
use openefi::decoder::EdgeEvent;
use openefi::decoder::IntervalClass;
use openefi::decoder::SyncPhase;
use openefi::estimator::estimate;
use openefi::estimator::phase_from_tooth;
use openefi::estimator::rpm_from_interval;
use openefi::estimator::Estimate;
use openefi::status::get_default_engine_status;
use openefi::injectors::BatteryPoint;
use openefi::injectors::BatteryTable;
use openefi::injectors::InjectionError;
use openefi::sensors::SensorTypes;
use openefi::sensors::SensorValues;
use openefi::tasks::blink;
use openefi::tasks::cpwm_callback;
use openefi::tasks::limits_at_speed;
use openefi::timing::Clamp;
use openefi::timing::DivisorPolicy;
use openefi::timing::InjectionPulse;
use openefi::timing::PulseLimits;
use openefi::tasks::ckp_trigger;
use openefi::tasks::debug_demo;
use openefi::tasks::CkpActions;
use openefi::tasks::Demo;
use openefi::tasks::LedLevel;

fn wheel(teeth: u32, missing: u32, tolerance: u8) -> Engine {
    Engine {
        cylinder_count: 4,
        ckp_tooth_count: teeth,
        ckp_missing_tooth: missing,
        ckp_tolerance: tolerance,
        injection_mode: InjectionMode::SemiSequential,
    }
}

/// Feeds the edges that follow `start` by the given intervals and returns
/// the events and the time of the last edge.
fn feed(decoder: &mut CrankDecoder, start: u64, intervals: &[u64]) -> (Vec<EdgeEvent>, u64) {
    let mut now = start;
    let mut events = Vec::new();
    for interval in intervals {
        now += interval;
        events.push(decoder.on_edge(now));
    }
    (events, now)
}

/// One turn of a wheel: the regular intervals and then the gap.
fn turn(present: u32, d: u64, gap: u64) -> Vec<u64> {
    let mut intervals = vec![d; (present - 1) as usize];
    intervals.push(gap);
    intervals
}

/// A decoder brought to the synchronized phase, and the time of its last edge.
fn synchronized(engine: Engine, d: u64) -> (CrankDecoder, u64) {
    let present = engine.ckp_tooth_count - engine.ckp_missing_tooth;
    let mut decoder = CrankDecoder::new(engine).unwrap();
    decoder.on_edge(1000);
    let (_, now) = feed(&mut decoder, 1000, &[d, d, 2 * d]);
    let (_, now) = feed(&mut decoder, now, &turn(present, d, 2 * d));
    assert!(decoder.is_synchronized());
    (decoder, now)
}

#[test]
fn intervals_are_classified_by_tolerance() {
    assert_eq!(classify_interval(1000, 1000, 25), IntervalClass::Normal);
    assert_eq!(classify_interval(1000, 750, 25), IntervalClass::Normal);
    assert_eq!(classify_interval(1000, 1250, 25), IntervalClass::Normal);
    assert_eq!(classify_interval(1000, 749, 25), IntervalClass::Irregular);
    assert_eq!(classify_interval(1000, 1251, 25), IntervalClass::Irregular);
    assert_eq!(classify_interval(1000, 1499, 25), IntervalClass::Irregular);
    assert_eq!(classify_interval(1000, 1500, 25), IntervalClass::Gap);
    assert_eq!(classify_interval(1000, 2000, 25), IntervalClass::Gap);
    assert_eq!(classify_interval(1000, 2500, 25), IntervalClass::Gap);
    assert_eq!(classify_interval(1000, 2501, 25), IntervalClass::Irregular);
    assert_eq!(classify_interval(1000, 0, 25), IntervalClass::Irregular);
    assert_eq!(classify_interval(1000, 1000, 0), IntervalClass::Normal);
    assert_eq!(classify_interval(1000, 1001, 0), IntervalClass::Irregular);
    assert_eq!(classify_interval(1000, 2000, 0), IntervalClass::Gap);
    assert_eq!(classify_interval(u64::MAX, u64::MAX, 33), IntervalClass::Normal);
    assert_eq!(classify_interval(u64::MAX / 2, u64::MAX - 1, 33), IntervalClass::Gap);
}

#[test]
fn a_wheel_needs_more_teeth_than_gaps() {
    assert!(CrankDecoder::new(wheel(60, 60, 25)).is_none());
    assert!(CrankDecoder::new(wheel(2, 3, 25)).is_none());
    assert!(CrankDecoder::new(wheel(0, 0, 25)).is_none());
    assert!(CrankDecoder::new(wheel(60, 1, 34)).is_none());
    assert!(CrankDecoder::new(wheel(60, 1, 33)).is_some());
    assert!(CrankDecoder::new(wheel(1, 0, 0)).is_some());
    assert!(!wheel(60, 60, 25).is_valid());
    assert!(get_default_efi_cfg().is_valid());
}

#[test]
fn uniform_stream_with_one_gap_synchronizes_once() {
    let engine = get_default_efi_cfg().engine;
    let mut decoder = CrankDecoder::new(engine).unwrap();
    assert_eq!(decoder.phase(), SyncPhase::Unsynchronized);
    assert_eq!(decoder.on_edge(5_000), EdgeEvent::Tooth);
    // lead-in: the wheel turns somewhere before the gap
    let (events, now) = feed(&mut decoder, 5_000, &[1000, 1000, 1000]);
    assert_eq!(events, vec![EdgeEvent::Tooth; 3]);
    assert_eq!(decoder.phase(), SyncPhase::Unsynchronized);
    // the first gap makes a candidate
    let (events, now) = feed(&mut decoder, now, &[2000]);
    assert_eq!(events, vec![EdgeEvent::Tooth]);
    assert_eq!(decoder.phase(), SyncPhase::Synchronizing);
    assert_eq!(decoder.tooth_index(), None);
    // 58 regular teeth of the full turn: still not synchronized
    let (events, now) = feed(&mut decoder, now, &vec![1000; 58]);
    assert_eq!(events, vec![EdgeEvent::Tooth; 58]);
    assert_eq!(decoder.phase(), SyncPhase::Synchronizing);
    // the gap that closes the turn
    let (events, now) = feed(&mut decoder, now, &[2000]);
    assert_eq!(events, vec![EdgeEvent::SyncAcquired]);
    assert_eq!(decoder.phase(), SyncPhase::Synchronized);
    assert_eq!(decoder.tooth_index(), Some(0));
    // every further turn: one reference, at the gap, with the index back at zero
    let mut now = now;
    for _ in 0..3 {
        let (events, end) = feed(&mut decoder, now, &turn(59, 1000, 2000));
        now = end;
        assert_eq!(&events[..58], &vec![EdgeEvent::Tooth; 58][..]);
        assert_eq!(events[58], EdgeEvent::SyncReference);
        assert_eq!(decoder.tooth_index(), Some(0));
        assert!(decoder.is_synchronized());
    }
}

#[test]
fn synchronizes_on_small_wheels() {
    for (teeth, missing) in [(2u32, 1u32), (3, 1), (4, 2), (12, 1), (36, 2)] {
        let engine = wheel(teeth, missing, 20);
        let present = teeth - missing;
        let mut decoder = CrankDecoder::new(engine).unwrap();
        decoder.on_edge(10);
        let (_, now) = feed(&mut decoder, 10, &[400, 800]);
        assert_eq!(decoder.phase(), SyncPhase::Synchronizing);
        let (events, _) = feed(&mut decoder, now, &turn(present, 400, 800));
        assert_eq!(events.last(), Some(&EdgeEvent::SyncAcquired));
        assert_eq!(events.iter().filter(|e| **e == EdgeEvent::SyncAcquired).count(), 1);
        assert_eq!(decoder.tooth_index(), Some(0));
    }
}

#[test]
fn tooth_index_counts_within_a_turn() {
    let engine = wheel(12, 1, 25);
    let (mut decoder, now) = synchronized(engine, 500);
    let mut now = now;
    for expected in 1..=10u32 {
        now += 500;
        assert_eq!(decoder.on_edge(now), EdgeEvent::Tooth);
        assert_eq!(decoder.tooth_index(), Some(expected));
    }
    now += 1000;
    assert_eq!(decoder.on_edge(now), EdgeEvent::SyncReference);
    assert_eq!(decoder.tooth_index(), Some(0));
}

#[test]
fn consistent_intervals_keep_the_synchronization() {
    let engine = wheel(12, 1, 25);
    let (mut decoder, now) = synchronized(engine, 1000);
    // the engine speeds up and slows down within the tolerance
    let mut now = now;
    let mut d: u64 = 1000;
    let mut references = 0;
    for round in 0..20 {
        for _ in 0..10 {
            d = if round % 2 == 0 { d * 95 / 100 } else { d * 105 / 100 };
            now += d;
            assert_eq!(decoder.on_edge(now), EdgeEvent::Tooth);
            assert!(decoder.is_synchronized());
        }
        now += 2 * d;
        assert_eq!(decoder.on_edge(now), EdgeEvent::SyncReference);
        assert!(decoder.is_synchronized());
        references += 1;
    }
    assert_eq!(references, 20);
}

#[test]
fn an_irregular_interval_drops_the_synchronization() {
    let engine = wheel(12, 1, 25);
    for bad in [1u64, 500, 749, 1300, 1499, 2600, 10_000_000] {
        let (mut decoder, now) = synchronized(engine, 1000);
        let (_, now) = feed(&mut decoder, now, &[1000, 1000]);
        assert_eq!(decoder.tooth_index(), Some(2));
        assert_eq!(decoder.on_edge(now + bad), EdgeEvent::SyncLost);
        assert_eq!(decoder.phase(), SyncPhase::Unsynchronized);
        assert_eq!(decoder.tooth_index(), None);
        assert_eq!(decoder.smoothed_interval(), None);
        assert_eq!(estimate(&decoder), None);
    }
}

#[test]
fn an_irregular_interval_drops_a_candidate() {
    let engine = wheel(12, 1, 25);
    let mut decoder = CrankDecoder::new(engine).unwrap();
    decoder.on_edge(0);
    let (_, now) = feed(&mut decoder, 0, &[1000, 2000, 1000]);
    assert_eq!(decoder.phase(), SyncPhase::Synchronizing);
    assert_eq!(decoder.on_edge(now + 400), EdgeEvent::Tooth);
    assert_eq!(decoder.phase(), SyncPhase::Unsynchronized);
}

#[test]
fn time_that_does_not_advance_drops_the_synchronization() {
    let engine = wheel(12, 1, 25);
    let (mut decoder, now) = synchronized(engine, 1000);
    assert_eq!(decoder.on_edge(now), EdgeEvent::SyncLost);
    let (mut decoder, now) = synchronized(engine, 1000);
    assert_eq!(decoder.on_edge(now - 1), EdgeEvent::SyncLost);
    assert_eq!(decoder.phase(), SyncPhase::Unsynchronized);
}

#[test]
fn a_missed_gap_drops_the_synchronization() {
    let engine = wheel(12, 1, 25);
    let (mut decoder, now) = synchronized(engine, 1000);
    let (events, now) = feed(&mut decoder, now, &vec![1000; 10]);
    assert_eq!(events, vec![EdgeEvent::Tooth; 10]);
    assert_eq!(decoder.tooth_index(), Some(10));
    // the eleventh regular interval in a row: the gap did not come
    assert_eq!(decoder.on_edge(now + 1000), EdgeEvent::SyncLost);
    assert_eq!(decoder.phase(), SyncPhase::Unsynchronized);
    // the expectation is kept, so the next gap is a candidate again
    assert_eq!(decoder.on_edge(now + 3000), EdgeEvent::Tooth);
    assert_eq!(decoder.phase(), SyncPhase::Synchronizing);
}

#[test]
fn an_early_gap_restarts_a_candidate() {
    let engine = wheel(12, 1, 25);
    let mut decoder = CrankDecoder::new(engine).unwrap();
    decoder.on_edge(0);
    let (_, now) = feed(&mut decoder, 0, &[1000, 2000, 1000, 1000, 2000]);
    assert_eq!(decoder.phase(), SyncPhase::Synchronizing);
    let (events, _) = feed(&mut decoder, now, &turn(11, 1000, 2000));
    assert_eq!(events.last(), Some(&EdgeEvent::SyncAcquired));
}

#[test]
fn resynchronizes_after_a_loss() {
    let engine = wheel(12, 1, 25);
    let (mut decoder, now) = synchronized(engine, 1000);
    assert_eq!(decoder.on_edge(now + 5), EdgeEvent::SyncLost);
    let now = now + 5;
    let (_, now) = feed(&mut decoder, now, &[1000, 1000, 2000]);
    assert_eq!(decoder.phase(), SyncPhase::Synchronizing);
    let (events, _) = feed(&mut decoder, now, &turn(11, 1000, 2000));
    assert_eq!(events.last(), Some(&EdgeEvent::SyncAcquired));
}

#[test]
fn reset_forgets_everything() {
    let engine = wheel(12, 1, 25);
    let (mut decoder, now) = synchronized(engine, 1000);
    decoder.reset();
    assert_eq!(decoder.phase(), SyncPhase::Unsynchronized);
    assert_eq!(decoder.smoothed_interval(), None);
    assert_eq!(decoder.wheel(), engine);
    // the next edge is a first edge again: no interval is taken from before
    assert_eq!(decoder.on_edge(now + 7), EdgeEvent::Tooth);
    assert_eq!(decoder.smoothed_interval(), None);
    decoder.on_edge(now + 1007);
    assert_eq!(decoder.smoothed_interval(), Some(1000));
}

#[test]
fn smoothed_interval_is_the_mean_of_the_last_four() {
    let engine = wheel(60, 1, 25);
    let mut decoder = CrankDecoder::new(engine).unwrap();
    assert_eq!(decoder.smoothed_interval(), None);
    decoder.on_edge(0);
    assert_eq!(decoder.smoothed_interval(), None);
    let (_, now) = feed(&mut decoder, 0, &[1000]);
    assert_eq!(decoder.smoothed_interval(), Some(1000));
    let (_, now) = feed(&mut decoder, now, &[1100]);
    assert_eq!(decoder.smoothed_interval(), Some(1050));
    let (_, now) = feed(&mut decoder, now, &[1200, 1301]);
    // (1000 + 1100 + 1200 + 1301) / 4 = 1150.25
    assert_eq!(decoder.smoothed_interval(), Some(1150));
    let (_, now) = feed(&mut decoder, now, &[1400]);
    // (1100 + 1200 + 1301 + 1400) / 4 = 1250.25
    assert_eq!(decoder.smoothed_interval(), Some(1250));
    // the gap is not a regular interval and leaves the window alone
    feed(&mut decoder, now, &[2800]);
    assert_eq!(decoder.smoothed_interval(), Some(1250));
}

#[test]
fn rpm_follows_the_formula() {
    assert_eq!(rpm_from_interval(1000, 60), Some(1000));
    assert_eq!(rpm_from_interval(500, 60), Some(2000));
    assert_eq!(rpm_from_interval(333, 60), Some(3003));
    assert_eq!(rpm_from_interval(1, 1), Some(60_000_000));
    assert_eq!(rpm_from_interval(60_000_001, 1), Some(0));
    assert_eq!(rpm_from_interval(u64::MAX, u32::MAX), Some(0));
    assert_eq!(rpm_from_interval(0, 60), None);
    assert_eq!(rpm_from_interval(1000, 0), None);
}

#[test]
fn halving_the_interval_doubles_the_rpm() {
    for teeth in [1u32, 12, 36, 60] {
        for interval in [1u64, 7, 333, 1000, 4999, 123_457] {
            let slow = rpm_from_interval(2 * interval, teeth).unwrap();
            let fast = rpm_from_interval(interval, teeth).unwrap();
            assert!(2 * slow <= fast && fast <= 2 * slow + 1);
        }
    }
    assert_eq!(rpm_from_interval(666, 60), Some(1501));
    assert_eq!(rpm_from_interval(333, 60), Some(3003));
}

#[test]
fn phase_follows_the_formula() {
    assert_eq!(phase_from_tooth(0, 60), Some(0));
    assert_eq!(phase_from_tooth(15, 60), Some(90_000));
    assert_eq!(phase_from_tooth(59, 60), Some(354_000));
    assert_eq!(phase_from_tooth(1, 7), Some(51_428));
    assert_eq!(phase_from_tooth(60, 60), None);
    assert_eq!(phase_from_tooth(0, 0), None);
    assert_eq!(phase_from_tooth(u32::MAX - 1, u32::MAX), Some(359_999));
}

#[test]
fn estimate_is_known_only_while_synchronized() {
    let engine = wheel(60, 1, 25);
    let mut decoder = CrankDecoder::new(engine).unwrap();
    assert_eq!(estimate(&decoder), None);
    decoder.on_edge(0);
    let (_, now) = feed(&mut decoder, 0, &[1000, 1000, 2000]);
    assert_eq!(estimate(&decoder), None);
    let (_, now) = feed(&mut decoder, now, &turn(59, 1000, 2000));
    assert_eq!(estimate(&decoder), Some(Estimate { rpm: 1000, phase: 0 }));
    let (_, now) = feed(&mut decoder, now, &vec![1000; 15]);
    assert_eq!(estimate(&decoder), Some(Estimate { rpm: 1000, phase: 90_000 }));
    decoder.on_edge(now + 10);
    assert_eq!(estimate(&decoder), None);
}

#[test]
fn crank_handler_keeps_the_status_in_step() {
    let cfg = get_default_efi_cfg();
    let mut decoder = CrankDecoder::new(cfg.engine).unwrap();
    let mut status = get_default_engine_status();
    status.injection.fuel_flow_rate = 1331;
    let quiet = CkpActions { event: EdgeEvent::Tooth, marker_us: None };
    let mut now = 100;
    assert_eq!(ckp_trigger(&mut decoder, &mut status, now), quiet);
    for interval in [500u64, 500, 1000] {
        now += interval;
        assert_eq!(ckp_trigger(&mut decoder, &mut status, now), quiet);
        assert_eq!((status.cycle_tick, status.rpm, status.phase), (0, None, None));
    }
    for _ in 0..58 {
        now += 500;
        assert_eq!(ckp_trigger(&mut decoder, &mut status, now), quiet);
        assert_eq!((status.cycle_tick, status.rpm, status.phase), (0, None, None));
    }
    now += 1000;
    assert_eq!(
        ckp_trigger(&mut decoder, &mut status, now),
        CkpActions { event: EdgeEvent::SyncAcquired, marker_us: Some(50_000) }
    );
    assert_eq!((status.cycle_tick, status.rpm, status.phase), (0, Some(2000), Some(0)));
    for tick in 1..=58u32 {
        now += 500;
        assert_eq!(ckp_trigger(&mut decoder, &mut status, now), quiet);
        assert_eq!(status.cycle_tick, tick);
        assert_eq!(status.rpm, Some(2000));
        assert_eq!(status.phase, Some(tick * 6000));
    }
    now += 1000;
    assert_eq!(
        ckp_trigger(&mut decoder, &mut status, now),
        CkpActions { event: EdgeEvent::SyncReference, marker_us: Some(50_000) }
    );
    assert_eq!((status.cycle_tick, status.rpm, status.phase), (0, Some(2000), Some(0)));
    now += 1;
    assert_eq!(
        ckp_trigger(&mut decoder, &mut status, now),
        CkpActions { event: EdgeEvent::SyncLost, marker_us: None }
    );
    assert_eq!((status.cycle_tick, status.rpm, status.phase), (0, None, None));
    assert_eq!(status.injection.fuel_flow_rate, 1331);
}

#[test]
fn heartbeat_alternates() {
    let mut state = false;
    assert_eq!(blink(&mut state), LedLevel::Low);
    assert!(state);
    assert_eq!(blink(&mut state), LedLevel::High);
    assert!(!state);
    assert_eq!(blink(&mut state), LedLevel::Low);
}

#[test]
fn bench_modes_select_an_output() {
    assert_eq!(debug_demo(0), Demo::Spark);
    assert_eq!(debug_demo(1), Demo::Injector);
    assert_eq!(debug_demo(2), Demo::ExternalIdle);
    assert_eq!(debug_demo(3), Demo::Relay);
    assert_eq!(debug_demo(4), Demo::ExternalIdle);
    assert_eq!(debug_demo(255), Demo::ExternalIdle);
}

#[test]
fn pulse_limits_follow_the_speed() {
    assert_eq!(limits_at_speed(500, 0), None);
    assert_eq!(limits_at_speed(500, 1000), Some(PulseLimits { min_width: 500, max_width: 60_000 }));
    assert_eq!(limits_at_speed(500, 7000), Some(PulseLimits { min_width: 500, max_width: 8571 }));
    assert_eq!(limits_at_speed(0, 1), Some(PulseLimits { min_width: 0, max_width: 60_000_000 }));
    // a revolution shorter than the shortest executable pulse
    assert_eq!(
        limits_at_speed(500, 200_000),
        Some(PulseLimits { min_width: 300, max_width: 300 })
    );
    assert_eq!(limits_at_speed(500, u32::MAX), Some(PulseLimits { min_width: 0, max_width: 0 }));
}

#[test]
fn no_pulse_while_the_speed_is_unknown() {
    let cfg = get_default_efi_cfg();
    let sensors = SensorValues::new();
    let policy = DivisorPolicy::provisional();
    let mut status = get_default_engine_status();
    status.injection.fuel_flow_rate = 1331;
    status.injection.pulse_width = 888;
    assert_eq!(
        cpwm_callback(&mut status, &cfg, &sensors, None, &policy, 10, 500),
        Err(InjectionError::SpeedUnknown)
    );
    assert_eq!(status.injection.pulse_width, 0);
    status.rpm = Some(0);
    status.phase = Some(0);
    status.injection.pulse_width = 888;
    assert_eq!(
        cpwm_callback(&mut status, &cfg, &sensors, None, &policy, 10, 500),
        Err(InjectionError::SpeedUnknown)
    );
    assert_eq!(status.injection.pulse_width, 0);
    // the unknown speed comes before the unset flow
    status.rpm = None;
    status.injection.fuel_flow_rate = 0;
    assert_eq!(
        cpwm_callback(&mut status, &cfg, &sensors, None, &policy, 10, 500),
        Err(InjectionError::SpeedUnknown)
    );
}

#[test]
fn pulse_for_an_edge_uses_speed_policy_and_readings() {
    let cfg = get_default_efi_cfg();
    let policy = DivisorPolicy::provisional();
    let mut sensors = SensorValues::new();
    sensors.update(11_500, SensorTypes::BatteryVoltage);
    let table = BatteryTable::new(vec![
        BatteryPoint { millivolts: 9_000, multiplier: 1400 },
        BatteryPoint { millivolts: 11_000, multiplier: 1150 },
        BatteryPoint { millivolts: 13_000, multiplier: 1000 },
    ])
    .unwrap();
    let mut status = get_default_engine_status();
    status.rpm = Some(3000);
    status.phase = Some(6000);
    status.cycle_tick = 1;
    status.injection.fuel_flow_rate = 1331;
    // 0.010 g at 1.331 g/s in two events: 3.757 ms
    assert_eq!(
        cpwm_callback(&mut status, &cfg, &sensors, None, &policy, 10, 500),
        Ok(InjectionPulse::Open { width: 3757, clamp: Clamp::Unclamped })
    );
    assert_eq!(status.injection.pulse_width, 3757);
    // with the table the low battery stretches the pulse: 3757 x 1.15 = 4320.55
    assert_eq!(
        cpwm_callback(&mut status, &cfg, &sensors, Some(&table), &policy, 10, 500),
        Ok(InjectionPulse::Open { width: 4321, clamp: Clamp::Unclamped })
    );
    // at 3000 rpm a revolution takes 20 ms
    assert_eq!(
        cpwm_callback(&mut status, &cfg, &sensors, None, &policy, 100, 500),
        Ok(InjectionPulse::Open { width: 20_000, clamp: Clamp::LoweredToMaximum })
    );
    assert_eq!(
        cpwm_callback(&mut status, &cfg, &sensors, None, &policy, 1, 500),
        Ok(InjectionPulse::Open { width: 500, clamp: Clamp::RaisedToMinimum })
    );
    assert_eq!(status.injection.pulse_width, 500);
    assert_eq!(
        cpwm_callback(&mut status, &cfg, &sensors, None, &policy, 0, 500),
        Ok(InjectionPulse::Cutoff)
    );
    assert_eq!(status.injection.pulse_width, 0);
    assert_eq!((status.cycle_tick, status.rpm, status.phase), (1, Some(3000), Some(6000)));
    status.injection.fuel_flow_rate = 0;
    assert_eq!(
        cpwm_callback(&mut status, &cfg, &sensors, None, &policy, 10, 500),
        Err(InjectionError::FlowRateUnset)
    );
    let none = DivisorPolicy { rules: vec![], fallback: 0 };
    status.injection.fuel_flow_rate = 1331;
    assert_eq!(
        cpwm_callback(&mut status, &cfg, &sensors, None, &none, 10, 500),
        Err(InjectionError::ZeroDivisor)
    );
}

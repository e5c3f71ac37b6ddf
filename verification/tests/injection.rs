use openefi::config::get_default_efi_cfg;
use openefi::config::InjectionMode;
use openefi::config::InjectorConfig;
use openefi::injectors::fuel_mass_to_time;
use openefi::injectors::get_base_time;
use openefi::injectors::get_battery_correction;
use openefi::injectors::get_pressure_correction;
use openefi::injectors::get_wall_wetting_correction;
use openefi::injectors::set_injector_flow;
use openefi::injectors::BatteryPoint;
use openefi::injectors::BatteryTable;
use openefi::injectors::FlowError;
use openefi::injectors::InjectionError;
use openefi::status::get_default_engine_status;
use openefi::status::InjectionInfo;
use openefi::timing::apply_corrections;
use openefi::timing::calculate_time_isr;
use openefi::timing::clamp_pulse;
use openefi::timing::Clamp;
use openefi::timing::Corrections;
use openefi::timing::DivisorPolicy;
use openefi::timing::DivisorRule;
use openefi::timing::InjectionPulse;
use openefi::timing::PulseLimits;

fn info(flow: u64) -> InjectionInfo {
    InjectionInfo { fuel_flow_rate: flow, pulse_width: 0 }
}

fn injector(pressure: u32, flow: u32, density: u32) -> InjectorConfig {
    InjectorConfig {
        flow_cc_min: flow,
        injector_count: 4,
        fuel_pressure: pressure,
        fuel_density: density,
        on_time: 750,
        off_time: 250,
    }
}

fn wide_limits() -> PulseLimits {
    PulseLimits { min_width: 0, max_width: u64::MAX }
}

#[test]
fn pulse_width_of_ten_grams_at_flow_180() {
    let width = fuel_mass_to_time(&info(180_000), 10_000, 2).unwrap();
    assert_eq!(width, 27_778);
    let as_float = width as f64 / 1000.0;
    assert!((as_float - 27.78).abs() < 0.005);
}

#[test]
fn pulse_width_rounds_half_up() {
    // 1 g at 1 g/s in one event: 1000 ms
    assert_eq!(fuel_mass_to_time(&info(1000), 1000, 1), Ok(1_000_000));
    // 0.001 g at 2000 g/s: 0.0005 ms, half a thousandth, goes up
    assert_eq!(fuel_mass_to_time(&info(2_000_000), 1, 1), Ok(1));
    // 0.001 g at 2000.001 g/s: just below the half, goes down
    assert_eq!(fuel_mass_to_time(&info(2_000_001), 1, 1), Ok(0));
}

#[test]
fn divisor_shares_the_pulse() {
    let one = fuel_mass_to_time(&info(180_000), 10_000, 1).unwrap();
    let four = fuel_mass_to_time(&info(180_000), 10_000, 4).unwrap();
    assert_eq!(one, 55_556);
    assert_eq!(four, 13_889);
}

#[test]
fn unset_flow_rate_is_an_error_of_its_own() {
    assert_eq!(fuel_mass_to_time(&info(0), 10_000, 2), Err(InjectionError::FlowRateUnset));
    assert_eq!(fuel_mass_to_time(&info(0), 0, 2), Err(InjectionError::FlowRateUnset));
    assert_eq!(fuel_mass_to_time(&info(0), 10_000, 0), Err(InjectionError::FlowRateUnset));
}

#[test]
fn zero_fuel_is_no_error() {
    assert_eq!(fuel_mass_to_time(&info(180_000), 0, 2), Ok(0));
}

#[test]
fn zero_divisor_is_refused() {
    assert_eq!(fuel_mass_to_time(&info(180_000), 10_000, 0), Err(InjectionError::ZeroDivisor));
}

#[test]
fn largest_fuel_mass_fits() {
    assert_eq!(fuel_mass_to_time(&info(1), u32::MAX, 1), Ok(4_294_967_295_000_000));
    assert_eq!(fuel_mass_to_time(&info(u64::MAX), u32::MAX, u32::MAX), Ok(0));
}

#[test]
fn flow_rate_of_the_default_configuration() {
    let cfg = get_default_efi_cfg();
    let mut status = get_default_engine_status();
    assert!(!status.injection.is_initialized());
    assert_eq!(set_injector_flow(&mut status.injection, &cfg.injection), Ok(()));
    // 1.0 x 110 x 0.726 / 60 = 1.331
    assert_eq!(status.injection.fuel_flow_rate, 1331);
    assert!(status.injection.is_initialized());
}

#[test]
fn flow_rate_keeps_the_pulse_width() {
    let mut status = InjectionInfo { fuel_flow_rate: 7, pulse_width: 4321 };
    assert_eq!(set_injector_flow(&mut status, &injector(3000, 180_000, 60_000)), Ok(()));
    // 3 x 180 x 60 / 60 = 540
    assert_eq!(status.fuel_flow_rate, 540_000);
    assert_eq!(status.pulse_width, 4321);
}

#[test]
fn flow_rate_of_zero_is_refused() {
    let mut status = info(99);
    assert_eq!(set_injector_flow(&mut status, &injector(0, 110_000, 726)), Err(FlowError::Zero));
    assert_eq!(status.fuel_flow_rate, 0);
    let mut status = info(99);
    // 0.001 x 0.001 x 0.001 / 60 rounds to nothing
    assert_eq!(set_injector_flow(&mut status, &injector(1, 1, 1)), Err(FlowError::Zero));
    assert_eq!(status.fuel_flow_rate, 0);
}

#[test]
fn flow_rate_out_of_range_is_refused() {
    let mut status = info(99);
    let all = u32::MAX;
    assert_eq!(set_injector_flow(&mut status, &injector(all, all, all)), Err(FlowError::OutOfRange));
    assert_eq!(status.fuel_flow_rate, 0);
}

#[test]
fn flow_rate_rounds_to_nearest() {
    let mut status = info(0);
    // 30_000_000 / 60_000_000 is a half and goes up
    assert_eq!(set_injector_flow(&mut status, &injector(1000, 30_000, 1)), Ok(()));
    assert_eq!(status.fuel_flow_rate, 1);
    // just below the half
    assert_eq!(set_injector_flow(&mut status, &injector(1000, 29_999, 1)), Err(FlowError::Zero));
}

#[test]
fn base_time_is_nil() {
    let cfg = get_default_efi_cfg();
    assert_eq!(get_base_time(&cfg.injection), 0);
    assert_eq!(get_base_time(&injector(1, 2, 3)), 0);
}

#[test]
fn corrections_without_data_are_neutral() {
    assert_eq!(get_battery_correction(None, 0), 1000);
    assert_eq!(get_battery_correction(None, 13_800), 1000);
    assert_eq!(get_pressure_correction(), 0);
    assert_eq!(get_wall_wetting_correction(), 1000);
    let c = Corrections::neutral();
    assert_eq!(c, Corrections { battery: 1000, pressure: 0, wall_wetting: 1000 });
    assert_eq!(Corrections::gather(None, 12_000), c);
}

fn sample_table() -> BatteryTable {
    BatteryTable::new(vec![
        BatteryPoint { millivolts: 9_000, multiplier: 1400 },
        BatteryPoint { millivolts: 11_000, multiplier: 1150 },
        BatteryPoint { millivolts: 13_000, multiplier: 1000 },
        BatteryPoint { millivolts: 15_000, multiplier: 920 },
    ])
    .unwrap()
}

#[test]
fn battery_table_gives_the_point_at_or_below() {
    let table = sample_table();
    assert_eq!(table.len(), 4);
    assert_eq!(get_battery_correction(Some(&table), 0), 1400);
    assert_eq!(get_battery_correction(Some(&table), 8_999), 1400);
    assert_eq!(get_battery_correction(Some(&table), 9_000), 1400);
    assert_eq!(get_battery_correction(Some(&table), 10_999), 1400);
    assert_eq!(get_battery_correction(Some(&table), 11_000), 1150);
    assert_eq!(get_battery_correction(Some(&table), 12_999), 1150);
    assert_eq!(get_battery_correction(Some(&table), 13_000), 1000);
    assert_eq!(get_battery_correction(Some(&table), 15_000), 920);
    assert_eq!(get_battery_correction(Some(&table), u16::MAX), 920);
    assert_eq!(table.multiplier_at(14_000), 1000);
    assert_eq!(Corrections::gather(Some(&table), 11_500).battery, 1150);
}

#[test]
fn battery_table_must_be_usable() {
    assert!(BatteryTable::new(vec![]).is_none());
    assert!(BatteryTable::new(vec![BatteryPoint { millivolts: 9_000, multiplier: 0 }]).is_none());
    assert!(BatteryTable::new(vec![
        BatteryPoint { millivolts: 9_000, multiplier: 1000 },
        BatteryPoint { millivolts: 9_000, multiplier: 1100 },
    ])
    .is_none());
    assert!(BatteryTable::new(vec![
        BatteryPoint { millivolts: 9_000, multiplier: 1000 },
        BatteryPoint { millivolts: 8_000, multiplier: 1100 },
    ])
    .is_none());
    assert!(BatteryTable::new(vec![BatteryPoint { millivolts: 0, multiplier: 1 }]).is_some());
}

#[test]
fn corrections_multiply() {
    let neutral = Corrections::neutral();
    assert_eq!(apply_corrections(27_778, &neutral), 27_778);
    let c = Corrections { battery: 1100, pressure: 50, wall_wetting: 900 };
    // 10000 x 1.1 x 1.05 x 0.9 = 10395
    assert_eq!(apply_corrections(10_000, &c), 10_395);
    // 3 x 1.1 x 1.05 x 0.9 = 3.1185, rounded once
    assert_eq!(apply_corrections(3, &c), 3);
    let half = Corrections { battery: 500, pressure: 0, wall_wetting: 1000 };
    assert_eq!(apply_corrections(1, &half), 1);
    assert_eq!(apply_corrections(0, &c), 0);
    let most = Corrections { battery: u16::MAX, pressure: u16::MAX, wall_wetting: u16::MAX };
    assert_eq!(
        apply_corrections(u64::MAX, &most),
        (u64::MAX as u128 * 65_535 * 66_535 * 65_535 + 500_000_000) / 1_000_000_000
    );
}

#[test]
fn clamp_marks_the_move() {
    let limits = PulseLimits { min_width: 500, max_width: 20_000 };
    assert_eq!(
        clamp_pulse(499, &limits),
        InjectionPulse::Open { width: 500, clamp: Clamp::RaisedToMinimum }
    );
    assert_eq!(clamp_pulse(500, &limits), InjectionPulse::Open { width: 500, clamp: Clamp::Unclamped });
    assert_eq!(
        clamp_pulse(20_000, &limits),
        InjectionPulse::Open { width: 20_000, clamp: Clamp::Unclamped }
    );
    assert_eq!(
        clamp_pulse(20_001, &limits),
        InjectionPulse::Open { width: 20_000, clamp: Clamp::LoweredToMaximum }
    );
    assert_eq!(
        clamp_pulse(u128::MAX, &limits),
        InjectionPulse::Open { width: 20_000, clamp: Clamp::LoweredToMaximum }
    );
}

#[test]
fn pipeline_with_neutral_corrections() {
    let mut status = info(180_000);
    let pulse = calculate_time_isr(&mut status, 10_000, 2, &Corrections::neutral(), &wide_limits());
    assert_eq!(pulse, Ok(InjectionPulse::Open { width: 27_778, clamp: Clamp::Unclamped }));
    assert_eq!(status.pulse_width, 27_778);
    assert_eq!(status.fuel_flow_rate, 180_000);
}

#[test]
fn pipeline_applies_corrections_then_limits() {
    let mut status = info(180_000);
    let c = Corrections { battery: 1100, pressure: 50, wall_wetting: 900 };
    // 27778 x 1.1 x 1.05 x 0.9 = 28875.231
    let pulse = calculate_time_isr(&mut status, 10_000, 2, &c, &wide_limits());
    assert_eq!(pulse, Ok(InjectionPulse::Open { width: 28_875, clamp: Clamp::Unclamped }));
    let tight = PulseLimits { min_width: 1000, max_width: 20_000 };
    let pulse = calculate_time_isr(&mut status, 10_000, 2, &c, &tight);
    assert_eq!(pulse, Ok(InjectionPulse::Open { width: 20_000, clamp: Clamp::LoweredToMaximum }));
    assert_eq!(status.pulse_width, 20_000);
    let pulse = calculate_time_isr(&mut status, 100, 2, &c, &tight);
    assert_eq!(pulse, Ok(InjectionPulse::Open { width: 1000, clamp: Clamp::RaisedToMinimum }));
    assert_eq!(status.pulse_width, 1000);
}

#[test]
fn pipeline_cuts_off_on_zero_fuel() {
    let mut status = InjectionInfo { fuel_flow_rate: 180_000, pulse_width: 555 };
    let limits = PulseLimits { min_width: 1000, max_width: 20_000 };
    let pulse = calculate_time_isr(&mut status, 0, 2, &Corrections::neutral(), &limits);
    assert_eq!(pulse, Ok(InjectionPulse::Cutoff));
    assert_eq!(status.pulse_width, 0);
}

#[test]
fn pipeline_errors_in_order() {
    let neutral = Corrections::neutral();
    let dead = Corrections { battery: 0, pressure: 0, wall_wetting: 1000 };
    let dry = Corrections { battery: 1000, pressure: 0, wall_wetting: 0 };
    let crossed = PulseLimits { min_width: 2, max_width: 1 };
    let mut status = InjectionInfo { fuel_flow_rate: 0, pulse_width: 77 };
    assert_eq!(
        calculate_time_isr(&mut status, 0, 0, &dead, &crossed),
        Err(InjectionError::FlowRateUnset)
    );
    assert_eq!(status.pulse_width, 0);
    let mut status = InjectionInfo { fuel_flow_rate: 5, pulse_width: 77 };
    assert_eq!(
        calculate_time_isr(&mut status, 10, 0, &dead, &crossed),
        Err(InjectionError::ZeroDivisor)
    );
    assert_eq!(status.pulse_width, 0);
    assert_eq!(
        calculate_time_isr(&mut status, 10, 2, &dead, &crossed),
        Err(InjectionError::ZeroCorrection)
    );
    assert_eq!(
        calculate_time_isr(&mut status, 10, 2, &dry, &wide_limits()),
        Err(InjectionError::ZeroCorrection)
    );
    assert_eq!(
        calculate_time_isr(&mut status, 10, 2, &neutral, &crossed),
        Err(InjectionError::InvalidLimits)
    );
    assert_eq!(status.fuel_flow_rate, 5);
    assert_eq!(status.pulse_width, 0);
}

#[test]
fn divisor_policy_falls_back() {
    let policy = DivisorPolicy::provisional();
    assert_eq!(policy.divisor(4, InjectionMode::SemiSequential), 2);
    assert_eq!(policy.divisor(6, InjectionMode::Sequential), 2);
    assert_eq!(policy.divisor(0, InjectionMode::Batch), 2);
}

#[test]
fn divisor_policy_takes_the_first_rule() {
    let policy = DivisorPolicy {
        rules: vec![
            DivisorRule { cylinder_count: 4, mode: InjectionMode::Sequential, divisor: 1 },
            DivisorRule { cylinder_count: 4, mode: InjectionMode::Batch, divisor: 4 },
            DivisorRule { cylinder_count: 4, mode: InjectionMode::Sequential, divisor: 9 },
        ],
        fallback: 3,
    };
    assert_eq!(policy.divisor(4, InjectionMode::Sequential), 1);
    assert_eq!(policy.divisor(4, InjectionMode::Batch), 4);
    assert_eq!(policy.divisor(4, InjectionMode::SemiSequential), 3);
    assert_eq!(policy.divisor(6, InjectionMode::Sequential), 3);
}

//! Raising black by how bright the source is.
use suede::model::Real;
use suede::projection::adaptive::{
    collected, configure_adaptive, uncollected, AdaptiveLift, CapturedLuminance, Configured,
    LiftReading, LiftRuntime, LiftSettings, MeasurementFlight, MeasurementSchedule, Told,
};
use suede::projection::install::is_wall_wide;
use suede::projection::wall::Backend;

const MILLI: u64 = 1_000_000;
const TICK: u64 = 20 * MILLI;

fn number(value: f64) -> Real {
    Real { bits: value.to_bits() }
}

fn lift() -> AdaptiveLift {
    AdaptiveLift {
        level: number(0.2),
        dark_threshold: number(0.02),
        bright_threshold: number(0.2),
        rise_ms: number(1000.0),
        fall_ms: number(250.0),
        slew_per_second: number(0.1),
    }
}

fn settings(config: Option<AdaptiveLift>, pattern: bool) -> LiftSettings {
    LiftSettings {
        config,
        maximum: 2,
        canvas_size: (320, 240),
        session: "session".to_string(),
        pattern,
    }
}

fn reading(target: f64, level: f64) -> LiftReading {
    LiftReading { target: number(target), level: number(level) }
}

fn configured(backend: Option<Backend>, now: u64) -> LiftRuntime {
    let (runtime, _) =
        configure_adaptive(None, settings(Some(lift()), false), backend, 7, 0, now, None, None);
    runtime.unwrap()
}

fn sample(capture_id: u64, luminance: f64, at: u64) -> CapturedLuminance {
    CapturedLuminance {
        capture_id,
        result: Ok((number(luminance), 65536)),
        measured_at_unix_ms: at,
        latency_ms: number(2.0),
    }
}

#[test]
fn first_settled_measurement_is_reported_without_removing_the_rate_bound() {
    let now = 1_000 * MILLI;
    let mut runtime = configured(Some(Backend::Gpu), now);
    runtime.next_report = now + 1_000 * MILLI;
    let (_, force) = runtime.measured(&sample(41, 0.0, 1000), 1);
    let said = runtime.report(now, force, reading(0.2, 0.2), 2000);
    runtime.schedule(false, said, now + TICK);
    assert!(said);
    assert!(runtime.status.available);
    assert!(runtime.status.reason.is_none());
    assert!(runtime.next_tick.is_none(), "the sample is already at target");

    runtime.next_report = now + 1_000 * MILLI;
    let (_, force) = runtime.measured(&sample(42, 0.0, 1001), 2);
    let said = runtime.report(now, force, reading(0.2, 0.2), 2000);
    runtime.schedule(false, said, now + TICK);
    assert!(!said);
    let report_at = runtime.next_tick.unwrap();
    assert!(runtime.tick_due(report_at));
    runtime.ticked(false, report_at + TICK, 2);
    assert!(runtime.next_tick.is_none());
}

#[test]
fn startup_holds_the_fixed_level_until_the_first_pass_is_collected() {
    let now = 1_000 * MILLI;
    let runtime = configured(Some(Backend::Gpu), now);
    let mut schedule = MeasurementSchedule::new();
    schedule.submitted(
        MeasurementFlight { capture_id: 1, slot: 0, submitted_at: now },
        now,
    );
    assert!(runtime.measures(false, Some(Backend::Gpu)));
    assert!(!schedule.should_submit(now, 1, 1));
    assert_eq!(runtime.status.applied, number(0.2));
    assert!(!runtime.status.available);
}

#[test]
fn the_slot_the_next_capture_will_fill_is_never_measured() {
    let schedule = MeasurementSchedule::new();
    assert!(!schedule.should_submit(0, 0, 0));
    assert!(schedule.should_submit(0, 1, 0));
    assert!(schedule.flight.is_none());
}

#[test]
fn a_measurement_in_flight_defers_the_next_submission_and_survives_the_capture() {
    let now = 1_000 * MILLI;
    let flight = MeasurementFlight { capture_id: 5, slot: 0, submitted_at: now };
    let mut schedule = MeasurementSchedule::new();
    schedule.submitted(flight, now);
    assert!(!schedule.should_submit(now, 1, 0));
    assert_eq!(schedule.flight, Some(flight));
}

#[test]
fn a_collected_measurement_is_applied_tagged_with_the_capture_it_sampled() {
    let now = 1_000 * MILLI;
    let mut runtime = configured(Some(Backend::Gpu), now);
    let mut schedule = MeasurementSchedule::new();
    schedule.refused(now + 100 * MILLI);
    assert!(!schedule.should_submit(now, 0, 1));
    let mut measurement = sample(6, 1.0, 1000);
    measurement.latency_ms = number(17.0);
    let (told, _) = runtime.measured(&measurement, 3);
    assert_eq!(
        told,
        Told::Measured { luminance: number(1.0), samples: 65536, capture_id: 6 }
    );
    assert_eq!(runtime.status.capture_id, Some(6));
    assert_eq!(runtime.status.measurement_ms, Some(number(17.0)));
    assert!(runtime.status.available);
}

#[test]
fn retiring_a_measured_slot_releases_it_even_with_no_gpu_to_ask() {
    let mut schedule = MeasurementSchedule::new();
    schedule.submitted(
        MeasurementFlight { capture_id: 3, slot: 1, submitted_at: 0 },
        0,
    );
    assert!(!schedule.retire_slot(0));
    assert!(schedule.reads_slot(1));
    assert!(schedule.retire_slot(1));
    assert!(schedule.flight.is_none());
}

#[test]
fn repeated_moving_measurements_do_not_postpone_controller_tick() {
    let now = 1_000 * MILLI;
    let mut runtime = configured(Some(Backend::Gpu), now);
    let (_, force) = runtime.measured(&sample(41, 1.0, 1000), 1);
    assert!(runtime.report(now, force, reading(0.0, 0.2), 2000));
    runtime.schedule(true, true, now + TICK);
    let deadline = now + 5 * MILLI;
    runtime.next_tick = Some(deadline);
    let (_, force) = runtime.measured(&sample(42, 1.0, 1001), 2);
    let said = runtime.report(now, force, reading(0.0, 0.2), 2000);
    runtime.schedule(true, said, now + TICK);
    assert_eq!(runtime.next_tick, Some(deadline));
}

#[test]
fn adaptive_cpu_and_patterns_report_fixed_fallback_without_timer() {
    let runtime = configured(Some(Backend::Cpu), 0);
    assert!(!runtime.status.available);
    assert!(runtime.status.reason.as_ref().unwrap().contains("GPU capture"));
    assert_eq!(runtime.status.applied, number(0.2));
    assert!(runtime.next_tick.is_none());
    assert!(!runtime.measures(false, Some(Backend::Cpu)));
    let (runtime, asked) = configure_adaptive(
        None,
        settings(Some(lift()), true),
        Some(Backend::Gpu),
        0,
        0,
        0,
        None,
        None,
    );
    let runtime = runtime.unwrap();
    assert!(runtime.status.paused);
    assert_eq!(runtime.status.applied, number(0.2));
    assert!(runtime.next_tick.is_none());
    assert_eq!(asked, Configured::Fresh { paused: true, unavailable: false, measure: None });
}

#[test]
fn geometry_config_install_preserves_measurement_and_controller_progress() {
    let mut runtime = configured(Some(Backend::Gpu), 0);
    let measurement =
        CapturedLuminance { result: Ok((number(1.0), 100)), ..sample(8, 1.0, 1000) };
    runtime.measured(&measurement, 1);
    let (runtime, asked) = configure_adaptive(
        Some(runtime),
        settings(Some(lift()), false),
        Some(Backend::Gpu),
        9,
        1,
        MILLI,
        None,
        Some(0),
    );
    let runtime = runtime.unwrap();
    assert_eq!(asked, Configured::Kept);
    assert_eq!(runtime.generation, 9);
    assert_eq!(runtime.status.capture_id, Some(8));
}

#[test]
fn adaptive_settings_and_mode_changes_reuse_the_static_capture_measurement() {
    let measurement = sample(42, 1.0, 1000);
    let runtime = configured(Some(Backend::Gpu), 0);
    let brighter = AdaptiveLift { level: number(0.3), ..lift() };
    let (runtime, asked) = configure_adaptive(
        Some(runtime),
        settings(Some(brighter), false),
        Some(Backend::Gpu),
        2,
        0,
        0,
        None,
        Some(0),
    );
    assert_eq!(
        asked,
        Configured::Fresh { paused: false, unavailable: false, measure: Some(0) }
    );
    let mut runtime = runtime.unwrap();
    runtime.measured(&measurement, 0);
    assert_eq!(runtime.status.capture_id, Some(42));
    assert_eq!(runtime.status.measured_at_unix_ms, Some(1000));
    let (runtime, asked) = configure_adaptive(
        Some(runtime),
        settings(None, false),
        Some(Backend::Gpu),
        3,
        0,
        0,
        None,
        Some(0),
    );
    assert!(runtime.is_none());
    assert_eq!(asked, Configured::Fixed { announce: true });
    let (runtime, asked) =
        configure_adaptive(None, settings(None, false), None, 4, 0, 0, None, None);
    assert!(runtime.is_none());
    assert_eq!(asked, Configured::Fixed { announce: false });
}

#[test]
fn a_report_says_how_old_its_sample_is() {
    let now = 1_000 * MILLI;
    let mut runtime = configured(Some(Backend::Gpu), now);
    runtime.measured(&collected(3, number(0.5), 10, number(40.7), 40, 5_040), 1);
    assert!(runtime.report(now, false, reading(0.1, 0.15), 6_000));
    assert_eq!(runtime.status.measured_at_unix_ms, Some(5_000));
    assert_eq!(runtime.status.sample_age_ms, Some(1_000));
    assert_eq!(runtime.status.target, number(0.1));
    assert_eq!(runtime.status.applied, number(0.15));
    assert_eq!(runtime.next_report, now + 100 * MILLI);
    assert!(!runtime.report(now + 99 * MILLI, false, reading(0.0, 0.0), 7_000));
    assert_eq!(runtime.status.target, number(0.1));
}

#[test]
fn a_measurement_that_fails_is_reported_and_one_without_samples_changes_nothing() {
    let mut runtime = configured(Some(Backend::Gpu), 0);
    runtime.measured(&sample(1, 0.5, 1000), 1);
    let (told, force) = runtime.measured(&uncollected(2, "device lost".to_string(), 2000), 2);
    assert_eq!(told, Told::Unavailable);
    assert!(force);
    assert_eq!(
        runtime.status.reason.as_deref(),
        Some("Source measurement unavailable: device lost")
    );
    let empty = CapturedLuminance { result: Ok((number(0.5), 0)), ..sample(3, 0.0, 3000) };
    runtime.measured(&empty, 3);
    assert!(runtime.status.stale && !runtime.status.available);
    assert_eq!(runtime.status.capture_id, Some(1));
    let infinite = CapturedLuminance {
        result: Ok((number(f64::INFINITY), 5)),
        ..sample(4, 0.0, 4000)
    };
    runtime.measured(&infinite, 4);
    assert_eq!(runtime.status.capture_id, Some(1));
}

#[test]
fn an_adaptive_level_changes_the_whole_wall_when_its_settings_do() {
    let brighter = AdaptiveLift { level: number(0.3), ..lift() };
    assert!(is_wall_wide(&Some(lift()), &None, 2));
    assert!(is_wall_wide(&Some(brighter), &Some(lift()), 2));
    assert!(is_wall_wide(&Some(lift()), &Some(lift()), 0));
    assert!(!is_wall_wide(&Some(lift()), &Some(lift()), 2));
    assert!(!is_wall_wide(&None, &Some(lift()), 0));
}

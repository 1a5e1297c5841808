//! What holds of a black level that adapts to the picture.
use crate::model::Real;
use crate::model_laws::{is_nan, same_number};
use crate::projection::adaptive::{
    asked_at, configures, fresh_status, image_at_hand, is_finite, is_report_due, next_report_after,
    reported, same_lift, status_after, tick_after, AdaptiveLift, CapturedLuminance, Configured,
    LiftReading, LiftRuntime, LiftSettings, LiftStatusView, MeasurementSchedule, REPORT_WINDOW,
};
use crate::projection::wall::Backend;
use vstd::prelude::*;
use vstd::string::*;

verus! {

/// Two settings agree in every number.
pub open spec fn agree(a: AdaptiveLift, b: AdaptiveLift) -> bool {
    &&& same_number(a.level, b.level)
    &&& same_number(a.dark_threshold, b.dark_threshold)
    &&& same_number(a.bright_threshold, b.bright_threshold)
    &&& same_number(a.rise_ms, b.rise_ms)
    &&& same_number(a.fall_ms, b.fall_ms)
    &&& same_number(a.slew_per_second, b.slew_per_second)
}

/// Every setting is a number.
pub open spec fn all_numbers(a: AdaptiveLift) -> bool {
    !is_nan(a.level) && !is_nan(a.dark_threshold) && !is_nan(a.bright_threshold) && !is_nan(
        a.rise_ms,
    ) && !is_nan(a.fall_ms) && !is_nan(a.slew_per_second)
}

/// Two settings are the same exactly where they agree in every number.
pub proof fn same_settings_agree(a: AdaptiveLift, b: AdaptiveLift)
    ensures
        same_lift(a, b) ==> agree(a, b),
        agree(a, b) && all_numbers(a) && all_numbers(b) ==> same_lift(a, b),
{
}

/// Settings that stay the same go on with what runs, under the new generation and count
/// of outputs; others start anew; without settings nothing runs, and that is announced
/// where something did.
pub proof fn settings_take_effect(
    before: Option<LiftRuntime>,
    after: Option<LiftRuntime>,
    asked: Configured,
    settings: LiftSettings,
    backend: Option<Backend>,
    generation: u64,
    snapshot_id: u64,
    now: u64,
    at_hand: Option<usize>,
)
    requires
        configures(
            before,
            after,
            asked,
            settings,
            backend,
            generation,
            snapshot_id,
            now,
            at_hand,
        ),
    ensures
        settings.config is None ==> after is None && asked == (Configured::Fixed {
            announce: before is Some,
        }),
        settings.config is Some ==> after is Some && after->0.generation == generation
            && after->0.maximum == settings.maximum,
        settings.config is Some && asked == Configured::Kept ==> before is Some && agree(
            before->0.config,
            settings.config->0,
        ) && after->0 == (LiftRuntime {
            generation,
            maximum: settings.maximum,
            ..before->0
        }),
        settings.config is Some && (before is None || !agree(before->0.config, settings.config->0))
            ==> {
            &&& asked == (Configured::Fresh {
                paused: settings.pattern,
                unavailable: !settings.pattern && backend != Some(Backend::Gpu),
                measure: at_hand,
            })
            &&& after->0.config == settings.config->0
            &&& after->0.canvas_size == settings.canvas_size
            &&& after->0.session@ == settings.session@
            &&& after->0.next_tick is None
            &&& after->0.next_report == now
            &&& after->0.status@.applied == settings.config->0.level
            &&& after->0.status@.target == settings.config->0.level
            &&& after->0.status@.logical_generation == snapshot_id
            &&& after->0.status@.paused == settings.pattern
            &&& !after->0.status@.available
        },
{
}

/// A level that starts stands at the level that was asked for, has measured nothing, and
/// says what it waits for.
pub proof fn fresh_levels_stand_at_the_level(
    config: AdaptiveLift,
    pattern: bool,
    backend: Option<Backend>,
    snapshot_id: u64,
)
    ensures
        ({
            let status = fresh_status(config, pattern, backend, snapshot_id);
            &&& status.target == config.level && status.applied == config.level
            &&& !status.available && !status.stale
            &&& status.paused == pattern
            &&& status.capture_id is None && status.luminance is None
            &&& status.sample_count == 0
            &&& status.measured_at_unix_ms is None && status.sample_age_ms is None
            &&& status.measurement_ms is None
            &&& status.logical_generation == snapshot_id
            &&& pattern ==> status.reason == Some(
                "Calibration pattern suspends source measurement and adaptation"@,
            )
            &&& !pattern && backend != Some(Backend::Gpu) ==> status.reason == Some(
                "Source measurement requires the GPU capture path; using configured fixed level"@,
            )
            &&& !pattern && backend == Some(Backend::Gpu) ==> status.reason == Some(
                "Waiting for the first source measurement"@,
            )
        }),
{
}

/// The image at hand is the one that waits to be drawn, else the one that is shown.
pub proof fn waiting_image_is_at_hand(waiting: Option<usize>, shown: Option<usize>)
    ensures
        waiting is Some ==> image_at_hand(waiting, shown) == waiting,
        waiting is None ==> image_at_hand(waiting, shown) == shown,
{
}

/// What is reported is the target and the level that are read, with the age of the last
/// measurement; nothing else changes.
pub proof fn reports_tell_what_is_read(
    status: LiftStatusView,
    reading: LiftReading,
    unix_ms: u64,
)
    ensures
        ({
            let told = reported(status, reading, unix_ms);
            &&& told.target == reading.target
            &&& told.applied == reading.level
            &&& status.measured_at_unix_ms is None ==> told.sample_age_ms is None
            &&& status.measured_at_unix_ms matches Some(at) ==> told.sample_age_ms is Some
                && told.sample_age_ms->0 == (if at <= unix_ms {
                unix_ms - at
            } else {
                0
            })
            &&& told == (LiftStatusView {
                target: reading.target,
                applied: reading.level,
                sample_age_ms: told.sample_age_ms,
                ..status
            })
        }),
        REPORT_WINDOW == 100_000_000,
{
}

/// A number is finite exactly where its exponent is not full.
pub proof fn finite_numbers_have_an_exponent(number: Real)
    ensures
        is_finite(number) <==> number.bits % 0x8000_0000_0000_0000 < 0x7ff0_0000_0000_0000,
{
}

/// A measurement of at least one sample that gives a finite brightness is available from
/// then on, as it was measured; without samples the last one is kept as stale; one that
/// failed is told as unavailable. How long it took is kept in every case.
pub proof fn measurements_are_told_as_they_are(
    status: LiftStatusView,
    measurement: CapturedLuminance,
    snapshot_id: u64,
)
    ensures
        ({
            let told = status_after(status, measurement, snapshot_id);
            &&& told.measurement_ms == Some(measurement.latency_ms)
            &&& told.logical_generation == snapshot_id
            &&& told.target == status.target && told.applied == status.applied
            &&& told.paused == status.paused
            &&& told.sample_age_ms == status.sample_age_ms
            &&& measurement.result matches Ok((luminance, samples)) ==> {
                let good = samples > 0 && luminance.bits % 0x8000_0000_0000_0000
                    < 0x7ff0_0000_0000_0000;
                &&& good ==> told.available && !told.stale && told.reason is None
                    && told.capture_id == Some(measurement.capture_id) && told.sample_count
                    == samples && told.luminance == Some(luminance) && told.measured_at_unix_ms
                    == Some(measurement.measured_at_unix_ms)
                &&& !good ==> !told.available && told.stale && told.reason == Some(
                    "Zero samples: retaining the last valid target"@,
                ) && told.capture_id == status.capture_id && told.sample_count
                    == status.sample_count && told.luminance == status.luminance
                    && told.measured_at_unix_ms == status.measured_at_unix_ms
            }
            &&& measurement.result matches Err(error) ==> !told.available && !told.stale
                && told.reason == Some("Source measurement unavailable: "@ + error@)
                && told.luminance == status.luminance && told.capture_id == status.capture_id
        }),
{
}

/// A level that moves is looked at again at the earlier of the two times; one that rests
/// is looked at again only to report what was not reported.
pub proof fn levels_are_looked_at_again(
    scheduled: Option<u64>,
    was_reported: bool,
    next_report: u64,
    tick_at: u64,
)
    ensures
        tick_after(None, true, was_reported, next_report, tick_at) == Some(tick_at),
        scheduled matches Some(at) ==> (tick_after(
            scheduled,
            true,
            was_reported,
            next_report,
            tick_at,
        ) matches Some(next) && next <= at && next <= tick_at && (next == at || next == tick_at)),
        tick_after(scheduled, false, true, next_report, tick_at) is None,
        tick_after(scheduled, false, false, next_report, tick_at) == Some(next_report),
{
}

/// An image is measured only while no other measurement is under way, when enough time has
/// passed since the last, and never while it is the one that is captured into.
pub proof fn images_are_measured_one_at_a_time(
    schedule: MeasurementSchedule,
    now: u64,
    slot: usize,
    armed: usize,
)
    ensures
        schedule.flight is Some ==> !schedule.may_measure(now, slot, armed),
        !schedule.may_measure(now, slot, slot),
        schedule.not_before is Some && now < schedule.not_before->0 ==> !schedule.may_measure(
            now,
            slot,
            armed,
        ),
        schedule.flight is None && slot != armed && (schedule.not_before is None
            || schedule.not_before->0 <= now) ==> schedule.may_measure(now, slot, armed),
{
}

/// A report is made where it is forced or a tenth of a second has passed since the last, and
/// the next is not made before another tenth has.
pub proof fn reports_are_spaced(next_report: u64, now: u64, later: u64, force: bool)
    requires
        now <= u64::MAX - 100_000_000,
    ensures
        is_report_due(next_report, now, force) <==> force || next_report <= now,
        next_report_after(next_report, now, force) >= next_report || force,
        is_report_due(next_report, now, force) ==> next_report_after(next_report, now, force)
            == now + 100_000_000,
        !is_report_due(next_report, now, force) ==> next_report_after(next_report, now, force)
            == next_report,
{
}

/// A measurement is of the time at which it was asked for: that much earlier than it came
/// back.
pub proof fn measurements_are_of_their_time(unix_ms: u64, latency: u64)
    ensures
        latency <= unix_ms ==> asked_at(unix_ms, latency) + latency == unix_ms,
        latency > unix_ms ==> asked_at(unix_ms, latency) == 0,
{
}

} // verus!

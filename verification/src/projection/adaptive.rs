//! Raising black by how bright the source is: what is measured, when, and what
//! is said of it. The level itself is computed elsewhere, from the measurements.
//!
//! Times are nanoseconds on one monotonic clock, but for those since the epoch.
use crate::model::{magnitude_bits, real_eq, Real};
use crate::projection::wall::Backend;
use vstd::prelude::*;
use vstd::string::*;

verus! {

/// The shortest time between two reports that nothing forces.
pub const REPORT_WINDOW: u64 = 100_000_000;

/// How black is raised.
#[derive(Clone, Copy, Debug, PartialEq, Eq, Structural)]
pub struct AdaptiveLift {
    pub level: Real,
    pub dark_threshold: Real,
    pub bright_threshold: Real,
    pub rise_ms: Real,
    pub fall_ms: Real,
    pub slew_per_second: Real,
}

/// Whether two settings compare equal.
pub open spec fn same_lift(a: AdaptiveLift, b: AdaptiveLift) -> bool {
    real_eq(a.level, b.level) && real_eq(a.dark_threshold, b.dark_threshold) && real_eq(
        a.bright_threshold,
        b.bright_threshold,
    ) && real_eq(a.rise_ms, b.rise_ms) && real_eq(a.fall_ms, b.fall_ms) && real_eq(
        a.slew_per_second,
        b.slew_per_second,
    )
}

impl AdaptiveLift {
    /// Whether two settings compare equal.
    pub fn equals(&self, other: &AdaptiveLift) -> (equal: bool)
        ensures
            equal == same_lift(*self, *other),
    {
        self.level.equals(other.level) && self.dark_threshold.equals(other.dark_threshold)
            && self.bright_threshold.equals(other.bright_threshold) && self.rise_ms.equals(
            other.rise_ms,
        ) && self.fall_ms.equals(other.fall_ms) && self.slew_per_second.equals(
            other.slew_per_second,
        )
    }
}

/// A measurement that was asked for and has not come back.
#[derive(Clone, Copy, Debug, PartialEq, Eq, Structural)]
pub struct MeasurementFlight {
    pub capture_id: u64,
    /// The captured image that it reads.
    pub slot: usize,
    pub submitted_at: u64,
}

/// When the next measurement may be asked for. At most one is under way.
#[derive(Clone, Copy, Debug, PartialEq, Eq, Structural)]
pub struct MeasurementSchedule {
    pub flight: Option<MeasurementFlight>,
    pub not_before: Option<u64>,
}

impl MeasurementSchedule {
    /// A measurement of an image may be asked for.
    pub open spec fn may_measure(self, now: u64, slot: usize, armed: usize) -> bool {
        self.flight is None && slot != armed && (self.not_before is None || now
            >= self.not_before->0)
    }

    /// Nothing asked for yet.
    pub fn new() -> (schedule: Self)
        ensures
            schedule == (MeasurementSchedule { flight: None, not_before: None }),
    {
        MeasurementSchedule { flight: None, not_before: None }
    }

    /// Whether a measurement of an image may be asked for: none is under way, the
    /// last was long enough ago, and the image is not the one that the compositor
    /// draws into next.
    pub fn should_submit(&self, now: u64, slot: usize, armed: usize) -> (may: bool)
        ensures
            may == self.may_measure(now, slot, armed),
            may == (self.flight is None && slot != armed && match self.not_before {
                Some(at) => now >= at,
                None => true,
            }),
    {
        self.flight.is_none() && slot != armed && match self.not_before {
            Some(at) => now >= at,
            None => true,
        }
    }

    /// A measurement was asked for. The next is not before a time.
    pub fn submitted(&mut self, flight: MeasurementFlight, not_before: u64)
        ensures
            *final(self) == (MeasurementSchedule {
                flight: Some(flight),
                not_before: Some(not_before),
            }),
    {
        self.flight = Some(flight);
        self.not_before = Some(not_before);
    }

    /// A measurement could not be asked for. The next try is not before a time.
    pub fn refused(&mut self, not_before: u64)
        ensures
            *final(self) == (MeasurementSchedule { not_before: Some(not_before), ..*old(self) }),
    {
        self.not_before = Some(not_before);
    }

    /// Nothing is under way any more.
    pub fn completed(&mut self)
        ensures
            *final(self) == (MeasurementSchedule { flight: None, ..*old(self) }),
    {
        self.flight = None;
    }

    /// Whether a measurement under way reads an image.
    pub fn reads_slot(&self, slot: usize) -> (reads: bool)
        ensures
            reads == (self.flight matches Some(flight) && flight.slot == slot),
    {
        match self.flight {
            Some(flight) => flight.slot == slot,
            None => false,
        }
    }

    /// Makes sure that nothing reads an image any more: whether a measurement of
    /// it was under way, which the device then has to finish. A measurement of
    /// the other image goes on.
    pub fn retire_slot(&mut self, slot: usize) -> (finish: bool)
        ensures
            finish == (old(self).flight matches Some(flight) && flight.slot == slot),
            *final(self) == if finish {
                MeasurementSchedule { flight: None, ..*old(self) }
            } else {
                *old(self)
            },
            !(final(self).flight matches Some(flight) && flight.slot == slot),
    {
        if !self.reads_slot(slot) {
            return false;
        }
        self.completed();
        true
    }
}

/// A measurement, or why there is none. It is kept while settings change, so that
/// a still source need not be measured again.
#[derive(Debug)]
pub struct CapturedLuminance {
    /// The capture that was measured.
    pub capture_id: u64,
    /// The brightness, and of how many samples it is the mean.
    pub result: Result<(Real, u32), String>,
    pub measured_at_unix_ms: u64,
    pub latency_ms: Real,
}

/// When a measurement was asked for that came back now after so long.
pub open spec fn asked_at(unix_ms: u64, latency: u64) -> int {
    if unix_ms >= latency {
        unix_ms - latency
    } else {
        0
    }
}

/// A measurement that came back. It is of the frame that was captured when it was
/// asked for, so its time is that much earlier. `latency` is the whole part of
/// the milliseconds that it took.
pub fn collected(
    capture_id: u64,
    luminance: Real,
    samples: u32,
    latency_ms: Real,
    latency: u64,
    unix_ms: u64,
) -> (measurement: CapturedLuminance)
    ensures
        measurement.measured_at_unix_ms == asked_at(unix_ms, latency),
        measurement.capture_id == capture_id,
        measurement.result == Ok::<(Real, u32), String>((luminance, samples)),
        measurement.latency_ms == latency_ms,
        measurement.measured_at_unix_ms == if unix_ms >= latency {
            unix_ms - latency
        } else {
            0
        },
{
    CapturedLuminance {
        capture_id,
        result: Ok((luminance, samples)),
        measured_at_unix_ms: unix_ms.saturating_sub(latency),
        latency_ms,
    }
}

/// A measurement that failed.
pub fn uncollected(capture_id: u64, error: String, unix_ms: u64) -> (measurement: CapturedLuminance)
    ensures
        measurement == (CapturedLuminance {
            capture_id,
            result: Err(error),
            measured_at_unix_ms: unix_ms,
            latency_ms: Real { bits: 0 },
        }),
{
    CapturedLuminance {
        capture_id,
        result: Err(error),
        measured_at_unix_ms: unix_ms,
        latency_ms: Real { bits: 0 },
    }
}

/// What is said of the level of black.
#[derive(Debug)]
pub struct LiftStatus {
    pub available: bool,
    pub paused: bool,
    pub stale: bool,
    pub reason: Option<String>,
    pub capture_id: Option<u64>,
    pub sample_count: u32,
    pub luminance: Option<Real>,
    pub measured_at_unix_ms: Option<u64>,
    pub sample_age_ms: Option<u64>,
    pub target: Real,
    pub applied: Real,
    pub logical_generation: u64,
    pub measurement_ms: Option<Real>,
}

/// What a [`LiftStatus`] says.
pub struct LiftStatusView {
    pub available: bool,
    pub paused: bool,
    pub stale: bool,
    pub reason: Option<Seq<char>>,
    pub capture_id: Option<u64>,
    pub sample_count: u32,
    pub luminance: Option<Real>,
    pub measured_at_unix_ms: Option<u64>,
    pub sample_age_ms: Option<u64>,
    pub target: Real,
    pub applied: Real,
    pub logical_generation: u64,
    pub measurement_ms: Option<Real>,
}

impl View for LiftStatus {
    type V = LiftStatusView;

    open spec fn view(&self) -> LiftStatusView {
        LiftStatusView {
            available: self.available,
            paused: self.paused,
            stale: self.stale,
            reason: match self.reason {
                Some(reason) => Some(reason@),
                None => None,
            },
            capture_id: self.capture_id,
            sample_count: self.sample_count,
            luminance: self.luminance,
            measured_at_unix_ms: self.measured_at_unix_ms,
            sample_age_ms: self.sample_age_ms,
            target: self.target,
            applied: self.applied,
            logical_generation: self.logical_generation,
            measurement_ms: self.measurement_ms,
        }
    }
}

/// The level of black of a wall, and what is said of it.
#[derive(Debug)]
pub struct LiftRuntime {
    pub config: AdaptiveLift,
    /// The most outputs that cover one point.
    pub maximum: u32,
    pub canvas_size: (u32, u32),
    pub session: String,
    pub generation: u64,
    pub next_tick: Option<u64>,
    pub next_report: u64,
    pub status: LiftStatus,
}

/// Where the level is, and where it goes.
#[derive(Clone, Copy, Debug, PartialEq, Eq, Structural)]
pub struct LiftReading {
    pub target: Real,
    pub level: Real,
}

/// How old a measurement is.
pub open spec fn age_of(measured_at: Option<u64>, unix_ms: u64) -> Option<u64> {
    match measured_at {
        Some(at) => Some(
            if unix_ms >= at {
                (unix_ms - at) as u64
            } else {
                0
            },
        ),
        None => None,
    }
}

/// The status as it is reported.
pub open spec fn reported(status: LiftStatusView, reading: LiftReading, unix_ms: u64) -> LiftStatusView {
    LiftStatusView {
        target: reading.target,
        applied: reading.level,
        sample_age_ms: age_of(status.measured_at_unix_ms, unix_ms),
        ..status
    }
}

/// What a change of settings asks for.
#[derive(Clone, Copy, Debug, PartialEq, Eq, Structural)]
pub enum Configured {
    /// Black is at a fixed level; that it no longer adapts is announced once.
    Fixed { announce: bool },
    /// The settings are the same: the level goes on from where it is.
    Kept,
    /// A new level, that does not move while it is paused or nothing can be
    /// measured. A captured image that is at hand is measured.
    Fresh { paused: bool, unavailable: bool, measure: Option<usize> },
}

/// What the settings of a run say of the level of black.
pub struct LiftSettings {
    pub config: Option<AdaptiveLift>,
    pub maximum: u32,
    pub canvas_size: (u32, u32),
    pub session: String,
    /// A test pattern is shown.
    pub pattern: bool,
}

/// What a fresh level says of itself.
pub open spec fn fresh_reason(pattern: bool, backend: Option<Backend>) -> Seq<char> {
    if pattern {
        "Calibration pattern suspends source measurement and adaptation"@
    } else if backend != Some(Backend::Gpu) {
        "Source measurement requires the GPU capture path; using configured fixed level"@
    } else {
        "Waiting for the first source measurement"@
    }
}

/// The status of a fresh level.
pub open spec fn fresh_status(
    config: AdaptiveLift,
    pattern: bool,
    backend: Option<Backend>,
    snapshot_id: u64,
) -> LiftStatusView {
    LiftStatusView {
        available: false,
        paused: pattern,
        stale: false,
        reason: Some(fresh_reason(pattern, backend)),
        capture_id: None,
        sample_count: 0,
        luminance: None,
        measured_at_unix_ms: None,
        sample_age_ms: None,
        target: config.level,
        applied: config.level,
        logical_generation: snapshot_id,
        measurement_ms: None,
    }
}

/// The image that is at hand: the one that waits, or else the one shown last.
pub open spec fn image_at_hand(waiting: Option<usize>, shown: Option<usize>) -> Option<usize> {
    match waiting {
        Some(slot) => Some(slot),
        None => shown,
    }
}

/// What a change of settings asks for, and what becomes of the runtime.
pub open spec fn configures(
    before: Option<LiftRuntime>,
    after: Option<LiftRuntime>,
    asked: Configured,
    settings: LiftSettings,
    backend: Option<Backend>,
    generation: u64,
    snapshot_id: u64,
    now: u64,
    at_hand: Option<usize>,
) -> bool {
    match settings.config {
        None => after is None && asked == (Configured::Fixed { announce: before is Some }),
        Some(config) => if before matches Some(old_runtime) && same_lift(old_runtime.config, config) {
            &&& asked == Configured::Kept
            &&& after == Some(
                LiftRuntime { generation, maximum: settings.maximum, ..before->0 },
            )
        } else {
            &&& asked == (Configured::Fresh {
                paused: settings.pattern,
                unavailable: !settings.pattern && backend != Some(Backend::Gpu),
                measure: at_hand,
            })
            &&& after matches Some(runtime) && {
                &&& runtime.config == config
                &&& runtime.maximum == settings.maximum
                &&& runtime.canvas_size == settings.canvas_size
                &&& runtime.session@ == settings.session@
                &&& runtime.generation == generation
                &&& runtime.next_tick is None
                &&& runtime.next_report == now
                &&& runtime.status@ == fresh_status(config, settings.pattern, backend, snapshot_id)
            }
        },
    }
}

/// Takes new settings. Whatever is kept or made is to be reported at once.
pub fn configure_adaptive(
    runtime: Option<LiftRuntime>,
    settings: LiftSettings,
    backend: Option<Backend>,
    generation: u64,
    snapshot_id: u64,
    now: u64,
    waiting: Option<usize>,
    shown: Option<usize>,
) -> (configured: (Option<LiftRuntime>, Configured))
    ensures
        configures(
            runtime,
            configured.0,
            configured.1,
            settings,
            backend,
            generation,
            snapshot_id,
            now,
            image_at_hand(waiting, shown),
        ),
{
    let config = match settings.config {
        Some(config) => config,
        None => {
            let announce = runtime.is_some();
            return (None, Configured::Fixed { announce });
        },
    };
    if let Some(mut kept) = runtime {
        if kept.config.equals(&config) {
            kept.generation = generation;
            kept.maximum = settings.maximum;
            return (Some(kept), Configured::Kept);
        }
    }
    let gpu = match backend {
        Some(Backend::Gpu) => true,
        _ => false,
    };
    let reason = if settings.pattern {
        "Calibration pattern suspends source measurement and adaptation".to_owned()
    } else if !gpu {
        "Source measurement requires the GPU capture path; using configured fixed level".to_owned()
    } else {
        "Waiting for the first source measurement".to_owned()
    };
    let status = LiftStatus {
        available: false,
        paused: settings.pattern,
        stale: false,
        reason: Some(reason),
        capture_id: None,
        sample_count: 0,
        luminance: None,
        measured_at_unix_ms: None,
        sample_age_ms: None,
        target: config.level,
        applied: config.level,
        logical_generation: snapshot_id,
        measurement_ms: None,
    };
    let made = LiftRuntime {
        config,
        maximum: settings.maximum,
        canvas_size: settings.canvas_size,
        session: settings.session,
        generation,
        next_tick: None,
        next_report: now,
        status,
    };
    let measure: Option<usize> = match waiting {
        Some(slot) => Some(slot),
        None => shown,
    };
    (
        Some(made),
        Configured::Fresh {
            paused: settings.pattern,
            unavailable: !settings.pattern && !gpu,
            measure,
        },
    )
}

/// A number that is neither infinite nor none.
pub open spec fn is_finite(number: Real) -> bool {
    magnitude_bits(number.bits) < 0x7ff0_0000_0000_0000
}

/// What the level is to be told of a measurement.
#[derive(Clone, Copy, Debug, PartialEq, Eq, Structural)]
pub enum Told {
    Measured { luminance: Real, samples: u32, capture_id: u64 },
    Unavailable,
}

/// The status after a measurement: it tells of the capture that was measured,
/// which need not be the newest. One of no samples leaves the last in place.
pub open spec fn status_after(
    status: LiftStatusView,
    measurement: CapturedLuminance,
    snapshot_id: u64,
) -> LiftStatusView {
    let timed = LiftStatusView {
        measurement_ms: Some(measurement.latency_ms),
        logical_generation: snapshot_id,
        ..status
    };
    match measurement.result {
        Ok((luminance, samples)) => if samples > 0 && is_finite(luminance) {
            LiftStatusView {
                available: true,
                stale: false,
                reason: None,
                capture_id: Some(measurement.capture_id),
                sample_count: samples,
                luminance: Some(luminance),
                measured_at_unix_ms: Some(measurement.measured_at_unix_ms),
                ..timed
            }
        } else {
            LiftStatusView {
                available: false,
                stale: true,
                reason: Some("Zero samples: retaining the last valid target"@),
                ..timed
            }
        },
        Err(error) => LiftStatusView {
            available: false,
            stale: false,
            reason: Some("Source measurement unavailable: "@ + error@),
            ..timed
        },
    }
}

/// When the runtime is looked at next, after a measurement. A level that moves is
/// ticked no later than it was to be; one that does not is looked at only to
/// report what could not be reported yet.
pub open spec fn tick_after(
    scheduled: Option<u64>,
    moves: bool,
    was_reported: bool,
    next_report: u64,
    tick_at: u64,
) -> Option<u64> {
    if moves {
        match scheduled {
            Some(at) => Some(
                if at < tick_at {
                    at
                } else {
                    tick_at
                },
            ),
            None => Some(tick_at),
        }
    } else if was_reported {
        None
    } else {
        Some(next_report)
    }
}

/// A report is made now.
pub open spec fn is_report_due(next_report: u64, now: u64, force: bool) -> bool {
    force || now >= next_report
}

/// When the next report is made.
pub open spec fn next_report_after(next_report: u64, now: u64, force: bool) -> int {
    if is_report_due(next_report, now, force) {
        now + REPORT_WINDOW
    } else {
        next_report as int
    }
}

impl LiftRuntime {
    /// Reports the status, if a report is due or forced.
    pub fn report(&mut self, now: u64, force: bool, reading: LiftReading, unix_ms: u64) -> (said:
        bool)
        requires
            now <= u64::MAX - REPORT_WINDOW,
        ensures
            said == is_report_due(old(self).next_report, now, force),
            final(self).next_report == next_report_after(old(self).next_report, now, force),
            said == (force || now >= old(self).next_report),
            final(self).next_report == if said {
                (now + REPORT_WINDOW) as u64
            } else {
                old(self).next_report
            },
            final(self).status@ == if said {
                reported(old(self).status@, reading, unix_ms)
            } else {
                old(self).status@
            },
            final(self).config == old(self).config,
            final(self).maximum == old(self).maximum,
            final(self).canvas_size == old(self).canvas_size,
            final(self).session == old(self).session,
            final(self).generation == old(self).generation,
            final(self).next_tick == old(self).next_tick,
    {
        if !force && now < self.next_report {
            return false;
        }
        self.next_report = now + REPORT_WINDOW;
        self.status.target = reading.target;
        self.status.applied = reading.level;
        self.status.sample_age_ms = match self.status.measured_at_unix_ms {
            Some(at) => Some(unix_ms.saturating_sub(at)),
            None => None,
        };
        true
    }

    /// Whether a capture is measured at all.
    pub fn measures(&self, paused: bool, backend: Option<Backend>) -> (measures: bool)
        ensures
            measures == (!paused && backend == Some(Backend::Gpu)),
    {
        !paused && match backend {
            Some(Backend::Gpu) => true,
            _ => false,
        }
    }

    /// Takes a measurement: what the level is to be told, and whether that is to
    /// be reported whatever was reported before. The first sample is, and so is
    /// every failure.
    pub fn measured(&mut self, measurement: &CapturedLuminance, snapshot_id: u64) -> (told: (
        Told,
        bool,
    ))
        ensures
            told.0 == match measurement.result {
                Ok((luminance, samples)) => Told::Measured {
                    luminance,
                    samples,
                    capture_id: measurement.capture_id,
                },
                Err(_) => Told::Unavailable,
            },
            told.1 == (!final(self).status.available || !old(self).status.available),
            final(self).status@ == status_after(old(self).status@, *measurement, snapshot_id),
            final(self).config == old(self).config,
            final(self).maximum == old(self).maximum,
            final(self).canvas_size == old(self).canvas_size,
            final(self).session == old(self).session,
            final(self).generation == old(self).generation,
            final(self).next_tick == old(self).next_tick,
            final(self).next_report == old(self).next_report,
    {
        let was_available = self.status.available;
        self.status.measurement_ms = Some(measurement.latency_ms);
        self.status.logical_generation = snapshot_id;
        let told = match &measurement.result {
            Ok((luminance, samples)) => {
                let luminance: Real = *luminance;
                let samples: u32 = *samples;
                if samples > 0 && luminance.bits % 0x8000_0000_0000_0000 < 0x7ff0_0000_0000_0000 {
                    self.status.available = true;
                    self.status.stale = false;
                    self.status.reason = None;
                    self.status.capture_id = Some(measurement.capture_id);
                    self.status.sample_count = samples;
                    self.status.luminance = Some(luminance);
                    self.status.measured_at_unix_ms = Some(measurement.measured_at_unix_ms);
                } else {
                    self.status.available = false;
                    self.status.stale = true;
                    self.status.reason = Some(
                        "Zero samples: retaining the last valid target".to_owned(),
                    );
                }
                Told::Measured { luminance, samples, capture_id: measurement.capture_id }
            },
            Err(error) => {
                let mut reason = "Source measurement unavailable: ".to_owned();
                reason.append(error.as_str());
                self.status.available = false;
                self.status.stale = false;
                self.status.reason = Some(reason);
                Told::Unavailable
            },
        };
        (told, !self.status.available || !was_available)
    }

    /// Decides when to look again, after a measurement.
    pub fn schedule(&mut self, moves: bool, was_reported: bool, tick_at: u64)
        ensures
            *final(self) == (LiftRuntime {
                next_tick: tick_after(
                    old(self).next_tick,
                    moves,
                    was_reported,
                    old(self).next_report,
                    tick_at,
                ),
                ..*old(self)
            }),
    {
        self.next_tick = if moves {
            match self.next_tick {
                Some(at) => Some(
                    if at < tick_at {
                        at
                    } else {
                        tick_at
                    },
                ),
                None => Some(tick_at),
            }
        } else if was_reported {
            None
        } else {
            Some(self.next_report)
        };
    }

    /// Whether it is time to look again.
    pub fn tick_due(&self, now: u64) -> (due: bool)
        ensures
            due == (self.next_tick matches Some(at) && now >= at),
    {
        match self.next_tick {
            Some(at) => now >= at,
            None => false,
        }
    }

    /// The level was moved on. `snapshot_id` is that of the frame that shows it:
    /// a level that changed makes a new one, without a new capture.
    pub fn ticked(&mut self, moves: bool, tick_at: u64, snapshot_id: u64)
        ensures
            final(self).next_tick == if moves {
                Some(tick_at)
            } else {
                None
            },
            final(self).status@ == (LiftStatusView {
                logical_generation: snapshot_id,
                ..old(self).status@
            }),
            final(self).config == old(self).config,
            final(self).maximum == old(self).maximum,
            final(self).canvas_size == old(self).canvas_size,
            final(self).session == old(self).session,
            final(self).generation == old(self).generation,
            final(self).next_report == old(self).next_report,
    {
        self.next_tick = if moves {
            Some(tick_at)
        } else {
            None
        };
        self.status.logical_generation = snapshot_id;
    }
}

/// Measurements that keep coming do not put off the next tick of a level that
/// moves.
pub proof fn measurements_do_not_postpone_a_tick(
    scheduled: u64,
    was_reported: bool,
    next_report: u64,
    tick_at: u64,
)
    ensures
        tick_after(Some(scheduled), true, was_reported, next_report, tick_at)->0 <= scheduled,
{
}

/// Whatever a measurement changed is reported at once, or there is a time at
/// which it is looked at again.
pub proof fn no_measurement_stays_unreported(
    scheduled: Option<u64>,
    moves: bool,
    next_report: u64,
    tick_at: u64,
)
    ensures
        tick_after(scheduled, moves, false, next_report, tick_at) is Some,
{
}

} // verus!

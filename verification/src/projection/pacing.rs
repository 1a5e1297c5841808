//! The frame loop: when a frame was captured, when it may be shown, and what is
//! counted on the way.
//!
//! Times are nanoseconds on one monotonic clock.
use crate::projection::gate::{
    dead_after, is_dead, is_given_up, signal_for, stalled_among, DeadIntervalTracker,
    STALL_TIMEOUT,
};
use crate::projection::timing::{fresh_timing, IntervalTiming, OutputAccum, Timing, TimingView};
use crate::projection::wall::{entries_of, may_present, refreshed, Backend, PresenterView, Wall};
use vstd::prelude::*;

verus! {

/// Failed captures in a row after which the run is given up.
pub const MAX_FAILURES: u32 = 3;

/// Images that captures alternate between.
pub const GPU_CAPTURE_SLOTS: usize = 2;

/// How long figures are collected before they are reported.
pub const REPORT_INTERVAL: u64 = 10_000_000_000;

/// How often a canvas that does not say is taken to show a frame: in thousandths
/// of a hertz.
pub const DEFAULT_RATE: u32 = 60_000;

/// A rate of one thousandth of a hertz is a frame every so many nanoseconds.
pub const NANOSECONDS_AT_ONE: u64 = 1_000_000_000_000;

/// How many canvas periods lay between captures.
#[derive(Debug, Clone, Copy, PartialEq, Eq, Structural)]
pub struct CaptureIntervals {
    pub one: u32,
    pub two: u32,
    pub three: u32,
    pub more: u32,
}

/// Nothing counted yet.
pub open spec fn no_intervals() -> CaptureIntervals {
    CaptureIntervals { one: 0, two: 0, three: 0, more: 0 }
}

/// The time is at most `halves` halves of the time between two frames at a rate.
pub open spec fn within_halves(elapsed: int, rate_mhz: u32, halves: int) -> bool {
    2 * (elapsed * rate_mhz) <= halves * NANOSECONDS_AT_ONE
}

/// The counts with one interval added, to the nearest whole number of periods
/// (halves downwards).
pub open spec fn with_interval(
    counts: CaptureIntervals,
    elapsed: int,
    rate_mhz: u32,
) -> CaptureIntervals {
    if within_halves(elapsed, rate_mhz, 3) {
        CaptureIntervals { one: (counts.one + 1) as u32, ..counts }
    } else if within_halves(elapsed, rate_mhz, 5) {
        CaptureIntervals { two: (counts.two + 1) as u32, ..counts }
    } else if within_halves(elapsed, rate_mhz, 7) {
        CaptureIntervals { three: (counts.three + 1) as u32, ..counts }
    } else {
        CaptureIntervals { more: (counts.more + 1) as u32, ..counts }
    }
}

/// Where the time of a report interval went, and what was counted.
#[derive(Debug, Clone, Copy, PartialEq, Eq, Structural)]
pub struct FrameStats {
    pub since: u64,
    pub captured: u32,
    pub waiting: u64,
    pub snapshot: u64,
    pub requesting: u64,
    pub blending: u64,
    /// Times at which a frame went out to at least one output.
    pub presented: u32,
    /// Frames that a newer one replaced before any output took them.
    pub superseded: u32,
    pub stalls: u32,
    pub buffer_reuse: u32,
    /// Times at which the frame gate held a frame for longer than a canvas period.
    pub gate_holds: u32,
    pub gpu: u64,
    pub capture_intervals: CaptureIntervals,
}

/// Nothing counted since a time.
pub open spec fn fresh_stats(now: u64) -> FrameStats {
    FrameStats {
        since: now,
        captured: 0,
        waiting: 0,
        snapshot: 0,
        requesting: 0,
        blending: 0,
        presented: 0,
        superseded: 0,
        stalls: 0,
        buffer_reuse: 0,
        gate_holds: 0,
        gpu: 0,
        capture_intervals: no_intervals(),
    }
}

/// The time from one moment to a later one; none where it is not later.
pub open spec fn elapsed(since: u64, now: u64) -> int {
    if now >= since {
        now - since
    } else {
        0
    }
}

/// What the time of a cycle is spent on.
#[derive(Debug, Clone, Copy, PartialEq, Eq, Structural)]
pub enum Activity {
    Waiting,
    /// Copying a captured frame out.
    Snapshot,
    Requesting,
    Blending,
    /// Drawing, as the device measures it.
    Gpu,
}

impl FrameStats {
    /// The time that an activity has taken so far.
    pub open spec fn spent_on(self, activity: Activity) -> u64 {
        match activity {
            Activity::Waiting => self.waiting,
            Activity::Snapshot => self.snapshot,
            Activity::Requesting => self.requesting,
            Activity::Blending => self.blending,
            Activity::Gpu => self.gpu,
        }
    }

    /// The figures once an activity has taken so much longer.
    pub open spec fn spending(self, activity: Activity, time: u64) -> FrameStats {
        let total = (self.spent_on(activity) + time) as u64;
        match activity {
            Activity::Waiting => FrameStats { waiting: total, ..self },
            Activity::Snapshot => FrameStats { snapshot: total, ..self },
            Activity::Requesting => FrameStats { requesting: total, ..self },
            Activity::Blending => FrameStats { blending: total, ..self },
            Activity::Gpu => FrameStats { gpu: total, ..self },
        }
    }

    /// Nothing counted since now.
    pub fn new(now: u64) -> (stats: Self)
        ensures
            stats == fresh_stats(now),
    {
        FrameStats {
            since: now,
            captured: 0,
            waiting: 0,
            snapshot: 0,
            requesting: 0,
            blending: 0,
            presented: 0,
            superseded: 0,
            stalls: 0,
            buffer_reuse: 0,
            gate_holds: 0,
            gpu: 0,
            capture_intervals: CaptureIntervals { one: 0, two: 0, three: 0, more: 0 },
        }
    }

    /// A report is due: the interval is over, and something was captured.
    pub open spec fn is_due(self, now: u64) -> bool {
        elapsed(self.since, now) >= REPORT_INTERVAL && self.captured > 0
    }

    /// Whether a report is due.
    pub fn due(&self, now: u64) -> (due: bool)
        ensures
            due == self.is_due(now),
    {
        now.saturating_sub(self.since) >= REPORT_INTERVAL && self.captured > 0
    }
}

/// The rate of a canvas in thousandths of a hertz, from what the compositor says
/// of it. A canvas that reports none is taken to run at 60 Hz.
pub open spec fn rate_of(refresh_mhz: Option<i32>) -> u32 {
    match refresh_mhz {
        Some(mhz) => if mhz > 0 {
            mhz as u32
        } else {
            DEFAULT_RATE
        },
        None => DEFAULT_RATE,
    }
}

/// The rate of a canvas.
pub fn canvas_rate(refresh_mhz: Option<i32>) -> (rate_mhz: u32)
    ensures
        rate_mhz == rate_of(refresh_mhz),
        rate_mhz > 0,
{
    match refresh_mhz {
        Some(mhz) => {
            if mhz > 0 {
                mhz as u32
            } else {
                DEFAULT_RATE
            }
        },
        None => DEFAULT_RATE,
    }
}

/// The time between two frames at a rate, in nanoseconds.
pub open spec fn period_of(rate_mhz: u32) -> int {
    (NANOSECONDS_AT_ONE + rate_mhz / 2) / (rate_mhz as int)
}

/// The time between two frames at a rate, to the nearest nanosecond (halves
/// upwards).
pub fn canvas_period(rate_mhz: u32) -> (period: u64)
    requires
        rate_mhz > 0,
    ensures
        period == period_of(rate_mhz),
        period == (NANOSECONDS_AT_ONE + rate_mhz / 2) / (rate_mhz as int),
        period > 0,
{
    let rate: u64 = rate_mhz as u64;
    let period: u64 = (NANOSECONDS_AT_ONE + rate / 2) / rate;
    assert(period > 0) by (nonlinear_arith)
        requires
            period == (1_000_000_000_000 + rate / 2) / (rate as int),
            0 < rate <= 0xffff_ffff,
    ;
    period
}

/// A time multiplied by a rate, which is compared with [`NANOSECONDS_AT_ONE`].
fn times_rate(elapsed: u64, rate_mhz: u32) -> (product: u128)
    ensures
        product == elapsed * rate_mhz,
        product <= 0xffff_ffff_ffff_ffff * 0xffff_ffff,
{
    assert(elapsed * rate_mhz <= 0xffff_ffff_ffff_ffff * 0xffff_ffff) by (nonlinear_arith)
        requires
            0 <= elapsed <= 0xffff_ffff_ffff_ffff,
            0 <= rate_mhz <= 0xffff_ffff,
    ;
    assert(0 <= elapsed * rate_mhz) by (nonlinear_arith)
        requires
            0 <= elapsed,
            0 <= rate_mhz,
    ;
    elapsed as u128 * rate_mhz as u128
}

/// Which capture image is written next, and which are to be shown.
#[derive(Debug, Clone, Copy, PartialEq, Eq, Structural)]
pub struct CaptureSlots {
    /// The image that the next capture is written into.
    pub gpu_slot: usize,
    /// The newest complete capture, until it is drawn.
    pub pending_slot: Option<usize>,
    /// The capture that was drawn last.
    pub last_blended_slot: Option<usize>,
}

impl CaptureSlots {
    /// The image that is drawn from next.
    pub open spec fn source(self, has_static: bool) -> Option<usize> {
        match self.pending_slot {
            Some(slot) => Some(slot),
            None => match self.last_blended_slot {
                Some(slot) => Some(slot),
                None => if has_static {
                    Some(0)
                } else {
                    None
                },
            },
        }
    }

    /// The image that is written is another than the one drawn from next.
    pub open spec fn apart(self) -> bool {
        &&& self.gpu_slot < GPU_CAPTURE_SLOTS
        &&& self.source(false) is Some ==> self.source(false)->0 != self.gpu_slot
    }

    /// A capture is complete: it waits to be drawn, and the next one goes into
    /// the other image.
    pub open spec fn filled(self) -> CaptureSlots {
        CaptureSlots {
            gpu_slot: ((self.gpu_slot + 1) % (GPU_CAPTURE_SLOTS as int)) as usize,
            pending_slot: Some(self.gpu_slot),
            ..self
        }
    }

    /// Takes the image to draw from: the newest complete capture, or else the one
    /// that was drawn last. Where patterns are drawn (`has_static`), any will do.
    pub fn take_source(&mut self, has_static: bool) -> (slot: Option<usize>)
        ensures
            slot == old(self).source(has_static),
            *final(self) == (CaptureSlots { pending_slot: None, ..*old(self) }),
    {
        let pending = self.pending_slot;
        self.pending_slot = None;
        match pending {
            Some(slot) => Some(slot),
            None => match self.last_blended_slot {
                Some(slot) => Some(slot),
                None => if has_static {
                    Some(0)
                } else {
                    None
                },
            },
        }
    }

    /// An image was drawn from, whether or not the drawing went well.
    pub fn blended(&mut self, slot: usize)
        ensures
            *final(self) == (CaptureSlots { last_blended_slot: Some(slot), ..*old(self) }),
    {
        self.last_blended_slot = Some(slot);
    }

    /// Notes a complete capture.
    fn fill(&mut self)
        requires
            old(self).gpu_slot < GPU_CAPTURE_SLOTS,
        ensures
            *final(self) == old(self).filled(),
    {
        let filled: usize = self.gpu_slot;
        self.gpu_slot = (filled + 1) % GPU_CAPTURE_SLOTS;
        self.pending_slot = Some(filled);
    }
}

/// The compositor never writes into the image that is drawn from next: a
/// complete capture and a drawing of what was to be drawn both keep the two
/// apart.
pub proof fn capture_never_overwrites_what_is_drawn(slots: CaptureSlots)
    requires
        slots.apart(),
    ensures
        slots.filled().apart(),
        slots.source(false) is Some ==> (CaptureSlots {
            pending_slot: None,
            last_blended_slot: slots.source(false),
            ..slots
        }).apart(),
{
}

/// The running loop.
#[derive(Debug)]
pub struct Slicer {
    pub wall: Wall,
    pub timing: Timing,
    pub stats: FrameStats,
    pub capture: CaptureSlots,
    pub capture_id: u64,
    /// Failed captures in a row.
    pub failures: u32,
    /// How often the canvas shows a frame, in thousandths of a hertz.
    pub canvas_rate: u32,
    pub last_capture_at: Option<u64>,
}

/// Every presenter is owed the newest frame.
pub open spec fn all_stale(presenters: Seq<PresenterView>) -> bool {
    forall|i: int| 0 <= i < presenters.len() ==> (#[trigger] presenters[i]).stale
}

/// Some presenter is owed the newest frame.
pub open spec fn any_stale(presenters: Seq<PresenterView>) -> bool {
    exists|i: int| 0 <= i < presenters.len() && (#[trigger] presenters[i]).stale
}

/// What the loop does next.
#[derive(Debug, Clone, Copy, PartialEq, Eq, Structural)]
pub enum PresentStep {
    /// Show the newest frame.
    Present,
    /// A frame waits and may not be shown yet.
    Blocked,
    /// There is nothing to show.
    Idle,
}

/// What to do with the newest frame.
pub open spec fn step_of(wall: Wall, now: u64) -> PresentStep {
    if may_present(
        wall.views(),
        wall.free_run,
        signal_for(wall.presentation),
        wall.gpu_retry_after,
        now,
    ) {
        PresentStep::Present
    } else if any_stale(wall.views()) {
        PresentStep::Blocked
    } else {
        PresentStep::Idle
    }
}

/// Since when the frame gate has been holding a frame, after a look at it.
pub open spec fn blocked_after(wall: Wall, now: u64) -> Option<u64> {
    if step_of(wall, now) == PresentStep::Blocked && wall.gate_blocked_since is None {
        Some(now)
    } else {
        wall.gate_blocked_since
    }
}

/// The frame gate held a frame that goes out: without it, or after more than a canvas
/// period.
pub open spec fn is_hold(blocked: Option<u64>, forced: bool, now: u64, rate_mhz: u32) -> bool {
    blocked is Some && (forced || !within_halves(elapsed(blocked->0, now), rate_mhz, 2))
}

/// The counts after a new frame came in: one that nobody took before (`unseen`) counts as
/// replaced, and so many outputs (`dropped`) as stalled.
pub open spec fn stats_with_frame(
    stats: FrameStats,
    last: Option<u64>,
    rate_mhz: u32,
    now: u64,
    unseen: bool,
    dropped: int,
) -> FrameStats {
    FrameStats {
        captured: (stats.captured + 1) as u32,
        capture_intervals: match last {
            Some(previous) => with_interval(
                stats.capture_intervals,
                elapsed(previous, now),
                rate_mhz,
            ),
            None => stats.capture_intervals,
        },
        superseded: if unseen {
            (stats.superseded + 1) as u32
        } else {
            stats.superseded
        },
        stalls: (stats.stalls + dropped) as u32,
        ..stats
    }
}

/// What is counted of frames after the newest went out to an output, which answers only
/// where there is presentation feedback.
pub open spec fn asked_about(timing: TimingView, presentation: bool, index: int) -> TimingView {
    if presentation {
        timing.requested(timing.snapshot_id, index)
    } else {
        timing
    }
}

/// What a report interval came to.
#[derive(Debug, Clone)]
pub struct IntervalReport {
    pub elapsed: u64,
    pub stats: FrameStats,
    pub interval: IntervalTiming,
    pub presentation_feedback: bool,
    pub presented: u32,
    pub answers: u32,
    /// Nothing was shown for so long that the run ends.
    pub dead: bool,
}

/// How many frames the outputs showed.
pub open spec fn total_presented(outputs: Seq<OutputAccum>) -> nat
    decreases outputs.len(),
{
    if outputs.len() == 0 {
        0
    } else {
        total_presented(outputs.drop_last()) + outputs.last().presented as nat
    }
}

/// How many answers the outputs gave.
pub open spec fn total_answers(outputs: Seq<OutputAccum>) -> nat
    decreases outputs.len(),
{
    if outputs.len() == 0 {
        0
    } else {
        total_answers(outputs.drop_last()) + outputs.last().presented as nat
            + outputs.last().discarded as nat
    }
}

proof fn lemma_totals_grow(outputs: Seq<OutputAccum>, n: int)
    requires
        0 <= n <= outputs.len(),
    ensures
        total_answers(outputs.take(n)) <= total_answers(outputs),
        total_presented(outputs.take(n)) <= total_answers(outputs.take(n)),
    decreases outputs.len(), n,
{
    if n > 0 {
        assert(outputs.take(n).drop_last() =~= outputs.take(n - 1));
        lemma_totals_grow(outputs, n - 1);
    }
    if n < outputs.len() {
        let shorter = outputs.drop_last();
        lemma_totals_grow(shorter, n);
        assert(shorter.take(n) =~= outputs.take(n));
    } else {
        assert(outputs.take(n) =~= outputs);
    }
}

fn totals(outputs: &Vec<OutputAccum>) -> (totals: (u32, u32))
    requires
        total_answers(outputs@) <= u32::MAX,
    ensures
        totals.0 == total_presented(outputs@),
        totals.1 == total_answers(outputs@),
{
    let mut presented: u32 = 0;
    let mut answers: u32 = 0;
    let mut i: usize = 0;
    while i < outputs.len()
        invariant
            i <= outputs@.len(),
            total_answers(outputs@) <= u32::MAX,
            presented == total_presented(outputs@.take(i as int)),
            answers == total_answers(outputs@.take(i as int)),
        decreases outputs@.len() - i,
    {
        proof {
            assert(outputs@.take(i + 1).drop_last() =~= outputs@.take(i as int));
            lemma_totals_grow(outputs@, i + 1);
        }
        presented = presented + outputs[i].presented;
        answers = answers + outputs[i].presented + outputs[i].discarded;
        i = i + 1;
    }
    assert(outputs@.take(i as int) =~= outputs@);
    (presented, answers)
}

impl Slicer {
    /// The parts of the state are well-formed.
    pub open spec fn wf(self) -> bool {
        &&& self.wall.wf()
        &&& self.timing@.wf()
        &&& self.capture.gpu_slot < GPU_CAPTURE_SLOTS
    }

    /// A loop that has captured nothing yet, for a wall of outputs.
    pub fn new(wall: Wall, canvas_rate: u32, now: u64) -> (slicer: Self)
        ensures
            slicer.wall == wall,
            slicer.timing@.wf(),
            slicer.timing@ == fresh_timing(wall.views().len()),
            slicer.stats == fresh_stats(now),
            slicer.capture == (CaptureSlots {
                gpu_slot: 0,
                pending_slot: None,
                last_blended_slot: None,
            }),
            slicer.capture_id == 0,
            slicer.failures == 0,
            slicer.canvas_rate == canvas_rate,
            slicer.last_capture_at is None,
            wall.wf() ==> slicer.wf(),
    {
        let timing = Timing::new(wall.presenters.len());
        Slicer {
            wall,
            timing,
            stats: FrameStats::new(now),
            capture: CaptureSlots { gpu_slot: 0, pending_slot: None, last_blended_slot: None },
            capture_id: 0,
            failures: 0,
            canvas_rate,
            last_capture_at: None,
        }
    }

    /// A newer frame waits: every output is owed it, and those that stopped
    /// answering are dropped from the frame gate. Gives those, with how long each was
    /// waited for.
    pub fn new_snapshot(&mut self, now: u64) -> (stalled: Vec<(usize, u64)>)
        requires
            old(self).wf(),
            old(self).stats.superseded < u32::MAX,
            old(self).stats.stalls + old(self).wall.views().len() <= u32::MAX,
            old(self).timing.snapshot_id < u64::MAX,
        ensures
            final(self).wf(),
            final(self).wall.views() == refreshed(
                old(self).wall.views(),
                signal_for(old(self).wall.presentation),
                now,
            ),
            final(self).wall.same_but_presenters(old(self).wall),
            stalled@ == stalled_among(
                entries_of(
                    old(self).wall.views(),
                    signal_for(old(self).wall.presentation),
                    now,
                ),
                STALL_TIMEOUT,
                old(self).wall.views().len() as int,
            ),
            final(self).timing@ == (TimingView {
                snapshot_id: (old(self).timing.snapshot_id + 1) as u64,
                ..old(self).timing@
            }),
            final(self).stats == (FrameStats {
                superseded: if all_stale(old(self).wall.views()) {
                    (old(self).stats.superseded + 1) as u32
                } else {
                    old(self).stats.superseded
                },
                stalls: (old(self).stats.stalls + stalled@.len()) as u32,
                ..old(self).stats
            }),
            final(self).capture == old(self).capture,
            final(self).capture_id == old(self).capture_id,
            final(self).failures == old(self).failures,
            final(self).canvas_rate == old(self).canvas_rate,
            final(self).last_capture_at == old(self).last_capture_at,
    {
        let ghost views = self.wall.views();
        if self.nobody_took_it() {
            self.stats.superseded = self.stats.superseded + 1;
        }
        self.timing.snapshot_id = self.timing.snapshot_id + 1;
        let stalled = self.wall.refresh(now);
        proof {
            lemma_stalled_fit(
                entries_of(views, signal_for(old(self).wall.presentation), now),
                views.len() as int,
            );
        }
        self.stats.stalls = self.stats.stalls + stalled.len() as u32;
        stalled
    }

    fn nobody_took_it(&self) -> (all: bool)
        ensures
            all == all_stale(self.wall.views()),
    {
        let ghost views = self.wall.views();
        let mut i: usize = 0;
        while i < self.wall.presenters.len()
            invariant
                i <= self.wall.presenters@.len(),
                views == self.wall.views(),
                forall|j: int| 0 <= j < i ==> (#[trigger] views[j]).stale,
            decreases self.wall.presenters@.len() - i,
        {
            assert(views[i as int] == self.wall.presenters@[i as int]@);
            if !self.wall.presenters[i].stale {
                return false;
            }
            i = i + 1;
        }
        true
    }

    fn somebody_waits(&self) -> (any: bool)
        ensures
            any == any_stale(self.wall.views()),
    {
        let ghost views = self.wall.views();
        let mut i: usize = 0;
        while i < self.wall.presenters.len()
            invariant
                i <= self.wall.presenters@.len(),
                views == self.wall.views(),
                forall|j: int| 0 <= j < i ==> !(#[trigger] views[j]).stale,
            decreases self.wall.presenters@.len() - i,
        {
            assert(views[i as int] == self.wall.presenters@[i as int]@);
            if self.wall.presenters[i].stale {
                return true;
            }
            i = i + 1;
        }
        false
    }

    /// Notes that a frame would go out now but for the frame gate. Only the first such
    /// moment of a cycle counts.
    pub fn note_gate_blocked(&mut self, now: u64)
        ensures
            *final(self) == (Slicer {
                wall: Wall {
                    gate_blocked_since: match old(self).wall.gate_blocked_since {
                        Some(since) => Some(since),
                        None => Some(now),
                    },
                    ..old(self).wall
                },
                ..*old(self)
            }),
    {
        if self.wall.gate_blocked_since.is_none() {
            self.wall.gate_blocked_since = Some(now);
        }
    }

    /// Ends a cycle. Where the frame gate had been holding the frame, and for longer
    /// than a canvas period or until the frame was forced out, that counts.
    pub fn note_commit_cycle(&mut self, forced: bool, now: u64)
        requires
            old(self).stats.gate_holds < u32::MAX,
        ensures
            final(self).stats.gate_holds == old(self).stats.gate_holds + (if is_hold(
                old(self).wall.gate_blocked_since,
                forced,
                now,
                old(self).canvas_rate,
            ) {
                1int
            } else {
                0
            }),
            *final(self) == (Slicer {
                wall: Wall { gate_blocked_since: None, ..old(self).wall },
                stats: FrameStats {
                    gate_holds: if old(self).wall.gate_blocked_since is Some && (forced
                        || !within_halves(
                        elapsed(old(self).wall.gate_blocked_since->0, now),
                        old(self).canvas_rate,
                        2,
                    )) {
                        (old(self).stats.gate_holds + 1) as u32
                    } else {
                        old(self).stats.gate_holds
                    },
                    ..old(self).stats
                },
                ..*old(self)
            }),
    {
        if let Some(since) = self.wall.gate_blocked_since {
            self.wall.gate_blocked_since = None;
            let held: u128 = times_rate(now.saturating_sub(since), self.canvas_rate);
            if forced || held > NANOSECONDS_AT_ONE as u128 {
                self.stats.gate_holds = self.stats.gate_holds + 1;
            }
        }
    }

    /// Notes how long after the last capture this one came.
    pub fn record_capture_interval(&mut self, now: u64)
        requires
            old(self).stats.capture_intervals.one < u32::MAX,
            old(self).stats.capture_intervals.two < u32::MAX,
            old(self).stats.capture_intervals.three < u32::MAX,
            old(self).stats.capture_intervals.more < u32::MAX,
        ensures
            *final(self) == (Slicer {
                stats: FrameStats {
                    capture_intervals: match old(self).last_capture_at {
                        Some(previous) => with_interval(
                            old(self).stats.capture_intervals,
                            elapsed(previous, now),
                            old(self).canvas_rate,
                        ),
                        None => old(self).stats.capture_intervals,
                    },
                    ..old(self).stats
                },
                last_capture_at: Some(now),
                ..*old(self)
            }),
    {
        if let Some(previous) = self.last_capture_at {
            let twice: u128 = 2 * times_rate(now.saturating_sub(previous), self.canvas_rate);
            let period: u128 = NANOSECONDS_AT_ONE as u128;
            let mut counts = self.stats.capture_intervals;
            if twice <= 3 * period {
                counts.one = counts.one + 1;
            } else if twice <= 5 * period {
                counts.two = counts.two + 1;
            } else if twice <= 7 * period {
                counts.three = counts.three + 1;
            } else {
                counts.more = counts.more + 1;
            }
            self.stats.capture_intervals = counts;
        }
        self.last_capture_at = Some(now);
    }

    /// A capture failed. Says whether the run is to be given up.
    pub fn capture_failed(&mut self) -> (give_up: bool)
        requires
            old(self).failures < u32::MAX,
        ensures
            *final(self) == (Slicer { failures: (old(self).failures + 1) as u32, ..*old(self) }),
            give_up == (final(self).failures >= MAX_FAILURES),
    {
        self.failures = self.failures + 1;
        self.failures >= MAX_FAILURES
    }

    /// Nothing failed this time round.
    pub fn pass_succeeded(&mut self)
        ensures
            *final(self) == (Slicer { failures: 0, ..*old(self) }),
    {
        self.failures = 0;
    }

    /// A cycle begins: a new frame is there, captured or drawn here, and every
    /// output is owed it. Gives the outputs that are dropped from the frame gate.
    pub fn begin_cycle(&mut self, now: u64) -> (stalled: Vec<(usize, u64)>)
        requires
            old(self).wf(),
            old(self).stats.captured < u32::MAX,
            old(self).stats.capture_intervals.one < u32::MAX,
            old(self).stats.capture_intervals.two < u32::MAX,
            old(self).stats.capture_intervals.three < u32::MAX,
            old(self).stats.capture_intervals.more < u32::MAX,
            old(self).stats.superseded < u32::MAX,
            old(self).stats.stalls + old(self).wall.views().len() <= u32::MAX,
            old(self).timing.snapshot_id < u64::MAX,
        ensures
            final(self).stats == stats_with_frame(
                old(self).stats,
                old(self).last_capture_at,
                old(self).canvas_rate,
                now,
                all_stale(old(self).wall.views()),
                stalled@.len() as int,
            ),
            final(self).wf(),
            final(self).capture_id == old(self).capture_id,
            final(self).stats.captured == old(self).stats.captured + 1,
            final(self).timing.snapshot_id == old(self).timing.snapshot_id + 1,
            final(self).last_capture_at == Some(now),
            final(self).failures == old(self).failures,
            final(self).canvas_rate == old(self).canvas_rate,
            final(self).timing@ == (TimingView {
                snapshot_id: (old(self).timing.snapshot_id + 1) as u64,
                ..old(self).timing@
            }),
            final(self).wall.views() == refreshed(
                old(self).wall.views(),
                signal_for(old(self).wall.presentation),
                now,
            ),
            final(self).wall.same_but_presenters(old(self).wall),
            final(self).capture == old(self).capture,
            stalled@ == stalled_among(
                entries_of(
                    old(self).wall.views(),
                    signal_for(old(self).wall.presentation),
                    now,
                ),
                STALL_TIMEOUT,
                old(self).wall.views().len() as int,
            ),
            final(self).stats == (FrameStats {
                captured: (old(self).stats.captured + 1) as u32,
                capture_intervals: match old(self).last_capture_at {
                    Some(previous) => with_interval(
                        old(self).stats.capture_intervals,
                        elapsed(previous, now),
                        old(self).canvas_rate,
                    ),
                    None => old(self).stats.capture_intervals,
                },
                superseded: if all_stale(old(self).wall.views()) {
                    (old(self).stats.superseded + 1) as u32
                } else {
                    old(self).stats.superseded
                },
                stalls: (old(self).stats.stalls + stalled@.len()) as u32,
                ..old(self).stats
            }),
    {
        self.record_capture_interval(now);
        self.stats.captured = self.stats.captured + 1;
        self.new_snapshot(now)
    }

    /// A capture is complete. Gives the outputs that are dropped from the frame gate.
    pub fn capture_ready(&mut self, backend: Option<Backend>, now: u64) -> (stalled: Vec<(usize, u64)>)
        requires
            old(self).wf(),
            old(self).stats.captured < u32::MAX,
            old(self).capture_id < u64::MAX,
            old(self).stats.capture_intervals.one < u32::MAX,
            old(self).stats.capture_intervals.two < u32::MAX,
            old(self).stats.capture_intervals.three < u32::MAX,
            old(self).stats.capture_intervals.more < u32::MAX,
            old(self).stats.superseded < u32::MAX,
            old(self).stats.stalls + old(self).wall.views().len() <= u32::MAX,
            old(self).timing.snapshot_id < u64::MAX,
        ensures
            final(self).stats == stats_with_frame(
                old(self).stats,
                old(self).last_capture_at,
                old(self).canvas_rate,
                now,
                all_stale(old(self).wall.views()),
                stalled@.len() as int,
            ),
            final(self).wf(),
            final(self).capture_id == old(self).capture_id + 1,
            final(self).stats.captured == old(self).stats.captured + 1,
            final(self).timing.snapshot_id == old(self).timing.snapshot_id + 1,
            final(self).last_capture_at == Some(now),
            final(self).failures == old(self).failures,
            final(self).canvas_rate == old(self).canvas_rate,
            final(self).timing@ == (TimingView {
                snapshot_id: (old(self).timing.snapshot_id + 1) as u64,
                ..old(self).timing@
            }),
            final(self).wall.views() == refreshed(
                old(self).wall.views(),
                signal_for(old(self).wall.presentation),
                now,
            ),
            final(self).wall.same_but_presenters(old(self).wall),
            final(self).capture == (if backend == Some(Backend::Gpu) {
                old(self).capture.filled()
            } else {
                old(self).capture
            }),
            stalled@ == stalled_among(
                entries_of(
                    old(self).wall.views(),
                    signal_for(old(self).wall.presentation),
                    now,
                ),
                STALL_TIMEOUT,
                old(self).wall.views().len() as int,
            ),
            final(self).stats == (FrameStats {
                captured: (old(self).stats.captured + 1) as u32,
                capture_intervals: match old(self).last_capture_at {
                    Some(previous) => with_interval(
                        old(self).stats.capture_intervals,
                        elapsed(previous, now),
                        old(self).canvas_rate,
                    ),
                    None => old(self).stats.capture_intervals,
                },
                superseded: if all_stale(old(self).wall.views()) {
                    (old(self).stats.superseded + 1) as u32
                } else {
                    old(self).stats.superseded
                },
                stalls: (old(self).stats.stalls + stalled@.len()) as u32,
                ..old(self).stats
            }),
    {
        self.capture_id = self.capture_id + 1;
        let stalled = self.begin_cycle(now);
        if let Some(Backend::Gpu) = backend {
            self.capture.fill();
        }
        stalled
    }

    /// What the loop does next. A frame that may not be shown yet is noted as
    /// held.
    pub fn present_step(&mut self, now: u64) -> (step: PresentStep)
        requires
            old(self).wf(),
        ensures
            final(self).wf(),
            step == step_of(old(self).wall, now),
            final(self).wall.gate_blocked_since == blocked_after(old(self).wall, now),
            ({
                let may = may_present(
                    old(self).wall.views(),
                    old(self).wall.free_run,
                    signal_for(old(self).wall.presentation),
                    old(self).wall.gpu_retry_after,
                    now,
                );
                let waits = any_stale(old(self).wall.views());
                &&& step == (if may {
                    PresentStep::Present
                } else if waits {
                    PresentStep::Blocked
                } else {
                    PresentStep::Idle
                })
                &&& *final(self) == (Slicer {
                    wall: Wall {
                        gate_blocked_since: if !may && waits
                            && old(self).wall.gate_blocked_since is None {
                            Some(now)
                        } else {
                            old(self).wall.gate_blocked_since
                        },
                        ..old(self).wall
                    },
                    ..*old(self)
                })
            }),
    {
        if self.wall.can_present(now) {
            PresentStep::Present
        } else if self.somebody_waits() {
            self.note_gate_blocked(now);
            PresentStep::Blocked
        } else {
            PresentStep::Idle
        }
    }

    /// A frame went out to an output: it is asked to answer, and counted as
    /// waited for.
    pub fn committed(&mut self, index: usize, now: u64)
        requires
            old(self).wf(),
            old(self).timing@.has_room(),
            index < old(self).wall.views().len(),
        ensures
            final(self).wf(),
            final(self).timing@ == asked_about(
                old(self).timing@,
                old(self).wall.presentation,
                index as int,
            ),
            final(self).timing@ == (if old(self).wall.presentation {
                old(self).timing@.requested(old(self).timing.snapshot_id, index as int)
            } else {
                old(self).timing@
            }),
            final(self).wall.views() == old(self).wall.views().update(
                index as int,
                old(self).wall.views()[index as int].sent(
                    old(self).timing.snapshot_id,
                    old(self).wall.presentation,
                    now,
                ),
            ),
            final(self).wall.same_but_presenters(old(self).wall),
            final(self).stats == old(self).stats,
            final(self).capture == old(self).capture,
            final(self).capture_id == old(self).capture_id,
            final(self).failures == old(self).failures,
            final(self).canvas_rate == old(self).canvas_rate,
            final(self).last_capture_at == old(self).last_capture_at,
    {
        let snapshot_id: u64 = self.timing.snapshot_id;
        if self.wall.presentation {
            self.timing.request(snapshot_id, index);
        }
        self.wall.commit_sent(index, snapshot_id, now);
    }

    /// Frames went out to so many outputs in this cycle. One that reached none is
    /// not counted.
    pub fn cycle_ended(&mut self, outputs: usize)
        requires
            old(self).stats.presented < u32::MAX,
        ensures
            *final(self) == (Slicer {
                stats: FrameStats {
                    presented: if outputs > 0 {
                        (old(self).stats.presented + 1) as u32
                    } else {
                        old(self).stats.presented
                    },
                    ..old(self).stats
                },
                ..*old(self)
            }),
    {
        if outputs > 0 {
            self.stats.presented = self.stats.presented + 1;
        }
    }

    /// Time was spent on something.
    pub fn spend(&mut self, activity: Activity, time: u64)
        requires
            old(self).stats.spent_on(activity) + time <= u64::MAX,
        ensures
            *final(self) == (Slicer { stats: old(self).stats.spending(activity, time), ..*old(self) }),
    {
        match activity {
            Activity::Waiting => self.stats.waiting = self.stats.waiting + time,
            Activity::Snapshot => self.stats.snapshot = self.stats.snapshot + time,
            Activity::Requesting => self.stats.requesting = self.stats.requesting + time,
            Activity::Blending => self.stats.blending = self.stats.blending + time,
            Activity::Gpu => self.stats.gpu = self.stats.gpu + time,
        }
    }

    /// A drawing of the canvas went well and took the device so long: the next one
    /// need not wait.
    pub fn blend_succeeded(&mut self, time: u64)
        requires
            old(self).stats.gpu + time <= u64::MAX,
        ensures
            *final(self) == (Slicer {
                wall: Wall { gpu_retry_after: None, ..old(self).wall },
                stats: old(self).stats.spending(Activity::Gpu, time),
                ..*old(self)
            }),
    {
        self.wall.gpu_retry_after = None;
        self.spend(Activity::Gpu, time);
    }

    /// Takes a report out where one is due, and begins the next interval. A wall
    /// on which nothing was shown for too long is given up on.
    pub fn report_stats_if_due(&mut self, now: u64) -> (report: Option<IntervalReport>)
        requires
            old(self).wf(),
            total_answers(old(self).timing@.per_output) <= u32::MAX,
            old(self).wall.dead_intervals.consecutive < u32::MAX,
        ensures
            report matches Some(report) ==> {
                let run = dead_after(
                    old(self).wall.dead_intervals.consecutive as int,
                    is_dead(report.presentation_feedback, report.answers, report.presented),
                );
                &&& final(self).wall.dead_intervals.consecutive == run
                &&& report.dead == is_given_up(run)
            },
            final(self).wf(),
            report is Some <==> old(self).stats.is_due(now),
            report is None ==> *final(self) == *old(self),
            report matches Some(report) ==> {
                let outputs = old(self).timing@.per_output;
                let run = if is_dead(report.presentation_feedback, report.answers, report.presented) {
                    old(self).wall.dead_intervals.consecutive + 1
                } else {
                    0
                };
                &&& report.elapsed == elapsed(old(self).stats.since, now)
                &&& report.stats == old(self).stats
                &&& report.interval.outputs@ == outputs
                &&& report.interval.offsets_ns@ == old(self).timing@.offsets_ns
                &&& report.interval.straddles == old(self).timing@.straddles
                &&& report.interval.phase@.map_values(|samples: Vec<(i64, u32)>| samples@)
                    == old(self).timing@.phase
                &&& report.presentation_feedback == old(self).wall.presentation
                &&& report.presented == total_presented(outputs)
                &&& report.answers == total_answers(outputs)
                &&& report.dead
                    == (run >= crate::projection::gate::CONSECUTIVE_DEAD_INTERVALS_FOR_SELF_HEAL)
                &&& final(self).wall == (Wall {
                    dead_intervals: DeadIntervalTracker { consecutive: run as u32 },
                    closed: old(self).wall.closed || report.dead,
                    ..old(self).wall
                })
                &&& final(self).timing@ == old(self).timing@.drained()
                &&& final(self).stats == fresh_stats(now)
                &&& final(self).capture == old(self).capture
                &&& final(self).capture_id == old(self).capture_id
                &&& final(self).failures == old(self).failures
                &&& final(self).canvas_rate == old(self).canvas_rate
                &&& final(self).last_capture_at == old(self).last_capture_at
            },
    {
        if !self.stats.due(now) {
            return None;
        }
        let elapsed: u64 = now.saturating_sub(self.stats.since);
        let interval = self.timing.drain_interval();
        let presentation_feedback = self.wall.presentation;
        let (presented, answers) = totals(&interval.outputs);
        let mut tracker = self.wall.dead_intervals;
        let dead = tracker.record(presentation_feedback, answers, presented);
        self.wall.dead_intervals = tracker;
        if dead {
            self.wall.closed = true;
        }
        let stats = self.stats;
        self.stats = FrameStats::new(now);
        assert(self.wall.views() == old(self).wall.views());
        Some(
            IntervalReport {
                elapsed,
                stats,
                interval,
                presentation_feedback,
                presented,
                answers,
                dead,
            },
        )
    }
}

/// A report is of its own interval alone: once it was handed out, no output has
/// shown or answered anything, so what an earlier interval held can neither be
/// reported again nor keep a wall going on which nothing is shown any more.
pub proof fn interval_begins_empty(timing: TimingView)
    ensures
        total_presented(timing.drained().per_output) == 0,
        total_answers(timing.drained().per_output) == 0,
        timing.drained().straddles == 0,
        timing.drained().offsets_ns.len() == 0,
        timing.drained().pending == timing.pending,
    decreases timing.per_output.len(),
{
    if timing.per_output.len() > 0 {
        let shorter = TimingView { per_output: timing.per_output.drop_last(), ..timing };
        interval_begins_empty(shorter);
        assert(timing.drained().per_output.drop_last() =~= shorter.drained().per_output);
    }
}

proof fn lemma_stalled_fit(entries: Seq<crate::projection::gate::GateEntry>, n: int)
    requires
        0 <= n,
    ensures
        stalled_among(entries, STALL_TIMEOUT, n).len() <= n,
    decreases n,
{
    if n > 0 {
        lemma_stalled_fit(entries, n - 1);
    }
}

/// When the next counter frame goes out: not before `floor`, and at `force` even
/// where the frame gate is shut.
#[derive(Debug, Clone, Copy, PartialEq, Eq, Structural)]
pub struct SyncPacer {
    pub floor: u64,
    pub force: u64,
}

/// What a look at the clock and the frame gate leads to.
#[derive(Debug, Clone, Copy, PartialEq, Eq, Structural)]
pub struct SyncTick {
    /// A frame would go out but for the frame gate.
    pub blocked: bool,
    /// The frame gate never opened, and the frame goes out without it.
    pub forced: bool,
    /// The frame goes out.
    pub commit: bool,
}

impl SyncPacer {
    /// Once a frame went out, the next one is a period away, and a period and a
    /// half away where the frame gate stays shut.
    pub open spec fn after(now: int, period: int) -> SyncPacer {
        SyncPacer { floor: (now + period) as u64, force: (now + period + period / 2) as u64 }
    }

    /// Until when to wait.
    pub open spec fn deadline_at(self, open: bool) -> u64 {
        if open {
            self.floor
        } else {
            self.force
        }
    }

    /// What the clock and the frame gate say.
    pub open spec fn ticks(self, now: u64, open: bool) -> SyncTick {
        let forced = now >= self.force && !open;
        SyncTick {
            blocked: now >= self.floor && !open,
            forced,
            commit: now >= self.floor && (open || forced),
        }
    }

    /// The first frame goes out at once.
    pub fn new(now: u64) -> (pacer: Self)
        ensures
            pacer == (SyncPacer { floor: now, force: now }),
    {
        SyncPacer { floor: now, force: now }
    }

    /// Until when to wait: for the canvas rate where the frame gate is open, for the
    /// gate otherwise.
    pub fn deadline(&self, open: bool) -> (deadline: u64)
        ensures
            deadline == self.deadline_at(open),
            deadline == (if open {
                self.floor
            } else {
                self.force
            }),
    {
        if open {
            self.floor
        } else {
            self.force
        }
    }

    /// What the clock and the frame gate say.
    pub fn tick(&self, now: u64, open: bool) -> (tick: SyncTick)
        ensures
            tick == self.ticks(now, open),
    {
        let forced = now >= self.force && !open;
        SyncTick {
            blocked: now >= self.floor && !open,
            forced,
            commit: now >= self.floor && (open || forced),
        }
    }

    /// A frame went out.
    pub fn committed(&mut self, now: u64, period: u64)
        requires
            now + period + period / 2 <= u64::MAX,
        ensures
            *final(self) == SyncPacer::after(now as int, period as int),
    {
        self.floor = now + period;
        self.force = now + period + period / 2;
    }
}

/// The counter neither outruns the canvas nor stops with the frame gate: no frame goes
/// out sooner than a period after the last, and one goes out at the latest a
/// period and a half after it.
pub proof fn counter_keeps_its_pace(last: u64, period: u64, now: u64, open: bool)
    requires
        last + period + period / 2 <= u64::MAX,
    ensures
        ({
            let commit = SyncPacer::after(last as int, period as int).ticks(now, open).commit;
            &&& commit ==> now >= last + period
            &&& now >= last + period + period / 2 ==> commit
            &&& open && now >= last + period ==> commit
        }),
{
}

/// How long to wait for events, in milliseconds: until the earliest of the
/// deadline, a retry that is still to come, and the next tick.
pub open spec fn wait_until(deadline: u64, retry: Option<u64>, tick: Option<u64>, now: u64) -> u64 {
    let first = if retry is Some && retry->0 > now && retry->0 < deadline {
        retry->0
    } else {
        deadline
    };
    if tick is Some && tick->0 < first {
        tick->0
    } else {
        first
    }
}

/// How many whole milliseconds lie between two times, as far as they can be told.
pub open spec fn millis_until(until: u64, now: u64) -> int {
    let whole = elapsed(now, until) / 1_000_000;
    if whole > i32::MAX {
        i32::MAX as int
    } else {
        whole
    }
}

/// How long to wait for events, in whole milliseconds.
pub fn poll_timeout(deadline: u64, retry: Option<u64>, tick: Option<u64>, now: u64) -> (millis: i32)
    ensures
        millis == millis_until(wait_until(deadline, retry, tick, now), now),
        ({
            let whole = elapsed(now, wait_until(deadline, retry, tick, now)) / 1_000_000;
            millis == (if whole > i32::MAX {
                i32::MAX as int
            } else {
                whole
            })
        }),
{
    let mut until: u64 = deadline;
    if let Some(retry) = retry {
        if retry > now && retry < until {
            until = retry;
        }
    }
    if let Some(tick) = tick {
        if tick < until {
            until = tick;
        }
    }
    let millis: u64 = until.saturating_sub(now) / 1_000_000;
    if millis > 0x7fff_ffff {
        i32::MAX
    } else {
        millis as i32
    }
}

/// A time in nanoseconds, from the upper and the lower half of its seconds and its
/// nanoseconds.
pub open spec fn time_of(tv_sec_hi: u32, tv_sec_lo: u32, tv_nsec: u32) -> int {
    (tv_sec_hi * 0x1_0000_0000 + tv_sec_lo) * 1_000_000_000 + tv_nsec
}

/// A presentation time in nanoseconds, from the seconds and nanoseconds that the
/// compositor gives it in. None where it does not fit.
pub fn presentation_time(tv_sec_hi: u32, tv_sec_lo: u32, tv_nsec: u32) -> (at_ns: Option<u64>)
    ensures
        at_ns is Some <==> time_of(tv_sec_hi, tv_sec_lo, tv_nsec) <= u64::MAX,
        at_ns matches Some(at_ns) ==> at_ns == time_of(tv_sec_hi, tv_sec_lo, tv_nsec),
        ({
            let exact = (tv_sec_hi * 0x1_0000_0000 + tv_sec_lo) * 1_000_000_000 + tv_nsec;
            match at_ns {
                Some(at_ns) => at_ns == exact,
                None => exact > u64::MAX,
            }
        }),
{
    let seconds: u128 = tv_sec_hi as u128 * 0x1_0000_0000 + tv_sec_lo as u128;
    let exact: u128 = seconds * 1_000_000_000 + tv_nsec as u128;
    if exact <= 0xffff_ffff_ffff_ffff {
        Some(exact as u64)
    } else {
        None
    }
}

} // verus!

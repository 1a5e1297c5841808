//! What holds of the pace at which frames are taken, drawn and reported.
use crate::projection::gate::signal_for;
use crate::projection::pacing::{
    all_stale, any_stale, asked_about, blocked_after, elapsed, fresh_stats, is_hold, millis_until,
    period_of, rate_of, stats_with_frame, step_of, time_of, total_answers, total_presented,
    wait_until, with_interval, within_halves, Activity, CaptureIntervals, CaptureSlots, FrameStats,
    PresentStep, SyncPacer, MAX_FAILURES,
};
use crate::projection::timing::{OutputAccum, Slot, TimingView};
use crate::projection::timing_laws::{
    asking_again_waits_for_one_more, asking_makes_a_frame_outstanding, is_outstanding,
};
use crate::projection::wall::{may_present, PresenterView, Wall};
use vstd::prelude::*;

verus! {

/// The time between two captures is counted by the nearest whole number of canvas
/// periods, where four and more are counted together: with a rate of `r` thousandths of
/// a hertz, a period is 10^12 / r nanoseconds.
pub proof fn capture_intervals_count_periods(counts: CaptureIntervals, time: int, rate_mhz: u32)
    requires
        0 <= time,
        counts.one < u32::MAX,
        counts.two < u32::MAX,
        counts.three < u32::MAX,
        counts.more < u32::MAX,
    ensures
        ({
            let next = with_interval(counts, time, rate_mhz);
            let twice = 2 * (time * rate_mhz);
            &&& next.one == counts.one + (if twice <= 3_000_000_000_000 {
                1int
            } else {
                0
            })
            &&& next.two == counts.two + (if 3_000_000_000_000 < twice <= 5_000_000_000_000 {
                1int
            } else {
                0
            })
            &&& next.three == counts.three + (if 5_000_000_000_000 < twice <= 7_000_000_000_000 {
                1int
            } else {
                0
            })
            &&& next.more == counts.more + (if twice > 7_000_000_000_000 {
                1int
            } else {
                0
            })
        }),
{
}

/// A frame is held for longer than a canvas period exactly where the time times the
/// rate is more than 10^12.
pub proof fn holds_are_measured_in_periods(time: int, rate_mhz: u32)
    ensures
        within_halves(time, rate_mhz, 2) <==> time * rate_mhz <= 1_000_000_000_000,
{
}

/// Time that has passed is the difference, and never less than nothing.
pub proof fn time_passes_forwards(since: u64, now: u64)
    ensures
        elapsed(since, now) >= 0,
        since <= now ==> since + elapsed(since, now) == now,
        since > now ==> elapsed(since, now) == 0,
{
}

/// Time that is spent on something is added to what was spent on it, and to nothing
/// else.
pub proof fn time_is_spent_once(stats: FrameStats, activity: Activity, other: Activity, time: u64)
    requires
        stats.spent_on(activity) + time <= u64::MAX,
    ensures
        ({
            let next = stats.spending(activity, time);
            &&& next.spent_on(other) == stats.spent_on(other) + (if other == activity {
                time as int
            } else {
                0
            })
            &&& next == (FrameStats {
                waiting: next.waiting,
                snapshot: next.snapshot,
                requesting: next.requesting,
                blending: next.blending,
                gpu: next.gpu,
                ..stats
            })
        }),
        stats.spent_on(Activity::Waiting) == stats.waiting,
        stats.spent_on(Activity::Snapshot) == stats.snapshot,
        stats.spent_on(Activity::Requesting) == stats.requesting,
        stats.spent_on(Activity::Blending) == stats.blending,
        stats.spent_on(Activity::Gpu) == stats.gpu,
{
}

/// A report is due ten seconds after the last, once a frame was captured.
pub proof fn reports_are_due_every_ten_seconds(stats: FrameStats, now: u64)
    ensures
        stats.is_due(now) <==> stats.captured > 0 && now >= stats.since + 10_000_000_000,
        fresh_stats(now).since == now,
        fresh_stats(now).captured == 0 && fresh_stats(now).presented == 0 && fresh_stats(
            now,
        ).superseded == 0 && fresh_stats(now).stalls == 0 && fresh_stats(now).gate_holds == 0
            && fresh_stats(now).buffer_reuse == 0,
{
}

/// The canvas runs at the rate that is reported where that is above zero, and otherwise
/// at sixty hertz.
pub proof fn canvas_runs_at_the_reported_rate(refresh_mhz: Option<i32>)
    ensures
        refresh_mhz is Some && refresh_mhz->0 > 0 ==> rate_of(refresh_mhz) == refresh_mhz->0,
        refresh_mhz is None || refresh_mhz->0 <= 0 ==> rate_of(refresh_mhz) == 60_000,
{
}

/// What is drawn is the newest complete capture; where none is new, what was drawn last;
/// and a picture that does not move where nothing was ever drawn.
pub proof fn newest_capture_is_drawn(slots: CaptureSlots, has_static: bool)
    ensures
        slots.pending_slot is Some ==> slots.source(has_static) == slots.pending_slot,
        slots.pending_slot is None && slots.last_blended_slot is Some ==> slots.source(has_static)
            == slots.last_blended_slot,
        slots.pending_slot is None && slots.last_blended_slot is None ==> slots.source(has_static)
            == if has_static {
            Some(0usize)
        } else {
            None
        },
{
}

/// Of the two images that are captured into, the one that was filled is drawn next and
/// the other is filled next.
pub proof fn captures_take_turns(slots: CaptureSlots)
    requires
        slots.gpu_slot < 2,
    ensures
        slots.filled().pending_slot == Some(slots.gpu_slot),
        slots.filled().gpu_slot == 1 - slots.gpu_slot,
        slots.filled().last_blended_slot == slots.last_blended_slot,
        slots.filled().source(false) == Some(slots.gpu_slot),
        slots.filled().filled().gpu_slot == slots.gpu_slot,
{
}

/// Three failed captures in a row are enough to give up.
pub proof fn three_failures_are_enough()
    ensures
        MAX_FAILURES == 3,
{
}

/// A frame is replaced unseen where every output is owed it, and one waits where any is.
pub proof fn frames_wait_for_outputs(presenters: Seq<PresenterView>, i: int)
    requires
        0 <= i < presenters.len(),
    ensures
        all_stale(presenters) ==> presenters[i].stale,
        presenters[i].stale ==> any_stale(presenters),
        !any_stale(presenters) ==> !presenters[i].stale,
        !presenters[i].stale ==> !all_stale(presenters),
{
}

/// What was shown and what was answered is added up over the outputs, and what is
/// answered is what was shown and what was discarded.
pub proof fn totals_add_up(outputs: Seq<OutputAccum>, next: OutputAccum)
    ensures
        total_presented(outputs.push(next)) == total_presented(outputs) + next.presented,
        total_answers(outputs.push(next)) == total_answers(outputs) + next.presented
            + next.discarded,
        total_presented(Seq::empty()) == 0 && total_answers(Seq::empty()) == 0,
        total_presented(outputs) <= total_answers(outputs),
    decreases outputs.len(),
{
    assert(outputs.push(next).drop_last() =~= outputs);
    if outputs.len() > 0 {
        totals_add_up(outputs.drop_last(), next);
    }
}

/// The counter goes on one period after its last step where the frame gate is open, half
/// a period later without it, and never before; a step that only the frame gate holds is
/// told as blocked.
pub proof fn counter_steps_once_a_period(last: u64, period: u64, now: u64, open: bool)
    requires
        last + period + period / 2 <= u64::MAX,
    ensures
        ({
            let tick = SyncPacer::after(last as int, period as int).ticks(now, open);
            let due = now >= last + period;
            let overdue = now >= last + period + period / 2;
            &&& tick.commit <==> if open {
                due
            } else {
                overdue
            }
            &&& tick.forced <==> !open && overdue
            &&& tick.blocked <==> !open && due
        }),
{
}

/// What is waited for is the earliest of the deadline, the next step of the counter, and
/// the next attempt to draw where that lies ahead.
pub proof fn waiting_ends_at_the_earliest(
    deadline: u64,
    retry: Option<u64>,
    tick: Option<u64>,
    now: u64,
)
    ensures
        ({
            let until = wait_until(deadline, retry, tick, now);
            &&& until <= deadline
            &&& tick is Some ==> until <= tick->0
            &&& retry is Some && retry->0 > now ==> until <= retry->0
            &&& until == deadline || tick == Some(until) || (retry == Some(until) && until > now)
        }),
{
}

/// A canvas period is to the nearest nanosecond what comes round that often: the period
/// times the rate is within half a rate of 10^12.
pub proof fn periods_are_to_the_nanosecond(rate_mhz: u32)
    requires
        rate_mhz > 0,
    ensures
        2 * (period_of(rate_mhz) * rate_mhz) <= 2_000_000_000_000 + rate_mhz,
        2 * (period_of(rate_mhz) * rate_mhz) >= 2_000_000_000_000 - rate_mhz,
{
    let rate = rate_mhz as int;
    let sum = 1_000_000_000_000 + rate / 2;
    vstd::arithmetic::div_mod::lemma_fundamental_div_mod(sum, rate);
    vstd::arithmetic::div_mod::lemma_mod_bound(sum, rate);
    assert(period_of(rate_mhz) == sum / rate);
    assert(rate * (sum / rate) == (sum / rate) * rate) by (nonlinear_arith);
}

/// Waiting is told in whole milliseconds, rounded down, never below zero and never above
/// what can be told.
pub proof fn waiting_is_told_in_milliseconds(until: u64, now: u64)
    ensures
        0 <= millis_until(until, now) <= 2_147_483_647,
        until <= now ==> millis_until(until, now) == 0,
        now <= until ==> now + millis_until(until, now) * 1_000_000 <= until,
        now <= until && millis_until(until, now) < 2_147_483_647 ==> until < now + (millis_until(
            until,
            now,
        ) + 1) * 1_000_000,
{
}

/// A time is its nanoseconds, a thousand million for each second of its lower half, and
/// for each of its upper half 2^32 seconds.
pub proof fn times_are_in_nanoseconds(hi: u32, lo: u32, ns: u32)
    ensures
        time_of(0, 0, ns) == ns,
        time_of(0, lo, ns) == lo * 1_000_000_000 + ns,
        time_of(hi, lo, ns) - time_of(0, lo, ns) == hi * 4_294_967_296_000_000_000,
{
}

/// A frame is shown where that may be; else it waits where some output is owed one, since
/// it first did; else there is nothing to do.
pub proof fn frames_are_shown_or_wait(wall: Wall, now: u64)
    ensures
        step_of(wall, now) == PresentStep::Present <==> may_present(
            wall.views(),
            wall.free_run,
            signal_for(wall.presentation),
            wall.gpu_retry_after,
            now,
        ),
        step_of(wall, now) == PresentStep::Idle ==> forall|i: int|
            0 <= i < wall.views().len() ==> !(#[trigger] wall.views()[i]).stale,
        step_of(wall, now) == PresentStep::Blocked ==> exists|i: int|
            0 <= i < wall.views().len() && (#[trigger] wall.views()[i]).stale,
        wall.gate_blocked_since is Some ==> blocked_after(wall, now) == wall.gate_blocked_since,
        wall.gate_blocked_since is None ==> blocked_after(wall, now) == if step_of(wall, now)
            == PresentStep::Blocked {
            Some(now)
        } else {
            None
        },
{
}

/// A frame that goes out was held where it had waited, and went out without the frame
/// gate or after more than a canvas period.
pub proof fn holds_are_counted(since: u64, forced: bool, now: u64, rate_mhz: u32)
    requires
        since <= now,
    ensures
        !is_hold(None, forced, now, rate_mhz),
        is_hold(Some(since), true, now, rate_mhz),
        is_hold(Some(since), false, now, rate_mhz) <==> (now - since) * rate_mhz
            > 1_000_000_000_000,
{
}

/// A new frame is counted once, at its distance from the last; one that nobody took as
/// replaced; and each output that is dropped as stalled.
pub proof fn new_frames_are_counted(
    stats: FrameStats,
    last: Option<u64>,
    rate_mhz: u32,
    now: u64,
    unseen: bool,
    dropped: int,
)
    requires
        stats.captured < u32::MAX,
        stats.superseded < u32::MAX,
        0 <= dropped,
        stats.stalls + dropped <= u32::MAX,
    ensures
        ({
            let next = stats_with_frame(stats, last, rate_mhz, now, unseen, dropped);
            &&& next.captured == stats.captured + 1
            &&& next.superseded == stats.superseded + (if unseen {
                1int
            } else {
                0
            })
            &&& next.stalls == stats.stalls + dropped
            &&& last is None ==> next.capture_intervals == stats.capture_intervals
            &&& last matches Some(at) ==> at <= now ==> next.capture_intervals == with_interval(
                stats.capture_intervals,
                now - at,
                rate_mhz,
            )
            &&& next == (FrameStats {
                captured: next.captured,
                superseded: next.superseded,
                stalls: next.stalls,
                capture_intervals: next.capture_intervals,
                ..stats
            })
        }),
{
}

/// A step of the counter goes out at its deadline, and not before.
pub proof fn counter_steps_at_its_deadline(last: u64, period: u64, now: u64, open: bool)
    requires
        last + period + period / 2 <= u64::MAX,
    ensures
        ({
            let pacer = SyncPacer::after(last as int, period as int);
            pacer.ticks(now, open).commit <==> now >= pacer.deadline_at(open)
        }),
{
}

/// An output that a frame went out to is waited for under the number of the newest frame
/// where it will answer, and nothing changes where it will not.
pub proof fn outputs_are_asked_about_the_newest_frame(timing: TimingView, index: int) -> (k: int)
    requires
        timing.wf(),
        0 <= index < timing.per_output.len(),
        timing.pending.len() < 16,
    ensures
        asked_about(timing, false, index) == timing,
        ({
            let asked = asked_about(timing, true, index);
            &&& 0 <= k < asked.pending.len()
            &&& asked.pending[k].0 == timing.snapshot_id
            &&& asked.pending[k].1[index] == Slot::Waiting
            &&& asked.per_output == timing.per_output
        }),
{
    let id = timing.snapshot_id;
    if is_outstanding(timing, id) {
        let k = choose|k: int|
            0 <= k < timing.pending.len() && (#[trigger] timing.pending[k]).0 == id;
        asking_again_waits_for_one_more(timing, id, index, k);
        k
    } else {
        asking_makes_a_frame_outstanding(timing, id, index)
    }
}

} // verus!

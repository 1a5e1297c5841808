//! When outputs showed a frame, and when the wall may show the next.
use suede::projection::gate::{
    gate_entry, gate_signal, interval_is_dead, DeadIntervalTracker, GateEntry, GateSignal,
    GateState, STALL_TIMEOUT,
};
use suede::projection::timing::{reduce_phase, settle, LagFrames, SettledOutcome, Slot, Timing};

fn millis(ms: u64) -> u64 {
    ms * 1_000_000
}

fn presented(at_ms: u64, refresh_hz: f64) -> Slot {
    presented_with(at_ms, refresh_hz, false)
}

fn presented_zero_copy(at_ms: u64, refresh_hz: f64) -> Slot {
    presented_with(at_ms, refresh_hz, true)
}

fn presented_with(at_ms: u64, refresh_hz: f64, zero_copy: bool) -> Slot {
    let refresh_ns = if refresh_hz == 0.0 {
        0
    } else {
        (1_000_000_000.0 / refresh_hz).round() as u32
    };
    Slot::Presented {
        at_ns: at_ms * 1_000_000,
        refresh_ns,
        zero_copy,
    }
}

#[test]
fn a_small_offset_at_60hz_is_not_a_straddle() {
    let settled = settle(&[presented(1000, 60.0), presented(1003, 60.0)]);
    assert_eq!(settled.offset_ns, Some(3_000_000));
    assert!(
        !settled.straddle,
        "3 ms at 60 Hz is well under half a refresh"
    );
}

#[test]
fn a_twelve_millisecond_gap_at_60hz_is_a_straddle() {
    let settled = settle(&[presented(1000, 60.0), presented(1012, 60.0)]);
    assert_eq!(settled.offset_ns, Some(12_000_000));
    assert!(settled.straddle, "12 ms exceeds half of a ~16.7 ms refresh");
}

#[test]
fn a_discarded_output_is_tallied_but_contributes_no_offset() {
    let settled = settle(&[presented(1000, 60.0), Slot::Discarded]);
    assert_eq!(settled.offset_ns, None);
    assert!(!settled.straddle);
    assert_eq!(
        settled.outcomes,
        vec![
            (
                0,
                SettledOutcome::Presented {
                    refresh_ns: Some(16_666_667),
                    zero_copy: false,
                }
            ),
            (1, SettledOutcome::Discarded),
        ]
    );
}

#[test]
fn an_unknown_refresh_is_ignored_for_hz_and_for_the_straddle_test() {
    let settled = settle(&[presented(1000, 60.0), presented(1012, 0.0)]);
    assert_eq!(settled.offset_ns, Some(12_000_000));
    assert!(settled.straddle);
    let unknown_only = settle(&[presented(1000, 0.0), presented(1012, 0.0)]);
    assert!(
        !unknown_only.straddle,
        "no known refresh means nothing to compare the offset against"
    );
}

#[test]
fn a_single_presenter_has_no_offset_to_report() {
    let settled = settle(&[presented(1000, 60.0)]);
    assert_eq!(settled.offset_ns, None);
    assert!(!settled.straddle);
}

#[test]
fn a_zero_copy_presentation_increments_the_output_s_counter() {
    let mut timing = Timing::new(1);
    timing.request(1, 0);
    timing.presented(1, 0, 1_000_000, 16_666_667, true);
    assert_eq!(timing.per_output[0].presented, 1);
    assert_eq!(timing.per_output[0].zero_copy_presented, 1);
}

#[test]
fn a_non_zero_copy_presentation_leaves_the_counter_at_zero() {
    let mut timing = Timing::new(1);
    timing.request(1, 0);
    timing.presented(1, 0, 1_000_000, 16_666_667, false);
    assert_eq!(timing.per_output[0].presented, 1);
    assert_eq!(timing.per_output[0].zero_copy_presented, 0);
}

#[test]
fn settle_carries_the_zero_copy_flag_into_the_outcome() {
    let settled = settle(&[presented_zero_copy(1000, 60.0), presented(1003, 60.0)]);
    assert_eq!(
        settled.outcomes,
        vec![
            (
                0,
                SettledOutcome::Presented {
                    refresh_ns: Some(16_666_667),
                    zero_copy: true,
                }
            ),
            (
                1,
                SettledOutcome::Presented {
                    refresh_ns: Some(16_666_667),
                    zero_copy: false,
                }
            ),
        ]
    );
}
const REFRESH_60HZ_NS: i64 = 16_666_667;

#[test]
fn reduce_phase_keeps_a_value_already_within_half_a_period() {
    assert_eq!(reduce_phase(3_000_000, REFRESH_60HZ_NS), 3_000_000);
}

#[test]
fn reduce_phase_wraps_a_value_past_half_a_period() {
    let reduced = reduce_phase(15_000_000, REFRESH_60HZ_NS);
    assert!(
        (reduced as f64 / 1_000_000.0 - (-1.666_667)).abs() < 0.001,
        "got {reduced} ns"
    );
}




#[test]
fn settle_reports_phase_relative_to_output_zero() {
    let settled = settle(&[presented(1000, 60.0), presented(1003, 60.0)]);
    assert_eq!(
        settled.phase_samples,
        vec![(1, 3_000_000, REFRESH_60HZ_NS as u32)]
    );
}

#[test]
fn settle_has_no_phase_samples_when_output_zero_did_not_present() {
    let settled = settle(&[Slot::Discarded, presented(1003, 60.0)]);
    assert!(settled.phase_samples.is_empty());
}
fn presented_at_ns(at_ns: u64, refresh_ns: u32) -> Slot {
    Slot::Presented {
        at_ns,
        refresh_ns,
        zero_copy: false,
    }
}

#[test]
fn two_outputs_one_refresh_apart_lag_one_on_the_later_output() {
    let refresh_ns = REFRESH_60HZ_NS as u32;
    let settled = settle(&[
        presented_at_ns(0, refresh_ns),
        presented_at_ns(u64::from(refresh_ns), refresh_ns),
    ]);
    assert_eq!(settled.lag_frames, vec![(0, 0), (1, 1)]);
}

#[test]
fn three_outputs_one_two_refreshes_behind() {
    let refresh_ns = REFRESH_60HZ_NS as u32;
    let settled = settle(&[
        presented_at_ns(0, refresh_ns),
        presented_at_ns(u64::from(refresh_ns), refresh_ns),
        presented_at_ns(2 * u64::from(refresh_ns), refresh_ns),
    ]);
    assert_eq!(settled.lag_frames, vec![(0, 0), (1, 1), (2, 2)]);
}

#[test]
fn a_lone_presenter_contributes_no_lag_samples() {
    let settled = settle(&[presented(1000, 60.0)]);
    assert!(settled.lag_frames.is_empty());
}

#[test]
fn a_lag_of_three_or_more_refreshes_clamps_to_the_more_bucket() {
    let refresh_ns = REFRESH_60HZ_NS as u32;
    let settled = settle(&[
        presented_at_ns(0, refresh_ns),
        presented_at_ns(5 * u64::from(refresh_ns), refresh_ns),
    ]);
    assert_eq!(settled.lag_frames, vec![(0, 0), (1, 3)]);
}

#[test]
fn the_lag_histogram_resets_between_report_intervals() {
    let refresh_ns = REFRESH_60HZ_NS as u32;
    let mut timing = Timing::new(2);
    timing.request(1, 0);
    timing.request(1, 1);
    timing.presented(1, 0, 0, refresh_ns, false);
    timing.presented(1, 1, u64::from(refresh_ns), refresh_ns, false);
    assert_eq!(timing.per_output[1].lag_frames.one, 1);

    let interval = timing.drain_interval();
    assert_eq!(interval.outputs[1].lag_frames.one, 1);
    assert_eq!(timing.per_output[1].lag_frames, LagFrames::default());
    timing.request(2, 0);
    timing.request(2, 1);
    timing.presented(2, 0, 0, refresh_ns, false);
    timing.presented(2, 1, 0, refresh_ns, false);
    let interval = timing.drain_interval();
    assert_eq!(
        interval.outputs[1].lag_frames,
        LagFrames {
            zero: 1,
            ..LagFrames::default()
        }
    );
}

#[test]
fn an_answered_frame_is_added_up_once() {
    let mut timing = Timing::new(2);
    timing.request(1, 0);
    timing.request(1, 1);
    timing.presented(1, 0, millis(1000), 16_666_667, false);
    assert_eq!(timing.pending.len(), 1);
    assert_eq!(timing.per_output[0].presented, 0);
    timing.discarded(1, 1);
    assert!(timing.pending.is_empty());
    assert_eq!((timing.per_output[0].presented, timing.per_output[1].discarded), (1, 1));
    timing.presented(1, 1, millis(1010), 16_666_667, false);
    timing.discarded(1, 0);
    assert_eq!((timing.per_output[0].presented, timing.per_output[0].discarded), (1, 0));
    assert_eq!((timing.per_output[1].presented, timing.per_output[1].discarded), (0, 1));
    assert_eq!(timing.drain_interval().offsets_ns, Vec::<u64>::new());
}

#[test]
fn frames_that_nobody_answers_are_let_go_of() {
    let mut timing = Timing::new(1);
    for id in 1..=20 {
        timing.request(id, 0);
    }
    assert_eq!(timing.pending.len(), 16);
    assert_eq!(timing.pending[0].id, 5);
}

#[test]
fn two_consecutive_dead_intervals_trip_the_tracker() {
    let mut tracker = DeadIntervalTracker::default();
    assert!(
        !tracker.record(true, 40, 0),
        "one bad interval is not enough"
    );
    assert!(
        tracker.record(true, 40, 0),
        "a second consecutive bad interval must trip it"
    );
}

#[test]
fn a_single_dead_interval_does_not_trip_it() {
    let mut tracker = DeadIntervalTracker::default();
    assert!(!tracker.record(true, 40, 0));
    assert!(!tracker.record(true, 40, 5));
    assert!(!tracker.record(true, 40, 0));
}

#[test]
fn zero_answers_never_trips_it() {
    let mut tracker = DeadIntervalTracker::default();
    for _ in 0..5 {
        assert!(!tracker.record(true, 0, 0));
    }
}

#[test]
fn any_presented_frame_resets_the_count() {
    let mut tracker = DeadIntervalTracker::default();
    assert!(!tracker.record(true, 40, 0));
    assert!(
        !tracker.record(true, 40, 1),
        "a presented frame is not itself dead"
    );
    assert!(!tracker.record(true, 40, 0));
}

#[test]
fn without_feedback_the_predicate_never_fires() {
    let mut tracker = DeadIntervalTracker::default();
    assert!(!tracker.record(false, 1000, 0));
    assert!(!tracker.record(false, 1000, 0));
}

#[test]
fn fewer_than_the_threshold_of_answers_does_not_count_as_dead() {
    assert!(!interval_is_dead(true, 29, 0));
    assert!(interval_is_dead(true, 30, 0));
}
fn answered_entry() -> GateEntry {
    GateEntry {
        waiting: false,
        waited: 0,
        stalled: false,
    }
}
fn waiting_entry(waited: u64) -> GateEntry {
    GateEntry {
        waiting: true,
        waited,
        stalled: false,
    }
}

#[test]
fn the_gate_is_open_once_every_output_has_answered() {
    let gate = GateState::new(vec![answered_entry(); 3], STALL_TIMEOUT);
    assert!(gate.all_answered(), "nobody owes an answer");
    assert!(gate.newly_stalled().is_empty());
}

#[test]
fn one_outstanding_output_holds_the_gate_shut() {
    let gate = GateState::new(
        vec![
            answered_entry(),
            answered_entry(),
            waiting_entry(millis(8)),
        ],
        STALL_TIMEOUT,
    );
    assert!(!gate.all_answered());
    assert!(
        gate.newly_stalled().is_empty(),
        "8 ms is an ordinary wait, not a stall"
    );
}

#[test]
fn an_output_that_never_answers_is_dropped_from_the_gate_and_counted() {
    let waited = STALL_TIMEOUT + millis(1);
    let gate = GateState::new(vec![answered_entry(), waiting_entry(waited)], STALL_TIMEOUT);
    assert!(
        gate.all_answered(),
        "the straggler no longer holds the frame gate"
    );
    assert_eq!(gate.newly_stalled(), vec![(1, waited)]);
}

#[test]
fn an_already_stalled_output_is_neither_waited_for_nor_counted_again() {
    let entry = GateEntry {
        waiting: true,
        waited: millis(5000),
        stalled: true,
    };
    let gate = GateState::new(vec![answered_entry(), entry], STALL_TIMEOUT);
    assert!(gate.all_answered());
    assert!(gate.newly_stalled().is_empty());
}

#[test]
fn an_empty_wall_never_holds_the_gate_shut() {
    assert!(GateState::new(Vec::new(), STALL_TIMEOUT).all_answered());
}

#[test]
fn without_wp_presentation_the_gate_falls_back_to_frame_callbacks() {
    assert_eq!(gate_signal(true), GateSignal::Presentation);
    assert_eq!(gate_signal(false), GateSignal::FrameCallback);

    let frame = Some(millis(4));
    let feedback = None;
    assert!(
        !gate_entry(GateSignal::FrameCallback, frame, feedback, false).answered(STALL_TIMEOUT),
        "a compositor with no wp_presentation still waits for the callback"
    );
    assert!(
        gate_entry(GateSignal::Presentation, frame, feedback, false).answered(STALL_TIMEOUT),
        "with feedback in hand an outstanding callback is not what the frame gate waits on"
    );
    let late_flip = Some(millis(12));
    assert!(
        !gate_entry(GateSignal::Presentation, None, late_flip, false).answered(STALL_TIMEOUT),
        "the flip has not landed, so the frame gate holds"
    );
    assert!(
        gate_entry(GateSignal::FrameCallback, None, late_flip, false).answered(STALL_TIMEOUT),
        "the callback gate sees nothing outstanding — which is why it never held"
    );
}

#[test]
fn times_of_a_clock_that_has_run_long_are_compared_as_well() {
    let late = 10_000_000_000_000_000_000u64;
    let settled = settle(&[
        presented_at_ns(late, 16_666_667),
        presented_at_ns(late + 3_000_000, 16_666_667),
    ]);
    assert_eq!(settled.offset_ns, Some(3_000_000));
    assert_eq!(settled.phase_samples, vec![(1, 3_000_000, 16_666_667)]);
    assert_eq!(settled.lag_frames, vec![(0, 0), (1, 0)]);
    let half = i64::MAX as u64;
    let across =
        settle(&[presented_at_ns(half, 16_666_667), presented_at_ns(half + 5, 16_666_667)]);
    assert_eq!(across.phase_samples, vec![(1, 5, 16_666_667)]);
    let alone = settle(&[Slot::Discarded, presented_at_ns(u64::MAX, 16_666_667)]);
    assert!(alone.phase_samples.is_empty());
    assert_eq!(alone.offset_ns, None);
}

//! The outputs of a wall: who is owed a frame, and who may be sent one.
use suede::config::Renderer;
use suede::projection::gate::DeadIntervalTracker;
use suede::projection::install::{
    applied, decide_install, upload_failed, Install, InstallState, SamplingMode, StagedOutput,
    WallOutput,
};
use suede::projection::pacing::{
    canvas_period, canvas_rate, poll_timeout, presentation_time, Activity, CaptureIntervals,
    CaptureSlots, PresentStep, Slicer, SyncPacer,
};
use suede::projection::run_loop::{
    before_connecting, capture_modifiers, gpu_capture_stale, locate, present_resize,
    scanout_candidate, shm_capture_buffer, table_fits, wait_step, AnnouncedOutput, CaptureStep,
    DmabufOffer, ShmOffer, WaitStep,
};
use suede::projection::scanout::{ScanoutVerdict, FOURCC_XR24};
use suede::projection::timing::Timing;
use suede::projection::wall::{
    free_present_slot, present_slots, Backend, Presenter, Wall, CPU_PRESENT_SLOTS,
    GPU_PRESENT_SLOTS,
};

const MILLI: u64 = 1_000_000;

fn presenter() -> Presenter {
    Presenter {
        configured: Some((4, 4)),
        busy: vec![false; 2],
        next_buffer: 0,
        warp_revision: 7,
        warp_submitted_revision: None,
        warp_reported_revision: None,
        frame_pending: false,
        pending_since: None,
        feedback_pending_for: None,
        feedback_since: None,
        stalled: false,
        stale: true,
    }
}

fn bare_wall(used_outputs: Vec<u32>) -> Wall {
    Wall {
        presenters: Vec::new(),
        free_run: false,
        presentation: false,
        gpu_retry_after: None,
        gate_blocked_since: None,
        used_outputs,
        closed: false,
        dead_intervals: DeadIntervalTracker::default(),
    }
}

fn lifecycle_wall() -> Wall {
    let mut wall = bare_wall(vec![]);
    wall.presenters = vec![presenter(), presenter()];
    wall
}

#[test]
fn a_global_remove_naming_a_used_output_closes_the_slicer() {
    let mut state = bare_wall(vec![42]);
    assert!(state.handle_output_removed(42));
    assert!(state.closed, "the output this slicer presents to went away");
}

#[test]
fn a_global_remove_naming_an_unrelated_global_is_ignored() {
    let mut state = bare_wall(vec![42]);
    assert!(!state.handle_output_removed(7));
    assert!(
        !state.closed,
        "a global the slicer neither captures from nor presents to must not stop it"
    );
}

#[test]
fn the_gpu_path_keeps_one_more_present_buffer_than_the_shm_path() {
    assert_eq!(present_slots(Some(Backend::Gpu)), 3);
    assert_eq!(present_slots(Some(Backend::Cpu)), 2);
    assert_eq!(
        present_slots(Some(Backend::Gpu)),
        present_slots(Some(Backend::Cpu)) + 1
    );
}

#[test]
fn an_undecided_backend_sizes_the_pool_as_the_shm_path() {
    assert_eq!(present_slots(None), CPU_PRESENT_SLOTS);
}

#[test]
fn a_pool_rotates_through_every_slot_before_reusing_one() {
    let len = GPU_PRESENT_SLOTS;
    let mut busy = vec![false; len];
    let mut next_buffer = 0;
    let mut taken = Vec::new();
    for frame in 0..6 {
        let slot = free_present_slot(&busy, next_buffer)
            .expect("three slots against two held by the compositor always leave one free");
        next_buffer = (slot + 1) % len;
        busy[slot] = true;
        taken.push(slot);
        if frame >= 2 {
            busy[taken[frame - 2]] = false;
        }
    }
    assert_eq!(taken, vec![0, 1, 2, 0, 1, 2]);
}

#[test]
fn slow_buffer_release_never_selects_an_owned_slot() {
    let mut busy = vec![true; GPU_PRESENT_SLOTS];
    for next in 0..12 {
        assert_eq!(free_present_slot(&busy, next), None);
    }
    busy[1] = false;
    assert_eq!(free_present_slot(&busy, 2), Some(1));
    busy[1] = true;
    busy[0] = false;
    assert_eq!(free_present_slot(&busy, 2), Some(0));
    assert_eq!(free_present_slot(&[], 0), None);
}

#[test]
fn slow_buffers_hold_locked_generation_and_free_run_keeps_other_output_moving() {
    let now = 1_000 * MILLI;
    let mut state = lifecycle_wall();
    state.presenters[0].busy.fill(true);
    assert!(!state.can_present(now));
    assert!(state.sync_due(now).is_empty());
    assert!(state
        .presenters
        .iter()
        .all(|p| p.stale && p.warp_revision == 7));
    state.free_run = true;
    assert!(state.can_present(now));
    let due = state.sync_due(now);
    assert_eq!(due.len(), 1);
    assert_eq!(due[0].index, 1);
    assert!(state.presenters[0].stale);
    state.presenters[0].warp_revision = 9;
    state.presenters[0].busy[1] = false;
    let due = state.sync_due(now);
    assert_eq!((due[0].index, due[0].slot), (0, 1));
    assert_eq!(state.presenters[0].warp_revision, 9);
    assert!(!state.presenters[0].stale);
}

#[test]
fn installed_generation_survives_until_first_complete_capture() {
    let now = 1_000 * MILLI;
    let mut state = Slicer::new(lifecycle_wall(), 62_500, now);
    assert_eq!(state.capture.take_source(false), None);
    state.wall.clear_stale();
    assert!(state
        .wall
        .presenters
        .iter()
        .all(|p| !p.stale && p.warp_revision == 7));
    assert!(state
        .wall
        .presenters
        .iter()
        .all(|p| p.warp_submitted_revision.is_none()));
    assert!(!state.wall.can_present(now));
    state.timing = Timing::new(2);
    state.new_snapshot(now);
    assert!(state.wall.can_present(now));
    assert!(state
        .wall
        .presenters
        .iter()
        .all(|p| p.stale && p.warp_revision == 7));
}

#[test]
fn a_wall_in_step_waits_for_every_output_and_drops_one_that_stops_answering() {
    let start = 1_000 * MILLI;
    let mut wall = lifecycle_wall();
    wall.presentation = true;
    let due = wall.hand_out(start, true);
    assert_eq!(due.len(), 2);
    wall.commit_sent(0, 5, start);
    wall.commit_sent(1, 5, start);
    wall.feedback_answered(0, 5);
    wall.refresh(start + MILLI);
    assert!(!wall.gate_open(start + 8 * MILLI), "one output still owes its answer");
    let stalled = wall.refresh(start + 301 * MILLI);
    assert_eq!(stalled, vec![(1, 301 * MILLI)]);
    assert!(wall.gate_open(start + 301 * MILLI));
    assert!(wall.presenters[1].stalled);
    wall.feedback_answered(1, 5);
    assert!(!wall.presenters[1].stalled, "an answer lets it back in");
}

#[test]
fn a_callback_does_not_end_the_wait_for_a_flip() {
    let start = 1_000 * MILLI;
    let mut wall = lifecycle_wall();
    wall.presentation = true;
    wall.commit_sent(0, 1, start);
    wall.callback_done(0);
    assert!(!wall.gate_open(start));
    wall.feedback_answered(0, 1);
    assert!(wall.gate_open(start));
}

#[test]
fn failed_drawing_gives_buffers_back_and_is_tried_again_later() {
    let now = 1_000 * MILLI;
    let mut wall = lifecycle_wall();
    let due = wall.hand_out(now, true);
    assert_eq!(due.len(), 2);
    wall.blend_failed(&due, now + 10 * MILLI);
    assert!(wall.presenters.iter().all(|p| p.stale && !p.busy[0] && !p.busy[1]));
    assert!(!wall.can_present(now));
    assert!(wall.can_present(now + 10 * MILLI));
}

#[test]
fn a_resized_output_ends_a_run_that_takes_live_edits() {
    let mut wall = lifecycle_wall();
    wall.configure(0, (8, 8), false);
    assert_eq!(wall.presenters[0].configured, Some((8, 8)));
    assert!(!wall.closed);
    wall.configure(0, (9, 8), true);
    assert!(wall.closed);
    assert_eq!(wall.presenters[0].configured, Some((8, 8)));
}

#[test]
fn released_buffers_and_new_buffers_are_free() {
    let mut wall = lifecycle_wall();
    wall.presenters[0].busy = vec![true, true];
    wall.presenters[0].next_buffer = 1;
    wall.buffer_released(0, 1);
    assert_eq!(wall.presenters[0].busy, vec![true, false]);
    wall.buffers_made(0, Some(Backend::Gpu));
    assert_eq!(wall.presenters[0].busy, vec![false, false, false]);
    assert_eq!(wall.presenters[0].next_buffer, 0);
}

#[test]
fn the_image_that_is_drawn_is_never_the_one_that_is_written() {
    let mut slots = CaptureSlots { gpu_slot: 0, pending_slot: None, last_blended_slot: None };
    let now = 1_000 * MILLI;
    let mut slicer = Slicer::new(lifecycle_wall(), 62_500, now);
    for frame in 0..6u64 {
        slicer.capture_ready(Some(Backend::Gpu), now + frame * 16 * MILLI);
        slots = slicer.capture;
        let drawn = slicer.capture.take_source(false).unwrap();
        assert_ne!(drawn, slots.gpu_slot);
        slicer.capture.blended(drawn);
    }
    assert_eq!(slicer.capture_id, 6);
    assert_eq!(slicer.timing.snapshot_id, 6);
    assert_eq!(slicer.stats.captured, 6);
    assert_eq!(slicer.stats.capture_intervals.one, 5);
    assert_eq!(slots.last_blended_slot, Some(0));
}

#[test]
fn a_held_frame_is_noted_once_and_counted_when_it_goes_out_late() {
    let start = 1_000 * MILLI;
    let mut slicer = Slicer::new(lifecycle_wall(), 62_500, start);
    slicer.wall.presentation = true;
    slicer.wall.commit_sent(0, 0, start);
    assert_eq!(slicer.present_step(start), PresentStep::Blocked);
    assert_eq!(slicer.wall.gate_blocked_since, Some(start));
    assert_eq!(slicer.present_step(start + 4 * MILLI), PresentStep::Blocked);
    assert_eq!(slicer.wall.gate_blocked_since, Some(start));
    slicer.wall.feedback_answered(0, 0);
    assert_eq!(slicer.present_step(start + 20 * MILLI), PresentStep::Present);
    slicer.note_commit_cycle(false, start + 20 * MILLI);
    assert_eq!(slicer.stats.gate_holds, 1);
    assert_eq!(slicer.wall.gate_blocked_since, None);
}

#[test]
fn a_report_comes_every_ten_seconds_of_captures() {
    let start = 1_000 * MILLI;
    let mut slicer = Slicer::new(lifecycle_wall(), 62_500, start);
    slicer.stats.captured = 600;
    assert!(slicer.report_stats_if_due(start + 9_999 * MILLI).is_none());
    let report = slicer.report_stats_if_due(start + 10_000 * MILLI).unwrap();
    assert_eq!(report.stats.captured, 600);
    assert_eq!(report.elapsed, 10_000 * MILLI);
    assert!(!report.dead);
    assert_eq!(slicer.stats.captured, 0);
}

#[test]
fn repeated_failures_end_a_run() {
    let mut slicer = Slicer::new(lifecycle_wall(), 62_500, 0);
    assert_eq!(slicer.capture_step(true, false), CaptureStep::Filled);
    assert_eq!(slicer.capture_step(false, false), CaptureStep::Nothing);
    assert_eq!(slicer.capture_step(false, true), CaptureStep::Restart);
    assert_eq!(slicer.capture_step(true, false), CaptureStep::Filled);
    assert_eq!(slicer.capture_step(false, true), CaptureStep::Restart);
    assert_eq!(slicer.capture_step(false, true), CaptureStep::Restart);
    assert_eq!(
        slicer.capture_step(false, true),
        CaptureStep::GiveUp("screencopy failed 3 times; giving up".to_string())
    );
    let mut slicer = Slicer::new(lifecycle_wall(), 62_500, 0);
    assert_eq!(slicer.first_capture_failed(), Ok(()));
    assert_eq!(slicer.first_capture_failed(), Ok(()));
    assert_eq!(
        slicer.first_capture_failed(),
        Err("initial screencopy failed 3 times".to_string())
    );
}

#[test]
fn the_loop_waits_only_where_there_is_nothing_to_do() {
    assert_eq!(wait_step(true, false, false, false, false), WaitStep::Go);
    assert_eq!(wait_step(false, true, false, false, false), WaitStep::Go);
    assert_eq!(wait_step(false, false, true, false, false), WaitStep::Go);
    assert_eq!(wait_step(false, false, false, true, false), WaitStep::Poll);
    assert_eq!(wait_step(false, false, false, false, true), WaitStep::Poll);
    assert_eq!(wait_step(false, false, false, false, false), WaitStep::Block);
}

#[test]
fn the_cpu_renderer_refuses_correction_before_connecting() {
    let refusal = before_connecting(true, Renderer::Cpu).unwrap();
    assert_eq!(
        refusal.reason,
        "warp_unavailable: renderer:cpu does not support geometric warp correction"
    );
    assert!(!refusal.capability.warp_available);
    assert!(before_connecting(false, Renderer::Cpu).is_none());
    assert!(before_connecting(true, Renderer::Auto).is_none());
}

fn spec_for(outputs: &[&str]) -> suede::projection::slices::SlicerSpec {
    suede::projection::slices::SlicerSpec {
        control_session: String::new(),
        source: "HEADLESS-1".to_string(),
        canvas_width: 8,
        canvas_height: 4,
        gamma: suede::model::Real { bits: 2.2f64.to_bits() },
        black_lift: suede::model::Real { bits: 0 },
        pattern: None,
        free_run: false,
        renderer: Renderer::Auto,
        slices: outputs
            .iter()
            .map(|name| suede::projection::slices::SliceSpec {
                output: name.to_string(),
                source: suede::model::Rect { x: 0, y: 0, width: 4, height: 4 },
                source_rect: None,
                geometry: None,
                ramps: Vec::new(),
            })
            .collect(),
    }
}

fn announced(name: &str, global: u32) -> AnnouncedOutput {
    AnnouncedOutput { name: Some(name.to_string()), global }
}

#[test]
fn a_run_finds_its_outputs_by_name() {
    let outputs = [
        AnnouncedOutput { name: None, global: 1 },
        announced("DP-2", 12),
        announced("HEADLESS-1", 13),
        announced("DP-1", 14),
    ];
    let located = locate(&spec_for(&["DP-1", "DP-2"]), &outputs).unwrap();
    assert_eq!(located.source, 2);
    assert_eq!(located.targets, vec![3, 1]);
    assert_eq!(located.used_outputs, vec![13, 14, 12]);
    assert_eq!(
        locate(&spec_for(&["DP-1", "DP-9"]), &outputs).unwrap_err(),
        "no output named DP-9"
    );
    assert_eq!(
        locate(&spec_for(&["DP-1"]), &outputs[..2]).unwrap_err(),
        "no output named HEADLESS-1 to capture"
    );
}

#[test]
fn capture_buffers_follow_what_is_offered() {
    let offer = ShmOffer { format: 1, width: 8, height: 4, stride: 32 };
    let buffer = shm_capture_buffer(Some(offer), Some((8, 4, 32))).unwrap();
    assert!(!buffer.rebuild);
    assert_eq!(buffer.format.bytes, 4);
    assert!(shm_capture_buffer(Some(offer), Some((8, 5, 32))).unwrap().rebuild);
    assert!(shm_capture_buffer(Some(offer), None).unwrap().rebuild);
    assert_eq!(
        shm_capture_buffer(None, None).unwrap_err(),
        "screencopy offered no shm buffer"
    );
    let odd = ShmOffer { format: 0xabcd, ..offer };
    assert_eq!(
        shm_capture_buffer(Some(odd), None).unwrap_err(),
        "unsupported capture format 0xabcd"
    );

    let image = DmabufOffer { format: FOURCC_XR24, width: 8, height: 4 };
    assert_eq!(gpu_capture_stale(Some(image), Some(image)), Ok(false));
    assert_eq!(gpu_capture_stale(Some(image), None), Ok(true));
    let wider = DmabufOffer { width: 9, ..image };
    assert_eq!(gpu_capture_stale(Some(wider), Some(image)), Ok(true));
    assert_eq!(
        gpu_capture_stale(None, Some(image)),
        Err("screencopy offered no dmabuf buffer".to_string())
    );

    assert_eq!(capture_modifiers(1, vec![7], vec![7, 8], true), Ok(vec![7]));
    assert_eq!(capture_modifiers(1, vec![], vec![8], false), Ok(vec![8]));
    assert_eq!(
        capture_modifiers(FOURCC_XR24, vec![], vec![8], true),
        Err(format!(
            "no Vulkan-importable modifier for capture format {:#010x} \
             (mid-run resize to a format the device cannot import?)",
            FOURCC_XR24
        ))
    );
}

#[test]
fn images_are_made_anew_only_for_another_size() {
    assert_eq!(present_resize(true, Some((8, 4)), Some((8, 4))), None);
    assert_eq!(present_resize(true, Some((8, 4)), Some((4, 8))), Some((8, 4)));
    assert_eq!(present_resize(true, Some((8, 4)), None), Some((8, 4)));
    assert_eq!(present_resize(true, None, Some((8, 4))), None);
    assert_eq!(present_resize(false, Some((8, 4)), None), None);
    assert!(table_fits(32, 8, 4));
    assert!(!table_fits(31, 8, 4));
}

#[test]
fn the_scanout_line_names_the_output_and_the_verdict() {
    assert_eq!(
        scanout_candidate("DP-1", &ScanoutVerdict::Yes { fourcc: FOURCC_XR24, modifier: 0x1f }),
        "slicer: output DP-1: scanout candidate: yes (fourcc XR24, modifier 0x1f)"
    );
    assert_eq!(
        scanout_candidate("DP-1", &ScanoutVerdict::No("cpu path".to_string())),
        "slicer: output DP-1: scanout candidate: no (cpu path)"
    );
    assert_eq!(
        scanout_candidate("DP-1", &ScanoutVerdict::Unconfirmed("maybe".to_string())),
        "slicer: output DP-1: scanout candidate: unconfirmed (maybe)"
    );
}

fn staged(index: usize, name: &str) -> StagedOutput {
    StagedOutput {
        index,
        name: name.to_string(),
        size: (4, 4),
        filtered: false,
        corrected: false,
    }
}

fn wall_output(name: &str) -> WallOutput {
    WallOutput { name: name.to_string(), configured: Some((4, 4)) }
}

fn install_state() -> InstallState {
    InstallState {
        capture_filters: Some(true),
        warp_available: true,
        device: true,
        initialized: true,
    }
}

fn refused(install: Install) -> (String, bool) {
    match install {
        Install::Upload => panic!("expected a refusal"),
        Install::Refuse { reason, fatal } => (reason, fatal),
    }
}

#[test]
fn a_build_is_installed_only_on_the_wall_it_was_made_for() {
    let wall = [wall_output("A"), wall_output("B")];
    let state = install_state();
    assert_eq!(decide_install(&[staged(1, "B")], &wall, &state), Install::Upload);
    assert_eq!(
        refused(decide_install(&[staged(0, "B")], &wall, &state)),
        ("output topology changed; restart required".to_string(), true)
    );
    assert!(refused(decide_install(&[staged(2, "C")], &wall, &state)).1);
    let mut resized = staged(0, "A");
    resized.size = (8, 4);
    assert!(refused(decide_install(&[resized], &wall, &state)).1);

    let mut crop = staged(0, "A");
    crop.filtered = true;
    let rough = InstallState { capture_filters: Some(false), ..install_state() };
    let (reason, fatal) = refused(decide_install(&[crop], &wall, &rough));
    assert!(reason.contains("linear filtering") && fatal);

    let mut warped = staged(0, "A");
    warped.corrected = true;
    let plain = InstallState { warp_available: false, ..install_state() };
    let (reason, fatal) = refused(decide_install(&[warped], &wall, &plain));
    assert!(reason.contains("warp_unavailable") && !fatal);

    let bare = InstallState { device: false, initialized: false, ..install_state() };
    assert_eq!(
        refused(decide_install(&[staged(0, "A")], &wall, &bare)),
        ("GPU unavailable".to_string(), true)
    );
    assert_eq!(refused(upload_failed("lost".to_string(), true)), ("lost".to_string(), false));
    assert!(refused(upload_failed("lost".to_string(), false)).1);
}

#[test]
fn an_installed_build_marks_its_outputs_and_no_others() {
    let mut wall = lifecycle_wall();
    wall.clear_stale();
    wall.install(&[staged(1, "B")], 9);
    assert_eq!(wall.presenters[0].warp_revision, 7);
    assert!(!wall.presenters[0].stale);
    assert_eq!(wall.presenters[1].warp_revision, 9);
    assert!(wall.presenters[1].stale);
    wall.install_everywhere(11);
    assert!(wall.presenters.iter().all(|p| p.warp_revision == 11));
    assert!(!wall.presenters[0].stale);

    assert!(wall.note_submitted(1));
    assert!(!wall.note_submitted(1));
    assert!(wall.note_shown(1, 11));
    assert!(!wall.note_shown(1, 11));
}

#[test]
fn an_installed_build_is_reported_with_its_sampling() {
    let wall = [wall_output("A"), wall_output("B")];
    let mut crop = staged(1, "B");
    crop.filtered = true;
    let report = applied(&[crop], &wall, false);
    assert_eq!(report.outputs, vec!["B".to_string()]);
    assert_eq!(report.sampling_modes, vec![("B".to_string(), SamplingMode::Bilinear)]);
    let report = applied(&[staged(1, "B")], &wall, true);
    assert_eq!(report.outputs, vec!["B".to_string(), "A".to_string()]);
    assert_eq!(report.sampling_modes, vec![("B".to_string(), SamplingMode::Exact)]);
}

#[test]
fn the_canvas_paces_the_counter() {
    assert_eq!(canvas_rate(Some(50_000)), 50_000);
    assert_eq!(canvas_rate(Some(0)), 60_000);
    assert_eq!(canvas_rate(None), 60_000);
    assert_eq!(canvas_period(50_000), 20 * MILLI);
    assert_eq!(canvas_period(60_000), 16_666_667);
    let start = 1_000 * MILLI;
    let mut pacer = SyncPacer::new(start);
    pacer.committed(start, 20 * MILLI);
    let early = pacer.tick(start + 10 * MILLI, true);
    let due = pacer.tick(start + 20 * MILLI, true);
    assert!(!early.commit);
    assert!(due.commit && !due.forced);
}

#[test]
fn waits_are_whole_milliseconds_until_the_nearest_time() {
    let now = 1_000 * MILLI;
    assert_eq!(poll_timeout(now + 5 * MILLI, None, None, now), 5);
    assert_eq!(poll_timeout(now + 5 * MILLI, Some(now + 2 * MILLI), None, now), 2);
    assert_eq!(poll_timeout(now, None, None, now), 0);
}

#[test]
fn presentation_times_join_their_halves() {
    assert_eq!(presentation_time(0, 2, 5), Some(2_000_000_005));
    assert_eq!(presentation_time(1, 0, 0), Some(4_294_967_296_000_000_000));
    assert_eq!(presentation_time(2, 1_410_065_408, 0), Some(10_000_000_000_000_000_000));
    assert_eq!(presentation_time(4, 1_266_874_889, 709_551_615), Some(u64::MAX));
    assert_eq!(presentation_time(4, 1_266_874_889, 709_551_616), None);
}

#[test]
fn a_hold_is_compared_with_the_exact_period() {
    let start = 1_000 * MILLI;
    for (held, counted) in [(16_666_666u64, 0u32), (16_666_667, 1)] {
        let mut slicer = Slicer::new(lifecycle_wall(), canvas_rate(None), start);
        slicer.note_gate_blocked(start);
        slicer.note_commit_cycle(false, start + held);
        assert_eq!(slicer.stats.gate_holds, counted, "{held}");
    }
    let mut forced = Slicer::new(lifecycle_wall(), canvas_rate(None), start);
    forced.note_gate_blocked(start);
    forced.note_commit_cycle(true, start);
    assert_eq!(forced.stats.gate_holds, 1);
}

#[test]
fn captures_are_sorted_by_exact_periods() {
    let start = 1_000 * MILLI;
    let counts = |one, two, three, more| CaptureIntervals { one, two, three, more };
    for (apart, wanted) in [
        (25_000_000u64, counts(1, 0, 0, 0)),
        (25_000_001, counts(0, 1, 0, 0)),
        (41_666_666, counts(0, 1, 0, 0)),
        (41_666_667, counts(0, 0, 1, 0)),
        (58_333_333, counts(0, 0, 1, 0)),
        (58_333_334, counts(0, 0, 0, 1)),
    ] {
        let mut slicer = Slicer::new(lifecycle_wall(), canvas_rate(None), start);
        slicer.record_capture_interval(start);
        assert_eq!(slicer.stats.capture_intervals, counts(0, 0, 0, 0));
        slicer.record_capture_interval(start + apart);
        assert_eq!(slicer.stats.capture_intervals, wanted, "{apart}");
    }
}

#[test]
fn a_report_is_of_its_own_interval_alone() {
    let start = 1_000 * MILLI;
    let mut wall = lifecycle_wall();
    wall.presentation = true;
    let mut slicer = Slicer::new(wall, canvas_rate(None), start);
    slicer.stats.captured = 1;
    slicer.timing.per_output[0].presented = 40;
    slicer.timing.per_output[0].refresh_ns = Some(16_666_667);
    slicer.timing.per_output[1].discarded = 2;
    slicer.timing.straddles = 3;
    slicer.wall.gpu_retry_after = Some(5);
    let report = slicer.report_stats_if_due(start + 10_000 * MILLI).unwrap();
    assert_eq!((report.presented, report.answers, report.dead), (40, 42, false));
    assert_eq!(report.interval.straddles, 3);
    assert_eq!(slicer.timing.per_output[0].presented, 0);
    assert_eq!(slicer.timing.per_output[0].refresh_ns, Some(16_666_667));
    assert_eq!(slicer.timing.per_output[1].discarded, 0);
    assert_eq!(slicer.timing.straddles, 0);
    assert!(slicer.wall.presentation && !slicer.wall.free_run);
    assert_eq!(slicer.wall.gpu_retry_after, Some(5));
    for interval in 2..6u64 {
        slicer.stats.captured = 1;
        slicer.timing.per_output[0].discarded = 30;
        let report = slicer.report_stats_if_due(start + interval * 10_000 * MILLI).unwrap();
        assert_eq!((report.presented, report.answers), (0, 30));
        if report.dead {
            assert!(slicer.wall.closed);
            return;
        }
        assert!(!slicer.wall.closed);
    }
    panic!("a wall that shows nothing is given up on");
}

#[test]
fn a_cycle_counts_where_a_frame_went_out() {
    let start = 1_000 * MILLI;
    let mut slicer = Slicer::new(lifecycle_wall(), canvas_rate(None), start);
    let stalled = slicer.begin_cycle(start);
    assert!(stalled.is_empty());
    assert_eq!(slicer.stats.captured, 1);
    assert_eq!(slicer.timing.snapshot_id, 1);
    assert_eq!(slicer.capture_id, 0);
    assert_eq!(slicer.last_capture_at, Some(start));
    slicer.cycle_ended(0);
    assert_eq!(slicer.stats.presented, 0);
    slicer.cycle_ended(2);
    assert_eq!(slicer.stats.presented, 1);
}

#[test]
fn time_is_added_to_what_it_was_spent_on() {
    let mut slicer = Slicer::new(lifecycle_wall(), canvas_rate(None), 0);
    slicer.spend(Activity::Waiting, 1);
    slicer.spend(Activity::Snapshot, 2);
    slicer.spend(Activity::Requesting, 3);
    slicer.spend(Activity::Blending, 4);
    slicer.spend(Activity::Blending, 4);
    slicer.wall.gpu_retry_after = Some(7);
    slicer.spend(Activity::Gpu, 5);
    assert_eq!(slicer.wall.gpu_retry_after, Some(7));
    slicer.blend_succeeded(6);
    assert_eq!(slicer.wall.gpu_retry_after, None);
    let stats = slicer.stats;
    assert_eq!(
        (stats.waiting, stats.snapshot, stats.requesting, stats.blending, stats.gpu),
        (1, 2, 3, 8, 11)
    );
}

//! One pass over what is wanted and what is there.
use suede::config::{
    AdoptedOutput, AppConfig, AudioConfig, DesiredState, Divergence, OutputConfig,
    ProjectionConfig, TestPattern,
};
use suede::model::{Mode, Output, OutputMatch, Position, Real, Rect};
use suede::names::NameMap;
use suede::projection::slices::SliceSpec;
use suede::reconciler::adoption::{
    adoption_event, apply_pins, candidates, remember, AdoptionEvent, Candidate, Pin,
};
use suede::reconciler::apps::{
    audio_divergences, effective_apps, gain_failed, needs_null_sink, GainRound, Sink,
};
use suede::reconciler::canvas::{
    canvas_commands, canvas_needs_setup, find_headless, headless_unavailable, outputs_for_sway,
    overlay_participants, participant_rates, plan_canvas, slicer_spec, CanvasAction, CanvasPlan,
    CanvasProgress,
};
use suede::reconciler::pass::{
    begin_pass, command_failures, conclude, link_divergences, note_reachability, pass_reason,
    poll_seconds, window_owner, AppWindows, CompositorEvent, Parking, PassFacts, PassInfo, Stage,
    Status, SyncState,
};

fn mode(width: i32, height: i32, refresh_mhz: u32) -> Mode {
    Mode { width, height, refresh_mhz }
}

fn output(name: &str, x: i32) -> Output {
    Output {
        name: name.into(),
        active: true,
        make: None,
        model: None,
        serial: None,
        current_mode: Some(mode(1920, 1080, 60_000)),
        modes: vec![mode(1920, 1080, 60_000)],
        rect: Rect { x, y: 0, width: 1920, height: 1080 },
        scale: None,
        transform: None,
        adaptive_sync_status: None,
    }
}

fn config(name: &str) -> OutputConfig {
    OutputConfig::new(OutputMatch::by_name(name))
}

fn plan(slices: Vec<SliceSpec>) -> CanvasPlan {
    CanvasPlan {
        canvas_width: 3680,
        canvas_height: 1080,
        sway_positions: vec![("DP-1".into(), 0, 0), ("DP-2".into(), 1920, 0)],
        slices,
    }
}

fn slice(output: &str) -> SliceSpec {
    SliceSpec {
        output: output.into(),
        source: Rect { x: 0, y: 0, width: 1920, height: 1080 },
        source_rect: None,
        geometry: None,
        ramps: vec![],
    }
}

#[test]
fn an_absent_projector_keeps_its_place_in_the_canvas() {
    let observed = [output("DP-1", 0)];
    let mut absent = config("DP-2");
    absent.mode = Some(mode(1920, 1200, 60_000));
    absent.position = Some(Position { x: 1760, y: 0 });
    let mut disabled = config("DP-1");
    disabled.enable = false;
    let unplaced = config("DP-3");
    let parts = plan_canvas(&[config("DP-1"), absent, disabled, unplaced], &observed);
    assert_eq!(parts.len(), 2);
    assert_eq!(parts[0].name, "DP-1");
    assert!(parts[0].connected);
    assert_eq!(parts[0].rect, Rect { x: 0, y: 0, width: 1920, height: 1080 });
    assert_eq!(parts[1].name, "DP-2");
    assert!(!parts[1].connected);
    assert_eq!(parts[1].rect, Rect { x: 1760, y: 0, width: 1920, height: 1200 });
}

#[test]
fn overlapping_places_are_told_edge_to_edge() {
    let observed = [output("DP-1", 0), output("DP-2", 1760)];
    let mut second = config("DP-2");
    second.position = Some(Position { x: 1760, y: 0 });
    let configs = [config("DP-1"), second, config("DP-9")];
    let told = outputs_for_sway(&configs, &observed, Some(&plan(vec![])));
    assert_eq!(told[0].position, Some(Position { x: 0, y: 0 }));
    assert_eq!(told[1].position, Some(Position { x: 1920, y: 0 }));
    assert_eq!(told[2].position, None);
    assert_eq!(outputs_for_sway(&configs, &observed, None), configs);
}

#[test]
fn the_canvas_is_created_set_up_left_alone_and_retired() {
    let walls = [output("DP-1", 0)];
    assert!(find_headless(&walls).is_none());
    assert_eq!(headless_unavailable().kind, "headless_unavailable");

    let mut canvas = output("HEADLESS-1", 0);
    canvas.rect = Rect { x: 0, y: 20000, width: 3680, height: 1080 };
    canvas.current_mode = Some(mode(3680, 1080, 59_950));
    assert!(!canvas_needs_setup(&canvas, 3680, 1080, Some(59_951)));
    assert!(!canvas_needs_setup(&canvas, 3680, 1080, None));
    assert!(canvas_needs_setup(&canvas, 3680, 1080, Some(60_000)));
    assert!(canvas_needs_setup(&canvas, 3680, 1200, None));
    let mut parked = canvas.clone();
    parked.rect.y = 0;
    assert!(canvas_needs_setup(&parked, 3680, 1080, None));
    let mut off = canvas.clone();
    off.active = false;
    assert!(canvas_needs_setup(&off, 3680, 1080, None));
    let mut unknown = canvas.clone();
    unknown.current_mode = None;
    assert!(canvas_needs_setup(&unknown, 3680, 1080, Some(60_000)));
    assert!(!canvas_needs_setup(&unknown, 3680, 1080, None));

    assert_eq!(
        canvas_commands("HEADLESS-1", 3680, 1080, Some(59_950)),
        vec![
            "output HEADLESS-1 enable",
            "output HEADLESS-1 mode --custom 3680x1080@59.95Hz",
            "output HEADLESS-1 scale 1",
            "output HEADLESS-1 pos 0 20000",
        ]
    );
    assert_eq!(
        canvas_commands("HEADLESS-1", 3680, 1080, None)[1],
        "output HEADLESS-1 mode --custom 3680x1080"
    );

    let both = [output("DP-1", 0), canvas];
    assert_eq!(find_headless(&both).unwrap().name, "HEADLESS-1");
}

#[test]
fn a_canvas_is_made_set_up_and_cut_in_three_actions() {
    let mut desired = DesiredState::new();
    desired.active_app = Some("kiosk".to_string());
    let cut = plan(vec![slice("DP-1")]);
    let walls = [output("DP-1", 0)];
    let start = CanvasProgress::Start;
    let create = start.next(&desired, Some(&cut), &walls, Some(60_000));
    assert!(matches!(&create, CanvasAction::Create(command) if command == "create_output"));
    let created = start.after(&create);

    let refused = created.next(&desired, Some(&cut), &walls, Some(60_000));
    assert!(matches!(&refused, CanvasAction::NoCanvas(said) if said.kind == "headless_unavailable"));
    assert_eq!(created.clone().after(&refused), created);

    let mut canvas = output("HEADLESS-1", 0);
    canvas.active = false;
    let both = [output("DP-1", 0), canvas];
    let set_up = created.next(&desired, Some(&cut), &both, Some(60_000));
    match &set_up {
        CanvasAction::SetUp { canvas, commands } => {
            assert_eq!(canvas, "HEADLESS-1");
            assert_eq!(commands, &canvas_commands("HEADLESS-1", 3680, 1080, Some(60_000)));
        }
        other => panic!("{other:?}"),
    }
    let done = created.after(&set_up);
    match done.next(&desired, Some(&cut), &walls, None) {
        CanvasAction::Cut { canvas, slicer } => {
            assert_eq!(canvas, "HEADLESS-1");
            assert_eq!(slicer.unwrap().source, "HEADLESS-1");
        }
        other => panic!("{other:?}"),
    }
}

#[test]
fn a_canvas_that_is_left_over_is_retired_once() {
    let mut desired = DesiredState::new();
    let both = [output("DP-1", 0), output("HEADLESS-2", 0)];
    let start = CanvasProgress::Start;
    let retire = start.next(&desired, None, &both, None);
    assert!(matches!(&retire, CanvasAction::Retire(command) if command == "output HEADLESS-2 unplug"));
    let retired = start.after(&retire);
    assert!(matches!(
        retired.next(&desired, None, &both, None),
        CanvasAction::Overlay { patterns: false }
    ));
    desired.projection = Some(ProjectionConfig::default());
    assert!(matches!(
        CanvasProgress::Start.next(&desired, None, &[output("DP-1", 0)], None),
        CanvasAction::Overlay { patterns: true }
    ));
}

#[test]
fn the_canvas_rate_comes_from_its_outputs() {
    let mut second = output("DP-2", 1920);
    second.current_mode = None;
    assert_eq!(participant_rates(&plan(vec![]), &[output("DP-1", 0), second]), vec![60_000]);
}

#[test]
fn nothing_is_cut_while_there_is_nothing_to_show() {
    let mut desired = DesiredState::new();
    let cut = plan(vec![slice("DP-1")]);
    assert!(slicer_spec(&desired, &cut, "HEADLESS-1").is_none());
    desired.active_app = Some("kiosk".to_string());
    let spec = slicer_spec(&desired, &cut, "HEADLESS-1").unwrap();
    assert_eq!(spec.source, "HEADLESS-1");
    assert_eq!((spec.canvas_width, spec.canvas_height), (3680, 1080));
    assert_eq!(spec.gamma, Real { bits: 2.2f64.to_bits() });
    assert_eq!(spec.slices, cut.slices);
    assert!(slicer_spec(&desired, &plan(vec![]), "HEADLESS-1").is_none());
    desired.active_app = None;
    desired.projection = Some(ProjectionConfig {
        test_pattern: Some(TestPattern::Grid),
        ..ProjectionConfig::default()
    });
    let spec = slicer_spec(&desired, &cut, "HEADLESS-1").unwrap();
    assert_eq!(spec.pattern, Some(TestPattern::Grid));
}

#[test]
fn patterns_without_a_canvas_cover_real_outputs_only() {
    let mut off = output("DP-3", 0);
    off.active = false;
    let observed = [output("DP-1", 0), output("NOOP-1", 0), off];
    let parts = overlay_participants(&observed, &[false, true, false]);
    assert_eq!(parts.len(), 1);
    assert_eq!(parts[0].name, "DP-1");
    assert!(parts[0].connected);
}

fn app(id: &str, audio: Option<AudioConfig>) -> AppConfig {
    AppConfig {
        id: id.into(),
        enabled: true,
        output: None,
        fullscreen: false,
        span_outputs: false,
        audio,
    }
}

fn sound(output: Option<&str>) -> Option<AudioConfig> {
    Some(AudioConfig { output: output.map(str::to_string), gain_db: Real { bits: 0 } })
}

fn sink(id: &str) -> Sink {
    Sink { id: id.into(), gain_db: None }
}

#[test]
fn exactly_the_active_app_runs_over_the_whole_canvas() {
    let mut desired = DesiredState::new();
    desired.apps = vec![app("a", None), app("b", None)];
    desired.active_app = Some("b".to_string());
    let apps = effective_apps(&desired, Some("HEADLESS-1"));
    assert!(!apps[0].enabled && apps[1].enabled);
    assert!(apps.iter().all(|app| app.fullscreen && !app.span_outputs));
    assert_eq!(apps[1].output, Some(OutputMatch::by_name("HEADLESS-1")));
    let apps = effective_apps(&desired, None);
    assert!(apps.iter().all(|app| app.fullscreen && app.span_outputs && app.output.is_none()));
    desired.active_app = None;
    assert!(effective_apps(&desired, None).iter().all(|app| !app.enabled));
}

#[test]
fn a_silent_app_needs_a_sink_that_discards() {
    assert!(needs_null_sink(&[app("a", sound(None))]));
    assert!(!needs_null_sink(&[app("a", sound(Some("hdmi"))), app("b", None)]));
    let mut idle = app("a", sound(None));
    idle.enabled = false;
    assert!(!needs_null_sink(&[idle]));
}

#[test]
fn each_sink_is_set_once_and_a_failure_may_be_tried_again() {
    let apps = [
        app("a", sound(Some("hdmi"))),
        app("b", sound(Some("hdmi"))),
        app("c", sound(Some("usb"))),
        app("d", sound(None)),
        app("e", sound(Some("gone"))),
    ];
    let sinks = [sink("hdmi"), sink("usb")];
    let settled = [false, false, true, false, false];
    let mut round = GainRound::new();
    assert_eq!(round.next(&apps, &sinks, &settled), Some(0));
    round.set(&apps[0]);
    assert_eq!(round.next(&apps, &sinks, &settled), None);
    assert_eq!(round.applied, vec!["hdmi".to_string(), "usb".to_string()]);

    let mut round = GainRound::new();
    assert_eq!(round.next(&apps, &sinks, &settled), Some(0));
    assert_eq!(round.next(&apps, &sinks, &settled), Some(1));
    round.set(&apps[1]);
    assert_eq!(round.next(&apps, &sinks, &settled), None);

    let said = gain_failed("hdmi", "-3", "busy");
    assert_eq!(said.kind, "audio_gain_not_applied");
    assert_eq!(said.detail, "could not set hdmi to -3 dB: busy");
}

#[test]
fn a_missing_sink_is_reported_once_sinks_are_known() {
    let apps = [app("a", sound(Some("hdmi"))), app("b", sound(Some("gone")))];
    assert!(audio_divergences(&apps, &[]).is_empty());
    let said = audio_divergences(&apps, &[sink("hdmi")]);
    assert_eq!(said.len(), 1);
    assert_eq!(said[0].kind, "audio_sink_not_present");
    assert_eq!(said[0].subject, "b");
    assert_eq!(said[0].detail, "b requests audio sink gone, which is not present");
}

fn adopted(display: &str) -> AdoptedOutput {
    AdoptedOutput {
        mode: Some(mode(1920, 1200, 59_950)),
        scale: None,
        transform: None,
        display: Some(display.into()),
    }
}

#[test]
fn what_an_output_settled_on_is_kept_for_it_alone() {
    let observed = [output("DP-1", 0), output("DP-2", 0)];
    let mut configs = vec![config("DP-9"), config("DP-2")];
    let failed = Divergence::new("command_failed", "output DP-2 enable", "no".to_string());
    assert_eq!(
        candidates(&configs, &observed, &[failed], false),
        vec![Candidate { config: 1, output: 1, diverged: true }]
    );
    assert_eq!(
        candidates(&configs, &observed, &[], false),
        vec![Candidate { config: 1, output: 1, diverged: false }]
    );
    assert!(candidates(&configs, &observed, &[], true).is_empty());

    let pin = Pin { rule: OutputMatch::by_name("DP-2"), adopted: adopted("one") };
    assert_eq!(adoption_event(&configs, &pin), AdoptionEvent::First);
    apply_pins(&mut configs, &[pin]);
    assert_eq!(configs[0].adopted, None);
    assert_eq!(configs[1].adopted, Some(adopted("one")));
    let same = Pin { rule: OutputMatch::by_name("DP-2"), adopted: adopted("one") };
    assert_eq!(adoption_event(&configs, &same), AdoptionEvent::FieldFreed);
    let other = Pin { rule: OutputMatch::by_name("DP-2"), adopted: adopted("two") };
    assert_eq!(adoption_event(&configs, &other), AdoptionEvent::DisplayChanged);
    assert_eq!(AdoptionEvent::DisplayChanged.as_text(), "re-adopt: display changed");
    assert_eq!(AdoptionEvent::First.as_text(), "first pin");
    assert_eq!(AdoptionEvent::FieldFreed.as_text(), "adopted a field the operator freed");
}

#[test]
fn every_output_is_remembered_as_it_was_seen_last() {
    let mut history = NameMap::new();
    remember(&mut history, &[output("DP-1", 0), output("DP-2", 5)]);
    remember(&mut history, &[output("DP-1", 7)]);
    assert_eq!(history.get("DP-1").unwrap().rect.x, 7);
    assert_eq!(history.get("DP-2").unwrap().rect.x, 5);
}

#[test]
fn failed_commands_are_divergences() {
    let commands = ["output A enable".to_string(), "output B enable".to_string()];
    let said = command_failures(&commands, &[None, Some("refused".to_string())]);
    assert_eq!(said.len(), 1);
    assert_eq!(said[0].kind, "command_failed");
    assert_eq!(said[0].subject, "output B enable");
    assert_eq!(said[0].detail, "refused");
    assert!(command_failures(&commands, &[None]).is_empty());
}

fn facts() -> PassFacts {
    PassFacts {
        commands: 0,
        topology_changed: false,
        silent_app: false,
        hide_cursor: false,
        connected: true,
    }
}

fn stages(facts: PassFacts) -> Vec<Stage> {
    let mut stages = vec![Stage::LookAtOutputs];
    while *stages.last().unwrap() != Stage::Done {
        let next = stages.last().unwrap().next(&facts);
        stages.push(next);
    }
    stages
}

#[test]
fn a_pass_does_what_is_asked_for_and_always_reports() {
    assert_eq!(
        stages(facts()),
        vec![
            Stage::LookAtOutputs,
            Stage::CommandOutputs,
            Stage::Projection,
            Stage::Apps,
            Stage::Levels,
            Stage::Windows,
            Stage::Adoption,
            Stage::Report,
            Stage::Done,
        ]
    );
    let moved = stages(PassFacts { commands: 2, ..facts() });
    assert!(moved.contains(&Stage::LookAgain) && !moved.contains(&Stage::Settle));
    let switched = stages(PassFacts { commands: 1, topology_changed: true, ..facts() });
    assert!(switched.contains(&Stage::Settle) && switched.contains(&Stage::LookAgain));
    let blind = stages(PassFacts { connected: false, ..facts() });
    assert!(!blind.contains(&Stage::Adoption) && blind.contains(&Stage::Report));
    let full = stages(PassFacts { silent_app: true, hide_cursor: true, ..facts() });
    assert!(full.contains(&Stage::NullSink) && full.contains(&Stage::Cursor));
}

#[test]
fn divergences_link_to_their_documentation() {
    let said = vec![
        Divergence::new("a", "x", "d".to_string()),
        Divergence::new("b", "y", "e".to_string()),
    ];
    let linked = link_divergences(
        said,
        "https://suede.gameshow.pro//",
        &[Some("docs/a.html".to_string()), None],
    );
    assert_eq!(
        linked[0].docs_url,
        Some("https://suede.gameshow.pro/docs/a.html".to_string())
    );
    assert_eq!(linked[1].docs_url, None);
    assert_eq!(linked[1].detail, "e");
}

#[test]
fn a_pass_is_in_order_only_if_nothing_is_to_be_said() {
    let info = PassInfo { revision: 3, preview: false, current_revision: 4 };
    let status = conclude(note_reachability(vec![], true), 99, info);
    assert_eq!(status.state, SyncState::Synced);
    assert_eq!(status.last_reconciled, Some(99));
    assert_eq!((status.revision, status.current_revision), (3, 4));
    assert!(status.committed);
    let blind = conclude(note_reachability(vec![], false), 100, info);
    assert_eq!(blind.state, SyncState::Degraded);
    assert_eq!(blind.divergences[0].kind, "sway_unreachable");
    let next = begin_pass(blind, PassInfo { revision: 5, preview: true, current_revision: 5 });
    assert_eq!(next.state, SyncState::Reconciling);
    assert_eq!(next.divergences.len(), 1);
    assert_eq!(next.last_reconciled, Some(100));
    assert!(!next.committed);
    let Status { revision, .. } = next;
    assert_eq!(revision, 5);
}

#[test]
fn windows_belong_to_the_app_that_owns_them() {
    let apps = [
        AppWindows { id: "a".into(), window_ids: vec![1, 2] },
        AppWindows { id: "b".into(), window_ids: vec![2, 3] },
    ];
    assert_eq!(window_owner(&apps, 1), Some("a".to_string()));
    assert_eq!(window_owner(&apps, 2), Some("b".to_string()));
    assert_eq!(window_owner(&apps, 9), None);
}

#[test]
fn the_pointer_is_parked_once_per_layout() {
    let mut parking = Parking { parked_at: None };
    let commands = parking.commands(1080).unwrap();
    assert_eq!(commands[1], "seat seat0 cursor set 0 1104");
    parking.ran(1080, false);
    assert!(parking.commands(1080).is_some());
    parking.ran(1080, true);
    assert!(parking.commands(1080).is_none());
    assert!(parking.commands(2160).is_some());
}

#[test]
fn reports_of_the_compositor_ask_for_passes() {
    let window = |change: &str| CompositorEvent::Window { change: change.to_string() };
    assert_eq!(pass_reason(&CompositorEvent::OutputsMayHaveChanged), Some("output event"));
    assert_eq!(pass_reason(&window("new")), Some("window event"));
    assert_eq!(pass_reason(&window("close")), Some("window event"));
    assert_eq!(pass_reason(&window("focus")), None);
    assert_eq!(pass_reason(&CompositorEvent::Shutdown), None);
    assert_eq!(pass_reason(&CompositorEvent::Lagged), Some("event lag"));
    assert_eq!(poll_seconds(0), 1);
    assert_eq!(poll_seconds(30), 30);
}

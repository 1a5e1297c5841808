//! What the compositor is told of its outputs and its windows.
use suede::config::{AppConfig, OutputConfig};
use suede::model::{
    Background, BackgroundMode, BackgroundPreset, BackgroundRef, Mode, Output, OutputMatch,
    Position, Real, Rect, Scale, Transform,
};
use suede::names::NameMap;
use suede::reconciler::plan::{
    cursor_commands, desired_fullscreen_mode, placement_commands, plan_outputs, plan_outputs_with,
    resolve_app_targets, AppliedOutput, Capabilities,
};

fn number(value: f64) -> Real {
    Real { bits: value.to_bits() }
}

fn scale(value: f64, text: &str) -> Scale {
    Scale { value: number(value), text: text.to_string() }
}

fn differs(a: Real, b: Real) -> bool {
    (f64::from_bits(a.bits) - f64::from_bits(b.bits)).abs() > 1e-6
}

fn output(name: &str, active: bool) -> Output {
    Output {
        name: name.into(),
        active,
        make: None,
        model: None,
        serial: None,
        current_mode: if active {
            Some(Mode {
                width: 1920,
                height: 1080,
                refresh_mhz: 60_000,
            })
        } else {
            None
        },
        modes: if active {
            vec![
                Mode {
                    width: 1920,
                    height: 1080,
                    refresh_mhz: 60_000,
                },
                Mode {
                    width: 1280,
                    height: 720,
                    refresh_mhz: 60_000,
                },
            ]
        } else {
            vec![]
        },
        rect: if active {
            Rect {
                x: 0,
                y: 0,
                width: 1920,
                height: 1080,
            }
        } else {
            Rect::default()
        },
        scale: Some(number(1.0)),
        transform: Some("normal".into()),
        adaptive_sync_status: Some("disabled".into()),
    }
}

fn config(name: &str) -> OutputConfig {
    OutputConfig::new(OutputMatch::by_name(name))
}

fn tearing_capable() -> Capabilities {
    Capabilities {
        supports_tearing: true,
    }
}

fn app(id: &str, output: Option<&str>) -> AppConfig {
    AppConfig {
        id: id.into(),
        enabled: true,
        output: output.map(OutputMatch::by_name),
        fullscreen: true,
        span_outputs: false,
        audio: None,
    }
}

#[test]
fn already_correct_output_needs_no_commands() {
    let observed = vec![output("HDMI-A-1", true)];
    let mut desired = config("HDMI-A-1");
    desired.mode = Some(Mode {
        width: 1920,
        height: 1080,
        refresh_mhz: 60_000,
    });
    desired.position = Some(Position { x: 0, y: 0 });
    desired.scale = Some(scale(1.0, "1"));
    desired.transform = Some(Transform::Normal);
    let mut applied = NameMap::new();
    applied.insert(
        "HDMI-A-1".to_string(),
        AppliedOutput {
            background: None,
            config: desired.clone(),
            workspace: 1,
        },
    );

    let plan = plan_outputs(&observed, &[desired], &applied, tearing_capable(), differs);
    assert!(
        plan.commands.is_empty(),
        "expected no commands, got {:?}",
        plan.commands
    );
    assert!(plan.divergences.is_empty());
    assert!(!plan.topology_changed);
}

#[test]
fn cold_boot_configures_everything_in_order() {
    let observed = vec![output("HDMI-A-1", false)];
    let mut desired = config("HDMI-A-1");
    desired.mode = Some(Mode {
        width: 1920,
        height: 1080,
        refresh_mhz: 60_000,
    });
    desired.position = Some(Position { x: 0, y: 0 });

    let plan = plan_outputs(&observed, &[desired], &NameMap::new(), tearing_capable(), differs);
    assert_eq!(
        plan.commands,
        vec![
            "output HDMI-A-1 enable",
            "output HDMI-A-1 mode 1920x1080@60Hz",
            "output HDMI-A-1 pos 0 0",
            "output HDMI-A-1 adaptive_sync off",
            "output HDMI-A-1 allow_tearing no",
            "output HDMI-A-1 max_render_time off",
            "workspace 1 output HDMI-A-1",
        ]
    );
    assert!(plan.topology_changed);
    assert_eq!(plan.workspaces.get("HDMI-A-1"), Some(&1));
}

#[test]
fn only_the_changed_field_is_issued() {
    let observed = vec![output("HDMI-A-1", true)];
    let mut desired = config("HDMI-A-1");
    desired.mode = Some(Mode {
        width: 1280,
        height: 720,
        refresh_mhz: 60_000,
    });
    let mut applied = NameMap::new();
    applied.insert(
        "HDMI-A-1".to_string(),
        AppliedOutput {
            background: None,
            config: desired.clone(),
            workspace: 1,
        },
    );

    let plan = plan_outputs(&observed, &[desired], &applied, tearing_capable(), differs);
    assert_eq!(plan.commands, vec!["output HDMI-A-1 mode 1280x720@60Hz"]);
    assert!(!plan.topology_changed);
}

#[test]
fn missing_output_is_a_divergence_not_an_error() {
    let observed = vec![output("HDMI-A-1", true)];
    let plan = plan_outputs(
        &observed,
        &[config("HDMI-A-2")],
        &NameMap::new(),
        tearing_capable(),
        differs,
    );
    assert!(plan.commands.is_empty());
    assert_eq!(plan.divergences.len(), 1);
    assert_eq!(plan.divergences[0].kind, "output_not_connected");
    assert_eq!(plan.divergences[0].subject, "HDMI-A-2");
}

#[test]
fn a_near_refresh_rate_is_applied_as_advertised() {
    let mut display = output("HDMI-A-1", true);
    display.modes = vec![Mode {
        width: 2560,
        height: 1440,
        refresh_mhz: 59_951,
    }];
    let mut desired = config("HDMI-A-1");
    desired.mode = Some(Mode {
        width: 2560,
        height: 1440,
        refresh_mhz: 60_000,
    });

    let plan = plan_outputs(
        std::slice::from_ref(&display),
        std::slice::from_ref(&desired),
        &NameMap::new(),
        tearing_capable(),
        differs,
    );
    assert!(
        plan.commands
            .contains(&"output HDMI-A-1 mode 2560x1440@59.951Hz".to_string()),
        "expected the advertised rate, got {:?}",
        plan.commands
    );
    assert!(plan.divergences.is_empty());
    display.current_mode = Some(Mode {
        width: 2560,
        height: 1440,
        refresh_mhz: 59_951,
    });
    let second = plan_outputs(&[display], &[desired], &plan.applied, tearing_capable(), differs);
    assert!(
        !second.commands.iter().any(|c| c.contains("mode")),
        "second pass re-issued the mode: {:?}",
        second.commands
    );
}

#[test]
fn unsupported_mode_is_reported_and_not_attempted() {
    let observed = vec![output("HDMI-A-1", true)];
    let mut desired = config("HDMI-A-1");
    desired.mode = Some(Mode {
        width: 5120,
        height: 2880,
        refresh_mhz: 60_000,
    });
    let plan = plan_outputs(&observed, &[desired], &NameMap::new(), tearing_capable(), differs);
    assert!(!plan.commands.iter().any(|c| c.contains("mode")));
    assert!(plan
        .divergences
        .iter()
        .any(|d| d.kind == "mode_unsupported"));
}

#[test]
fn disable_is_issued_only_when_the_output_is_active() {
    let mut desired = config("HDMI-A-1");
    desired.enable = false;

    let active = vec![output("HDMI-A-1", true)];
    let plan = plan_outputs(
        &active,
        &[desired.clone()],
        &NameMap::new(),
        tearing_capable(),
        differs,
    );
    assert_eq!(plan.commands, vec!["output HDMI-A-1 disable"]);
    assert!(plan.topology_changed);

    let inactive = vec![output("HDMI-A-1", false)];
    let plan = plan_outputs(&inactive, &[desired], &NameMap::new(), tearing_capable(), differs);
    assert!(plan.commands.is_empty());
    assert!(!plan.topology_changed);
}

#[test]
fn connected_output_without_a_desired_entry_is_untouched() {
    let observed = vec![output("HDMI-A-1", true), output("HDMI-A-2", true)];
    let plan = plan_outputs(
        &observed,
        &[config("HDMI-A-1")],
        &NameMap::new(),
        tearing_capable(),
        differs,
    );
    assert!(!plan.commands.iter().any(|c| c.contains("HDMI-A-2")));
    assert!(plan.divergences.is_empty());
}

#[test]
fn tearing_uses_the_subcommand_sway_accepts() {
    let observed = vec![output("HDMI-A-1", true)];
    let mut desired = config("HDMI-A-1");
    desired.allow_tearing = true;

    let plan = plan_outputs(&observed, &[desired], &NameMap::new(), tearing_capable(), differs);
    assert!(plan
        .commands
        .contains(&"output HDMI-A-1 allow_tearing yes".to_string()));
    assert!(
        !plan.commands.iter().any(|c| c.contains(" tearing ")),
        "must not emit the rejected spelling: {:?}",
        plan.commands
    );
}

#[test]
fn an_unmanaged_output_has_every_setting_applied_once() {
    let observed = vec![output("HDMI-A-1", true)];
    let mut desired = config("HDMI-A-1");
    desired.mode = Some(Mode {
        width: 1920,
        height: 1080,
        refresh_mhz: 60_000,
    });
    desired.position = Some(Position { x: 0, y: 0 });
    desired.scale = Some(scale(1.0, "1"));
    desired.transform = Some(Transform::Normal);

    let plan = plan_outputs(&observed, &[desired], &NameMap::new(), tearing_capable(), differs);
    assert!(
        plan.commands
            .contains(&"output HDMI-A-1 pos 0 0".to_string()),
        "position must be pinned on the first pass: {:?}",
        plan.commands
    );
    assert!(plan.commands.iter().any(|c| c.contains("mode")));
    assert!(plan.commands.iter().any(|c| c.contains("scale")));
    assert!(plan.commands.iter().any(|c| c.contains("transform")));
}

#[test]
fn a_managed_output_returns_to_minimal_diffs() {
    let observed = vec![output("HDMI-A-1", true)];
    let mut desired = config("HDMI-A-1");
    desired.position = Some(Position { x: 0, y: 0 });

    let first = plan_outputs(
        &observed,
        std::slice::from_ref(&desired),
        &NameMap::new(),
        tearing_capable(),
        differs,
    );
    assert!(!first.commands.is_empty());

    let second = plan_outputs(&observed, &[desired], &first.applied, tearing_capable(), differs);
    assert!(
        second.commands.is_empty(),
        "second pass should be a no-op, got {:?}",
        second.commands
    );
}

#[test]
fn tearing_is_skipped_and_reported_on_older_sway() {
    let observed = vec![output("HDMI-A-1", true)];
    let mut desired = config("HDMI-A-1");
    desired.allow_tearing = true;

    let plan = plan_outputs(
        &observed,
        &[desired],
        &NameMap::new(),
        Capabilities {
            supports_tearing: false,
        },
        differs,
    );
    assert!(!plan.commands.iter().any(|c| c.contains("tearing")));
    assert!(plan
        .divergences
        .iter()
        .any(|d| d.kind == "tearing_unsupported"));
}

#[test]
fn re_enabling_reapplies_every_setting() {
    let observed = vec![output("HDMI-A-1", false)];
    let mut desired = config("HDMI-A-1");
    desired.mode = Some(Mode {
        width: 1920,
        height: 1080,
        refresh_mhz: 60_000,
    });
    desired.position = Some(Position { x: 0, y: 0 });
    let mut applied = NameMap::new();
    applied.insert(
        "HDMI-A-1".to_string(),
        AppliedOutput {
            background: None,
            config: desired.clone(),
            workspace: 1,
        },
    );

    let plan = plan_outputs(&observed, &[desired], &applied, tearing_capable(), differs);
    assert!(plan.commands.iter().any(|c| c.ends_with("enable")));
    assert!(plan.commands.iter().any(|c| c.contains("mode")));
    assert!(plan.commands.iter().any(|c| c.contains("pos")));
    assert!(plan.commands.iter().any(|c| c.contains("max_render_time")));
}

#[test]
fn workspaces_follow_declaration_order() {
    let observed = vec![output("HDMI-A-1", true), output("HDMI-A-2", true)];
    let plan = plan_outputs(
        &observed,
        &[config("HDMI-A-2"), config("HDMI-A-1")],
        &NameMap::new(),
        tearing_capable(),
        differs,
    );
    assert_eq!(plan.workspaces.get("HDMI-A-2"), Some(&1));
    assert_eq!(plan.workspaces.get("HDMI-A-1"), Some(&2));
}

#[test]
fn max_render_time_is_formatted_as_off_or_milliseconds() {
    let observed = vec![output("HDMI-A-1", true)];
    let mut desired = config("HDMI-A-1");
    desired.max_render_time_ms = Some(9);
    let plan = plan_outputs(&observed, &[desired], &NameMap::new(), tearing_capable(), differs);
    assert!(plan
        .commands
        .contains(&"output HDMI-A-1 max_render_time 9".to_string()));
}

#[test]
fn app_without_an_output_is_runnable() {
    let targets = resolve_app_targets(&[app("a", None)], &[], &NameMap::new());
    assert!(targets[0].runnable());
    assert_eq!(targets[0].workspace, None);
}

#[test]
fn app_resolves_to_its_pinned_output() {
    let observed = vec![output("HDMI-A-1", true)];
    let mut workspaces = NameMap::new();
    workspaces.insert("HDMI-A-1".to_string(), 1);
    let targets = resolve_app_targets(&[app("a", Some("HDMI-A-1"))], &observed, &workspaces);
    assert!(targets[0].runnable());
    assert_eq!(targets[0].output.as_deref(), Some("HDMI-A-1"));
    assert_eq!(targets[0].workspace, Some(1));
}

#[test]
fn app_is_blocked_when_its_output_is_absent() {
    let targets = resolve_app_targets(&[app("a", Some("HDMI-A-9"))], &[], &NameMap::new());
    assert!(!targets[0].runnable());
    assert_eq!(
        targets[0].blocked.as_ref().unwrap().kind,
        "app_waiting_for_output"
    );
}

#[test]
fn app_is_blocked_when_its_output_is_connected_but_disabled() {
    let observed = vec![output("HDMI-A-1", true)];
    let targets =
        resolve_app_targets(&[app("a", Some("HDMI-A-1"))], &observed, &NameMap::new());
    assert!(!targets[0].runnable());
    assert_eq!(
        targets[0].blocked.as_ref().unwrap().kind,
        "app_output_disabled"
    );
}

#[test]
fn disabled_apps_are_not_targets() {
    let mut disabled = app("a", None);
    disabled.enabled = false;
    assert!(resolve_app_targets(&[disabled], &[], &NameMap::new()).is_empty());
}

#[test]
fn placement_uses_per_output_fullscreen() {
    let commands = placement_commands(42, Some(3), true, false);
    assert_eq!(
        commands,
        vec![
            "[con_id=42] move container to workspace number 3",
            "[con_id=42] fullscreen enable",
        ]
    );
    assert!(!commands.iter().any(|c| c.contains("global")));
}

#[test]
fn placement_can_skip_fullscreen() {
    assert_eq!(placement_commands(42, Some(3), false, false).len(), 1);
}

#[test]
fn spanning_uses_global_fullscreen() {
    let commands = placement_commands(42, Some(1), true, true);
    assert_eq!(
        commands,
        vec![
            "[con_id=42] move container to workspace number 1",
            "[con_id=42] fullscreen enable global",
        ]
    );
}

#[test]
fn a_spanning_app_is_placed_even_with_no_pinned_output() {
    let commands = placement_commands(9, None, true, true);
    assert_eq!(commands, vec!["[con_id=9] fullscreen enable global"]);
    assert!(!commands.is_empty(), "spanning must still be applied");
}

#[test]
fn without_a_workspace_nothing_is_moved() {
    let commands = placement_commands(9, None, true, false);
    assert!(!commands.iter().any(|c| c.contains("move container")));
    assert_eq!(commands, vec!["[con_id=9] fullscreen enable"]);
}

#[test]
fn desired_modes_match_sways_numbering() {
    assert_eq!(desired_fullscreen_mode(true, true), 2);
    assert_eq!(desired_fullscreen_mode(true, false), 1);
    assert_eq!(desired_fullscreen_mode(false, false), 0);
    assert_eq!(desired_fullscreen_mode(false, true), 2);
}

#[test]
fn spanning_wins_over_per_output_fullscreen() {
    let commands = placement_commands(7, Some(2), false, true);
    assert!(commands
        .iter()
        .any(|c| c.ends_with("fullscreen enable global")));
    assert_eq!(
        commands.iter().filter(|c| c.contains("fullscreen")).count(),
        1
    );
}


fn with_background(name: &str, background: Background) -> OutputConfig {
    let mut config = config(name);
    config.background = Some(BackgroundRef::Inline(background));
    config
}

#[test]
fn a_colour_background_is_a_solid_colour() {
    let observed = vec![output("HDMI-A-1", true)];
    let desired = with_background(
        "HDMI-A-1",
        Background {
            wallpaper: None,
            color: Some("#101820".into()),
            mode: BackgroundMode::Fill,
        },
    );
    let plan = plan_outputs(&observed, &[desired], &NameMap::new(), tearing_capable(), differs);
    assert!(plan
        .commands
        .contains(&"output HDMI-A-1 bg #101820 solid_color".to_string()));
    assert!(plan.divergences.is_empty());
}

#[test]
fn a_wallpaper_background_names_the_file_and_mode() {
    let observed = vec![output("HDMI-A-1", true)];
    let desired = with_background(
        "HDMI-A-1",
        Background {
            wallpaper: Some("lobby".into()),
            color: None,
            mode: BackgroundMode::Fit,
        },
    );
    let plan = plan_outputs_with(
        &observed,
        &[desired],
        &[],
        &NameMap::new(),
        tearing_capable(),
        |id| Some(format!("/state/wallpapers/{id}.png")),
        differs,
    );
    assert!(plan
        .commands
        .contains(&"output HDMI-A-1 bg /state/wallpapers/lobby.png fit #000000".to_string()));
}

#[test]
fn an_unstated_colour_is_black_rather_than_nothing() {
    let observed = vec![output("HDMI-A-1", true)];
    let desired = with_background("HDMI-A-1", Background::default());
    let plan = plan_outputs(&observed, &[desired], &NameMap::new(), tearing_capable(), differs);
    assert!(
        plan.commands
            .contains(&"output HDMI-A-1 bg #000000 solid_color".to_string()),
        "an empty background should still paint the screen: {:?}",
        plan.commands
    );
}

fn preset(id: &str, background: Background) -> BackgroundPreset {
    BackgroundPreset {
        id: id.to_string(),
        background,
    }
}

fn referencing(name: &str, preset_id: &str) -> OutputConfig {
    let mut config = config(name);
    config.background = Some(BackgroundRef::Preset(preset_id.to_string()));
    config
}

#[test]
fn an_output_can_name_a_preset_instead_of_repeating_it() {
    let observed = vec![output("HDMI-A-1", true)];
    let presets = vec![preset(
        "lobby",
        Background {
            wallpaper: Some("art".into()),
            color: Some("#101820".into()),
            mode: BackgroundMode::Fit,
        },
    )];
    let plan = plan_outputs_with(
        &observed,
        &[referencing("HDMI-A-1", "lobby")],
        &presets,
        &NameMap::new(),
        tearing_capable(),
        |id| Some(format!("/w/{id}.png")),
        differs,
    );
    assert!(plan
        .commands
        .contains(&"output HDMI-A-1 bg /w/art.png fit #101820".to_string()));
    assert!(plan.divergences.is_empty());
}

#[test]
fn one_preset_paints_every_output_that_names_it() {
    let observed = vec![output("HDMI-A-1", true), output("HDMI-A-2", true)];
    let presets = vec![preset(
        "wall",
        Background {
            wallpaper: None,
            color: Some("#223344".into()),
            mode: BackgroundMode::Fill,
        },
    )];
    let plan = plan_outputs_with(
        &observed,
        &[
            referencing("HDMI-A-1", "wall"),
            referencing("HDMI-A-2", "wall"),
        ],
        &presets,
        &NameMap::new(),
        tearing_capable(),
        |_| None,
        differs,
    );
    for name in ["HDMI-A-1", "HDMI-A-2"] {
        assert!(
            plan.commands
                .contains(&format!("output {name} bg #223344 solid_color")),
            "{name} was not painted: {:?}",
            plan.commands
        );
    }
}

#[test]
fn editing_a_preset_repaints_the_outputs_using_it() {
    let observed = vec![output("HDMI-A-1", true)];
    let desired = vec![referencing("HDMI-A-1", "lobby")];
    let before = vec![preset(
        "lobby",
        Background {
            wallpaper: None,
            color: Some("#111111".into()),
            mode: BackgroundMode::Fill,
        },
    )];
    let first = plan_outputs_with(
        &observed,
        &desired,
        &before,
        &NameMap::new(),
        tearing_capable(),
        |_| None,
        differs,
    );

    let after = vec![preset(
        "lobby",
        Background {
            wallpaper: None,
            color: Some("#999999".into()),
            mode: BackgroundMode::Fill,
        },
    )];
    let second = plan_outputs_with(
        &observed,
        &desired,
        &after,
        &NameMap::new(),
        tearing_capable(),
        |_| None,
        differs,
    );
    assert!(first
        .commands
        .contains(&"output HDMI-A-1 bg #111111 solid_color".to_string()));
    assert!(
        second
            .commands
            .contains(&"output HDMI-A-1 bg #999999 solid_color".to_string()),
        "editing the preset must reach the screen: {:?}",
        second.commands
    );
}

#[test]
fn an_unchanged_preset_is_not_repainted_every_pass() {
    let observed = vec![output("HDMI-A-1", true)];
    let desired = vec![referencing("HDMI-A-1", "lobby")];
    let presets = vec![preset(
        "lobby",
        Background {
            wallpaper: None,
            color: Some("#111111".into()),
            mode: BackgroundMode::Fill,
        },
    )];
    let first = plan_outputs_with(
        &observed,
        &desired,
        &presets,
        &NameMap::new(),
        tearing_capable(),
        |_| None,
        differs,
    );
    let second = plan_outputs_with(
        &observed,
        &desired,
        &presets,
        &first.applied,
        tearing_capable(),
        |_| None,
        differs,
    );
    assert!(!second.commands.iter().any(|c| c.contains(" bg ")));
}

#[test]
fn a_preset_that_does_not_exist_is_a_divergence() {
    let observed = vec![output("HDMI-A-1", true)];
    let plan = plan_outputs_with(
        &observed,
        &[referencing("HDMI-A-1", "typo")],
        &[],
        &NameMap::new(),
        tearing_capable(),
        |_| None,
        differs,
    );
    assert!(!plan.commands.iter().any(|c| c.contains(" bg ")));
    let divergence = plan
        .divergences
        .iter()
        .find(|d| d.kind == "background_preset_not_found")
        .expect("the operator must be told which name is wrong");
    assert!(divergence.detail.contains("typo"));
}

#[test]
fn a_wallpaper_can_carry_a_fallback_colour() {
    let observed = vec![output("HDMI-A-1", true)];
    let desired = with_background(
        "HDMI-A-1",
        Background {
            wallpaper: Some("lobby".into()),
            color: Some("#000000".into()),
            mode: BackgroundMode::Fit,
        },
    );
    let plan = plan_outputs_with(
        &observed,
        &[desired],
        &[],
        &NameMap::new(),
        tearing_capable(),
        |_| Some("/w/lobby.png".to_string()),
        differs,
    );
    assert!(plan
        .commands
        .contains(&"output HDMI-A-1 bg /w/lobby.png fit #000000".to_string()));
}

#[test]
fn a_missing_wallpaper_is_a_divergence_not_a_broken_command() {
    let observed = vec![output("HDMI-A-1", true)];
    let desired = with_background(
        "HDMI-A-1",
        Background {
            wallpaper: Some("gone".into()),
            color: None,
            mode: BackgroundMode::Fill,
        },
    );
    let plan = plan_outputs_with(
        &observed,
        &[desired],
        &[],
        &NameMap::new(),
        tearing_capable(),
        |_| None,
        differs,
    );
    assert!(!plan.commands.iter().any(|c| c.contains(" bg ")));
    assert!(plan
        .divergences
        .iter()
        .any(|d| d.kind == "wallpaper_not_found"));
}

#[test]
fn an_unchanged_background_is_not_reapplied() {
    let observed = vec![output("HDMI-A-1", true)];
    let desired = with_background(
        "HDMI-A-1",
        Background {
            wallpaper: None,
            color: Some("#101820".into()),
            mode: BackgroundMode::Fill,
        },
    );
    let first = plan_outputs(
        &observed,
        std::slice::from_ref(&desired),
        &NameMap::new(),
        tearing_capable(),
        differs,
    );
    assert!(first.commands.iter().any(|c| c.contains(" bg ")));

    let second = plan_outputs(&observed, &[desired], &first.applied, tearing_capable(), differs);
    assert!(
        !second.commands.iter().any(|c| c.contains(" bg ")),
        "second pass re-applied the background: {:?}",
        second.commands
    );
}

#[test]
fn changing_the_background_reapplies_it() {
    let observed = vec![output("HDMI-A-1", true)];
    let before = with_background(
        "HDMI-A-1",
        Background {
            wallpaper: None,
            color: Some("#101820".into()),
            mode: BackgroundMode::Fill,
        },
    );
    let first = plan_outputs(&observed, &[before], &NameMap::new(), tearing_capable(), differs);

    let after = with_background(
        "HDMI-A-1",
        Background {
            wallpaper: None,
            color: Some("#204060".into()),
            mode: BackgroundMode::Fill,
        },
    );
    let second = plan_outputs(&observed, &[after], &first.applied, tearing_capable(), differs);
    assert!(second
        .commands
        .contains(&"output HDMI-A-1 bg #204060 solid_color".to_string()));
}

#[test]
fn cursor_is_hidden_and_parked_below_the_layout() {
    let commands = cursor_commands(1080);
    assert_eq!(commands[0], "seat seat0 hide_cursor 1000");
    assert_eq!(commands[1], "seat seat0 cursor set 0 1104");
}

#[test]
fn a_name_that_is_no_preset_is_quoted() {
    let observed = vec![output("HDMI-A-1", true)];
    let plan = plan_outputs_with(
        &observed,
        &[referencing("HDMI-A-1", "a \"b\"")],
        &[],
        &NameMap::new(),
        tearing_capable(),
        |_| None,
        differs,
    );
    assert!(plan.divergences[0].detail.contains("\"a \\\"b\\\"\""));
}

#[test]
fn a_scale_is_spelled_as_it_was_given() {
    let observed = vec![output("HDMI-A-1", true)];
    let mut desired = config("HDMI-A-1");
    desired.scale = Some(scale(1.25, "1.25"));
    desired.transform = Some(Transform::Rotate90);
    let plan = plan_outputs(&observed, &[desired], &NameMap::new(), tearing_capable(), differs);
    assert!(plan.commands.contains(&"output HDMI-A-1 scale 1.25".to_string()));
    assert!(plan.commands.contains(&"output HDMI-A-1 transform 90".to_string()));
}

#[test]
fn names_map_to_their_newest_value() {
    let mut map = NameMap::new();
    map.insert("a".to_string(), 1);
    map.insert("b".to_string(), 2);
    map.insert("a".to_string(), 3);
    assert_eq!(map.get("a"), Some(&3));
    assert_eq!(map.get("b"), Some(&2));
    assert!(!map.contains_key("c"));
}

#[test]
fn a_second_pass_keeps_records_and_workspaces() {
    let observed = vec![output("HDMI-A-1", true), output("HDMI-A-2", true)];
    let desired = [config("HDMI-A-2"), config("HDMI-A-1")];
    let first =
        plan_outputs(&observed, &desired, &NameMap::new(), tearing_capable(), differs);
    let second =
        plan_outputs(&observed, &desired, &first.applied, tearing_capable(), differs);
    assert!(second.commands.is_empty() && !second.topology_changed);
    for name in ["HDMI-A-1", "HDMI-A-2"] {
        assert_eq!(second.workspaces.get(name), first.workspaces.get(name));
        assert_eq!(second.applied.get(name), first.applied.get(name));
        assert!(second.applied.get(name).is_some());
    }
}

#[test]
fn a_stale_record_changes_nothing_while_outputs_are_switched_on() {
    let observed = vec![output("HDMI-A-1", false)];
    let mut desired = config("HDMI-A-1");
    desired.position = Some(Position { x: 0, y: 0 });
    desired.max_render_time_ms = Some(4);
    let mut applied = NameMap::new();
    applied.insert(
        "HDMI-A-1".to_string(),
        AppliedOutput { background: None, config: desired.clone(), workspace: 1 },
    );
    let desired = [desired];
    let fresh = plan_outputs(&observed, &desired, &NameMap::new(), tearing_capable(), differs);
    let stale = plan_outputs(&observed, &desired, &applied, tearing_capable(), differs);
    assert_eq!(fresh.commands, stale.commands);
    assert_eq!(fresh.divergences, stale.divergences);
    assert_eq!(fresh.topology_changed, stale.topology_changed);
    assert_eq!(fresh.workspaces.get("HDMI-A-1"), stale.workspaces.get("HDMI-A-1"));
    assert_eq!(fresh.applied.get("HDMI-A-1"), stale.applied.get("HDMI-A-1"));
}

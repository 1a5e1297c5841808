//! Which geometry is saved, and which is in force.
use suede::config::{
    CanvasConfig, CanvasRect, Corners, DesiredState, OutputConfig, OutputGeometry, Point,
    ProjectionConfig, ProjectionMode, Renderer,
};
use suede::model::{Mode, OutputMatch, Position, Real};
use suede::projection_policy::{
    preserve_retained, status, validate_activation, ProjectionControlStatus,
};

fn number(value: f64) -> Real {
    Real { bits: value.to_bits() }
}

fn point(at: [f64; 2]) -> Point {
    Point { x: number(at[0]), y: number(at[1]) }
}

fn corners(at: [[f64; 2]; 4]) -> Corners {
    Corners {
        top_left: point(at[0]),
        top_right: point(at[1]),
        bottom_right: point(at[2]),
        bottom_left: point(at[3]),
    }
}

fn saved() -> DesiredState {
    let mut d = DesiredState::new();
    d.projection = Some(ProjectionConfig {
        mode: ProjectionMode::Warp,
        canvas: Some(CanvasConfig {
            aspect: number(1.0),
            render_width: 100,
        }),
        ..Default::default()
    });
    let mut output = OutputConfig::new(OutputMatch::by_name("A"));
    output.mode = Some(Mode {
        width: 100,
        height: 100,
        refresh_mhz: 60_000,
    });
    output.position = Some(Position { x: 0, y: 0 });
    let r = CanvasRect {
        x: number(0.0),
        y: number(0.0),
        width: number(1.0),
        height: number(1.0),
    };
    output.geometry = Some(OutputGeometry {
        slice: r,
        raster_footprint: r,
        corners: corners([[0.1, 0.1], [1.0, 0.0], [1.0, 1.0], [0.0, 1.0]]),
        center: point([0.4, 0.6]),
    });
    d.outputs.push(output);
    d
}

#[test]
fn simple_edits_cannot_replace_retained_geometry_or_canvas() {
    let before = saved();
    let mut next = before.clone();
    next.projection.as_mut().unwrap().mode = ProjectionMode::Simple;
    next.projection.as_mut().unwrap().canvas = None;
    next.outputs[0].geometry = None;
    next.outputs[0].position = Some(Position { x: 13, y: 17 });
    preserve_retained(&mut next, &before);
    assert_eq!(next.outputs[0].geometry, before.outputs[0].geometry);
    assert_eq!(
        next.projection.as_ref().unwrap().canvas,
        before.projection.as_ref().unwrap().canvas
    );
    assert_eq!(next.outputs[0].position.unwrap().x, 13);
}

#[test]
fn simple_shared_edits_survive_retention_and_do_not_need_integer_positions() {
    let before = saved();
    let mut next = before.clone();
    next.projection.as_mut().unwrap().mode = ProjectionMode::Simple;
    next.projection
        .as_mut()
        .unwrap()
        .canvas
        .as_mut()
        .unwrap()
        .render_width = 75;
    next.outputs[0].position = None;
    next.outputs[0].geometry.as_mut().unwrap().slice.x = number(-0.125);
    preserve_retained(&mut next, &before);
    assert_eq!(
        next.projection
            .as_ref()
            .unwrap()
            .canvas
            .unwrap()
            .render_width,
        75
    );
    let geometry = next.outputs[0].geometry.as_ref().unwrap();
    let old = before.outputs[0].geometry.as_ref().unwrap();
    assert_eq!(geometry.slice.x, number(-0.125));
    assert_eq!(geometry.corners, old.corners);
    assert_eq!(geometry.center, old.center);
    assert_eq!(geometry.raster_footprint, old.raster_footprint);
}

#[test]
fn fallback_allows_shared_edits_but_still_guards_correction() {
    let before = saved();
    let mut next = before.clone();
    next.projection
        .as_mut()
        .unwrap()
        .canvas
        .as_mut()
        .unwrap()
        .render_width = 50;
    next.outputs[0].geometry.as_mut().unwrap().slice.x = number(0.125);
    let cpu = ProjectionControlStatus {
        requested_renderer: Some(Renderer::Auto),
        effective_renderer: Some(Renderer::Cpu),
        warp_available: Some(false),
        ..Default::default()
    };
    assert!(validate_activation(&next, &before, &cpu, true, true).is_ok());
    assert_eq!(next.projection.as_ref().unwrap().mode, ProjectionMode::Warp);
    next.outputs[0].geometry.as_mut().unwrap().center.x = number(0.625);
    assert!(validate_activation(&next, &before, &cpu, true, true).is_err());
}



#[test]
fn unsupported_or_unresolved_activation_rejects_without_replacing_saved_state() {
    let requested = saved();
    let mut simple = requested.clone();
    simple.projection.as_mut().unwrap().mode = ProjectionMode::Simple;
    assert!(
        validate_activation(&requested, &simple, &Default::default(), false, true).is_err()
    );
    let cpu = ProjectionControlStatus {
        requested_renderer: Some(Renderer::Auto),
        effective_renderer: Some(Renderer::Cpu),
        warp_available: Some(false),
        ..Default::default()
    };
    assert!(validate_activation(&requested, &simple, &cpu, true, true).is_err());
    assert_eq!(
        status(&requested, &cpu, true, true, None).effective_mode,
        ProjectionMode::Simple
    );
    assert_eq!(simple.outputs[0].geometry, requested.outputs[0].geometry);
}

#[test]
fn capability_recovery_restores_saved_pins_and_pending_restart_does_not_oscillate() {
    let requested = saved();
    let mut simple = requested.clone();
    simple.projection.as_mut().unwrap().mode = ProjectionMode::Simple;
    let gpu = ProjectionControlStatus {
        requested_renderer: Some(Renderer::Auto),
        effective_renderer: Some(Renderer::Gpu),
        warp_available: Some(true),
        ..Default::default()
    };
    assert!(validate_activation(&requested, &simple, &gpu, true, true).is_ok());
    let restored = status(&requested, &gpu, true, true, None);
    assert_eq!(restored.effective_mode, ProjectionMode::Warp);
    let pending = status(&requested, &Default::default(), true, true, Some(&restored));
    assert_eq!(pending.effective_mode, ProjectionMode::Warp);
    assert_eq!(pending.warp_available, None);
    let failed = ProjectionControlStatus {
        warp_available: Some(false),
        ..gpu
    };
    assert_eq!(
        status(&requested, &failed, true, true, Some(&pending)).effective_mode,
        ProjectionMode::Simple
    );
    let mut changed = requested.clone();
    changed.projection.as_mut().unwrap().renderer = Renderer::Gpu;
    assert_eq!(
        status(&changed, &Default::default(), true, true, Some(&restored)).effective_mode,
        ProjectionMode::Simple
    );
}

#[test]
fn a_refused_activation_says_what_is_missing_and_that_nothing_is_lost() {
    let requested = saved();
    let mut simple = requested.clone();
    simple.projection.as_mut().unwrap().mode = ProjectionMode::Simple;
    let cpu = ProjectionControlStatus {
        requested_renderer: Some(Renderer::Auto),
        effective_renderer: Some(Renderer::Cpu),
        warp_available: Some(false),
        warp_reason: Some("no device".to_string()),
    };
    let refusal = validate_activation(&requested, &simple, &cpu, true, true).unwrap_err();
    assert!(refusal.starts_with("warp_unavailable: "));
    assert!(refusal.contains("retained warp settings remain saved"));
    assert!(validate_activation(&simple, &requested, &cpu, true, true).is_ok());
}

#[test]
fn retention_is_idempotent_and_leaves_warp_edits_alone() {
    let before = saved();
    let mut next = DesiredState::new();
    next.outputs.push(OutputConfig::new(OutputMatch::by_name("A")));
    preserve_retained(&mut next, &before);
    assert_eq!(next.projection.as_ref().unwrap().canvas, before.projection.as_ref().unwrap().canvas);
    assert_eq!(next.outputs[0].geometry, before.outputs[0].geometry);
    let once = next.outputs[0].clone();
    preserve_retained(&mut next, &before);
    assert_eq!(next.outputs[0], once);

    let mut warp = saved();
    warp.outputs[0].geometry = None;
    preserve_retained(&mut warp, &before);
    assert_eq!(warp.outputs[0].geometry, None);
}

//! Geometry read from a file.
use suede::config::{Corners, Point, Renderer};
use suede::model::{Real, Rect};
use suede::projection::slices::{SliceSpec, SlicerSpec};
use suede::projection::warp_spike::{
    default_workers, make_geometry, neutral, validate, BuildStep, Controller, FileStep, Pins,
    Settings,
};

const MILLI: u64 = 1_000_000;

fn number(value: f64) -> Real {
    Real { bits: value.to_bits() }
}

fn point(at: [f64; 2]) -> Point {
    Point { x: number(at[0]), y: number(at[1]) }
}

fn pins(at: [[f64; 2]; 4]) -> Pins {
    Pins {
        corners: Corners {
            top_left: point(at[0]),
            top_right: point(at[1]),
            bottom_right: point(at[2]),
            bottom_left: point(at[3]),
        },
        center: neutral(),
        force_general: false,
    }
}

fn spec(names: &[&str]) -> SlicerSpec {
    SlicerSpec {
        control_session: String::new(),
        source: "canvas".into(),
        canvas_width: 8,
        canvas_height: 8,
        gamma: number(2.2),
        black_lift: number(0.1),
        pattern: None,
        free_run: false,
        renderer: Renderer::Auto,
        slices: names
            .iter()
            .map(|name| SliceSpec {
                output: name.to_string(),
                source: Rect { x: 0, y: 0, width: 8, height: 8 },
                source_rect: None,
                geometry: None,
                ramps: vec![],
            })
            .collect(),
    }
}

fn settings(outputs: Vec<(String, Pins)>) -> Settings {
    Settings { outputs, workers: default_workers() }
}

const SIZES: [(u32, u32); 2] = [(8, 8), (8, 8)];

fn moved() -> Settings {
    settings(vec![(
        "B".to_string(),
        pins([[1.0, 1.0], [7.0, 0.0], [8.0, 7.0], [0.0, 8.0]]),
    )])
}

fn identity() -> Settings {
    settings(vec![(
        "B".to_string(),
        pins([[-0.0, 0.0], [8.0, 0.0], [8.0, 8.0], [0.0, 8.0]]),
    )])
}

#[test]
fn selected_build_is_sparse_and_identity_is_normalized() {
    let s = spec(&["A", "B"]);
    let omitted = validate(Ok(settings(vec![])), &s, &SIZES, &[None, None]).unwrap();
    let explicit = validate(Ok(identity()), &s, &SIZES, &[None, None]).unwrap();
    assert_eq!(omitted.geometry[1], explicit.geometry[1]);
    assert_eq!(omitted.geometry[0], make_geometry(None, 8, 8));
    let changed = validate(Ok(moved()), &s, &SIZES, &[None, None]).unwrap();
    let mut controller = Controller::new(2, 0);
    controller.installed(&[(0, omitted.geometry[0]), (1, omitted.geometry[1])]);
    assert_eq!(controller.changed_indices(&changed.geometry), vec![1]);
}

fn fault(parsed: Result<Settings, String>, sizes: &[(u32, u32)]) -> String {
    let s = spec(&["A", "B"]);
    validate(parsed, &s, sizes, &[None, Some("center".to_string())]).unwrap_err()
}

#[test]
fn invalid_file_does_not_build() {
    assert_eq!(fault(Ok(settings(vec![])), &[]), "output count mismatch");
    assert_eq!(fault(Err("bad".to_string()), &SIZES), "bad");
    let none = Settings { workers: 0, ..settings(vec![]) };
    assert_eq!(fault(Ok(none), &SIZES), "workers must be in 1..=8");
    let unknown = settings(vec![(
        "unknown".to_string(),
        pins([[0.0, 0.0], [8.0, 0.0], [8.0, 8.0], [0.0, 8.0]]),
    )]);
    assert_eq!(fault(Ok(unknown), &SIZES), "unknown output unknown");
    assert_eq!(
        fault(Ok(settings(vec![])), &[(0, 8), (8, 8)]),
        "spike supports nonzero outputs up to 32 megapixels"
    );
    assert_eq!(
        fault(Ok(settings(vec![])), &[(8, 8), (8, 9)]),
        "spike requires unit scale and output size equal to source rectangle"
    );
    assert_eq!(fault(Ok(moved()), &SIZES), "center");
}

/// Reads a file and builds what it asks for.
fn read(c: &mut Controller, bytes: &[u8], parsed: Settings, now: u64) -> BuildStep {
    assert!(c.read_due(now));
    match c.file_read(Ok(bytes.to_vec())) {
        FileStep::Check(bytes) => {
            let s = spec(&["A", "B"]);
            c.checked(bytes, validate(Ok(parsed), &s, &SIZES, &[None, None]))
        }
        _ => BuildStep::Nothing,
    }
}

fn started() -> Controller {
    let mut c = Controller::new(2, 1_000 * MILLI);
    let identity = make_geometry(None, 8, 8);
    c.installed(&[(0, identity), (1, identity)]);
    c
}

#[test]
fn one_output_edits_reset_and_effective_noops_stay_local() {
    let mut c = started();
    let initial = c.installed.clone();
    let mut now = 1_000 * MILLI;
    let BuildStep::Build { revision, indices } = read(&mut c, b"moved", moved(), now) else {
        panic!("expected a build");
    };
    assert_eq!((revision, indices), (1, vec![1]));
    assert_eq!(c.installed, initial, "worker completion is not installation");
    assert!(!c.read_due(now + 1_000 * MILLI), "one build at a time");
    c.build_ended();
    let s = spec(&["A", "B"]);
    let changed = validate(Ok(moved()), &s, &SIZES, &[None, None]).unwrap();
    c.installed(&[(1, changed.geometry[1])]);
    assert_eq!(c.installed[0], initial[0]);
    assert_ne!(c.installed[1], initial[1]);

    now += 10 * MILLI;
    let BuildStep::Build { revision, indices } = read(&mut c, b"{}", settings(vec![]), now) else {
        panic!("expected a build");
    };
    assert_eq!((revision, indices), (2, vec![1]));
    c.build_ended();
    c.installed(&[(1, make_geometry(None, 8, 8))]);
    assert_eq!(c.installed, initial);

    now += 10 * MILLI;
    let mut noop = identity();
    noop.workers = 8;
    assert!(matches!(read(&mut c, b"identity", noop, now), BuildStep::Nothing));
    assert!(!c.pending);
}

#[test]
fn completed_intermediate_installs_then_revert_is_rebuilt() {
    let mut c = started();
    let initial = c.installed.clone();
    let now = 1_000 * MILLI;
    assert!(matches!(read(&mut c, b"moved", moved(), now), BuildStep::Build { revision: 1, .. }));
    assert!(!c.read_due(now + 20 * MILLI), "no new diff before the build ends");
    c.build_ended();
    let s = spec(&["A", "B"]);
    let changed = validate(Ok(moved()), &s, &SIZES, &[None, None]).unwrap();
    c.installed(&[(1, changed.geometry[1])]);
    let BuildStep::Build { revision, indices } =
        read(&mut c, b"{}", settings(vec![]), now + 20 * MILLI)
    else {
        panic!("expected a build");
    };
    assert!(revision > 1);
    assert_eq!(indices, vec![1]);
    c.build_ended();
    c.installed(&[(1, make_geometry(None, 8, 8))]);
    assert_eq!(c.installed, initial);
}

#[test]
fn invalid_batch_rejects_before_any_worker_and_keeps_installed_state() {
    let mut c = started();
    let initial = c.installed.clone();
    assert!(c.read_due(1_000 * MILLI));
    let s = spec(&["A", "B"]);
    let refused = validate(Ok(moved()), &s, &SIZES, &[None, Some("center".to_string())]);
    let step = c.checked(b"bad".to_vec(), refused);
    assert!(matches!(step, BuildStep::Refused(reason) if reason == "center"));
    assert!(!c.pending);
    assert_eq!(c.installed, initial);
    assert!(matches!(c.file_read(Ok(b"bad".to_vec())), FileStep::Nothing));
}

#[test]
fn a_file_that_cannot_be_used_is_reported_each_time() {
    let c = started();
    for _ in 0..2 {
        let step = c.file_read(Err("gone".to_string()));
        assert!(matches!(step, FileStep::Refused(reason) if reason == "warp file: gone"));
        let step = c.file_read(Ok(vec![0; 1_048_577]));
        assert!(matches!(step, FileStep::Refused(reason) if reason == "warp file exceeds 1 MiB"));
    }
}

#[test]
fn the_file_is_read_no_more_than_every_ten_milliseconds() {
    let mut c = started();
    assert!(c.read_due(1_000 * MILLI));
    assert!(!c.read_due(1_009 * MILLI));
    assert!(c.read_due(1_010 * MILLI));
}
